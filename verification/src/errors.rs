use vstd::prelude::*;

verus! {

/// The error taxonomy of the core.
///
/// Transport failures (a bulk transfer that failed or timed out) never pass
/// through the verified functions; they stay with the caller that performs
/// the USB I/O. The variants here cover everything the core itself decides.
#[derive(Copy, Clone, PartialEq, Eq, Structural, Debug)]
pub enum RfCatError {
    /// A frame buffer is shorter than its header, or shorter than the
    /// payload length the header declares.
    TruncatedFrame,
    /// A decoded reply's mailbox or command differs from the request it is
    /// supposed to answer: the stream is desynchronized.
    ReplyMismatch,
    /// A payload that should carry text is not valid UTF-8.
    InvalidText,
    /// A selector token is not of the form the matcher accepts.
    BadSelector,
}

} // verus!

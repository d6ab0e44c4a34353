use vstd::prelude::*;

use crate::commands::{
    command_code_known, mailbox_code_known, spec_command_code, spec_command_of,
    spec_mailbox_code, spec_mailbox_of, AppMailbox, SystemCommand,
};
use crate::errors::RfCatError;

verus! {

/// One framed protocol message.
///
/// `received` only records whether the packet was decoded off the wire, as
/// opposed to built locally; it carries no protocol meaning.
#[derive(Clone, PartialEq, Eq, Debug)]
pub struct RfCatPacket {
    pub mbx: AppMailbox,
    pub cmd: SystemCommand,
    pub payload: Vec<u8>,
    pub received: bool,
}

/// The request frame a packet is written as: mailbox byte, command byte,
/// payload length as two little-endian bytes (the length truncated to 16
/// bits), then the payload bytes.
pub open spec fn spec_encode(p: RfCatPacket) -> Seq<u8> {
    seq![
        spec_mailbox_code(p.mbx),
        spec_command_code(p.cmd),
        (p.payload@.len() % 256) as u8,
        ((p.payload@.len() / 256) % 256) as u8,
    ] + p.payload@
}

/// The payload length a frame header declares: the little-endian 16-bit
/// value at offsets 3 and 4.
pub open spec fn spec_declared_len(bytes: Seq<u8>) -> int
    recommends
        bytes.len() >= 5,
{
    bytes[3] + 256 * bytes[4]
}

/// What a reply buffer decodes to: mailbox at offset 1, command at offset 2,
/// payload length at offsets 3-4, payload at offsets 5 onward. Offset 0 is
/// the frame-capacity byte the device echoes; the codec skips it. A buffer
/// shorter than its header, or than the payload length the header declares,
/// decodes to nothing.
pub open spec fn spec_decode(bytes: Seq<u8>) -> Option<(AppMailbox, SystemCommand, Seq<u8>)> {
    if bytes.len() < 5 {
        None
    } else if bytes.len() < 5 + spec_declared_len(bytes) {
        None
    } else {
        Some(
            (
                spec_mailbox_of(bytes[1]),
                spec_command_of(bytes[2]),
                bytes.subrange(5, 5 + spec_declared_len(bytes)),
            ),
        )
    }
}

impl RfCatPacket {
    /// A packet with an empty payload, built locally.
    pub fn simple(mbx: AppMailbox, cmd: SystemCommand) -> (p: RfCatPacket)
        ensures
            p.mbx == mbx,
            p.cmd == cmd,
            p.payload@ == Seq::<u8>::empty(),
            p.received == false,
    {
        let p = RfCatPacket { mbx, cmd, payload: Vec::<u8>::new(), received: false };
        proof {
            assert(p.payload@ =~= Seq::<u8>::empty());
        }
        p
    }

    /// A packet carrying the given payload, built locally.
    pub fn payload(mbx: AppMailbox, cmd: SystemCommand, payload: Vec<u8>) -> (p: RfCatPacket)
        ensures
            p.mbx == mbx,
            p.cmd == cmd,
            p.payload == payload,
            p.received == false,
    {
        RfCatPacket { mbx, cmd, payload, received: false }
    }

    /// Serialize this packet as a request frame.
    pub fn to_bytes(&self) -> (bytes: Vec<u8>)
        ensures
            bytes@ == spec_encode(*self),
    {
        let mut out: Vec<u8> = Vec::new();
        out.push(self.mbx.to_byte());
        out.push(self.cmd.to_byte());
        out.push((self.payload.len() % 256) as u8);
        out.push(((self.payload.len() / 256) % 256) as u8);
        out.extend_from_slice(self.payload.as_slice());
        proof {
            assert(out@ =~= spec_encode(*self));
        }
        out
    }

    /// Deserialize a reply buffer. A buffer too short for its header or for
    /// the payload length it declares is rejected as truncated, never read
    /// out of bounds; unrecognized mailbox or command codes are tagged
    /// `UNKNOWN`, never rejected.
    pub fn from_bytes(bytes: Vec<u8>) -> (r: Result<RfCatPacket, RfCatError>)
        ensures
            match spec_decode(bytes@) {
                Some(t) => r matches Ok(p) && p.mbx == t.0 && p.cmd == t.1 && p.payload@ == t.2
                    && p.received == true,
                None => r == Err::<RfCatPacket, RfCatError>(RfCatError::TruncatedFrame),
            },
    {
        if bytes.len() < 5 {
            return Err(RfCatError::TruncatedFrame);
        }
        let plen: usize = bytes[3] as usize + 256 * bytes[4] as usize;
        if bytes.len() - 5 < plen {
            return Err(RfCatError::TruncatedFrame);
        }
        let end: usize = 5 + plen;
        let mut payload: Vec<u8> = Vec::new();
        let mut off: usize = 5;
        while off < end
            invariant
                5 <= off <= end,
                end == 5 + spec_declared_len(bytes@),
                end <= bytes@.len(),
                payload@ == bytes@.subrange(5, off as int),
            decreases end - off,
        {
            payload.push(bytes[off]);
            off = off + 1;
            proof {
                assert(payload@ =~= bytes@.subrange(5, off as int));
            }
        }
        proof {
            assert(payload@ =~= bytes@.subrange(5, 5 + spec_declared_len(bytes@)));
        }
        Ok(
            RfCatPacket {
                mbx: AppMailbox::from_byte(bytes[1]),
                cmd: SystemCommand::from_byte(bytes[2]),
                payload,
                received: true,
            },
        )
    }
}

/// Round trip: any packet whose mailbox and command are from the known sets
/// and whose payload holds at most 65535 bytes decodes, after the reply-only
/// leading echo byte is put in front of its encoding, back to the same
/// mailbox, command and payload.
pub proof fn lemma_codec_round_trip(p: RfCatPacket, echo: u8)
    requires
        p.mbx != AppMailbox::UNKNOWN,
        p.cmd != SystemCommand::UNKNOWN,
        p.payload@.len() <= 0xffff,
    ensures
        spec_decode(seq![echo] + spec_encode(p)) matches Some(t) && t.0 == p.mbx && t.1 == p.cmd
            && t.2 == p.payload@,
{
    let framed = seq![echo] + spec_encode(p);
    let len = p.payload@.len() as int;
    assert(framed.len() == 5 + len);
    assert(framed[3] == (len % 256) as u8);
    assert(framed[4] == ((len / 256) % 256) as u8);
    assert(len / 256 < 256) by {
        assert(len <= 0xffff);
    }
    assert((len / 256) % 256 == len / 256);
    assert(256 * (len / 256) + len % 256 == len) by {
        vstd::arithmetic::div_mod::lemma_fundamental_div_mod(len, 256);
    }
    assert(spec_declared_len(framed) == len);
    assert(framed.subrange(5, 5 + len) =~= p.payload@);
    crate::commands::lemma_mailbox_code_round_trip(p.mbx);
    crate::commands::lemma_command_code_round_trip(p.cmd);
}

/// Decoding never fails on unrecognized code bytes: any buffer long enough
/// for the payload length it declares decodes, and a mailbox or command code
/// outside the known sets comes back as `UNKNOWN` rather than as an error.
pub proof fn lemma_decode_tags_unknown(bytes: Seq<u8>)
    requires
        bytes.len() >= 5,
        bytes.len() >= 5 + spec_declared_len(bytes),
    ensures
        spec_decode(bytes) is Some,
        !mailbox_code_known(bytes[1]) ==> spec_decode(bytes)->Some_0.0 == AppMailbox::UNKNOWN,
        !command_code_known(bytes[2]) ==> spec_decode(bytes)->Some_0.1 == SystemCommand::UNKNOWN,
{
}

} // verus!

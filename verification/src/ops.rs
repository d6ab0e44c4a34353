use vstd::prelude::*;

use crate::codec::{spec_decode, RfCatPacket};
use crate::commands::{AppMailbox, RfState, SystemCommand, spec_rf_state_code};
use crate::errors::RfCatError;

verus! {

/// Whether a decoded reply answers the given request: its mailbox and
/// command must both equal the request's.
pub open spec fn spec_reply_matches(request: RfCatPacket, reply: RfCatPacket) -> bool {
    reply.mbx == request.mbx && reply.cmd == request.cmd
}

/// Verify that a reply belongs to the request that is waiting for it. A
/// mismatch signals desynchronization (a stale reply still in flight) and is
/// a protocol error, distinct from any transport failure; it is never
/// silently accepted.
pub fn check_reply(request: &RfCatPacket, reply: &RfCatPacket) -> (r: Result<(), RfCatError>)
    ensures
        r is Ok <==> spec_reply_matches(*request, *reply),
        r is Err ==> r == Err::<(), RfCatError>(RfCatError::ReplyMismatch),
{
    if request.mbx == reply.mbx && request.cmd == reply.cmd {
        Ok(())
    } else {
        Err(RfCatError::ReplyMismatch)
    }
}

/// Decode a raw reply buffer and verify that it answers the given request:
/// the read+decode half of one dispatched round trip. A truncated buffer is
/// rejected as such; a complete frame whose mailbox or command differ from
/// the request's is a protocol error.
pub fn correlate_reply(request: &RfCatPacket, bytes: Vec<u8>) -> (r: Result<
    RfCatPacket,
    RfCatError,
>)
    ensures
        match spec_decode(bytes@) {
            None => r == Err::<RfCatPacket, RfCatError>(RfCatError::TruncatedFrame),
            Some(t) => if t.0 == request.mbx && t.1 == request.cmd {
                r matches Ok(p) && p.mbx == t.0 && p.cmd == t.1 && p.payload@ == t.2 && p.received
                    == true
            } else {
                r == Err::<RfCatPacket, RfCatError>(RfCatError::ReplyMismatch)
            },
        },
{
    let reply = match RfCatPacket::from_bytes(bytes) {
        Ok(p) => p,
        Err(e) => {
            return Err(e);
        },
    };
    match check_reply(request, &reply) {
        Ok(()) => Ok(reply),
        Err(e) => Err(e),
    }
}

/// The request packet of a ping: system mailbox, ping command, no payload.
pub fn ping_request() -> (p: RfCatPacket)
    ensures
        p.mbx == AppMailbox::AppSystem,
        p.cmd == SystemCommand::Ping,
        p.payload@ == Seq::<u8>::empty(),
        p.received == false,
{
    RfCatPacket::simple(AppMailbox::AppSystem, SystemCommand::Ping)
}

/// The request packet that tells the device to escape into its bootloader.
pub fn bootloader_request() -> (p: RfCatPacket)
    ensures
        p.mbx == AppMailbox::AppSystem,
        p.cmd == SystemCommand::Bootloader,
        p.payload@ == Seq::<u8>::empty(),
        p.received == false,
{
    RfCatPacket::simple(AppMailbox::AppSystem, SystemCommand::Bootloader)
}

/// The request packet that asks for the firmware build name.
pub fn buildname_request() -> (p: RfCatPacket)
    ensures
        p.mbx == AppMailbox::AppSystem,
        p.cmd == SystemCommand::BuildType,
        p.payload@ == Seq::<u8>::empty(),
        p.received == false,
{
    RfCatPacket::simple(AppMailbox::AppSystem, SystemCommand::BuildType)
}

/// The request packet that asks for the firmware's compiler string.
pub fn compiler_request() -> (p: RfCatPacket)
    ensures
        p.mbx == AppMailbox::AppSystem,
        p.cmd == SystemCommand::Compiler,
        p.payload@ == Seq::<u8>::empty(),
        p.received == false,
{
    RfCatPacket::simple(AppMailbox::AppSystem, SystemCommand::Compiler)
}

/// The peek request payload: the byte count as two little-endian bytes,
/// then the address as two little-endian bytes.
pub open spec fn spec_peek_payload(addr: u16, count: u16) -> Seq<u8> {
    seq![
        (count % 256) as u8,
        (count / 256) as u8,
        (addr % 256) as u8,
        (addr / 256) as u8,
    ]
}

/// The request packet that reads `count` bytes of device memory at `addr`.
pub fn peek_request(addr: u16, count: u16) -> (p: RfCatPacket)
    ensures
        p.mbx == AppMailbox::AppSystem,
        p.cmd == SystemCommand::Peek,
        p.payload@ == spec_peek_payload(addr, count),
        p.received == false,
{
    let mut payload: Vec<u8> = Vec::new();
    payload.push((count % 256) as u8);
    payload.push((count / 256) as u8);
    payload.push((addr % 256) as u8);
    payload.push((addr / 256) as u8);
    proof {
        assert(payload@ =~= spec_peek_payload(addr, count));
    }
    RfCatPacket::payload(AppMailbox::AppSystem, SystemCommand::Peek, payload)
}

/// The fixed NUL-terminated `RESET_NOW` literal a reset request carries.
pub open spec fn spec_reset_payload() -> Seq<u8> {
    seq![0x52u8, 0x45u8, 0x53u8, 0x45u8, 0x54u8, 0x5fu8, 0x4eu8, 0x4fu8, 0x57u8, 0x00u8]
}

/// The request packet that resets the device. No reply is expected or
/// awaited for it.
pub fn reset_request() -> (p: RfCatPacket)
    ensures
        p.mbx == AppMailbox::AppSystem,
        p.cmd == SystemCommand::Reset,
        p.payload@ == spec_reset_payload(),
        p.received == false,
{
    // the ASCII bytes of "RESET_NOW" with a trailing NUL
    let payload: Vec<u8> = vec![0x52, 0x45, 0x53, 0x45, 0x54, 0x5f, 0x4e, 0x4f, 0x57, 0x00];
    proof {
        assert(payload@ =~= spec_reset_payload());
    }
    RfCatPacket::payload(AppMailbox::AppSystem, SystemCommand::Reset, payload)
}

/// The request packet that sets the radio's RF mode.
pub fn rf_mode_request(state: RfState) -> (p: RfCatPacket)
    ensures
        p.mbx == AppMailbox::AppSystem,
        p.cmd == SystemCommand::RFMode,
        p.payload@ == seq![spec_rf_state_code(state)],
        p.received == false,
{
    let mut payload: Vec<u8> = Vec::new();
    payload.push(state.to_byte());
    proof {
        assert(payload@ =~= seq![spec_rf_state_code(state)]);
    }
    RfCatPacket::payload(AppMailbox::AppSystem, SystemCommand::RFMode, payload)
}

/// Interpret the reply to a ping or bootloader request: any well-formed
/// reply that answers the request means success.
pub fn interpret_ack_reply(request: &RfCatPacket, reply: &RfCatPacket) -> (r: Result<
    bool,
    RfCatError,
>)
    ensures
        spec_reply_matches(*request, *reply) ==> r == Ok::<bool, RfCatError>(true),
        !spec_reply_matches(*request, *reply) ==> r == Err::<bool, RfCatError>(
            RfCatError::ReplyMismatch,
        ),
{
    match check_reply(request, reply) {
        Ok(()) => Ok(true),
        Err(e) => Err(e),
    }
}

/// Relies on `String::from_utf8`: it succeeds exactly on valid UTF-8 input
/// and returns the string of the decoded characters.
#[verifier::external_body]
fn bytes_to_string(bytes: Vec<u8>) -> (r: Option<String>)
    ensures
        match r {
            Some(s) => vstd::utf8::valid_utf8(bytes@) && s@ == vstd::utf8::decode_utf8(bytes@),
            None => !vstd::utf8::valid_utf8(bytes@),
        },
{
    String::from_utf8(bytes).ok()
}

/// Interpret the reply to a build-name or compiler query. An empty payload
/// means the firmware has no such string: that is an absent result, not an
/// error. A non-empty payload must be valid UTF-8; anything else is a
/// malformed device response.
pub fn interpret_string_reply(request: &RfCatPacket, reply: &RfCatPacket) -> (r: Result<
    Option<String>,
    RfCatError,
>)
    ensures
        !spec_reply_matches(*request, *reply) ==> r == Err::<Option<String>, RfCatError>(
            RfCatError::ReplyMismatch,
        ),
        spec_reply_matches(*request, *reply) && reply.payload@.len() == 0 ==> r == Ok::<
            Option<String>,
            RfCatError,
        >(None),
        spec_reply_matches(*request, *reply) && reply.payload@.len() > 0
            && vstd::utf8::valid_utf8(reply.payload@) ==> (r matches Ok(Some(s)) && s@
            == vstd::utf8::decode_utf8(reply.payload@)),
        spec_reply_matches(*request, *reply) && reply.payload@.len() > 0
            && !vstd::utf8::valid_utf8(reply.payload@) ==> r == Err::<Option<String>, RfCatError>(
            RfCatError::InvalidText,
        ),
{
    match check_reply(request, reply) {
        Ok(()) => {
            if reply.payload.len() == 0 {
                Ok(None)
            } else {
                let bytes = reply.payload.clone();
                proof {
                    assert(bytes@ =~= reply.payload@);
                }
                match bytes_to_string(bytes) {
                    Some(s) => Ok(Some(s)),
                    None => Err(RfCatError::InvalidText),
                }
            }
        },
        Err(e) => Err(e),
    }
}

/// Interpret the reply to a peek request: the raw payload bytes are the
/// memory that was read, expected to hold exactly the requested count.
pub fn interpret_peek_reply(request: &RfCatPacket, reply: RfCatPacket) -> (r: Result<
    Vec<u8>,
    RfCatError,
>)
    ensures
        spec_reply_matches(*request, reply) ==> (r matches Ok(data) && data@ == reply.payload@),
        !spec_reply_matches(*request, reply) ==> r == Err::<Vec<u8>, RfCatError>(
            RfCatError::ReplyMismatch,
        ),
{
    match check_reply(request, &reply) {
        Ok(()) => Ok(reply.payload),
        Err(e) => Err(e),
    }
}

/// The two magic bytes at address 0xdf46 that mark a resident bootloader.
pub open spec fn spec_bootloader_magic() -> Seq<u8> {
    seq![0xf0u8, 0x0du8]
}

/// The bootloader-presence check: peeking two bytes at 0xdf46 reports a
/// resident bootloader exactly when the returned bytes are 0xf0 0x0d; any
/// other byte pair means none is present.
pub fn bootloader_present(magic: &Vec<u8>) -> (r: bool)
    ensures
        r <==> magic@ == spec_bootloader_magic(),
{
    let r = magic.len() == 2 && magic[0] == 0xf0 && magic[1] == 0x0d;
    proof {
        if magic@.len() == 2 && magic@[0] == 0xf0u8 && magic@[1] == 0x0du8 {
            assert(magic@ =~= spec_bootloader_magic());
        }
        if magic@ == spec_bootloader_magic() {
            assert(magic@.len() == 2);
        }
    }
    r
}

} // verus!

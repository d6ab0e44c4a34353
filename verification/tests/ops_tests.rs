use whiskers::codec::RfCatPacket;
use whiskers::commands::{AppMailbox, RfState, SystemCommand};
use whiskers::errors::RfCatError;
use whiskers::ops;

#[test]
fn ping_round_trip_acknowledged() {
    let request = ops::ping_request();
    assert_eq!(request.to_bytes(), vec![0xff, 0x82, 0x00, 0x00]);
    let reply_bytes = vec![64, 0xff, 0x82, 0x00, 0x00];
    let reply = ops::correlate_reply(&request, reply_bytes).unwrap();
    assert_eq!(ops::interpret_ack_reply(&request, &reply), Ok(true));
}

#[test]
fn mismatched_reply_is_protocol_error() {
    // a stale reply for another command must never be silently accepted
    let request = ops::ping_request();
    let stale = vec![64, 0xff, 0x86, 0x00, 0x00];
    assert_eq!(
        ops::correlate_reply(&request, stale),
        Err(RfCatError::ReplyMismatch)
    );
    let other_mailbox = vec![64, 0x01, 0x82, 0x00, 0x00];
    assert_eq!(
        ops::correlate_reply(&request, other_mailbox),
        Err(RfCatError::ReplyMismatch)
    );
}

#[test]
fn truncated_reply_is_distinct_from_mismatch() {
    let request = ops::ping_request();
    assert_eq!(
        ops::correlate_reply(&request, vec![64, 0xff]),
        Err(RfCatError::TruncatedFrame)
    );
}

#[test]
fn buildname_present() {
    let request = ops::buildname_request();
    let reply_bytes = vec![64, 0xff, 0x86, 0x04, 0x00, b'T', b'E', b'S', b'T'];
    let reply = ops::correlate_reply(&request, reply_bytes).unwrap();
    let name = ops::interpret_string_reply(&request, &reply).unwrap();
    assert_eq!(name, Some(String::from("TEST")));
}

#[test]
fn buildname_empty_payload_is_absent() {
    let request = ops::buildname_request();
    let reply = RfCatPacket::from_bytes(vec![64, 0xff, 0x86, 0x00, 0x00]).unwrap();
    assert_eq!(ops::interpret_string_reply(&request, &reply), Ok(None));
}

#[test]
fn buildname_invalid_utf8_is_error() {
    let request = ops::buildname_request();
    let reply = RfCatPacket::from_bytes(vec![64, 0xff, 0x86, 0x02, 0x00, 0xff, 0xfe]).unwrap();
    assert_eq!(
        ops::interpret_string_reply(&request, &reply),
        Err(RfCatError::InvalidText)
    );
}

#[test]
fn compiler_string_decodes() {
    let request = ops::compiler_request();
    let reply_bytes = vec![64, 0xff, 0x89, 0x08, 0x00, b'S', b'D', b'C', b'C', b'v', b'3', b'7',
        b'0'];
    let reply = ops::correlate_reply(&request, reply_bytes).unwrap();
    let compiler = ops::interpret_string_reply(&request, &reply).unwrap();
    assert_eq!(compiler, Some(String::from("SDCCv370")));
}

#[test]
fn string_reply_for_wrong_command_is_mismatch() {
    let request = ops::buildname_request();
    let reply = RfCatPacket::from_bytes(vec![64, 0xff, 0x89, 0x00, 0x00]).unwrap();
    assert_eq!(
        ops::interpret_string_reply(&request, &reply),
        Err(RfCatError::ReplyMismatch)
    );
}

#[test]
fn peek_request_payload_layout() {
    // 2-byte little-endian count, then 2-byte little-endian address
    let request = ops::peek_request(0xdf46, 2);
    assert_eq!(request.mbx, AppMailbox::AppSystem);
    assert_eq!(request.cmd, SystemCommand::Peek);
    assert_eq!(request.payload, vec![0x02, 0x00, 0x46, 0xdf]);
    assert_eq!(request.to_bytes(), vec![0xff, 0x80, 0x04, 0x00, 0x02, 0x00, 0x46, 0xdf]);
}

#[test]
fn peek_reply_hands_back_payload() {
    let request = ops::peek_request(0xdf46, 2);
    let reply_bytes = vec![64, 0xff, 0x80, 0x02, 0x00, 0xf0, 0x0d];
    let reply = ops::correlate_reply(&request, reply_bytes).unwrap();
    let data = ops::interpret_peek_reply(&request, reply).unwrap();
    assert_eq!(data, vec![0xf0, 0x0d]);
}

#[test]
fn bootloader_magic_is_f0_0d() {
    // peek(0xDF46, 2) returning {0xF0, 0x0D} means a bootloader is present
    assert!(ops::bootloader_present(&vec![0xf0, 0x0d]));
    assert!(!ops::bootloader_present(&vec![0x0d, 0xf0]));
    assert!(!ops::bootloader_present(&vec![0x00, 0x00]));
    assert!(!ops::bootloader_present(&vec![0xf0]));
    assert!(!ops::bootloader_present(&vec![0xf0, 0x0d, 0x00]));
    assert!(!ops::bootloader_present(&vec![]));
}

#[test]
fn reset_request_carries_literal() {
    let request = ops::reset_request();
    assert_eq!(request.cmd, SystemCommand::Reset);
    assert_eq!(request.payload, b"RESET_NOW\x00".to_vec());
}

#[test]
fn rf_mode_request_carries_strobe_code() {
    let request = ops::rf_mode_request(RfState::STX);
    assert_eq!(request.cmd, SystemCommand::RFMode);
    assert_eq!(request.payload, vec![0x03]);
    assert_eq!(ops::rf_mode_request(RfState::SIDLE).payload, vec![0x04]);
}

use whiskers::codec::RfCatPacket;
use whiskers::commands::{AppMailbox, SystemCommand};
use whiskers::errors::RfCatError;

#[test]
fn encode_ping_frame() {
    // encode Packet{mailbox=System(0xff), command=Ping(0x82), payload=[]}
    let p = RfCatPacket::simple(AppMailbox::AppSystem, SystemCommand::Ping);
    assert_eq!(p.to_bytes(), vec![0xff, 0x82, 0x00, 0x00]);
}

#[test]
fn encode_with_payload() {
    let p = RfCatPacket::payload(
        AppMailbox::AppGeneric,
        SystemCommand::Peek,
        vec![0x02, 0x00, 0x46, 0xdf],
    );
    assert_eq!(p.to_bytes(), vec![0x01, 0x80, 0x04, 0x00, 0x02, 0x00, 0x46, 0xdf]);
}

#[test]
fn decode_buildtype_reply() {
    // reply bytes [64, 0xff, 0x86, 0x04, 0x00, 'T','E','S','T']
    let bytes = vec![64, 0xff, 0x86, 0x04, 0x00, b'T', b'E', b'S', b'T'];
    let p = RfCatPacket::from_bytes(bytes).unwrap();
    assert_eq!(p.mbx, AppMailbox::AppSystem);
    assert_eq!(p.cmd, SystemCommand::BuildType);
    assert_eq!(p.payload, b"TEST".to_vec());
    assert!(p.received);
}

#[test]
fn round_trip_known_codes() {
    let p = RfCatPacket::payload(
        AppMailbox::AppDebug,
        SystemCommand::Compiler,
        vec![1, 2, 3, 4, 5],
    );
    let mut framed = vec![64u8];
    framed.extend_from_slice(&p.to_bytes());
    let q = RfCatPacket::from_bytes(framed).unwrap();
    assert_eq!(q.mbx, p.mbx);
    assert_eq!(q.cmd, p.cmd);
    assert_eq!(q.payload, p.payload);
}

#[test]
fn round_trip_empty_payload() {
    let p = RfCatPacket::simple(AppMailbox::AppSystem, SystemCommand::Bootloader);
    let mut framed = vec![0u8];
    framed.extend_from_slice(&p.to_bytes());
    let q = RfCatPacket::from_bytes(framed).unwrap();
    assert_eq!(q.mbx, p.mbx);
    assert_eq!(q.cmd, p.cmd);
    assert_eq!(q.payload, p.payload);
}

#[test]
fn unknown_codes_decode_to_unknown() {
    // every unknown mailbox or command byte must decode, tagged UNKNOWN
    let bytes = vec![64, 0x42, 0x17, 0x00, 0x00];
    let p = RfCatPacket::from_bytes(bytes).unwrap();
    assert_eq!(p.mbx, AppMailbox::UNKNOWN);
    assert_eq!(p.cmd, SystemCommand::UNKNOWN);

    for code in 0u8..=255u8 {
        let m = AppMailbox::from_byte(code);
        if code != 0x01 && code != 0xfe && code != 0xff {
            assert_eq!(m, AppMailbox::UNKNOWN);
        } else {
            assert_ne!(m, AppMailbox::UNKNOWN);
        }
        let c = SystemCommand::from_byte(code);
        let known = (0x80..=0x90).contains(&code) && !(0x8a..=0x8d).contains(&code)
            || code == 0x93;
        if known {
            assert_ne!(c, SystemCommand::UNKNOWN);
        } else {
            assert_eq!(c, SystemCommand::UNKNOWN);
        }
    }
}

#[test]
fn code_round_trips() {
    let mailboxes = [
        AppMailbox::AppGeneric,
        AppMailbox::AppDebug,
        AppMailbox::AppSystem,
        AppMailbox::UNKNOWN,
    ];
    for m in mailboxes {
        assert_eq!(AppMailbox::from_byte(m.to_byte()), m);
    }
    let commands = [
        SystemCommand::Peek,
        SystemCommand::Poke,
        SystemCommand::Ping,
        SystemCommand::Status,
        SystemCommand::PokeRegister,
        SystemCommand::GetClock,
        SystemCommand::BuildType,
        SystemCommand::Bootloader,
        SystemCommand::RFMode,
        SystemCommand::Compiler,
        SystemCommand::PartNum,
        SystemCommand::Reset,
        SystemCommand::ClearCodes,
        SystemCommand::LedMode,
        SystemCommand::UNKNOWN,
    ];
    for c in commands {
        assert_eq!(SystemCommand::from_byte(c.to_byte()), c);
    }
}

#[test]
fn short_header_is_truncated() {
    assert_eq!(
        RfCatPacket::from_bytes(vec![64, 0xff, 0x82, 0x00]),
        Err(RfCatError::TruncatedFrame)
    );
    assert_eq!(RfCatPacket::from_bytes(vec![]), Err(RfCatError::TruncatedFrame));
}

#[test]
fn short_payload_is_truncated() {
    // header declares 4 payload bytes but only 2 follow
    let bytes = vec![64, 0xff, 0x86, 0x04, 0x00, b'T', b'E'];
    assert_eq!(RfCatPacket::from_bytes(bytes), Err(RfCatError::TruncatedFrame));
}

#[test]
fn length_prefix_is_little_endian() {
    let p = RfCatPacket::payload(
        AppMailbox::AppSystem,
        SystemCommand::Status,
        vec![0u8; 0x0102],
    );
    let bytes = p.to_bytes();
    assert_eq!(bytes[2], 0x02);
    assert_eq!(bytes[3], 0x01);
    assert_eq!(bytes.len(), 4 + 0x0102);
}

#[test]
fn extra_trailing_bytes_are_ignored() {
    let bytes = vec![64, 0xff, 0x82, 0x01, 0x00, 0xaa, 0xbb, 0xcc];
    let p = RfCatPacket::from_bytes(bytes).unwrap();
    assert_eq!(p.payload, vec![0xaa]);
}

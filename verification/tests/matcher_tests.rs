use whiskers::errors::RfCatError;
use whiskers::matcher::{
    is_rfcat_bootloader, is_standard_rfcat, parse_addrs, parse_two_hex, parse_two_ints, parse_vp,
    DeviceMode, DeviceSelection,
};

#[test]
fn parse_hex_selector() {
    assert_eq!(parse_two_hex("1d50,6047"), Ok((0x1d50, 0x6047)));
    assert_eq!(parse_two_hex("0451,4715"), Ok((0x0451, 0x4715)));
    assert_eq!(parse_two_hex("ffff,0"), Ok((0xffff, 0x0000)));
    assert_eq!(parse_two_hex("1D50,ECC1"), Ok((0x1d50, 0xecc1)));
    assert_eq!(parse_two_hex("001d50,6047"), Ok((0x1d50, 0x6047)));
}

#[test]
fn parse_hex_selector_malformed() {
    assert_eq!(parse_two_hex(""), Err(RfCatError::BadSelector));
    assert_eq!(parse_two_hex("1d50"), Err(RfCatError::BadSelector));
    assert_eq!(parse_two_hex("1d50,"), Err(RfCatError::BadSelector));
    assert_eq!(parse_two_hex(",6047"), Err(RfCatError::BadSelector));
    assert_eq!(parse_two_hex("1d50,6047,6048"), Err(RfCatError::BadSelector));
    assert_eq!(parse_two_hex("1g50,6047"), Err(RfCatError::BadSelector));
    assert_eq!(parse_two_hex("12345,6047"), Err(RfCatError::BadSelector));
    assert_eq!(parse_two_hex("-1,6047"), Err(RfCatError::BadSelector));
}

#[test]
fn parse_decimal_selector() {
    assert_eq!(parse_two_ints("1,5"), Ok((1, 5)));
    assert_eq!(parse_two_ints("0,0"), Ok((0, 0)));
    assert_eq!(parse_two_ints("255,255"), Ok((255, 255)));
    assert_eq!(parse_two_ints("007,012"), Ok((7, 12)));
}

#[test]
fn parse_decimal_selector_malformed() {
    assert_eq!(parse_two_ints("1"), Err(RfCatError::BadSelector));
    assert_eq!(parse_two_ints("1,"), Err(RfCatError::BadSelector));
    assert_eq!(parse_two_ints("256,0"), Err(RfCatError::BadSelector));
    assert_eq!(parse_two_ints("1,5,9"), Err(RfCatError::BadSelector));
    assert_eq!(parse_two_ints("a,5"), Err(RfCatError::BadSelector));
    assert_eq!(parse_two_ints(" 1,5"), Err(RfCatError::BadSelector));
}

#[test]
fn parse_selector_lists() {
    assert_eq!(
        parse_vp(vec!["1d50,6047", "0451,4715"]),
        Ok(vec![(0x1d50, 0x6047), (0x0451, 0x4715)])
    );
    assert_eq!(parse_vp(vec!["1d50,6047", "nope"]), Err(RfCatError::BadSelector));
    assert_eq!(parse_addrs(vec!["1,5", "2,7"]), Ok(vec![(1, 5), (2, 7)]));
    assert_eq!(parse_addrs(vec!["1,5", "1,999"]), Err(RfCatError::BadSelector));
}

#[test]
fn vp_selector_matches_ids_only() {
    // selector "1d50,6047" matches only vendor 0x1d50 / product 0x6047,
    // independent of bus and address
    let sel = DeviceSelection::parse(None, Some(vec!["1d50,6047"])).unwrap();
    assert!(sel.selects(DeviceMode::Operating, 0, 0, 0x1d50, 0x6047));
    assert!(sel.selects(DeviceMode::Operating, 7, 42, 0x1d50, 0x6047));
    assert!(!sel.selects(DeviceMode::Operating, 1, 5, 0x1d50, 0x6048));
    assert!(!sel.selects(DeviceMode::Operating, 1, 5, 0x0451, 0x4715));
    assert!(!sel.selects(DeviceMode::Operating, 1, 5, 0x1d51, 0x6047));
}

#[test]
fn addr_selector_matches_address_only() {
    // selector "1,5" matches only bus 1 / address 5, independent of
    // vendor/product, even outside the known table
    let sel = DeviceSelection::parse(Some(vec!["1,5"]), None).unwrap();
    assert!(sel.selects(DeviceMode::Operating, 1, 5, 0x1d50, 0x6047));
    assert!(sel.selects(DeviceMode::Operating, 1, 5, 0xdead, 0xbeef));
    assert!(!sel.selects(DeviceMode::Operating, 1, 6, 0x1d50, 0x6047));
    assert!(!sel.selects(DeviceMode::Operating, 2, 5, 0x1d50, 0x6047));
}

#[test]
fn no_selector_uses_builtin_table() {
    let sel = DeviceSelection::parse(None, None).unwrap();
    assert!(sel.selects(DeviceMode::Operating, 3, 9, 0x1d50, 0x605b));
    assert!(sel.selects(DeviceMode::Operating, 3, 9, 0x0451, 0x4715));
    assert!(!sel.selects(DeviceMode::Operating, 3, 9, 0x1d50, 0x6049));
    assert!(sel.selects(DeviceMode::Bootloader, 3, 9, 0x1d50, 0x6049));
    assert!(!sel.selects(DeviceMode::Bootloader, 3, 9, 0x1d50, 0x6047));
}

#[test]
fn malformed_selection_is_fatal() {
    assert!(DeviceSelection::parse(Some(vec!["1,5", "bad"]), None).is_err());
    assert!(DeviceSelection::parse(None, Some(vec!["xyz"])).is_err());
}

#[test]
fn builtin_tables() {
    let operating = [
        (0x0451, 0x4715),
        (0x1d50, 0x60ff),
        (0x1d50, 0x6047),
        (0x1d50, 0x6048),
        (0x1d50, 0x605b),
        (0x1d50, 0xecc1),
    ];
    for (v, p) in operating {
        assert!(is_standard_rfcat(v, p));
        assert!(!is_rfcat_bootloader(v, p));
    }
    let bootloader = [
        (0x1d50, 0x6049),
        (0x1d50, 0x604a),
        (0x1d50, 0x605c),
        (0x1d50, 0xecc0),
    ];
    for (v, p) in bootloader {
        assert!(is_rfcat_bootloader(v, p));
        assert!(!is_standard_rfcat(v, p));
    }
    assert!(!is_standard_rfcat(0x1d50, 0x0000));
    assert!(!is_rfcat_bootloader(0xffff, 0xffff));
}

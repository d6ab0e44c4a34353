use whiskers::commands::{Addresses, CCRegisters, RfState};

#[test]
fn rf_strobe_codes() {
    assert_eq!(RfState::SFSTXON.to_byte(), 0x00);
    assert_eq!(RfState::SCAL.to_byte(), 0x01);
    assert_eq!(RfState::SRX.to_byte(), 0x02);
    assert_eq!(RfState::STX.to_byte(), 0x03);
    assert_eq!(RfState::SIDLE.to_byte(), 0x04);
    assert_eq!(RfState::SNOP.to_byte(), 0x05);
    assert_eq!(RfState::UNKNOWN.to_byte(), 0xff);
    assert_eq!(RfState::from_byte(0x03), RfState::STX);
    assert_eq!(RfState::from_byte(0x99), RfState::UNKNOWN);
}

#[test]
fn named_addresses() {
    assert_eq!(Addresses::RfState.address(), 0xdfe1);
}

#[test]
fn register_bank_addresses() {
    assert_eq!(CCRegisters::Sync1.address(), 0xdf00);
    assert_eq!(CCRegisters::Freq2.address(), 0xdf09);
    assert_eq!(CCRegisters::Freq0.address(), 0xdf0b);
    assert_eq!(CCRegisters::PaTable7.address(), 0xdf27);
    assert_eq!(CCRegisters::PaTable0.address(), 0xdf2e);
    assert_eq!(CCRegisters::PartNum.address(), 0xdf36);
    assert_eq!(CCRegisters::MarcState.address(), 0xdf3b);
    assert_eq!(CCRegisters::VcoVcDac.address(), 0xdf3d);
}

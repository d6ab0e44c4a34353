use vstd::prelude::*;

verus! {

/// Command opcodes of the system mailbox. Every known opcode maps to a fixed
/// one-byte wire code; any other code byte decodes to `UNKNOWN`, so decoding
/// never fails on an unrecognized command.
#[derive(Copy, Clone, PartialEq, Eq, Structural, Debug, Hash)]
pub enum SystemCommand {
    Peek,
    Poke,
    Ping,
    Status,
    PokeRegister,
    GetClock,
    BuildType,
    Bootloader,
    RFMode,
    Compiler,
    PartNum,
    Reset,
    ClearCodes,
    LedMode,
    UNKNOWN,
}

/// The wire code a command is written as.
pub open spec fn spec_command_code(c: SystemCommand) -> u8 {
    match c {
        SystemCommand::Peek => 0x80,
        SystemCommand::Poke => 0x81,
        SystemCommand::Ping => 0x82,
        SystemCommand::Status => 0x83,
        SystemCommand::PokeRegister => 0x84,
        SystemCommand::GetClock => 0x85,
        SystemCommand::BuildType => 0x86,
        SystemCommand::Bootloader => 0x87,
        SystemCommand::RFMode => 0x88,
        SystemCommand::Compiler => 0x89,
        SystemCommand::PartNum => 0x8e,
        SystemCommand::Reset => 0x8f,
        SystemCommand::ClearCodes => 0x90,
        SystemCommand::LedMode => 0x93,
        SystemCommand::UNKNOWN => 0x00,
    }
}

/// Whether a code byte names a known command.
pub open spec fn command_code_known(code: u8) -> bool {
    (0x80 <= code <= 0x90 && code != 0x8a && code != 0x8b && code != 0x8c && code != 0x8d)
        || code == 0x93
}

/// The command a code byte decodes to: the known opcode, or `UNKNOWN`.
pub open spec fn spec_command_of(code: u8) -> SystemCommand {
    match code {
        0x80u8 => SystemCommand::Peek,
        0x81u8 => SystemCommand::Poke,
        0x82u8 => SystemCommand::Ping,
        0x83u8 => SystemCommand::Status,
        0x84u8 => SystemCommand::PokeRegister,
        0x85u8 => SystemCommand::GetClock,
        0x86u8 => SystemCommand::BuildType,
        0x87u8 => SystemCommand::Bootloader,
        0x88u8 => SystemCommand::RFMode,
        0x89u8 => SystemCommand::Compiler,
        0x8eu8 => SystemCommand::PartNum,
        0x8fu8 => SystemCommand::Reset,
        0x90u8 => SystemCommand::ClearCodes,
        0x93u8 => SystemCommand::LedMode,
        _ => SystemCommand::UNKNOWN,
    }
}

impl SystemCommand {
    /// Encode this command as its wire code.
    pub fn to_byte(self) -> (code: u8)
        ensures
            code == spec_command_code(self),
    {
        match self {
            SystemCommand::Peek => 0x80,
            SystemCommand::Poke => 0x81,
            SystemCommand::Ping => 0x82,
            SystemCommand::Status => 0x83,
            SystemCommand::PokeRegister => 0x84,
            SystemCommand::GetClock => 0x85,
            SystemCommand::BuildType => 0x86,
            SystemCommand::Bootloader => 0x87,
            SystemCommand::RFMode => 0x88,
            SystemCommand::Compiler => 0x89,
            SystemCommand::PartNum => 0x8e,
            SystemCommand::Reset => 0x8f,
            SystemCommand::ClearCodes => 0x90,
            SystemCommand::LedMode => 0x93,
            SystemCommand::UNKNOWN => 0x00,
        }
    }

    /// Decode a wire code; an unrecognized byte is tagged `UNKNOWN`, never
    /// rejected.
    pub fn from_byte(code: u8) -> (c: SystemCommand)
        ensures
            c == spec_command_of(code),
            !command_code_known(code) ==> c == SystemCommand::UNKNOWN,
    {
        match code {
            0x80 => SystemCommand::Peek,
            0x81 => SystemCommand::Poke,
            0x82 => SystemCommand::Ping,
            0x83 => SystemCommand::Status,
            0x84 => SystemCommand::PokeRegister,
            0x85 => SystemCommand::GetClock,
            0x86 => SystemCommand::BuildType,
            0x87 => SystemCommand::Bootloader,
            0x88 => SystemCommand::RFMode,
            0x89 => SystemCommand::Compiler,
            0x8e => SystemCommand::PartNum,
            0x8f => SystemCommand::Reset,
            0x90 => SystemCommand::ClearCodes,
            0x93 => SystemCommand::LedMode,
            _ => SystemCommand::UNKNOWN,
        }
    }
}

/// Decoding the wire code of any command gives that command back; `UNKNOWN`
/// itself round-trips through code zero.
pub proof fn lemma_command_code_round_trip(c: SystemCommand)
    ensures
        spec_command_of(spec_command_code(c)) == c,
{
}

/// Logical channel tag in the wire header: which subsystem on the device a
/// command targets. Unrecognized code bytes decode to `UNKNOWN`.
#[derive(Copy, Clone, PartialEq, Eq, Structural, Debug, Hash)]
pub enum AppMailbox {
    AppGeneric,
    AppDebug,
    AppSystem,
    UNKNOWN,
}

/// The wire code a mailbox is written as.
pub open spec fn spec_mailbox_code(m: AppMailbox) -> u8 {
    match m {
        AppMailbox::AppGeneric => 0x01,
        AppMailbox::AppDebug => 0xfe,
        AppMailbox::AppSystem => 0xff,
        AppMailbox::UNKNOWN => 0x00,
    }
}

/// Whether a code byte names a known mailbox.
pub open spec fn mailbox_code_known(code: u8) -> bool {
    code == 0x01 || code == 0xfe || code == 0xff
}

/// The mailbox a code byte decodes to: the known mailbox, or `UNKNOWN`.
pub open spec fn spec_mailbox_of(code: u8) -> AppMailbox {
    match code {
        0x01u8 => AppMailbox::AppGeneric,
        0xfeu8 => AppMailbox::AppDebug,
        0xffu8 => AppMailbox::AppSystem,
        _ => AppMailbox::UNKNOWN,
    }
}

impl AppMailbox {
    /// Encode this mailbox as its wire code.
    pub fn to_byte(self) -> (code: u8)
        ensures
            code == spec_mailbox_code(self),
    {
        match self {
            AppMailbox::AppGeneric => 0x01,
            AppMailbox::AppDebug => 0xfe,
            AppMailbox::AppSystem => 0xff,
            AppMailbox::UNKNOWN => 0x00,
        }
    }

    /// Decode a wire code; an unrecognized byte is tagged `UNKNOWN`, never
    /// rejected.
    pub fn from_byte(code: u8) -> (m: AppMailbox)
        ensures
            m == spec_mailbox_of(code),
            !mailbox_code_known(code) ==> m == AppMailbox::UNKNOWN,
    {
        match code {
            0x01 => AppMailbox::AppGeneric,
            0xfe => AppMailbox::AppDebug,
            0xff => AppMailbox::AppSystem,
            _ => AppMailbox::UNKNOWN,
        }
    }
}

/// Decoding the wire code of any mailbox gives that mailbox back; `UNKNOWN`
/// itself round-trips through code zero.
pub proof fn lemma_mailbox_code_round_trip(m: AppMailbox)
    ensures
        spec_mailbox_of(spec_mailbox_code(m)) == m,
{
}

/// RF strobe commands: the states the radio state machine can be told to
/// enter through the RFST register.
#[derive(Copy, Clone, PartialEq, Eq, Structural, Debug)]
pub enum RfState {
    SFSTXON,
    SCAL,
    SRX,
    STX,
    SIDLE,
    SNOP,
    UNKNOWN,
}

/// The strobe code an RF state is written as.
pub open spec fn spec_rf_state_code(s: RfState) -> u8 {
    match s {
        RfState::SFSTXON => 0x00,
        RfState::SCAL => 0x01,
        RfState::SRX => 0x02,
        RfState::STX => 0x03,
        RfState::SIDLE => 0x04,
        RfState::SNOP => 0x05,
        RfState::UNKNOWN => 0xff,
    }
}

/// The RF state a strobe code decodes to: the known state, or `UNKNOWN`.
pub open spec fn spec_rf_state_of(code: u8) -> RfState {
    match code {
        0x00u8 => RfState::SFSTXON,
        0x01u8 => RfState::SCAL,
        0x02u8 => RfState::SRX,
        0x03u8 => RfState::STX,
        0x04u8 => RfState::SIDLE,
        0x05u8 => RfState::SNOP,
        _ => RfState::UNKNOWN,
    }
}

impl RfState {
    /// Encode this state as its strobe code.
    pub fn to_byte(self) -> (code: u8)
        ensures
            code == spec_rf_state_code(self),
    {
        match self {
            RfState::SFSTXON => 0x00,
            RfState::SCAL => 0x01,
            RfState::SRX => 0x02,
            RfState::STX => 0x03,
            RfState::SIDLE => 0x04,
            RfState::SNOP => 0x05,
            RfState::UNKNOWN => 0xff,
        }
    }

    /// Decode a strobe code; an unrecognized byte is tagged `UNKNOWN`.
    pub fn from_byte(code: u8) -> (s: RfState)
        ensures
            s == spec_rf_state_of(code),
    {
        match code {
            0x00 => RfState::SFSTXON,
            0x01 => RfState::SCAL,
            0x02 => RfState::SRX,
            0x03 => RfState::STX,
            0x04 => RfState::SIDLE,
            0x05 => RfState::SNOP,
            _ => RfState::UNKNOWN,
        }
    }
}

/// Well-known memory-mapped addresses outside the register bank.
#[derive(Copy, Clone, PartialEq, Eq, Structural, Debug)]
pub enum Addresses {
    RfState,
}

/// The memory address behind each name.
pub open spec fn spec_address_of(a: Addresses) -> u16 {
    match a {
        Addresses::RfState => 0xdfe1,
    }
}

impl Addresses {
    /// The memory address behind this name.
    pub fn address(self) -> (addr: u16)
        ensures
            addr == spec_address_of(self),
    {
        match self {
            Addresses::RfState => 0xdfe1,
        }
    }
}

/// The memory-mapped radio register bank: each register's name and its
/// address in the device's address space.
#[derive(Copy, Clone, PartialEq, Eq, Structural, Debug)]
pub enum CCRegisters {
    Sync1,
    Sync0,
    PktLen,
    PktCtrl1,
    PktCtrl0,
    Addr,
    ChanNr,
    FsCtrl1,
    FsCtrl0,
    Freq2,
    Freq1,
    Freq0,
    MdmCfg4,
    MdmCfg3,
    MdmCfg2,
    MdmCfg1,
    MdmCfg0,
    Deviatn,
    Mcsm2,
    Mcsm1,
    Mcsm0,
    FocCfg,
    BsCfg,
    AgcCtrl2,
    AgcCtrl1,
    AgcCtrl0,
    FrEnd1,
    FrEnd0,
    FsCal3,
    FsCal2,
    FsCal1,
    FsCal0,
    Z0,
    Z1,
    Z2,
    Test2,
    Test1,
    Test0,
    Z3,
    PaTable7,
    PaTable6,
    PaTable5,
    PaTable4,
    PaTable3,
    PaTable2,
    PaTable1,
    PaTable0,
    IoCfg2,
    IoCfg1,
    IoCfg0,
    Z4,
    Z5,
    Z6,
    Z7,
    PartNum,
    ChipId,
    FreqEst,
    Lqi,
    Rssi,
    MarcState,
    PkStatus,
    VcoVcDac,
}

/// The address of each register in the bank.
pub open spec fn spec_register_address(r: CCRegisters) -> u16 {
    match r {
        CCRegisters::Sync1 => 0xdf00,
        CCRegisters::Sync0 => 0xdf01,
        CCRegisters::PktLen => 0xdf02,
        CCRegisters::PktCtrl1 => 0xdf03,
        CCRegisters::PktCtrl0 => 0xdf04,
        CCRegisters::Addr => 0xdf05,
        CCRegisters::ChanNr => 0xdf06,
        CCRegisters::FsCtrl1 => 0xdf07,
        CCRegisters::FsCtrl0 => 0xdf08,
        CCRegisters::Freq2 => 0xdf09,
        CCRegisters::Freq1 => 0xdf0a,
        CCRegisters::Freq0 => 0xdf0b,
        CCRegisters::MdmCfg4 => 0xdf0c,
        CCRegisters::MdmCfg3 => 0xdf0d,
        CCRegisters::MdmCfg2 => 0xdf0e,
        CCRegisters::MdmCfg1 => 0xdf0f,
        CCRegisters::MdmCfg0 => 0xdf10,
        CCRegisters::Deviatn => 0xdf11,
        CCRegisters::Mcsm2 => 0xdf12,
        CCRegisters::Mcsm1 => 0xdf13,
        CCRegisters::Mcsm0 => 0xdf14,
        CCRegisters::FocCfg => 0xdf15,
        CCRegisters::BsCfg => 0xdf16,
        CCRegisters::AgcCtrl2 => 0xdf17,
        CCRegisters::AgcCtrl1 => 0xdf18,
        CCRegisters::AgcCtrl0 => 0xdf19,
        CCRegisters::FrEnd1 => 0xdf1a,
        CCRegisters::FrEnd0 => 0xdf1b,
        CCRegisters::FsCal3 => 0xdf1c,
        CCRegisters::FsCal2 => 0xdf1d,
        CCRegisters::FsCal1 => 0xdf1e,
        CCRegisters::FsCal0 => 0xdf1f,
        CCRegisters::Z0 => 0xdf20,
        CCRegisters::Z1 => 0xdf21,
        CCRegisters::Z2 => 0xdf22,
        CCRegisters::Test2 => 0xdf23,
        CCRegisters::Test1 => 0xdf24,
        CCRegisters::Test0 => 0xdf25,
        CCRegisters::Z3 => 0xdf26,
        CCRegisters::PaTable7 => 0xdf27,
        CCRegisters::PaTable6 => 0xdf28,
        CCRegisters::PaTable5 => 0xdf29,
        CCRegisters::PaTable4 => 0xdf2a,
        CCRegisters::PaTable3 => 0xdf2b,
        CCRegisters::PaTable2 => 0xdf2c,
        CCRegisters::PaTable1 => 0xdf2d,
        CCRegisters::PaTable0 => 0xdf2e,
        CCRegisters::IoCfg2 => 0xdf2f,
        CCRegisters::IoCfg1 => 0xdf30,
        CCRegisters::IoCfg0 => 0xdf31,
        CCRegisters::Z4 => 0xdf32,
        CCRegisters::Z5 => 0xdf33,
        CCRegisters::Z6 => 0xdf34,
        CCRegisters::Z7 => 0xdf35,
        CCRegisters::PartNum => 0xdf36,
        CCRegisters::ChipId => 0xdf37,
        CCRegisters::FreqEst => 0xdf38,
        CCRegisters::Lqi => 0xdf39,
        CCRegisters::Rssi => 0xdf3a,
        CCRegisters::MarcState => 0xdf3b,
        CCRegisters::PkStatus => 0xdf3c,
        CCRegisters::VcoVcDac => 0xdf3d,
    }
}

impl CCRegisters {
    /// The address of this register in the bank.
    pub fn address(self) -> (addr: u16)
        ensures
            addr == spec_register_address(self),
    {
        match self {
            CCRegisters::Sync1 => 0xdf00,
            CCRegisters::Sync0 => 0xdf01,
            CCRegisters::PktLen => 0xdf02,
            CCRegisters::PktCtrl1 => 0xdf03,
            CCRegisters::PktCtrl0 => 0xdf04,
            CCRegisters::Addr => 0xdf05,
            CCRegisters::ChanNr => 0xdf06,
            CCRegisters::FsCtrl1 => 0xdf07,
            CCRegisters::FsCtrl0 => 0xdf08,
            CCRegisters::Freq2 => 0xdf09,
            CCRegisters::Freq1 => 0xdf0a,
            CCRegisters::Freq0 => 0xdf0b,
            CCRegisters::MdmCfg4 => 0xdf0c,
            CCRegisters::MdmCfg3 => 0xdf0d,
            CCRegisters::MdmCfg2 => 0xdf0e,
            CCRegisters::MdmCfg1 => 0xdf0f,
            CCRegisters::MdmCfg0 => 0xdf10,
            CCRegisters::Deviatn => 0xdf11,
            CCRegisters::Mcsm2 => 0xdf12,
            CCRegisters::Mcsm1 => 0xdf13,
            CCRegisters::Mcsm0 => 0xdf14,
            CCRegisters::FocCfg => 0xdf15,
            CCRegisters::BsCfg => 0xdf16,
            CCRegisters::AgcCtrl2 => 0xdf17,
            CCRegisters::AgcCtrl1 => 0xdf18,
            CCRegisters::AgcCtrl0 => 0xdf19,
            CCRegisters::FrEnd1 => 0xdf1a,
            CCRegisters::FrEnd0 => 0xdf1b,
            CCRegisters::FsCal3 => 0xdf1c,
            CCRegisters::FsCal2 => 0xdf1d,
            CCRegisters::FsCal1 => 0xdf1e,
            CCRegisters::FsCal0 => 0xdf1f,
            CCRegisters::Z0 => 0xdf20,
            CCRegisters::Z1 => 0xdf21,
            CCRegisters::Z2 => 0xdf22,
            CCRegisters::Test2 => 0xdf23,
            CCRegisters::Test1 => 0xdf24,
            CCRegisters::Test0 => 0xdf25,
            CCRegisters::Z3 => 0xdf26,
            CCRegisters::PaTable7 => 0xdf27,
            CCRegisters::PaTable6 => 0xdf28,
            CCRegisters::PaTable5 => 0xdf29,
            CCRegisters::PaTable4 => 0xdf2a,
            CCRegisters::PaTable3 => 0xdf2b,
            CCRegisters::PaTable2 => 0xdf2c,
            CCRegisters::PaTable1 => 0xdf2d,
            CCRegisters::PaTable0 => 0xdf2e,
            CCRegisters::IoCfg2 => 0xdf2f,
            CCRegisters::IoCfg1 => 0xdf30,
            CCRegisters::IoCfg0 => 0xdf31,
            CCRegisters::Z4 => 0xdf32,
            CCRegisters::Z5 => 0xdf33,
            CCRegisters::Z6 => 0xdf34,
            CCRegisters::Z7 => 0xdf35,
            CCRegisters::PartNum => 0xdf36,
            CCRegisters::ChipId => 0xdf37,
            CCRegisters::FreqEst => 0xdf38,
            CCRegisters::Lqi => 0xdf39,
            CCRegisters::Rssi => 0xdf3a,
            CCRegisters::MarcState => 0xdf3b,
            CCRegisters::PkStatus => 0xdf3c,
            CCRegisters::VcoVcDac => 0xdf3d,
        }
    }
}

} // verus!

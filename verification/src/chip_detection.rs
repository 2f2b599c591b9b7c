//! Which chip family answers at a probe address: a decision table over one
//! register read.

use vstd::prelude::*;
use crate::serial::modbus::{
    decode_spec,
    encode_spec,
    two_words,
    word_of,
    FrameModel,
    ModbusError,
    ModbusFrame,
    RegisterType,
};

verus! {

/// Slave address the chips are probed at.
pub const PROBE_SLAVE_ADDRESS: u8 = 0x01;

/// Probe register of the first chip.
pub const CHIP1_PROBE_ADDRESS: u16 = 0x4000;

/// Probe register of the second chip.
pub const CHIP2_PROBE_ADDRESS: u16 = 0xC000;

/// Deadline of a probe transaction, in milliseconds.
pub const PROBE_TIMEOUT_MS: u64 = 1000;

/// Pause between the two probes, in milliseconds.
pub const PROBE_PAUSE_MS: u64 = 100;

/// The chip families.
#[derive(Debug, Clone, Copy, PartialEq, Eq)]
pub enum ChipType {
    MALD,
    MATA,
    Unknown,
}

impl ChipType {
    /// The family's name as text.
    pub open spec fn label(self) -> Seq<char> {
        match self {
            ChipType::MALD => "MALD"@,
            ChipType::MATA => "MATA"@,
            ChipType::Unknown => "未知"@,
        }
    }

    pub fn to_string(&self) -> (text: String)
        ensures
            text@ == self.label(),
    {
        match self {
            ChipType::MALD => "MALD".to_owned(),
            ChipType::MATA => "MATA".to_owned(),
            ChipType::Unknown => "未知".to_owned(),
        }
    }
}

/// The family that a register value at a probe address stands for.
pub open spec fn chip_for(page40_reg0_address: u16, value: u16) -> ChipType {
    if page40_reg0_address == CHIP1_PROBE_ADDRESS && (value == 0x1C || value == 0x1D) {
        ChipType::MALD
    } else if page40_reg0_address == CHIP2_PROBE_ADDRESS && (value == 0x10 || value == 0x11) {
        ChipType::MATA
    } else {
        ChipType::Unknown
    }
}

/// The family that a decoded probe response stands for. The payload of a
/// register read is a byte count and then the register, high byte first; a
/// payload too short to hold one register stands for no known family.
pub open spec fn chip_in_frame(page40_reg0_address: u16, frame: FrameModel) -> ChipType {
    if frame.data.len() >= 3 {
        chip_for(page40_reg0_address, word_of(frame.data[1], frame.data[2]))
    } else {
        ChipType::Unknown
    }
}

/// The request that reads the probe register: one holding register.
pub fn chip_probe_command(slave_address: u8, page40_reg0_address: u16) -> (command: Vec<u8>)
    ensures
        command@ == encode_spec(
            FrameModel {
                slave_address,
                function_code: 0x03,
                data: two_words(page40_reg0_address, 1),
            },
        ),
{
    ModbusFrame::new_read_request(
        slave_address,
        RegisterType::HoldingRegister,
        page40_reg0_address,
        1,
    ).to_bytes()
}

/// Classifies a register value read at a probe address.
pub fn classify_chip(page40_reg0_address: u16, value: u16) -> (chip: ChipType)
    ensures
        chip == chip_for(page40_reg0_address, value),
{
    if page40_reg0_address == CHIP1_PROBE_ADDRESS && (value == 0x1C || value == 0x1D) {
        ChipType::MALD
    } else if page40_reg0_address == CHIP2_PROBE_ADDRESS && (value == 0x10 || value == 0x11) {
        ChipType::MATA
    } else {
        ChipType::Unknown
    }
}

/// Interprets the response to a probe. A response that does not decode is an
/// error; one that decodes names a family, or none.
pub fn detect_chip_type(page40_reg0_address: u16, response: &[u8]) -> (result: Result<
    ChipType,
    ModbusError,
>)
    ensures
        match decode_spec(response@) {
            Ok(frame) => result == Ok::<ChipType, ModbusError>(
                chip_in_frame(page40_reg0_address, frame),
            ),
            Err(error) => result == Err::<ChipType, ModbusError>(error),
        },
{
    match ModbusFrame::from_bytes(response) {
        Ok(frame) => {
            let data = frame.get_data();
            if data.len() >= 3 {
                let value = ((data[1] as u16) << 8) | (data[2] as u16);
                Ok(classify_chip(page40_reg0_address, value))
            } else {
                Ok(ChipType::Unknown)
            }
        },
        Err(error) => Err(error),
    }
}

/// What a probe that may have failed says about the chip.
pub open spec fn chip_or_unknown(probe: Result<ChipType, ModbusError>) -> ChipType {
    match probe {
        Ok(chip) => chip,
        Err(_) => ChipType::Unknown,
    }
}

/// The families of both chips from their two probes; a failed probe leaves
/// its chip unknown.
pub fn detect_all_chips(
    first: Result<ChipType, ModbusError>,
    second: Result<ChipType, ModbusError>,
) -> (chips: (ChipType, ChipType))
    ensures
        chips.0 == chip_or_unknown(first),
        chips.1 == chip_or_unknown(second),
{
    let chip1 = match first {
        Ok(chip) => chip,
        Err(_) => ChipType::Unknown,
    };
    let chip2 = match second {
        Ok(chip) => chip,
        Err(_) => ChipType::Unknown,
    };
    (chip1, chip2)
}

} // verus!

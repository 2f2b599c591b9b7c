//! Single-register reads and writes as the device probe issues them: the
//! request to send, and what the response means.

use vstd::prelude::*;
use crate::serial::modbus::{
    decode_spec,
    encode_spec,
    two_words,
    word_of,
    FrameModel,
    ModbusError,
    ModbusFrame,
    RegisterType,
};

verus! {

/// Deadline of a register transaction, in milliseconds.
pub const REGISTER_TIMEOUT_MS: u64 = 1000;

/// Payload bytes of a response that holds one register: the byte count and
/// the two bytes of the register.
pub const REGISTER_PAYLOAD_LENGTH: usize = 3;

/// The request that reads one holding register.
pub fn read_single_register_command(slave_address: u8, register_address: u16) -> (command: Vec<u8>)
    ensures
        command@ == encode_spec(
            FrameModel { slave_address, function_code: 0x03, data: two_words(register_address, 1) },
        ),
{
    ModbusFrame::new_read_request(
        slave_address,
        RegisterType::HoldingRegister,
        register_address,
        1,
    ).to_bytes()
}

/// The register a decoded read response holds: after the byte count, high
/// byte first.
pub open spec fn register_in_frame(frame: FrameModel) -> Result<u16, ModbusError> {
    if frame.data.len() >= REGISTER_PAYLOAD_LENGTH {
        Ok(word_of(frame.data[1], frame.data[2]))
    } else {
        Err(
            ModbusError::InvalidLength {
                expected: REGISTER_PAYLOAD_LENGTH,
                actual: frame.data.len() as usize,
            },
        )
    }
}

/// Interprets the response to a single-register read.
pub fn read_single_register(response: &[u8]) -> (result: Result<u16, ModbusError>)
    ensures
        match decode_spec(response@) {
            Ok(frame) => result == register_in_frame(frame),
            Err(error) => result == Err::<u16, ModbusError>(error),
        },
{
    match ModbusFrame::from_bytes(response) {
        Ok(frame) => {
            let data = frame.get_data();
            if data.len() >= REGISTER_PAYLOAD_LENGTH {
                Ok(((data[1] as u16) << 8) | (data[2] as u16))
            } else {
                Err(
                    ModbusError::InvalidLength {
                        expected: REGISTER_PAYLOAD_LENGTH,
                        actual: data.len(),
                    },
                )
            }
        },
        Err(error) => Err(error),
    }
}

/// The request that writes one holding register.
pub fn write_single_register_command(slave_address: u8, register_address: u16, value: u16) -> (command:
    Vec<u8>)
    ensures
        command@ == encode_spec(
            FrameModel {
                slave_address,
                function_code: 0x06,
                data: two_words(register_address, value),
            },
        ),
{
    ModbusFrame::new_write_request(
        slave_address,
        RegisterType::HoldingRegister,
        register_address,
        value,
    ).to_bytes()
}

/// Interprets the response to a single-register write: it succeeded if the
/// response decodes.
pub fn write_single_register(response: &[u8]) -> (result: Result<(), ModbusError>)
    ensures
        match decode_spec(response@) {
            Ok(_) => result is Ok,
            Err(error) => result == Err::<(), ModbusError>(error),
        },
{
    match ModbusFrame::from_bytes(response) {
        Ok(_) => Ok(()),
        Err(error) => Err(error),
    }
}

/// The slave that owns an I/O register: the first chip's registers lie from
/// 0x4000 up to 0x8000, everything else belongs to the second.
pub open spec fn io_slave_address(address: i32) -> u8 {
    if 0x4000 <= address < 0x8000 {
        1
    } else {
        2
    }
}

/// The register value that sets an I/O line to a level: 1 for level 1, 0 for
/// any other.
pub open spec fn io_level_value(level: i32) -> u16 {
    if level == 1 {
        1
    } else {
        0
    }
}

/// The low 16 bits of an address.
pub open spec fn io_register(address: i32) -> u16 {
    (address & 0xFFFF) as u16
}

/// The request that sets an I/O line.
pub fn io_write_command(level: i32, address: i32) -> (command: Vec<u8>)
    ensures
        command@ == encode_spec(
            FrameModel {
                slave_address: io_slave_address(address),
                function_code: 0x06,
                data: two_words(io_register(address), io_level_value(level)),
            },
        ),
{
    let value: u16 = if level == 1 {
        1
    } else {
        0
    };
    let slave_address: u8 = if address >= 0x4000 && address < 0x8000 {
        1
    } else {
        2
    };
    let masked: i32 = address & 0xFFFF;
    assert(0 <= address & 0xFFFF <= 0xFFFF) by (bit_vector);
    write_single_register_command(slave_address, masked as u16, value)
}

/// The level of an I/O line as polled: the lowest bit of its register, or 0
/// where the read failed.
pub open spec fn io_level_of(read: Result<u16, ModbusError>) -> i32 {
    match read {
        Ok(value) => (value & 1) as i32,
        Err(_) => 0,
    }
}

/// The level to show for a polled I/O line.
pub fn io_level(read: Result<u16, ModbusError>) -> (level: i32)
    ensures
        level == io_level_of(read),
{
    match read {
        Ok(value) => (value & 1) as i32,
        Err(_) => 0,
    }
}

} // verus!

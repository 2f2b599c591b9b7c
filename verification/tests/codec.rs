use serial_modbus::serial::modbus::{ModbusError, ModbusFrame, RegisterType};

#[test]
fn encode_read_holding_register_request() {
    let frame = ModbusFrame::new_read_request(0x01, RegisterType::HoldingRegister, 0x0000, 0x000A);
    assert_eq!(frame.to_bytes(), vec![0x01, 0x03, 0x00, 0x00, 0x00, 0x0A, 0xC5, 0xCD]);
}

#[test]
fn checksum_of_check_string() {
    let frame = ModbusFrame::new(b'1', b'2', b"3456789".to_vec());
    assert_eq!(frame.calculate_crc(), 0x4B37);
    let bytes = frame.to_bytes();
    assert_eq!(bytes[bytes.len() - 2], 0x37);
    assert_eq!(bytes[bytes.len() - 1], 0x4B);
}

#[test]
fn checksum_of_empty_payload_frame() {
    let frame = ModbusFrame::new(0x01, 0x03, Vec::new());
    assert_eq!(frame.to_bytes(), vec![0x01, 0x03, 0x40, 0x21]);
    assert_ne!(frame.calculate_crc(), 0xFFFF);
}

#[test]
fn round_trip_keeps_address_function_and_payload() {
    for address in [0u8, 1, 17, 247, 255] {
        for function in [0u8, 1, 3, 6, 16, 0x7F] {
            for payload in [vec![], vec![0u8], vec![1, 2, 3], vec![0xFF; 40]] {
                let bytes = ModbusFrame::new(address, function, payload.clone()).to_bytes();
                assert_eq!(bytes.len(), payload.len() + 4);
                let frame = ModbusFrame::from_bytes(&bytes).unwrap();
                assert_eq!(frame.get_slave_address(), address);
                assert_eq!(frame.get_function_code(), function);
                assert_eq!(frame.get_data(), &payload);
            }
        }
    }
}

#[test]
fn every_single_bit_flip_is_a_checksum_mismatch() {
    let bytes = ModbusFrame::new(0x11, 0x03, vec![0x02, 0x12, 0x34]).to_bytes();
    for at in 0..bytes.len() {
        for bit in 0..8 {
            let mut damaged = bytes.clone();
            damaged[at] ^= 1 << bit;
            assert!(matches!(
                ModbusFrame::from_bytes(&damaged),
                Err(ModbusError::CrcMismatch { .. })
            ));
        }
    }
}

#[test]
fn checksum_mismatch_reports_both_values() {
    let result = ModbusFrame::from_bytes(&[0x01, 0x03, 0x00, 0x00, 0x00, 0x0A, 0xC5, 0xCE]);
    assert_eq!(
        result.unwrap_err(),
        ModbusError::CrcMismatch { calculated: 0xCDC5, received: 0xCEC5 }
    );
}

#[test]
fn exception_bit_decodes_to_exception_response() {
    let bytes = ModbusFrame::new(0x01, 0x83, vec![0x02]).to_bytes();
    assert_eq!(
        ModbusFrame::from_bytes(&bytes).unwrap_err(),
        ModbusError::ExceptionResponse { code: 0x03, error: 0x02 }
    );
}

#[test]
fn exception_without_payload_has_error_code_zero() {
    let bytes = ModbusFrame::new(0x01, 0x86, Vec::new()).to_bytes();
    assert_eq!(
        ModbusFrame::from_bytes(&bytes).unwrap_err(),
        ModbusError::ExceptionResponse { code: 0x06, error: 0 }
    );
}

#[test]
fn exception_with_long_payload_is_still_an_exception() {
    let bytes = ModbusFrame::new(0x09, 0xFF, vec![7, 8, 9, 10]).to_bytes();
    assert_eq!(
        ModbusFrame::from_bytes(&bytes).unwrap_err(),
        ModbusError::ExceptionResponse { code: 0x7F, error: 7 }
    );
}

#[test]
fn short_inputs_are_rejected_by_length() {
    let inputs: [&[u8]; 4] = [&[], &[0x01], &[0x01, 0x03], &[0x01, 0x03, 0x40]];
    for input in inputs {
        assert_eq!(
            ModbusFrame::from_bytes(input).unwrap_err(),
            ModbusError::InvalidLength { expected: 4, actual: input.len() }
        );
    }
}

#[test]
fn four_bytes_are_a_frame_without_payload() {
    let frame = ModbusFrame::from_bytes(&[0x01, 0x03, 0x40, 0x21]).unwrap();
    assert_eq!(frame.get_slave_address(), 0x01);
    assert_eq!(frame.get_function_code(), 0x03);
    assert!(frame.get_data().is_empty());
}

#[test]
fn read_codes_by_register_class() {
    assert_eq!(RegisterType::Coil.read_code(), 0x01);
    assert_eq!(RegisterType::DiscreteInput.read_code(), 0x02);
    assert_eq!(RegisterType::HoldingRegister.read_code(), 0x03);
    assert_eq!(RegisterType::InputRegister.read_code(), 0x04);
}

#[test]
fn write_codes_by_register_class() {
    assert_eq!(RegisterType::Coil.write_code(), 0x05);
    assert_eq!(RegisterType::HoldingRegister.write_code(), 0x06);
    assert!(RegisterType::Coil.is_writable());
    assert!(RegisterType::HoldingRegister.is_writable());
    assert!(!RegisterType::DiscreteInput.is_writable());
    assert!(!RegisterType::InputRegister.is_writable());
}

#[test]
fn read_request_payload_is_address_then_count() {
    let frame = ModbusFrame::new_read_request(0x02, RegisterType::InputRegister, 0x1234, 0x0102);
    assert_eq!(frame.get_slave_address(), 0x02);
    assert_eq!(frame.get_function_code(), 0x04);
    assert_eq!(frame.get_data(), &vec![0x12, 0x34, 0x01, 0x02]);
}

#[test]
fn write_request_payload_is_address_then_value() {
    let coil = ModbusFrame::new_write_request(0x01, RegisterType::Coil, 0x00AC, 0xFF00);
    assert_eq!(coil.get_function_code(), 0x05);
    assert_eq!(coil.get_data(), &vec![0x00, 0xAC, 0xFF, 0x00]);
    let holding = ModbusFrame::new_write_request(0x11, RegisterType::HoldingRegister, 0x0001, 0x0003);
    assert_eq!(holding.to_bytes(), vec![0x11, 0x06, 0x00, 0x01, 0x00, 0x03, 0x9A, 0x9B]);
}

fn shift_register_checksum(bytes: &[u8]) -> u16 {
    let mut register: u16 = 0xFFFF;
    for byte in bytes {
        register ^= *byte as u16;
        for _ in 0..8 {
            register = if register & 1 == 1 { (register >> 1) ^ 0xA001 } else { register >> 1 };
        }
    }
    register
}

#[test]
fn checksum_agrees_with_the_shift_register_definition() {
    let mut seed: u32 = 0x1234_5678;
    for length in 0..200usize {
        let mut body = Vec::new();
        for _ in 0..length + 2 {
            seed = seed.wrapping_mul(1_664_525).wrapping_add(1_013_904_223);
            body.push((seed >> 24) as u8);
        }
        let frame = ModbusFrame::new(body[0], body[1], body[2..].to_vec());
        assert_eq!(frame.calculate_crc(), shift_register_checksum(&body));
    }
}

#[test]
fn changing_one_byte_always_changes_the_checksum() {
    let body = [0x11u8, 0x03, 0x02, 0x12, 0x34];
    let sum = ModbusFrame::new(body[0], body[1], body[2..].to_vec()).calculate_crc();
    for at in 0..body.len() {
        for value in 0..=255u8 {
            if value == body[at] {
                continue;
            }
            let mut changed = body;
            changed[at] = value;
            let other = ModbusFrame::new(changed[0], changed[1], changed[2..].to_vec());
            assert_ne!(other.calculate_crc(), sum);
        }
    }
}

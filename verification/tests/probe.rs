use serial_modbus::chip_detection::{
    chip_probe_command, classify_chip, detect_all_chips, detect_chip_type, ChipType,
};
use serial_modbus::csv_handler::{PageAddrError, RegisterRecord};
use serial_modbus::probe::{
    io_level, io_write_command, read_single_register, read_single_register_command,
    write_single_register, write_single_register_command,
};
use serial_modbus::serial::modbus::ModbusError;

#[test]
fn chip_type_names() {
    assert_eq!(ChipType::MALD.to_string(), "MALD");
    assert_eq!(ChipType::MATA.to_string(), "MATA");
    assert_eq!(ChipType::Unknown.to_string(), "未知");
}

#[test]
fn chip_probe_reads_one_holding_register() {
    assert_eq!(
        chip_probe_command(0x01, 0x4000),
        vec![0x01, 0x03, 0x40, 0x00, 0x00, 0x01, 0x91, 0xCA]
    );
    assert_eq!(
        chip_probe_command(0x01, 0xC000),
        vec![0x01, 0x03, 0xC0, 0x00, 0x00, 0x01, 0xB8, 0x0A]
    );
}

#[test]
fn chip_families_by_address_and_value() {
    assert_eq!(classify_chip(0x4000, 0x1C), ChipType::MALD);
    assert_eq!(classify_chip(0x4000, 0x1D), ChipType::MALD);
    assert_eq!(classify_chip(0x4000, 0x10), ChipType::Unknown);
    assert_eq!(classify_chip(0xC000, 0x10), ChipType::MATA);
    assert_eq!(classify_chip(0xC000, 0x11), ChipType::MATA);
    assert_eq!(classify_chip(0xC000, 0x1C), ChipType::Unknown);
    assert_eq!(classify_chip(0x1234, 0x1C), ChipType::Unknown);
}

#[test]
fn detect_chip_type_from_responses() {
    assert_eq!(
        detect_chip_type(0x4000, &[0x01, 0x03, 0x02, 0x00, 0x1C, 0xB9, 0x8D]),
        Ok(ChipType::MALD)
    );
    assert_eq!(
        detect_chip_type(0x4000, &[0x01, 0x03, 0x02, 0x00, 0x1D, 0x78, 0x4D]),
        Ok(ChipType::MALD)
    );
    assert_eq!(
        detect_chip_type(0xC000, &[0x01, 0x03, 0x02, 0x00, 0x10, 0xB9, 0x88]),
        Ok(ChipType::MATA)
    );
    assert_eq!(
        detect_chip_type(0xC000, &[0x01, 0x03, 0x02, 0x00, 0x1C, 0xB9, 0x8D]),
        Ok(ChipType::Unknown)
    );
    assert_eq!(
        detect_chip_type(0x4000, &[0x01, 0x03, 0x01, 0x05, 0x30, 0x4B]),
        Ok(ChipType::Unknown)
    );
}

#[test]
fn detect_chip_type_hands_decode_errors_on() {
    assert_eq!(
        detect_chip_type(0x4000, &[0x01, 0x03, 0x02, 0x00, 0x1C, 0xB9, 0x8E]),
        Err(ModbusError::CrcMismatch { calculated: 0x8DB9, received: 0x8EB9 })
    );
    assert_eq!(
        detect_chip_type(0x4000, &[0x01, 0x83, 0x02, 0xC0, 0xF1]),
        Err(ModbusError::ExceptionResponse { code: 0x03, error: 0x02 })
    );
    assert_eq!(
        detect_chip_type(0x4000, &[0x01]),
        Err(ModbusError::InvalidLength { expected: 4, actual: 1 })
    );
}

#[test]
fn failed_probe_leaves_chip_unknown() {
    assert_eq!(
        detect_all_chips(Ok(ChipType::MALD), Ok(ChipType::MATA)),
        (ChipType::MALD, ChipType::MATA)
    );
    assert_eq!(
        detect_all_chips(Err(ModbusError::IoError("timeout".to_string())), Ok(ChipType::MATA)),
        (ChipType::Unknown, ChipType::MATA)
    );
    assert_eq!(
        detect_all_chips(
            Ok(ChipType::MALD),
            Err(ModbusError::InvalidLength { expected: 4, actual: 0 })
        ),
        (ChipType::MALD, ChipType::Unknown)
    );
}

#[test]
fn read_single_register_command_and_response() {
    assert_eq!(
        read_single_register_command(0x01, 0x4000),
        vec![0x01, 0x03, 0x40, 0x00, 0x00, 0x01, 0x91, 0xCA]
    );
    assert_eq!(read_single_register(&[0x01, 0x03, 0x02, 0x12, 0x34, 0xB5, 0x33]), Ok(0x1234));
    assert_eq!(
        read_single_register(&[0x01, 0x03, 0x01, 0x05, 0x30, 0x4B]),
        Err(ModbusError::InvalidLength { expected: 3, actual: 2 })
    );
    assert_eq!(
        read_single_register(&[0x01, 0x83, 0x02, 0xC0, 0xF1]),
        Err(ModbusError::ExceptionResponse { code: 0x03, error: 0x02 })
    );
}

#[test]
fn write_single_register_command_and_response() {
    let command = write_single_register_command(0x01, 0x4001, 0x0001);
    assert_eq!(command, vec![0x01, 0x06, 0x40, 0x01, 0x00, 0x01, 0x0C, 0x0A]);
    assert_eq!(write_single_register(&command), Ok(()));
    assert_eq!(
        write_single_register(&[0x01, 0x06, 0x40, 0x01, 0x00, 0x01, 0x0C, 0x0B]),
        Err(ModbusError::CrcMismatch { calculated: 0x0A0C, received: 0x0B0C })
    );
}

#[test]
fn io_write_picks_slave_by_address_range() {
    assert_eq!(
        io_write_command(1, 0x4001),
        vec![0x01, 0x06, 0x40, 0x01, 0x00, 0x01, 0x0C, 0x0A]
    );
    assert_eq!(
        io_write_command(0, 0xC002),
        vec![0x02, 0x06, 0xC0, 0x02, 0x00, 0x00, 0x14, 0x39]
    );
    assert_eq!(io_write_command(5, 0xC002), io_write_command(0, 0xC002));
    assert_eq!(io_write_command(1, 0x3FFF)[0], 0x02);
    assert_eq!(io_write_command(1, 0x7FFF)[0], 0x01);
    assert_eq!(io_write_command(1, 0x8000)[0], 0x02);
    assert_eq!(&io_write_command(1, 0x1_4001)[..6], &[0x02, 0x06, 0x40, 0x01, 0x00, 0x01]);
}

#[test]
fn io_level_is_the_lowest_bit() {
    assert_eq!(io_level(Ok(0x0001)), 1);
    assert_eq!(io_level(Ok(0x0002)), 0);
    assert_eq!(io_level(Ok(0xFFFF)), 1);
    assert_eq!(io_level(Err(ModbusError::IoError("x".to_string()))), 0);
}

#[test]
fn register_record_starts_without_write_value() {
    let mut record = RegisterRecord::new(
        "0x0000".to_string(),
        "CHIPID".to_string(),
        "R".to_string(),
        "0x72".to_string(),
    );
    assert_eq!(record.page_addr, "0x0000");
    assert_eq!(record.register, "CHIPID");
    assert_eq!(record.r_w, "R");
    assert_eq!(record.value, "0x72");
    assert_eq!(record.w_value, None);
    record.set_w_value(Some("0x80".to_string()));
    assert_eq!(record.w_value, Some("0x80".to_string()));
    assert_eq!(record.page_addr, "0x0000");
    record.set_w_value(None);
    assert_eq!(record.w_value, None);
}

fn page(text: &str) -> RegisterRecord {
    RegisterRecord::new(text.to_string(), "R0".to_string(), "RW".to_string(), "0".to_string())
}

#[test]
fn page_address_in_hexadecimal_and_decimal() {
    assert_eq!(page("0x0000").get_page_addr_value(), Ok(0));
    assert_eq!(page("0x1000").get_page_addr_value(), Ok(0x1000));
    assert_eq!(page("0X1f").get_page_addr_value(), Ok(31));
    assert_eq!(page("4096").get_page_addr_value(), Ok(4096));
    assert_eq!(page("10").get_page_addr_value(), Ok(10));
    assert_eq!(page("0xFFFFFFFF").get_page_addr_value(), Ok(u32::MAX));
    assert_eq!(page("0x10").page_addr_format(), (2, 16));
    assert_eq!(page("010").page_addr_format(), (0, 10));
    assert_eq!(page("0").page_addr_format(), (0, 10));
}

#[test]
fn page_address_that_is_no_number() {
    for text in ["", "0x", "zz", "0xZZ", "12a", "0x100000000", "4294967296", "-1", "x10"] {
        assert_eq!(
            page(text).get_page_addr_value(),
            Err(PageAddrError { page_addr: text.to_string() })
        );
    }
}

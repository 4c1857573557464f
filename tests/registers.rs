use fast_emu_gui::registers::{DisplayFormat, Register, RegisterSet};

#[test]
fn format_value_pads_to_width() {
    assert_eq!(DisplayFormat::Hex.format_value(0x1234, 4), "1234");
    assert_eq!(DisplayFormat::Binary.format_value(5, 8), "00000101");
}

#[test]
fn format_value_never_truncates() {
    assert_eq!(DisplayFormat::Hex.format_value(0xabcdef, 2), "abcdef");
    assert_eq!(DisplayFormat::Decimal.format_value(12345, 0), "12345");
    assert_eq!(DisplayFormat::Octal.format_value(8, 1), "10");
}

#[test]
fn format_value_zero_and_largest() {
    assert_eq!(DisplayFormat::Decimal.format_value(0, 0), "0");
    assert_eq!(DisplayFormat::Hex.format_value(0, 3), "000");
    assert_eq!(DisplayFormat::Hex.format_value(u64::MAX, 16), "ffffffffffffffff");
    assert_eq!(DisplayFormat::Decimal.format_value(u64::MAX, 0), "18446744073709551615");
    assert_eq!(DisplayFormat::Octal.format_value(u64::MAX, 22), "1777777777777777777777");
    assert_eq!(DisplayFormat::Binary.format_value(u64::MAX, 0), "1".repeat(64));
}

#[test]
fn required_width_for_every_bit_width() {
    for bw in 1u8..=64 {
        let ceil4 = (bw + 3) / 4;
        let ceil3 = (bw + 2) / 3;
        assert_eq!(DisplayFormat::Hex.get_required_display_width(bw), ceil4);
        assert_eq!(DisplayFormat::Binary.get_required_display_width(bw), bw);
        assert_eq!(DisplayFormat::Decimal.get_required_display_width(bw), ceil3);
        assert_eq!(DisplayFormat::Octal.get_required_display_width(bw), ceil3);
    }
    assert_eq!(DisplayFormat::Hex.get_required_display_width(16), 4);
    assert_eq!(DisplayFormat::Decimal.get_required_display_width(64), 22);
}

#[test]
fn register_precision_follows_format() {
    let mut reg = Register::new(0x5678, DisplayFormat::Hex, 16);
    assert_eq!(reg.display_precision(), 4);
    assert_eq!(reg.formatted_value(), "5678");
    reg.update_display_format(DisplayFormat::Binary);
    assert_eq!(reg.display_format(), DisplayFormat::Binary);
    assert_eq!(reg.display_precision(), 16);
    assert_eq!(reg.formatted_value(), "0101011001111000");
    reg.update_display_format(DisplayFormat::Octal);
    assert_eq!(reg.display_precision(), 6);
    assert_eq!(reg.formatted_value(), "053170");
    assert_eq!(reg.bit_width(), 16);
}

#[test]
fn default_register_is_hex_byte() {
    let reg = Register::default();
    assert_eq!(reg.value, 0);
    assert_eq!(reg.display_format(), DisplayFormat::Hex);
    assert_eq!(reg.bit_width(), 8);
    assert_eq!(reg.display_precision(), 2);
    assert_eq!(DisplayFormat::default(), DisplayFormat::Hex);
}

#[test]
fn register_strings_in_order() {
    let mut set = RegisterSet::empty();
    assert!(set.add_register("R1".to_string(), Register::new(0x1234, DisplayFormat::Hex, 16)));
    assert!(set.add_register("R2".to_string(), Register::new(0x5678, DisplayFormat::Octal, 16)));
    assert!(set.add_register("R3".to_string(), Register::new(7, DisplayFormat::Decimal, 8)));
    assert!(set.add_register("R4".to_string(), Register::new(5, DisplayFormat::Binary, 4)));
    assert_eq!(
        set.get_register_strings(),
        vec![
            "R1: 0x1234".to_string(),
            "R2: 0o053170".to_string(),
            "R3: 007".to_string(),
            "R4: 0b0101".to_string(),
        ]
    );
}

#[test]
fn register_names_are_unique() {
    let mut set = RegisterSet::empty();
    assert!(set.add_register("PC".to_string(), Register::new(1, DisplayFormat::Hex, 16)));
    assert!(!set.add_register("PC".to_string(), Register::new(2, DisplayFormat::Hex, 16)));
    assert_eq!(set.registers.len(), 1);
    assert_eq!(set.find(&"PC".to_string()), Some(0));
    assert_eq!(set.find(&"SP".to_string()), None);
    let built = RegisterSet::new(vec![("A".to_string(), Register::new(3, DisplayFormat::Hex, 8))]);
    assert_eq!(built.get_register_strings(), vec!["A: 0x03".to_string()]);
}

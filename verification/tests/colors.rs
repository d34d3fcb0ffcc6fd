use rpaper::colors::{ColorValue, IntoHEX, IntoRGB, HEX, HSV, RGB};

#[test]
fn hex_text_gives_its_three_bytes() {
    assert_eq!(ColorValue::hex_to_rgb("#123456"), (0x12, 0x34, 0x56));
    assert_eq!(ColorValue::hex_to_rgb("ABCDEF"), (0xab, 0xcd, 0xef));
    assert_eq!(ColorValue::hex_to_rgb("#fff"), (0x00, 0x0f, 0xff));
    assert_eq!(ColorValue::hex_to_rgb("#12345678"), (0x34, 0x56, 0x78));
}

#[test]
fn text_that_is_no_number_gives_black() {
    assert_eq!(ColorValue::hex_to_rgb(""), (0, 0, 0));
    assert_eq!(ColorValue::hex_to_rgb("#"), (0, 0, 0));
    assert_eq!(ColorValue::hex_to_rgb("##123456"), (0, 0, 0));
    assert_eq!(ColorValue::hex_to_rgb("#12345g"), (0, 0, 0));
    assert_eq!(ColorValue::hex_to_rgb("#123456789"), (0, 0, 0));
}

#[test]
fn bytes_are_written_as_six_upper_case_digits() {
    assert_eq!(ColorValue::rgb_to_hex(0, 10, 255), "000AFF");
    assert_eq!(ColorValue::rgb_to_hex(0x12, 0x34, 0x56), "123456");
}

#[test]
fn a_color_value_keeps_its_name_through_changes() {
    let mut v = ColorValue::from_hex("@@A@@", "#102030");
    assert_eq!((v.name.as_str(), v.r, v.g, v.b), ("@@A@@", 0x10, 0x20, 0x30));
    v.invert();
    assert_eq!((v.r, v.g, v.b), (0xef, 0xdf, 0xcf));
    v.add_brightness(0x20);
    assert_eq!((v.r, v.g, v.b), (255, 0xff, 0xef));
    v.add_brightness(-250);
    assert_eq!((v.r, v.g, v.b), (5, 5, 0));
    v.add_brightness(i32::MAX);
    assert_eq!((v.r, v.g, v.b), (255, 255, 255));
    v.add_brightness(i32::MIN);
    assert_eq!((v.r, v.g, v.b), (0, 0, 0));
    v.set_value_from_hex("0a0b0c");
    assert_eq!(v.hex(), "0A0B0C");
    v.set_value_from_rgb(1, 2, 3);
    assert_eq!(v.hex(), "010203");
    assert_eq!(v.name, "@@A@@");
}

#[test]
fn the_two_written_forms_turn_into_each_other() {
    let rgb = HEX::new("1A2b3C".to_string()).to_rgb();
    assert_eq!((rgb.r, rgb.g, rgb.b), (0x1a, 0x2b, 0x3c));
    assert_eq!(RGB::new(0x1a, 0x2b, 0x3c).to_hex().value, "1A2B3C");
    let black = HEX::new("#1A2B3C".to_string()).to_rgb();
    assert_eq!((black.r, black.g, black.b), (0, 0, 0));
}

#[test]
fn hsv_is_brought_into_its_ranges() {
    let n = HSV::new(400, 50, 101)._normalize();
    assert_eq!((n.h, n.s, n.v), (360, 50, 100));
}

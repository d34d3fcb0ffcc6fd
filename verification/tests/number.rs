use rpaper::number::{
    decimal_text, digit_of, lower_hex_text, read_number, signed_decimal_text,
};

fn c(s: &str) -> Vec<char> {
    s.chars().collect()
}

fn s(v: &Vec<char>) -> String {
    v.iter().collect()
}

#[test]
fn decimal_text_has_no_leading_zeros() {
    assert_eq!(s(&decimal_text(0)), "0");
    assert_eq!(s(&decimal_text(7)), "7");
    assert_eq!(s(&decimal_text(1920)), "1920");
    assert_eq!(s(&decimal_text(u64::MAX)), "18446744073709551615");
}

#[test]
fn signed_decimal_text_carries_the_sign() {
    assert_eq!(s(&signed_decimal_text(-3)), "-3");
    assert_eq!(s(&signed_decimal_text(0)), "0");
    assert_eq!(s(&signed_decimal_text(i64::MIN)), "-9223372036854775808");
    assert_eq!(s(&signed_decimal_text(i32::MAX as i64)), "2147483647");
}

#[test]
fn lower_hex_writes_two_digits_a_byte() {
    assert_eq!(s(&lower_hex_text(&vec![0x00, 0x0f, 0xa0, 0xff])), "000fa0ff");
    assert_eq!(s(&lower_hex_text(&vec![])), "");
}

#[test]
fn digits_of_both_cases_are_read() {
    assert_eq!(digit_of('7', 10), Some(7));
    assert_eq!(digit_of('a', 10), None);
    assert_eq!(digit_of('a', 16), Some(10));
    assert_eq!(digit_of('F', 16), Some(15));
    assert_eq!(digit_of('g', 16), None);
    assert_eq!(digit_of('/', 16), None);
}

#[test]
fn numbers_are_read_as_the_standard_library_reads_them() {
    let u32_max = u32::MAX as u64;
    for text in ["0", "15", "+15", "-15", "", "+", "-", "4294967295", "4294967296", "1x", " 1", "007",
        "99999999999999999999999999"]
    {
        let mine = read_number(&c(text), 10, false, 0, u32_max).map(|(_, m)| m as u32);
        assert_eq!(mine, text.parse::<u32>().ok(), "u32 of {:?}", text);
    }
    for text in ["0", "-0", "-15", "+15", "2147483647", "2147483648", "-2147483648", "-2147483649",
        "--1", "+-1"]
    {
        let mine = read_number(&c(text), 10, true, 0x8000_0000, 0x7fff_ffff)
            .map(|(neg, m)| if neg { -(m as i64) } else { m as i64 } as i32);
        assert_eq!(mine, text.parse::<i32>().ok(), "i32 of {:?}", text);
    }
    for text in ["ff", "FF", "+1a", "-1", "123456", "100000000", "ffffffff", "g", ""] {
        let mine = read_number(&c(text), 16, false, 0, u32_max).map(|(_, m)| m as u32);
        assert_eq!(mine, u32::from_str_radix(text, 16).ok(), "hex of {:?}", text);
    }
}

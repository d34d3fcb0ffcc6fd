use rpaper::decimal::Decimal;

fn canon(s: &str) -> Option<String> {
    Decimal::parse(s).map(|d| d.text)
}

#[test]
fn decimals_are_brought_to_their_shortest_form() {
    assert_eq!(canon("1.50"), Some("1.5".to_string()));
    assert_eq!(canon("+2"), Some("2".to_string()));
    assert_eq!(canon("007.0"), Some("7".to_string()));
    assert_eq!(canon(".5"), Some("0.5".to_string()));
    assert_eq!(canon("5."), Some("5".to_string()));
    assert_eq!(canon("-0.0"), Some("-0".to_string()));
    assert_eq!(canon("0"), Some("0".to_string()));
    assert_eq!(canon("140"), Some("140".to_string()));
    assert_eq!(canon("-12.034"), Some("-12.034".to_string()));
}

#[test]
fn what_is_no_plain_decimal_is_refused() {
    for text in ["", ".", "+", "-", "1.2.3", "1e5", "abc", "1,5", " 1", "--1", "inf", "NaN"] {
        assert_eq!(canon(text), None, "{:?}", text);
    }
}

#[test]
fn zero_is_recognised_with_either_sign() {
    assert!(Decimal::zero().is_zero());
    assert!(Decimal::parse("-0").unwrap().is_zero());
    assert!(Decimal::parse("0.000").unwrap().is_zero());
    assert!(!Decimal::parse("0.001").unwrap().is_zero());
    assert!(!Decimal::parse("10").unwrap().is_zero());
    assert!(Decimal { text: "0.0".to_string() }.is_zero());
    assert!(Decimal { text: "-00.".to_string() }.is_zero());
    assert!(!Decimal { text: "zero".to_string() }.is_zero());
}

#[test]
fn shortest_form_of_a_decimal_made_by_hand() {
    let s = |t: &str| Decimal { text: t.to_string() }.shortest().iter().collect::<String>();
    assert_eq!(s("01.50"), "1.5");
    assert_eq!(s("1.5"), "1.5");
    assert_eq!(s("1e3"), "1e3");
}

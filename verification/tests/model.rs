use thpl::model::{is_numeral, Reading};

fn bytes(s: &str) -> Vec<u8> {
    s.as_bytes().to_vec()
}

#[test]
fn accepts_plain_integers_and_decimals() {
    assert!(is_numeral(&bytes("0")));
    assert!(is_numeral(&bytes("45")));
    assert!(is_numeral(&bytes("101325")));
    assert!(is_numeral(&bytes("21.5")));
    assert!(is_numeral(&bytes("-3.25")));
    assert!(is_numeral(&bytes("-7")));
}

#[test]
fn rejects_malformed_numerals() {
    assert!(!is_numeral(&bytes("")));
    assert!(!is_numeral(&bytes("-")));
    assert!(!is_numeral(&bytes(".5")));
    assert!(!is_numeral(&bytes("5.")));
    assert!(!is_numeral(&bytes("1.2.3")));
    assert!(!is_numeral(&bytes("NaN")));
    assert!(!is_numeral(&bytes("inf")));
    assert!(!is_numeral(&bytes("1e5")));
    assert!(!is_numeral(&bytes("4 5")));
    assert!(!is_numeral(&bytes("--1")));
    assert!(!is_numeral(&bytes("1-2")));
}

#[test]
fn float_rendering_is_a_numeral() {
    // the shape in which the surrounding program renders sensor floats
    for v in [21.5f64, 45.0, 101325.0, 300.0, -12.75] {
        assert!(is_numeral(&bytes(&format!("{}", v))));
    }
}

#[test]
fn reading_keeps_fields_and_checks_well_formedness() {
    let r = Reading::new(bytes("21.5"), bytes("45"), bytes("101325"), bytes("300"));
    assert_eq!(r.temperature, bytes("21.5"));
    assert_eq!(r.humidity, bytes("45"));
    assert_eq!(r.pressure, bytes("101325"));
    assert_eq!(r.light, bytes("300"));
    assert!(r.is_well_formed());

    let bad = Reading::new(bytes("NaN"), bytes("45"), bytes("101325"), bytes("300"));
    assert!(!bad.is_well_formed());
}

#[test]
fn consecutive_readings_are_independent() {
    // two rounds of the loop give two owned snapshots: changing the one
    // later in hand leaves the earlier one untouched
    let first = Reading::new(bytes("21.5"), bytes("45"), bytes("101325"), bytes("300"));
    let mut second = Reading::new(bytes("21.5"), bytes("45"), bytes("101325"), bytes("300"));
    second.temperature = bytes("99.9");
    second.light = bytes("0");
    assert_eq!(first.temperature, bytes("21.5"));
    assert_eq!(first.light, bytes("300"));
    assert_eq!(second.temperature, bytes("99.9"));
}

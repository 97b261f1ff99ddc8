use thpl::line::{encode_line, parse_line};
use thpl::model::Reading;

fn bytes(s: &str) -> Vec<u8> {
    s.as_bytes().to_vec()
}

fn fixed_reading() -> Reading {
    // the fixed mocked values, rendered the way the surrounding program
    // renders sensor floats: plain Display, so 45.0 becomes "45"
    Reading::new(
        bytes(&format!("{}", 21.5f64)),
        bytes(&format!("{}", 45.0f64)),
        bytes(&format!("{}", 101325.0f64)),
        bytes(&format!("{}", 300.0f64)),
    )
}

#[test]
fn encodes_fixed_reading_to_expected_line() {
    let line = encode_line(&bytes("thpl"), &bytes("hostname"), &bytes("testhost"), &fixed_reading());
    assert_eq!(
        String::from_utf8(line).unwrap(),
        "thpl,hostname=testhost temperature=21.5,humidity=45,pressure=101325,light=300"
    );
}

#[test]
fn encodes_negative_and_fractional_values() {
    let r = Reading::new(bytes("-3.25"), bytes("0"), bytes("99000.5"), bytes("0.25"));
    let line = encode_line(&bytes("room"), &bytes("host"), &bytes("pi"), &r);
    assert_eq!(
        String::from_utf8(line).unwrap(),
        "room,host=pi temperature=-3.25,humidity=0,pressure=99000.5,light=0.25"
    );
}

#[test]
fn round_trip_recovers_measurement_tag_and_fields() {
    let reading = fixed_reading();
    let line = encode_line(&bytes("thpl"), &bytes("hostname"), &bytes("testhost"), &reading);
    let point = parse_line(&line).expect("an encoded line decodes");
    assert_eq!(point.measurement, bytes("thpl"));
    assert_eq!(point.tag_key, bytes("hostname"));
    assert_eq!(point.tag_value, bytes("testhost"));
    assert_eq!(point.fields.len(), 4);
    assert_eq!(point.fields[0], (bytes("temperature"), bytes("21.5")));
    assert_eq!(point.fields[1], (bytes("humidity"), bytes("45")));
    assert_eq!(point.fields[2], (bytes("pressure"), bytes("101325")));
    assert_eq!(point.fields[3], (bytes("light"), bytes("300")));
}

#[test]
fn round_trip_is_exact_on_every_finite_shape() {
    for (t, h, p, l) in [
        ("0", "0", "0", "0"),
        ("-40", "100", "108000", "0.001"),
        ("21.5", "45", "101325", "300"),
        ("-0.5", "99.99", "5", "123456.789"),
    ] {
        let r = Reading::new(bytes(t), bytes(h), bytes(p), bytes(l));
        let line = encode_line(&bytes("thpl"), &bytes("hostname"), &bytes("pi"), &r);
        let point = parse_line(&line).expect("an encoded line decodes");
        assert_eq!(point.fields[0].1, bytes(t));
        assert_eq!(point.fields[1].1, bytes(h));
        assert_eq!(point.fields[2].1, bytes(p));
        assert_eq!(point.fields[3].1, bytes(l));
    }
}

#[test]
fn line_has_one_measurement_token_and_stable_key_order() {
    let line = encode_line(&bytes("thpl"), &bytes("hostname"), &bytes("testhost"), &fixed_reading());
    let text = String::from_utf8(line).unwrap();
    // exactly one space separates the measurement-and-tag token from the fields
    assert_eq!(text.matches(' ').count(), 1);
    let (header, fields) = text.split_once(' ').unwrap();
    assert_eq!(header.matches(',').count(), 1);
    let keys: Vec<&str> = fields.split(',').map(|p| p.split_once('=').unwrap().0).collect();
    assert_eq!(keys, ["temperature", "humidity", "pressure", "light"]);
}

#[test]
fn values_pass_through_without_validation() {
    // a non-finite sensor value is encoded unmodified, exactly as carried
    let r = Reading::new(bytes("NaN"), bytes("inf"), bytes("-inf"), bytes("300"));
    let line = encode_line(&bytes("thpl"), &bytes("hostname"), &bytes("pi"), &r);
    assert_eq!(
        String::from_utf8(line).unwrap(),
        "thpl,hostname=pi temperature=NaN,humidity=inf,pressure=-inf,light=300"
    );
    assert!(!r.is_well_formed());
}

#[test]
fn parse_rejects_lines_without_separators() {
    assert!(parse_line(&bytes("no-space-here")).is_none());
    assert!(parse_line(&bytes("notag value temperature=1")).is_none());
    assert!(parse_line(&bytes("m,tag t=1,broken")).is_none());
    assert!(parse_line(&bytes("")).is_none());
}

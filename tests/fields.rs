use gnss_exporter::altitude::parse_altitude;
use gnss_exporter::antenna::{antenna_status, AntennaStatus};
use gnss_exporter::coordinate::{hemisphere_sign, parse_lat_long, Coordinate};
use gnss_exporter::ratio::{parse_used_seen, MalformedField};

fn degrees(c: &Coordinate) -> f64 {
    let d: f64 = c.degrees.parse().unwrap();
    let m: f64 = c.minutes.parse().unwrap();
    let sign = if c.negative { -1.0 } else { 1.0 };
    sign * (d + m / 60.0)
}

fn coord(negative: bool, degrees: &str, minutes: &str) -> Coordinate {
    Coordinate { negative, degrees: degrees.to_string(), minutes: minutes.to_string() }
}

fn alt(text: &str) -> Option<String> {
    Some(text.to_string())
}

#[test]
fn used_seen_plain_pairs() {
    assert_eq!(parse_used_seen("8/12"), Ok((8, 12)));
    assert_eq!(parse_used_seen("3/5"), Ok((3, 5)));
    assert_eq!(parse_used_seen("0/0"), Ok((0, 0)));
}

#[test]
fn used_seen_passes_signs_through() {
    assert_eq!(parse_used_seen("-3/+4"), Ok((-3, 4)));
    assert_eq!(parse_used_seen("-9223372036854775808/9223372036854775807"), Ok((i64::MIN, i64::MAX)));
}

#[test]
fn used_seen_rejects_malformed_text() {
    assert_eq!(parse_used_seen("812"), Err(MalformedField));
    assert_eq!(parse_used_seen(""), Err(MalformedField));
    assert_eq!(parse_used_seen("a/1"), Err(MalformedField));
    assert_eq!(parse_used_seen("1/"), Err(MalformedField));
    assert_eq!(parse_used_seen("/1"), Err(MalformedField));
    assert_eq!(parse_used_seen("1/2/3"), Err(MalformedField));
    assert_eq!(parse_used_seen(" 1/2"), Err(MalformedField));
    assert_eq!(parse_used_seen("-/2"), Err(MalformedField));
    assert_eq!(parse_used_seen("9223372036854775808/1"), Err(MalformedField));
    assert_eq!(parse_used_seen("1/-9223372036854775809"), Err(MalformedField));
    assert_eq!(parse_used_seen("1/99999999999999999999999"), Err(MalformedField));
}

#[test]
fn used_seen_round_trips_through_formatting() {
    let pairs = [(0i64, 0i64), (8, 12), (-1, 7), (i64::MIN, i64::MAX), (1234567, 10)];
    for (u, s) in pairs {
        let text = format!("{}/{}", u, s);
        assert_eq!(parse_used_seen(&text), Ok((u, s)));
    }
}

#[test]
fn hemisphere_signs() {
    assert_eq!(hemisphere_sign("N"), Ok(1));
    assert_eq!(hemisphere_sign("E"), Ok(1));
    assert_eq!(hemisphere_sign("S"), Ok(-1));
    assert_eq!(hemisphere_sign("W"), Ok(-1));
    for other in ["", "n", "X", "NE", " N", "N "] {
        assert_eq!(hemisphere_sign(other), Err(MalformedField));
    }
}

#[test]
fn coordinate_degrees_and_decimal_minutes() {
    let c = parse_lat_long("N 4915.12345").unwrap();
    assert_eq!(c, coord(false, "49", "15.12345"));
    assert!((degrees(&c) - (49.0 + 15.12345 / 60.0)).abs() < 1e-12);
}

#[test]
fn coordinate_southern_and_western_are_negative() {
    let s = parse_lat_long("S 4915.12345").unwrap();
    assert_eq!(s, coord(true, "49", "15.12345"));
    assert!((degrees(&s) + (49.0 + 15.12345 / 60.0)).abs() < 1e-12);
    let w = parse_lat_long("W 00715.00000").unwrap();
    assert_eq!(w, coord(true, "007", "15.00000"));
    assert!((degrees(&w) + 7.25).abs() < 1e-12);
}

#[test]
fn coordinate_end_to_end_values() {
    let lat = parse_lat_long("N 4915.00000").unwrap();
    let lon = parse_lat_long("E 00715.00000").unwrap();
    assert!((degrees(&lat) - 49.25).abs() < 1e-12);
    assert!((degrees(&lon) - 7.25).abs() < 1e-12);
}

#[test]
fn coordinate_without_fraction_digits() {
    let c = parse_lat_long("E 10030.").unwrap();
    assert_eq!(c, coord(false, "100", "30."));
    assert!((degrees(&c) - 100.5).abs() < 1e-12);
}

#[test]
fn coordinate_keeps_long_digit_strings() {
    let c = parse_lat_long("N 4915.12345678901234567890").unwrap();
    assert_eq!(c, coord(false, "49", "15.12345678901234567890"));
    let c = parse_lat_long("N 4959.1234567890123456789").unwrap();
    assert_eq!(c, coord(false, "49", "59.1234567890123456789"));
    assert!((degrees(&c) - (49.0 + 59.1234567890123456789 / 60.0)).abs() < 1e-12);
    let c = parse_lat_long("S 123456789012345678901234500.0").unwrap();
    assert_eq!(c, coord(true, "1234567890123456789012345", "00.0"));
}

#[test]
fn coordinate_rejects_malformed_text() {
    for bad in [
        "N4915.12345",
        "X 4915.12345",
        "N 491512345",
        "N 15.12345",
        "N 5.1",
        "N .1",
        "N 49a5.1",
        "N 4915.1x",
        "N 4915.1.2",
        "N -4915.1",
        "",
        "N ",
    ] {
        assert_eq!(parse_lat_long(bad), Err(MalformedField), "{bad}");
    }
}

#[test]
fn altitude_with_and_without_unit() {
    assert_eq!(parse_altitude("123.4 m"), alt("123.4"));
    assert_eq!(parse_altitude("123.4"), alt("123.4"));
    let v: f64 = parse_altitude("123.4 m").unwrap().parse().unwrap();
    assert_eq!(v, 123.4);
    assert_eq!(parse_altitude("200 m"), alt("200"));
}

#[test]
fn altitude_signs_and_short_forms() {
    assert_eq!(parse_altitude("-12.5 m"), alt("-12.5"));
    assert_eq!(parse_altitude("+7"), alt("+7"));
    assert_eq!(parse_altitude(".5"), alt(".5"));
    assert_eq!(parse_altitude("5."), alt("5."));
    for text in ["-12.5", "+7", ".5", "5."] {
        assert!(text.parse::<f64>().is_ok());
    }
}

#[test]
fn altitude_keeps_long_digit_strings() {
    assert_eq!(parse_altitude("0.12345678901234567890"), alt("0.12345678901234567890"));
    assert_eq!(parse_altitude("123456789012345678901234567890 m"), alt("123456789012345678901234567890"));
}

#[test]
fn altitude_rejects_garbage() {
    for bad in ["garbage", "", " m", ".", "-", "1.2.3", "12 m m", "12m", "1e3"] {
        assert_eq!(parse_altitude(bad), None, "{bad}");
    }
}

#[test]
fn antenna_words() {
    assert_eq!(antenna_status("OPEN"), AntennaStatus::Open);
    assert_eq!(antenna_status("OK"), AntennaStatus::Healthy);
    assert_eq!(antenna_status("FAULT"), AntennaStatus::Unknown);
    assert_eq!(antenna_status("OPEN").gauge_value(), 0);
    assert_eq!(antenna_status("OK").gauge_value(), 1);
    assert_eq!(antenna_status("FAULT").gauge_value(), 2);
    assert_eq!(antenna_status("ok").gauge_value(), 2);
    assert_eq!(antenna_status("").gauge_value(), 2);
}

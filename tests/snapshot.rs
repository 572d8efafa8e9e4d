use gnss_exporter::coordinate::Coordinate;
use gnss_exporter::snapshot::{update_metrics, MetricSnapshot, ReceiverStatus, StatusField};

fn status(ant: &str, gps: &str, bd: &str, gl: &str, lat: &str, long: &str, alt: &str) -> ReceiverStatus {
    ReceiverStatus {
        ant: ant.to_string(),
        gpsinfo: gps.to_string(),
        bdinfo: bd.to_string(),
        glinfo: gl.to_string(),
        lat: lat.to_string(),
        long: long.to_string(),
        alt: alt.to_string(),
    }
}

fn degrees(c: &Coordinate) -> f64 {
    let d: f64 = c.degrees.parse().unwrap();
    let m: f64 = c.minutes.parse().unwrap();
    let sign = if c.negative { -1.0 } else { 1.0 };
    sign * (d + m / 60.0)
}

fn alt(text: &str) -> Option<String> {
    Some(text.to_string())
}

#[test]
fn end_to_end_record() {
    let mut snap = MetricSnapshot::new();
    let s = status("OK", "8/12", "3/5", "0/0", "N 4915.00000", "E 00715.00000", "200 m");
    let failed = update_metrics(&mut snap, &s);
    assert!(failed.is_empty());
    assert_eq!(snap.antenna, Some(1));
    assert_eq!(snap.gps, Some((8, 12)));
    assert_eq!(snap.beidou, Some((3, 5)));
    assert_eq!(snap.glonass, Some((0, 0)));
    let (lat, long) = snap.position.clone().unwrap();
    assert!((degrees(&lat) - 49.25).abs() < 1e-12);
    assert!((degrees(&long) - 7.25).abs() < 1e-12);
    assert_eq!(snap.altitude, alt("200"));
}

#[test]
fn malformed_gps_does_not_block_other_constellations() {
    let mut snap = MetricSnapshot::new();
    update_metrics(&mut snap, &status("OK", "8/12", "1/1", "1/1", "N 4915.00000", "E 00715.00000", "200 m"));
    let failed = update_metrics(&mut snap, &status("OPEN", "8-12", "3/5", "4/6", "N 4915.00000", "E 00715.00000", "201 m"));
    assert_eq!(failed, vec![StatusField::GpsInfo]);
    assert_eq!(snap.gps, Some((8, 12)));
    assert_eq!(snap.beidou, Some((3, 5)));
    assert_eq!(snap.glonass, Some((4, 6)));
    assert_eq!(snap.antenna, Some(0));
    assert_eq!(snap.altitude, alt("201"));
}

#[test]
fn garbage_altitude_keeps_previous_reading() {
    let mut snap = MetricSnapshot::new();
    update_metrics(&mut snap, &status("OK", "8/12", "3/5", "0/0", "N 4915.00000", "E 00715.00000", "123.4 m"));
    let failed = update_metrics(&mut snap, &status("OK", "9/12", "3/5", "0/0", "N 4915.00000", "E 00715.00000", "garbage"));
    assert!(failed.is_empty());
    assert_eq!(snap.altitude, alt("123.4"));
    assert_eq!(snap.gps, Some((9, 12)));
}

#[test]
fn altitude_without_unit_updates() {
    let mut snap = MetricSnapshot::new();
    update_metrics(&mut snap, &status("OK", "8/12", "3/5", "0/0", "N 4915.00000", "E 00715.00000", "123.4"));
    assert_eq!(snap.altitude, alt("123.4"));
}

#[test]
fn position_is_kept_when_either_coordinate_fails() {
    let mut snap = MetricSnapshot::new();
    update_metrics(&mut snap, &status("OK", "8/12", "3/5", "0/0", "N 4915.00000", "E 00715.00000", "200 m"));
    let before = snap.position.clone();
    let failed = update_metrics(&mut snap, &status("OK", "8/12", "3/5", "0/0", "S 1000.00000", "Q 00715.00000", "200 m"));
    assert_eq!(failed, vec![StatusField::Position]);
    assert_eq!(snap.position, before);
    let failed = update_metrics(&mut snap, &status("OK", "8/12", "3/5", "0/0", "S1000.0", "W 00100.0", "200 m"));
    assert_eq!(failed, vec![StatusField::Position]);
    assert_eq!(snap.position, before);
}

#[test]
fn every_field_failing_keeps_every_reading() {
    let mut snap = MetricSnapshot::new();
    update_metrics(&mut snap, &status("OK", "8/12", "3/5", "0/0", "N 4915.00000", "E 00715.00000", "200 m"));
    let before = snap.clone();
    let failed = update_metrics(&mut snap, &status("FAULT", "x", "y", "z", "lat", "long", "alt"));
    assert_eq!(
        failed,
        vec![
            StatusField::GpsInfo,
            StatusField::BeidouInfo,
            StatusField::GlonassInfo,
            StatusField::Position
        ]
    );
    assert_eq!(snap.antenna, Some(2));
    assert_eq!(snap.gps, before.gps);
    assert_eq!(snap.beidou, before.beidou);
    assert_eq!(snap.glonass, before.glonass);
    assert_eq!(snap.position, before.position);
    assert_eq!(snap.altitude, before.altitude);
}

#[test]
fn fresh_snapshot_is_unset() {
    let snap = MetricSnapshot::new();
    assert_eq!(snap.antenna, None);
    assert_eq!(snap.position, None);
    assert_eq!(snap.altitude, None);
}

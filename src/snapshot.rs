//! Applying one decoded status record to the gauge readings.
use vstd::prelude::*;
use crate::altitude::{altitude_of, parse_altitude};
use crate::antenna::{antenna_status, antenna_status_of};
use crate::coordinate::{coordinate_of, parse_lat_long, Coordinate};
use crate::ratio::{parse_used_seen, used_seen_of};

verus! {

/// The receiver's status record, each field as the text it was sent as.
pub struct ReceiverStatus {
    pub ant: String,
    pub gpsinfo: String,
    pub bdinfo: String,
    pub glinfo: String,
    pub lat: String,
    pub long: String,
    pub alt: String,
}

/// The gauge readings; `None` is a gauge that no record has set yet.
///
/// Latitude and longitude form one reading, so that they always come from
/// the same record. The altitude is its decimal text, kept digit for digit.
#[derive(Clone, Debug, PartialEq, Eq)]
pub struct MetricSnapshot {
    pub antenna: Option<i64>,
    pub gps: Option<(i64, i64)>,
    pub beidou: Option<(i64, i64)>,
    pub glonass: Option<(i64, i64)>,
    pub position: Option<(Coordinate, Coordinate)>,
    pub altitude: Option<String>,
}

/// A field of the record, or group of fields, that failed to decode and is
/// reported. An altitude that fails is not reported: it only keeps its old
/// reading.
#[derive(Clone, Copy, Debug, PartialEq, Eq, Structural)]
pub enum StatusField {
    GpsInfo,
    BeidouInfo,
    GlonassInfo,
    Position,
}

/// A new reading where there is one, else the old one.
pub open spec fn newer<T>(new: Option<T>, old: Option<T>) -> Option<T> {
    match new {
        Some(v) => Some(v),
        None => old,
    }
}

/// Whether both coordinates of a record decode.
pub open spec fn position_decodes(lat: Seq<char>, long: Seq<char>) -> bool {
    coordinate_of(lat) is Some && coordinate_of(long) is Some
}

/// The position reading as values.
pub open spec fn position_view(p: Option<(Coordinate, Coordinate)>) -> Option<
    ((bool, Seq<char>, Seq<char>), (bool, Seq<char>, Seq<char>)),
> {
    match p {
        Some((a, b)) => Some((a@, b@)),
        None => None,
    }
}

/// The altitude reading as a value.
pub open spec fn altitude_view(a: Option<String>) -> Option<Seq<char>> {
    match a {
        Some(t) => Some(t@),
        None => None,
    }
}

/// Whether `new` holds the readings after `status` is applied to `old`:
/// every field that decodes replaces its reading, every other reading
/// stays as it was.
pub open spec fn snapshot_follows(
    old: MetricSnapshot,
    new: MetricSnapshot,
    status: ReceiverStatus,
) -> bool {
    &&& new.antenna == Some(antenna_status_of(status.ant@).spec_gauge_value())
    &&& new.gps == newer(used_seen_of(status.gpsinfo@), old.gps)
    &&& new.beidou == newer(used_seen_of(status.bdinfo@), old.beidou)
    &&& new.glonass == newer(used_seen_of(status.glinfo@), old.glonass)
    &&& if position_decodes(status.lat@, status.long@) {
        position_view(new.position) == Some(
            (coordinate_of(status.lat@).unwrap(), coordinate_of(status.long@).unwrap()),
        )
    } else {
        new.position == old.position
    }
    &&& if altitude_of(status.alt@) is Some {
        altitude_view(new.altitude) == altitude_of(status.alt@)
    } else {
        new.altitude == old.altitude
    }
}

pub open spec fn failed_if(failed: bool, f: StatusField) -> Seq<StatusField> {
    if failed {
        seq![f]
    } else {
        Seq::empty()
    }
}

/// The reported fields of `status` that do not decode, in record order.
pub open spec fn failed_fields(status: ReceiverStatus) -> Seq<StatusField> {
    failed_if(used_seen_of(status.gpsinfo@) is None, StatusField::GpsInfo) + failed_if(
        used_seen_of(status.bdinfo@) is None,
        StatusField::BeidouInfo,
    ) + failed_if(used_seen_of(status.glinfo@) is None, StatusField::GlonassInfo) + failed_if(
        !position_decodes(status.lat@, status.long@),
        StatusField::Position,
    )
}

impl MetricSnapshot {
    /// Readings before any record has been applied.
    pub fn new() -> (r: MetricSnapshot)
        ensures
            r.antenna is None,
            r.gps is None,
            r.beidou is None,
            r.glonass is None,
            r.position is None,
            r.altitude is None,
    {
        MetricSnapshot {
            antenna: None,
            gps: None,
            beidou: None,
            glonass: None,
            position: None,
            altitude: None,
        }
    }
}

fn note_failure(failed: &mut Vec<StatusField>, ok: bool, f: StatusField)
    ensures
        final(failed)@ == old(failed)@ + failed_if(!ok, f),
{
    if !ok {
        failed.push(f);
    } else {
        assert(old(failed)@ + failed_if(!ok, f) =~= old(failed)@);
    }
}

/// Decodes every field of `status` and applies each one that decodes to
/// `snapshot`. A field that fails leaves its reading as it was and does not
/// keep the others from being applied; latitude and longitude are applied
/// together or not at all. Returns the satellite and position fields that
/// failed; an altitude that fails is tolerated without a report.
pub fn update_metrics(snapshot: &mut MetricSnapshot, status: &ReceiverStatus) -> (failed: Vec<
    StatusField,
>)
    ensures
        snapshot_follows(*old(snapshot), *final(snapshot), *status),
        failed@ == failed_fields(*status),
{
    let mut failed: Vec<StatusField> = Vec::new();
    snapshot.antenna = Some(antenna_status(status.ant.as_str()).gauge_value());

    let gps = parse_used_seen(status.gpsinfo.as_str());
    note_failure(&mut failed, gps.is_ok(), StatusField::GpsInfo);
    if let Ok(p) = gps {
        snapshot.gps = Some(p);
    }
    let bd = parse_used_seen(status.bdinfo.as_str());
    note_failure(&mut failed, bd.is_ok(), StatusField::BeidouInfo);
    if let Ok(p) = bd {
        snapshot.beidou = Some(p);
    }
    let gl = parse_used_seen(status.glinfo.as_str());
    note_failure(&mut failed, gl.is_ok(), StatusField::GlonassInfo);
    if let Ok(p) = gl {
        snapshot.glonass = Some(p);
    }

    let lat = parse_lat_long(status.lat.as_str());
    let long = parse_lat_long(status.long.as_str());
    let position_ok = lat.is_ok() && long.is_ok();
    note_failure(&mut failed, position_ok, StatusField::Position);
    if let (Ok(a), Ok(b)) = (lat, long) {
        snapshot.position = Some((a, b));
    }

    if let Some(t) = parse_altitude(status.alt.as_str()) {
        snapshot.altitude = Some(t);
    }
    assert(failed@ =~= failed_fields(*status));
    failed
}

/// A malformed GPS field leaves the GPS reading as it was and does not keep
/// the BeiDou and GLONASS fields, nor any other, from being applied.
pub proof fn lemma_gps_failure_is_contained(
    old: MetricSnapshot,
    new: MetricSnapshot,
    status: ReceiverStatus,
)
    requires
        snapshot_follows(old, new, status),
        used_seen_of(status.gpsinfo@) is None,
    ensures
        new.gps == old.gps,
        used_seen_of(status.bdinfo@) matches Some(p) ==> new.beidou == Some(p),
        used_seen_of(status.glinfo@) matches Some(p) ==> new.glonass == Some(p),
        position_decodes(status.lat@, status.long@) ==> position_view(new.position) == Some(
            (coordinate_of(status.lat@).unwrap(), coordinate_of(status.long@).unwrap()),
        ),
        altitude_of(status.alt@) is Some ==> altitude_view(new.altitude) == altitude_of(
            status.alt@,
        ),
{
}

/// A malformed altitude keeps its old reading and is not reported, so a
/// record whose only fault is its altitude reports no failure.
pub proof fn lemma_altitude_failure_is_silent(
    old: MetricSnapshot,
    new: MetricSnapshot,
    status: ReceiverStatus,
)
    requires
        snapshot_follows(old, new, status),
        altitude_of(status.alt@) is None,
    ensures
        new.altitude == old.altitude,
        used_seen_of(status.gpsinfo@) is Some && used_seen_of(status.bdinfo@) is Some
            && used_seen_of(status.glinfo@) is Some && position_decodes(status.lat@, status.long@)
            ==> failed_fields(status).len() == 0,
{
    if used_seen_of(status.gpsinfo@) is Some && used_seen_of(status.bdinfo@) is Some
        && used_seen_of(status.glinfo@) is Some && position_decodes(status.lat@, status.long@) {
        assert(failed_fields(status) =~= Seq::<StatusField>::empty());
    }
}

/// Each reading depends only on its own fields and the old reading: two
/// records that agree on a field's text give that field the same reading,
/// whatever else they hold.
pub proof fn lemma_fields_independent(
    old: MetricSnapshot,
    new_a: MetricSnapshot,
    a: ReceiverStatus,
    new_b: MetricSnapshot,
    b: ReceiverStatus,
)
    requires
        snapshot_follows(old, new_a, a),
        snapshot_follows(old, new_b, b),
    ensures
        a.ant@ == b.ant@ ==> new_a.antenna == new_b.antenna,
        a.gpsinfo@ == b.gpsinfo@ ==> new_a.gps == new_b.gps,
        a.bdinfo@ == b.bdinfo@ ==> new_a.beidou == new_b.beidou,
        a.glinfo@ == b.glinfo@ ==> new_a.glonass == new_b.glonass,
        a.lat@ == b.lat@ && a.long@ == b.long@ ==> position_view(new_a.position) == position_view(
            new_b.position,
        ),
        a.alt@ == b.alt@ ==> altitude_view(new_a.altitude) == altitude_view(new_b.altitude),
{
}

/// Latitude and longitude always come from one record: after an update the
/// position is either the old one or both coordinates of the new record.
pub proof fn lemma_position_paired(old: MetricSnapshot, new: MetricSnapshot, status: ReceiverStatus)
    requires
        snapshot_follows(old, new, status),
    ensures
        new.position == old.position || (position_decodes(status.lat@, status.long@)
            && position_view(new.position) == Some(
            (coordinate_of(status.lat@).unwrap(), coordinate_of(status.long@).unwrap()),
        )),
{
}

} // verus!

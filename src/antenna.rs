//! The antenna status word.
use vstd::prelude::*;
use crate::text::same_text;

verus! {

/// Antenna health as the receiver reports it.
#[derive(Clone, Copy, Debug, PartialEq, Eq, Structural)]
pub enum AntennaStatus {
    /// `"OPEN"`: no antenna connected.
    Open,
    /// `"OK"`: antenna connected and healthy.
    Healthy,
    /// Any other word, fault codes included.
    Unknown,
}

/// The status named by a word; every word other than `OPEN` and `OK` is
/// `Unknown`.
pub open spec fn antenna_status_of(s: Seq<char>) -> AntennaStatus {
    if s == seq!['O', 'P', 'E', 'N'] {
        AntennaStatus::Open
    } else if s == seq!['O', 'K'] {
        AntennaStatus::Healthy
    } else {
        AntennaStatus::Unknown
    }
}

impl AntennaStatus {
    /// Gauge reading of a status: 0 open, 1 ok, 2 anything else.
    pub open spec fn spec_gauge_value(self) -> i64 {
        match self {
            AntennaStatus::Open => 0,
            AntennaStatus::Healthy => 1,
            AntennaStatus::Unknown => 2,
        }
    }

    pub fn gauge_value(&self) -> (r: i64)
        ensures
            r == self.spec_gauge_value(),
    {
        match self {
            AntennaStatus::Open => 0,
            AntennaStatus::Healthy => 1,
            AntennaStatus::Unknown => 2,
        }
    }
}

/// Maps a status word to its status; never fails.
pub fn antenna_status(s: &str) -> (r: AntennaStatus)
    ensures
        r == antenna_status_of(s@),
{
    proof {
        reveal_strlit("OPEN");
        reveal_strlit("OK");
    }
    assert("OPEN"@ =~= seq!['O', 'P', 'E', 'N']);
    assert("OK"@ =~= seq!['O', 'K']);
    if same_text(s, "OPEN") {
        AntennaStatus::Open
    } else if same_text(s, "OK") {
        AntennaStatus::Healthy
    } else {
        AntennaStatus::Unknown
    }
}

} // verus!

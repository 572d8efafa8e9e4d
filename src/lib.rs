//! Decoding of a GNSS receiver's XML status record into gauge readings.
//!
//! The receiver reports its state as free text: an antenna status word,
//! "used/seen" satellite counts per constellation, coordinates in
//! hemisphere-prefixed degrees and decimal minutes, and an altitude with a
//! unit suffix. This library turns that text into exact numeric values and
//! applies them, field by field, to a snapshot of gauge readings.
//!
//! Protocol variant: the record carries `ant`, `gpsinfo`, `bdinfo`, `glinfo`,
//! `lat`, `long` and `alt` (no combined satellites-used total), and
//! coordinates encode degrees followed by decimal minutes.
//!
//! Numbers are kept exact: satellite counts are integers, and a coordinate
//! or an altitude keeps its checked digit text, however long, so that the
//! conversion to a float is the caller's one rounding step.
pub mod altitude;
pub mod antenna;
pub mod coordinate;
pub mod ratio;
pub mod snapshot;
pub mod text;

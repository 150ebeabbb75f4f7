//! Debian-style changelogs: an in-memory model of release records, the line
//! grammar that reads them from text, and the serializer that writes them back.
//!
//! * [`record`] and [`changelog`] hold the records and render them.
//! * [`grammar`] holds a line against the four shapes of a changelog line,
//!   with the regex crate ([`pattern`]) and chrono ([`timestamp`]).
//! * [`parser`] is the state machine that collects classified lines into
//!   records; [`laws`] and [`outline`] state what holds of it.
//! * [`config`] and [`dchfile`] describe the packages to work on and their
//!   next release.

pub mod changelog;
pub mod config;
pub mod dchfile;
pub mod grammar;
pub mod laws;
pub mod outline;
pub mod parser;
pub mod pattern;
pub mod record;
pub mod text;
pub mod timestamp;

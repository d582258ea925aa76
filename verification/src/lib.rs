//! A verified core for a host telemetry sampler.
//!
//! The library covers the logic of a long-running collector that samples
//! CPU, memory, swap and per-process usage, appends the series to a
//! self-describing text record, rotates old generations of that record,
//! enforces a size cap, and later reloads the record into a column store.
//! All I/O, OS metric queries and chart rendering are left to the caller;
//! the functions here work on plain values and carry contracts.

pub mod strutil;

pub mod numfmt;

pub mod enums;

pub mod model;

pub mod rotation;

pub mod collector;

pub mod tracker;

pub mod csv_file_loader;

pub mod roundtrip;

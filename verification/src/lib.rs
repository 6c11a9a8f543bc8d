//! Discovery-and-decode pipeline for short-range environmental sensor
//! beacons.
//!
//! The library turns the raw service-data payloads broadcast by nearby
//! sensors into structured readings tagged with an operator-assigned
//! location label.  It is organised as four small components:
//!
//! - [`decode`]: the fixed-layout binary payload decoder,
//! - [`resolve`]: hardware-address canonicalization and the static
//!   address-to-location table,
//! - [`filter`]: extraction of the target service's payload from one
//!   advertisement,
//! - [`scan`]: the per-device filter / resolve / decode chain and its
//!   fold over a whole scan snapshot, with per-device failure isolation.
//!
//! Adapter I/O (starting a discovery scan, enumerating devices) and the
//! downstream measurement sink live outside the library; they hand the
//! scan snapshot in as plain values.

pub mod decode;
pub mod filter;
pub mod resolve;
pub mod scan;

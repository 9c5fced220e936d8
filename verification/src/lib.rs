//! Observes authentication events and keeps a live view of which network
//! address most recently authenticated as which identity.
//!
//! The crate has two core pieces: the event-record decoder, which turns one
//! raw event's XML text into a flat field map with a normalized timestamp,
//! and the identity-record store, a keyed merge structure with
//! change-detection and timestamp-ordering semantics. A thin ingestion
//! function wires the two together; all I/O stays outside this crate.

pub mod decode;
pub mod pipeline;
pub mod record;
pub mod timestamp;

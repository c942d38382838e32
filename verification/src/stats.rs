//! What shakes have saved, read from the log.

pub mod cache;
pub mod event_laws;
pub mod events;
pub mod field_laws;
pub mod fields;
pub mod output;
pub mod output_laws;
pub mod report;
pub mod report_laws;

//! Verified building blocks of a log ingestion pipeline.
//!
//! - [`mem_bounded`] is a channel bounded by the memory footprint of the messages in it. It stands
//!   on [`semaphore`], which counts bytes, and [`queue`], which carries messages; [`accounting`]
//!   and [`laws`] say what becomes of the bytes.
//! - [`data_record`] turns the entries of a log ([`log_entry`]) into records.
//! - [`ingestion`] routes requests to the ingestion service and answers its streams.

pub mod accounting;
pub mod data_record;
pub mod ingestion;
pub mod laws;
pub mod log_entry;
pub mod mem_bounded;
pub mod queue;
pub mod semaphore;

//! Background maintenance core: the scheduling and batch-delete logic of a
//! sweep actor that finds and removes orphaned catalog entries, together
//! with small media-metadata value types.

pub mod dimensions;
pub mod schedule;
pub mod store;
pub mod sweep;
pub mod time;

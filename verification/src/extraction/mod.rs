//! Time handling for catalog records.

pub mod time;

//! The catalog: its records and the operations on them.

pub mod models;
pub mod pool;
pub mod repository;
pub mod statements;

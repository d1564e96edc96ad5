//! Media indexing and serving engine: catalog model, scan pipeline,
//! thumbnail policy and progress state, with machine-checked contracts.

pub mod api;
pub mod config;
pub mod db;
pub mod extraction;
pub mod processors;
pub mod services;
pub mod text;
pub mod utils;
pub mod websocket;

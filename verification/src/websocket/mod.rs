//! Scan progress: the state, the messages made from it, and the rules for
//! when one is sent.

pub mod broadcast;
pub mod progress;
pub mod scan_state;

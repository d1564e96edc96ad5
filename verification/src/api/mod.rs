//! What the HTTP handlers decide: query defaults, pagination, thumbnail
//! requests, byte ranges and the answers of the system endpoints.

pub mod directories;
pub mod files;
pub mod system;

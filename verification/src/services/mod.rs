//! The services: the scan engine, the thumbnail cache, the file service and
//! the scheduler.

pub mod cache_service;
pub mod file_service;
pub mod scan_service;
pub mod scheduler;

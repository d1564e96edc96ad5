//! Per-format media processors and the registry that picks one for a path.

pub mod file_metadata;
pub mod heif_processor;
pub mod image_processor;
pub mod processor_trait;
pub mod raster;
pub mod video_processor;

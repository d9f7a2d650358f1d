//! IIIF Image API request model: grammar of the five request parameters,
//! geometry of region and size, the transform pipeline over a raster, the
//! encoders, and the canonical string of a request.
pub mod contexts;
pub mod decimal;
pub mod error;
pub mod format;
pub mod image_storage;
pub mod info;
pub mod math;
pub mod pdf;
pub mod pipeline;
pub mod presentation;
pub mod quality;
pub mod raster;
pub mod region;
pub mod request;
pub mod result;
pub mod rotation;
pub mod size;
pub mod storage;
pub mod text;

pub use decimal::Decimal;
pub use error::IiifError;
pub use format::Format;
pub use pipeline::{Action, Event, Plan};
pub use quality::Quality;
pub use raster::{Pixel, Raster, RasterImage};
pub use region::Region;
pub use request::{IiifImage, Request};
pub use result::ProcessResult;
pub use rotation::{Rotated, Rotation, Turn};
pub use size::{Size, SizeFault, SizeLimits};

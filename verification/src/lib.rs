//! Cross-platform virtual-camera output: pixel formats, frame conversion and
//! the decisions of the platform transports.
pub mod backend;
pub mod camera;
pub mod clock;
pub mod color;
pub mod error;
pub mod image_formats;
pub mod pixel_format;
pub mod probe;
pub mod text;

pub use backend::{Backend, BackendInfo, BackendKind};
pub use error::VirtualCamError;
pub use pixel_format::PixelFormat;

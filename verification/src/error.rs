//! Errors of the virtual camera.
use vstd::prelude::*;

verus! {

/// Errors that can occur when working with virtual cameras.
#[derive(Debug, Clone)]
pub enum VirtualCamError {
    /// No virtual camera backend is available.
    NoDeviceFound,
    /// Linux has no configured v4l2loopback output device.
    V4l2LoopbackNotFound,
    /// The named device was not found.
    DeviceNotFound(String),
    /// The named device is already in use.
    DeviceInUse(String),
    /// The named backend is not available on this platform.
    BackendNotAvailable(String),
    /// Unsupported pixel format.
    UnsupportedFormat(String),
    /// Invalid frame dimensions (width, height).
    InvalidDimensions(u32, u32),
    /// The frame does not have the expected number of bytes.
    FrameSizeMismatch { expected: usize, actual: usize },
    /// The frame does not have the expected shape.
    FrameShapeMismatch { expected: Vec<usize>, actual: Vec<usize> },
    /// Invalid frame rate; the rejected `f64` value, as its IEEE-754 bit pattern.
    InvalidFps(u64),
    /// The camera is already closed.
    AlreadyClosed,
    /// Failed to initialize camera output.
    InitializationFailed(String),
    /// Failed to send a frame.
    SendFailed(String),
    /// Registry error.
    RegistryError(String),
    /// Shared memory error.
    SharedMemoryError(String),
    /// Permission denied.
    PermissionDenied(String),
    /// The operation timed out.
    Timeout,
    /// Internal error.
    Internal(String),
}

} // verus!

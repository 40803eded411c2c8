//! The decisions of a camera: which requests it accepts, and what it hands
//! its backend for each frame it is given.
use vstd::prelude::*;

use crate::error::VirtualCamError;
use crate::image_formats::{
    convert_accepts, convert_frame, flip_vertical, flipped, spec_convert_frame,
};
use crate::pixel_format::{frame_size_computable, spec_frame_size, PixelFormat};
use crate::text::str_equal;

verus! {

/// The backend whose RGBA frames are stored bottom row first.
pub const UNITY_CAPTURE_BACKEND: &'static str = "unitycapture";

/// Check the dimensions of a camera: both must be nonzero.
pub fn check_camera_dimensions(width: u32, height: u32) -> (result: Result<(), VirtualCamError>)
    ensures
        result is Ok <==> (width != 0 && height != 0),
        result is Err ==> (result matches Err(VirtualCamError::InvalidDimensions(w, h)) && w
            == width && h == height),
{
    if width == 0 || height == 0 {
        return Err(VirtualCamError::InvalidDimensions(width, height));
    }
    Ok(())
}

/// Check that a frame of `actual` bytes has the `expected` size;
/// `FrameSizeMismatch` with both sizes otherwise.
pub fn check_frame_length(expected: usize, actual: usize) -> (result: Result<(), VirtualCamError>)
    ensures
        actual == expected ==> result is Ok,
        actual != expected ==> (result matches Err(
            VirtualCamError::FrameSizeMismatch { expected: e, actual: a },
        ) && e == expected && a == actual),
{
    if actual != expected {
        return Err(VirtualCamError::FrameSizeMismatch { expected, actual });
    }
    Ok(())
}

/// Check that a frame of `len` bytes has the size of a `format` frame of
/// `width` x `height`; `FrameSizeMismatch` with both sizes otherwise.
pub fn check_frame_size(format: PixelFormat, width: u32, height: u32, len: usize) -> (result:
    Result<(), VirtualCamError>)
    requires
        frame_size_computable(format, width, height),
    ensures
        len == spec_frame_size(format, width, height) ==> result is Ok,
        len != spec_frame_size(format, width, height) ==> (result matches Err(
            VirtualCamError::FrameSizeMismatch { expected, actual },
        ) && expected == spec_frame_size(format, width, height) && actual == len),
{
    check_frame_length(format.frame_size(width, height), len)
}

/// Whether a frame converted for `backend_name` is flipped: Unity Capture
/// stores RGBA frames bottom row first.
pub open spec fn flips_frames(backend_name: Seq<char>, native_format: PixelFormat) -> bool {
    backend_name == UNITY_CAPTURE_BACKEND@ && native_format == PixelFormat::RGBA
}

/// The frame a backend receives in place of a `format` frame it cannot take
/// as is: the frame converted to the backend's format, turned upside down
/// where the backend stores frames bottom row first.
pub open spec fn spec_converted_for_backend(
    frame: Seq<u8>,
    format: PixelFormat,
    native_format: PixelFormat,
    backend_name: Seq<char>,
    width: u32,
    height: u32,
) -> Seq<u8> {
    let converted = spec_convert_frame(frame, format, native_format, width as int, height as int);
    if flips_frames(backend_name, native_format) {
        flipped(converted, height, width * 4)
    } else {
        converted
    }
}

/// A frame of the right size converted to RGBA has four bytes per pixel.
proof fn lemma_rgba_conversion_len(frame: Seq<u8>, format: PixelFormat, width: u32, height: u32)
    requires
        format != PixelFormat::RGBA,
        frame.len() == spec_frame_size(format, width, height),
    ensures
        spec_convert_frame(frame, format, PixelFormat::RGBA, width as int, height as int).len() == 4
            * (width * height),
{
}

/// What a backend is handed for a frame given in `format`: the frame itself
/// (`None`) when the backend takes that format, else the frame converted for
/// it. A frame whose size does not match `format` at `width` x `height` is
/// refused with `FrameSizeMismatch`.
pub fn prepare_frame(
    frame: &[u8],
    format: PixelFormat,
    native_format: PixelFormat,
    backend_name: &str,
    width: u32,
    height: u32,
) -> (prepared: Result<Option<Vec<u8>>, VirtualCamError>)
    requires
        frame_size_computable(format, width, height),
        frame@.len() == spec_frame_size(format, width, height) ==> convert_accepts(
            frame@.len() as int,
            format,
            native_format,
            width as int,
            height as int,
        ),
        frame@.len() == spec_frame_size(format, width, height) && format != native_format
            && flips_frames(backend_name@, native_format) ==> width * 4 <= u32::MAX,
    ensures
        frame@.len() != spec_frame_size(format, width, height) ==> (prepared matches Err(
            VirtualCamError::FrameSizeMismatch { expected, actual },
        ) && expected == spec_frame_size(format, width, height) && actual == frame@.len()),
        frame@.len() == spec_frame_size(format, width, height) && format == native_format ==> (
        prepared matches Ok(None::<Vec<u8>>)),
        frame@.len() == spec_frame_size(format, width, height) && format != native_format ==> (
        prepared matches Ok(Some(converted)) && converted@ == spec_converted_for_backend(
            frame@,
            format,
            native_format,
            backend_name@,
            width,
            height,
        )),
{
    let expected = format.frame_size(width, height);
    if frame.len() != expected {
        return Err(VirtualCamError::FrameSizeMismatch { expected, actual: frame.len() });
    }
    if format == native_format {
        return Ok(None);
    }
    let mut converted = convert_frame(frame, format, native_format, width, height);
    if str_equal(backend_name, UNITY_CAPTURE_BACKEND) && native_format == PixelFormat::RGBA {
        proof {
            lemma_rgba_conversion_len(frame@, format, width, height);
            assert(height * (width * 4) == 4 * (width * height)) by (nonlinear_arith);
        }
        flip_vertical(converted.as_mut_slice(), width, height, 4);
    }
    Ok(Some(converted))
}

} // verus!

//! GPU conversion to NV12: the kernel for each input format, the buffers
//! the kernels read and fill, the launch grid, and the frame assembled from
//! the planes they produce.
use vstd::prelude::*;

use vstd::string::StringExecFns;

use crate::error::VirtualCamError;
use crate::pixel_format::{frame_size_computable, spec_frame_size, spec_name, PixelFormat};

verus! {

/// Side of the square blocks of threads that the kernels run in.
pub const BLOCK_SIZE: u32 = 16;

/// The kernel that converts frames of a format to NV12, where one exists.
pub open spec fn spec_kernel_name(format: PixelFormat) -> Option<Seq<char>> {
    match format {
        PixelFormat::RGB => Some("rgb_to_nv12"@),
        PixelFormat::BGR => Some("bgr_to_nv12"@),
        PixelFormat::RGBA => Some("rgba_to_nv12"@),
        _ => None,
    }
}

/// The kernel for frames of `format`; `UnsupportedFormat` for a format that
/// no kernel converts.
pub fn kernel_name(format: PixelFormat) -> (kernel: Result<&'static str, VirtualCamError>)
    ensures
        match spec_kernel_name(format) {
            Some(name) => kernel matches Ok(k) && k@ == name,
            None => (kernel matches Err(VirtualCamError::UnsupportedFormat(message)) && message@
                == "CUDA conversion from "@ + spec_name(format) + " to NV12 not supported"@),
        },
{
    match format {
        PixelFormat::RGB => Ok("rgb_to_nv12"),
        PixelFormat::BGR => Ok("bgr_to_nv12"),
        PixelFormat::RGBA => Ok("rgba_to_nv12"),
        _ => {
            let mut message = String::new();
            message.append("CUDA conversion from ");
            message.append(format.name());
            message.append(" to NV12 not supported");
            Err(VirtualCamError::UnsupportedFormat(message))
        },
    }
}

/// The sizes of the device buffers for frames of `format`: the input frame,
/// the luma plane and the interleaved chroma plane.
#[derive(Debug, Clone, Copy, PartialEq, Eq, Structural)]
pub struct BufferPlan {
    pub input_size: usize,
    pub y_size: usize,
    pub uv_size: usize,
}

/// The buffers for `format` frames of `width` x `height`: the input frame,
/// one luma byte per pixel and half as many chroma bytes.
pub fn buffer_plan(width: u32, height: u32, format: PixelFormat) -> (plan: BufferPlan)
    requires
        frame_size_computable(format, width, height),
    ensures
        plan == (BufferPlan {
            input_size: spec_frame_size(format, width, height) as usize,
            y_size: (width * height) as usize,
            uv_size: (width * height / 2) as usize,
        }),
{
    let y_size = (width * height) as usize;
    BufferPlan { input_size: format.frame_size(width, height), y_size, uv_size: y_size / 2 }
}

/// Whether buffers made for `current_width` x `current_height` must be made
/// anew for `width` x `height`: only when the dimensions changed.
pub fn needs_new_buffers(current_width: u32, current_height: u32, width: u32, height: u32) -> (anew:
    bool)
    ensures
        anew == !(current_width == width && current_height == height),
{
    !(current_width == width && current_height == height)
}

/// The launch grid: enough blocks of `BLOCK_SIZE` x `BLOCK_SIZE` threads to
/// cover every pixel.
pub fn launch_grid(width: u32, height: u32) -> (grid: (u32, u32, u32))
    requires
        width + 15 <= u32::MAX,
        height + 15 <= u32::MAX,
    ensures
        grid.0 == (width + 15) / 16,
        grid.1 == (height + 15) / 16,
        grid.2 == 1,
        grid.0 * 16 >= width,
        grid.1 * 16 >= height,
{
    ((width + 15) / BLOCK_SIZE, (height + 15) / BLOCK_SIZE, 1)
}

/// The NV12 frame that the luma and chroma planes make: the luma plane,
/// then the chroma plane.
pub fn assemble_nv12(y_plane: &[u8], uv_plane: &[u8]) -> (frame: Vec<u8>)
    requires
        y_plane@.len() + uv_plane@.len() <= usize::MAX,
    ensures
        frame@ == y_plane@ + uv_plane@,
{
    let mut frame: Vec<u8> = Vec::new();
    let mut i: usize = 0;
    let n = y_plane.len();
    while i < n
        invariant
            n == y_plane@.len(),
            i <= n,
            frame@ == y_plane@.take(i as int),
        decreases n - i,
    {
        frame.push(y_plane[i]);
        assert(y_plane@.take(i + 1) =~= y_plane@.take(i as int).push(y_plane@[i as int]));
        i += 1;
    }
    assert(y_plane@.take(n as int) =~= y_plane@);
    let m = uv_plane.len();
    let mut j: usize = 0;
    while j < m
        invariant
            m == uv_plane@.len(),
            j <= m,
            frame@ == y_plane@ + uv_plane@.take(j as int),
        decreases m - j,
    {
        frame.push(uv_plane[j]);
        assert(uv_plane@.take(j + 1) =~= uv_plane@.take(j as int).push(uv_plane@[j as int]));
        j += 1;
    }
    assert(uv_plane@.take(m as int) =~= uv_plane@);
    frame
}

} // verus!

//! The end-to-end check of the Media Foundation camera: the green NV12 frame
//! that the test producer publishes, the check that the capturing side
//! applies to what it reads, and the geometry it negotiates.
use vstd::prelude::*;

use crate::pixel_format::{frame_size_computable, spec_frame_size, PixelFormat};
use vstd::string::StrSliceExecFns;

use crate::text::{ascii_lowercase, equals_ignoring_ascii_case};

verus! {

/// Luma of the test green (BT.601).
pub const GREEN_LUMA: u8 = 149;

/// Blue-difference chroma of the test green.
pub const GREEN_CB: u8 = 43;

/// Red-difference chroma of the test green.
pub const GREEN_CR: u8 = 21;

/// Whether `bytes` is exactly a green NV12 frame of `width` x `height`: the
/// NV12 size, every luma byte green, and every whole chroma pair green.
pub open spec fn is_green_nv12(bytes: Seq<u8>, width: int, height: int) -> bool {
    let y = width * height;
    &&& bytes.len() == y * 3 / 2
    &&& forall|i: int| 0 <= i < y ==> #[trigger] bytes[i] == GREEN_LUMA
    &&& forall|k: int|
        0 <= k < (bytes.len() - y) / 2 ==> #[trigger] bytes[y + 2 * k] == GREEN_CB && bytes[y + 2
            * k + 1] == GREEN_CR
}

/// Whether a captured frame is exactly the green NV12 frame of the
/// negotiated geometry.
pub fn is_expected_green_nv12(bytes: &[u8], width: usize, height: usize) -> (green: bool)
    requires
        width * height * 3 <= usize::MAX,
    ensures
        green == is_green_nv12(bytes@, width as int, height as int),
{
    assert(width * height <= width * height * 3) by (nonlinear_arith);
    let y_size = width * height;
    let expected = y_size * 3 / 2;
    if bytes.len() != expected {
        return false;
    }
    let mut i: usize = 0;
    while i < y_size
        invariant
            y_size == width * height,
            bytes@.len() == y_size * 3 / 2,
            i <= y_size,
            forall|j: int| 0 <= j < i ==> #[trigger] bytes@[j] == GREEN_LUMA,
        decreases y_size - i,
    {
        if bytes[i] != GREEN_LUMA {
            return false;
        }
        i += 1;
    }
    let pairs = (expected - y_size) / 2;
    let mut k: usize = 0;
    while k < pairs
        invariant
            y_size == width * height,
            bytes@.len() == expected,
            expected == y_size * 3 / 2,
            pairs == (expected - y_size) / 2,
            k <= pairs,
            forall|j: int| 0 <= j < y_size ==> #[trigger] bytes@[j] == GREEN_LUMA,
            forall|m: int|
                0 <= m < k ==> #[trigger] bytes@[y_size + 2 * m] == GREEN_CB && bytes@[y_size + 2
                    * m + 1] == GREEN_CR,
        decreases pairs - k,
    {
        let at = y_size + 2 * k;
        if bytes[at] != GREEN_CB || bytes[at + 1] != GREEN_CR {
            return false;
        }
        k += 1;
    }
    true
}

/// The green NV12 frame of `width` x `height`: green luma, then green chroma
/// pairs; a last chroma byte without a partner stays 0.
pub open spec fn green_nv12_frame_bytes(width: u32, height: u32) -> Seq<u8> {
    let y = width * height;
    let len = spec_frame_size(PixelFormat::NV12, width, height);
    let paired = (len - y) / 2 * 2;
    Seq::new(
        len as nat,
        |i: int|
            if i < y {
                GREEN_LUMA
            } else if i - y < paired {
                if (i - y) % 2 == 0 {
                    GREEN_CB
                } else {
                    GREEN_CR
                }
            } else {
                0u8
            },
    )
}

/// The green NV12 frame that the test producer publishes.
pub fn green_nv12_frame(width: u32, height: u32) -> (frame: Vec<u8>)
    requires
        frame_size_computable(PixelFormat::NV12, width, height),
    ensures
        frame@ == green_nv12_frame_bytes(width, height),
{
    let len = PixelFormat::NV12.frame_size(width, height);
    let y_size = (width * height) as usize;
    let paired = (len - y_size) / 2 * 2;
    let mut frame: Vec<u8> = Vec::new();
    let mut i: usize = 0;
    while i < len
        invariant
            len == spec_frame_size(PixelFormat::NV12, width, height),
            y_size == width * height,
            y_size <= len,
            paired == (len - y_size) / 2 * 2,
            i <= len,
            frame@.len() == i,
            forall|j: int|
                0 <= j < i ==> #[trigger] frame@[j] == green_nv12_frame_bytes(width, height)[j],
        decreases len - i,
    {
        let value = if i < y_size {
            GREEN_LUMA
        } else if i - y_size < paired {
            if (i - y_size) % 2 == 0 {
                GREEN_CB
            } else {
                GREEN_CR
            }
        } else {
            0u8
        };
        frame.push(value);
        i += 1;
    }
    assert(frame@ =~= green_nv12_frame_bytes(width, height));
    frame
}

/// The frame that the producer publishes is the frame that the check accepts.
pub proof fn lemma_green_frame_passes_check(width: u32, height: u32)
    requires
        frame_size_computable(PixelFormat::NV12, width, height),
    ensures
        is_green_nv12(green_nv12_frame_bytes(width, height), width as int, height as int),
{
    let bytes = green_nv12_frame_bytes(width, height);
    let y = width * height;
    assert forall|k: int| 0 <= k < (bytes.len() - y) / 2 implies #[trigger] bytes[y + 2 * k]
        == GREEN_CB && bytes[y + 2 * k + 1] == GREEN_CR by {
        assert((y + 2 * k + 1 - y) % 2 == 1);
        assert((y + 2 * k - y) % 2 == 0);
    }
}

/// The two 32-bit halves of a 64-bit attribute, high half first.
pub fn unpack_u32_pair(value: u64) -> (halves: (u32, u32))
    ensures
        halves.0 == value / 0x1_0000_0000,
        halves.1 == value % 0x1_0000_0000,
{
    let high = (value >> 32u64) as u32;
    let low = value as u32;
    assert(((value >> 32u64) as u32) == value / 0x1_0000_0000) by (bit_vector);
    assert((value as u32) == value % 0x1_0000_0000) by (bit_vector);
    (high, low)
}

/// The geometry a camera negotiated, from its frame-size and frame-rate
/// attributes: width, height, frame-rate numerator and denominator, each
/// the high or low half of its attribute; `None` when any of them is 0.
pub open spec fn spec_negotiated_geometry(frame_size: u64, frame_rate: u64) -> Option<
    (u32, u32, u32, u32),
> {
    let width = (frame_size / 0x1_0000_0000) as u32;
    let height = (frame_size % 0x1_0000_0000) as u32;
    let numerator = (frame_rate / 0x1_0000_0000) as u32;
    let denominator = (frame_rate % 0x1_0000_0000) as u32;
    if width > 0 && height > 0 && numerator > 0 && denominator > 0 {
        Some((width, height, numerator, denominator))
    } else {
        None
    }
}

/// The negotiated geometry of a media type.
pub fn negotiated_geometry(frame_size: u64, frame_rate: u64) -> (geometry: Option<
    (u32, u32, u32, u32),
>)
    ensures
        geometry == spec_negotiated_geometry(frame_size, frame_rate),
{
    let (width, height) = unpack_u32_pair(frame_size);
    let (numerator, denominator) = unpack_u32_pair(frame_rate);
    if width > 0 && height > 0 && numerator > 0 && denominator > 0 {
        Some((width, height, numerator, denominator))
    } else {
        None
    }
}

/// Whether a camera's friendly name starts with "VCam", ignoring ASCII case.
pub fn is_vcam_name(name: &str) -> (vcam: bool)
    ensures
        vcam == (name@.len() >= 4 && ascii_lowercase(name@.subrange(0, 4)) == "vcam"@),
{
    let n = name.unicode_len();
    if n < 4 {
        return false;
    }
    let prefix = name.substring_char(0, 4);
    equals_ignoring_ascii_case(prefix, "vcam")
}

} // verus!

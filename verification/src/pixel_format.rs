//! Pixel formats, their FourCC codes and their frame geometry.
use vstd::prelude::*;

use crate::text::{utf8_lossy, utf8_lossy_decoding};

verus! {

/// Supported pixel formats for virtual camera frames.
#[derive(Debug, Clone, Copy, PartialEq, Eq, Structural, Hash)]
pub enum PixelFormat {
    /// RGB, 3 bytes per pixel (red, green, blue).
    RGB,
    /// BGR, 3 bytes per pixel (blue, green, red).
    BGR,
    /// RGBA, 4 bytes per pixel with an alpha channel.
    RGBA,
    /// Grayscale, 1 byte per pixel.
    GRAY,
    /// YUV 4:2:0 planar (I420).
    I420,
    /// YUV 4:2:0 semi-planar (NV12).
    NV12,
    /// YUV 4:2:2 packed (YUYV).
    YUYV,
    /// YUV 4:2:2 packed (UYVY).
    UYVY,
}

/// The little-endian value of four bytes.
pub open spec fn le_u32(b0: u8, b1: u8, b2: u8, b3: u8) -> int {
    b0 + 256 * b1 + 65536 * b2 + 16777216 * b3
}

/// The four ASCII characters of the FourCC code of a format.
pub open spec fn fourcc_chars(f: PixelFormat) -> Seq<u8> {
    match f {
        PixelFormat::RGB => seq![0x72u8, 0x61u8, 0x77u8, 0x20u8],  // "raw "
        PixelFormat::BGR => seq![0x32u8, 0x34u8, 0x42u8, 0x47u8],  // "24BG"
        PixelFormat::RGBA => seq![0x41u8, 0x42u8, 0x47u8, 0x52u8],  // "ABGR"
        PixelFormat::GRAY => seq![0x4Au8, 0x34u8, 0x30u8, 0x30u8],  // "J400"
        PixelFormat::I420 => seq![0x49u8, 0x34u8, 0x32u8, 0x30u8],  // "I420"
        PixelFormat::NV12 => seq![0x4Eu8, 0x56u8, 0x31u8, 0x32u8],  // "NV12"
        PixelFormat::YUYV => seq![0x59u8, 0x55u8, 0x59u8, 0x32u8],  // "YUY2"
        PixelFormat::UYVY => seq![0x55u8, 0x59u8, 0x56u8, 0x59u8],  // "UYVY"
    }
}

/// The FourCC code of a format: its four characters read as a little-endian word.
pub open spec fn spec_fourcc(f: PixelFormat) -> int {
    let c = fourcc_chars(f);
    le_u32(c[0], c[1], c[2], c[3])
}

/// Number of pixels of a `width` x `height` frame.
pub open spec fn pixel_count(width: u32, height: u32) -> int {
    width * height
}

/// The size in bytes of a frame of the given format and dimensions.
pub open spec fn spec_frame_size(f: PixelFormat, width: u32, height: u32) -> int {
    let pixels = pixel_count(width, height);
    match f {
        PixelFormat::RGB | PixelFormat::BGR => pixels * 3,
        PixelFormat::RGBA => pixels * 4,
        PixelFormat::GRAY => pixels,
        PixelFormat::I420 | PixelFormat::NV12 => pixels * 3 / 2,
        PixelFormat::YUYV | PixelFormat::UYVY => pixels * 2,
    }
}

/// Whether the frame size of a format can be computed without overflow: the
/// pixel count fits in a `u32` and the byte count (before halving, for the 4:2:0
/// formats) fits in a `usize`.
pub open spec fn frame_size_computable(f: PixelFormat, width: u32, height: u32) -> bool {
    let pixels = pixel_count(width, height);
    &&& pixels <= u32::MAX
    &&& match f {
        PixelFormat::RGB | PixelFormat::BGR | PixelFormat::I420 | PixelFormat::NV12 => pixels * 3
            <= usize::MAX,
        PixelFormat::RGBA => pixels * 4 <= usize::MAX,
        PixelFormat::GRAY => true,
        PixelFormat::YUYV | PixelFormat::UYVY => pixels * 2 <= usize::MAX,
    }
}

/// The name of a format.
pub open spec fn spec_name(f: PixelFormat) -> Seq<char> {
    match f {
        PixelFormat::RGB => "RGB"@,
        PixelFormat::BGR => "BGR"@,
        PixelFormat::RGBA => "RGBA"@,
        PixelFormat::GRAY => "GRAY"@,
        PixelFormat::I420 => "I420"@,
        PixelFormat::NV12 => "NV12"@,
        PixelFormat::YUYV => "YUYV"@,
        PixelFormat::UYVY => "UYVY"@,
    }
}

/// The shape of a frame: (height, width, channels) for the interleaved RGB
/// formats, (height, width) for grayscale and the byte count for the YUV formats.
pub open spec fn spec_frame_shape(f: PixelFormat, width: u32, height: u32) -> Seq<usize> {
    match f {
        PixelFormat::RGB | PixelFormat::BGR => seq![height as usize, width as usize, 3usize],
        PixelFormat::RGBA => seq![height as usize, width as usize, 4usize],
        PixelFormat::GRAY => seq![height as usize, width as usize],
        _ => seq![spec_frame_size(f, width, height) as usize],
    }
}

/// The bytes of a FourCC code, least significant first.
pub open spec fn spec_decode_fourcc(code: u32) -> Seq<u8> {
    seq![
        (code % 256) as u8,
        ((code / 256) % 256) as u8,
        ((code / 65536) % 256) as u8,
        ((code / 16777216) % 256) as u8,
    ]
}

impl PixelFormat {
    /// The FourCC code of this format.
    pub fn fourcc(&self) -> (code: u32)
        ensures
            code == spec_fourcc(*self),
    {
        match self {
            PixelFormat::RGB => encode_fourcc(&[0x72u8, 0x61u8, 0x77u8, 0x20u8]),
            PixelFormat::BGR => encode_fourcc(&[0x32u8, 0x34u8, 0x42u8, 0x47u8]),
            PixelFormat::RGBA => encode_fourcc(&[0x41u8, 0x42u8, 0x47u8, 0x52u8]),
            PixelFormat::GRAY => encode_fourcc(&[0x4Au8, 0x34u8, 0x30u8, 0x30u8]),
            PixelFormat::I420 => encode_fourcc(&[0x49u8, 0x34u8, 0x32u8, 0x30u8]),
            PixelFormat::NV12 => encode_fourcc(&[0x4Eu8, 0x56u8, 0x31u8, 0x32u8]),
            PixelFormat::YUYV => encode_fourcc(&[0x59u8, 0x55u8, 0x59u8, 0x32u8]),
            PixelFormat::UYVY => encode_fourcc(&[0x55u8, 0x59u8, 0x56u8, 0x59u8]),
        }
    }

    /// The size in bytes of a frame of this format with the given dimensions.
    pub fn frame_size(&self, width: u32, height: u32) -> (size: usize)
        requires
            frame_size_computable(*self, width, height),
        ensures
            size == spec_frame_size(*self, width, height),
    {
        let pixels = (width * height) as usize;
        match self {
            PixelFormat::RGB | PixelFormat::BGR => pixels * 3,
            PixelFormat::RGBA => pixels * 4,
            PixelFormat::GRAY => pixels,
            PixelFormat::I420 | PixelFormat::NV12 => pixels * 3 / 2,
            PixelFormat::YUYV | PixelFormat::UYVY => pixels * 2,
        }
    }

    /// The size in bytes of a frame of this format, or `None` where computing
    /// it would overflow.
    pub fn checked_frame_size(&self, width: u32, height: u32) -> (size: Option<usize>)
        ensures
            size is Some <==> frame_size_computable(*self, width, height),
            size matches Some(s) ==> s == spec_frame_size(*self, width, height),
    {
        assert(width * height <= u32::MAX * u32::MAX) by (nonlinear_arith)
            requires
                width <= u32::MAX,
                height <= u32::MAX,
        ;
        let pixels = width as u64 * height as u64;
        if pixels > 0xFFFF_FFFF {
            return None;
        }
        let factor: u64 = match self {
            PixelFormat::RGB | PixelFormat::BGR | PixelFormat::I420 | PixelFormat::NV12 => 3,
            PixelFormat::RGBA => 4,
            PixelFormat::GRAY => 1,
            PixelFormat::YUYV | PixelFormat::UYVY => 2,
        };
        if pixels * factor > usize::MAX as u64 {
            return None;
        }
        Some(self.frame_size(width, height))
    }

    /// The expected shape of a frame with these dimensions.
    pub fn frame_shape(&self, width: u32, height: u32) -> (shape: Vec<usize>)
        requires
            frame_size_computable(*self, width, height),
        ensures
            shape@ == spec_frame_shape(*self, width, height),
    {
        let mut shape: Vec<usize> = Vec::new();
        match self {
            PixelFormat::RGB | PixelFormat::BGR => {
                shape.push(height as usize);
                shape.push(width as usize);
                shape.push(3);
            },
            PixelFormat::RGBA => {
                shape.push(height as usize);
                shape.push(width as usize);
                shape.push(4);
            },
            PixelFormat::GRAY => {
                shape.push(height as usize);
                shape.push(width as usize);
            },
            PixelFormat::I420 | PixelFormat::NV12 | PixelFormat::YUYV | PixelFormat::UYVY => {
                shape.push(self.frame_size(width, height));
            },
        }
        shape
    }

    /// Whether this format stores its planes separately (I420, NV12).
    pub fn is_planar(&self) -> (planar: bool)
        ensures
            planar <==> (*self == PixelFormat::I420 || *self == PixelFormat::NV12),
    {
        match self {
            PixelFormat::I420 | PixelFormat::NV12 => true,
            _ => false,
        }
    }

    /// Whether this format is packed YUV (YUYV, UYVY).
    pub fn is_packed_yuv(&self) -> (packed: bool)
        ensures
            packed <==> (*self == PixelFormat::YUYV || *self == PixelFormat::UYVY),
    {
        match self {
            PixelFormat::YUYV | PixelFormat::UYVY => true,
            _ => false,
        }
    }

    /// The name of this format.
    pub fn name(&self) -> (name: &'static str)
        ensures
            name@ == spec_name(*self),
    {
        match self {
            PixelFormat::RGB => "RGB",
            PixelFormat::BGR => "BGR",
            PixelFormat::RGBA => "RGBA",
            PixelFormat::GRAY => "GRAY",
            PixelFormat::I420 => "I420",
            PixelFormat::NV12 => "NV12",
            PixelFormat::YUYV => "YUYV",
            PixelFormat::UYVY => "UYVY",
        }
    }

    /// The format whose FourCC code is `code`, if any.
    pub fn from_fourcc(code: u32) -> (format: Option<PixelFormat>)
        ensures
            format matches Some(f) ==> spec_fourcc(f) == code,
            format is None <==> (forall|f: PixelFormat| spec_fourcc(f) != code),
    {
        proof {
            lemma_fourcc_values();
        }
        if code == PixelFormat::RGB.fourcc() {
            Some(PixelFormat::RGB)
        } else if code == PixelFormat::BGR.fourcc() {
            Some(PixelFormat::BGR)
        } else if code == PixelFormat::RGBA.fourcc() {
            Some(PixelFormat::RGBA)
        } else if code == PixelFormat::GRAY.fourcc() {
            Some(PixelFormat::GRAY)
        } else if code == PixelFormat::I420.fourcc() {
            Some(PixelFormat::I420)
        } else if code == PixelFormat::NV12.fourcc() {
            Some(PixelFormat::NV12)
        } else if code == PixelFormat::YUYV.fourcc() {
            Some(PixelFormat::YUYV)
        } else if code == PixelFormat::UYVY.fourcc() {
            Some(PixelFormat::UYVY)
        } else {
            None
        }
    }
}

impl Default for PixelFormat {
    fn default() -> (format: Self)
        ensures
            format == PixelFormat::RGB,
    {
        PixelFormat::RGB
    }
}

/// The numeric FourCC code of every format.
proof fn lemma_fourcc_values()
    ensures
        spec_fourcc(PixelFormat::RGB) == 0x20776172,
        spec_fourcc(PixelFormat::BGR) == 0x47423432,
        spec_fourcc(PixelFormat::RGBA) == 0x52474241,
        spec_fourcc(PixelFormat::GRAY) == 0x3030344A,
        spec_fourcc(PixelFormat::I420) == 0x30323449,
        spec_fourcc(PixelFormat::NV12) == 0x3231564E,
        spec_fourcc(PixelFormat::YUYV) == 0x32595559,
        spec_fourcc(PixelFormat::UYVY) == 0x59565955,
{
}

/// Encode four bytes as a FourCC code (little-endian).
pub fn encode_fourcc(bytes: &[u8; 4]) -> (code: u32)
    ensures
        code == le_u32(bytes@[0], bytes@[1], bytes@[2], bytes@[3]),
{
    (bytes[0] as u32) + (bytes[1] as u32) * 256 + (bytes[2] as u32) * 65536 + (bytes[3] as u32)
        * 16777216
}

/// Decode a FourCC code into its four bytes (little-endian).
pub fn decode_fourcc(code: u32) -> (bytes: [u8; 4])
    ensures
        bytes@ == spec_decode_fourcc(code),
        le_u32(bytes@[0], bytes@[1], bytes@[2], bytes@[3]) == code,
{
    let bytes = [
        (code % 256) as u8,
        ((code / 256) % 256) as u8,
        ((code / 65536) % 256) as u8,
        ((code / 16777216) % 256) as u8,
    ];
    assert(bytes@ =~= spec_decode_fourcc(code));
    bytes
}

/// The text of a FourCC code: its four bytes decoded as UTF-8, with invalid
/// sequences replaced.
pub fn fourcc_to_string(code: u32) -> (text: String)
    ensures
        text@ == utf8_lossy_decoding(spec_decode_fourcc(code)),
        (forall|i: int| 0 <= i < 4 ==> #[trigger] spec_decode_fourcc(code)[i] < 128) ==> text@
            == spec_decode_fourcc(code).map_values(|b: u8| b as char),
{
    let bytes = decode_fourcc(code);
    utf8_lossy(&bytes)
}

/// Every format's FourCC code is found again by `from_fourcc`, and no two
/// formats share a code.
pub proof fn lemma_fourcc_roundtrip(f: PixelFormat, g: PixelFormat)
    ensures
        spec_fourcc(f) == spec_fourcc(g) ==> f == g,
        0 <= spec_fourcc(f) <= u32::MAX,
{
    lemma_fourcc_values();
}

/// Decoding a code and encoding the bytes again gives back the code.
pub proof fn lemma_decode_encode(code: u32)
    ensures
        ({
            let b = spec_decode_fourcc(code);
            le_u32(b[0], b[1], b[2], b[3]) == code
        }),
{
}

/// Encoding four bytes and decoding the code gives back the bytes.
pub proof fn lemma_encode_decode(b0: u8, b1: u8, b2: u8, b3: u8)
    ensures
        spec_decode_fourcc(le_u32(b0, b1, b2, b3) as u32) == seq![b0, b1, b2, b3],
{
    let code = le_u32(b0, b1, b2, b3);
    assert(spec_decode_fourcc(code as u32) =~= seq![b0, b1, b2, b3]);
}

} // verus!

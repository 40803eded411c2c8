//! The v4l2loopback transport: the ioctl request codes of the mmap streaming
//! path, the checks on what the driver negotiates, the retry policy of the
//! buffer dequeue, and how devices are named and recognised.
use vstd::prelude::*;

use vstd::string::StringExecFns;

use crate::error::VirtualCamError;
use crate::text::{
    append_decimal, contains, decimal, lemma_decimal_reads_back, parse_u32_from, prefix_end,
    spec_parse_u32, str_contains, strip_prefix_or_keep, unsigned_digits, utf8_lossy,
    utf8_lossy_decoding,
};

verus! {

/// Direction bit of an ioctl that the caller writes.
pub const IOC_WRITE: u64 = 1;

/// Direction bit of an ioctl that the caller reads.
pub const IOC_READ: u64 = 2;

/// The ioctl type byte of V4L2 requests (`'V'`).
pub const V4L2_IOCTL_TYPE: u64 = 0x56;

/// Size of `struct v4l2_capability`.
pub const CAPABILITY_SIZE: u64 = 104;

/// Size of `struct v4l2_requestbuffers`.
pub const REQUESTBUFFERS_SIZE: u64 = 20;

/// Size of `struct v4l2_streamparm`.
pub const STREAMPARM_SIZE: u64 = 204;

/// Size of the buffer-type word that STREAMON and STREAMOFF take.
pub const BUFFER_TYPE_SIZE: u64 = 4;

/// `V4L2_PIX_FMT_RGB24`: the FourCC "RGB3".
pub const V4L2_PIX_FMT_RGB24: u32 = 0x3342_4752;

/// `V4L2_BUF_TYPE_VIDEO_OUTPUT`.
pub const V4L2_BUF_TYPE_VIDEO_OUTPUT: u32 = 2;

/// `V4L2_MEMORY_MMAP`.
pub const V4L2_MEMORY_MMAP: u32 = 1;

/// `V4L2_FIELD_NONE`.
pub const V4L2_FIELD_NONE: u32 = 1;

/// `V4L2_CAP_VIDEO_OUTPUT`.
pub const V4L2_CAP_VIDEO_OUTPUT: u32 = 0x0000_0002;

/// `V4L2_CAP_STREAMING`.
pub const V4L2_CAP_STREAMING: u32 = 0x0400_0000;

/// `V4L2_CAP_DEVICE_CAPS`: the device capabilities word is filled in.
pub const V4L2_CAP_DEVICE_CAPS: u32 = 0x8000_0000;

/// Number of buffers asked of the driver, which may grant fewer.
pub const REQUESTED_BUFFERS: u32 = 4;

/// Number of device nodes searched for a loopback device.
pub const DEVICE_SEARCH_LIMIT: u32 = 100;

/// The ioctl request code of the asm-generic encoding: direction in bits 30
/// and 31, argument size in bits 16 to 29, type `'V'` in bits 8 to 15 and the
/// request number in bits 0 to 7.
pub open spec fn spec_ioctl_code(direction: u64, size: u64, number: u64) -> u64 {
    (direction * 0x4000_0000 + size * 0x1_0000 + V4L2_IOCTL_TYPE * 0x100 + number) as u64
}

/// The V4L2 ioctl request code for a direction, an argument size and a number.
pub fn ioctl_code(direction: u64, size: u64, number: u64) -> (code: u64)
    requires
        direction < 4,
        size < 0x4000,
        number < 0x100,
    ensures
        code == spec_ioctl_code(direction, size, number),
{
    let code = (direction << 30u64) | (size << 16u64) | (V4L2_IOCTL_TYPE << 8u64) | number;
    assert(((direction << 30u64) | (size << 16u64) | (0x56u64 << 8u64) | number) == direction
        * 0x4000_0000 + size * 0x1_0000 + 0x56 * 0x100 + number) by (bit_vector)
        requires
            direction < 4,
            size < 0x4000,
            number < 0x100,
    ;
    code
}

/// The request codes of the V4L2 calls that the mmap streaming path makes.
#[derive(Debug, Clone, Copy, PartialEq, Eq, Structural)]
pub struct VidiocCodes {
    pub querycap: u64,
    pub s_fmt: u64,
    pub reqbufs: u64,
    pub querybuf: u64,
    pub qbuf: u64,
    pub dqbuf: u64,
    pub streamon: u64,
    pub streamoff: u64,
    pub s_parm: u64,
}

/// The request codes, given the sizes of `struct v4l2_format` and
/// `struct v4l2_buffer`, which depend on the target; the other argument sizes
/// are the same on every target.
pub fn vidioc_codes(format_size: u64, buffer_size: u64) -> (codes: VidiocCodes)
    requires
        format_size < 0x4000,
        buffer_size < 0x4000,
    ensures
        codes.querycap == spec_ioctl_code(IOC_READ, CAPABILITY_SIZE, 0),
        codes.s_fmt == spec_ioctl_code(IOC_READ | IOC_WRITE, format_size, 5),
        codes.reqbufs == spec_ioctl_code(IOC_READ | IOC_WRITE, REQUESTBUFFERS_SIZE, 8),
        codes.querybuf == spec_ioctl_code(IOC_READ | IOC_WRITE, buffer_size, 9),
        codes.qbuf == spec_ioctl_code(IOC_READ | IOC_WRITE, buffer_size, 15),
        codes.dqbuf == spec_ioctl_code(IOC_READ | IOC_WRITE, buffer_size, 17),
        codes.streamon == spec_ioctl_code(IOC_WRITE, BUFFER_TYPE_SIZE, 18),
        codes.streamoff == spec_ioctl_code(IOC_WRITE, BUFFER_TYPE_SIZE, 19),
        codes.s_parm == spec_ioctl_code(IOC_READ | IOC_WRITE, STREAMPARM_SIZE, 22),
{
    let read_write = IOC_READ | IOC_WRITE;
    assert(IOC_READ | IOC_WRITE == 3u64) by (bit_vector);
    VidiocCodes {
        querycap: ioctl_code(IOC_READ, CAPABILITY_SIZE, 0),
        s_fmt: ioctl_code(read_write, format_size, 5),
        reqbufs: ioctl_code(read_write, REQUESTBUFFERS_SIZE, 8),
        querybuf: ioctl_code(read_write, buffer_size, 9),
        qbuf: ioctl_code(read_write, buffer_size, 15),
        dqbuf: ioctl_code(read_write, buffer_size, 17),
        streamon: ioctl_code(IOC_WRITE, BUFFER_TYPE_SIZE, 18),
        streamoff: ioctl_code(IOC_WRITE, BUFFER_TYPE_SIZE, 19),
        s_parm: ioctl_code(read_write, STREAMPARM_SIZE, 22),
    }
}

/// Why setting up the mmap stream was refused.
#[derive(Debug, Clone, Copy, PartialEq, Eq, Structural)]
pub enum StreamSetupError {
    /// The device is not a video output device.
    NotOutputDevice,
    /// The device cannot stream through mmap.
    NoStreaming,
    /// The driver negotiated another size or pixel format.
    FormatMismatch { width: u32, height: u32, pixelformat: u32 },
    /// The driver pads the rows, which is not supported.
    PaddedStride { bytes_per_line: u32 },
    /// The driver granted no buffer.
    NoBuffers,
    /// A buffer is smaller than a frame.
    BufferTooSmall { index: u32, length: u32 },
}

/// The capabilities that describe the opened node: the device capabilities
/// when the driver fills them in, else the capabilities of the whole driver.
pub open spec fn spec_node_capabilities(capabilities: u32, device_caps: u32) -> u32 {
    if capabilities & V4L2_CAP_DEVICE_CAPS != 0 {
        device_caps
    } else {
        capabilities
    }
}

/// Check that the node is a video output that can stream through mmap.
pub fn check_capabilities(capabilities: u32, device_caps: u32) -> (result: Result<
    (),
    StreamSetupError,
>)
    ensures
        ({
            let caps = spec_node_capabilities(capabilities, device_caps);
            result == if caps & V4L2_CAP_VIDEO_OUTPUT == 0 {
                Err::<(), StreamSetupError>(StreamSetupError::NotOutputDevice)
            } else if caps & V4L2_CAP_STREAMING == 0 {
                Err(StreamSetupError::NoStreaming)
            } else {
                Ok(())
            }
        }),
{
    let caps = if capabilities & V4L2_CAP_DEVICE_CAPS != 0 {
        device_caps
    } else {
        capabilities
    };
    if caps & V4L2_CAP_VIDEO_OUTPUT == 0 {
        return Err(StreamSetupError::NotOutputDevice);
    }
    if caps & V4L2_CAP_STREAMING == 0 {
        return Err(StreamSetupError::NoStreaming);
    }
    Ok(())
}

/// The pixel format that the driver negotiated.
#[derive(Debug, Clone, Copy, PartialEq, Eq, Structural)]
pub struct NegotiatedFormat {
    pub width: u32,
    pub height: u32,
    pub pixelformat: u32,
    pub bytes_per_line: u32,
}

/// Check the format that the driver negotiated for RGB24 frames of
/// `width` x `height`: the size and the pixel format must be those asked,
/// and the rows must be unpadded (a stride of 0 means unpadded).
pub fn check_negotiated_format(width: u32, height: u32, negotiated: NegotiatedFormat) -> (result:
    Result<(), StreamSetupError>)
    ensures
        result == if negotiated.width != width || negotiated.height != height
            || negotiated.pixelformat != V4L2_PIX_FMT_RGB24 {
            Err::<(), StreamSetupError>(
                StreamSetupError::FormatMismatch {
                    width: negotiated.width,
                    height: negotiated.height,
                    pixelformat: negotiated.pixelformat,
                },
            )
        } else if negotiated.bytes_per_line != 0 && negotiated.bytes_per_line != width * 3 {
            Err(StreamSetupError::PaddedStride { bytes_per_line: negotiated.bytes_per_line })
        } else {
            Ok(())
        },
{
    if negotiated.width != width || negotiated.height != height || negotiated.pixelformat
        != V4L2_PIX_FMT_RGB24 {
        return Err(
            StreamSetupError::FormatMismatch {
                width: negotiated.width,
                height: negotiated.height,
                pixelformat: negotiated.pixelformat,
            },
        );
    }
    if negotiated.bytes_per_line != 0 && negotiated.bytes_per_line as u64 != width as u64 * 3 {
        return Err(StreamSetupError::PaddedStride { bytes_per_line: negotiated.bytes_per_line });
    }
    Ok(())
}

/// The size in bytes of one RGB24 frame of `width` x `height`.
pub fn rgb_frame_size(width: u32, height: u32) -> (size: usize)
    requires
        width * height * 3 <= usize::MAX,
    ensures
        size == width * height * 3,
{
    (width as usize) * (height as usize) * 3
}

/// The time per frame asked of the driver, as a fraction of a second: one
/// over the frame rate, and never over zero.
pub fn time_per_frame(fps: u32) -> (fraction: (u32, u32))
    ensures
        fraction == (1u32, if fps == 0 {
            1u32
        } else {
            fps
        }),
{
    if fps == 0 {
        (1, 1)
    } else {
        (1, fps)
    }
}

/// Check the number of buffers that the driver granted.
pub fn check_buffer_count(count: u32) -> (result: Result<(), StreamSetupError>)
    ensures
        result == if count == 0 {
            Err::<(), StreamSetupError>(StreamSetupError::NoBuffers)
        } else {
            Ok(())
        },
{
    if count == 0 {
        Err(StreamSetupError::NoBuffers)
    } else {
        Ok(())
    }
}

/// Check that buffer `index`, of `length` bytes, holds a frame of `frame_size` bytes.
pub fn check_buffer_length(index: u32, length: u32, frame_size: usize) -> (result: Result<
    (),
    StreamSetupError,
>)
    ensures
        result == if length < frame_size {
            Err::<(), StreamSetupError>(StreamSetupError::BufferTooSmall { index, length })
        } else {
            Ok(())
        },
{
    if (length as usize) < frame_size {
        Err(StreamSetupError::BufferTooSmall { index, length })
    } else {
        Ok(())
    }
}

/// What to do after a buffer dequeue failed.
#[derive(Debug, Clone, Copy, PartialEq, Eq, Structural)]
pub enum DequeueDecision {
    /// No buffer is free yet: try again.
    Retry,
    /// The owner asked the stream to stop: give up without an error.
    Shutdown,
    /// The dequeue failed.
    Fail,
}

/// What to do after a dequeue failed with `raw_error`: stop once a shutdown
/// was requested, retry after `efault` (which v4l2loopback gives while no
/// output buffer is free) or `eagain`, else fail.
pub open spec fn spec_dequeue_decision(
    raw_error: i32,
    shutdown_requested: bool,
    efault: i32,
    eagain: i32,
) -> DequeueDecision {
    if shutdown_requested {
        DequeueDecision::Shutdown
    } else if raw_error == efault || raw_error == eagain {
        DequeueDecision::Retry
    } else {
        DequeueDecision::Fail
    }
}

/// Decide what follows a failed dequeue, given the target's `EFAULT` and
/// `EAGAIN` error numbers.
pub fn dequeue_decision(raw_error: i32, shutdown_requested: bool, efault: i32, eagain: i32) -> (decision:
    DequeueDecision)
    ensures
        decision == spec_dequeue_decision(raw_error, shutdown_requested, efault, eagain),
{
    if shutdown_requested {
        DequeueDecision::Shutdown
    } else if raw_error == efault || raw_error == eagain {
        DequeueDecision::Retry
    } else {
        DequeueDecision::Fail
    }
}

/// The buffer that a dequeue returned, when its index names one of the
/// `buffer_count` mapped buffers.
pub fn dequeued_buffer(index: u32, buffer_count: usize) -> (buffer: Option<usize>)
    ensures
        buffer == if index < buffer_count {
            Some(index as usize)
        } else {
            None::<usize>
        },
{
    if (index as usize) < buffer_count {
        Some(index as usize)
    } else {
        None
    }
}

/// The path of device node `device_num`.
pub open spec fn spec_device_path(device_num: u32) -> Seq<char> {
    "/dev/video"@ + decimal(device_num as nat)
}

/// The path of device node `device_num`, such as `/dev/video10`.
pub fn device_path(device_num: u32) -> (path: String)
    ensures
        path@ == spec_device_path(device_num),
{
    let mut path = String::new();
    path.append("/dev/video");
    append_decimal(&mut path, device_num as u64);
    path
}

/// The device number that a path or a bare number names: the text after
/// `/dev/video` (or the whole text) read as a `u32`.
pub open spec fn spec_parse_device_number(path: Seq<char>) -> Option<u32> {
    spec_parse_u32(strip_prefix_or_keep(path, "/dev/video"@))
}

/// The device number of `/dev/videoN` or of a bare `N`; `DeviceNotFound`
/// carrying the path when neither gives a `u32`.
pub fn parse_device_number(path: &str) -> (number: Result<u32, VirtualCamError>)
    ensures
        match spec_parse_device_number(path@) {
            Some(n) => number matches Ok(m) && m == n,
            None => (number matches Err(VirtualCamError::DeviceNotFound(p)) && p@ == path@),
        },
{
    let start = prefix_end(path, "/dev/video");
    match parse_u32_from(path, start) {
        Some(n) => Ok(n),
        None => Err(VirtualCamError::DeviceNotFound(path.to_owned())),
    }
}

/// Reading back the path of a device node gives its number.
pub proof fn lemma_device_path_reads_back(device_num: u32)
    ensures
        spec_parse_device_number(spec_device_path(device_num)) == Some(device_num),
{
    let digits = decimal(device_num as nat);
    lemma_decimal_reads_back(device_num as nat);
    reveal_strlit("/dev/video");
    let path = spec_device_path(device_num);
    assert(path.subrange(0, 10) =~= "/dev/video"@);
    assert(path.subrange(10, path.len() as int) =~= digits);
    assert('0' <= digits[0] && digits[0] <= '9');
    assert(unsigned_digits(digits) == digits);
}

/// Whether `end` ends the NUL-terminated name in `bytes`: no NUL before it,
/// and a NUL at it unless the name fills the field.
pub open spec fn is_name_end(bytes: Seq<u8>, end: int) -> bool {
    &&& 0 <= end <= bytes.len()
    &&& forall|j: int| 0 <= j < end ==> bytes[j] != 0
    &&& end < bytes.len() ==> bytes[end] == 0
}

/// A NUL-terminated field has one name end.
pub proof fn lemma_name_end_unique(bytes: Seq<u8>, a: int, b: int)
    requires
        is_name_end(bytes, a),
        is_name_end(bytes, b),
    ensures
        a == b,
{
    if a < b {
        assert(bytes[a] == 0);
    } else if b < a {
        assert(bytes[b] == 0);
    }
}

/// Where the NUL-terminated name in `bytes` ends.
pub fn name_end(bytes: &[u8]) -> (end: usize)
    ensures
        is_name_end(bytes@, end as int),
{
    let n = bytes.len();
    let mut i: usize = 0;
    while i < n
        invariant
            n == bytes@.len(),
            i <= n,
            forall|j: int| 0 <= j < i ==> bytes@[j] != 0,
        decreases n - i,
    {
        if bytes[i] == 0 {
            return i;
        }
        i += 1;
    }
    i
}

/// Whether a driver name, the bytes before `end` decoded as UTF-8 with
/// invalid sequences replaced, names v4l2loopback.
pub open spec fn names_loopback_driver(driver: Seq<u8>, end: int) -> bool {
    let name = utf8_lossy_decoding(driver.subrange(0, end));
    contains(name, "v4l2 loopback"@) || contains(name, "v4l2loopback"@)
}

/// Whether the driver field of a device's capabilities names v4l2loopback.
pub fn is_loopback_driver(driver: &[u8]) -> (loopback: bool)
    ensures
        forall|end: int| is_name_end(driver@, end) ==> loopback == names_loopback_driver(
            driver@,
            end,
        ),
{
    let end = name_end(driver);
    let name = utf8_lossy(vstd::slice::slice_subrange(driver, 0, end));
    let found = str_contains(name.as_str(), "v4l2 loopback") || str_contains(
        name.as_str(),
        "v4l2loopback",
    );
    proof {
        assert forall|e: int| is_name_end(driver@, e) implies found == names_loopback_driver(
            driver@,
            e,
        ) by {
            lemma_name_end_unique(driver@, e, end as int);
        }
    }
    found
}

} // verus!

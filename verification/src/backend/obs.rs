//! The OBS Virtual Camera transport: the device it offers, the layout of its
//! shared three-slot frame queue, the slot each frame goes to and the clock
//! its frames are stamped with.
use vstd::prelude::*;

use crate::error::VirtualCamError;
use crate::text::str_equal;

verus! {

/// The one device this transport offers.
pub const DEVICE_NAME: &'static str = "OBS Virtual Camera";

/// Name of the shared mapping that holds the video queue.
pub const VIDEO_QUEUE_NAME: &'static str = "OBSVirtualCamVideo";

/// Queue state while the producer sets the queue up.
pub const SHARED_QUEUE_STATE_STARTING: u32 = 1;

/// Queue state once a frame is available.
pub const SHARED_QUEUE_STATE_READY: u32 = 2;

/// Queue state after the producer closed the queue.
pub const SHARED_QUEUE_STATE_STOPPING: u32 = 3;

/// Bytes before each frame in its slot (timestamp and reserved words).
pub const FRAME_HEADER_SIZE: usize = 32;

/// Size of the queue header that OBS reads.
pub const QUEUE_HEADER_SIZE: usize = 80;

/// Number of frame slots in the queue.
pub const SLOT_COUNT: u32 = 3;

/// `n` rounded up to a multiple of 32.
pub open spec fn align32(n: int) -> int {
    (n + 31) / 32 * 32
}

/// Round a size up to the next 32-byte boundary.
pub fn align_size(size: usize) -> (aligned: usize)
    requires
        size + 31 <= usize::MAX,
    ensures
        aligned == align32(size as int),
{
    let s = size + 31;
    assert((s & !31usize) == s / 32 * 32) by (bit_vector);
    s & !31usize
}

/// The size of one NV12 frame of `width` x `height`.
pub open spec fn queue_frame_size(width: u32, height: u32) -> int {
    width * height * 3 / 2
}

/// Where the slot after the one at `offset` starts: past the frame header
/// and the frame, aligned to 32 bytes.
pub open spec fn next_slot_offset(offset: int, frame_size: int) -> int {
    align32(offset + FRAME_HEADER_SIZE + frame_size)
}

/// Where the first slot starts: past the queue header, aligned.
pub open spec fn first_slot_offset() -> int {
    align32(QUEUE_HEADER_SIZE as int)
}

/// The offsets of the three slots, then the size of the whole mapping.
pub open spec fn queue_offsets(frame_size: int) -> Seq<int> {
    let o0 = first_slot_offset();
    let o1 = next_slot_offset(o0, frame_size);
    let o2 = next_slot_offset(o1, frame_size);
    seq![o0, o1, o2, next_slot_offset(o2, frame_size)]
}

/// The layout of the shared queue for one frame size.
#[derive(Debug, Clone, Copy, PartialEq, Eq)]
pub struct QueueLayout {
    /// Bytes of one NV12 frame.
    pub frame_size: usize,
    /// Offset of each slot from the start of the mapping.
    pub offsets: [u32; 3],
    /// Size of the whole mapping.
    pub mapping_size: u32,
}

/// Where the slot after the one at `offset` starts, when that fits in a `u32`.
fn next_offset(offset: u32, frame_size: u32) -> (next: Option<u32>)
    ensures
        match next {
            Some(n) => n == next_slot_offset(offset as int, frame_size as int),
            None => next_slot_offset(offset as int, frame_size as int) > u32::MAX,
        },
{
    let end = offset as u64 + FRAME_HEADER_SIZE as u64 + frame_size as u64;
    if end > 0xFFFF_FFFF - 31 {
        return None;
    }
    Some(align_size(end as usize) as u32)
}

/// The layout of the queue for frames of `width` x `height`: the three slots
/// follow the queue header, each holding a frame header and a frame, each
/// aligned to 32 bytes. `InvalidDimensions` when the mapping would not fit in
/// a `u32`.
pub fn queue_layout(width: u32, height: u32) -> (layout: Result<QueueLayout, VirtualCamError>)
    ensures
        ({
            let offsets = queue_offsets(queue_frame_size(width, height));
            match layout {
                Ok(l) => {
                    &&& offsets[3] <= u32::MAX
                    &&& l.frame_size == queue_frame_size(width, height)
                    &&& l.offsets[0] == offsets[0]
                    &&& l.offsets[1] == offsets[1]
                    &&& l.offsets[2] == offsets[2]
                    &&& l.mapping_size == offsets[3]
                },
                Err(e) => offsets[3] > u32::MAX && (e matches VirtualCamError::InvalidDimensions(
                    w,
                    h,
                ) && w == width && h == height),
            }
        }),
{
    assert(width * height <= u32::MAX * u32::MAX) by (nonlinear_arith)
        requires
            width <= u32::MAX,
            height <= u32::MAX,
    ;
    let pixels = width as u64 * height as u64;
    if pixels > 0xFFFF_FFFF {
        return Err(VirtualCamError::InvalidDimensions(width, height));
    }
    let frame_bytes = pixels * 3 / 2;
    if frame_bytes > 0xFFFF_FFFF {
        return Err(VirtualCamError::InvalidDimensions(width, height));
    }
    let frame_size = frame_bytes as u32;
    let first = align_size(QUEUE_HEADER_SIZE) as u32;
    let second = match next_offset(first, frame_size) {
        Some(o) => o,
        None => {
            return Err(VirtualCamError::InvalidDimensions(width, height));
        },
    };
    let third = match next_offset(second, frame_size) {
        Some(o) => o,
        None => {
            return Err(VirtualCamError::InvalidDimensions(width, height));
        },
    };
    let mapping_size = match next_offset(third, frame_size) {
        Some(o) => o,
        None => {
            return Err(VirtualCamError::InvalidDimensions(width, height));
        },
    };
    Ok(
        QueueLayout {
            frame_size: frame_size as usize,
            offsets: [first, second, third],
            mapping_size,
        },
    )
}

/// The slots of a queue lie one after the other, each past the frame header
/// and the frame of the one before, all within the mapping and on 32-byte
/// boundaries.
pub proof fn lemma_queue_slots_disjoint(frame_size: int)
    requires
        frame_size >= 0,
    ensures
        ({
            let offsets = queue_offsets(frame_size);
            &&& offsets[0] >= QUEUE_HEADER_SIZE
            &&& forall|i: int|
                0 <= i < 3 ==> #[trigger] offsets[i] + FRAME_HEADER_SIZE + frame_size <= offsets[i
                    + 1]
            &&& forall|i: int| 0 <= i < 4 ==> #[trigger] offsets[i] % 32 == 0
        }),
{
}

/// Check the device and the dimensions a caller asked of this transport: a
/// device other than [`DEVICE_NAME`] is `DeviceNotFound`, then odd dimensions
/// are `InvalidDimensions`.
pub fn check_request(width: u32, height: u32, device: Option<&str>) -> (result: Result<
    (),
    VirtualCamError,
>)
    ensures
        match device {
            Some(name) => name@ != DEVICE_NAME@ ==> (result matches Err(
                VirtualCamError::DeviceNotFound(n),
            ) && n@ == name@),
            None => true,
        },
        !(device matches Some(name) && name@ != DEVICE_NAME@) ==> (if width % 2 != 0 || height % 2
            != 0 {
            (result matches Err(VirtualCamError::InvalidDimensions(w, h)) && w == width && h
                == height)
        } else {
            (result is Ok)
        }),
{
    if let Some(name) = device {
        if !str_equal(name, DEVICE_NAME) {
            return Err(VirtualCamError::DeviceNotFound(name.to_owned()));
        }
    }
    if width % 2 != 0 || height % 2 != 0 {
        return Err(VirtualCamError::InvalidDimensions(width, height));
    }
    Ok(())
}

/// The write index after `previous` (wrapping at 2^32) and the slot it names.
pub open spec fn spec_claim_slot(previous: u32) -> (u32, usize) {
    let index = ((previous + 1) % 0x1_0000_0000) as u32;
    (index, (index % 3) as usize)
}

/// The write index and the slot of the frame after the one with write index
/// `previous`: the index advances by one (wrapping) and the slot is the index
/// modulo the three slots; readers then read that slot at that index.
pub fn claim_slot(previous: u32) -> (claimed: (u32, usize))
    ensures
        claimed == spec_claim_slot(previous),
        claimed.1 < 3,
{
    let index = previous.wrapping_add(1);
    (index, (index % SLOT_COUNT) as usize)
}

/// Two frames written one after the other never go to the same slot, so the
/// slot that readers were just pointed at is not overwritten; the one
/// exception is the wrap of the write index from `u32::MAX` to 0.
pub proof fn lemma_consecutive_frames_use_distinct_slots(previous: u32)
    requires
        previous != u32::MAX - 1,
    ensures
        spec_claim_slot(previous).1 != spec_claim_slot(spec_claim_slot(previous).0).1,
{
}

/// A performance-counter reading in 100-nanosecond units: `counter` ticks of
/// a clock of `frequency` ticks per second, truncated to 64 bits; 0 when the
/// frequency is not positive.
pub open spec fn spec_ticks_to_100ns(counter: i64, frequency: i64) -> u64 {
    if frequency > 0 {
        ((counter * 10_000_000) / (frequency as int)) as u64
    } else {
        0
    }
}

/// Convert a performance-counter reading to 100-nanosecond units.
pub fn ticks_to_100ns(counter: i64, frequency: i64) -> (units: u64)
    requires
        counter >= 0,
    ensures
        units == spec_ticks_to_100ns(counter, frequency),
{
    if frequency > 0 {
        let scaled = counter as u128 * 10_000_000;
        (scaled / frequency as u128) as u64
    } else {
        0
    }
}

} // verus!

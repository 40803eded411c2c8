//! The Media Foundation transport: the shared format that the registrar
//! publishes, its frame rate as a reduced fraction, the registrar command line
//! and the writer side of the seqlock on the shared header.
use vstd::prelude::*;

use vstd::string::StringExecFns;

use super::media_foundation_contract::{
    spec_validate_stable_header, HeaderReadError, RawHeaderSnapshot,
    ValidatedHeaderSnapshot, MAX_FRAME_SIZE, MAX_HEIGHT, MAX_WIDTH, WAIT_OBJECT_0_RAW,
    WAIT_TIMEOUT_RAW,
};
use crate::error::VirtualCamError;
use crate::text::{
    append_decimal, ascii_lowercase, decimal, equals_ignoring_ascii_case, utf16_encoding,
    utf16_units,
};

verus! {

/// Width of the frames the camera shows by default.
pub const OUTPUT_WIDTH: u32 = 1280;

/// Height of the frames the camera shows by default.
pub const OUTPUT_HEIGHT: u32 = 720;

/// Frame rate the camera shows by default.
pub const OUTPUT_FPS: u32 = 30;

/// The one device this transport offers.
pub const DEVICE_NAME: &'static str = "VCam";

/// Frame rates are reduced from millionths of a frame per second.
pub const FPS_DENOMINATOR: u64 = 1_000_000;

/// The format that the producer and the registrar agree on: NV12 frames of
/// `width` x `height` at `fps_num / fps_den` frames per second.
#[derive(Debug, Clone, Copy, PartialEq, Eq, Structural)]
pub struct SharedFormat {
    pub width: u32,
    pub height: u32,
    pub fps_num: u32,
    pub fps_den: u32,
}

/// Whether the camera accepts frames of these dimensions: both nonzero, even
/// and within the maxima.
pub open spec fn dimensions_supported(width: u32, height: u32) -> bool {
    &&& 0 < width <= MAX_WIDTH
    &&& 0 < height <= MAX_HEIGHT
    &&& width % 2 == 0
    &&& height % 2 == 0
}

/// Check the dimensions of a shared format: `InvalidDimensions` unless they
/// are supported.
pub fn check_shared_dimensions(width: u32, height: u32) -> (result: Result<(), VirtualCamError>)
    ensures
        result is Ok <==> dimensions_supported(width, height),
        result is Ok <==> (0 < width <= MAX_WIDTH && 0 < height <= MAX_HEIGHT && width % 2 == 0
            && height % 2 == 0),
        result is Err ==> (result matches Err(VirtualCamError::InvalidDimensions(w, h)) && w
            == width && h == height),
{
    if width == 0 || height == 0 || width > MAX_WIDTH || height > MAX_HEIGHT || width % 2 != 0
        || height % 2 != 0 {
        return Err(VirtualCamError::InvalidDimensions(width, height));
    }
    Ok(())
}

/// The size in bytes of an NV12 frame of a format.
pub open spec fn spec_shared_frame_size(format: SharedFormat) -> int {
    format.width * format.height * 3 / 2
}

impl SharedFormat {
    /// The size in bytes of one NV12 frame of this format.
    pub fn frame_size(self) -> (size: usize)
        requires
            self.width * self.height * 3 <= usize::MAX,
        ensures
            size == spec_shared_frame_size(self),
    {
        let pixels = self.width as usize * self.height as usize;
        pixels * 3 / 2
    }

    /// The format that a validated header announces.
    pub fn of_header(header: ValidatedHeaderSnapshot) -> (format: SharedFormat)
        ensures
            format == (SharedFormat {
                width: header.width,
                height: header.height,
                fps_num: header.fps_num,
                fps_den: header.fps_den,
            }),
    {
        SharedFormat {
            width: header.width,
            height: header.height,
            fps_num: header.fps_num,
            fps_den: header.fps_den,
        }
    }
}

/// A format with supported dimensions has frames of at most `MAX_FRAME_SIZE` bytes.
pub proof fn lemma_supported_frame_size_bounded(format: SharedFormat)
    requires
        dimensions_supported(format.width, format.height),
    ensures
        format.width * format.height * 3 <= usize::MAX,
        spec_shared_frame_size(format) <= MAX_FRAME_SIZE,
{
    assert(format.width * format.height <= 4096 * 2160) by (nonlinear_arith)
        requires
            format.width <= 4096,
            format.height <= 2160,
    ;
}

/// Supported dimensions are even, so an NV12 frame of them splits into whole
/// 2x2 blocks: its size is the luma plane plus one U and one V byte per block.
pub proof fn lemma_supported_dimensions_tile(width: u32, height: u32)
    requires
        dimensions_supported(width, height),
    ensures
        width % 2 == 0,
        height % 2 == 0,
        (width * height) % 4 == 0,
        width * height * 3 / 2 == width * height + 2 * ((width / 2) * (height / 2)),
{
    let a: int = (width / 2) as int;
    let b: int = (height / 2) as int;
    assert(width * height == 4 * (a * b)) by (nonlinear_arith)
        requires
            width == 2 * a,
            height == 2 * b,
    ;
}

/// The greatest common divisor of `a` and `b`, by Euclid's algorithm.
pub open spec fn spec_gcd(a: nat, b: nat) -> nat
    decreases b,
{
    if b == 0 {
        a
    } else {
        spec_gcd(b, a % b)
    }
}

/// The greatest common divisor of two numbers.
pub fn gcd(left: u64, right: u64) -> (divisor: u64)
    ensures
        divisor == spec_gcd(left as nat, right as nat),
{
    let mut a = left;
    let mut b = right;
    while b != 0
        invariant
            spec_gcd(a as nat, b as nat) == spec_gcd(left as nat, right as nat),
        decreases b,
    {
        let remainder = a % b;
        a = b;
        b = remainder;
    }
    a
}

/// Whether `d` divides `n`.
pub open spec fn divides(d: nat, n: nat) -> bool {
    d > 0 && n % d == 0
}

/// A common divisor of `a` and `b` divides `a + b * k`.
proof fn lemma_divides_sum(d: nat, a: nat, b: nat, k: nat)
    requires
        divides(d, a),
        divides(d, b),
    ensures
        divides(d, a + b * k),
{
    vstd::arithmetic::div_mod::lemma_fundamental_div_mod(a as int, d as int);
    vstd::arithmetic::div_mod::lemma_fundamental_div_mod(b as int, d as int);
    let qa = a / d;
    let qb = b / d;
    assert(a + b * k == (qa + qb * k) * d) by (nonlinear_arith)
        requires
            a == d * qa,
            b == d * qb,
    ;
    vstd::arithmetic::div_mod::lemma_mod_multiples_basic((qa + qb * k) as int, d as int);
}

/// A common divisor of `a` and `b` divides `a - b * k`.
proof fn lemma_divides_difference(d: nat, a: nat, b: nat, k: nat)
    requires
        divides(d, a),
        divides(d, b),
        a >= b * k,
    ensures
        divides(d, (a - b * k) as nat),
{
    vstd::arithmetic::div_mod::lemma_fundamental_div_mod(a as int, d as int);
    vstd::arithmetic::div_mod::lemma_fundamental_div_mod(b as int, d as int);
    let qa = a / d;
    let qb = b / d;
    assert(a - b * k == (qa - qb * k) * d) by (nonlinear_arith)
        requires
            a == d * qa,
            b == d * qb,
    ;
    assert(qa - qb * k >= 0) by (nonlinear_arith)
        requires
            a == d * qa,
            b == d * qb,
            a >= b * k,
            d > 0,
    ;
    vstd::arithmetic::div_mod::lemma_mod_multiples_basic(qa - qb * k, d as int);
}

/// The greatest common divisor divides both numbers, and every common
/// divisor divides it.
pub proof fn lemma_gcd_divides(a: nat, b: nat)
    requires
        a > 0 || b > 0,
    ensures
        divides(spec_gcd(a, b), a),
        divides(spec_gcd(a, b), b),
        forall|c: nat| divides(c, a) && divides(c, b) ==> #[trigger] divides(c, spec_gcd(a, b)),
    decreases b,
{
    if b == 0 {
        vstd::arithmetic::div_mod::lemma_mod_self_0(a as int);
        assert(0nat % a == 0) by {
            vstd::arithmetic::div_mod::lemma_small_mod(0nat, a);
        }
    } else {
        let r = a % b;
        let q = a / b;
        lemma_gcd_divides(b, r);
        let g = spec_gcd(b, r);
        vstd::arithmetic::div_mod::lemma_fundamental_div_mod(a as int, b as int);
        assert(a == b * q + r);
        lemma_divides_sum(g, r, b, q);
        assert(r + b * q == a);
        assert forall|c: nat| divides(c, a) && divides(c, b) implies #[trigger] divides(
            c,
            spec_gcd(a, b),
        ) by {
            lemma_divides_difference(c, a, b, q);
            assert((a - b * q) as nat == r);
        }
    }
}

/// The frame rate `numerator / 1_000_000` in lowest terms, when both terms fit
/// in a `u32`: the numerator must be nonzero and fit in a `u32`.
pub open spec fn spec_fps_fraction(numerator: u64) -> Option<(u32, u32)> {
    if numerator == 0 || numerator > u32::MAX {
        None
    } else {
        let g = spec_gcd(numerator as nat, FPS_DENOMINATOR as nat);
        Some(((numerator as nat / g) as u32, (FPS_DENOMINATOR as nat / g) as u32))
    }
}

/// The frame rate given in millionths of a frame per second, as a fraction in
/// lowest terms; `None` for a zero numerator or one beyond `u32::MAX`.
pub fn fps_fraction(numerator: u64) -> (fraction: Option<(u32, u32)>)
    ensures
        fraction == spec_fps_fraction(numerator),
{
    if numerator == 0 || numerator > 0xFFFF_FFFF {
        return None;
    }
    let divisor = gcd(numerator, FPS_DENOMINATOR);
    proof {
        lemma_gcd_divides(numerator as nat, FPS_DENOMINATOR as nat);
    }
    Some(((numerator / divisor) as u32, (FPS_DENOMINATOR / divisor) as u32))
}

/// The reduced frame rate equals the one it was reduced from, and its terms
/// have no common divisor but 1.
pub proof fn lemma_fps_fraction_is_reduced(numerator: u64)
    requires
        spec_fps_fraction(numerator) is Some,
    ensures
        ({
            let (num, den) = spec_fps_fraction(numerator)->0;
            &&& num * FPS_DENOMINATOR == numerator * den
            &&& den > 0
            &&& forall|c: nat| divides(c, num as nat) && divides(c, den as nat) ==> c == 1
        }),
{
    let n = numerator as nat;
    let m = FPS_DENOMINATOR as nat;
    lemma_gcd_divides(n, m);
    let g = spec_gcd(n, m);
    vstd::arithmetic::div_mod::lemma_fundamental_div_mod(n as int, g as int);
    vstd::arithmetic::div_mod::lemma_fundamental_div_mod(m as int, g as int);
    let qn = n / g;
    let qm = m / g;
    assert(n == g * qn);
    assert(m == g * qm);
    assert(qn <= n) by (nonlinear_arith)
        requires
            n == g * qn,
            g > 0,
    ;
    assert(qm <= m) by (nonlinear_arith)
        requires
            m == g * qm,
            g > 0,
    ;
    assert(qn * m == n * qm) by (nonlinear_arith)
        requires
            n == g * qn,
            m == g * qm,
    ;
    assert(qm > 0) by (nonlinear_arith)
        requires
            m == g * qm,
            m > 0,
    ;
    assert forall|c: nat| divides(c, qn) && divides(c, qm) implies c == 1 by {
        vstd::arithmetic::div_mod::lemma_fundamental_div_mod(qn as int, c as int);
        vstd::arithmetic::div_mod::lemma_fundamental_div_mod(qm as int, c as int);
        let kn = qn / c;
        let km = qm / c;
        assert(n == kn * (c * g)) by (nonlinear_arith)
            requires
                n == g * qn,
                qn == c * kn,
        ;
        assert(m == km * (c * g)) by (nonlinear_arith)
            requires
                m == g * qm,
                qm == c * km,
        ;
        assert(c * g > 0) by (nonlinear_arith)
            requires
                c > 0,
                g > 0,
        ;
        vstd::arithmetic::div_mod::lemma_mod_multiples_basic(kn as int, (c * g) as int);
        vstd::arithmetic::div_mod::lemma_mod_multiples_basic(km as int, (c * g) as int);
        assert(divides(c * g, n));
        assert(divides(c * g, m));
        assert(divides(c * g, g));
        vstd::arithmetic::div_mod::lemma_fundamental_div_mod(g as int, (c * g) as int);
        let j = g / (c * g);
        assert(c * j == 1) by (nonlinear_arith)
            requires
                g == (c * g) * j,
                g > 0,
        ;
        assert(c == 1) by (nonlinear_arith)
            requires
                c * j == 1,
                c > 0,
        ;
    }
}

/// The arguments that ask the registrar to replace the camera with one of
/// `format`, acknowledging on the event `startup_ack_name`.
pub open spec fn spec_registrar_replace_arguments(
    format: SharedFormat,
    startup_ack_name: Seq<char>,
) -> Seq<char> {
    "/headless /replace "@ + decimal(format.width as nat) + " "@ + decimal(format.height as nat)
        + " "@ + decimal(format.fps_num as nat) + " "@ + decimal(format.fps_den as nat)
        + " /ack "@ + startup_ack_name
}

/// The registrar command line that replaces the camera with one of `format`.
pub fn registrar_replace_arguments(format: SharedFormat, startup_ack_name: &str) -> (arguments:
    String)
    ensures
        arguments@ == spec_registrar_replace_arguments(format, startup_ack_name@),
{
    let mut arguments = String::new();
    arguments.append("/headless /replace ");
    append_decimal(&mut arguments, format.width as u64);
    arguments.append(" ");
    append_decimal(&mut arguments, format.height as u64);
    arguments.append(" ");
    append_decimal(&mut arguments, format.fps_num as u64);
    arguments.append(" ");
    append_decimal(&mut arguments, format.fps_den as u64);
    arguments.append(" /ack ");
    arguments.append(startup_ack_name);
    arguments
}

/// A string as the NUL-terminated UTF-16 that Win32 takes.
pub fn wide(value: &str) -> (units: Vec<u16>)
    ensures
        units@ == utf16_encoding(value@).push(0u16),
{
    let mut units = utf16_units(value);
    units.push(0);
    units
}

/// The header of the shared mapping, word by word, as the producer copied it
/// out of the mapping.
#[derive(Debug, Clone, Copy)]
pub struct ShmHeader {
    pub magic: u32,
    pub version: u32,
    pub header_bytes: u32,
    pub width: u32,
    pub height: u32,
    pub fps_num: u32,
    pub fps_den: u32,
    pub frame_bytes: u32,
    pub seq: u32,
    pub ready: u32,
    pub reserved: [u32; 2],
}

impl ShmHeader {
    /// The snapshot that validation reads: every word but the reserved ones.
    pub fn snapshot(&self) -> (snapshot: RawHeaderSnapshot)
        ensures
            snapshot == (RawHeaderSnapshot {
                magic: self.magic,
                version: self.version,
                header_bytes: self.header_bytes,
                width: self.width,
                height: self.height,
                fps_num: self.fps_num,
                fps_den: self.fps_den,
                frame_bytes: self.frame_bytes,
                seq: self.seq,
                ready: self.ready,
            }),
    {
        RawHeaderSnapshot {
            magic: self.magic,
            version: self.version,
            header_bytes: self.header_bytes,
            width: self.width,
            height: self.height,
            fps_num: self.fps_num,
            fps_den: self.fps_den,
            frame_bytes: self.frame_bytes,
            seq: self.seq,
            ready: self.ready,
        }
    }
}

/// Whether the header that the registrar published announces exactly the
/// format the producer asked for, with frames of `frame_size` bytes.
pub open spec fn spec_header_matches(
    header: ValidatedHeaderSnapshot,
    format: SharedFormat,
    frame_size: usize,
) -> bool {
    &&& header.width == format.width
    &&& header.height == format.height
    &&& header.fps_num == format.fps_num
    &&& header.fps_den == format.fps_den
    &&& header.frame_bytes == frame_size
}

/// Whether a validated header announces `format` with frames of `frame_size` bytes.
pub fn header_matches(header: ValidatedHeaderSnapshot, format: SharedFormat, frame_size: usize) -> (matches:
    bool)
    ensures
        matches == spec_header_matches(header, format, frame_size),
{
    header.width == format.width && header.height == format.height && header.fps_num
        == format.fps_num && header.fps_den == format.fps_den && header.frame_bytes as usize
        == frame_size
}

/// The sequence values of one frame write: the odd value that marks the write
/// as in progress, then the even value that publishes the frame.
#[derive(Debug, Clone, Copy, PartialEq, Eq, Structural)]
pub struct SeqlockWrite {
    pub writing: u32,
    pub published: u32,
}

/// The write that starts from sequence `seq`: none while a write is in
/// progress (odd `seq`), else `seq + 1` then `seq + 2`, wrapping at 2^32.
pub open spec fn spec_begin_frame_write(seq: u32) -> Option<SeqlockWrite> {
    if seq % 2 != 0 {
        None
    } else {
        Some(
            SeqlockWrite {
                writing: ((seq + 1) % 0x1_0000_0000) as u32,
                published: ((seq + 2) % 0x1_0000_0000) as u32,
            },
        )
    }
}

/// Plan the sequence values of a frame write that starts from `seq`.
pub fn begin_frame_write(seq: u32) -> (write: Option<SeqlockWrite>)
    ensures
        write == spec_begin_frame_write(seq),
{
    if seq % 2 != 0 {
        return None;
    }
    Some(SeqlockWrite { writing: seq.wrapping_add(1), published: seq.wrapping_add(2) })
}

/// Why a frame write was refused.
#[derive(Debug, Clone, Copy, PartialEq, Eq, Structural)]
pub enum FrameWriteRefusal {
    /// The frame does not have the size of a frame of the shared format.
    WrongLength { actual: usize, expected: usize },
    /// The sequence is odd: a write is already in progress.
    WriterActive,
}

/// The outcome of asking to write a frame of `frame_len` bytes into a mapping
/// whose frames have `frame_size` bytes and whose sequence reads `seq`: the
/// length is checked first, then the sequence must allow a write.
pub open spec fn spec_plan_frame_write(frame_len: usize, frame_size: usize, seq: u32) -> Result<
    SeqlockWrite,
    FrameWriteRefusal,
> {
    if frame_len != frame_size {
        Err(FrameWriteRefusal::WrongLength { actual: frame_len, expected: frame_size })
    } else {
        match spec_begin_frame_write(seq) {
            Some(write) => Ok(write),
            None => Err(FrameWriteRefusal::WriterActive),
        }
    }
}

/// Decide a frame write: refuse it, or give the sequence values it goes through.
pub fn plan_frame_write(frame_len: usize, frame_size: usize, seq: u32) -> (plan: Result<
    SeqlockWrite,
    FrameWriteRefusal,
>)
    ensures
        plan == spec_plan_frame_write(frame_len, frame_size, seq),
{
    if frame_len != frame_size {
        return Err(FrameWriteRefusal::WrongLength { actual: frame_len, expected: frame_size });
    }
    match begin_frame_write(seq) {
        Some(write) => Ok(write),
        None => Err(FrameWriteRefusal::WriterActive),
    }
}

/// Copy a frame to the start of the payload area; the bytes after it stay.
pub fn copy_frame(payload: &mut [u8], frame: &[u8])
    requires
        frame@.len() <= old(payload)@.len(),
    ensures
        final(payload)@ == frame@ + old(payload)@.subrange(
            frame@.len() as int,
            old(payload)@.len() as int,
        ),
{
    let n = frame.len();
    let mut i: usize = 0;
    while i < n
        invariant
            n == frame@.len(),
            n <= payload@.len(),
            payload@.len() == old(payload)@.len(),
            i <= n,
            forall|j: int| 0 <= j < i ==> payload@[j] == frame@[j],
            forall|j: int| i <= j < payload@.len() ==> payload@[j] == old(payload)@[j],
        decreases n - i,
    {
        payload[i] = frame[i];
        i += 1;
    }
    assert(payload@ =~= frame@ + old(payload)@.subrange(n as int, old(payload)@.len() as int));
}

/// A frame write that is not refused leaves the payload holding the frame,
/// and the sequence goes from `seq` through an odd value, while the bytes are
/// copied, to `seq + 2` (wrapping); readers refuse every header read that
/// overlaps it.
pub proof fn lemma_frame_write(
    frame: Seq<u8>,
    payload: Seq<u8>,
    frame_size: usize,
    seq: u32,
    snapshot: RawHeaderSnapshot,
    seq_after: u32,
)
    requires
        frame.len() <= payload.len(),
        payload.len() <= usize::MAX,
        spec_plan_frame_write(frame.len() as usize, frame_size, seq) is Ok,
    ensures
        ({
            let write = spec_plan_frame_write(frame.len() as usize, frame_size, seq)->Ok_0;
            let written = frame + payload.subrange(frame.len() as int, payload.len() as int);
            &&& frame.len() == frame_size
            &&& written.subrange(0, frame.len() as int) == frame
            &&& write.writing % 2 == 1
            &&& write.published == (seq + 2) % 0x1_0000_0000
            &&& spec_validate_stable_header(write.writing, snapshot, seq_after) is Err
            &&& spec_validate_stable_header(seq, snapshot, write.published) is Err
        }),
{
    let written = frame + payload.subrange(frame.len() as int, payload.len() as int);
    assert(written.subrange(0, frame.len() as int) =~= frame);
    lemma_seqlock_refuses_overlapping_reads(seq, snapshot, seq_after);
}

/// Whether the registrar already serves `format`: the header it published
/// announces exactly that format and the registrar reports ready.
pub fn registrar_serves(current: Option<SharedFormat>, ready: bool, format: SharedFormat) -> (serves:
    bool)
    ensures
        serves == (current == Some(format) && ready),
{
    match current {
        Some(published) => published == format && ready,
        None => false,
    }
}

/// A reader never accepts a header that a write overlaps: one whose first
/// sequence read saw the write in progress is refused as `WriterActive`, one
/// whose second sequence read saw the write begun or published is refused as
/// `SequenceChanged`; and the published sequence lets the next write start.
pub proof fn lemma_seqlock_refuses_overlapping_reads(
    seq: u32,
    snapshot: RawHeaderSnapshot,
    seq_after: u32,
)
    requires
        spec_begin_frame_write(seq) is Some,
    ensures
        ({
            let write = spec_begin_frame_write(seq)->0;
            &&& spec_validate_stable_header(write.writing, snapshot, seq_after) == Err::<
                ValidatedHeaderSnapshot,
                HeaderReadError,
            >(HeaderReadError::WriterActive)
            &&& spec_validate_stable_header(seq, snapshot, write.writing) == Err::<
                ValidatedHeaderSnapshot,
                HeaderReadError,
            >(HeaderReadError::SequenceChanged)
            &&& spec_validate_stable_header(seq, snapshot, write.published) == Err::<
                ValidatedHeaderSnapshot,
                HeaderReadError,
            >(HeaderReadError::SequenceChanged)
            &&& spec_begin_frame_write(write.published) is Some
        }),
{
}

/// Check the device a caller asked for: this transport offers only
/// [`DEVICE_NAME`], matched without regard to ASCII case.
pub fn check_device(device: Option<&str>) -> (result: Result<(), VirtualCamError>)
    ensures
        match device {
            Some(name) => if ascii_lowercase(name@) == "vcam"@ {
                (result is Ok)
            } else {
                (result matches Err(VirtualCamError::DeviceNotFound(n)) && n@ == name@)
            },
            None => (result is Ok),
        },
{
    match device {
        Some(name) => {
            if equals_ignoring_ascii_case(name, "vcam") {
                Ok(())
            } else {
                Err(VirtualCamError::DeviceNotFound(name.to_owned()))
            }
        },
        None => Ok(()),
    }
}

/// What a wait for the registrar's startup acknowledgment gave.
#[derive(Debug, Clone, Copy, PartialEq, Eq, Structural)]
pub enum AckWait {
    /// The registrar signalled the event.
    Acknowledged,
    /// The registrar did not signal in time.
    TimedOut,
    /// The wait failed with this raw result.
    Failed(u32),
}

/// Classify the raw result of the wait for the startup acknowledgment.
pub fn classify_ack_wait(wait_result: u32) -> (outcome: AckWait)
    ensures
        wait_result == WAIT_OBJECT_0_RAW ==> outcome == AckWait::Acknowledged,
        wait_result == WAIT_TIMEOUT_RAW ==> outcome == AckWait::TimedOut,
        wait_result != WAIT_OBJECT_0_RAW && wait_result != WAIT_TIMEOUT_RAW ==> outcome
            == AckWait::Failed(wait_result),
{
    if wait_result == WAIT_OBJECT_0_RAW {
        AckWait::Acknowledged
    } else if wait_result == WAIT_TIMEOUT_RAW {
        AckWait::TimedOut
    } else {
        AckWait::Failed(wait_result)
    }
}

} // verus!

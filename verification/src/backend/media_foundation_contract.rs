//! The shared-frame protocol between a frame producer and the Media Foundation
//! camera: object names, the access list of the IPC objects, the writer lease
//! and the seqlock-guarded header, all free of Win32 types.
use vstd::prelude::*;

use vstd::string::StringExecFns;

use crate::text::{
    append_hex, hex_digits, lemma_hex_digits_injective, lemma_hex_digits_len,
    lemma_hex_range_of_words,
};

verus! {

/// Name of the shared frame mapping.
pub const SHM_NAME: &'static str = "Global\\vcam_frames";

/// Name of the mutex that one producer at a time holds as its writer lease.
pub const WRITER_MUTEX_NAME: &'static str = "Global\\vcam_frames_writer";

/// First word of a valid header ("VCAM" read as a little-endian word).
pub const SHM_MAGIC: u32 = 0x4d41_4356;

/// Version of the header layout.
pub const SHM_VERSION: u32 = 2;

/// Size of the header: twelve 32-bit words.
pub const HEADER_SIZE: usize = 48;

/// Largest frame width the camera accepts.
pub const MAX_WIDTH: u32 = 4096;

/// Largest frame height the camera accepts.
pub const MAX_HEIGHT: u32 = 2160;

/// Size of the largest NV12 frame, `MAX_WIDTH * MAX_HEIGHT * 3 / 2`.
pub const MAX_FRAME_SIZE: usize = 13_271_040;

/// `WaitForSingleObject`: the object was signalled.
pub const WAIT_OBJECT_0_RAW: u32 = 0;

/// `WaitForSingleObject`: the mutex was abandoned by its previous owner.
pub const WAIT_ABANDONED_RAW: u32 = 0x80;

/// `WaitForSingleObject`: the wait timed out.
pub const WAIT_TIMEOUT_RAW: u32 = 0x102;

/// `WaitForSingleObject`: the wait failed.
pub const WAIT_FAILED_RAW: u32 = 0xFFFF_FFFF;

/// The session-local name of the event by which the registrar acknowledges
/// one startup generation of one process.
pub open spec fn spec_startup_ack_name(process_id: u32, generation: u64) -> Seq<char> {
    "Local\\noperson_vcam_startup_"@ + hex_digits(process_id as nat, 8) + "_"@ + hex_digits(
        generation as nat,
        16,
    )
}

/// The name of the startup acknowledgment event of `process_id` and
/// `generation`: both in zero-padded lowercase hexadecimal.
pub fn startup_ack_name(process_id: u32, generation: u64) -> (name: String)
    ensures
        name@ == spec_startup_ack_name(process_id, generation),
{
    let mut name = String::new();
    name.append("Local\\noperson_vcam_startup_");
    append_hex(&mut name, process_id as u64, 8);
    name.append("_");
    append_hex(&mut name, generation, 16);
    name
}

/// Two startup acknowledgment names are equal only for the same process and
/// the same generation: each generation of each process has its own event.
pub proof fn lemma_startup_ack_name_injective(
    process_a: u32,
    generation_a: u64,
    process_b: u32,
    generation_b: u64,
)
    requires
        spec_startup_ack_name(process_a, generation_a) == spec_startup_ack_name(
            process_b,
            generation_b,
        ),
    ensures
        process_a == process_b,
        generation_a == generation_b,
{
    let prefix = "Local\\noperson_vcam_startup_"@;
    let a = spec_startup_ack_name(process_a, generation_a);
    let b = spec_startup_ack_name(process_b, generation_b);
    lemma_hex_digits_len(process_a as nat, 8);
    lemma_hex_digits_len(process_b as nat, 8);
    lemma_hex_digits_len(generation_a as nat, 16);
    lemma_hex_digits_len(generation_b as nat, 16);
    reveal_strlit("_");
    let p = prefix.len() as int;
    assert(a.subrange(p, p + 8) =~= hex_digits(process_a as nat, 8));
    assert(b.subrange(p, p + 8) =~= hex_digits(process_b as nat, 8));
    assert(a.subrange(p + 9, p + 25) =~= hex_digits(generation_a as nat, 16));
    assert(b.subrange(p + 9, p + 25) =~= hex_digits(generation_b as nat, 16));
    lemma_hex_range_of_words();
    lemma_hex_digits_injective(process_a as nat, process_b as nat, 8);
    lemma_hex_digits_injective(generation_a as nat, generation_b as nat, 16);
}

/// A principal that the access list of the IPC objects names.
#[derive(Debug, Clone, Copy, PartialEq, Eq, Structural)]
pub enum IpcTrustee {
    System,
    Administrators,
    OwnerRights,
    LocalService,
}

/// The SDDL alias of a trustee.
pub open spec fn trustee_alias(trustee: IpcTrustee) -> Seq<char> {
    match trustee {
        IpcTrustee::System => "SY"@,
        IpcTrustee::Administrators => "BA"@,
        IpcTrustee::OwnerRights => "OW"@,
        IpcTrustee::LocalService => "LS"@,
    }
}

impl IpcTrustee {
    fn sddl_alias(self) -> (alias: &'static str)
        ensures
            alias@ == trustee_alias(self),
    {
        match self {
            IpcTrustee::System => "SY",
            IpcTrustee::Administrators => "BA",
            IpcTrustee::OwnerRights => "OW",
            IpcTrustee::LocalService => "LS",
        }
    }
}

/// The rights an access-list entry grants.
#[derive(Debug, Clone, Copy, PartialEq, Eq, Structural)]
pub enum AccessMask {
    Full,
    Read,
}

/// The SDDL alias of an access mask.
pub open spec fn access_alias(access: AccessMask) -> Seq<char> {
    match access {
        AccessMask::Full => "GA"@,
        AccessMask::Read => "GR"@,
    }
}

impl AccessMask {
    fn sddl_alias(self) -> (alias: &'static str)
        ensures
            alias@ == access_alias(self),
    {
        match self {
            AccessMask::Full => "GA",
            AccessMask::Read => "GR",
        }
    }
}

/// The access list of the IPC objects: full access for the system, the
/// administrators and the owner, read access for the local service.
pub open spec fn spec_ipc_acl_entries() -> Seq<(IpcTrustee, AccessMask)> {
    seq![
        (IpcTrustee::System, AccessMask::Full),
        (IpcTrustee::Administrators, AccessMask::Full),
        (IpcTrustee::OwnerRights, AccessMask::Full),
        (IpcTrustee::LocalService, AccessMask::Read),
    ]
}

/// The access list of the IPC objects.
pub fn ipc_acl_entries() -> (entries: Vec<(IpcTrustee, AccessMask)>)
    ensures
        entries@ == spec_ipc_acl_entries(),
{
    let entries = vec![
        (IpcTrustee::System, AccessMask::Full),
        (IpcTrustee::Administrators, AccessMask::Full),
        (IpcTrustee::OwnerRights, AccessMask::Full),
        (IpcTrustee::LocalService, AccessMask::Read),
    ];
    assert(entries@ =~= spec_ipc_acl_entries());
    entries
}

/// The allow entries of an SDDL access list, one `(A;;rights;;;trustee)` per entry.
pub open spec fn sddl_aces(entries: Seq<(IpcTrustee, AccessMask)>) -> Seq<char>
    decreases entries.len(),
{
    if entries.len() == 0 {
        Seq::empty()
    } else {
        let (trustee, access) = entries.last();
        sddl_aces(entries.drop_last()) + "(A;;"@ + access_alias(access) + ";;;"@ + trustee_alias(
            trustee,
        ) + ")"@
    }
}

/// The SDDL security descriptor of the IPC objects: a protected access list
/// holding exactly the entries of [`spec_ipc_acl_entries`].
pub open spec fn spec_ipc_security_sddl() -> Seq<char> {
    "D:P"@ + sddl_aces(spec_ipc_acl_entries())
}

/// The SDDL security descriptor of the IPC objects.
pub fn ipc_security_sddl() -> (sddl: String)
    ensures
        sddl@ == spec_ipc_security_sddl(),
{
    let entries = ipc_acl_entries();
    let mut sddl = String::new();
    sddl.append("D:P");
    let mut i: usize = 0;
    while i < entries.len()
        invariant
            entries@ == spec_ipc_acl_entries(),
            i <= entries@.len(),
            sddl@ == "D:P"@ + sddl_aces(entries@.take(i as int)),
        decreases entries@.len() - i,
    {
        let (trustee, access) = entries[i];
        sddl.append("(A;;");
        sddl.append(access.sddl_alias());
        sddl.append(";;;");
        sddl.append(trustee.sddl_alias());
        sddl.append(")");
        proof {
            assert(entries@.take(i + 1).drop_last() =~= entries@.take(i as int));
            assert(sddl@ =~= "D:P"@ + sddl_aces(entries@.take(i + 1)));
        }
        i += 1;
    }
    assert(entries@.take(entries@.len() as int) =~= entries@);
    sddl
}

/// What a wait on the writer mutex means for the writer lease.
#[derive(Debug, Clone, Copy, PartialEq, Eq, Structural)]
pub enum WriterLeaseDisposition {
    /// The lease is ours, also after its previous holder died holding it.
    Acquired,
    /// A live producer holds the lease.
    Busy,
    /// The wait failed with this raw result.
    Failed(u32),
}

/// What the raw result of a zero-timeout wait on the writer mutex means: the
/// mutex signalled or abandoned gives the lease, a timeout means a live owner,
/// and anything else is a failure carrying the raw result.
pub open spec fn spec_classify_writer_wait(wait_result: u32) -> WriterLeaseDisposition {
    if wait_result == WAIT_OBJECT_0_RAW || wait_result == WAIT_ABANDONED_RAW {
        WriterLeaseDisposition::Acquired
    } else if wait_result == WAIT_TIMEOUT_RAW {
        WriterLeaseDisposition::Busy
    } else {
        WriterLeaseDisposition::Failed(wait_result)
    }
}

/// Classify the raw result of the wait on the writer mutex.
pub fn classify_writer_wait(wait_result: u32) -> (disposition: WriterLeaseDisposition)
    ensures
        disposition == spec_classify_writer_wait(wait_result),
{
    if wait_result == WAIT_OBJECT_0_RAW || wait_result == WAIT_ABANDONED_RAW {
        WriterLeaseDisposition::Acquired
    } else if wait_result == WAIT_TIMEOUT_RAW {
        WriterLeaseDisposition::Busy
    } else {
        WriterLeaseDisposition::Failed(wait_result)
    }
}

/// The header words as one read observed them.
#[derive(Debug, Clone, Copy, PartialEq, Eq, Structural)]
pub struct RawHeaderSnapshot {
    pub magic: u32,
    pub version: u32,
    pub header_bytes: u32,
    pub width: u32,
    pub height: u32,
    pub fps_num: u32,
    pub fps_den: u32,
    pub frame_bytes: u32,
    pub seq: u32,
    pub ready: u32,
}

/// A header that passed validation.
#[derive(Debug, Clone, Copy, PartialEq, Eq, Structural)]
pub struct ValidatedHeaderSnapshot {
    pub width: u32,
    pub height: u32,
    pub fps_num: u32,
    pub fps_den: u32,
    pub frame_bytes: u32,
    pub seq: u32,
    pub ready: bool,
}

/// Why a header read was refused.
#[derive(Debug, Clone, Copy, PartialEq, Eq, Structural)]
pub enum HeaderReadError {
    /// A writer was in the middle of an update (odd sequence).
    WriterActive,
    /// The sequence moved while the header was read: the read is torn.
    SequenceChanged,
    /// The header does not describe a valid NV12 layout.
    InvalidLayout,
}

/// Whether a snapshot describes a valid layout: the magic word, version and
/// header size match, both dimensions are even, nonzero and within the
/// maxima, the frame rate has a nonzero numerator and denominator, the ready
/// flag is 0 or 1, and the frame size is that of an NV12 frame.
pub open spec fn layout_is_valid(snapshot: RawHeaderSnapshot) -> bool {
    &&& snapshot.magic == SHM_MAGIC
    &&& snapshot.version == SHM_VERSION
    &&& snapshot.header_bytes == HEADER_SIZE
    &&& 0 < snapshot.width <= MAX_WIDTH
    &&& 0 < snapshot.height <= MAX_HEIGHT
    &&& snapshot.width % 2 == 0
    &&& snapshot.height % 2 == 0
    &&& snapshot.fps_num != 0
    &&& snapshot.fps_den != 0
    &&& snapshot.ready <= 1
    &&& snapshot.frame_bytes == snapshot.width * snapshot.height * 3 / 2
}

/// The validated copy of a snapshot.
pub open spec fn validated_copy(snapshot: RawHeaderSnapshot) -> ValidatedHeaderSnapshot {
    ValidatedHeaderSnapshot {
        width: snapshot.width,
        height: snapshot.height,
        fps_num: snapshot.fps_num,
        fps_den: snapshot.fps_den,
        frame_bytes: snapshot.frame_bytes,
        seq: snapshot.seq,
        ready: snapshot.ready != 0,
    }
}

/// The outcome of a seqlock read of the header: the sequence read before
/// must be even (no writer active), the snapshot and the sequence read after
/// must carry that same sequence, and the layout must be valid.
pub open spec fn spec_validate_stable_header(
    seq_before: u32,
    snapshot: RawHeaderSnapshot,
    seq_after: u32,
) -> Result<ValidatedHeaderSnapshot, HeaderReadError> {
    if seq_before % 2 != 0 {
        Err(HeaderReadError::WriterActive)
    } else if snapshot.seq != seq_before || seq_after != seq_before {
        Err(HeaderReadError::SequenceChanged)
    } else if !layout_is_valid(snapshot) {
        Err(HeaderReadError::InvalidLayout)
    } else {
        Ok(validated_copy(snapshot))
    }
}

/// Validate a header read between two reads of its sequence word.
pub fn validate_stable_header(
    seq_before: u32,
    snapshot: RawHeaderSnapshot,
    seq_after: u32,
) -> (result: Result<ValidatedHeaderSnapshot, HeaderReadError>)
    ensures
        result == spec_validate_stable_header(seq_before, snapshot, seq_after),
        result matches Ok(validated) ==> validated.frame_bytes <= MAX_FRAME_SIZE,
{
    if seq_before % 2 != 0 {
        return Err(HeaderReadError::WriterActive);
    }
    if snapshot.seq != seq_before || seq_after != seq_before {
        return Err(HeaderReadError::SequenceChanged);
    }
    if snapshot.magic != SHM_MAGIC || snapshot.version != SHM_VERSION || snapshot.header_bytes
        != HEADER_SIZE as u32 || snapshot.width == 0 || snapshot.height == 0 || snapshot.width % 2
        != 0 || snapshot.height % 2 != 0 || snapshot.width > MAX_WIDTH || snapshot.height
        > MAX_HEIGHT || snapshot.fps_num == 0 || snapshot.fps_den == 0 || snapshot.ready > 1 {
        return Err(HeaderReadError::InvalidLayout);
    }
    let width = snapshot.width as u64;
    let height = snapshot.height as u64;
    assert(width * height <= 4096 * 2160) by (nonlinear_arith)
        requires
            width <= 4096,
            height <= 2160,
    ;
    let expected_frame_bytes = width * height * 3 / 2;
    if expected_frame_bytes != snapshot.frame_bytes as u64 || expected_frame_bytes
        > MAX_FRAME_SIZE as u64 {
        return Err(HeaderReadError::InvalidLayout);
    }
    Ok(
        ValidatedHeaderSnapshot {
            width: snapshot.width,
            height: snapshot.height,
            fps_num: snapshot.fps_num,
            fps_den: snapshot.fps_den,
            frame_bytes: snapshot.frame_bytes,
            seq: snapshot.seq,
            ready: snapshot.ready != 0,
        },
    )
}

} // verus!

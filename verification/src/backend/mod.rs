//! Platform backends: their kinds, the catalogue of available ones, and the
//! decisions each transport makes.
use vstd::prelude::*;

use crate::error::VirtualCamError;
use crate::pixel_format::PixelFormat;
use crate::text::{
    ascii_lowercase, equals_ignoring_ascii_case, join, joined, lemma_ascii_lowercase_idempotent,
};

pub mod cuda;
pub mod media_foundation;
pub mod media_foundation_contract;
pub mod obs;
pub mod unity_capture;
pub mod v4l2;

verus! {

/// A platform backend selected explicitly or through [`BackendKind::Auto`].
#[derive(Debug, Clone, Copy, PartialEq, Eq, Structural, Hash)]
pub enum BackendKind {
    Auto,
    MediaFoundation,
    Obs,
    V4l2,
}

/// The name of a backend kind.
pub open spec fn spec_kind_name(kind: BackendKind) -> Seq<char> {
    match kind {
        BackendKind::Auto => "auto"@,
        BackendKind::MediaFoundation => "media-foundation"@,
        BackendKind::Obs => "obs"@,
        BackendKind::V4l2 => "v4l2"@,
    }
}

/// The backend kind a name selects, ignoring ASCII case; `mf` and `vcam` name
/// Media Foundation and `v4l2loopback` names V4L2.
pub open spec fn spec_parse_kind(name: Seq<char>) -> Option<BackendKind> {
    let l = ascii_lowercase(name);
    if l == "auto"@ {
        Some(BackendKind::Auto)
    } else if l == "media-foundation"@ || l == "mf"@ || l == "vcam"@ {
        Some(BackendKind::MediaFoundation)
    } else if l == "obs"@ {
        Some(BackendKind::Obs)
    } else if l == "v4l2"@ || l == "v4l2loopback"@ {
        Some(BackendKind::V4l2)
    } else {
        None
    }
}

impl BackendKind {
    /// The name of this backend kind.
    pub fn as_str(self) -> (name: &'static str)
        ensures
            name@ == spec_kind_name(self),
    {
        match self {
            BackendKind::Auto => "auto",
            BackendKind::MediaFoundation => "media-foundation",
            BackendKind::Obs => "obs",
            BackendKind::V4l2 => "v4l2",
        }
    }

    /// The backend kind named by `value` (ASCII case ignored); an unknown name
    /// is a `BackendNotAvailable` error carrying the name.
    pub fn parse_name(value: &str) -> (kind: Result<BackendKind, VirtualCamError>)
        ensures
            spec_parse_kind(value@) matches Some(k) ==> kind == Ok::<BackendKind, VirtualCamError>(
                k,
            ),
            spec_parse_kind(value@) is None ==> (kind matches Err(
                VirtualCamError::BackendNotAvailable(name),
            ) && name@ == value@),
    {
        if equals_ignoring_ascii_case(value, "auto") {
            Ok(BackendKind::Auto)
        } else if equals_ignoring_ascii_case(value, "media-foundation") || equals_ignoring_ascii_case(
            value,
            "mf",
        ) || equals_ignoring_ascii_case(value, "vcam") {
            Ok(BackendKind::MediaFoundation)
        } else if equals_ignoring_ascii_case(value, "obs") {
            Ok(BackendKind::Obs)
        } else if equals_ignoring_ascii_case(value, "v4l2") || equals_ignoring_ascii_case(
            value,
            "v4l2loopback",
        ) {
            Ok(BackendKind::V4l2)
        } else {
            Err(VirtualCamError::BackendNotAvailable(value.to_owned()))
        }
    }
}

impl Default for BackendKind {
    fn default() -> (kind: Self)
        ensures
            kind == BackendKind::Auto,
    {
        BackendKind::Auto
    }
}

impl std::str::FromStr for BackendKind {
    type Err = VirtualCamError;

    fn from_str(value: &str) -> (kind: Result<Self, VirtualCamError>)
        ensures
            spec_parse_kind(value@) matches Some(k) ==> kind == Ok::<BackendKind, VirtualCamError>(
                k,
            ),
            spec_parse_kind(value@) is None ==> (kind matches Err(
                VirtualCamError::BackendNotAvailable(name),
            ) && name@ == value@),
    {
        BackendKind::parse_name(value)
    }
}

/// The name of every backend kind selects that kind again.
pub proof fn lemma_kind_name_roundtrip(kind: BackendKind)
    ensures
        spec_parse_kind(spec_kind_name(kind)) == Some(kind),
{
    reveal_strlit("auto");
    reveal_strlit("media-foundation");
    reveal_strlit("mf");
    reveal_strlit("vcam");
    reveal_strlit("obs");
    reveal_strlit("v4l2");
    reveal_strlit("v4l2loopback");
    let name = spec_kind_name(kind);
    assert(ascii_lowercase(name) =~= name);
    match kind {
        BackendKind::Auto => {},
        BackendKind::MediaFoundation => {
            assert(name.len() != "auto"@.len());
        },
        BackendKind::Obs => {
            assert(name.len() != "auto"@.len());
            assert(name.len() != "media-foundation"@.len());
            assert(name.len() != "mf"@.len());
            assert(name.len() != "vcam"@.len());
        },
        BackendKind::V4l2 => {
            assert(name[0] != "auto"@[0]);
            assert(name.len() != "media-foundation"@.len());
            assert(name.len() != "mf"@.len());
            assert(name[1] != "vcam"@[1]);
            assert(name.len() != "obs"@.len());
        },
    }
}

/// Parsing a backend name ignores ASCII case: a name selects what its
/// lowercase form selects, so two names that differ only in the case of their
/// ASCII letters select the same kind (or are both refused).
pub proof fn lemma_parse_kind_ignores_ascii_case(a: Seq<char>, b: Seq<char>)
    requires
        ascii_lowercase(a) == ascii_lowercase(b),
    ensures
        spec_parse_kind(a) == spec_parse_kind(ascii_lowercase(a)),
        spec_parse_kind(a) == spec_parse_kind(b),
{
    lemma_ascii_lowercase_idempotent(a);
}

/// Every spelling of a backend kind's name, in any mix of ASCII upper and
/// lower case (such as `V4L2` or `Obs`), selects that kind.
pub proof fn lemma_kind_name_any_case(name: Seq<char>, kind: BackendKind)
    requires
        ascii_lowercase(name) == spec_kind_name(kind),
    ensures
        spec_parse_kind(name) == Some(kind),
{
    lemma_kind_name_roundtrip(kind);
    lemma_parse_kind_ignores_ascii_case(name, name);
}

/// A platform transport that a camera sends its frames through.
pub trait Backend: Send {
    /// The name of the transport.
    fn name(&self) -> &'static str;

    /// The device the transport writes to.
    fn device(&self) -> &str;

    /// The pixel format the transport takes.
    fn native_format(&self) -> PixelFormat;

    /// The width and height of the frames the transport takes.
    fn native_dimensions(&self) -> (u32, u32);

    /// Send one frame in the native format.
    fn send(&mut self, frame: &[u8]) -> Result<(), VirtualCamError>;

    /// Release the device.
    fn close(&mut self) -> Result<(), VirtualCamError>;

    /// Whether the device is still held.
    fn is_open(&self) -> bool;
}

/// A backend that this machine offers, as `available_backends` reports it.
#[derive(Debug, Clone)]
pub struct BackendInfo {
    pub kind: BackendKind,
    pub name: &'static str,
    pub description: &'static str,
    pub default_device: &'static str,
    pub native_format: PixelFormat,
}

/// Whether `info` holds the catalogue entry of its kind.
pub open spec fn describes_kind(info: BackendInfo) -> bool {
    match info.kind {
        BackendKind::MediaFoundation => {
            &&& info.name@ == "media-foundation"@
            &&& info.description@ == "VCam Windows Media Foundation camera"@
            &&& info.default_device@ == "VCam"@
            &&& info.native_format == PixelFormat::NV12
        },
        BackendKind::Obs => {
            &&& info.name@ == "obs"@
            &&& info.description@ == "OBS Virtual Camera shared-memory transport"@
            &&& info.default_device@ == "OBS Virtual Camera"@
            &&& info.native_format == PixelFormat::NV12
        },
        BackendKind::V4l2 => {
            &&& info.name@ == "v4l2"@
            &&& info.description@ == "v4l2loopback mmap streaming"@
            &&& info.default_device@ == "/dev/video10"@
            &&& info.native_format == PixelFormat::RGB
        },
        BackendKind::Auto => false,
    }
}

/// The kinds offered, in the order of automatic selection: Media Foundation,
/// OBS, V4L2.
pub open spec fn available_kinds(media_foundation: bool, obs: bool, v4l2: bool) -> Seq<
    BackendKind,
> {
    (if media_foundation {
        seq![BackendKind::MediaFoundation]
    } else {
        Seq::empty()
    }) + (if obs {
        seq![BackendKind::Obs]
    } else {
        Seq::empty()
    }) + (if v4l2 {
        seq![BackendKind::V4l2]
    } else {
        Seq::empty()
    })
}

/// The backends this machine offers, given which transports were found usable
/// (Media Foundation, OBS, V4L2), in the order of automatic selection.
pub fn available_backends(media_foundation: bool, obs: bool, v4l2: bool) -> (backends: Vec<
    BackendInfo,
>)
    ensures
        backends@.map_values(|b: BackendInfo| b.kind) == available_kinds(
            media_foundation,
            obs,
            v4l2,
        ),
        forall|i: int| 0 <= i < backends@.len() ==> describes_kind(#[trigger] backends@[i]),
{
    let mut backends: Vec<BackendInfo> = Vec::new();
    if media_foundation {
        backends.push(
            BackendInfo {
                kind: BackendKind::MediaFoundation,
                name: "media-foundation",
                description: "VCam Windows Media Foundation camera",
                default_device: "VCam",
                native_format: PixelFormat::NV12,
            },
        );
    }
    if obs {
        backends.push(
            BackendInfo {
                kind: BackendKind::Obs,
                name: "obs",
                description: "OBS Virtual Camera shared-memory transport",
                default_device: "OBS Virtual Camera",
                native_format: PixelFormat::NV12,
            },
        );
    }
    if v4l2 {
        backends.push(
            BackendInfo {
                kind: BackendKind::V4l2,
                name: "v4l2",
                description: "v4l2loopback mmap streaming",
                default_device: "/dev/video10",
                native_format: PixelFormat::RGB,
            },
        );
    }
    assert(backends@.map_values(|b: BackendInfo| b.kind) =~= available_kinds(
        media_foundation,
        obs,
        v4l2,
    ));
    backends
}

/// The backends a request tries, in order: for `Auto` every offered backend
/// in the order of automatic selection, for any other kind that kind alone.
pub open spec fn spec_selection_candidates(requested: BackendKind, offered: Seq<BackendKind>) -> Seq<
    BackendKind,
> {
    if requested == BackendKind::Auto {
        offered
    } else {
        seq![requested]
    }
}

/// The kinds of backend a request for `requested` tries, in order, given the
/// backends this machine offers.
pub fn selection_candidates(requested: BackendKind, offered: &Vec<BackendInfo>) -> (candidates: Vec<
    BackendKind,
>)
    ensures
        candidates@ == spec_selection_candidates(
            requested,
            offered@.map_values(|b: BackendInfo| b.kind),
        ),
{
    let mut candidates: Vec<BackendKind> = Vec::new();
    if requested != BackendKind::Auto {
        candidates.push(requested);
        assert(candidates@ =~= seq![requested]);
        return candidates;
    }
    let mut i: usize = 0;
    while i < offered.len()
        invariant
            requested == BackendKind::Auto,
            i <= offered@.len(),
            candidates@ == offered@.map_values(|b: BackendInfo| b.kind).take(i as int),
        decreases offered@.len() - i,
    {
        candidates.push(offered[i].kind);
        assert(candidates@ =~= offered@.map_values(|b: BackendInfo| b.kind).take(i + 1));
        i += 1;
    }
    assert(offered@.map_values(|b: BackendInfo| b.kind).take(offered@.len() as int)
        =~= offered@.map_values(|b: BackendInfo| b.kind));
    candidates
}

/// Only `Auto` falls back: an explicit request tries exactly the kind asked
/// for, whatever is offered, and `Auto` tries the offered backends in the
/// order Media Foundation, OBS, V4L2.
pub proof fn lemma_only_auto_falls_back(
    requested: BackendKind,
    media_foundation: bool,
    obs: bool,
    v4l2: bool,
)
    ensures
        requested != BackendKind::Auto ==> spec_selection_candidates(
            requested,
            available_kinds(media_foundation, obs, v4l2),
        ) == seq![requested],
        requested == BackendKind::Auto ==> spec_selection_candidates(
            requested,
            available_kinds(media_foundation, obs, v4l2),
        ) == available_kinds(media_foundation, obs, v4l2),
{
}

/// The error of automatic selection once every offered backend was tried:
/// with no backend offered, `V4l2LoopbackNotFound` where V4L2 is the platform
/// transport and `NoDeviceFound` elsewhere; otherwise `InitializationFailed`
/// with the failures joined by "; ".
pub fn fallback_error(loopback_platform: bool, failures: &Vec<String>) -> (error: VirtualCamError)
    ensures
        failures@.len() == 0 && loopback_platform ==> error matches VirtualCamError::V4l2LoopbackNotFound,
        failures@.len() == 0 && !loopback_platform ==> error matches VirtualCamError::NoDeviceFound,
        failures@.len() > 0 ==> (error matches VirtualCamError::InitializationFailed(message)
            && message@ == joined(failures@.map_values(|f: String| f@), "; "@)),
{
    if failures.len() == 0 {
        if loopback_platform {
            VirtualCamError::V4l2LoopbackNotFound
        } else {
            VirtualCamError::NoDeviceFound
        }
    } else {
        VirtualCamError::InitializationFailed(join(failures, "; "))
    }
}

} // verus!

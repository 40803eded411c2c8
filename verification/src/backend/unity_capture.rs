//! The Unity Video Capture transport: where its devices are registered, how
//! a device is chosen and marked in use, and the header of its shared frame.
use vstd::prelude::*;

use vstd::string::StringExecFns;

use crate::error::VirtualCamError;
use crate::text::{append_decimal, append_hex, decimal, hex_digits, str_equal};

verus! {

/// The registry path of the device classes, up to the last byte of the CLSID.
pub const UNITY_CAPTURE_CLSID_BASE: &'static str = "CLSID\\{5C2CD55C-92AD-4999-8666-912BD3E700";

/// Prefix of the name of a device's shared mapping.
pub const UNITY_SHM_PREFIX: &'static str = "UnityCapture_";

/// Number of device slots that are searched.
pub const MAX_DEVICES: u32 = 10;

/// Size of the header before the frame in the shared mapping: eight 32-bit
/// words and a 64-bit frame counter.
pub const SHARED_HEADER_SIZE: usize = 40;

/// The name of the device backend, under which frames are flipped.
pub const BACKEND_NAME: &'static str = "unitycapture";

/// The last byte of the CLSID of device `index`: from 0x10 for 64-bit
/// builds and from 0x20 for 32-bit ones.
pub open spec fn clsid_last_byte(index: u32, wide_pointers: bool) -> nat {
    if wide_pointers {
        (0x10 + index) as nat
    } else {
        (0x20 + index) as nat
    }
}

/// The registry path of device `index`; the last byte of the CLSID is
/// written with two hexadecimal digits, which are decimal digits for every
/// device slot.
pub open spec fn spec_clsid_path(index: u32, wide_pointers: bool) -> Seq<char> {
    UNITY_CAPTURE_CLSID_BASE@ + hex_digits(clsid_last_byte(index, wide_pointers), 2) + "}"@
}

/// The registry path under which device `index` is registered.
pub fn clsid_path(index: u32, wide_pointers: bool) -> (path: String)
    requires
        index < MAX_DEVICES,
    ensures
        path@ == spec_clsid_path(index, wide_pointers),
{
    let mut path = String::new();
    path.append(UNITY_CAPTURE_CLSID_BASE);
    let last = if wide_pointers {
        0x10 + index
    } else {
        0x20 + index
    };
    append_hex(&mut path, last as u64, 2);
    path.append("}");
    path
}

/// The name of device `index` when the registry gives none.
pub fn default_device_name(index: u32) -> (name: String)
    ensures
        name@ == "Unity Video Capture #"@ + decimal(index as nat),
{
    let mut name = String::new();
    name.append("Unity Video Capture #");
    append_decimal(&mut name, index as u64);
    name
}

/// The name of the shared mapping of device `index`.
pub fn shared_memory_name(index: usize) -> (name: String)
    ensures
        name@ == UNITY_SHM_PREFIX@ + decimal(index as nat),
{
    let mut name = String::new();
    name.append(UNITY_SHM_PREFIX);
    append_decimal(&mut name, index as u64);
    name
}

/// The names of a list of strings.
pub open spec fn names(list: Seq<String>) -> Seq<Seq<char>> {
    list.map_values(|s: String| s@)
}

/// The device that a camera gets, and the devices in use after it got it:
/// a named device must be registered and not in use; without a name the
/// first registered device not in use is taken. Either way the device joins
/// the devices in use.
pub open spec fn chosen_device_ok(
    devices: Seq<Seq<char>>,
    requested: Option<Seq<char>>,
    in_use: Seq<Seq<char>>,
    name: Seq<char>,
    index: int,
) -> bool {
    &&& 0 <= index < devices.len()
    &&& devices[index] == name
    &&& !in_use.contains(name)
    &&& match requested {
        Some(r) => r == name && forall|j: int| 0 <= j < index ==> devices[j] != name,
        None => forall|j: int| 0 <= j < index ==> in_use.contains(#[trigger] devices[j]),
    }
}

/// Whether `x` occurs in a list of strings.
fn contains_name(list: &Vec<String>, x: &str) -> (found: bool)
    ensures
        found == names(list@).contains(x@),
{
    let mut i: usize = 0;
    while i < list.len()
        invariant
            i <= list@.len(),
            forall|j: int| 0 <= j < i ==> list@[j]@ != x@,
        decreases list@.len() - i,
    {
        if str_equal(list[i].as_str(), x) {
            assert(names(list@)[i as int] == x@);
            return true;
        }
        i += 1;
    }
    proof {
        if names(list@).contains(x@) {
            let j = choose|j: int| 0 <= j < names(list@).len() && names(list@)[j] == x@;
            assert(list@[j]@ == x@);
        }
    }
    false
}

/// The first position of `x` in a list of strings.
fn position_of(list: &Vec<String>, x: &str) -> (position: Option<usize>)
    ensures
        match position {
            Some(i) => i < list@.len() && list@[i as int]@ == x@ && forall|j: int|
                0 <= j < i ==> list@[j]@ != x@,
            None => !names(list@).contains(x@),
        },
{
    let mut i: usize = 0;
    while i < list.len()
        invariant
            i <= list@.len(),
            forall|j: int| 0 <= j < i ==> list@[j]@ != x@,
        decreases list@.len() - i,
    {
        if str_equal(list[i].as_str(), x) {
            return Some(i);
        }
        i += 1;
    }
    proof {
        if names(list@).contains(x@) {
            let j = choose|j: int| 0 <= j < names(list@).len() && names(list@)[j] == x@;
            assert(list@[j]@ == x@);
        }
    }
    None
}

/// The first position of a device that is not in use.
fn first_free(devices: &Vec<String>, in_use: &Vec<String>) -> (position: Option<usize>)
    ensures
        match position {
            Some(i) => i < devices@.len() && !names(in_use@).contains(devices@[i as int]@)
                && forall|j: int|
                0 <= j < i ==> names(in_use@).contains(#[trigger] names(devices@)[j]),
            None => forall|j: int|
                0 <= j < devices@.len() ==> names(in_use@).contains(#[trigger] names(devices@)[j]),
        },
{
    let mut i: usize = 0;
    while i < devices.len()
        invariant
            i <= devices@.len(),
            forall|j: int| 0 <= j < i ==> names(in_use@).contains(#[trigger] names(devices@)[j]),
        decreases devices@.len() - i,
    {
        if !contains_name(in_use, devices[i].as_str()) {
            return Some(i);
        }
        i += 1;
    }
    None
}

/// Choose the device for a camera among the registered `devices`, given the
/// devices already in use, and mark it in use.
pub fn choose_device(devices: &Vec<String>, requested: Option<&str>, in_use: &mut Vec<String>) -> (chosen:
    Result<(String, usize), VirtualCamError>)
    ensures
        devices@.len() == 0 ==> (chosen matches Err(VirtualCamError::DeviceNotFound(m)) && m@
            == "Unity Video Capture is not installed"@),
        match chosen {
            Ok((name, index)) => {
                &&& chosen_device_ok(
                    names(devices@),
                    match requested {
                        Some(r) => Some(r@),
                        None => None,
                    },
                    names(old(in_use)@),
                    name@,
                    index as int,
                )
                &&& names(final(in_use)@) == names(old(in_use)@).push(name@)
            },
            Err(_) => names(final(in_use)@) == names(old(in_use)@),
        },
        devices@.len() > 0 ==> match requested {
            Some(r) => {
                &&& !names(devices@).contains(r@) ==> (chosen matches Err(
                    VirtualCamError::DeviceNotFound(m),
                ) && m@ == r@)
                &&& names(devices@).contains(r@) && names(old(in_use)@).contains(r@) ==> (
                chosen matches Err(VirtualCamError::DeviceInUse(m)) && m@ == r@)
                &&& names(devices@).contains(r@) && !names(old(in_use)@).contains(r@) ==> (
                chosen is Ok)
            },
            None => {
                &&& (forall|j: int|
                    0 <= j < devices@.len() ==> names(old(in_use)@).contains(
                        #[trigger] names(devices@)[j],
                    )) ==> (chosen matches Err(VirtualCamError::NoDeviceFound))
                &&& !(forall|j: int|
                    0 <= j < devices@.len() ==> names(old(in_use)@).contains(
                        #[trigger] names(devices@)[j],
                    )) ==> (chosen is Ok)
            },
        },
{
    if devices.len() == 0 {
        return Err(VirtualCamError::DeviceNotFound("Unity Video Capture is not installed".to_owned()));
    }
    match requested {
        Some(r) => {
            let i = match position_of(devices, r) {
                Some(i) => i,
                None => {
                    return Err(VirtualCamError::DeviceNotFound(r.to_owned()));
                },
            };
            assert(names(devices@)[i as int] == r@);
            if contains_name(in_use, r) {
                return Err(VirtualCamError::DeviceInUse(r.to_owned()));
            }
            let name = r.to_owned();
            in_use.push(name.clone());
            assert(names(in_use@) =~= names(old(in_use)@).push(name@));
            Ok((name, i))
        },
        None => {
            let i = match first_free(devices, in_use) {
                Some(i) => i,
                None => {
                    return Err(VirtualCamError::NoDeviceFound);
                },
            };
            let name = devices[i].clone();
            assert(names(devices@)[i as int] == name@);
            in_use.push(name.clone());
            assert(names(in_use@) =~= names(old(in_use)@).push(name@));
            Ok((name, i))
        },
    }
}

/// A list of names without `x`.
pub open spec fn without(list: Seq<Seq<char>>, x: Seq<char>) -> Seq<Seq<char>>
    decreases list.len(),
{
    if list.len() == 0 {
        Seq::empty()
    } else if list.last() == x {
        without(list.drop_last(), x)
    } else {
        without(list.drop_last(), x).push(list.last())
    }
}

/// Mark device `name` no longer in use.
pub fn release_device(in_use: &mut Vec<String>, name: &str)
    ensures
        names(final(in_use)@) == without(names(old(in_use)@), name@),
{
    let mut kept: Vec<String> = Vec::new();
    let mut i: usize = 0;
    while i < in_use.len()
        invariant
            i <= in_use@.len(),
            names(kept@) == without(names(in_use@).take(i as int), name@),
        decreases in_use@.len() - i,
    {
        assert(names(in_use@).take(i + 1).drop_last() =~= names(in_use@).take(i as int));
        if !str_equal(in_use[i].as_str(), name) {
            kept.push(in_use[i].clone());
            assert(names(kept@) =~= without(names(in_use@).take(i as int), name@).push(
                in_use@[i as int]@,
            ));
        }
        i += 1;
    }
    assert(names(in_use@).take(in_use@.len() as int) =~= names(in_use@));
    *in_use = kept;
}

/// A list without a name it does not hold is the list itself.
proof fn lemma_without_absent(list: Seq<Seq<char>>, x: Seq<char>)
    requires
        !list.contains(x),
    ensures
        without(list, x) == list,
    decreases list.len(),
{
    if list.len() > 0 {
        assert(!list.drop_last().contains(x)) by {
            if list.drop_last().contains(x) {
                let j = choose|j: int| 0 <= j < list.drop_last().len() && list.drop_last()[j] == x;
                assert(list[j] == x);
            }
        }
        lemma_without_absent(list.drop_last(), x);
        assert(list.last() != x) by {
            assert(list[list.len() - 1] == list.last());
        }
        assert(list.drop_last().push(list.last()) =~= list);
    }
}

/// Releasing the device that a camera was just given leaves the devices in
/// use as they were before it got it.
pub proof fn lemma_release_undoes_choice(in_use: Seq<Seq<char>>, name: Seq<char>)
    requires
        !in_use.contains(name),
    ensures
        without(in_use.push(name), name) == in_use,
{
    assert(in_use.push(name).drop_last() =~= in_use);
    lemma_without_absent(in_use, name);
}

/// The header a producer writes before the first frame.
#[derive(Debug, Clone, Copy, PartialEq, Eq, Structural)]
pub struct SharedHeader {
    pub width: u32,
    pub height: u32,
    pub stride: u32,
    pub data_size: u32,
    pub format: u32,
    pub resize_mode: u32,
    pub mirror_mode: u32,
    pub timeout: u32,
    pub frame_counter: u64,
}

/// Whether the size of an RGBA frame of `width` x `height` and the size of
/// its rows fit in a `u32`.
pub open spec fn frame_fits(width: u32, height: u32) -> bool {
    &&& width * 4 <= u32::MAX
    &&& width * height * 4 <= u32::MAX
}

/// The header for RGBA frames of `width` x `height`: rows of `4 * width`
/// bytes, linear resizing, no mirroring, a one-second timeout and no frame yet.
pub fn initial_header(width: u32, height: u32) -> (header: SharedHeader)
    requires
        frame_fits(width, height),
    ensures
        header == (SharedHeader {
            width,
            height,
            stride: (width * 4) as u32,
            data_size: (width * height * 4) as u32,
            format: 0,
            resize_mode: 1,
            mirror_mode: 0,
            timeout: 1000,
            frame_counter: 0,
        }),
{
    let stride = width * 4;
    SharedHeader {
        width,
        height,
        stride,
        data_size: width * height * 4,
        format: 0,
        resize_mode: 1,
        mirror_mode: 0,
        timeout: 1000,
        frame_counter: 0,
    }
}

/// The size of the shared mapping: the header, then one RGBA frame.
pub fn shared_memory_size(width: u32, height: u32) -> (size: usize)
    requires
        frame_fits(width, height),
        SHARED_HEADER_SIZE + width * height * 4 <= usize::MAX,
    ensures
        size == SHARED_HEADER_SIZE + width * height * 4,
{
    SHARED_HEADER_SIZE + (width * height * 4) as usize
}

} // verus!

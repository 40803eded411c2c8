use virtualcam::backend::unity_capture::{
    choose_device, clsid_path, default_device_name, initial_header, release_device,
    shared_memory_name, shared_memory_size,
};
use virtualcam::VirtualCamError;

fn strings(items: &[&str]) -> Vec<String> {
    items.iter().map(|s| s.to_string()).collect()
}

#[test]
fn devices_are_registered_under_consecutive_clsids() {
    assert_eq!(clsid_path(0, true), "CLSID\\{5C2CD55C-92AD-4999-8666-912BD3E70010}");
    assert_eq!(clsid_path(9, true), "CLSID\\{5C2CD55C-92AD-4999-8666-912BD3E70019}");
    assert_eq!(clsid_path(3, false), "CLSID\\{5C2CD55C-92AD-4999-8666-912BD3E70023}");
    assert_eq!(default_device_name(4), "Unity Video Capture #4");
    assert_eq!(shared_memory_name(2), "UnityCapture_2");
}

#[test]
fn the_first_free_device_is_taken_and_marked() {
    let devices = strings(&["A", "B", "C"]);
    let mut in_use = strings(&["A"]);
    let (name, index) = choose_device(&devices, None, &mut in_use).unwrap();
    assert_eq!((name.as_str(), index), ("B", 1));
    assert_eq!(in_use, strings(&["A", "B"]));
}

#[test]
fn a_named_device_must_exist_and_be_free() {
    let devices = strings(&["A", "B"]);
    let mut in_use = strings(&["B"]);
    assert_eq!(choose_device(&devices, Some("A"), &mut in_use).unwrap(), ("A".to_string(), 0));
    assert_eq!(in_use, strings(&["B", "A"]));
    match choose_device(&devices, Some("B"), &mut in_use) {
        Err(VirtualCamError::DeviceInUse(name)) => assert_eq!(name, "B"),
        other => panic!("unexpected {other:?}"),
    }
    match choose_device(&devices, Some("Z"), &mut in_use) {
        Err(VirtualCamError::DeviceNotFound(name)) => assert_eq!(name, "Z"),
        other => panic!("unexpected {other:?}"),
    }
    assert_eq!(in_use, strings(&["B", "A"]));
}

#[test]
fn no_free_or_no_installed_device_is_an_error() {
    let devices = strings(&["A"]);
    let mut in_use = strings(&["A"]);
    assert!(matches!(choose_device(&devices, None, &mut in_use), Err(VirtualCamError::NoDeviceFound)));
    let mut none_in_use = Vec::new();
    match choose_device(&Vec::new(), None, &mut none_in_use) {
        Err(VirtualCamError::DeviceNotFound(message)) => {
            assert_eq!(message, "Unity Video Capture is not installed")
        }
        other => panic!("unexpected {other:?}"),
    }
}

#[test]
fn releasing_a_device_undoes_its_choice() {
    let devices = strings(&["A", "B"]);
    let before = strings(&["A", "X"]);
    let mut in_use = before.clone();
    let (name, _) = choose_device(&devices, None, &mut in_use).unwrap();
    release_device(&mut in_use, &name);
    assert_eq!(in_use, before);
    let mut doubled = strings(&["A", "B", "A"]);
    release_device(&mut doubled, "A");
    assert_eq!(doubled, strings(&["B"]));
}

#[test]
fn the_shared_header_describes_rgba_frames() {
    let header = initial_header(640, 480);
    assert_eq!((header.width, header.height, header.stride), (640, 480, 2560));
    assert_eq!(header.data_size, 640 * 480 * 4);
    assert_eq!((header.format, header.resize_mode, header.mirror_mode), (0, 1, 0));
    assert_eq!((header.timeout, header.frame_counter), (1000, 0));
    assert_eq!(shared_memory_size(640, 480), 40 + 640 * 480 * 4);
}

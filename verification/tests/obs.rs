use virtualcam::backend::obs::{
    align_size, check_request, claim_slot, queue_layout, ticks_to_100ns, DEVICE_NAME,
    FRAME_HEADER_SIZE, QUEUE_HEADER_SIZE,
};
use virtualcam::VirtualCamError;

#[test]
fn sizes_align_to_32_bytes() {
    assert_eq!(align_size(0), 0);
    assert_eq!(align_size(1), 32);
    assert_eq!(align_size(32), 32);
    assert_eq!(align_size(QUEUE_HEADER_SIZE), 96);
}

#[test]
fn queue_layout_places_three_aligned_slots() {
    let layout = queue_layout(2, 2).unwrap();
    assert_eq!(layout.frame_size, 6);
    assert_eq!(layout.offsets, [96, 160, 224]);
    assert_eq!(layout.mapping_size, 288);

    let hd = queue_layout(1920, 1080).unwrap();
    let frame = 1920 * 1080 * 3 / 2;
    assert_eq!(hd.frame_size, frame);
    assert_eq!(hd.offsets[0], 96);
    assert_eq!(hd.offsets[1] as usize, align_size(96 + FRAME_HEADER_SIZE + frame));
    assert_eq!(hd.offsets[2] as usize, align_size(hd.offsets[1] as usize + FRAME_HEADER_SIZE + frame));
    assert_eq!(hd.mapping_size as usize, align_size(hd.offsets[2] as usize + FRAME_HEADER_SIZE + frame));
}

#[test]
fn queue_layout_refuses_mappings_beyond_four_gigabytes() {
    assert!(matches!(
        queue_layout(65536, 65536),
        Err(VirtualCamError::InvalidDimensions(65536, 65536))
    ));
    assert!(matches!(
        queue_layout(u32::MAX, u32::MAX),
        Err(VirtualCamError::InvalidDimensions(_, _))
    ));
    assert!(queue_layout(32000, 32000).is_err());
    assert!(queue_layout(30000, 30000).is_ok());
}

#[test]
fn requests_name_the_obs_device_and_even_dimensions() {
    assert!(check_request(1280, 720, None).is_ok());
    assert!(check_request(1280, 720, Some(DEVICE_NAME)).is_ok());
    match check_request(1280, 720, Some("obs virtual camera")) {
        Err(VirtualCamError::DeviceNotFound(name)) => assert_eq!(name, "obs virtual camera"),
        other => panic!("unexpected {other:?}"),
    }
    assert!(matches!(
        check_request(1281, 720, None),
        Err(VirtualCamError::InvalidDimensions(1281, 720))
    ));
    assert!(matches!(
        check_request(1281, 720, Some("x")),
        Err(VirtualCamError::DeviceNotFound(_))
    ));
}

#[test]
fn frames_rotate_through_the_three_slots() {
    assert_eq!(claim_slot(0), (1, 1));
    assert_eq!(claim_slot(1), (2, 2));
    assert_eq!(claim_slot(2), (3, 0));
    assert_eq!(claim_slot(u32::MAX), (0, 0));
    let mut index = 0;
    let mut previous_slot = 0;
    for _ in 0..10 {
        let (next, slot) = claim_slot(index);
        assert_ne!(slot, previous_slot);
        index = next;
        previous_slot = slot;
    }
}

#[test]
fn timestamps_are_in_100ns_units() {
    assert_eq!(ticks_to_100ns(10_000_000, 10_000_000), 10_000_000);
    assert_eq!(ticks_to_100ns(3, 1), 30_000_000);
    assert_eq!(ticks_to_100ns(123, 0), 0);
    assert_eq!(ticks_to_100ns(123, -5), 0);
    assert_eq!(ticks_to_100ns(i64::MAX, 1), (i64::MAX as u128 * 10_000_000) as u64);
}

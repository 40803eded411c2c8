use virtualcam::probe::{
    green_nv12_frame, is_expected_green_nv12, is_vcam_name, negotiated_geometry, unpack_u32_pair,
};

fn green_frame(width: usize, height: usize) -> Vec<u8> {
    let y_size = width * height;
    let mut frame = vec![149_u8; y_size * 3 / 2];
    for uv in frame[y_size..].chunks_exact_mut(2) {
        uv[0] = 43;
        uv[1] = 21;
    }
    frame
}

#[test]
fn transitional_frame_is_rejected_before_exact_gpu_frame_is_accepted() {
    const WIDTH: usize = 1280;
    const HEIGHT: usize = 960;
    let expected = green_frame(WIDTH, HEIGHT);
    let mut transitional = expected.clone();
    transitional[997] = 16;

    assert!(!is_expected_green_nv12(&transitional, WIDTH, HEIGHT));
    assert!(is_expected_green_nv12(&expected, WIDTH, HEIGHT));
    assert!(!is_expected_green_nv12(
        &expected[..expected.len() - 1],
        WIDTH,
        HEIGHT
    ));
}

#[test]
fn green_nv12_validation_uses_negotiated_geometry() {
    let width = 1920usize;
    let height = 1080usize;
    let frame = green_frame(width, height);

    assert!(is_expected_green_nv12(&frame, width, height));
    assert!(!is_expected_green_nv12(&frame, 1280, 720));
}

#[test]
fn the_published_green_frame_passes_the_check() {
    for (width, height) in [(1280u32, 720u32), (2, 2), (3, 3), (1, 1), (0, 5)] {
        let frame = green_nv12_frame(width, height);
        assert!(is_expected_green_nv12(&frame, width as usize, height as usize));
    }
    assert_eq!(green_nv12_frame(2, 2), vec![149, 149, 149, 149, 43, 21]);
    assert_eq!(green_nv12_frame(1, 1), vec![149]);
    assert_eq!(green_frame(1280, 720), green_nv12_frame(1280, 720));
}

#[test]
fn wrong_chroma_is_rejected() {
    let mut frame = green_frame(4, 2);
    let last = frame.len() - 1;
    frame[last] = 22;
    assert!(!is_expected_green_nv12(&frame, 4, 2));
}

#[test]
fn attributes_hold_two_halves() {
    assert_eq!(unpack_u32_pair((1920u64 << 32) | 1080), (1920, 1080));
    assert_eq!(unpack_u32_pair(u64::MAX), (u32::MAX, u32::MAX));
    assert_eq!(
        negotiated_geometry((1280u64 << 32) | 720, (30000u64 << 32) | 1001),
        Some((1280, 720, 30000, 1001))
    );
    assert_eq!(negotiated_geometry(1280u64 << 32, (30u64 << 32) | 1), None);
    assert_eq!(negotiated_geometry((1280u64 << 32) | 720, 30u64 << 32), None);
}

#[test]
fn vcam_cameras_are_recognised_by_prefix() {
    assert!(is_vcam_name("VCam"));
    assert!(is_vcam_name("vcam camera"));
    assert!(is_vcam_name("VCAM"));
    assert!(!is_vcam_name("VCa"));
    assert!(!is_vcam_name("OBS Virtual Camera"));
    assert!(!is_vcam_name("éVCam"));
}

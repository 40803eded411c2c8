use virtualcam::camera::{
    check_camera_dimensions, check_frame_length, check_frame_size, prepare_frame,
};
use virtualcam::image_formats::rgb_to_nv12;
use virtualcam::{PixelFormat, VirtualCamError};

#[test]
fn test_invalid_dimensions() {
    let result = check_camera_dimensions(0, 480);
    assert!(result.is_err());
}

#[test]
fn cameras_need_nonzero_dimensions() {
    assert!(matches!(
        check_camera_dimensions(0, 480),
        Err(VirtualCamError::InvalidDimensions(0, 480))
    ));
    assert!(check_camera_dimensions(640, 0).is_err());
    assert!(check_camera_dimensions(640, 480).is_ok());
}

#[test]
fn frames_must_have_the_format_size() {
    assert!(check_frame_size(PixelFormat::RGB, 640, 480, 640 * 480 * 3).is_ok());
    match check_frame_size(PixelFormat::RGB, 640, 480, 640 * 480 * 3 - 1) {
        Err(VirtualCamError::FrameSizeMismatch { expected, actual }) => {
            assert_eq!(expected, 921_600);
            assert_eq!(actual, 921_599);
        }
        other => panic!("unexpected {other:?}"),
    }
}

#[test]
fn frames_in_the_native_format_pass_unchanged() {
    let frame = vec![0u8; 6];
    assert!(matches!(
        prepare_frame(&frame, PixelFormat::NV12, PixelFormat::NV12, "obs", 2, 2),
        Ok(None)
    ));
}

#[test]
fn other_formats_are_converted_for_the_backend() {
    let rgb = vec![255, 0, 0, 0, 255, 0, 0, 0, 255, 255, 255, 255];
    let prepared = prepare_frame(&rgb, PixelFormat::RGB, PixelFormat::NV12, "media-foundation", 2, 2)
        .unwrap()
        .unwrap();
    assert_eq!(prepared, rgb_to_nv12(&rgb, 2, 2));
}

#[test]
fn unity_capture_receives_frames_bottom_row_first() {
    let rgb = vec![1, 2, 3, 4, 5, 6];
    let prepared = prepare_frame(&rgb, PixelFormat::RGB, PixelFormat::RGBA, "unitycapture", 1, 2)
        .unwrap()
        .unwrap();
    assert_eq!(prepared, vec![4, 5, 6, 255, 1, 2, 3, 255]);
    let other = prepare_frame(&rgb, PixelFormat::RGB, PixelFormat::RGBA, "obs", 1, 2)
        .unwrap()
        .unwrap();
    assert_eq!(other, vec![1, 2, 3, 255, 4, 5, 6, 255]);
}

#[test]
fn wrongly_sized_frames_are_refused_before_conversion() {
    assert!(matches!(
        prepare_frame(&[0u8; 5], PixelFormat::RGB, PixelFormat::NV12, "obs", 2, 2),
        Err(VirtualCamError::FrameSizeMismatch { expected: 12, actual: 5 })
    ));
}

#[test]
fn frame_lengths_must_match() {
    assert!(check_frame_length(12, 12).is_ok());
    assert!(matches!(
        check_frame_length(12, 11),
        Err(VirtualCamError::FrameSizeMismatch { expected: 12, actual: 11 })
    ));
}

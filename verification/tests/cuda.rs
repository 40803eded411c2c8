use virtualcam::backend::cuda::{
    assemble_nv12, buffer_plan, kernel_name, launch_grid, needs_new_buffers, BufferPlan,
};
use virtualcam::{PixelFormat, VirtualCamError};

#[test]
fn kernels_exist_for_rgb_inputs() {
    assert_eq!(kernel_name(PixelFormat::RGB).unwrap(), "rgb_to_nv12");
    assert_eq!(kernel_name(PixelFormat::BGR).unwrap(), "bgr_to_nv12");
    assert_eq!(kernel_name(PixelFormat::RGBA).unwrap(), "rgba_to_nv12");
    match kernel_name(PixelFormat::YUYV) {
        Err(VirtualCamError::UnsupportedFormat(message)) => {
            assert_eq!(message, "CUDA conversion from YUYV to NV12 not supported")
        }
        other => panic!("unexpected {other:?}"),
    }
}

#[test]
fn buffers_hold_the_input_and_both_planes() {
    assert_eq!(
        buffer_plan(1280, 720, PixelFormat::RGBA),
        BufferPlan { input_size: 1280 * 720 * 4, y_size: 1280 * 720, uv_size: 1280 * 720 / 2 }
    );
    assert!(!needs_new_buffers(1280, 720, 1280, 720));
    assert!(needs_new_buffers(0, 0, 1280, 720));
}

#[test]
fn the_grid_covers_every_pixel() {
    assert_eq!(launch_grid(1280, 720), (80, 45, 1));
    assert_eq!(launch_grid(1281, 1), (81, 1, 1));
    assert_eq!(launch_grid(0, 0), (0, 0, 1));
}

#[test]
fn planes_are_joined_luma_first() {
    assert_eq!(assemble_nv12(&[1, 2, 3, 4], &[5, 6]), vec![1, 2, 3, 4, 5, 6]);
    assert_eq!(assemble_nv12(&[], &[]), Vec::<u8>::new());
}

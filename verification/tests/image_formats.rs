use virtualcam::color::{rgb_to_yuv, yuv_to_rgb};
use virtualcam::image_formats::{
    bgr_to_i420, bgr_to_nv12, bgr_to_rgb, bgr_to_rgba, convert_frame, flip_vertical, gray_to_bgr,
    gray_to_nv12, gray_to_rgb, gray_to_rgba, i420_to_nv12, i420_to_rgba, nv12_to_i420,
    nv12_to_rgba, rgb_to_bgr, rgb_to_i420, rgb_to_nv12, rgb_to_rgba, rgba_to_bgr, rgba_to_nv12,
    rgba_to_rgb, uyvy_to_nv12, uyvy_to_rgba, yuyv_to_nv12, yuyv_to_rgba,
};
use virtualcam::PixelFormat;

#[test]
fn test_rgb_bgr_conversion() {
    let rgb = vec![255, 0, 0, 0, 255, 0, 0, 0, 255];
    let bgr = rgb_to_bgr(&rgb);
    assert_eq!(bgr, vec![0, 0, 255, 0, 255, 0, 255, 0, 0]);
}

#[test]
fn test_rgb_rgba_conversion() {
    let rgb = vec![255, 128, 64];
    let rgba = rgb_to_rgba(&rgb);
    assert_eq!(rgba, vec![255, 128, 64, 255]);
}

#[test]
fn test_i420_nv12_roundtrip() {
    let width = 4;
    let height = 4;
    let y_size = (width * height) as usize;
    let uv_size = y_size / 4;

    let mut i420 = vec![0u8; y_size + uv_size * 2];
    for i in 0..y_size {
        i420[i] = i as u8;
    }
    for i in 0..uv_size {
        i420[y_size + i] = 100 + i as u8;
        i420[y_size + uv_size + i] = 200 + i as u8;
    }

    let nv12 = i420_to_nv12(&i420, width, height);
    let back = nv12_to_i420(&nv12, width, height);

    assert_eq!(i420, back);
}

#[test]
fn swapping_red_and_blue_twice_gives_the_frame_back() {
    let rgb: Vec<u8> = (0..30).collect();
    assert_eq!(bgr_to_rgb(&rgb_to_bgr(&rgb)), rgb);
}

#[test]
fn dropping_the_added_alpha_gives_the_frame_back() {
    let rgb: Vec<u8> = (10..40).collect();
    assert_eq!(rgba_to_rgb(&rgb_to_rgba(&rgb)), rgb);
    assert_eq!(rgba_to_bgr(&bgr_to_rgba(&rgb)), rgb);
}

#[test]
fn rgba_drops_alpha_and_can_swap() {
    let rgba = vec![1, 2, 3, 4, 5, 6, 7, 8];
    assert_eq!(rgba_to_rgb(&rgba), vec![1, 2, 3, 5, 6, 7]);
    assert_eq!(rgba_to_bgr(&rgba), vec![3, 2, 1, 7, 6, 5]);
    assert_eq!(bgr_to_rgba(&[3, 2, 1]), vec![1, 2, 3, 255]);
}

#[test]
fn gray_expands_to_every_channel() {
    assert_eq!(gray_to_rgb(&[7, 9]), vec![7, 7, 7, 9, 9, 9]);
    assert_eq!(gray_to_bgr(&[7]), vec![7, 7, 7]);
    assert_eq!(gray_to_rgba(&[7, 9]), vec![7, 7, 7, 255, 9, 9, 9, 255]);
    assert_eq!(gray_to_nv12(&[1, 2, 3, 4], 2, 2), vec![1, 2, 3, 4, 128, 128]);
}

#[test]
fn bt601_color_matrix_values() {
    assert_eq!(rgb_to_yuv(255, 0, 0), (82, 90, 240));
    assert_eq!(rgb_to_yuv(0, 255, 0), (144, 54, 34));
    assert_eq!(rgb_to_yuv(0, 0, 255), (41, 240, 110));
    assert_eq!(rgb_to_yuv(255, 255, 255), (235, 128, 128));
    assert_eq!(rgb_to_yuv(0, 0, 0), (16, 128, 128));
    assert_eq!(yuv_to_rgb(149, 43, 21), (0, 255, 0));
    assert_eq!(yuv_to_rgb(16, 128, 128), (0, 0, 0));
    assert_eq!(yuv_to_rgb(235, 128, 128), (255, 255, 255));
}

#[test]
fn rgb_frames_subsample_chroma_from_the_top_left_pixel() {
    let rgb = vec![255, 0, 0, 0, 255, 0, 0, 0, 255, 255, 255, 255];
    assert_eq!(rgb_to_i420(&rgb, 2, 2), vec![82, 144, 41, 235, 90, 240]);
    assert_eq!(rgb_to_nv12(&rgb, 2, 2), vec![82, 144, 41, 235, 90, 240]);
    let bgr = vec![0, 0, 255, 0, 255, 0, 255, 0, 0, 255, 255, 255];
    assert_eq!(bgr_to_i420(&bgr, 2, 2), vec![82, 144, 41, 235, 90, 240]);
    assert_eq!(bgr_to_nv12(&bgr, 2, 2), vec![82, 144, 41, 235, 90, 240]);
    let rgba = vec![255, 0, 0, 9, 0, 255, 0, 9, 0, 0, 255, 9, 255, 255, 255, 9];
    assert_eq!(rgba_to_nv12(&rgba, 2, 2), vec![82, 144, 41, 235, 90, 240]);
}

#[test]
fn yuv420_frames_convert_to_rgba() {
    let nv12 = vec![82, 144, 41, 235, 90, 240];
    let expected = vec![255, 1, 0, 255, 255, 73, 72, 255, 208, 0, 0, 255, 255, 179, 178, 255];
    assert_eq!(nv12_to_rgba(&nv12, 2, 2), expected);
    assert_eq!(i420_to_rgba(&nv12_to_i420(&nv12, 2, 2), 2, 2), expected);
}

#[test]
fn packed_422_frames_convert() {
    assert_eq!(yuyv_to_rgba(&[149, 43, 82, 21], 2, 1), vec![0, 255, 0, 255, 0, 197, 0, 255]);
    assert_eq!(uyvy_to_rgba(&[43, 149, 21, 82], 2, 1), vec![0, 255, 0, 255, 0, 197, 0, 255]);
    assert_eq!(yuyv_to_nv12(&[10, 20, 30, 40, 50, 60, 70, 80], 2, 2), vec![10, 30, 50, 70, 20, 40]);
    assert_eq!(uyvy_to_nv12(&[20, 10, 40, 30, 60, 50, 80, 70], 2, 2), vec![10, 30, 50, 70, 20, 40]);
}

#[test]
fn convert_frame_copies_equal_formats_and_refuses_unknown_pairs() {
    let frame = vec![1, 2, 3, 4, 5, 6];
    assert_eq!(convert_frame(&frame, PixelFormat::NV12, PixelFormat::NV12, 2, 2), frame);
    assert_eq!(convert_frame(&frame, PixelFormat::NV12, PixelFormat::RGB, 2, 2), Vec::<u8>::new());
    assert_eq!(convert_frame(&[1, 2, 3], PixelFormat::RGB, PixelFormat::BGR, 1, 1), vec![3, 2, 1]);
}

#[test]
fn flipping_exchanges_rows_and_twice_restores() {
    let original: Vec<u8> = (0..12).collect();
    let mut data = original.clone();
    flip_vertical(&mut data, 2, 3, 2);
    assert_eq!(data, vec![8, 9, 10, 11, 4, 5, 6, 7, 0, 1, 2, 3]);
    flip_vertical(&mut data, 2, 3, 2);
    assert_eq!(data, original);
}

#[test]
fn flipping_leaves_bytes_past_the_rows() {
    let mut data = vec![1, 2, 3, 4, 5];
    flip_vertical(&mut data, 1, 2, 2);
    assert_eq!(data, vec![3, 4, 1, 2, 5]);
}

#[test]
fn even_frames_convert_to_the_target_size() {
    let formats = [
        PixelFormat::RGB,
        PixelFormat::BGR,
        PixelFormat::RGBA,
        PixelFormat::GRAY,
        PixelFormat::I420,
        PixelFormat::NV12,
        PixelFormat::YUYV,
        PixelFormat::UYVY,
    ];
    for src in formats {
        for dst in formats {
            let frame: Vec<u8> = (0..src.frame_size(4, 6)).map(|i| i as u8).collect();
            let converted = convert_frame(&frame, src, dst, 4, 6);
            if src == dst || !converted.is_empty() {
                assert_eq!(converted.len(), dst.frame_size(4, 6), "{} to {}", src.name(), dst.name());
            }
        }
    }
}

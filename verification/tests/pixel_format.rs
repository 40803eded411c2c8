use virtualcam::pixel_format::{decode_fourcc, encode_fourcc, fourcc_to_string};
use virtualcam::PixelFormat;

#[test]
fn test_fourcc_encoding() {
    assert_eq!(encode_fourcc(b"I420"), 0x30323449);
    assert_eq!(decode_fourcc(0x30323449), *b"I420");
}

#[test]
fn test_frame_size() {
    let width = 1920;
    let height = 1080;

    assert_eq!(PixelFormat::RGB.frame_size(width, height), 1920 * 1080 * 3);
    assert_eq!(PixelFormat::RGBA.frame_size(width, height), 1920 * 1080 * 4);
    assert_eq!(PixelFormat::GRAY.frame_size(width, height), 1920 * 1080);
    assert_eq!(PixelFormat::I420.frame_size(width, height), 1920 * 1080 * 3 / 2);
    assert_eq!(PixelFormat::YUYV.frame_size(width, height), 1920 * 1080 * 2);
}

#[test]
fn test_from_fourcc() {
    assert_eq!(PixelFormat::from_fourcc(encode_fourcc(b"I420")), Some(PixelFormat::I420));
    assert_eq!(PixelFormat::from_fourcc(encode_fourcc(b"NV12")), Some(PixelFormat::NV12));
    assert_eq!(PixelFormat::from_fourcc(0), None);
}

const ALL_FORMATS: [PixelFormat; 8] = [
    PixelFormat::RGB,
    PixelFormat::BGR,
    PixelFormat::RGBA,
    PixelFormat::GRAY,
    PixelFormat::I420,
    PixelFormat::NV12,
    PixelFormat::YUYV,
    PixelFormat::UYVY,
];

#[test]
fn every_format_is_found_again_by_its_fourcc() {
    for format in ALL_FORMATS {
        assert_eq!(PixelFormat::from_fourcc(format.fourcc()), Some(format));
    }
}

#[test]
fn fourcc_codes_are_the_registered_four_characters() {
    assert_eq!(PixelFormat::RGB.fourcc(), encode_fourcc(b"raw "));
    assert_eq!(PixelFormat::BGR.fourcc(), encode_fourcc(b"24BG"));
    assert_eq!(PixelFormat::RGBA.fourcc(), encode_fourcc(b"ABGR"));
    assert_eq!(PixelFormat::GRAY.fourcc(), 0x3030344A);
    assert_eq!(PixelFormat::NV12.fourcc(), 0x3231564E);
    assert_eq!(PixelFormat::YUYV.fourcc(), encode_fourcc(b"YUY2"));
    assert_eq!(PixelFormat::UYVY.fourcc(), encode_fourcc(b"UYVY"));
}

#[test]
fn decoding_then_encoding_gives_the_code_back() {
    for code in [0u32, 1, 0x30323449, 0xdead_beef, u32::MAX] {
        assert_eq!(encode_fourcc(&decode_fourcc(code)), code);
    }
}

#[test]
fn fourcc_text_is_the_four_characters() {
    assert_eq!(fourcc_to_string(PixelFormat::NV12.fourcc()), "NV12");
    assert_eq!(fourcc_to_string(PixelFormat::RGB.fourcc()), "raw ");
}

#[test]
fn fourcc_text_replaces_invalid_utf8() {
    assert_eq!(fourcc_to_string(0xff32_564e), "NV2\u{fffd}");
}

#[test]
fn frame_shapes_follow_the_layout() {
    assert_eq!(PixelFormat::RGB.frame_shape(640, 480), vec![480, 640, 3]);
    assert_eq!(PixelFormat::BGR.frame_shape(640, 480), vec![480, 640, 3]);
    assert_eq!(PixelFormat::RGBA.frame_shape(640, 480), vec![480, 640, 4]);
    assert_eq!(PixelFormat::GRAY.frame_shape(640, 480), vec![480, 640]);
    assert_eq!(PixelFormat::NV12.frame_shape(640, 480), vec![640 * 480 * 3 / 2]);
    assert_eq!(PixelFormat::UYVY.frame_shape(640, 480), vec![640 * 480 * 2]);
}

#[test]
fn format_classes_and_names() {
    assert!(PixelFormat::I420.is_planar());
    assert!(PixelFormat::NV12.is_planar());
    assert!(!PixelFormat::YUYV.is_planar());
    assert!(PixelFormat::YUYV.is_packed_yuv());
    assert!(PixelFormat::UYVY.is_packed_yuv());
    assert!(!PixelFormat::RGB.is_packed_yuv());
    let names: Vec<&str> = ALL_FORMATS.iter().map(|f| f.name()).collect();
    assert_eq!(names, vec!["RGB", "BGR", "RGBA", "GRAY", "I420", "NV12", "YUYV", "UYVY"]);
    assert_eq!(PixelFormat::default(), PixelFormat::RGB);
}

#[test]
fn odd_frames_round_the_chroma_size_down() {
    assert_eq!(PixelFormat::NV12.frame_size(3, 3), 13);
    assert_eq!(PixelFormat::I420.frame_size(0, 1080), 0);
}

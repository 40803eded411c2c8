use virtualcam::backend::v4l2::{
    check_buffer_count, check_buffer_length, check_capabilities, check_negotiated_format,
    dequeue_decision, dequeued_buffer, device_path, ioctl_code, is_loopback_driver, name_end,
    parse_device_number, rgb_frame_size, time_per_frame, vidioc_codes, DequeueDecision,
    NegotiatedFormat, StreamSetupError, IOC_READ, IOC_WRITE, V4L2_CAP_DEVICE_CAPS,
    V4L2_CAP_STREAMING, V4L2_CAP_VIDEO_OUTPUT, V4L2_PIX_FMT_RGB24,
};
use virtualcam::VirtualCamError;

#[test]
fn dequeue_retry_contract_stops_after_shutdown_request() {
    let mut shutdown = false;

    assert_eq!(dequeue_decision(libc::EAGAIN, shutdown, libc::EFAULT, libc::EAGAIN), DequeueDecision::Retry);
    assert_eq!(dequeue_decision(libc::EFAULT, shutdown, libc::EFAULT, libc::EAGAIN), DequeueDecision::Retry);
    assert_eq!(dequeue_decision(libc::EIO, shutdown, libc::EFAULT, libc::EAGAIN), DequeueDecision::Fail);

    shutdown = true;

    assert_eq!(dequeue_decision(libc::EAGAIN, shutdown, libc::EFAULT, libc::EAGAIN), DequeueDecision::Shutdown);
    assert_eq!(dequeue_decision(libc::EFAULT, shutdown, libc::EFAULT, libc::EAGAIN), DequeueDecision::Shutdown);
}

#[test]
fn dequeue_retries_exactly_on_the_given_error_numbers() {
    assert_eq!(dequeue_decision(35, false, 14, 35), DequeueDecision::Retry);
    assert_eq!(dequeue_decision(11, false, 14, 35), DequeueDecision::Fail);
    assert_eq!(dequeue_decision(14, false, 14, 35), DequeueDecision::Retry);
}

#[test]
fn ioctl_codes_match_linux_v4l2_uapi() {
    let codes = vidioc_codes(208, 88);
    assert_eq!(codes.querycap, 0x8068_5600);
    assert_eq!(codes.s_fmt, 0xc0d0_5605);
    assert_eq!(codes.reqbufs, 0xc014_5608);
    assert_eq!(codes.querybuf, 0xc058_5609);
    assert_eq!(codes.qbuf, 0xc058_560f);
    assert_eq!(codes.dqbuf, 0xc058_5611);
    assert_eq!(codes.streamon, 0x4004_5612);
    assert_eq!(codes.streamoff, 0x4004_5613);
    assert_eq!(codes.s_parm, 0xc0cc_5616);
}

#[test]
fn ioctl_code_packs_its_fields() {
    assert_eq!(ioctl_code(IOC_READ | IOC_WRITE, 0x3fff, 0xff), 0xffff_56ff);
    assert_eq!(ioctl_code(0, 0, 0), 0x5600);
    assert_eq!(ioctl_code(IOC_WRITE, 1, 1), 0x4001_5601);
}

#[test]
fn device_numbers_come_from_paths_or_bare_numbers() {
    assert_eq!(parse_device_number("/dev/video10").unwrap(), 10);
    assert_eq!(parse_device_number("7").unwrap(), 7);
    assert_eq!(parse_device_number("+3").unwrap(), 3);
    match parse_device_number("/dev/videoX") {
        Err(VirtualCamError::DeviceNotFound(path)) => assert_eq!(path, "/dev/videoX"),
        other => panic!("unexpected {other:?}"),
    }
    assert!(parse_device_number("/dev/video").is_err());
    assert!(parse_device_number("/dev/video4294967296").is_err());
    assert!(parse_device_number("video3").is_err());
}

#[test]
fn device_paths_name_the_node() {
    assert_eq!(device_path(10), "/dev/video10");
    assert_eq!(device_path(0), "/dev/video0");
    assert_eq!(parse_device_number(&device_path(4242)).unwrap(), 4242);
}

fn driver_field(name: &[u8]) -> [u8; 16] {
    let mut field = [0u8; 16];
    field[..name.len()].copy_from_slice(name);
    field
}

#[test]
fn loopback_drivers_are_recognised_by_name() {
    assert!(is_loopback_driver(&driver_field(b"v4l2 loopback")));
    assert!(is_loopback_driver(&driver_field(b"v4l2loopback")));
    assert!(!is_loopback_driver(&driver_field(b"uvcvideo")));
    assert!(!is_loopback_driver(b"uvc\0v4l2loopback"));
    assert!(is_loopback_driver(b"xv4l2loopbackxyz"));
    assert!(is_loopback_driver(b"\xffv4l2loopback\0"));
    assert_eq!(name_end(b"abc\0def"), 3);
    assert_eq!(name_end(b"abc"), 3);
}

#[test]
fn capabilities_must_offer_streaming_output() {
    let good = V4L2_CAP_VIDEO_OUTPUT | V4L2_CAP_STREAMING;
    assert_eq!(check_capabilities(good, 0), Ok(()));
    assert_eq!(check_capabilities(V4L2_CAP_DEVICE_CAPS, good), Ok(()));
    assert_eq!(
        check_capabilities(V4L2_CAP_DEVICE_CAPS | good, 0),
        Err(StreamSetupError::NotOutputDevice)
    );
    assert_eq!(
        check_capabilities(V4L2_CAP_VIDEO_OUTPUT, 0),
        Err(StreamSetupError::NoStreaming)
    );
}

#[test]
fn negotiated_format_must_be_the_requested_rgb24() {
    let exact = NegotiatedFormat {
        width: 640,
        height: 480,
        pixelformat: V4L2_PIX_FMT_RGB24,
        bytes_per_line: 0,
    };
    assert_eq!(check_negotiated_format(640, 480, exact), Ok(()));
    assert_eq!(
        check_negotiated_format(640, 480, NegotiatedFormat { bytes_per_line: 1920, ..exact }),
        Ok(())
    );
    assert_eq!(
        check_negotiated_format(640, 480, NegotiatedFormat { bytes_per_line: 2048, ..exact }),
        Err(StreamSetupError::PaddedStride { bytes_per_line: 2048 })
    );
    assert_eq!(
        check_negotiated_format(640, 480, NegotiatedFormat { height: 360, ..exact }),
        Err(StreamSetupError::FormatMismatch {
            width: 640,
            height: 360,
            pixelformat: V4L2_PIX_FMT_RGB24
        })
    );
}

#[test]
fn buffers_must_exist_and_hold_a_frame() {
    assert_eq!(rgb_frame_size(640, 480), 921_600);
    assert_eq!(check_buffer_count(0), Err(StreamSetupError::NoBuffers));
    assert_eq!(check_buffer_count(2), Ok(()));
    assert_eq!(check_buffer_length(1, 921_600, 921_600), Ok(()));
    assert_eq!(
        check_buffer_length(1, 4096, 921_600),
        Err(StreamSetupError::BufferTooSmall { index: 1, length: 4096 })
    );
    assert_eq!(dequeued_buffer(1, 2), Some(1));
    assert_eq!(dequeued_buffer(2, 2), None);
    assert_eq!(time_per_frame(30), (1, 30));
    assert_eq!(time_per_frame(0), (1, 1));
}

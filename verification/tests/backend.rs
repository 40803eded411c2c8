use std::str::FromStr;

use virtualcam::backend::{available_backends, fallback_error, selection_candidates};
use virtualcam::{BackendKind, PixelFormat, VirtualCamError};

#[test]
fn backend_names_roundtrip() {
    for kind in [
        BackendKind::Auto,
        BackendKind::MediaFoundation,
        BackendKind::Obs,
        BackendKind::V4l2,
    ] {
        assert_eq!(kind.as_str().parse::<BackendKind>().unwrap(), kind);
    }
    assert_eq!(
        "mf".parse::<BackendKind>().unwrap(),
        BackendKind::MediaFoundation
    );
    assert_eq!(
        "v4l2loopback".parse::<BackendKind>().unwrap(),
        BackendKind::V4l2
    );
}

#[test]
fn backend_names_ignore_ascii_case() {
    assert_eq!(BackendKind::from_str("VCam").unwrap(), BackendKind::MediaFoundation);
    assert_eq!(BackendKind::parse_name("OBS").unwrap(), BackendKind::Obs);
    assert_eq!(BackendKind::parse_name("Media-Foundation").unwrap(), BackendKind::MediaFoundation);
    assert_eq!(BackendKind::default(), BackendKind::Auto);
}

#[test]
fn unknown_backend_names_are_refused_with_the_name() {
    match BackendKind::parse_name("unitycapture") {
        Err(VirtualCamError::BackendNotAvailable(name)) => assert_eq!(name, "unitycapture"),
        other => panic!("unexpected {other:?}"),
    }
    assert!(BackendKind::parse_name("").is_err());
}

#[test]
fn catalogue_lists_offered_backends_in_selection_order() {
    let all = available_backends(true, true, true);
    let kinds: Vec<BackendKind> = all.iter().map(|b| b.kind).collect();
    assert_eq!(kinds, vec![BackendKind::MediaFoundation, BackendKind::Obs, BackendKind::V4l2]);
    assert_eq!(all[0].name, "media-foundation");
    assert_eq!(all[0].default_device, "VCam");
    assert_eq!(all[0].native_format, PixelFormat::NV12);
    assert_eq!(all[1].description, "OBS Virtual Camera shared-memory transport");
    assert_eq!(all[2].default_device, "/dev/video10");
    assert_eq!(all[2].native_format, PixelFormat::RGB);

    let only_v4l2 = available_backends(false, false, true);
    assert_eq!(only_v4l2.len(), 1);
    assert_eq!(only_v4l2[0].kind, BackendKind::V4l2);
    assert!(available_backends(false, false, false).is_empty());
}

#[test]
fn automatic_selection_errors() {
    assert!(matches!(fallback_error(true, &vec![]), VirtualCamError::V4l2LoopbackNotFound));
    assert!(matches!(fallback_error(false, &vec![]), VirtualCamError::NoDeviceFound));
    let failures = vec!["obs: Device 'x' not found".to_string(), "v4l2: busy".to_string()];
    match fallback_error(true, &failures) {
        VirtualCamError::InitializationFailed(message) => {
            assert_eq!(message, "obs: Device 'x' not found; v4l2: busy")
        }
        other => panic!("unexpected {other:?}"),
    }
}

#[test]
fn only_auto_falls_back() {
    let offered = available_backends(true, true, false);
    assert_eq!(
        selection_candidates(BackendKind::Auto, &offered),
        vec![BackendKind::MediaFoundation, BackendKind::Obs]
    );
    assert_eq!(selection_candidates(BackendKind::V4l2, &offered), vec![BackendKind::V4l2]);
    assert_eq!(selection_candidates(BackendKind::Obs, &Vec::new()), vec![BackendKind::Obs]);
    assert!(selection_candidates(BackendKind::Auto, &Vec::new()).is_empty());
}

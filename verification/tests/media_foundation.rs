use virtualcam::backend::media_foundation::{
    begin_frame_write, check_device, check_shared_dimensions, classify_ack_wait, copy_frame,
    fps_fraction, gcd, header_matches, plan_frame_write, registrar_replace_arguments,
    registrar_serves, wide, AckWait, FrameWriteRefusal, SharedFormat, ShmHeader, SeqlockWrite,
};
use virtualcam::backend::media_foundation_contract::{
    classify_writer_wait, ipc_acl_entries, ipc_security_sddl, startup_ack_name,
    validate_stable_header, AccessMask, HeaderReadError, IpcTrustee, RawHeaderSnapshot,
    WriterLeaseDisposition, HEADER_SIZE, MAX_FRAME_SIZE, MAX_WIDTH, SHM_MAGIC, SHM_VERSION,
    WAIT_ABANDONED_RAW, WAIT_FAILED_RAW, WAIT_OBJECT_0_RAW, WAIT_TIMEOUT_RAW,
};
use virtualcam::VirtualCamError;

fn valid_header() -> RawHeaderSnapshot {
    RawHeaderSnapshot {
        magic: SHM_MAGIC,
        version: SHM_VERSION,
        header_bytes: HEADER_SIZE as u32,
        width: 1920,
        height: 1080,
        fps_num: 60,
        fps_den: 1,
        frame_bytes: 1920 * 1080 * 3 / 2,
        seq: 42,
        ready: 1,
    }
}

#[test]
fn shared_header_layout_is_stable() {
    assert_eq!(std::mem::size_of::<ShmHeader>(), 48);
}

#[test]
fn writer_mutex_acl_grants_only_owner_system_admin_and_local_service() {
    assert_eq!(
        ipc_acl_entries(),
        &[
            (IpcTrustee::System, AccessMask::Full),
            (IpcTrustee::Administrators, AccessMask::Full),
            (IpcTrustee::OwnerRights, AccessMask::Full),
            (IpcTrustee::LocalService, AccessMask::Read),
        ]
    );
    assert_eq!(
        ipc_security_sddl(),
        "D:P(A;;GA;;;SY)(A;;GA;;;BA)(A;;GA;;;OW)(A;;GR;;;LS)"
    );
}

#[test]
fn writer_lease_rejects_a_live_second_producer_and_recovers_abandonment() {
    assert_eq!(
        classify_writer_wait(WAIT_OBJECT_0_RAW),
        WriterLeaseDisposition::Acquired
    );
    assert_eq!(
        classify_writer_wait(WAIT_ABANDONED_RAW),
        WriterLeaseDisposition::Acquired
    );
    assert_eq!(
        classify_writer_wait(WAIT_TIMEOUT_RAW),
        WriterLeaseDisposition::Busy
    );
    assert_eq!(
        classify_writer_wait(WAIT_FAILED_RAW),
        WriterLeaseDisposition::Failed(WAIT_FAILED_RAW)
    );
}

#[test]
fn writer_lease_failure_carries_any_other_result() {
    assert_eq!(classify_writer_wait(0x7), WriterLeaseDisposition::Failed(0x7));
}

#[test]
fn startup_ack_name_is_generation_specific_and_session_local() {
    assert_eq!(
        startup_ack_name(0x1234, 7),
        "Local\\noperson_vcam_startup_00001234_0000000000000007"
    );
    assert_ne!(startup_ack_name(0x1234, 7), startup_ack_name(0x1234, 8));
}

#[test]
fn startup_ack_name_spells_full_width_words() {
    assert_eq!(
        startup_ack_name(u32::MAX, u64::MAX),
        "Local\\noperson_vcam_startup_ffffffff_ffffffffffffffff"
    );
    assert_ne!(startup_ack_name(1, 7), startup_ack_name(2, 7));
}

#[test]
fn stable_header_validation_rejects_torn_or_oversized_snapshots() {
    let valid = valid_header();
    assert!(validate_stable_header(42, valid, 42).is_ok());

    assert_eq!(
        validate_stable_header(42, valid, 44),
        Err(HeaderReadError::SequenceChanged)
    );

    let mut oversized = valid;
    oversized.width = MAX_WIDTH + 2;
    oversized.frame_bytes = u32::MAX;
    assert_eq!(
        validate_stable_header(42, oversized, 42),
        Err(HeaderReadError::InvalidLayout)
    );
}

#[test]
fn validated_header_is_an_immutable_copy_of_the_observed_layout() {
    let mut shared = valid_header();
    let validated = validate_stable_header(shared.seq, shared, shared.seq).unwrap();

    shared.width = 4096;
    shared.height = 2160;
    shared.frame_bytes = MAX_FRAME_SIZE as u32;

    assert_eq!(shared.width, 4096);
    assert_eq!(shared.height, 2160);
    assert_eq!(shared.frame_bytes, MAX_FRAME_SIZE as u32);
    assert_eq!(validated.width, 1920);
    assert_eq!(validated.height, 1080);
    assert_eq!(validated.frame_bytes, 1920 * 1080 * 3 / 2);
}

#[test]
fn header_reads_are_refused_for_each_reason() {
    let valid = valid_header();
    assert_eq!(validate_stable_header(43, valid, 43), Err(HeaderReadError::WriterActive));
    let mut other_seq = valid;
    other_seq.seq = 40;
    assert_eq!(validate_stable_header(42, other_seq, 42), Err(HeaderReadError::SequenceChanged));
    for change in 0..6 {
        let mut bad = valid;
        match change {
            0 => bad.magic ^= 1,
            1 => bad.version = 1,
            2 => bad.width = 1919,
            3 => bad.fps_den = 0,
            4 => bad.ready = 2,
            _ => bad.frame_bytes -= 1,
        }
        assert_eq!(validate_stable_header(42, bad, 42), Err(HeaderReadError::InvalidLayout));
    }
    let mut idle = valid;
    idle.ready = 0;
    assert!(!validate_stable_header(42, idle, 42).unwrap().ready);
}

#[test]
fn shm_header_snapshot_copies_every_word() {
    let header = ShmHeader {
        magic: 1,
        version: 2,
        header_bytes: 3,
        width: 4,
        height: 5,
        fps_num: 6,
        fps_den: 7,
        frame_bytes: 8,
        seq: 9,
        ready: 10,
        reserved: [11, 12],
    };
    let s = header.snapshot();
    assert_eq!(
        (s.magic, s.version, s.header_bytes, s.width, s.height),
        (1, 2, 3, 4, 5)
    );
    assert_eq!((s.fps_num, s.fps_den, s.frame_bytes, s.seq, s.ready), (6, 7, 8, 9, 10));
}

#[test]
fn dynamic_format_accepts_1080p60_and_rejects_odd_or_oversized_frames() {
    assert!(check_shared_dimensions(1920, 1080).is_ok());
    assert!(check_shared_dimensions(1919, 1080).is_err());
    assert!(check_shared_dimensions(7680, 4320).is_err());
    assert!(matches!(
        check_shared_dimensions(0, 1080),
        Err(VirtualCamError::InvalidDimensions(0, 1080))
    ));
    assert!(check_shared_dimensions(4096, 2160).is_ok());
}

#[test]
fn shared_format_preserves_fractional_frame_rates() {
    assert_eq!(fps_fraction(29_970_000), Some((2997, 100)));
}

#[test]
fn frame_rates_reduce_to_lowest_terms() {
    assert_eq!(fps_fraction(60_000_000), Some((60, 1)));
    assert_eq!(fps_fraction(59_940_060), Some((2997003, 50000)));
    assert_eq!(fps_fraction(1), Some((1, 1_000_000)));
    assert_eq!(fps_fraction(0), None);
    assert_eq!(fps_fraction(u32::MAX as u64 + 1), None);
    assert_eq!(gcd(12, 18), 6);
    assert_eq!(gcd(7, 0), 7);
    assert_eq!(gcd(0, 0), 0);
}

#[test]
fn active_frame_size_matches_nv12_geometry() {
    let format = SharedFormat { width: 1920, height: 1080, fps_num: 60, fps_den: 1 };
    assert_eq!(format.frame_size(), 1920 * 1080 * 3 / 2);
    assert!(format.frame_size() <= MAX_FRAME_SIZE);
}

#[test]
fn registrar_replace_arguments_carry_the_exact_mode() {
    let format = SharedFormat { width: 1920, height: 1080, fps_num: 2997, fps_den: 100 };
    assert_eq!(
        registrar_replace_arguments(format, "Local\\noperson_vcam_startup_test"),
        "/headless /replace 1920 1080 2997 100 /ack Local\\noperson_vcam_startup_test"
    );
}

#[test]
fn wide_strings_end_with_a_nul() {
    assert_eq!(wide("VCam"), vec![86, 67, 97, 109, 0]);
    assert_eq!(wide(""), vec![0]);
    assert_eq!(wide("\u{1F600}"), vec![0xD83D, 0xDE00, 0]);
}

#[test]
fn seqlock_writes_go_through_an_odd_sequence() {
    assert_eq!(begin_frame_write(42), Some(SeqlockWrite { writing: 43, published: 44 }));
    assert_eq!(begin_frame_write(43), None);
    assert_eq!(
        begin_frame_write(u32::MAX - 1),
        Some(SeqlockWrite { writing: u32::MAX, published: 0 })
    );
    let write = begin_frame_write(42).unwrap();
    let valid = valid_header();
    assert_eq!(validate_stable_header(write.writing, valid, 42), Err(HeaderReadError::WriterActive));
    assert_eq!(validate_stable_header(42, valid, write.published), Err(HeaderReadError::SequenceChanged));
}

#[test]
fn published_header_must_match_the_requested_format() {
    let validated = validate_stable_header(42, valid_header(), 42).unwrap();
    let format = SharedFormat { width: 1920, height: 1080, fps_num: 60, fps_den: 1 };
    assert!(header_matches(validated, format, format.frame_size()));
    let other = SharedFormat { fps_num: 30, ..format };
    assert!(!header_matches(validated, other, format.frame_size()));
    assert_eq!(SharedFormat::of_header(validated), format);
}

#[test]
fn only_the_vcam_device_is_offered() {
    assert!(check_device(None).is_ok());
    assert!(check_device(Some("vcam")).is_ok());
    assert!(check_device(Some("VCAM")).is_ok());
    match check_device(Some("OBS Virtual Camera")) {
        Err(VirtualCamError::DeviceNotFound(name)) => assert_eq!(name, "OBS Virtual Camera"),
        other => panic!("unexpected {other:?}"),
    }
}

#[test]
fn startup_ack_waits_are_classified() {
    assert_eq!(classify_ack_wait(WAIT_OBJECT_0_RAW), AckWait::Acknowledged);
    assert_eq!(classify_ack_wait(WAIT_TIMEOUT_RAW), AckWait::TimedOut);
    assert_eq!(classify_ack_wait(WAIT_ABANDONED_RAW), AckWait::Failed(WAIT_ABANDONED_RAW));
}

#[test]
fn frame_writes_check_the_length_then_the_sequence() {
    assert_eq!(
        plan_frame_write(5, 6, 43),
        Err(FrameWriteRefusal::WrongLength { actual: 5, expected: 6 })
    );
    assert_eq!(plan_frame_write(6, 6, 43), Err(FrameWriteRefusal::WriterActive));
    assert_eq!(plan_frame_write(6, 6, 42), Ok(SeqlockWrite { writing: 43, published: 44 }));
    let mut payload = vec![9u8; 8];
    copy_frame(&mut payload, &[1, 2, 3]);
    assert_eq!(payload, vec![1, 2, 3, 9, 9, 9, 9, 9]);
}

#[test]
fn registrar_serves_only_the_exact_ready_format() {
    let format = SharedFormat { width: 1920, height: 1080, fps_num: 60, fps_den: 1 };
    assert!(registrar_serves(Some(format), true, format));
    assert!(!registrar_serves(Some(format), false, format));
    assert!(!registrar_serves(None, true, format));
    assert!(!registrar_serves(Some(SharedFormat { fps_den: 2, ..format }), true, format));
}

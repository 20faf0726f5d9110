use mirrorx_core::capture::{
    acquire_step, acquired_frame_result, capture_frame, chrominance_extent,
    chrominance_plane_len, lumina_plane_len, thread_desktop_result, AcquireStep, CaptureError,
    ACQUIRE_ATTEMPTS,
};

#[test]
fn acquisition_stops_at_first_success() {
    let mut failures = 0u32;
    assert_eq!(acquire_step(&mut failures, false), AcquireStep::Retry);
    assert_eq!(acquire_step(&mut failures, false), AcquireStep::Retry);
    assert_eq!(acquire_step(&mut failures, true), AcquireStep::Acquired);
    assert_eq!(failures, 2);
}

#[test]
fn acquisition_gives_up_on_tenth_failure() {
    let mut failures = 0u32;
    for _ in 0..9 {
        assert_eq!(acquire_step(&mut failures, false), AcquireStep::Retry);
    }
    assert_eq!(acquire_step(&mut failures, false), AcquireStep::Exhausted);
    assert_eq!(failures, ACQUIRE_ATTEMPTS);
}

#[test]
fn acquired_frame_outcomes() {
    assert_eq!(acquired_frame_result(true, true), Ok(true));
    assert_eq!(acquired_frame_result(true, false), Ok(false));
    assert_eq!(acquired_frame_result(false, true), Err(CaptureError::MissingFrameResource));
}

#[test]
fn thread_desktop_outcomes() {
    assert_eq!(thread_desktop_result(true), Ok(()));
    assert_eq!(thread_desktop_result(false), Err(CaptureError::ThreadDesktopNotSet));
}

#[test]
fn plane_sizes() {
    assert_eq!(lumina_plane_len(1080, 1920), 1080 * 1920);
    assert_eq!(chrominance_plane_len(1080, 1920), 540 * 1920);
    assert_eq!(chrominance_plane_len(1081, 1920), 540 * 1920);
    assert_eq!(chrominance_extent(1920, 1081), (960, 540));
}

#[test]
fn frame_keeps_planes_and_strides() {
    let lumina = vec![1u8, 2, 3, 4, 5, 6];
    let chroma = vec![9u8, 8, 7];
    let frame = capture_frame(2, 2, &lumina, 3, &chroma, 3);
    assert_eq!(frame.width, 2);
    assert_eq!(frame.height, 2);
    assert_eq!(frame.lumina_bytes, lumina);
    assert_eq!(frame.lumina_stride, 3);
    assert_eq!(frame.chrominance_bytes, chroma);
    assert_eq!(frame.chrominance_stride, 3);
}

#[test]
fn error_messages() {
    assert_eq!(
        CaptureError::MissingFrameResource.message().as_deref(),
        Some("DXGI frame resource is None")
    );
    assert_eq!(
        CaptureError::DeviceUnavailable.message().as_deref(),
        Some("create DirectX device failed, all driver types had tried")
    );
    assert_eq!(
        CaptureError::NoDuplicableOutput.message().as_deref(),
        Some("create IDXGIOutputDuplication failed, all Outputs had tried")
    );
    assert_eq!(
        CaptureError::ThreadDesktopNotSet.message().as_deref(),
        Some("SetThreadDesktop returns false when prepare desktop")
    );
    assert_eq!(
        CaptureError::DeviceIdNotUnicode.message().as_deref(),
        Some("convert OsString to String failed")
    );
    assert_eq!(CaptureError::Api(-2005270490).message(), None);
}

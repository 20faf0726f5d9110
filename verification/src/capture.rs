//! Frame capture: the rule for retrying frame acquisition, what follows an
//! acquisition, the sizes of the two planes of a captured frame, and the frame
//! itself.

use vstd::prelude::*;

verus! {

/// Why capturing failed.
#[derive(PartialEq, Eq, Structural, Clone, Copy, Debug)]
pub enum CaptureError {
    /// The thread could not be switched to the input desktop.
    ThreadDesktopNotSet,
    /// No driver type yielded a device.
    DeviceUnavailable,
    /// No output attached to the desktop matched the requested monitor.
    NoDuplicableOutput,
    /// A display device's id was not valid Unicode.
    DeviceIdNotUnicode,
    /// No frame resource came back from frame acquisition.
    MissingFrameResource,
    /// A graphics API call failed with this result code.
    Api(i32),
}

/// The message of a capture error that has one of its own; a failed graphics API
/// call carries its result code instead.
pub open spec fn capture_error_text(err: CaptureError) -> Option<Seq<char>> {
    match err {
        CaptureError::ThreadDesktopNotSet => Some(
            "SetThreadDesktop returns false when prepare desktop"@,
        ),
        CaptureError::DeviceUnavailable => Some(
            "create DirectX device failed, all driver types had tried"@,
        ),
        CaptureError::NoDuplicableOutput => Some(
            "create IDXGIOutputDuplication failed, all Outputs had tried"@,
        ),
        CaptureError::DeviceIdNotUnicode => Some("convert OsString to String failed"@),
        CaptureError::MissingFrameResource => Some("DXGI frame resource is None"@),
        CaptureError::Api(_) => None,
    }
}

impl CaptureError {
    /// The error's message, where it has one.
    pub fn message(&self) -> (text: Option<String>)
        ensures
            text matches Some(t) ==> capture_error_text(*self) == Some(t@),
            text is None <==> capture_error_text(*self) is None,
    {
        match self {
            CaptureError::ThreadDesktopNotSet => Some(
                String::from_str("SetThreadDesktop returns false when prepare desktop"),
            ),
            CaptureError::DeviceUnavailable => Some(
                String::from_str("create DirectX device failed, all driver types had tried"),
            ),
            CaptureError::NoDuplicableOutput => Some(
                String::from_str("create IDXGIOutputDuplication failed, all Outputs had tried"),
            ),
            CaptureError::DeviceIdNotUnicode => Some(
                String::from_str("convert OsString to String failed"),
            ),
            CaptureError::MissingFrameResource => Some(
                String::from_str("DXGI frame resource is None"),
            ),
            CaptureError::Api(_) => None,
        }
    }
}

/// The outcome of switching the capturing thread to the input desktop.
pub fn thread_desktop_result(switched: bool) -> (result: Result<(), CaptureError>)
    ensures
        result == if switched {
            Ok::<(), CaptureError>(())
        } else {
            Err(CaptureError::ThreadDesktopNotSet)
        },
{
    if !switched {
        return Err(CaptureError::ThreadDesktopNotSet);
    }
    Ok(())
}

/// How many failed attempts to acquire a frame end the acquisition.
pub const ACQUIRE_ATTEMPTS: u32 = 10;

/// What follows one attempt to acquire the next frame.
#[derive(PartialEq, Eq, Structural, Clone, Copy, Debug)]
pub enum AcquireStep {
    /// The attempt succeeded.
    Acquired,
    /// The attempt failed and another may follow.
    Retry,
    /// The attempt failed and was the last allowed.
    Exhausted,
}

/// The step after an attempt that `succeeded` or not, made after `failures` failed
/// attempts, and the count of failures after it.
pub open spec fn acquire_next(failures: u32, succeeded: bool) -> (AcquireStep, u32) {
    if succeeded {
        (AcquireStep::Acquired, failures)
    } else if failures + 1 < ACQUIRE_ATTEMPTS {
        (AcquireStep::Retry, (failures + 1) as u32)
    } else {
        (AcquireStep::Exhausted, (failures + 1) as u32)
    }
}

/// Records the outcome of one attempt to acquire the next frame.
pub fn acquire_step(failures: &mut u32, succeeded: bool) -> (step: AcquireStep)
    requires
        *old(failures) < ACQUIRE_ATTEMPTS,
    ensures
        (step, *final(failures)) == acquire_next(*old(failures), succeeded),
{
    if succeeded {
        return AcquireStep::Acquired;
    }
    *failures = *failures + 1;
    if *failures < ACQUIRE_ATTEMPTS {
        AcquireStep::Retry
    } else {
        AcquireStep::Exhausted
    }
}

/// Counting from no failures, the first nine failed attempts each ask for another,
/// the tenth ends the acquisition, and a successful attempt ends it with a frame.
pub proof fn lemma_acquire_gives_up_on_tenth_failure(failures: u32)
    requires
        failures < ACQUIRE_ATTEMPTS,
    ensures
        acquire_next(failures, true) == (AcquireStep::Acquired, failures),
        failures < 9 ==> acquire_next(failures, false) == (AcquireStep::Retry, (failures + 1) as u32),
        failures == 9 ==> acquire_next(failures, false) == (AcquireStep::Exhausted, 10u32),
{
}

/// What follows the acquisition: with a frame resource, the frame is copied and the
/// pointer drawn if it is visible (`Ok` holds whether to draw it); without one,
/// capturing fails.
pub fn acquired_frame_result(resource_present: bool, pointer_visible: bool) -> (result: Result<
    bool,
    CaptureError,
>)
    ensures
        result == if resource_present {
            Ok::<bool, CaptureError>(pointer_visible)
        } else {
            Err(CaptureError::MissingFrameResource)
        },
{
    if resource_present {
        Ok(pointer_visible)
    } else {
        Err(CaptureError::MissingFrameResource)
    }
}

/// The size of the chrominance plane for a desktop of the given size: half across
/// and half down.
pub fn chrominance_extent(width: u32, height: u32) -> (extent: (u32, u32))
    ensures
        extent == ((width / 2) as u32, (height / 2) as u32),
{
    (width / 2, height / 2)
}

/// The number of bytes of the luminance plane: `height` rows of `stride` bytes.
pub fn lumina_plane_len(height: u32, stride: u32) -> (len: usize)
    requires
        height * stride <= u32::MAX,
    ensures
        len == height * stride,
{
    (height * stride) as usize
}

/// The number of bytes of the chrominance plane: half of `height` rows of `stride`
/// bytes.
pub fn chrominance_plane_len(height: u32, stride: u32) -> (len: usize)
    requires
        (height / 2) * stride <= u32::MAX,
    ensures
        len == (height / 2) * stride,
{
    (height / 2 * stride) as usize
}

/// A captured frame: a full-size luminance plane and a half-size interleaved
/// chrominance plane, each with its row stride in bytes.
pub struct CaptureFrame {
    pub width: u32,
    pub height: u32,
    pub lumina_bytes: Vec<u8>,
    pub lumina_stride: u32,
    pub chrominance_bytes: Vec<u8>,
    pub chrominance_stride: u32,
}

/// Builds a frame of a desktop of `width` by `height` from its two mapped planes.
pub fn capture_frame(
    width: u32,
    height: u32,
    lumina: &[u8],
    lumina_stride: u32,
    chrominance: &[u8],
    chrominance_stride: u32,
) -> (frame: CaptureFrame)
    requires
        lumina@.len() == height * lumina_stride,
        chrominance@.len() == (height / 2) * chrominance_stride,
    ensures
        frame.width == width,
        frame.height == height,
        frame.lumina_bytes@ == lumina@,
        frame.lumina_stride == lumina_stride,
        frame.chrominance_bytes@ == chrominance@,
        frame.chrominance_stride == chrominance_stride,
{
    CaptureFrame {
        width,
        height,
        lumina_bytes: vstd::slice::slice_to_vec(lumina),
        lumina_stride,
        chrominance_bytes: vstd::slice::slice_to_vec(chrominance),
        chrominance_stride,
    }
}

} // verus!

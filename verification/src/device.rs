//! Choosing the graphics device and the display output to duplicate: the order in
//! which driver types are tried, their names, and which display device matches the
//! requested monitor.

use crate::capture::CaptureError;
use vstd::prelude::*;

verus! {

/// Driver type code of a hardware device.
pub const DRIVER_TYPE_HARDWARE: i32 = 1;

/// Driver type code of the reference rasterizer.
pub const DRIVER_TYPE_REFERENCE: i32 = 2;

/// Driver type code of the WARP software rasterizer.
pub const DRIVER_TYPE_WARP: i32 = 5;

/// The driver types tried for a device, in order: hardware, then WARP, then the
/// reference rasterizer.
pub open spec fn driver_order() -> Seq<i32> {
    seq![DRIVER_TYPE_HARDWARE, DRIVER_TYPE_WARP, DRIVER_TYPE_REFERENCE]
}

/// The driver type to try at position `index` of the order, if the order reaches it.
pub fn driver_type_at(index: usize) -> (driver: Option<i32>)
    ensures
        driver == if index < driver_order().len() {
            Some(driver_order()[index as int])
        } else {
            None::<i32>
        },
{
    if index == 0 {
        Some(DRIVER_TYPE_HARDWARE)
    } else if index == 1 {
        Some(DRIVER_TYPE_WARP)
    } else if index == 2 {
        Some(DRIVER_TYPE_REFERENCE)
    } else {
        None
    }
}

/// What follows an attempt to create the device.
#[derive(PartialEq, Eq, Structural, Clone, Copy, Debug)]
pub enum DriverStep {
    /// Try to create the device with this driver type.
    Try(i32),
    /// Stop trying: a device was created, or every driver type has been tried.
    Done,
}

/// The step before attempt number `attempt`, when the previous attempt
/// `last_created` a device or not.
pub open spec fn driver_next(attempt: int, last_created: bool) -> DriverStep {
    if last_created {
        DriverStep::Done
    } else if 0 <= attempt < driver_order().len() {
        DriverStep::Try(driver_order()[attempt])
    } else {
        DriverStep::Done
    }
}

/// Decides whether and with which driver type to try creating the device next.
pub fn driver_step(attempt: usize, last_created: bool) -> (step: DriverStep)
    ensures
        step == driver_next(attempt as int, last_created),
{
    if last_created {
        return DriverStep::Done;
    }
    match driver_type_at(attempt) {
        Some(driver) => DriverStep::Try(driver),
        None => DriverStep::Done,
    }
}

/// The driver types tried from attempt `attempt` on, where `created[i]` says whether
/// the attempt with `driver_order()[i]` created a device.
pub open spec fn drivers_tried(created: Seq<bool>, attempt: nat, last_created: bool) -> Seq<i32>
    decreases 3 - attempt,
{
    match driver_next(attempt as int, last_created) {
        DriverStep::Try(driver) => if attempt < 3 {
            seq![driver] + drivers_tried(created, attempt + 1, created[attempt as int])
        } else {
            seq![]
        },
        DriverStep::Done => seq![],
    }
}

/// How many driver types are tried from attempt `attempt` on: up to and including
/// the first that creates a device, or all of them.
pub open spec fn attempts_until_created(created: Seq<bool>, attempt: nat) -> nat
    decreases 3 - attempt,
{
    if attempt >= 3 {
        3
    } else if created[attempt as int] {
        attempt + 1
    } else {
        attempts_until_created(created, attempt + 1)
    }
}

proof fn lemma_drivers_tried_from(created: Seq<bool>, attempt: nat)
    requires
        created.len() >= 3,
        attempt <= 3,
    ensures
        attempt <= attempts_until_created(created, attempt) <= 3,
        drivers_tried(created, attempt, false) == driver_order().subrange(
            attempt as int,
            attempts_until_created(created, attempt) as int,
        ),
    decreases 3 - attempt,
{
    if attempt < 3 {
        lemma_drivers_tried_from(created, attempt + 1);
        if created[attempt as int] {
            assert(drivers_tried(created, attempt + 1, true) == Seq::<i32>::empty());
            assert(driver_order().subrange(attempt as int, (attempt + 1) as int) =~= seq![
                driver_order()[attempt as int],
            ]);
        } else {
            let rest = drivers_tried(created, attempt + 1, false);
            assert(seq![driver_order()[attempt as int]] + rest =~= driver_order().subrange(
                attempt as int,
                attempts_until_created(created, attempt) as int,
            ));
        }
    } else {
        assert(driver_order().subrange(3, 3) =~= Seq::<i32>::empty());
    }
}

/// Creating the device tries hardware first, then WARP, then the reference
/// rasterizer, and stops at the first driver type that creates a device: the types
/// tried are the order up to and including that one, or the whole order.
pub proof fn lemma_drivers_tried_in_order_until_created(created: Seq<bool>)
    requires
        created.len() >= 3,
    ensures
        drivers_tried(created, 0, false) == driver_order().subrange(
            0,
            attempts_until_created(created, 0) as int,
        ),
        1 <= attempts_until_created(created, 0) <= 3,
        forall|i: int|
            0 <= i < attempts_until_created(created, 0) - 1 ==> !#[trigger] created[i],
        attempts_until_created(created, 0) < 3 ==> created[attempts_until_created(created, 0) - 1],
{
    lemma_drivers_tried_from(created, 0);
    reveal_with_fuel(attempts_until_created, 4);
    assert forall|i: int|
        0 <= i < attempts_until_created(created, 0) - 1 implies !#[trigger] created[i] by {
        if i == 1 {
            assert(!created[0]);
        }
    }
}

/// The outcome of trying the driver types: a device and its context must both exist.
pub fn device_result(device_present: bool, context_present: bool) -> (result: Result<
    (),
    CaptureError,
>)
    ensures
        result == if device_present && context_present {
            Ok::<(), CaptureError>(())
        } else {
            Err(CaptureError::DeviceUnavailable)
        },
{
    if device_present && context_present {
        Ok(())
    } else {
        Err(CaptureError::DeviceUnavailable)
    }
}

/// The name of a driver type code.
pub open spec fn driver_type_text(driver: i32) -> Seq<char> {
    if driver == 0 {
        "D3D_DRIVER_TYPE_UNKNOWN"@
    } else if driver == 1 {
        "D3D_DRIVER_TYPE_HARDWARE"@
    } else if driver == 2 {
        "D3D_DRIVER_TYPE_REFERENCE"@
    } else if driver == 3 {
        "D3D_DRIVER_TYPE_NULL"@
    } else if driver == 4 {
        "D3D_DRIVER_TYPE_SOFTWARE"@
    } else if driver == 5 {
        "D3D_DRIVER_TYPE_WARP"@
    } else {
        "Unknown"@
    }
}

/// Names a driver type code.
pub fn driver_type_name(driver: i32) -> (name: &'static str)
    ensures
        name@ == driver_type_text(driver),
{
    if driver == 0 {
        "D3D_DRIVER_TYPE_UNKNOWN"
    } else if driver == 1 {
        "D3D_DRIVER_TYPE_HARDWARE"
    } else if driver == 2 {
        "D3D_DRIVER_TYPE_REFERENCE"
    } else if driver == 3 {
        "D3D_DRIVER_TYPE_NULL"
    } else if driver == 4 {
        "D3D_DRIVER_TYPE_SOFTWARE"
    } else if driver == 5 {
        "D3D_DRIVER_TYPE_WARP"
    } else {
        "Unknown"
    }
}

/// The name of a feature level code.
pub open spec fn feature_level_text(level: i32) -> Seq<char> {
    if level == 0xc200 {
        "D3D_FEATURE_LEVEL_12_2"@
    } else if level == 0xc100 {
        "D3D_FEATURE_LEVEL_12_1"@
    } else if level == 0xc000 {
        "D3D_FEATURE_LEVEL_12_0"@
    } else if level == 0xb100 {
        "D3D_FEATURE_LEVEL_11_1"@
    } else if level == 0xb000 {
        "D3D_FEATURE_LEVEL_11_0"@
    } else if level == 0xa100 {
        "D3D_FEATURE_LEVEL_10_1"@
    } else if level == 0xa000 {
        "D3D_FEATURE_LEVEL_10_0"@
    } else if level == 0x9300 {
        "D3D_FEATURE_LEVEL_9_3"@
    } else if level == 0x9200 {
        "D3D_FEATURE_LEVEL_9_2"@
    } else if level == 0x9100 {
        "D3D_FEATURE_LEVEL_9_1"@
    } else if level == 0x1000 {
        "D3D_FEATURE_LEVEL_1_0_CORE"@
    } else {
        "Unknown"@
    }
}

/// Names a feature level code.
pub fn feature_level_name(level: i32) -> (name: &'static str)
    ensures
        name@ == feature_level_text(level),
{
    if level == 0xc200 {
        "D3D_FEATURE_LEVEL_12_2"
    } else if level == 0xc100 {
        "D3D_FEATURE_LEVEL_12_1"
    } else if level == 0xc000 {
        "D3D_FEATURE_LEVEL_12_0"
    } else if level == 0xb100 {
        "D3D_FEATURE_LEVEL_11_1"
    } else if level == 0xb000 {
        "D3D_FEATURE_LEVEL_11_0"
    } else if level == 0xa100 {
        "D3D_FEATURE_LEVEL_10_1"
    } else if level == 0xa000 {
        "D3D_FEATURE_LEVEL_10_0"
    } else if level == 0x9300 {
        "D3D_FEATURE_LEVEL_9_3"
    } else if level == 0x9200 {
        "D3D_FEATURE_LEVEL_9_2"
    } else if level == 0x9100 {
        "D3D_FEATURE_LEVEL_9_1"
    } else if level == 0x1000 {
        "D3D_FEATURE_LEVEL_1_0_CORE"
    } else {
        "Unknown"
    }
}

/// The state flag of a display device that is attached to the desktop.
pub const DISPLAY_ATTACHED_TO_DESKTOP: u32 = 0x1;

/// Whether a display device with these state flags is attached to the desktop.
pub fn attached_to_desktop(state_flags: u32) -> (attached: bool)
    ensures
        attached == (state_flags & DISPLAY_ATTACHED_TO_DESKTOP != 0),
{
    state_flags & DISPLAY_ATTACHED_TO_DESKTOP != 0
}

/// Whether the display device `device_id` is the monitor asked for: any device when
/// none is named, else the device of that id.
pub fn monitor_wanted(wanted: &Option<String>, device_id: &String) -> (matches: bool)
    ensures
        matches == match wanted {
            None => true,
            Some(id) => id@ == device_id@,
        },
{
    match wanted {
        None => true,
        Some(id) => *id == *device_id,
    }
}

/// The next step of the search for the output to duplicate.
#[derive(PartialEq, Eq, Structural, Clone, Copy, Debug)]
pub enum ScanAction {
    /// Enumerate the output at this index of the adapter.
    EnumerateOutput(u32),
    /// Enumerate the display device at the second index of the output at the first.
    EnumerateDevice(u32, u32),
    /// Duplicate the output at this index.
    Duplicate(u32),
    /// No output matched: the search has failed.
    GiveUp,
}

/// What enumerating an output or a display device found.
pub enum ScanEvent {
    /// The adapter has no output at the index asked for.
    NoMoreOutputs,
    /// An output, and whether it is attached to the desktop.
    Output(bool),
    /// The output has no display device at the index asked for.
    NoMoreDevices,
    /// A display device: its state flags, and its id (read only when the flags say it
    /// is attached to the desktop, else empty).
    Device(u32, String),
}

/// A `ScanEvent` as a mathematical value.
pub enum ScanEventView {
    NoMoreOutputs,
    Output(bool),
    NoMoreDevices,
    Device(u32, Seq<char>),
}

impl View for ScanEvent {
    type V = ScanEventView;

    open spec fn view(&self) -> ScanEventView {
        match self {
            ScanEvent::NoMoreOutputs => ScanEventView::NoMoreOutputs,
            ScanEvent::Output(attached) => ScanEventView::Output(*attached),
            ScanEvent::NoMoreDevices => ScanEventView::NoMoreDevices,
            ScanEvent::Device(flags, id) => ScanEventView::Device(*flags, id@),
        }
    }
}

/// A display device that is attached to the desktop and is the monitor asked for.
pub open spec fn device_selected(state_flags: u32, id: Seq<char>, wanted: Option<Seq<char>>) -> bool {
    &&& state_flags & DISPLAY_ATTACHED_TO_DESKTOP != 0
    &&& match wanted {
        None => true,
        Some(w) => w == id,
    }
}

/// The event answers the action: outputs answer output enumeration, display devices
/// answer device enumeration, and the indices leave room to move on.
pub open spec fn scan_event_fits(action: ScanAction, event: ScanEventView) -> bool {
    match action {
        ScanAction::EnumerateOutput(i) => match event {
            ScanEventView::NoMoreOutputs => true,
            ScanEventView::Output(_) => i < u32::MAX,
            _ => false,
        },
        ScanAction::EnumerateDevice(o, d) => match event {
            ScanEventView::NoMoreDevices => o < u32::MAX,
            ScanEventView::Device(_, _) => d < u32::MAX,
            _ => false,
        },
        _ => false,
    }
}

/// The action that follows `event`, the answer to `action`: an output not attached to
/// the desktop is passed over, an attached one has its display devices enumerated in
/// turn; the first attached device that is the monitor asked for has its output
/// duplicated; an output out of devices gives way to the next output, and running out
/// of outputs ends the search.
pub open spec fn scan_next(action: ScanAction, event: ScanEventView, wanted: Option<Seq<char>>) -> ScanAction {
    match action {
        ScanAction::EnumerateOutput(i) => match event {
            ScanEventView::Output(attached) => if attached {
                ScanAction::EnumerateDevice(i, 0)
            } else {
                ScanAction::EnumerateOutput((i + 1) as u32)
            },
            _ => ScanAction::GiveUp,
        },
        ScanAction::EnumerateDevice(o, d) => match event {
            ScanEventView::Device(flags, id) => if device_selected(flags, id, wanted) {
                ScanAction::Duplicate(o)
            } else {
                ScanAction::EnumerateDevice(o, (d + 1) as u32)
            },
            _ => ScanAction::EnumerateOutput((o + 1) as u32),
        },
        _ => action,
    }
}

/// The view of an optional monitor id.
pub open spec fn wanted_view(wanted: &Option<String>) -> Option<Seq<char>> {
    match wanted {
        None => None,
        Some(id) => Some(id@),
    }
}

/// Whether `event` may answer `action`: the test that `scan_step` asks of its caller.
pub fn scan_event_allowed(action: ScanAction, event: &ScanEvent) -> (allowed: bool)
    ensures
        allowed == scan_event_fits(action, event@),
{
    match action {
        ScanAction::EnumerateOutput(i) => match event {
            ScanEvent::NoMoreOutputs => true,
            ScanEvent::Output(_) => i < u32::MAX,
            _ => false,
        },
        ScanAction::EnumerateDevice(o, d) => match event {
            ScanEvent::NoMoreDevices => o < u32::MAX,
            ScanEvent::Device(_, _) => d < u32::MAX,
            _ => false,
        },
        _ => false,
    }
}

/// Decides the next step of the search for the output to duplicate.
pub fn scan_step(action: ScanAction, event: &ScanEvent, wanted: &Option<String>) -> (next:
    ScanAction)
    requires
        scan_event_fits(action, event@),
    ensures
        next == scan_next(action, event@, wanted_view(wanted)),
{
    match action {
        ScanAction::EnumerateOutput(i) => match event {
            ScanEvent::Output(attached) => if *attached {
                ScanAction::EnumerateDevice(i, 0)
            } else {
                ScanAction::EnumerateOutput(i + 1)
            },
            _ => ScanAction::GiveUp,
        },
        ScanAction::EnumerateDevice(o, d) => match event {
            ScanEvent::Device(flags, id) => {
                if attached_to_desktop(*flags) && monitor_wanted(wanted, id) {
                    ScanAction::Duplicate(o)
                } else {
                    ScanAction::EnumerateDevice(o, d + 1)
                }
            },
            _ => ScanAction::EnumerateOutput(o + 1),
        },
        _ => action,
    }
}

/// A display device as enumeration reports it.
pub struct DisplayView {
    pub state_flags: u32,
    pub id: Seq<char>,
}

/// An output as enumeration reports it, with its display devices in order.
pub struct OutputView {
    pub attached: bool,
    pub devices: Seq<DisplayView>,
}

/// The event that enumeration of the outputs `outputs` answers `action` with.
pub open spec fn scan_event_of(outputs: Seq<OutputView>, action: ScanAction) -> ScanEventView {
    match action {
        ScanAction::EnumerateOutput(i) => if i < outputs.len() {
            ScanEventView::Output(outputs[i as int].attached)
        } else {
            ScanEventView::NoMoreOutputs
        },
        ScanAction::EnumerateDevice(o, d) => if o < outputs.len() && d < outputs[o as int].devices.len() {
            ScanEventView::Device(
                outputs[o as int].devices[d as int].state_flags,
                outputs[o as int].devices[d as int].id,
            )
        } else {
            ScanEventView::NoMoreDevices
        },
        _ => ScanEventView::NoMoreOutputs,
    }
}

/// The search over `outputs`, `fuel` steps on from `action`.
pub open spec fn scan_run(
    outputs: Seq<OutputView>,
    wanted: Option<Seq<char>>,
    action: ScanAction,
    fuel: nat,
) -> ScanAction
    decreases fuel,
{
    if fuel == 0 {
        action
    } else {
        match action {
            ScanAction::EnumerateOutput(_) | ScanAction::EnumerateDevice(_, _) => scan_run(
                outputs,
                wanted,
                scan_next(action, scan_event_of(outputs, action), wanted),
                (fuel - 1) as nat,
            ),
            _ => action,
        }
    }
}

/// Whether output `out` is attached to the desktop and has a display device that is
/// the monitor asked for.
pub open spec fn output_selected(out: OutputView, wanted: Option<Seq<char>>) -> bool {
    out.attached && exists|d: int|
        0 <= d < out.devices.len() && #[trigger] device_selected(
            out.devices[d].state_flags,
            out.devices[d].id,
            wanted,
        )
}

/// The index of the first output from `from` on that `output_selected` holds of.
pub open spec fn first_selected_output(outputs: Seq<OutputView>, wanted: Option<Seq<char>>, from: nat) -> Option<nat>
    decreases outputs.len() - from,
{
    if from >= outputs.len() {
        None
    } else if output_selected(outputs[from as int], wanted) {
        Some(from)
    } else {
        first_selected_output(outputs, wanted, from + 1)
    }
}

/// Enough steps to search outputs `from` on: one per output and per device, and one
/// per output for running out of devices.
pub open spec fn scan_steps(outputs: Seq<OutputView>, from: nat) -> nat
    decreases outputs.len() - from,
{
    if from >= outputs.len() {
        1
    } else {
        outputs[from as int].devices.len() + 2 + scan_steps(outputs, from + 1)
    }
}

proof fn lemma_scan_run_split(
    outputs: Seq<OutputView>,
    wanted: Option<Seq<char>>,
    action: ScanAction,
    f1: nat,
    f2: nat,
)
    ensures
        scan_run(outputs, wanted, action, f1 + f2) == scan_run(
            outputs,
            wanted,
            scan_run(outputs, wanted, action, f1),
            f2,
        ),
    decreases f1,
{
    if f1 > 0 {
        match action {
            ScanAction::EnumerateOutput(_) | ScanAction::EnumerateDevice(_, _) => {
                let next = scan_next(action, scan_event_of(outputs, action), wanted);
                lemma_scan_run_split(outputs, wanted, next, (f1 - 1) as nat, f2);
                assert((f1 + f2 - 1) as nat == ((f1 - 1) as nat + f2) as nat);
            },
            _ => {
                lemma_scan_run_terminal(outputs, wanted, action, f2);
                lemma_scan_run_terminal(outputs, wanted, action, f1 + f2);
            },
        }
    }
}

proof fn lemma_scan_run_terminal(
    outputs: Seq<OutputView>,
    wanted: Option<Seq<char>>,
    action: ScanAction,
    fuel: nat,
)
    requires
        action is Duplicate || action is GiveUp,
    ensures
        scan_run(outputs, wanted, action, fuel) == action,
    decreases fuel,
{
}

/// The devices of output `o` from `d` on: the search duplicates `o` if one of them is
/// selected, else moves on to the next output once they run out.
proof fn lemma_scan_devices(
    outputs: Seq<OutputView>,
    wanted: Option<Seq<char>>,
    o: nat,
    d: nat,
)
    requires
        o < outputs.len() < u32::MAX,
        outputs[o as int].devices.len() < u32::MAX,
        d <= outputs[o as int].devices.len(),
    ensures
        (exists|k: int|
            d <= k < outputs[o as int].devices.len() && #[trigger] device_selected(
                outputs[o as int].devices[k].state_flags,
                outputs[o as int].devices[k].id,
                wanted,
            )) ==> scan_run(
            outputs,
            wanted,
            ScanAction::EnumerateDevice(o as u32, d as u32),
            (outputs[o as int].devices.len() - d + 1) as nat,
        ) == ScanAction::Duplicate(o as u32),
        (forall|k: int|
            d <= k < outputs[o as int].devices.len() ==> !#[trigger] device_selected(
                outputs[o as int].devices[k].state_flags,
                outputs[o as int].devices[k].id,
                wanted,
            )) ==> scan_run(
            outputs,
            wanted,
            ScanAction::EnumerateDevice(o as u32, d as u32),
            (outputs[o as int].devices.len() - d + 1) as nat,
        ) == ScanAction::EnumerateOutput((o + 1) as u32),
    decreases outputs[o as int].devices.len() - d,
{
    let devs = outputs[o as int].devices;
    let action = ScanAction::EnumerateDevice(o as u32, d as u32);
    let fuel = (devs.len() - d + 1) as nat;
    if d == devs.len() {
        assert(scan_event_of(outputs, action) == ScanEventView::NoMoreDevices);
        assert(scan_next(action, ScanEventView::NoMoreDevices, wanted) == ScanAction::EnumerateOutput(
            (o + 1) as u32,
        ));
        assert(fuel == 1);
        assert(scan_run(outputs, wanted, action, fuel) == scan_run(
            outputs,
            wanted,
            ScanAction::EnumerateOutput((o + 1) as u32),
            0,
        ));
    } else {
        let dev = devs[d as int];
        assert(scan_event_of(outputs, action) == ScanEventView::Device(dev.state_flags, dev.id));
        if device_selected(dev.state_flags, dev.id, wanted) {
            lemma_scan_run_terminal(
                outputs,
                wanted,
                ScanAction::Duplicate(o as u32),
                (fuel - 1) as nat,
            );
        } else {
            lemma_scan_devices(outputs, wanted, o, d + 1);
            assert(((d + 1) as u32) == (d as u32) + 1);
            if exists|k: int| d <= k < devs.len() && #[trigger] device_selected(
                devs[k].state_flags,
                devs[k].id,
                wanted,
            ) {
                let k = choose|k: int| d <= k < devs.len() && #[trigger] device_selected(
                    devs[k].state_flags,
                    devs[k].id,
                    wanted,
                );
                assert(k != d);
                assert(d + 1 <= k);
            }
        }
    }
}

/// The search from output `from` on duplicates the first output from there on that
/// is attached and has a selected display device, and gives up when there is none.
proof fn lemma_scan_outputs(outputs: Seq<OutputView>, wanted: Option<Seq<char>>, from: nat)
    requires
        from <= outputs.len() < u32::MAX,
        forall|o: int| 0 <= o < outputs.len() ==> #[trigger] outputs[o].devices.len() < u32::MAX,
    ensures
        scan_run(
            outputs,
            wanted,
            ScanAction::EnumerateOutput(from as u32),
            scan_steps(outputs, from),
        ) == match first_selected_output(outputs, wanted, from) {
            Some(o) => ScanAction::Duplicate(o as u32),
            None => ScanAction::GiveUp,
        },
    decreases outputs.len() - from,
{
    let action = ScanAction::EnumerateOutput(from as u32);
    if from == outputs.len() {
        lemma_scan_run_terminal(outputs, wanted, ScanAction::GiveUp, 0);
    } else {
        let out = outputs[from as int];
        let rest = scan_steps(outputs, from + 1);
        lemma_scan_outputs(outputs, wanted, from + 1);
        assert(((from + 1) as u32) == (from as u32) + 1);
        if out.attached {
            let dev_fuel = (out.devices.len() + 1) as nat;
            lemma_scan_devices(outputs, wanted, from, 0);
            lemma_scan_run_split(
                outputs,
                wanted,
                ScanAction::EnumerateDevice(from as u32, 0),
                dev_fuel,
                rest,
            );
            assert(scan_steps(outputs, from) == 1 + (dev_fuel + rest));
            if output_selected(out, wanted) {
                let k = choose|k: int| 0 <= k < out.devices.len() && #[trigger] device_selected(
                    out.devices[k].state_flags,
                    out.devices[k].id,
                    wanted,
                );
                assert(0 <= k < outputs[from as int].devices.len());
                lemma_scan_run_terminal(outputs, wanted, ScanAction::Duplicate(from as u32), rest);
            }
        } else {
            lemma_scan_run_split(
                outputs,
                wanted,
                ScanAction::EnumerateOutput((from + 1) as u32),
                rest,
                (out.devices.len() + 1) as nat,
            );
            let tail = scan_run(outputs, wanted, ScanAction::EnumerateOutput((from + 1) as u32), rest);
            lemma_scan_run_terminal(outputs, wanted, tail, (out.devices.len() + 1) as nat);
            assert(scan_steps(outputs, from) == 1 + (rest + (out.devices.len() + 1) as nat));
        }
    }
}

/// Searching every output from the first duplicates the first output that is
/// attached to the desktop and has an attached display device that is the monitor
/// asked for (any such device when none is named), and fails when there is none.
pub proof fn lemma_scan_selects_first_matching_output(
    outputs: Seq<OutputView>,
    wanted: Option<Seq<char>>,
)
    requires
        outputs.len() < u32::MAX,
        forall|o: int| 0 <= o < outputs.len() ==> #[trigger] outputs[o].devices.len() < u32::MAX,
    ensures
        scan_run(outputs, wanted, ScanAction::EnumerateOutput(0), scan_steps(outputs, 0)) == match first_selected_output(outputs, wanted, 0) {
            Some(o) => ScanAction::Duplicate(o as u32),
            None => ScanAction::GiveUp,
        },
{
    lemma_scan_outputs(outputs, wanted, 0);
}

/// A display device whose state flags lack the attached-to-desktop bit (0x1) never
/// gets its output duplicated: the search moves on to the next device of the same
/// output, whatever monitor is asked for. An attached device whose id is the monitor
/// asked for (or any attached device when none is named) gets its output duplicated.
pub proof fn lemma_scan_passes_over_detached_devices(
    o: u32,
    d: u32,
    state_flags: u32,
    id: Seq<char>,
    wanted: Option<Seq<char>>,
)
    ensures
        state_flags & 0x1u32 == 0 ==> scan_next(
            ScanAction::EnumerateDevice(o, d),
            ScanEventView::Device(state_flags, id),
            wanted,
        ) == ScanAction::EnumerateDevice(o, (d + 1) as u32),
        (state_flags & 0x1u32 != 0 && (wanted is None || wanted == Some(id))) ==> scan_next(
            ScanAction::EnumerateDevice(o, d),
            ScanEventView::Device(state_flags, id),
            wanted,
        ) == ScanAction::Duplicate(o),
        (wanted matches Some(w) && w != id) ==> scan_next(
            ScanAction::EnumerateDevice(o, d),
            ScanEventView::Device(state_flags, id),
            wanted,
        ) == ScanAction::EnumerateDevice(o, (d + 1) as u32),
{
}

proof fn lemma_first_selected_output(outputs: Seq<OutputView>, wanted: Option<Seq<char>>, from: nat)
    ensures
        first_selected_output(outputs, wanted, from) matches Some(o) ==> from <= o < outputs.len()
            && output_selected(outputs[o as int], wanted) && forall|p: int|
            from <= p < o ==> !#[trigger] output_selected(outputs[p], wanted),
        first_selected_output(outputs, wanted, from) is None ==> forall|p: int|
            from <= p < outputs.len() ==> !#[trigger] output_selected(outputs[p], wanted),
    decreases outputs.len() - from,
{
    if from < outputs.len() && !output_selected(outputs[from as int], wanted) {
        lemma_first_selected_output(outputs, wanted, from + 1);
    }
}

/// A display device that is attached to the desktop (state flag bit 0x1 set) and,
/// when a monitor is named, has that monitor's id.
pub open spec fn attached_wanted_device(dev: DisplayView, wanted: Option<Seq<char>>) -> bool {
    &&& dev.state_flags & 0x1u32 != 0
    &&& match wanted {
        None => true,
        Some(w) => w == dev.id,
    }
}

/// Searching every output duplicates output `o` only if `o` is attached to the
/// desktop and has a display device whose state flags have the attached bit (0x1)
/// set and whose id is the monitor asked for (any such device when none is named),
/// and no earlier output is both attached and has such a device; the search gives up
/// only when no output has one.
pub proof fn lemma_scan_duplicates_only_attached_devices(
    outputs: Seq<OutputView>,
    wanted: Option<Seq<char>>,
)
    requires
        outputs.len() < u32::MAX,
        forall|o: int| 0 <= o < outputs.len() ==> #[trigger] outputs[o].devices.len() < u32::MAX,
    ensures
        scan_run(outputs, wanted, ScanAction::EnumerateOutput(0), scan_steps(outputs, 0)) matches ScanAction::Duplicate(o) ==> {
            &&& o < outputs.len()
            &&& outputs[o as int].attached
            &&& exists|d: int|
                0 <= d < outputs[o as int].devices.len() && #[trigger] attached_wanted_device(
                    outputs[o as int].devices[d],
                    wanted,
                )
            &&& forall|p: int, d: int|
                0 <= p < o && 0 <= d < outputs[p].devices.len() && outputs[p].attached
                    ==> !#[trigger] attached_wanted_device(outputs[p].devices[d], wanted)
        },
        scan_run(outputs, wanted, ScanAction::EnumerateOutput(0), scan_steps(outputs, 0)) is Duplicate
            || scan_run(outputs, wanted, ScanAction::EnumerateOutput(0), scan_steps(outputs, 0)) is GiveUp,
        scan_run(outputs, wanted, ScanAction::EnumerateOutput(0), scan_steps(outputs, 0)) is GiveUp
            ==> forall|p: int, d: int|
            0 <= p < outputs.len() && 0 <= d < outputs[p].devices.len() && outputs[p].attached
                ==> !#[trigger] attached_wanted_device(outputs[p].devices[d], wanted),
{
    lemma_scan_selects_first_matching_output(outputs, wanted);
    lemma_first_selected_output(outputs, wanted, 0);
    assert forall|p: int, d: int| 0 <= d < outputs[p].devices.len() implies device_selected(
        outputs[p].devices[d].state_flags,
        outputs[p].devices[d].id,
        wanted,
    ) == #[trigger] attached_wanted_device(outputs[p].devices[d], wanted) by {}
    match first_selected_output(outputs, wanted, 0) {
        Some(o) => {
            let out = outputs[o as int];
            let k = choose|k: int| 0 <= k < out.devices.len() && #[trigger] device_selected(
                out.devices[k].state_flags,
                out.devices[k].id,
                wanted,
            );
            assert(attached_wanted_device(outputs[o as int].devices[k], wanted));
            assert forall|p: int, d: int|
                0 <= p < o && 0 <= d < outputs[p].devices.len() && outputs[p].attached
                    implies !#[trigger] attached_wanted_device(outputs[p].devices[d], wanted) by {
                assert(!output_selected(outputs[p], wanted));
                if attached_wanted_device(outputs[p].devices[d], wanted) {
                    assert(device_selected(
                        outputs[p].devices[d].state_flags,
                        outputs[p].devices[d].id,
                        wanted,
                    ));
                }
            }
        },
        None => {
            assert forall|p: int, d: int|
                0 <= p < outputs.len() && 0 <= d < outputs[p].devices.len() && outputs[p].attached
                    implies !#[trigger] attached_wanted_device(outputs[p].devices[d], wanted) by {
                assert(!output_selected(outputs[p], wanted));
                if attached_wanted_device(outputs[p].devices[d], wanted) {
                    assert(device_selected(
                        outputs[p].devices[d].state_flags,
                        outputs[p].devices[d].id,
                        wanted,
                    ));
                }
            }
        },
    }
}

} // verus!

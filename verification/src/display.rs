//! Monitor descriptions, display-mode snapshots and the switch/restore
//! state of the display controller.
use vstd::prelude::*;
use crate::text::{chars_eq, chars_of, is_blank, str_blank};

pub mod native;

verus! {

broadcast use vstd::string::group_string_axioms;

/// A monitor as the settings page lists it.
#[derive(Clone, Debug)]
pub struct MonitorInfo {
    pub id: String,
    pub name: String,
    pub monitor_type: String,
    pub active: bool,
    pub primary: bool,
    pub bounds: String,
    pub hardware_id: String,
}

/// The mathematical content of a `MonitorInfo`.
pub struct MonitorInfoView {
    pub id: Seq<char>,
    pub name: Seq<char>,
    pub monitor_type: Seq<char>,
    pub active: bool,
    pub primary: bool,
    pub bounds: Seq<char>,
    pub hardware_id: Seq<char>,
}

impl View for MonitorInfo {
    type V = MonitorInfoView;

    open spec fn view(&self) -> MonitorInfoView {
        MonitorInfoView {
            id: self.id@,
            name: self.name@,
            monitor_type: self.monitor_type@,
            active: self.active,
            primary: self.primary,
            bounds: self.bounds@,
            hardware_id: self.hardware_id@,
        }
    }
}

impl MonitorInfo {
    /// A field-by-field copy.
    pub fn duplicate(&self) -> (r: MonitorInfo)
        ensures
            r@ == self@,
    {
        MonitorInfo {
            id: self.id.clone(),
            name: self.name.clone(),
            monitor_type: self.monitor_type.clone(),
            active: self.active,
            primary: self.primary,
            bounds: self.bounds.clone(),
            hardware_id: self.hardware_id.clone(),
        }
    }
}

/// One display's mode and placement, as recorded for a later restore.
#[derive(Clone, Debug)]
pub struct DisplayModeSnapshot {
    pub id: String,
    pub device_name: String,
    pub device_string: String,
    pub hardware_id: String,
    pub active: bool,
    pub primary: bool,
    pub x: i32,
    pub y: i32,
    pub width: u32,
    pub height: u32,
    pub bits_per_pel: u32,
    pub frequency: u32,
    pub orientation: u32,
    pub fixed_output: u32,
}

/// The mathematical content of a `DisplayModeSnapshot`.
pub struct ModeView {
    pub id: Seq<char>,
    pub device_name: Seq<char>,
    pub device_string: Seq<char>,
    pub hardware_id: Seq<char>,
    pub active: bool,
    pub primary: bool,
    pub x: i32,
    pub y: i32,
    pub width: u32,
    pub height: u32,
    pub bits_per_pel: u32,
    pub frequency: u32,
    pub orientation: u32,
    pub fixed_output: u32,
}

impl View for DisplayModeSnapshot {
    type V = ModeView;

    open spec fn view(&self) -> ModeView {
        ModeView {
            id: self.id@,
            device_name: self.device_name@,
            device_string: self.device_string@,
            hardware_id: self.hardware_id@,
            active: self.active,
            primary: self.primary,
            x: self.x,
            y: self.y,
            width: self.width,
            height: self.height,
            bits_per_pel: self.bits_per_pel,
            frequency: self.frequency,
            orientation: self.orientation,
            fixed_output: self.fixed_output,
        }
    }
}

impl DisplayModeSnapshot {
    /// A field-by-field copy.
    pub fn duplicate(&self) -> (r: DisplayModeSnapshot)
        ensures
            r@ == self@,
    {
        DisplayModeSnapshot {
            id: self.id.clone(),
            device_name: self.device_name.clone(),
            device_string: self.device_string.clone(),
            hardware_id: self.hardware_id.clone(),
            active: self.active,
            primary: self.primary,
            x: self.x,
            y: self.y,
            width: self.width,
            height: self.height,
            bits_per_pel: self.bits_per_pel,
            frequency: self.frequency,
            orientation: self.orientation,
            fixed_output: self.fixed_output,
        }
    }
}

/// The views of optional modes.
pub open spec fn opt_mode_view(m: Option<DisplayModeSnapshot>) -> Option<ModeView> {
    match m {
        Some(s) => Some(s@),
        None => None,
    }
}

/// A copy of an optional mode.
pub fn duplicate_mode(m: &Option<DisplayModeSnapshot>) -> (r: Option<DisplayModeSnapshot>)
    ensures
        opt_mode_view(r) == opt_mode_view(*m),
{
    match m {
        Some(s) => Some(s.duplicate()),
        None => None,
    }
}

/// The whole display layout: every display whose mode could be read.
#[derive(Clone, Debug)]
pub struct DisplayLayoutSnapshot {
    pub displays: Vec<DisplayModeSnapshot>,
}

/// The views of a sequence of modes.
pub open spec fn mode_views(s: Seq<DisplayModeSnapshot>) -> Seq<ModeView> {
    s.map_values(|m: DisplayModeSnapshot| m@)
}

/// The views of a sequence of monitors.
pub open spec fn info_views(s: Seq<MonitorInfo>) -> Seq<MonitorInfoView> {
    s.map_values(|m: MonitorInfo| m@)
}

/// The single entry listed when no monitor can be enumerated.
pub open spec fn fallback_view() -> MonitorInfoView {
    MonitorInfoView {
        id: "\\\\.\\DISPLAY1"@,
        name: "Primary display"@,
        monitor_type: "physical"@,
        active: true,
        primary: true,
        bounds: "Unknown"@,
        hardware_id: Seq::empty(),
    }
}

/// The list shown when the platform gives no monitor.
pub fn fallback_monitors() -> (r: Vec<MonitorInfo>)
    ensures
        info_views(r@) == seq![fallback_view()],
{
    let mut r: Vec<MonitorInfo> = Vec::new();
    r.push(
        MonitorInfo {
            id: "\\\\.\\DISPLAY1".to_string(),
            name: "Primary display".to_string(),
            monitor_type: "physical".to_string(),
            active: true,
            primary: true,
            bounds: "Unknown".to_string(),
            hardware_id: String::new(),
        },
    );
    assert(info_views(r@) =~= seq![fallback_view()]);
    r
}

/// Whether a monitor is of the virtual kind.
pub open spec fn is_virtual_kind(m: MonitorInfoView) -> bool {
    m.monitor_type == "virtual"@
}

/// The milliseconds during which a switch is refused after a restore.
pub const RESTORE_COOLDOWN_MS: u64 = 3000;

/// The switch/restore state of the display controller. Time is counted in
/// milliseconds on a monotonic clock that the caller reads.
#[derive(Clone, Copy, Debug, PartialEq, Eq)]
pub struct DisplayController {
    pub cooldown_until: Option<u64>,
    pub initial_state_captured: bool,
    pub switched: bool,
}

impl DisplayController {
    /// A controller that has switched nothing and recorded no baseline.
    pub fn new() -> (r: DisplayController)
        ensures
            r.cooldown_until is None,
            !r.initial_state_captured,
            !r.switched,
    {
        DisplayController { cooldown_until: None, initial_state_captured: false, switched: false }
    }

    /// Whether the output is currently switched to the target display.
    pub fn is_switched(&self) -> (r: bool)
        ensures
            r == self.switched,
    {
        self.switched
    }

    /// The startup layout is available: it was captured in this run and its
    /// file still exists.
    pub open spec fn baseline_ready(&self, file_exists: bool) -> bool {
        self.initial_state_captured && file_exists
    }

    /// Whether a startup layout is available (`file_exists` tells whether
    /// its file is on disk).
    pub fn has_initial_state(&self, file_exists: bool) -> (r: bool)
        ensures
            r == self.baseline_ready(file_exists),
    {
        self.initial_state_captured && file_exists
    }

    /// Whether one of the listed monitors is a virtual display.
    pub fn is_vdd_installed(&self, monitors: &Vec<MonitorInfo>) -> (r: bool)
        ensures
            r == exists|i: int| 0 <= i < monitors@.len() && is_virtual_kind(#[trigger] monitors@[i]@),
    {
        let n = monitors.len();
        for i in 0..n
            invariant
                n == monitors@.len(),
                forall|k: int| 0 <= k < i ==> !is_virtual_kind(#[trigger] monitors@[k]@),
        {
            let t = chars_of(monitors[i].monitor_type.as_str());
            let v = chars_of("virtual");
            if chars_eq(&t, &v) {
                assert(is_virtual_kind(monitors@[i as int]@));
                return true;
            }
        }
        false
    }

    /// The monitors to list: the enumerated ones, or the fallback entry when
    /// enumeration failed or found none.
    pub fn get_all_monitors(&self, enumerated: Result<Vec<MonitorInfo>, String>) -> (r: Vec<MonitorInfo>)
        ensures
            match enumerated {
                Ok(ms) => if ms@.len() > 0 {
                    r@ == ms@
                } else {
                    info_views(r@) == seq![fallback_view()]
                },
                Err(_) => info_views(r@) == seq![fallback_view()],
            },
    {
        match enumerated {
            Ok(monitors) => {
                if monitors.len() > 0 {
                    monitors
                } else {
                    fallback_monitors()
                }
            },
            Err(_) => fallback_monitors(),
        }
    }

    /// Whether the current layout may be recorded as the startup baseline:
    /// never while the output is switched (the baseline would then be the
    /// switched layout).
    pub fn capture_initial_state(&self) -> (r: CaptureStep)
        ensures
            r == capture_step(*self),
    {
        if self.switched {
            CaptureStep::Refuse
        } else {
            CaptureStep::Capture
        }
    }

    /// Whether a baseline must be captured: none when one is ready, else as
    /// `capture_initial_state`.
    pub fn capture_initial_state_if_needed(&self, file_exists: bool) -> (r: CaptureStep)
        ensures
            r == capture_if_needed_step(*self, file_exists),
    {
        if self.has_initial_state(file_exists) {
            CaptureStep::Ready
        } else {
            self.capture_initial_state()
        }
    }

    /// Takes back the outcome of a capture (`saved`: the layout was captured
    /// and written); answers it.
    pub fn record_capture(&mut self, saved: bool) -> (r: bool)
        ensures
            r == saved,
            *final(self) == (DisplayController {
                initial_state_captured: old(self).initial_state_captured || saved,
                ..*old(self)
            }),
    {
        if saved {
            self.initial_state_captured = true;
        }
        saved
    }

    /// A switch is held back until this instant has passed.
    pub open spec fn in_cooldown(&self, now: u64) -> bool {
        match self.cooldown_until {
            Some(until) => now < until,
            None => false,
        }
    }

    /// What a switch to `display_id` comes to: refused for a blank id, during
    /// the cooldown after a restore, and when no baseline is ready and none
    /// may be captured; else the platform switch, preceded by a capture when
    /// no baseline is ready.
    pub fn switch_to_display(&self, display_id: &str, now: u64, file_exists: bool) -> (r: SwitchStep)
        ensures
            r == switch_step(*self, display_id@, now, file_exists),
    {
        if str_blank(display_id) {
            return SwitchStep::Refuse;
        }
        let in_cooldown = match self.cooldown_until {
            Some(until) => now < until,
            None => false,
        };
        if in_cooldown {
            return SwitchStep::Refuse;
        }
        match self.capture_initial_state_if_needed(file_exists) {
            CaptureStep::Ready => SwitchStep::Switch,
            CaptureStep::Refuse => SwitchStep::Refuse,
            CaptureStep::Capture => SwitchStep::CaptureThenSwitch,
        }
    }

    /// Takes back the outcome of the platform switch; answers it.
    pub fn record_switch(&mut self, ok: bool) -> (r: bool)
        ensures
            r == ok,
            *final(self) == (DisplayController { switched: old(self).switched || ok, ..*old(self) }),
    {
        if ok {
            self.switched = true;
        }
        ok
    }

    /// What a restore comes to: refused without a baseline, else reading the
    /// recorded layout.
    pub fn restore_display(&self, file_exists: bool) -> (r: RestoreStep)
        ensures
            r == (if self.baseline_ready(file_exists) {
                RestoreStep::Load
            } else {
                RestoreStep::Refuse
            }),
    {
        if self.has_initial_state(file_exists) {
            RestoreStep::Load
        } else {
            RestoreStep::Refuse
        }
    }

    /// Takes back the recorded layout as it was read; gives the layout to
    /// apply. One that could not be read is applied nowhere, and the
    /// baseline is forgotten, so that a new one gets captured.
    pub fn loaded_baseline(&mut self, loaded: Option<DisplayLayoutSnapshot>) -> (r: Option<DisplayLayoutSnapshot>)
        ensures
            r == loaded,
            loaded is None ==> *final(self) == (DisplayController {
                initial_state_captured: false,
                ..*old(self)
            }),
            loaded is Some ==> *final(self) == *old(self),
    {
        if loaded.is_none() {
            self.initial_state_captured = false;
        }
        loaded
    }

    /// Takes back the outcome of applying the recorded layout at `now`;
    /// answers it. After a success the output is no longer switched and
    /// switching is held back for `RESTORE_COOLDOWN_MS`.
    pub fn record_restore(&mut self, ok: bool, now: u64) -> (r: bool)
        requires
            now <= u64::MAX - RESTORE_COOLDOWN_MS,
        ensures
            r == ok,
            ok ==> *final(self) == (DisplayController {
                switched: false,
                cooldown_until: Some((now + RESTORE_COOLDOWN_MS) as u64),
                ..*old(self)
            }),
            !ok ==> *final(self) == *old(self),
    {
        if ok {
            self.switched = false;
            self.cooldown_until = Some(now + RESTORE_COOLDOWN_MS);
        }
        ok
    }
}

/// What a capture of the startup layout comes to.
#[derive(Clone, Copy, Debug, PartialEq, Eq, Structural)]
pub enum CaptureStep {
    /// A baseline is already there: nothing to capture.
    Ready,
    /// No capture may be made.
    Refuse,
    /// Capture the layout, write it, and record the outcome.
    Capture,
}

/// What a switch comes to.
#[derive(Clone, Copy, Debug, PartialEq, Eq, Structural)]
pub enum SwitchStep {
    /// No display is changed.
    Refuse,
    /// Capture a baseline first; switch only if that succeeded.
    CaptureThenSwitch,
    /// Switch now.
    Switch,
}

/// What a restore comes to.
#[derive(Clone, Copy, Debug, PartialEq, Eq, Structural)]
pub enum RestoreStep {
    /// No file is read and no display is changed.
    Refuse,
    /// Read the recorded layout.
    Load,
}

/// The capture decision.
pub open spec fn capture_step(c: DisplayController) -> CaptureStep {
    if c.switched {
        CaptureStep::Refuse
    } else {
        CaptureStep::Capture
    }
}

/// The capture decision when a ready baseline suffices.
pub open spec fn capture_if_needed_step(c: DisplayController, file_exists: bool) -> CaptureStep {
    if c.baseline_ready(file_exists) {
        CaptureStep::Ready
    } else {
        capture_step(c)
    }
}

/// The switch decision.
pub open spec fn switch_step(c: DisplayController, id: Seq<char>, now: u64, file_exists: bool) -> SwitchStep {
    if is_blank(id) || c.in_cooldown(now) {
        SwitchStep::Refuse
    } else {
        match capture_if_needed_step(c, file_exists) {
            CaptureStep::Ready => SwitchStep::Switch,
            CaptureStep::Refuse => SwitchStep::Refuse,
            CaptureStep::Capture => SwitchStep::CaptureThenSwitch,
        }
    }
}

/// A switch never runs without a baseline: it is made at once only when a
/// baseline is ready, and otherwise only after a capture, which is refused
/// while switched; a capture that fails switches nothing, and one that
/// succeeds leaves a baseline behind.
pub proof fn law_switch_needs_baseline(c: DisplayController, id: Seq<char>, now: u64, file_exists: bool, saved: bool)
    ensures
        switch_step(c, id, now, file_exists) == SwitchStep::Switch ==> c.baseline_ready(file_exists),
        switch_step(c, id, now, file_exists) == SwitchStep::CaptureThenSwitch ==> !c.switched
            && capture_step(c) == CaptureStep::Capture,
        c.switched && !c.baseline_ready(file_exists) ==> switch_step(c, id, now, file_exists)
            == SwitchStep::Refuse,
        saved && file_exists ==> (DisplayController {
            initial_state_captured: c.initial_state_captured || saved,
            ..c
        }).baseline_ready(file_exists),
{
}

/// After a successful restore at `t`, a switch asked for before
/// `t + RESTORE_COOLDOWN_MS` is refused, whatever the display, and from then
/// on it is not held back.
pub proof fn law_restore_starts_cooldown(c: DisplayController, t: u64, later: u64, id: Seq<char>, file_exists: bool)
    requires
        t <= u64::MAX - RESTORE_COOLDOWN_MS,
        c.cooldown_until == Some((t + RESTORE_COOLDOWN_MS) as u64),
    ensures
        t <= later < t + RESTORE_COOLDOWN_MS ==> c.in_cooldown(later) && switch_step(c, id, later, file_exists)
            == SwitchStep::Refuse,
        later >= t + RESTORE_COOLDOWN_MS ==> !c.in_cooldown(later),
{
}

} // verus!

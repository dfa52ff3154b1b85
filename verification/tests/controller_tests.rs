use vdsleep::display::{
    fallback_monitors, CaptureStep, DisplayController, DisplayLayoutSnapshot, DisplayModeSnapshot, MonitorInfo,
    RestoreStep, SwitchStep, RESTORE_COOLDOWN_MS,
};

fn monitor(kind: &str) -> MonitorInfo {
    MonitorInfo {
        id: "x".to_string(),
        name: "n".to_string(),
        monitor_type: kind.to_string(),
        active: true,
        primary: false,
        bounds: String::new(),
        hardware_id: String::new(),
    }
}

fn snapshot() -> DisplayLayoutSnapshot {
    DisplayLayoutSnapshot {
        displays: vec![DisplayModeSnapshot {
            id: "d".to_string(),
            device_name: "\\\\.\\DISPLAY1".to_string(),
            device_string: String::new(),
            hardware_id: String::new(),
            active: true,
            primary: true,
            x: 0,
            y: 0,
            width: 1,
            height: 1,
            bits_per_pel: 32,
            frequency: 60,
            orientation: 0,
            fixed_output: 0,
        }],
    }
}

#[test]
fn fallback_entry() {
    let f = fallback_monitors();
    assert_eq!(f.len(), 1);
    assert_eq!(f[0].id, "\\\\.\\DISPLAY1");
    assert_eq!(f[0].name, "Primary display");
    assert_eq!(f[0].monitor_type, "physical");
    assert!(f[0].active && f[0].primary);
    assert_eq!(f[0].bounds, "Unknown");
    assert_eq!(f[0].hardware_id, "");
}

#[test]
fn monitors_or_fallback() {
    let c = DisplayController::new();
    assert_eq!(c.get_all_monitors(Ok(vec![monitor("virtual")]))[0].monitor_type, "virtual");
    assert_eq!(c.get_all_monitors(Ok(vec![]))[0].name, "Primary display");
    assert_eq!(c.get_all_monitors(Err("e".to_string()))[0].name, "Primary display");
}

#[test]
fn virtual_display_installed() {
    let c = DisplayController::new();
    assert!(c.is_vdd_installed(&vec![monitor("physical"), monitor("virtual")]));
    assert!(!c.is_vdd_installed(&vec![monitor("physical")]));
    assert!(!c.is_vdd_installed(&vec![]));
}

#[test]
fn baseline_capture() {
    let mut c = DisplayController::new();
    assert!(!c.has_initial_state(true));
    assert_eq!(c.capture_initial_state(), CaptureStep::Capture);
    assert!(!c.record_capture(false));
    assert!(!c.initial_state_captured);
    assert!(c.record_capture(true));
    assert!(c.has_initial_state(true));
    assert!(!c.has_initial_state(false));
    assert_eq!(c.capture_initial_state_if_needed(true), CaptureStep::Ready);
    assert_eq!(c.capture_initial_state_if_needed(false), CaptureStep::Capture);
    c.switched = true;
    let mut d = c;
    d.initial_state_captured = false;
    assert_eq!(d.capture_initial_state(), CaptureStep::Refuse);
    assert_eq!(d.capture_initial_state_if_needed(true), CaptureStep::Refuse);
    assert_eq!(c.capture_initial_state_if_needed(true), CaptureStep::Ready);
}

#[test]
fn switch_refusals_and_success() {
    let mut c = DisplayController::new();
    assert_eq!(c.switch_to_display("  ", 0, true), SwitchStep::Refuse);
    assert_eq!(c.switch_to_display("X", 0, false), SwitchStep::CaptureThenSwitch);
    assert!(!c.record_capture(false));
    assert!(!c.is_switched());
    assert_eq!(c.switch_to_display("X", 0, false), SwitchStep::CaptureThenSwitch);
    assert!(c.record_capture(true));
    assert_eq!(c.switch_to_display("X", 0, true), SwitchStep::Switch);
    assert!(c.record_switch(true));
    assert!(c.is_switched() && c.initial_state_captured);
    let mut f = DisplayController::new();
    f.switched = true;
    assert_eq!(f.switch_to_display("X", 0, true), SwitchStep::Refuse);
    let mut g = DisplayController::new();
    g.initial_state_captured = true;
    assert!(!g.record_switch(false));
    assert!(!g.is_switched());
}

#[test]
fn restore_then_cooldown() {
    let mut c = DisplayController::new();
    c.record_capture(true);
    c.record_switch(true);
    assert_eq!(c.restore_display(true), RestoreStep::Load);
    let s = c.loaded_baseline(Some(snapshot())).unwrap();
    assert_eq!(s.displays.len(), 1);
    assert!(c.record_restore(true, 1000));
    assert!(!c.is_switched());
    assert_eq!(c.cooldown_until, Some(1000 + RESTORE_COOLDOWN_MS));
    assert_eq!(c.switch_to_display("X", 3999, true), SwitchStep::Refuse);
    assert_eq!(c.switch_to_display("X", 4000, true), SwitchStep::Switch);
}

#[test]
fn restore_refusals() {
    let mut c = DisplayController::new();
    assert_eq!(c.restore_display(true), RestoreStep::Refuse);
    c.initial_state_captured = true;
    c.switched = true;
    assert_eq!(c.restore_display(false), RestoreStep::Refuse);
    assert!(c.initial_state_captured);
    assert_eq!(c.restore_display(true), RestoreStep::Load);
    assert!(c.loaded_baseline(None).is_none());
    assert!(!c.initial_state_captured && c.switched);
    c.initial_state_captured = true;
    assert!(!c.record_restore(false, 0));
    assert!(c.switched && c.cooldown_until.is_none());
}

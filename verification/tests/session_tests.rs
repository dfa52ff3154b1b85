use vdsleep::config::{DisplayConfig, WindowConfig};
use vdsleep::display::MonitorInfo;
use vdsleep::session::{
    active_monitor_id, after_resume, complete_deferred_restore, deferred_restore_done, handle_auto_mute, handle_display_switch, move_settled,
    on_connection_change, restore_requested, restores_on_resume, settings_followup, window_config_to_save, window_position, DisplayAction,
    MonitorArea, SessionFlags,
};

#[test]
fn auto_mute_follows_headset() {
    let mut f = SessionFlags::new();
    assert_eq!(handle_auto_mute(&mut f, true), None);
    assert_eq!(handle_auto_mute(&mut f, false), Some(true));
    assert!(f.auto_mute_was_muted);
    assert_eq!(handle_auto_mute(&mut f, true), Some(false));
    assert_eq!(handle_auto_mute(&mut f, true), None);
}

fn config(target: &str, enhanced: bool, key: u32) -> DisplayConfig {
    DisplayConfig { target_id: target.to_string(), enhanced_mode: enhanced, restore_key_scan_code: key, ..DisplayConfig::default() }
}

#[test]
fn display_switch_decisions() {
    let mut f = SessionFlags::new();
    f.restore_waiting_for_key = true;
    assert!(matches!(handle_display_switch(&mut f, true, &config("T", false, 0), false, true), DisplayAction::SwitchTo(t) if t == "T"));
    assert!(!f.restore_waiting_for_key);
    assert!(matches!(handle_display_switch(&mut f, true, &config(" ", false, 0), false, true), DisplayAction::Nothing));
    assert!(matches!(handle_display_switch(&mut f, true, &config("T", false, 0), false, false), DisplayAction::Nothing));
    assert!(matches!(handle_display_switch(&mut f, false, &config("T", true, 0x3B), true, true), DisplayAction::Nothing));
    assert!(f.restore_waiting_for_key);
    assert!(matches!(handle_display_switch(&mut f, false, &config("T", true, 0), true, true), DisplayAction::Restore));
    assert!(!f.restore_waiting_for_key);
    f.restore_waiting_for_key = true;
    assert!(matches!(handle_display_switch(&mut f, false, &config("T", false, 0), false, true), DisplayAction::Nothing));
    assert!(!f.restore_waiting_for_key);
}

#[test]
fn deferred_restore() {
    let mut f = SessionFlags::new();
    f.restore_waiting_for_key = true;
    assert_eq!(complete_deferred_restore(&mut f, false), None);
    assert!(!f.restore_waiting_for_key);
    f.restore_waiting_for_key = true;
    let step = complete_deferred_restore(&mut f, true);
    assert_eq!(step, Some(true));
    assert!(!f.restore_waiting_for_key);
    deferred_restore_done(&mut f, true, false);
    assert!(f.restore_waiting_for_key);
    assert_eq!(complete_deferred_restore(&mut f, true), Some(true));
    deferred_restore_done(&mut f, true, true);
    assert!(!f.restore_waiting_for_key);
    assert_eq!(complete_deferred_restore(&mut f, true), Some(false));
    deferred_restore_done(&mut f, false, false);
    assert!(!f.restore_waiting_for_key);
}

#[test]
fn connection_change_reactions() {
    let mut c = DisplayConfig::default();
    let p = on_connection_change(&c, false);
    assert!(p.capture_baseline && !p.auto_mute && p.follow_display);
    c.auto_mute = true;
    c.auto_switch = false;
    let q = on_connection_change(&c, true);
    assert!(!q.capture_baseline && q.auto_mute && !q.follow_display);
}

#[test]
fn resume_and_requests() {
    let mut f = SessionFlags::new();
    f.restore_waiting_for_key = true;
    assert!(after_resume(&mut f, true));
    assert!(!f.restore_waiting_for_key);
    assert!(!after_resume(&mut f, false));
    assert!(restores_on_resume(&DisplayConfig::default()));
    f.restore_waiting_for_key = true;
    restore_requested(&mut f);
    assert!(!f.restore_waiting_for_key);
}

#[test]
fn settings_followups() {
    let mut f = SessionFlags::new();
    f.restore_waiting_for_key = true;
    assert_eq!(settings_followup(&mut f, &config("", true, 1), true), (false, false));
    assert!(f.restore_waiting_for_key);
    assert_eq!(settings_followup(&mut f, &config("", false, 1), false), (true, true));
    assert!(!f.restore_waiting_for_key);
    assert_eq!(settings_followup(&mut f, &config("", false, 1), true), (false, false));
}

fn info(id: &str, active: bool, primary: bool) -> MonitorInfo {
    MonitorInfo { id: id.to_string(), name: String::new(), monitor_type: String::new(), active, primary, bounds: String::new(), hardware_id: String::new() }
}

#[test]
fn current_monitor_id() {
    assert_eq!(active_monitor_id(&vec![info("a", true, false), info("b", true, true), info("c", true, true)]), "b");
    assert_eq!(active_monitor_id(&vec![info("a", false, false), info("b", true, false)]), "b");
    assert_eq!(active_monitor_id(&vec![info("a", false, false)]), "");
}

#[test]
fn window_placement() {
    let wc = WindowConfig { x: 2600, y: 50, width: 800, height: 600 };
    let screens = vec![MonitorArea { x: 0, y: 0, width: 2560, height: 1440 }, MonitorArea { x: 2560, y: 0, width: 1920, height: 1080 }];
    assert_eq!(window_position(&wc, &screens), (2600, 50));
    assert_eq!(window_position(&wc, &vec![screens[0]]), (100, 100));
    assert_eq!(window_position(&WindowConfig { x: 2560, y: 0, width: 1, height: 1 }, &vec![screens[0]]), (100, 100));
    assert_eq!(window_config_to_save(true, 1, 2, 3, 4), None);
    assert_eq!(window_config_to_save(false, 1, 2, 3, 4), Some(WindowConfig { x: 1, y: 2, width: 3, height: 4 }));
}

#[test]
fn move_timer() {
    assert!(!move_settled(None, 10_000));
    assert!(!move_settled(Some(1000), 1500));
    assert!(move_settled(Some(1000), 1501));
    assert!(!move_settled(Some(2000), 1000));
}

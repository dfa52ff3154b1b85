use std::cell::Cell;
use vdsleep::audio::AudioController;
use vdsleep::config::{apply_settings_patch, DisplayConfig, DisplaySettingsPatch, WindowConfig};

#[test]
fn default_window_config() {
    assert_eq!(WindowConfig::default(), WindowConfig { x: 100, y: 100, width: 1328, height: 900 });
}

#[test]
fn default_display_config() {
    let c = DisplayConfig::default();
    assert!(c.auto_switch && !c.auto_mute && !c.enhanced_mode && c.auto_restore_on_resume);
    assert_eq!(c.target_id, "");
    assert_eq!(c.restore_key_scan_code, 0);
    assert_eq!(c.restore_key_label, "");
}

#[test]
fn settings_patch() {
    let mut c = DisplayConfig::default();
    apply_settings_patch(
        &mut c,
        DisplaySettingsPatch {
            target_id: Some("MONITOR#X".to_string()),
            enhanced_mode: Some(true),
            restore_key_scan_code: Some(u64::MAX),
            ..DisplaySettingsPatch::default()
        },
    );
    assert_eq!(c.target_id, "MONITOR#X");
    assert!(c.enhanced_mode && c.auto_switch);
    assert_eq!(c.restore_key_scan_code, u32::MAX);
    apply_settings_patch(&mut c, DisplaySettingsPatch { restore_key_scan_code: Some(0x3B), restore_key_label: Some("F1".to_string()), auto_switch: Some(false), auto_mute: Some(true), auto_restore_on_resume: Some(false), ..DisplaySettingsPatch::default() });
    assert_eq!((c.restore_key_scan_code, c.restore_key_label.as_str()), (0x3B, "F1"));
    assert!(!c.auto_switch && c.auto_mute && !c.auto_restore_on_resume);
    let before = c.clone();
    apply_settings_patch(&mut c, DisplaySettingsPatch::default());
    assert_eq!(format!("{:?}", c), format!("{:?}", before));
}

#[test]
fn mute_state_reading() {
    let a = AudioController::new();
    assert!(a.get_mute_state(Ok(true)));
    assert!(!a.get_mute_state(Err("no device".to_string())));
    assert!(a.set_mute(Ok(())));
    assert!(!a.set_mute(Err("x".to_string())));
}

#[test]
fn toggle_asks_for_opposite() {
    let a = AudioController::new();
    let asked = Cell::new(None);
    assert_eq!(a.toggle_mute(|| Ok(false), |m| { asked.set(Some(m)); Ok(()) }), (true, true));
    assert_eq!(asked.get(), Some(true));
    assert_eq!(a.toggle_mute(|| Err("gone".to_string()), |_| Err("gone".to_string())), (false, true));
    assert_eq!(a.toggle_mute(|| Ok(true), |_| Ok(())), (true, false));
}

#[test]
fn silencing_unprotected_devices() {
    let a = AudioController::new();
    let mut protected = vec!["speakers".to_string()];
    let ids = vec!["speakers".to_string(), "headset".to_string(), "hdmi".to_string(), "headset".to_string()];
    let plan = a.silencing_plan(&ids, &protected);
    assert_eq!(plan, vec![1, 2]);
    let devices = Ok(ids.clone());
    let r = a.zero_unprotected_render_devices(&devices, &plan, plan.len(), &mut protected);
    assert_eq!(r, (true, 2));
    assert_eq!(protected, vec!["speakers", "headset", "hdmi"]);
    let again = a.silencing_plan(&ids, &protected);
    assert!(again.is_empty());
    assert_eq!(a.zero_unprotected_render_devices(&devices, &again, 0, &mut protected), (true, 0));
    let mut p2 = Vec::new();
    let abc = vec!["a".to_string(), "b".to_string(), "c".to_string()];
    let plan2 = a.silencing_plan(&abc, &p2);
    assert_eq!(plan2, vec![0, 1, 2]);
    let fail = a.zero_unprotected_render_devices(&Ok(abc), &plan2, 1, &mut p2);
    assert_eq!(fail, (false, 0));
    assert_eq!(p2, vec!["a"]);
    let mut p3 = vec!["x".to_string()];
    assert_eq!(a.zero_unprotected_render_devices(&Err("enum".to_string()), &Vec::new(), 0, &mut p3), (false, 0));
    assert_eq!(p3, vec!["x"]);
}

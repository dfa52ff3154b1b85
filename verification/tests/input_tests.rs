use vdsleep::keyboard::{configure, on_key_message, physical_scan_code, KeyboardState, WM_KEYDOWN, WM_KEYUP, WM_SYSKEYDOWN, WM_SYSKEYUP};
use vdsleep::power::{is_resume_event, start_once, WM_POWERBROADCAST};

#[test]
fn configure_key() {
    let mut k = KeyboardState::new();
    configure(&mut k, true, 0x3B);
    assert_eq!(k, KeyboardState { enabled: true, target_scan_code: 0x3B, target_is_down: false });
    configure(&mut k, true, 0);
    assert!(!k.enabled);
    configure(&mut k, false, 0x3B);
    assert!(!k.enabled);
}

#[test]
fn extended_scan_codes() {
    assert_eq!(physical_scan_code(0x1D, 1), 0xE01D);
    assert_eq!(physical_scan_code(0x1D, 0), 0x1D);
    assert_eq!(physical_scan_code(0x1D, 0x80), 0x1D);
}

#[test]
fn held_key_triggers_once() {
    let mut k = KeyboardState::new();
    configure(&mut k, true, 0x3B);
    assert!(on_key_message(&mut k, 0, WM_KEYDOWN, 0x3B, 0));
    assert!(!on_key_message(&mut k, 0, WM_KEYDOWN, 0x3B, 0));
    assert!(!on_key_message(&mut k, 0, WM_KEYUP, 0x3B, 0));
    assert!(on_key_message(&mut k, 0, WM_SYSKEYDOWN, 0x3B, 0));
    assert!(!on_key_message(&mut k, 0, WM_SYSKEYUP, 0x3B, 0));
    assert!(!k.target_is_down);
}

#[test]
fn other_keys_and_codes_ignored() {
    let mut k = KeyboardState::new();
    configure(&mut k, true, 0xE01D);
    assert!(!on_key_message(&mut k, 0, WM_KEYDOWN, 0x1D, 0));
    assert!(!on_key_message(&mut k, -1, WM_KEYDOWN, 0x1D, 1));
    assert!(!on_key_message(&mut k, 0, 0x200, 0x1D, 1));
    assert!(on_key_message(&mut k, 0, WM_KEYDOWN, 0x1D, 1));
    let mut off = KeyboardState::new();
    assert!(!on_key_message(&mut off, 0, WM_KEYDOWN, 0, 0));
}

#[test]
fn resume_events() {
    assert!(is_resume_event(WM_POWERBROADCAST, 0x12));
    assert!(is_resume_event(WM_POWERBROADCAST, 0x7));
    assert!(is_resume_event(WM_POWERBROADCAST, 0x1_0000_0007));
    assert!(!is_resume_event(WM_POWERBROADCAST, 0x4));
    assert!(!is_resume_event(0x10, 0x12));
}

#[test]
fn watchers_start_once() {
    let mut started = false;
    assert!(start_once(&mut started));
    assert!(!start_once(&mut started));
    assert!(started);
}

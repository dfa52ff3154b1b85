//! The restore key: a global key that completes a deferred restore.
use vstd::prelude::*;

verus! {

/// `WM_KEYDOWN`.
pub const WM_KEYDOWN: u32 = 0x100;
/// `WM_KEYUP`.
pub const WM_KEYUP: u32 = 0x101;
/// `WM_SYSKEYDOWN`.
pub const WM_SYSKEYDOWN: u32 = 0x104;
/// `WM_SYSKEYUP`.
pub const WM_SYSKEYUP: u32 = 0x105;
/// `LLKHF_EXTENDED`: the key is an extended one.
pub const LLKHF_EXTENDED: u32 = 0x1;
/// The prefix that marks the scan code of an extended key.
pub const EXTENDED_SCAN_PREFIX: u32 = 0xE000;

/// The state of the keyboard hook: whether it watches, which key, and
/// whether that key is held down.
#[derive(Clone, Copy, Debug, PartialEq, Eq)]
pub struct KeyboardState {
    pub enabled: bool,
    pub target_scan_code: u32,
    pub target_is_down: bool,
}

impl KeyboardState {
    /// A hook that watches nothing.
    pub fn new() -> (r: KeyboardState)
        ensures
            !r.enabled && r.target_scan_code == 0 && !r.target_is_down,
    {
        KeyboardState { enabled: false, target_scan_code: 0, target_is_down: false }
    }
}

/// Sets the key to watch: watching is on only when asked for and a key is
/// chosen (scan code 0 means none); the key counts as released.
pub fn configure(state: &mut KeyboardState, enabled: bool, scan_code: u32)
    ensures
        final(state).target_scan_code == scan_code,
        final(state).enabled == (enabled && scan_code != 0),
        !final(state).target_is_down,
{
    state.target_scan_code = scan_code;
    state.enabled = enabled && scan_code != 0;
    state.target_is_down = false;
}

/// The scan code of a key, with the extended-key prefix for extended keys.
pub open spec fn physical(scan_code: u32, flags: u32) -> u32 {
    if flags & LLKHF_EXTENDED != 0 {
        scan_code | EXTENDED_SCAN_PREFIX
    } else {
        scan_code
    }
}

/// The scan code that identifies a physical key.
pub fn physical_scan_code(scan_code: u32, flags: u32) -> (r: u32)
    ensures
        r == physical(scan_code, flags),
{
    if flags & LLKHF_EXTENDED != 0 {
        scan_code | EXTENDED_SCAN_PREFIX
    } else {
        scan_code
    }
}

/// A key press message.
pub open spec fn is_key_down(message: u32) -> bool {
    message == WM_KEYDOWN || message == WM_SYSKEYDOWN
}

/// A key release message.
pub open spec fn is_key_up(message: u32) -> bool {
    message == WM_KEYUP || message == WM_SYSKEYUP
}

/// The message concerns the watched key while watching is on.
pub open spec fn concerns_target(s: KeyboardState, code: i32, message: u32, scan_code: u32, flags: u32) -> bool {
    code >= 0 && s.enabled && (is_key_down(message) || is_key_up(message)) && s.target_scan_code != 0
        && physical(scan_code, flags) == s.target_scan_code
}

/// The hook's answer to one keyboard message: a release of the watched key
/// marks it up; a press marks it down and triggers, unless it was already
/// down (auto-repeat). Other messages change nothing.
pub open spec fn key_next(s: KeyboardState, code: i32, message: u32, scan_code: u32, flags: u32) -> (KeyboardState, bool) {
    if concerns_target(s, code, message, scan_code, flags) {
        if is_key_up(message) {
            (KeyboardState { target_is_down: false, ..s }, false)
        } else {
            (KeyboardState { target_is_down: true, ..s }, !s.target_is_down)
        }
    } else {
        (s, false)
    }
}

/// Handles one message of the low-level keyboard hook; answers whether the
/// restore should be triggered.
pub fn on_key_message(state: &mut KeyboardState, code: i32, message: u32, scan_code: u32, flags: u32) -> (r: bool)
    ensures
        (*final(state), r) == key_next(*old(state), code, message, scan_code, flags),
{
    let mut trigger = false;
    if code >= 0 {
        let down = message == WM_KEYDOWN || message == WM_SYSKEYDOWN;
        let up = message == WM_KEYUP || message == WM_SYSKEYUP;
        if state.enabled && (down || up) {
            let sc = physical_scan_code(scan_code, flags);
            let target = state.target_scan_code;
            if target != 0 && sc == target {
                if up {
                    state.target_is_down = false;
                } else {
                    let was_down = state.target_is_down;
                    state.target_is_down = true;
                    trigger = !was_down;
                }
            }
        }
    }
    trigger
}

/// Holding the watched key triggers once: a press triggers only when the
/// key was up, and a repeated press without a release never triggers.
pub proof fn law_held_key_triggers_once(s: KeyboardState, code: i32, message: u32, scan_code: u32, flags: u32)
    requires
        is_key_down(message),
    ensures
        ({
            let (s1, t1) = key_next(s, code, message, scan_code, flags);
            let (s2, t2) = key_next(s1, code, message, scan_code, flags);
            !t2 && (t1 ==> !s.target_is_down)
        }),
{
}

/// Nothing triggers while watching is off.
pub proof fn law_disabled_never_triggers(s: KeyboardState, code: i32, message: u32, scan_code: u32, flags: u32)
    requires
        !s.enabled,
    ensures
        !key_next(s, code, message, scan_code, flags).1,
{
}

} // verus!

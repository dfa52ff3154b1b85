//! The decisions of the running application: what to do when the headset
//! connects or disconnects, when the restore key is pressed, when the
//! system resumes, and when the settings change.
use vstd::prelude::*;
use crate::config::{DisplayConfig, WindowConfig};
use crate::display::{MonitorInfo, MonitorInfoView, info_views};
use crate::text::{is_blank, str_blank};

verus! {

broadcast use vstd::string::group_string_axioms;

/// What the application remembers between events.
#[derive(Clone, Copy, Debug, PartialEq, Eq)]
pub struct SessionFlags {
    /// The sound was muted because the headset disconnected.
    pub auto_mute_was_muted: bool,
    /// A restore waits for the restore key.
    pub restore_waiting_for_key: bool,
}

impl SessionFlags {
    /// Nothing muted, nothing waiting.
    pub fn new() -> (r: SessionFlags)
        ensures
            !r.auto_mute_was_muted && !r.restore_waiting_for_key,
    {
        SessionFlags { auto_mute_was_muted: false, restore_waiting_for_key: false }
    }
}

/// The auto-mute decision: (muted by us afterwards, mute state to set).
pub open spec fn auto_mute_next(was_muted: bool, connected: bool) -> (bool, Option<bool>) {
    if !connected {
        (true, Some(true))
    } else if was_muted {
        (false, Some(false))
    } else {
        (false, None)
    }
}

/// Auto-mute unmutes only what it muted: a disconnection mutes, the next
/// connection unmutes, and a connection that follows no such mute leaves
/// the sound alone.
pub proof fn law_auto_mute_undoes_only_its_own_mute(was_muted: bool)
    ensures
        ({
            let (w1, a1) = auto_mute_next(was_muted, false);
            let (w2, a2) = auto_mute_next(w1, true);
            a1 == Some(true) && a2 == Some(false) && !w2
        }),
        auto_mute_next(false, true) == (false, None::<bool>),
        auto_mute_next(auto_mute_next(was_muted, true).0, true).1 is None,
{
}

/// Follows the headset with the sound: mutes on disconnection, and on
/// connection unmutes only a mute it made itself. Gives the mute state to
/// set, if any.
pub fn handle_auto_mute(flags: &mut SessionFlags, connected: bool) -> (r: Option<bool>)
    ensures
        (final(flags).auto_mute_was_muted, r) == auto_mute_next(old(flags).auto_mute_was_muted, connected),
        final(flags).restore_waiting_for_key == old(flags).restore_waiting_for_key,
{
    if !connected {
        flags.auto_mute_was_muted = true;
        Some(true)
    } else if flags.auto_mute_was_muted {
        flags.auto_mute_was_muted = false;
        Some(false)
    } else {
        None
    }
}

/// What a reported change of the headset's connection sets off, in this
/// order: a baseline capture if needed (on a disconnection), the auto-mute
/// (when enabled), and following with the displays (when enabled).
#[derive(Clone, Copy, Debug, PartialEq, Eq)]
pub struct ConnectionPlan {
    pub capture_baseline: bool,
    pub auto_mute: bool,
    pub follow_display: bool,
}

/// The reactions to a reported connection change under `config`.
pub fn on_connection_change(config: &DisplayConfig, connected: bool) -> (r: ConnectionPlan)
    ensures
        r == (ConnectionPlan {
            capture_baseline: !connected,
            auto_mute: config.auto_mute,
            follow_display: config.auto_switch,
        }),
{
    ConnectionPlan { capture_baseline: !connected, auto_mute: config.auto_mute, follow_display: config.auto_switch }
}

/// A change of displays to make.
#[derive(Clone, Debug)]
pub enum DisplayAction {
    Nothing,
    SwitchTo(String),
    Restore,
}

/// Follows the headset with the displays. On connection: switch to the
/// target, when one is chosen and a baseline exists. On disconnection of a
/// switched output: restore, or wait for the restore key when the enhanced
/// mode has one.
pub fn handle_display_switch(
    flags: &mut SessionFlags,
    connected: bool,
    config: &DisplayConfig,
    switched: bool,
    baseline_ready: bool,
) -> (r: DisplayAction)
    ensures
        connected ==> !final(flags).restore_waiting_for_key && if is_blank(config.target_id@) || !baseline_ready {
            r is Nothing
        } else {
            r matches DisplayAction::SwitchTo(t) && t@ == config.target_id@
        },
        !connected && switched && config.enhanced_mode && config.restore_key_scan_code != 0 ==> r is Nothing
            && final(flags).restore_waiting_for_key,
        !connected && switched && !(config.enhanced_mode && config.restore_key_scan_code != 0) ==> r is Restore
            && !final(flags).restore_waiting_for_key,
        !connected && !switched ==> r is Nothing && !final(flags).restore_waiting_for_key,
        final(flags).auto_mute_was_muted == old(flags).auto_mute_was_muted,
{
    if connected {
        flags.restore_waiting_for_key = false;
        if str_blank(config.target_id.as_str()) || !baseline_ready {
            return DisplayAction::Nothing;
        }
        DisplayAction::SwitchTo(config.target_id.clone())
    } else if switched {
        if config.enhanced_mode && config.restore_key_scan_code != 0 {
            flags.restore_waiting_for_key = true;
            DisplayAction::Nothing
        } else {
            flags.restore_waiting_for_key = false;
            DisplayAction::Restore
        }
    } else {
        flags.restore_waiting_for_key = false;
        DisplayAction::Nothing
    }
}

/// The restore key was pressed: nothing waits for the key any more; a
/// switched output is to be restored, and then the answer is whether a
/// restore was waiting (`None`: nothing to restore, no display is touched).
pub fn complete_deferred_restore(flags: &mut SessionFlags, switched: bool) -> (r: Option<bool>)
    ensures
        r == (if switched {
            Some(old(flags).restore_waiting_for_key)
        } else {
            None::<bool>
        }),
        !final(flags).restore_waiting_for_key,
        final(flags).auto_mute_was_muted == old(flags).auto_mute_was_muted,
{
    let was_waiting = flags.restore_waiting_for_key;
    flags.restore_waiting_for_key = false;
    if switched {
        Some(was_waiting)
    } else {
        None
    }
}

/// Takes back the outcome of a restore made for the restore key: when it
/// failed, a restore that was waiting waits again.
pub fn deferred_restore_done(flags: &mut SessionFlags, was_waiting: bool, ok: bool)
    ensures
        final(flags).restore_waiting_for_key == (old(flags).restore_waiting_for_key || (!ok && was_waiting)),
        final(flags).auto_mute_was_muted == old(flags).auto_mute_was_muted,
{
    if !ok && was_waiting {
        flags.restore_waiting_for_key = true;
    }
}

/// After a resume from sleep (when enabled): forget a waiting restore and
/// answer whether the output must be restored.
pub fn after_resume(flags: &mut SessionFlags, switched: bool) -> (r: bool)
    ensures
        r == switched,
        !final(flags).restore_waiting_for_key,
        final(flags).auto_mute_was_muted == old(flags).auto_mute_was_muted,
{
    flags.restore_waiting_for_key = false;
    switched
}

/// Whether a resume from sleep leads to a restore at all.
pub fn restores_on_resume(config: &DisplayConfig) -> (r: bool)
    ensures
        r == config.auto_restore_on_resume,
{
    config.auto_restore_on_resume
}

/// A restore asked for from the window: nothing waits for the key any more.
pub fn restore_requested(flags: &mut SessionFlags)
    ensures
        !final(flags).restore_waiting_for_key,
        final(flags).auto_mute_was_muted == old(flags).auto_mute_was_muted,
{
    flags.restore_waiting_for_key = false;
}

/// What follows a change of settings: without the enhanced mode a waiting
/// restore is done now; without a headset, a baseline is captured if
/// needed. Answers (restore now, capture a baseline).
pub fn settings_followup(flags: &mut SessionFlags, config: &DisplayConfig, connected: bool) -> (r: (bool, bool))
    ensures
        r.0 == (!config.enhanced_mode && old(flags).restore_waiting_for_key),
        r.1 == !connected,
        final(flags).restore_waiting_for_key == (config.enhanced_mode && old(flags).restore_waiting_for_key),
        final(flags).auto_mute_was_muted == old(flags).auto_mute_was_muted,
{
    let mut restore = false;
    if !config.enhanced_mode {
        restore = flags.restore_waiting_for_key;
        flags.restore_waiting_for_key = false;
    }
    (restore, !connected)
}

/// The monitor shown as the current one: the first primary, else the first
/// active, else none (empty id).
pub open spec fn active_id_of(ms: Seq<MonitorInfoView>) -> Seq<char> {
    if exists|i: int| 0 <= i < ms.len() && ms[i].primary {
        ms[choose|i: int| 0 <= i < ms.len() && ms[i].primary && forall|j: int| 0 <= j < i ==> !ms[j].primary].id
    } else if exists|i: int| 0 <= i < ms.len() && ms[i].active {
        ms[choose|i: int| 0 <= i < ms.len() && ms[i].active && forall|j: int| 0 <= j < i ==> !ms[j].active].id
    } else {
        Seq::empty()
    }
}

proof fn lemma_pick_first(ms: Seq<MonitorInfoView>, k: int, primary: bool)
    requires
        0 <= k < ms.len(),
        primary ==> ms[k].primary && forall|j: int| 0 <= j < k ==> !ms[j].primary,
        !primary ==> ms[k].active && forall|j: int| 0 <= j < k ==> !ms[j].active,
    ensures
        primary ==> (choose|i: int| 0 <= i < ms.len() && ms[i].primary && forall|j: int| 0 <= j < i ==> !ms[j].primary) == k,
        !primary ==> (choose|i: int| 0 <= i < ms.len() && ms[i].active && forall|j: int| 0 <= j < i ==> !ms[j].active) == k,
{
    if primary {
        let w = choose|i: int| 0 <= i < ms.len() && ms[i].primary && forall|j: int| 0 <= j < i ==> !ms[j].primary;
        assert(0 <= k < ms.len() && ms[k].primary && forall|j: int| 0 <= j < k ==> !ms[j].primary);
        if w < k {
            assert(!ms[w].primary);
        } else if w > k {
            assert(!ms[k].primary);
        }
    } else {
        let w = choose|i: int| 0 <= i < ms.len() && ms[i].active && forall|j: int| 0 <= j < i ==> !ms[j].active;
        assert(0 <= k < ms.len() && ms[k].active && forall|j: int| 0 <= j < k ==> !ms[j].active);
        if w < k {
            assert(!ms[w].active);
        } else if w > k {
            assert(!ms[k].active);
        }
    }
}

/// The id of the monitor shown as the current one.
pub fn active_monitor_id(monitors: &Vec<MonitorInfo>) -> (r: String)
    ensures
        r@ == active_id_of(info_views(monitors@)),
{
    let ghost ms = info_views(monitors@);
    let n = monitors.len();
    for i in 0..n
        invariant
            n == monitors@.len() == ms.len(),
            ms == info_views(monitors@),
            forall|j: int| 0 <= j < i ==> !ms[j].primary,
    {
        assert(ms[i as int] == monitors@[i as int]@);
        if monitors[i].primary {
            proof {
                lemma_pick_first(ms, i as int, true);
            }
            return monitors[i].id.clone();
        }
    }
    for i in 0..n
        invariant
            n == monitors@.len() == ms.len(),
            ms == info_views(monitors@),
            forall|j: int| 0 <= j < n ==> !ms[j].primary,
            forall|j: int| 0 <= j < i ==> !ms[j].active,
    {
        assert(ms[i as int] == monitors@[i as int]@);
        if monitors[i].active {
            proof {
                lemma_pick_first(ms, i as int, false);
            }
            return monitors[i].id.clone();
        }
    }
    String::new()
}

/// A monitor's area on the virtual screen.
#[derive(Clone, Copy, Debug)]
pub struct MonitorArea {
    pub x: i32,
    pub y: i32,
    pub width: u32,
    pub height: u32,
}

/// The point lies in the area (the sizes being taken as signed, as the
/// platform's positions are).
pub open spec fn area_holds(m: MonitorArea, x: i32, y: i32) -> bool {
    m.x <= x < m.x + (m.width as i32) && m.y <= y < m.y + (m.height as i32)
}

/// Where the window opens: its saved place when that lies on a monitor,
/// else the default place (100, 100).
pub fn window_position(wc: &WindowConfig, monitors: &Vec<MonitorArea>) -> (r: (i32, i32))
    ensures
        (exists|i: int| 0 <= i < monitors@.len() && area_holds(#[trigger] monitors@[i], wc.x, wc.y)) ==> r == (wc.x, wc.y),
        !(exists|i: int| 0 <= i < monitors@.len() && area_holds(#[trigger] monitors@[i], wc.x, wc.y)) ==> r == (100i32, 100i32),
{
    let n = monitors.len();
    for i in 0..n
        invariant
            n == monitors@.len(),
            forall|k: int| 0 <= k < i ==> !area_holds(#[trigger] monitors@[k], wc.x, wc.y),
    {
        let m = &monitors[i];
        let right = m.x as i64 + (m.width as i32) as i64;
        let bottom = m.y as i64 + (m.height as i32) as i64;
        let (x, y) = (wc.x as i64, wc.y as i64);
        if x >= m.x as i64 && x < right && y >= m.y as i64 && y < bottom {
            assert(area_holds(monitors@[i as int], wc.x, wc.y));
            return (wc.x, wc.y);
        }
        assert(!area_holds(monitors@[i as int], wc.x, wc.y));
    }
    (100, 100)
}

/// The window placement to save when the window moves or closes; none
/// while the output is switched (the window is then on the headset's
/// display).
pub fn window_config_to_save(switched: bool, x: i32, y: i32, width: u32, height: u32) -> (r: Option<WindowConfig>)
    ensures
        switched ==> r is None,
        !switched ==> r == Some(WindowConfig { x, y, width, height }),
{
    if switched {
        None
    } else {
        Some(WindowConfig { x, y, width, height })
    }
}

/// How long the window must rest after a move before watching resumes.
pub const MOVE_SETTLE_MS: u64 = 500;

/// Whether the window has rested long enough after its last move (`moved_at`,
/// if it moved) for watching to resume.
pub fn move_settled(moved_at: Option<u64>, now: u64) -> (r: bool)
    ensures
        r == match moved_at {
            Some(t) => now > t && now - t > MOVE_SETTLE_MS,
            None => false,
        },
{
    match moved_at {
        Some(t) => now > t && now - t > MOVE_SETTLE_MS,
        None => false,
    }
}

} // verus!

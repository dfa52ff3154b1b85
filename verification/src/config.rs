//! The saved settings: window placement and display behaviour.
use vstd::prelude::*;

verus! {

broadcast use vstd::string::group_string_axioms;

/// Where the main window was last placed.
#[derive(Clone, Copy, Debug, PartialEq, Eq, Structural)]
pub struct WindowConfig {
    pub x: i32,
    pub y: i32,
    pub width: u32,
    pub height: u32,
}

impl Default for WindowConfig {
    fn default() -> (r: Self)
        ensures
            r == (WindowConfig { x: 100, y: 100, width: 1328, height: 900 }),
    {
        WindowConfig { x: 100, y: 100, width: 1328, height: 900 }
    }
}

/// How the displays and the sound follow the headset.
#[derive(Clone, Debug)]
pub struct DisplayConfig {
    pub auto_switch: bool,
    pub target_id: String,
    pub auto_mute: bool,
    pub enhanced_mode: bool,
    pub restore_key_scan_code: u32,
    pub restore_key_label: String,
    pub auto_restore_on_resume: bool,
}

/// The mathematical content of a `DisplayConfig`.
pub struct DisplayConfigView {
    pub auto_switch: bool,
    pub target_id: Seq<char>,
    pub auto_mute: bool,
    pub enhanced_mode: bool,
    pub restore_key_scan_code: u32,
    pub restore_key_label: Seq<char>,
    pub auto_restore_on_resume: bool,
}

impl View for DisplayConfig {
    type V = DisplayConfigView;

    open spec fn view(&self) -> DisplayConfigView {
        DisplayConfigView {
            auto_switch: self.auto_switch,
            target_id: self.target_id@,
            auto_mute: self.auto_mute,
            enhanced_mode: self.enhanced_mode,
            restore_key_scan_code: self.restore_key_scan_code,
            restore_key_label: self.restore_key_label@,
            auto_restore_on_resume: self.auto_restore_on_resume,
        }
    }
}

/// The settings of a fresh installation: switch automatically, no target
/// chosen, no muting, no restore key, restore after sleep.
pub open spec fn default_display_config() -> DisplayConfigView {
    DisplayConfigView {
        auto_switch: true,
        target_id: Seq::empty(),
        auto_mute: false,
        enhanced_mode: false,
        restore_key_scan_code: 0,
        restore_key_label: Seq::empty(),
        auto_restore_on_resume: true,
    }
}

impl Default for DisplayConfig {
    fn default() -> (r: Self)
        ensures
            r@ == default_display_config(),
    {
        DisplayConfig {
            auto_switch: true,
            target_id: String::new(),
            auto_mute: false,
            enhanced_mode: false,
            restore_key_scan_code: 0,
            restore_key_label: String::new(),
            auto_restore_on_resume: true,
        }
    }
}

impl DisplayConfig {
    /// A field-by-field copy.
    pub fn duplicate(&self) -> (r: DisplayConfig)
        ensures
            r@ == self@,
    {
        DisplayConfig {
            auto_switch: self.auto_switch,
            target_id: self.target_id.clone(),
            auto_mute: self.auto_mute,
            enhanced_mode: self.enhanced_mode,
            restore_key_scan_code: self.restore_key_scan_code,
            restore_key_label: self.restore_key_label.clone(),
            auto_restore_on_resume: self.auto_restore_on_resume,
        }
    }
}

/// The settings sent by the settings page; each one that is present
/// replaces the saved value.
#[derive(Clone, Debug, Default)]
pub struct DisplaySettingsPatch {
    pub auto_switch: Option<bool>,
    pub target_id: Option<String>,
    pub auto_mute: Option<bool>,
    pub enhanced_mode: Option<bool>,
    pub restore_key_scan_code: Option<u64>,
    pub restore_key_label: Option<String>,
    pub auto_restore_on_resume: Option<bool>,
}

/// The value of an optional setting, else the current one.
pub open spec fn or_keep<T>(v: Option<T>, current: T) -> T {
    match v {
        Some(x) => x,
        None => current,
    }
}

/// A scan code as stored: clamped to the largest `u32`.
pub open spec fn clamped_scan_code(v: u64) -> u32 {
    if v > u32::MAX as u64 {
        u32::MAX
    } else {
        v as u32
    }
}

/// The settings after a patch.
pub open spec fn patched(c: DisplayConfigView, p: DisplaySettingsPatch) -> DisplayConfigView {
    DisplayConfigView {
        auto_switch: or_keep(p.auto_switch, c.auto_switch),
        target_id: match p.target_id {
            Some(s) => s@,
            None => c.target_id,
        },
        auto_mute: or_keep(p.auto_mute, c.auto_mute),
        enhanced_mode: or_keep(p.enhanced_mode, c.enhanced_mode),
        restore_key_scan_code: match p.restore_key_scan_code {
            Some(v) => clamped_scan_code(v),
            None => c.restore_key_scan_code,
        },
        restore_key_label: match p.restore_key_label {
            Some(s) => s@,
            None => c.restore_key_label,
        },
        auto_restore_on_resume: or_keep(p.auto_restore_on_resume, c.auto_restore_on_resume),
    }
}

/// Applies the settings sent by the settings page.
pub fn apply_settings_patch(config: &mut DisplayConfig, patch: DisplaySettingsPatch)
    ensures
        final(config)@ == patched(old(config)@, patch),
{
    let DisplaySettingsPatch {
        auto_switch,
        target_id,
        auto_mute,
        enhanced_mode,
        restore_key_scan_code,
        restore_key_label,
        auto_restore_on_resume,
    } = patch;
    if let Some(v) = auto_switch {
        config.auto_switch = v;
    }
    if let Some(v) = target_id {
        config.target_id = v;
    }
    if let Some(v) = auto_mute {
        config.auto_mute = v;
    }
    if let Some(v) = enhanced_mode {
        config.enhanced_mode = v;
    }
    if let Some(v) = restore_key_scan_code {
        config.restore_key_scan_code = if v > 0xFFFF_FFFFu64 {
            0xFFFF_FFFFu32
        } else {
            v as u32
        };
    }
    if let Some(v) = restore_key_label {
        config.restore_key_label = v;
    }
    if let Some(v) = auto_restore_on_resume {
        config.auto_restore_on_resume = v;
    }
}

/// A setting present in the patch replaces the saved one, whatever that
/// was; an absent one keeps it. So the result of a patch does not depend
/// on the saved values it replaces, and applying a patch twice is applying
/// it once.
pub proof fn law_patch_replaces_given_settings(c: DisplayConfigView, c2: DisplayConfigView, p: DisplaySettingsPatch)
    ensures
        p.target_id matches Some(s) ==> patched(c, p).target_id == s@ && patched(c, p).target_id == patched(
            c2,
            p,
        ).target_id,
        p.target_id is None ==> patched(c, p).target_id == c.target_id,
        p.restore_key_label matches Some(s) ==> patched(c, p).restore_key_label == s@,
        p.restore_key_label is None ==> patched(c, p).restore_key_label == c.restore_key_label,
        p.auto_switch matches Some(b) ==> patched(c, p).auto_switch == b,
        p.auto_switch is None ==> patched(c, p).auto_switch == c.auto_switch,
        p.auto_mute matches Some(b) ==> patched(c, p).auto_mute == b,
        p.auto_mute is None ==> patched(c, p).auto_mute == c.auto_mute,
        p.enhanced_mode matches Some(b) ==> patched(c, p).enhanced_mode == b,
        p.enhanced_mode is None ==> patched(c, p).enhanced_mode == c.enhanced_mode,
        p.auto_restore_on_resume matches Some(b) ==> patched(c, p).auto_restore_on_resume == b,
        p.auto_restore_on_resume is None ==> patched(c, p).auto_restore_on_resume == c.auto_restore_on_resume,
        p.restore_key_scan_code matches Some(v) ==> (v <= u32::MAX ==> patched(c, p).restore_key_scan_code == v)
            && (v > u32::MAX ==> patched(c, p).restore_key_scan_code == u32::MAX),
        p.restore_key_scan_code is None ==> patched(c, p).restore_key_scan_code == c.restore_key_scan_code,
        patched(patched(c, p), p) == patched(c, p),
{
}

} // verus!

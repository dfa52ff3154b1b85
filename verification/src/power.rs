//! Recognising the system's resume from sleep.
use vstd::prelude::*;

verus! {

/// `WM_POWERBROADCAST`.
pub const WM_POWERBROADCAST: u32 = 0x218;
/// `PBT_APMRESUMEAUTOMATIC`.
pub const PBT_APMRESUMEAUTOMATIC: u32 = 0x12;
/// `PBT_APMRESUMESUSPEND`.
pub const PBT_APMRESUMESUSPEND: u32 = 0x7;

/// A power broadcast that announces a resume (automatic or by the user).
pub open spec fn resume_event(message: u32, event: u32) -> bool {
    message == WM_POWERBROADCAST && (event == PBT_APMRESUMEAUTOMATIC || event == PBT_APMRESUMESUSPEND)
}

/// Whether a window message announces a resume from sleep; the event is
/// the low 32 bits of the message's `wparam`.
pub fn is_resume_event(message: u32, wparam: usize) -> (r: bool)
    ensures
        r == resume_event(message, wparam as u32),
{
    let event = wparam as u32;
    message == WM_POWERBROADCAST && (event == PBT_APMRESUMEAUTOMATIC || event == PBT_APMRESUMESUSPEND)
}

/// A watcher that is started once: the first start goes ahead, later ones
/// do nothing.
pub fn start_once(started: &mut bool) -> (r: bool)
    ensures
        r == !*old(started),
        *final(started),
{
    let first = !*started;
    *started = true;
    first
}

} // verus!

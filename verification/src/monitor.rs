//! Watching the Virtual Desktop streamer: whether it runs, whether a headset
//! is connected to it, and the debounced connection state that drives the
//! automatic switching.
use vstd::prelude::*;
use crate::text::{chars_of, contains_str, has_sub};

verus! {

broadcast use vstd::string::group_string_axioms;

/// An IPv4 address by its four octets.
#[derive(Clone, Copy, Debug, PartialEq, Eq, Structural)]
pub struct Ipv4 {
    pub a: u8,
    pub b: u8,
    pub c: u8,
    pub d: u8,
}

/// A private (LAN) address: 192.168.0.0/16, 10.0.0.0/8 or 172.16.0.0/12.
pub open spec fn lan(ip: Ipv4) -> bool {
    (ip.a == 192 && ip.b == 168) || ip.a == 10 || (ip.a == 172 && 16 <= ip.b <= 31)
}

/// Whether an address is a LAN address.
pub fn is_lan_ip(ip: &Ipv4) -> (r: bool)
    ensures
        r == lan(*ip),
{
    ip.a == 192 && ip.b == 168 || ip.a == 10 || (ip.a == 172 && ip.b >= 16 && ip.b <= 31)
}

/// The TCP state number of an established connection.
pub const TCP_STATE_ESTABLISHED: u32 = 5;

/// A row of the TCP table: state, remote address, remote port (as the
/// table stores it: in network byte order in its low 16 bits) and owning
/// process.
#[derive(Clone, Debug)]
pub struct TcpRow {
    pub state: u32,
    pub remote: Ipv4,
    pub remote_port: u32,
    pub owning_pid: u32,
}

/// A port from its network-byte-order form in the low 16 bits of `raw`:
/// the two bytes swapped, as `u16::from_be` gives on a little-endian
/// machine such as Windows on x86 and ARM.
pub open spec fn port_of(raw: u32) -> u16 {
    ((raw % 0x100) * 0x100 + (raw / 0x100) % 0x100) as u16
}

/// The port of a raw table entry.
pub fn remote_port(raw: u32) -> (r: u16)
    ensures
        r == port_of(raw),
{
    let lo = raw % 0x100;
    let hi = (raw / 0x100) % 0x100;
    (lo * 0x100 + hi) as u16
}

/// The row belongs to an established connection of process `pid` with a
/// specified remote address.
pub open spec fn established_row(r: TcpRow, pid: u32) -> bool {
    r.owning_pid == pid && r.state == TCP_STATE_ESTABLISHED && r.remote != (Ipv4 { a: 0, b: 0, c: 0, d: 0 })
}

/// The remote address and port of the established connections of process
/// `pid`, in table order, leaving out the unspecified address.
pub open spec fn established_of(rows: Seq<TcpRow>, pid: u32) -> Seq<(Ipv4, u16)>
    decreases rows.len(),
{
    if rows.len() == 0 {
        Seq::empty()
    } else {
        let prev = established_of(rows.drop_last(), pid);
        let r = rows.last();
        if established_row(r, pid) {
            prev.push((r.remote, port_of(r.remote_port)))
        } else {
            prev
        }
    }
}

/// The remote addresses and ports of a process's established connections.
pub fn established_remotes(rows: &Vec<TcpRow>, pid: u32) -> (r: Vec<(Ipv4, u16)>)
    ensures
        r@ == established_of(rows@, pid),
{
    let mut r: Vec<(Ipv4, u16)> = Vec::new();
    let n = rows.len();
    for i in 0..n
        invariant
            n == rows@.len(),
            r@ == established_of(rows@.take(i as int), pid),
    {
        let row = &rows[i];
        assert(rows@.take(i + 1).drop_last() =~= rows@.take(i as int));
        let unspecified = row.remote.a == 0 && row.remote.b == 0 && row.remote.c == 0 && row.remote.d
            == 0;
        if row.owning_pid == pid && row.state == TCP_STATE_ESTABLISHED && !unspecified {
            let port = remote_port(row.remote_port);
            r.push((Ipv4 { a: row.remote.a, b: row.remote.b, c: row.remote.c, d: row.remote.d }, port));
        }
    }
    assert(rows@.take(n as int) =~= rows@);
    r
}

/// The addresses of a list of connections.
pub open spec fn addresses(cs: Seq<(Ipv4, u16)>) -> Seq<Ipv4> {
    cs.map_values(|c: (Ipv4, u16)| c.0)
}

/// The remote addresses of a list of connections, in order.
pub fn remote_addresses(cs: &Vec<(Ipv4, u16)>) -> (r: Vec<Ipv4>)
    ensures
        r@ == addresses(cs@),
{
    let mut r: Vec<Ipv4> = Vec::new();
    let n = cs.len();
    for i in 0..n
        invariant
            n == cs@.len(),
            r@ == addresses(cs@.take(i as int)),
    {
        let (a, _) = cs[i];
        r.push(a);
        assert(addresses(cs@.take(i + 1)) =~= addresses(cs@.take(i as int)).push(a));
    }
    assert(cs@.take(n as int) =~= cs@);
    r
}

/// How often `x` occurs in `s`.
pub open spec fn occurrences(s: Seq<Ipv4>, x: Ipv4) -> nat {
    s.filter(same_ip(x)).len()
}

/// The test for the address `x`.
pub open spec fn same_ip(x: Ipv4) -> spec_fn(Ipv4) -> bool {
    |y: Ipv4| y == x
}

/// Some LAN address has at least three connections: a headset is streaming.
pub open spec fn lan_busy(cs: Seq<Ipv4>) -> bool {
    exists|j: int| 0 <= j < cs.len() && lan(cs[j]) && #[trigger] occurrences(cs, cs[j]) >= 3
}

fn count_of(cs: &Vec<Ipv4>, x: &Ipv4) -> (r: usize)
    ensures
        r == occurrences(cs@, *x),
{
    let ghost pr = same_ip(*x);
    let mut c: usize = 0;
    let n = cs.len();
    for k in 0..n
        invariant
            n == cs@.len(),
            pr == same_ip(*x),
            c == cs@.take(k as int).filter(pr).len(),
            c <= k,
    {
        proof {
            cs@.take(k as int).lemma_filter_push(cs@[k as int], pr);
            assert(cs@.take(k + 1) =~= cs@.take(k as int).push(cs@[k as int]));
        }
        if cs[k] == *x {
            c = c + 1;
        }
    }
    assert(cs@.take(n as int) =~= cs@);
    c
}

/// Whether some LAN address carries at least three connections.
pub fn lan_connections_busy(cs: &Vec<Ipv4>) -> (r: bool)
    ensures
        r == lan_busy(cs@),
{
    let n = cs.len();
    for j in 0..n
        invariant
            n == cs@.len(),
            forall|k: int| 0 <= k < j ==> !(lan(cs@[k]) && #[trigger] occurrences(cs@, cs@[k]) >= 3),
    {
        if is_lan_ip(&cs[j]) && count_of(cs, &cs[j]) >= 3 {
            return true;
        }
    }
    false
}

/// A running process: its name and, when they could be read, the remote
/// addresses and ports of its established TCP connections.
#[derive(Clone, Debug)]
pub struct ProcessSample {
    pub name: String,
    pub connections: Option<Vec<(Ipv4, u16)>>,
}

/// The name of a Virtual Desktop streamer process.
pub open spec fn streamer_name(name: Seq<char>) -> bool {
    has_sub(name, "VirtualDesktop.Streamer"@) || has_sub(name, "Virtual Desktop Streamer"@)
}

/// Whether a process name is that of the Virtual Desktop streamer.
pub fn is_streamer(name: &str) -> (r: bool)
    ensures
        r == streamer_name(name@),
{
    let v = chars_of(name);
    contains_str(&v, "VirtualDesktop.Streamer") || contains_str(&v, "Virtual Desktop Streamer")
}

/// The streamer is running.
pub open spec fn streamer_running(ps: Seq<ProcessSample>) -> bool {
    exists|i: int| 0 <= i < ps.len() && streamer_name(#[trigger] ps[i].name@)
}

/// A streamer process whose connections were read has a LAN peer with at
/// least three connections.
pub open spec fn streaming(ps: Seq<ProcessSample>) -> bool {
    exists|i: int|
        0 <= i < ps.len() && streamer_name(#[trigger] ps[i].name@) && match ps[i].connections {
            Some(cs) => lan_busy(addresses(cs@)),
            None => false,
        }
}

/// Whether any process is the streamer.
pub fn any_streamer(processes: &Vec<ProcessSample>) -> (r: bool)
    ensures
        r == streamer_running(processes@),
{
    let n = processes.len();
    for i in 0..n
        invariant
            n == processes@.len(),
            forall|k: int| 0 <= k < i ==> !streamer_name(#[trigger] processes@[k].name@),
    {
        if is_streamer(processes[i].name.as_str()) {
            return true;
        }
    }
    false
}

/// Whether a headset is streaming from one of the streamer processes.
pub fn check_vd_connections(processes: &Vec<ProcessSample>) -> (r: bool)
    ensures
        r == streaming(processes@),
{
    let n = processes.len();
    for i in 0..n
        invariant
            n == processes@.len(),
            forall|k: int|
                0 <= k < i ==> !(streamer_name(#[trigger] processes@[k].name@) && match processes@[k].connections {
                    Some(cs) => lan_busy(addresses(cs@)),
                    None => false,
                }),
    {
        let p = &processes[i];
        if is_streamer(p.name.as_str()) {
            match &p.connections {
                Some(cs) => {
                    let remotes = remote_addresses(cs);
                    if lan_connections_busy(&remotes) {
                        return true;
                    }
                },
                None => {},
            }
        }
    }
    false
}

/// The readings needed to confirm a change: a connection is believed at
/// once on a repeated reading, a disconnection after three.
pub const DEBOUNCE_THRESHOLD: u32 = 3;

/// What the watcher knows of the streamer and its headset.
#[derive(Clone, Copy, Debug, PartialEq, Eq)]
pub struct VdMonitor {
    pub running: bool,
    pub connected: bool,
    pub vd_running: bool,
    pub paused: bool,
}

/// The debouncing state of the watch loop.
#[derive(Clone, Copy, Debug, PartialEq, Eq)]
pub struct WatchState {
    pub last_connected: bool,
    pub pending_state: Option<bool>,
    pub debounce_count: u32,
}

/// A debouncing state as the watch loop keeps it: a pending change has been
/// read at least once and fewer times than its threshold.
pub open spec fn watch_wf(st: WatchState) -> bool {
    match st.pending_state {
        None => st.debounce_count == 0,
        Some(true) => st.debounce_count == 1,
        Some(false) => 1 <= st.debounce_count < DEBOUNCE_THRESHOLD,
    }
}

/// One reading of the watch loop: whether the streamer runs and whether a
/// headset seems connected. Gives the new monitor, the new debouncing state
/// and the change to report, if any.
pub open spec fn watch_next(m: VdMonitor, st: WatchState, vd: bool, raw: bool) -> (VdMonitor, WatchState, Option<bool>) {
    let m1 = VdMonitor { vd_running: vd, ..m };
    if !vd {
        let st1 = WatchState { last_connected: false, pending_state: None, debounce_count: 0 };
        if m.connected {
            (VdMonitor { connected: false, ..m1 }, st1, Some(false))
        } else {
            (m1, st1, None)
        }
    } else if raw != st.last_connected {
        match st.pending_state {
            Some(s) if s == raw => {
                let count = st.debounce_count + 1;
                let threshold = if raw { 1int } else { DEBOUNCE_THRESHOLD as int };
                if count >= threshold {
                    (
                        VdMonitor { connected: raw, ..m1 },
                        WatchState { last_connected: raw, pending_state: None, debounce_count: 0 },
                        Some(raw),
                    )
                } else {
                    (m1, WatchState { debounce_count: count as u32, ..st }, None)
                }
            },
            _ => (m1, WatchState { pending_state: Some(raw), debounce_count: 1, ..st }, None),
        }
    } else {
        (m1, WatchState { pending_state: None, debounce_count: 0, ..st }, None)
    }
}

impl VdMonitor {
    /// A watcher that has seen nothing yet.
    pub fn new() -> (r: VdMonitor)
        ensures
            !r.running && !r.connected && !r.vd_running && !r.paused,
    {
        VdMonitor { running: false, connected: false, vd_running: false, paused: false }
    }

    /// Suspends the readings.
    pub fn pause(&mut self)
        ensures
            *final(self) == (VdMonitor { paused: true, ..*old(self) }),
    {
        self.paused = true;
    }

    /// Resumes the readings.
    pub fn resume(&mut self)
        ensures
            *final(self) == (VdMonitor { paused: false, ..*old(self) }),
    {
        self.paused = false;
    }

    /// Whether the streamer was running at the last reading.
    pub fn is_vd_running(&self) -> (r: bool)
        ensures
            r == self.vd_running,
    {
        self.vd_running
    }

    /// Whether a headset is connected, as last established.
    pub fn is_connected(&self) -> (r: bool)
        ensures
            r == self.connected,
    {
        self.connected
    }

    /// Takes an undebounced reading now and records it.
    pub fn refresh_now(&mut self, processes: &Vec<ProcessSample>) -> (r: bool)
        ensures
            final(self).vd_running == streamer_running(processes@),
            r == (streamer_running(processes@) && streaming(processes@)),
            final(self).connected == r,
            final(self).running == old(self).running,
            final(self).paused == old(self).paused,
    {
        let vd_is_running = any_streamer(processes);
        self.vd_running = vd_is_running;
        let connected = if vd_is_running {
            check_vd_connections(processes)
        } else {
            false
        };
        self.connected = connected;
        connected
    }

    /// Starts watching: marks the watcher running and gives the debouncing
    /// state that the loop starts from.
    pub fn start(&mut self) -> (st: WatchState)
        ensures
            *final(self) == (VdMonitor { running: true, ..*old(self) }),
            st == (WatchState { last_connected: old(self).connected, pending_state: None, debounce_count: 0 }),
            watch_wf(st),
    {
        self.running = true;
        WatchState { last_connected: self.connected, pending_state: None, debounce_count: 0 }
    }

    /// Whether the loop takes a reading now (it waits while paused).
    pub fn should_poll(&self) -> (r: bool)
        ensures
            r == !self.paused,
    {
        !self.paused
    }

    /// Applies one reading (`vd`: the streamer runs; `raw`: a headset seems
    /// connected) and gives the change to report, if any.
    pub fn debounce(&mut self, st: &mut WatchState, vd: bool, raw: bool) -> (r: Option<bool>)
        requires
            watch_wf(*old(st)),
        ensures
            (*final(self), *final(st), r) == watch_next(*old(self), *old(st), vd, raw),
            watch_wf(*final(st)),
    {
        self.vd_running = vd;
        let mut report: Option<bool> = None;
        if !vd {
            st.last_connected = false;
            st.pending_state = None;
            st.debounce_count = 0;
            if self.connected {
                self.connected = false;
                report = Some(false);
            }
        } else if raw != st.last_connected {
            let same_pending = match st.pending_state {
                Some(s) => s == raw,
                None => false,
            };
            if same_pending {
                let count = st.debounce_count + 1;
                let threshold: u32 = if raw { 1 } else { DEBOUNCE_THRESHOLD };
                if count >= threshold {
                    st.last_connected = raw;
                    self.connected = raw;
                    st.pending_state = None;
                    st.debounce_count = 0;
                    report = Some(raw);
                } else {
                    st.debounce_count = count;
                }
            } else {
                st.pending_state = Some(raw);
                st.debounce_count = 1;
            }
        } else {
            st.pending_state = None;
            st.debounce_count = 0;
        }
        report
    }

    /// One pass of the watch loop over the current processes.
    pub fn watch_step(&mut self, st: &mut WatchState, processes: &Vec<ProcessSample>) -> (r: Option<bool>)
        requires
            watch_wf(*old(st)),
        ensures
            (*final(self), *final(st), r) == watch_next(
                *old(self),
                *old(st),
                streamer_running(processes@),
                streamer_running(processes@) && streaming(processes@),
            ),
            watch_wf(*final(st)),
    {
        let vd_is_running = any_streamer(processes);
        let raw_connected = if vd_is_running {
            check_vd_connections(processes)
        } else {
            false
        };
        self.debounce(st, vd_is_running, raw_connected)
    }
}

/// The watch loop keeps its debouncing state well formed, and every
/// reported change is what the watcher then believes.
pub proof fn law_watch_step_consistent(m: VdMonitor, st: WatchState, vd: bool, raw: bool)
    requires
        watch_wf(st),
    ensures
        watch_wf(watch_next(m, st, vd, raw).1),
        watch_next(m, st, vd, raw).2 matches Some(x) ==> watch_next(m, st, vd, raw).0.connected == x
            && watch_next(m, st, vd, raw).1.last_connected == x,
        watch_next(m, st, vd, raw).2 is None ==> watch_next(m, st, vd, raw).0.connected == m.connected,
{
}

/// When the streamer stops, the headset is taken as disconnected; the
/// disconnection is reported only if it was connected.
pub proof fn law_streamer_stop_disconnects(m: VdMonitor, st: WatchState, raw: bool)
    ensures
        !watch_next(m, st, false, raw).0.connected,
        watch_next(m, st, false, raw).2 == (if m.connected { Some(false) } else { None }),
{
}

/// A connection is reported on the second consecutive reading that shows
/// it, not on the first.
pub proof fn law_connect_reported_on_second_reading(m: VdMonitor, st: WatchState)
    requires
        watch_wf(st),
        !st.last_connected,
        st.pending_state is None,
    ensures
        ({
            let (m1, s1, n1) = watch_next(m, st, true, true);
            let (m2, s2, n2) = watch_next(m1, s1, true, true);
            n1 is None && n2 == Some(true) && m2.connected && s2.last_connected
        }),
{
}

/// A disconnection (the streamer still running) is reported on the third
/// consecutive reading that shows it, not before.
pub proof fn law_disconnect_reported_on_third_reading(m: VdMonitor, st: WatchState)
    requires
        watch_wf(st),
        st.last_connected,
        st.pending_state is None,
    ensures
        ({
            let (m1, s1, n1) = watch_next(m, st, true, false);
            let (m2, s2, n2) = watch_next(m1, s1, true, false);
            let (m3, s3, n3) = watch_next(m2, s2, true, false);
            n1 is None && n2 is None && n3 == Some(false) && !m3.connected && !s3.last_connected
        }),
{
}

/// A single contrary reading followed by one that agrees with the
/// established state is never reported and leaves nothing pending.
pub proof fn law_flicker_ignored(m: VdMonitor, st: WatchState, flip: bool)
    requires
        watch_wf(st),
        st.pending_state is None,
        flip != st.last_connected,
    ensures
        ({
            let (m1, s1, n1) = watch_next(m, st, true, flip);
            let (m2, s2, n2) = watch_next(m1, s1, true, st.last_connected);
            n1 is None && n2 is None && s2.pending_state is None && s2.debounce_count == 0
                && s2.last_connected == st.last_connected && m2.connected == m.connected
        }),
{
}

/// A connection is believed only while the streamer runs: every step of
/// the watch loop keeps it (and re-establishes it whatever came before),
/// and so do a fresh watcher, a direct reading, pausing and resuming.
pub proof fn law_connected_only_while_streamer_runs(m: VdMonitor, st: WatchState, vd: bool, raw: bool)
    ensures
        watch_next(m, st, vd, raw).0.connected ==> watch_next(m, st, vd, raw).0.vd_running,
        (m.connected ==> m.vd_running) ==> ((VdMonitor { paused: true, ..m }).connected ==> (VdMonitor {
            paused: true,
            ..m
        }).vd_running),
        (m.connected ==> m.vd_running) ==> ((VdMonitor { paused: false, ..m }).connected ==> (VdMonitor {
            paused: false,
            ..m
        }).vd_running),
{
}

/// The watcher after a run of readings (`rs`: whether the streamer runs,
/// whether a headset seems connected), and the changes it reported, in
/// order.
pub open spec fn watch_run(m: VdMonitor, st: WatchState, rs: Seq<(bool, bool)>) -> (VdMonitor, WatchState, Seq<bool>)
    decreases rs.len(),
{
    if rs.len() == 0 {
        (m, st, Seq::empty())
    } else {
        let (m1, s1, reported) = watch_run(m, st, rs.drop_last());
        let (m2, s2, n) = watch_next(m1, s1, rs.last().0, rs.last().1);
        match n {
            Some(x) => (m2, s2, reported.push(x)),
            None => (m2, s2, reported),
        }
    }
}

/// Reported changes alternate: starting from the state the watch began
/// with (as `start` sets it up), each reported change is the opposite of
/// the one before (the first, of the initial connection), and the watcher
/// then believes the last one reported.
pub proof fn law_reports_alternate(m: VdMonitor, st: WatchState, rs: Seq<(bool, bool)>)
    requires
        watch_wf(st),
        st.last_connected == m.connected,
    ensures
        ({
            let (mf, sf, reported) = watch_run(m, st, rs);
            &&& watch_wf(sf)
            &&& sf.last_connected == mf.connected
            &&& forall|i: int|
                0 <= i < reported.len() ==> #[trigger] reported[i] == !(if i == 0 {
                    m.connected
                } else {
                    reported[i - 1]
                })
            &&& mf.connected == (if reported.len() == 0 {
                m.connected
            } else {
                reported.last()
            })
        }),
    decreases rs.len(),
{
    if rs.len() > 0 {
        law_reports_alternate(m, st, rs.drop_last());
        let (m1, s1, r1) = watch_run(m, st, rs.drop_last());
        let (m2, s2, n) = watch_next(m1, s1, rs.last().0, rs.last().1);
        match n {
            Some(x) => {
                let r2 = r1.push(x);
                assert forall|i: int| 0 <= i < r2.len() implies #[trigger] r2[i] == !(if i == 0 {
                    m.connected
                } else {
                    r2[i - 1]
                }) by {
                    if i < r1.len() {
                        assert(r2[i] == r1[i]);
                        if i > 0 {
                            assert(r2[i - 1] == r1[i - 1]);
                        }
                    }
                }
            },
            None => {},
        }
    }
}

/// The private IPv4 ranges are LAN addresses and nothing else is: every
/// address of 192.168.0.0/16, 10.0.0.0/8 and 172.16.0.0/12, whatever its
/// other octets.
pub proof fn law_private_addresses_are_lan(ip: Ipv4)
    ensures
        ip.a == 192 && ip.b == 168 ==> lan(ip),
        ip.a == 10 ==> lan(ip),
        ip.a == 172 && 16 <= ip.b <= 31 ==> lan(ip),
        ip.a == 192 && ip.b != 168 ==> !lan(ip),
        ip.a == 172 && !(16 <= ip.b <= 31) ==> !lan(ip),
        ip.a != 10 && ip.a != 172 && ip.a != 192 ==> !lan(ip),
{
}

proof fn lemma_occurrences_grow(s: Seq<Ipv4>, x: Ipv4, a: int, b: int)
    requires
        0 <= a <= b <= s.len(),
    ensures
        occurrences(s.take(a), x) + (if a < b && s[a] == x { 1int } else { 0int }) <= occurrences(s.take(b), x),
    decreases b - a,
{
    if a < b {
        lemma_occurrences_grow(s, x, a, b - 1);
        s.take(b - 1).lemma_filter_push(s[b - 1], same_ip(x));
        assert(s.take(b) =~= s.take(b - 1).push(s[b - 1]));
        if a < b - 1 {
            lemma_occurrences_grow(s, x, a + 1, b - 1);
            s.take(a).lemma_filter_push(s[a], same_ip(x));
            assert(s.take(a + 1) =~= s.take(a).push(s[a]));
        }
    }
}

/// A headset is streaming as soon as a streamer process has three
/// established connections to one private (LAN) peer, wherever they stand
/// among its other connections and whatever their ports.
pub proof fn law_three_lan_connections_stream(ps: Seq<ProcessSample>, i: int, peer: Ipv4, j: int, k: int, l: int)
    requires
        0 <= i < ps.len(),
        streamer_name(ps[i].name@),
        (peer.a == 192 && peer.b == 168) || peer.a == 10 || (peer.a == 172 && 16 <= peer.b <= 31),
        ps[i].connections matches Some(cs) && 0 <= j < k < l < cs@.len() && cs@[j].0 == peer && cs@[k].0
            == peer && cs@[l].0 == peer,
    ensures
        streaming(ps),
{
    let cs = ps[i].connections->0@;
    let s = addresses(cs);
    assert(s[j] == peer && s[k] == peer && s[l] == peer);
    lemma_occurrences_grow(s, peer, j, j + 1);
    lemma_occurrences_grow(s, peer, j + 1, k);
    lemma_occurrences_grow(s, peer, k, k + 1);
    lemma_occurrences_grow(s, peer, k + 1, l);
    lemma_occurrences_grow(s, peer, l, l + 1);
    lemma_occurrences_grow(s, peer, l + 1, s.len() as int);
    lemma_occurrences_grow(s, peer, 0, j);
    assert(s.take(s.len() as int) =~= s);
    assert(occurrences(s, s[j]) >= 3);
    assert(lan(s[j]));
    assert(lan_busy(s));
}

} // verus!

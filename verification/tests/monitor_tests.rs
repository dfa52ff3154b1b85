use vdsleep::monitor::{
    check_vd_connections, established_remotes, is_lan_ip, is_streamer, lan_connections_busy, remote_addresses, remote_port, Ipv4, ProcessSample,
    TcpRow, VdMonitor, WatchState,
};

fn ip(a: u8, b: u8, c: u8, d: u8) -> Ipv4 {
    Ipv4 { a, b, c, d }
}

#[test]
fn lan_addresses() {
    assert!(is_lan_ip(&ip(192, 168, 1, 20)));
    assert!(is_lan_ip(&ip(10, 0, 0, 1)));
    assert!(is_lan_ip(&ip(172, 16, 0, 1)));
    assert!(is_lan_ip(&ip(172, 31, 255, 1)));
    assert!(!is_lan_ip(&ip(172, 32, 0, 1)));
    assert!(!is_lan_ip(&ip(192, 169, 0, 1)));
    assert!(!is_lan_ip(&ip(8, 8, 8, 8)));
}

#[test]
fn established_connection_filter() {
    let rows = vec![
        TcpRow { state: 5, remote: ip(192, 168, 1, 9), remote_port: 0xBB01, owning_pid: 7 },
        TcpRow { state: 2, remote: ip(192, 168, 1, 9), remote_port: 0xBB01, owning_pid: 7 },
        TcpRow { state: 5, remote: ip(0, 0, 0, 0), remote_port: 0x5000, owning_pid: 7 },
        TcpRow { state: 5, remote: ip(10, 0, 0, 1), remote_port: 0x5000, owning_pid: 8 },
        TcpRow { state: 5, remote: ip(10, 0, 0, 2), remote_port: 0x2C8F, owning_pid: 7 },
    ];
    assert_eq!(established_remotes(&rows, 7), vec![(ip(192, 168, 1, 9), 443), (ip(10, 0, 0, 2), 36652)]);
    assert_eq!(remote_addresses(&established_remotes(&rows, 7)), vec![ip(192, 168, 1, 9), ip(10, 0, 0, 2)]);
}

#[test]
fn ports_from_network_order() {
    for raw in [0u32, 0xBB01, 0x5000, 0x2C8F, 0xFFFF, 0x1234_5678] {
        assert_eq!(remote_port(raw), u16::from_be(raw as u16));
    }
    assert_eq!(remote_port(0xBB01), 443);
}

#[test]
fn three_connections_to_one_lan_peer() {
    let peer = ip(192, 168, 1, 50);
    assert!(lan_connections_busy(&vec![peer, ip(8, 8, 8, 8), peer, peer]));
    assert!(!lan_connections_busy(&vec![peer, peer, ip(192, 168, 1, 51)]));
    let far = ip(8, 8, 8, 8);
    assert!(!lan_connections_busy(&vec![far, far, far]));
}

fn sample(name: &str, conns: Option<Vec<Ipv4>>) -> ProcessSample {
    ProcessSample {
        name: name.to_string(),
        connections: conns.map(|cs| cs.into_iter().enumerate().map(|(i, a)| (a, 50000 + i as u16)).collect()),
    }
}

#[test]
fn streamer_detection() {
    assert!(is_streamer("VirtualDesktop.Streamer.exe"));
    assert!(is_streamer("Virtual Desktop Streamer"));
    assert!(!is_streamer("VirtualDesktop.Service.exe"));
    let peer = ip(10, 1, 1, 1);
    let busy = Some(vec![peer, peer, peer]);
    assert!(check_vd_connections(&vec![sample("explorer.exe", busy.clone()), sample("VirtualDesktop.Streamer.exe", busy.clone())]));
    assert!(!check_vd_connections(&vec![sample("explorer.exe", busy.clone())]));
    assert!(!check_vd_connections(&vec![sample("VirtualDesktop.Streamer.exe", None)]));
}

#[test]
fn refresh_reading() {
    let peer = ip(10, 1, 1, 1);
    let mut m = VdMonitor::new();
    assert!(m.refresh_now(&vec![sample("VirtualDesktop.Streamer.exe", Some(vec![peer, peer, peer]))]));
    assert!(m.is_vd_running() && m.is_connected());
    assert!(!m.refresh_now(&vec![sample("VirtualDesktop.Streamer.exe", Some(vec![peer]))]));
    assert!(m.is_vd_running() && !m.is_connected());
    assert!(!m.refresh_now(&vec![]));
    assert!(!m.is_vd_running());
}

#[test]
fn pause_and_resume() {
    let mut m = VdMonitor::new();
    assert!(m.should_poll());
    m.pause();
    assert!(m.paused && !m.should_poll());
    m.resume();
    assert!(!m.paused);
}

#[test]
fn connect_needs_two_readings() {
    let mut m = VdMonitor::new();
    let mut st = m.start();
    assert!(m.running);
    assert_eq!(st, WatchState { last_connected: false, pending_state: None, debounce_count: 0 });
    assert_eq!(m.debounce(&mut st, true, true), None);
    assert_eq!(m.debounce(&mut st, true, true), Some(true));
    assert!(m.is_connected());
}

#[test]
fn disconnect_needs_three_readings() {
    let mut m = VdMonitor::new();
    m.connected = true;
    let mut st = m.start();
    assert_eq!(m.debounce(&mut st, true, false), None);
    assert_eq!(m.debounce(&mut st, true, false), None);
    assert_eq!(m.debounce(&mut st, true, false), Some(false));
    assert!(!m.is_connected());
}

#[test]
fn flicker_is_ignored() {
    let mut m = VdMonitor::new();
    m.connected = true;
    let mut st = m.start();
    assert_eq!(m.debounce(&mut st, true, false), None);
    assert_eq!(m.debounce(&mut st, true, true), None);
    assert_eq!(m.debounce(&mut st, true, false), None);
    assert_eq!(m.debounce(&mut st, true, false), None);
    assert!(m.is_connected());
    assert_eq!(st.debounce_count, 2);
}

#[test]
fn streamer_stop_reports_disconnect() {
    let mut m = VdMonitor::new();
    m.connected = true;
    let mut st = m.start();
    assert_eq!(m.debounce(&mut st, false, false), Some(false));
    assert_eq!(m.debounce(&mut st, false, false), None);
    assert!(!m.is_vd_running());
}

#[test]
fn watch_step_reads_processes() {
    let peer = ip(192, 168, 0, 2);
    let streaming = vec![sample("VirtualDesktop.Streamer.exe", Some(vec![peer, peer, peer]))];
    let mut m = VdMonitor::new();
    let mut st = m.start();
    assert_eq!(m.watch_step(&mut st, &streaming), None);
    assert_eq!(m.watch_step(&mut st, &streaming), Some(true));
    assert_eq!(m.watch_step(&mut st, &vec![]), Some(false));
}

#[test]
fn reported_changes_alternate_and_follow_the_streamer() {
    let mut m = VdMonitor::new();
    let mut st = m.start();
    let readings = [
        (true, true), (true, true), (true, false), (true, true), (true, false), (true, false),
        (true, false), (false, false), (true, true), (true, true), (false, true), (false, false),
    ];
    let mut last = m.is_connected();
    let mut reports = Vec::new();
    for (vd, raw) in readings {
        if let Some(x) = m.debounce(&mut st, vd, raw) {
            assert_eq!(x, !last);
            last = x;
            reports.push(x);
        }
        assert_eq!(m.is_connected(), last);
        assert!(!m.is_connected() || m.is_vd_running());
    }
    assert_eq!(reports, vec![true, false, true, false]);
}

use vdsleep::display::native::{
    bounds_text, capture_layout, ccd_mode_requests, change_error, change_flags, compact_monitor_path,
    config_query_step, detach_settings, enumerate_ccd_monitors, enumerate_monitors,
    enumerate_runtime_monitors, fallback_mode_query, find_gdi_for_target, gdi_display_from,
    gdi_mode_request, is_virtual_display, make_mode_snapshot, merge_monitor, mode_query, mode_query_order,
    mode_settings, monitor_child_for_gdi_display, monitor_display_name, monitor_from_gdi,
    monitor_model_key, monitor_score, normalize_id, restore_layout, should_replace_monitor,
    snapshot_from_mode, sort_monitors, switch_to_display, to_wide, usable_mode, wide_to_string,
    CcdPath, DisplayDevice, GdiDisplay, QueryStep, RuntimeMonitor, SourceModeInfo, TargetName,
    CDS_NORESET, CDS_UPDATEREGISTRY, DM_BITSPERPEL, DM_DISPLAYFIXEDOUTPUT, DM_DISPLAYFREQUENCY,
    DM_DISPLAYORIENTATION, DM_PELSHEIGHT, DM_PELSWIDTH, DM_POSITION, EDS_RAWMODE, ENUM_CURRENT_SETTINGS,
    ENUM_REGISTRY_SETTINGS,
};
use vdsleep::display::{DisplayLayoutSnapshot, DisplayModeSnapshot, MonitorInfo};

fn mode(device: &str, active: bool, w: u32, h: u32, x: i32, y: i32) -> DisplayModeSnapshot {
    DisplayModeSnapshot {
        id: device.to_string(),
        device_name: device.to_string(),
        device_string: String::new(),
        hardware_id: String::new(),
        active,
        primary: false,
        x,
        y,
        width: w,
        height: h,
        bits_per_pel: 32,
        frequency: 60,
        orientation: 0,
        fixed_output: 0,
    }
}

fn info(id: &str, name: &str, active: bool, primary: bool) -> MonitorInfo {
    MonitorInfo {
        id: id.to_string(),
        name: name.to_string(),
        monitor_type: "physical".to_string(),
        active,
        primary,
        bounds: String::new(),
        hardware_id: format!("hw-{id}"),
    }
}

fn runtime(id: &str, name: &str, active: bool, primary: bool, m: Option<DisplayModeSnapshot>, rank: usize) -> RuntimeMonitor {
    RuntimeMonitor { info: info(id, name, active, primary), mode: m, ccd_rank: rank }
}

fn gdi(device: &str, monitor_name: &str, monitor_id: &str, active: bool, primary: bool, m: Option<DisplayModeSnapshot>) -> GdiDisplay {
    GdiDisplay {
        device_name: device.to_string(),
        adapter_name: "NVIDIA GeForce".to_string(),
        monitor_name: monitor_name.to_string(),
        monitor_id: monitor_id.to_string(),
        active,
        primary,
        mode: m,
    }
}

fn wide(s: &str, size: usize) -> Vec<u16> {
    let mut v: Vec<u16> = s.encode_utf16().collect();
    v.resize(size, 0);
    v
}

#[test]
fn wide_buffers_round_trip() {
    assert_eq!(to_wide("AB"), vec![65, 66, 0]);
    assert_eq!(to_wide("😀"), vec![0xD83D, 0xDE00, 0]);
    assert_eq!(to_wide("显示"), "显示".encode_utf16().chain(std::iter::once(0)).collect::<Vec<u16>>());
    assert_eq!(wide_to_string(&[72, 105, 0, 88]), "Hi");
    assert_eq!(wide_to_string(&wide("  Dell U2720Q ", 32)), "Dell U2720Q");
    assert_eq!(wide_to_string(&[0xD800, 65, 0]), "\u{FFFD}A");
    assert_eq!(wide_to_string(&[0xD83D, 0xDE00]), "😀");
    assert_eq!(wide_to_string(&[]), "");
}

#[test]
fn wide_text_survives_encoding() {
    for text in ["Generic PnP Monitor", " Virtual Display 😀 ", "显示器 2", ""] {
        assert_eq!(wide_to_string(&to_wide(text)), text.trim());
    }
}

#[test]
fn device_paths_normalize() {
    assert_eq!(normalize_id(" \\\\?\\DISPLAY\\dell\\5&abc "), "DISPLAY#DELL#5&ABC");
    assert_eq!(normalize_id("MONITOR\\GSM5B7F\\{4d36e96e}\\0001"), "MONITOR#GSM5B7F#{4D36E96E}#0001");
    assert_eq!(normalize_id(""), "");
}

#[test]
fn device_paths_compact() {
    assert_eq!(compact_monitor_path("\\\\?\\DISPLAY#DEL40B7#5&2f4&0&UID4353#{e6f07b5f}"), "DEL40B7");
    assert_eq!(compact_monitor_path("\\\\?\\display#VSC1234#x"), "VSC1234");
    assert_eq!(compact_monitor_path("ROOT#SWD#VirtualMonitor#0"), "VirtualMonitor");
    assert_eq!(compact_monitor_path("\\\\?\\abc#def"), "abc#def");
    assert_eq!(compact_monitor_path("DISPLAY"), "DISPLAY");
}

#[test]
fn model_keys() {
    assert_eq!(monitor_model_key("\\\\?\\DISPLAY#del40b7#5&2f4"), Some("DEL40B7".to_string()));
    assert_eq!(monitor_model_key("MONITOR\\GSM5B7F\\{4d36}"), Some("GSM5B7F".to_string()));
    assert_eq!(monitor_model_key("PCI\\VEN_10DE"), None);
    assert_eq!(monitor_model_key("DISPLAY"), None);
}

#[test]
fn virtual_display_names() {
    assert!(is_virtual_display("Virtual Display", "", ""));
    assert!(is_virtual_display("", "\\\\?\\DISPLAY#MTT1337#1", ""));
    assert!(is_virtual_display("", "", "IddSampleDriver vdd"));
    assert!(!is_virtual_display("Dell U2720Q", "\\\\?\\DISPLAY#DEL40B7", "\\\\.\\DISPLAY1"));
}

#[test]
fn monitor_labels() {
    let g = gdi("\\\\.\\DISPLAY2", "Generic PnP Monitor", "MONITOR\\X", true, false, None);
    assert_eq!(monitor_display_name("Dell U2720Q", "path", Some(&g), 0), "Dell U2720Q");
    assert_eq!(monitor_display_name(" ", "\\\\?\\DISPLAY#DEL40B7#1", Some(&g), 0), "DEL40B7");
    assert_eq!(monitor_display_name("", "", Some(&g), 0), "Generic PnP Monitor");
    let g2 = gdi("\\\\.\\DISPLAY2", " ", "", true, false, None);
    assert_eq!(monitor_display_name("", "", Some(&g2), 0), "NVIDIA GeForce");
    assert_eq!(monitor_display_name("", "", None, 2), "Display 3");
}

#[test]
fn bounds_labels() {
    let m = Some(mode("\\\\.\\DISPLAY1", true, 2560, 1440, -2560, 0));
    assert_eq!(bounds_text(&m, true), "2560x1440 @ (-2560, 0)");
    assert_eq!(bounds_text(&m, false), "未启用");
    assert_eq!(bounds_text(&None, true), "未启用");
}

#[test]
fn gdi_monitor_entries() {
    let g = gdi("\\\\.\\DISPLAY1", "Dell U2720Q", "MONITOR\\DEL40B7\\{x}", true, true, Some(mode("\\\\.\\DISPLAY1", true, 1920, 1080, 0, 0)));
    let r = monitor_from_gdi(4, g);
    assert_eq!(r.info.id, "MONITOR#DEL40B7#{X}");
    assert_eq!(r.info.name, "物理显示器 Dell U2720Q");
    assert_eq!(r.info.monitor_type, "physical");
    assert_eq!(r.info.bounds, "1920x1080 @ (0, 0)");
    assert_eq!(r.info.hardware_id, "MONITOR\\DEL40B7\\{x}");
    assert_eq!(r.ccd_rank, 4);
    let v = monitor_from_gdi(0, gdi("\\\\.\\DISPLAY9", "", "", false, false, None));
    assert_eq!(v.info.id, "\\\\.\\DISPLAY9");
    assert_eq!(v.info.name, "物理显示器 NVIDIA GeForce");
    assert_eq!(v.info.bounds, "未启用");
}

#[test]
fn scores_and_replacement() {
    let a = runtime("k", "a", true, true, Some(mode("d", true, 1, 1, 0, 0)), 3);
    let b = runtime("k", "b", true, false, None, 1);
    assert_eq!(monitor_score(&a), 7);
    assert_eq!(monitor_score(&b), 4);
    assert!(should_replace_monitor(&b, &a));
    assert!(!should_replace_monitor(&a, &b));
    let c = runtime("k", "c", true, false, None, 0);
    assert!(should_replace_monitor(&b, &c));
    assert!(!should_replace_monitor(&c, &b));
}

#[test]
fn merging_keeps_best_per_id() {
    let mut list = Vec::new();
    merge_monitor(&mut list, runtime("k1", "first", false, false, None, 0));
    merge_monitor(&mut list, runtime("k2", "other", true, false, None, 1));
    merge_monitor(&mut list, runtime("k1", "better", true, false, None, 2));
    merge_monitor(&mut list, runtime("k1", "worse", false, false, None, 3));
    assert_eq!(list.len(), 2);
    assert_eq!(list[0].info.name, "better");
    assert_eq!(list[1].info.name, "other");
}

#[test]
fn listing_order() {
    let ms = vec![
        runtime("a", "n3", false, false, None, 0),
        runtime("b", "n2", true, false, None, 5),
        runtime("c", "n1", true, true, None, 9),
        runtime("d", "n0", true, false, None, 2),
    ];
    let sorted = sort_monitors(ms);
    let ids: Vec<&str> = sorted.iter().map(|m| m.info.id.as_str()).collect();
    assert_eq!(ids, vec!["c", "d", "b", "a"]);
    let tie = sort_monitors(vec![runtime("x", "zeta", true, false, None, 1), runtime("y", "alpha", true, false, None, 1)]);
    assert_eq!(tie[0].info.id, "y");
    let same = sort_monitors(vec![
        runtime("p", "same", false, false, None, 4),
        runtime("q", "other", true, false, None, 9),
        runtime("r", "same", false, false, None, 4),
        runtime("s", "same", false, false, None, 4),
    ]);
    let ids: Vec<&str> = same.iter().map(|m| m.info.id.as_str()).collect();
    assert_eq!(ids, vec!["q", "p", "r", "s"]);
}

#[test]
fn runtime_enumeration_falls_back_to_gdi() {
    let gs = vec![
        gdi("\\\\.\\DISPLAY1", "Left", "", false, false, None),
        gdi("\\\\.\\DISPLAY2", "Right", "", true, true, Some(mode("\\\\.\\DISPLAY2", true, 800, 600, 0, 0))),
    ];
    let r = enumerate_runtime_monitors(gs, Ok(vec![])).unwrap();
    assert_eq!(r.len(), 2);
    assert_eq!(r[0].info.id, "\\\\.\\DISPLAY2");
    assert_eq!(r[1].info.id, "\\\\.\\DISPLAY1");
    assert_eq!(r[1].ccd_rank, 0);
    let e = enumerate_runtime_monitors(vec![], Err("boom".to_string()));
    assert_eq!(e.unwrap_err(), "boom");
    let c = enumerate_runtime_monitors(vec![], Ok(vec![runtime("p", "n", false, false, None, 1), runtime("q", "n", true, false, None, 0)])).unwrap();
    assert_eq!(c[0].info.id, "q");
    let infos = enumerate_monitors(Ok(c)).unwrap();
    assert_eq!(infos.iter().map(|m| m.id.clone()).collect::<Vec<_>>(), vec!["q", "p"]);
    assert_eq!(enumerate_monitors(Err("x".to_string())).unwrap_err(), "x");
}

#[test]
fn matching_targets_to_gdi_devices() {
    let gs = vec![
        gdi("\\\\.\\DISPLAY1", "Generic PnP Monitor", "MONITOR\\GSM5B7F\\{a}\\0001", true, true, None),
        gdi("\\\\.\\DISPLAY2", "DELL U2720Q", "MONITOR\\DEL40B7\\{b}\\0002", true, false, None),
        gdi("\\\\.\\DISPLAY3", "Virtual Monitor", "", false, false, None),
    ];
    let by_path = find_gdi_for_target("\\\\?\\MONITOR#GSM5B7F#{a}#0001", "", &gs).unwrap();
    assert_eq!(by_path.device_name, "\\\\.\\DISPLAY1");
    let by_model = find_gdi_for_target("\\\\?\\DISPLAY#DEL40B7#7&1&UID1", "", &gs).unwrap();
    assert_eq!(by_model.device_name, "\\\\.\\DISPLAY2");
    let by_name = find_gdi_for_target("", "virtual monitor x", &gs).unwrap();
    assert_eq!(by_name.device_name, "\\\\.\\DISPLAY3");
    assert!(find_gdi_for_target("", "", &gs).is_none());
}

fn ccd_path(active: bool, path: &str, friendly: &str, source: Option<&str>, target_id: u32, source_id: u32) -> CcdPath {
    CcdPath {
        flags: if active { 1 } else { 0 },
        target: Some(TargetName {
            monitor_device_path: wide(path, 128),
            monitor_friendly_device_name: wide(friendly, 64),
            output_technology: 0,
        }),
        source_gdi_name: source.map(|s| wide(s, 32)),
        target_adapter_high: 0,
        target_adapter_low: 77,
        target_id,
        source_adapter_high: 0,
        source_adapter_low: 77,
        source_id,
    }
}

#[test]
fn ccd_enumeration() {
    let gs = vec![
        gdi("\\\\.\\DISPLAY1", "Dell", "MONITOR\\DEL40B7\\{b}\\0001", true, true, Some(mode("\\\\.\\DISPLAY1", true, 2560, 1440, 0, 0))),
        gdi("\\\\.\\DISPLAY2", "", "", false, false, None),
    ];
    let mut virtual_path = ccd_path(true, "\\\\?\\DISPLAY#MTT1337#1&2", "VDD by MTT", Some("\\\\.\\DISPLAY2"), 9, 1);
    virtual_path.target.as_mut().unwrap().output_technology = 17;
    let paths = vec![
        ccd_path(true, "\\\\?\\DISPLAY#DEL40B7#5&1", "DELL U2720Q", Some("\\\\.\\DISPLAY1"), 4, 0),
        ccd_path(false, "", "", None, 5, 0),
        ccd_path(false, "\\\\?\\DISPLAY#DEL40B7#5&1", "DELL U2720Q", None, 4, 0),
        virtual_path,
    ];
    let modes = vec![SourceModeInfo { info_type: 1, adapter_high: 0, adapter_low: 77, id: 1, width: 1920, height: 1080, x: 2560, y: 0 }];
    let requests = ccd_mode_requests(&paths, &gs);
    assert_eq!(requests.len(), 4);
    assert!(requests[0].is_none());
    assert!(requests[1].is_none());
    let q = requests[3].as_ref().unwrap();
    assert_eq!(q.device_name, "\\\\.\\DISPLAY2");
    assert!(q.active);
    let queried = vec![None, None, None, Some(mode("\\\\.\\DISPLAY2", true, 800, 600, 5, 5))];
    let ms = enumerate_ccd_monitors(&paths, &gs, &modes, &queried);
    assert_eq!(ms.len(), 2);
    assert_eq!(ms[0].info.id, "DISPLAY#DEL40B7#5&1");
    assert_eq!(ms[0].info.name, "物理显示器 DELL U2720Q");
    assert!(ms[0].info.primary);
    assert_eq!(ms[0].ccd_rank, 0);
    assert_eq!(ms[0].info.bounds, "2560x1440 @ (0, 0)");
    let md = ms[0].mode.as_ref().unwrap();
    assert_eq!(md.id, "DISPLAY#DEL40B7#5&1");
    assert_eq!(md.device_string, "DELL U2720Q");
    assert_eq!(ms[1].info.monitor_type, "virtual");
    assert_eq!(ms[1].info.name, "虚拟显示器 VDD by MTT");
    assert!(!ms[1].info.primary);
    assert_eq!(ms[1].info.bounds, "1920x1080 @ (2560, 0)");
    let vm = ms[1].mode.as_ref().unwrap();
    assert_eq!((vm.width, vm.height, vm.x, vm.y), (1920, 1080, 2560, 0));
    assert_eq!(vm.hardware_id, "\\\\?\\DISPLAY#MTT1337#1&2");
}

#[test]
fn ccd_key_without_path() {
    let mut p = ccd_path(true, "", "", None, 12, 0);
    p.target_adapter_high = -3;
    let ms = enumerate_ccd_monitors(&vec![p], &[], &vec![], &vec![None]);
    assert_eq!(ms[0].info.id, "ccd:-3:77:12");
    assert_eq!(ms[0].info.name, "物理显示器 Display 1");
    assert!(ms[0].mode.is_none());
}

#[test]
fn mode_snapshots_from_queries() {
    let g = gdi("\\\\.\\DISPLAY1", "", "", true, true, Some(mode("\\\\.\\DISPLAY1", true, 10, 20, 1, 2)));
    let from_gdi = make_mode_snapshot("id", "\\\\.\\DISPLAY1", "Friendly", "path", false, Some(&g), None, &None).unwrap();
    assert_eq!((from_gdi.id.as_str(), from_gdi.device_string.as_str(), from_gdi.hardware_id.as_str(), from_gdi.active), ("id", "Friendly", "path", false));
    assert!(make_mode_snapshot("id", "", "f", "p", true, None, None, &Some(mode("x", true, 1, 1, 0, 0))).is_none());
    let src = SourceModeInfo { info_type: 1, adapter_high: 0, adapter_low: 0, id: 0, width: 0, height: 5, x: 9, y: 9 };
    let q = make_mode_snapshot("id", "dev", "f", "p", true, None, Some(&src), &Some(mode("dev", false, 3, 4, 0, 0))).unwrap();
    assert_eq!((q.width, q.height, q.x, q.active), (3, 4, 0, true));
    let s = snapshot_from_mode("\\\\.\\DISPLAY4", true, 1, 2, 3, 4, 5, 6, 7, 8);
    assert_eq!((s.id.as_str(), s.primary, s.bits_per_pel, s.fixed_output), ("\\\\.\\DISPLAY4", false, 5, 8));
}

#[test]
fn capture_requires_an_active_display() {
    let gs = vec![
        gdi("\\\\.\\DISPLAY1", "", "", true, true, Some(mode("\\\\.\\DISPLAY1", true, 1, 1, 0, 0))),
        gdi("\\\\.\\DISPLAY2", "", "", false, false, None),
        gdi("\\\\.\\DISPLAY3", "", "", false, false, Some(mode("\\\\.\\DISPLAY3", false, 1, 1, 0, 0))),
    ];
    let snap = capture_layout(gs).unwrap();
    assert_eq!(snap.displays.iter().map(|d| d.device_name.clone()).collect::<Vec<_>>(), vec!["\\\\.\\DISPLAY1", "\\\\.\\DISPLAY3"]);
    let none = capture_layout(vec![gdi("\\\\.\\DISPLAY3", "", "", false, false, Some(mode("\\\\.\\DISPLAY3", false, 1, 1, 0, 0)))]);
    assert_eq!(none.unwrap_err(), "no active display can be recorded");
    assert_eq!(capture_layout(vec![]).unwrap_err(), "no active display can be recorded");
}

#[test]
fn switch_plans() {
    let ms = vec![
        runtime("HEADSET", "Quest", false, false, Some(mode("\\\\.\\DISPLAY3", false, 1920, 1080, 100, 100)), 0),
        runtime("A", "Dell", true, true, Some(mode("\\\\.\\DISPLAY1", true, 2560, 1440, 0, 0)), 1),
        runtime("B", "LG", true, false, Some(mode("\\\\.\\DISPLAY2", true, 1920, 1080, 2560, 0)), 2),
        runtime("C", "LG clone", true, false, Some(mode("\\\\.\\DISPLAY2", true, 1920, 1080, 2560, 0)), 3),
        runtime("D", "off", false, false, Some(mode("\\\\.\\DISPLAY4", false, 1, 1, 0, 0)), 4),
        runtime("E", "nomode", true, false, None, 5),
    ];
    let plan = switch_to_display(&ms, "HEADSET").unwrap();
    assert!(plan.target.active && plan.target.primary);
    assert_eq!((plan.target.x, plan.target.y, plan.target.device_name.as_str()), (0, 0, "\\\\.\\DISPLAY3"));
    let detached: Vec<(String, String)> = plan.detach.iter().map(|d| (d.device_name.clone(), d.friendly_name.clone())).collect();
    assert_eq!(detached, vec![("\\\\.\\DISPLAY1".to_string(), "Dell".to_string()), ("\\\\.\\DISPLAY2".to_string(), "LG".to_string())]);
    let by_hw = switch_to_display(&ms, "hw-B").unwrap();
    assert_eq!(by_hw.target.device_name, "\\\\.\\DISPLAY2");
    let by_device = switch_to_display(&ms, "\\\\.\\DISPLAY4").unwrap();
    assert_eq!(by_device.target.device_name, "\\\\.\\DISPLAY4");
    assert_eq!(switch_to_display(&ms, "nope").unwrap_err(), "target display not found: nope");
    assert_eq!(switch_to_display(&ms, "E").unwrap_err(), "target display cannot be controlled: nomode");
}

#[test]
fn restore_plans() {
    let snap = DisplayLayoutSnapshot {
        displays: vec![
            mode("\\\\.\\DISPLAY1", true, 2560, 1440, 0, 0),
            DisplayModeSnapshot { device_string: "Quest".to_string(), ..mode("\\\\.\\DISPLAY3", false, 1, 1, 0, 0) },
            mode("\\\\.\\DISPLAY2", true, 1920, 1080, 2560, 0),
        ],
    };
    let plan = restore_layout(&snap).unwrap();
    assert_eq!(plan.apply.iter().map(|m| m.device_name.clone()).collect::<Vec<_>>(), vec!["\\\\.\\DISPLAY1", "\\\\.\\DISPLAY2"]);
    assert_eq!(plan.detach.len(), 1);
    assert_eq!((plan.detach[0].device_name.as_str(), plan.detach[0].friendly_name.as_str()), ("\\\\.\\DISPLAY3", "Quest"));
    let none = DisplayLayoutSnapshot { displays: vec![mode("\\\\.\\DISPLAY3", false, 1, 1, 0, 0)] };
    assert_eq!(restore_layout(&none).unwrap_err(), "startup display state has no active display");
}

#[test]
fn mode_change_settings() {
    let mut m = mode("\\\\.\\DISPLAY1", true, 2560, 1440, -5, 7);
    m.bits_per_pel = 24;
    m.frequency = 0;
    let s = mode_settings(&m).unwrap();
    assert_eq!(s.bits_per_pel, 32);
    assert_eq!(s.fields, DM_POSITION | DM_PELSWIDTH | DM_PELSHEIGHT | DM_DISPLAYORIENTATION | DM_DISPLAYFIXEDOUTPUT | DM_BITSPERPEL);
    assert_eq!((s.x, s.y, s.width, s.height), (-5, 7, 2560, 1440));
    m.bits_per_pel = 64;
    m.frequency = 144;
    let s = mode_settings(&m).unwrap();
    assert_eq!(s.bits_per_pel, 64);
    assert_eq!(s.fields & DM_DISPLAYFREQUENCY, DM_DISPLAYFREQUENCY);
    let mut bad = mode("", true, 1, 1, 0, 0);
    bad.id = "K".to_string();
    assert_eq!(mode_settings(&bad).unwrap_err(), "display has no GDI device name: K");
    assert_eq!(mode_settings(&mode("\\\\.\\DISPLAY9", true, 0, 1, 0, 0)).unwrap_err(), "display mode is invalid: \\\\.\\DISPLAY9");
    let d = detach_settings();
    assert_eq!((d.width, d.height, d.fields), (0, 0, DM_POSITION | DM_PELSWIDTH | DM_PELSHEIGHT));
    assert_eq!(change_flags(true), CDS_UPDATEREGISTRY | CDS_NORESET);
    assert_eq!(change_flags(false), CDS_UPDATEREGISTRY);
    assert_eq!(change_error("detach display Dell", -1), "detach display Dell failed, Win32 code -1");
}

#[test]
fn mode_queries() {
    assert_eq!(mode_query_order(true), vec![(ENUM_CURRENT_SETTINGS, EDS_RAWMODE), (ENUM_CURRENT_SETTINGS, 0), (ENUM_REGISTRY_SETTINGS, EDS_RAWMODE), (ENUM_REGISTRY_SETTINGS, 0)]);
    assert_eq!(mode_query_order(false)[0], (ENUM_REGISTRY_SETTINGS, EDS_RAWMODE));
    assert_eq!(fallback_mode_query(0), (0, EDS_RAWMODE));
    assert_eq!(fallback_mode_query(5), (2, 0));
    assert!(usable_mode(true, 1, 1));
    assert!(!usable_mode(true, 0, 1));
    assert!(!usable_mode(false, 1, 1));
    assert!(matches!(config_query_step(0, 0), QueryStep::Done));
    assert!(matches!(config_query_step(1, 122), QueryStep::Retry));
    match config_query_step(2, 122) {
        QueryStep::Fail(m) => assert_eq!(m, "QueryDisplayConfig kept returning insufficient buffer"),
        _ => panic!("expected failure"),
    }
    match config_query_step(0, 87) {
        QueryStep::Fail(m) => assert_eq!(m, "QueryDisplayConfig failed: 87"),
        _ => panic!("expected failure"),
    }
}

fn device(name: &str, string: &str, flags: u32, id: &str) -> DisplayDevice {
    DisplayDevice { device_name: wide(name, 32), device_string: wide(string, 128), state_flags: flags, device_id: wide(id, 128) }
}

#[test]
fn gdi_devices() {
    let children = vec![device("m0", "First", 0, "ID0"), device("m1", "Second", 1, "ID1"), device("m2", "Third", 0, "ID2"), device("m3", "Fourth", 1, "ID3")];
    assert_eq!(monitor_child_for_gdi_display(&children), Some(("Fourth".to_string(), "ID3".to_string())));
    assert_eq!(monitor_child_for_gdi_display(&vec![device("m0", "Only", 0, "X"), device("m1", "Next", 0, "Y")]), Some(("Only".to_string(), "X".to_string())));
    assert_eq!(monitor_child_for_gdi_display(&vec![]), None);
    let d = device("\\\\.\\DISPLAY1", "NVIDIA", 5, "PCI\\VEN");
    let req = gdi_mode_request(&d);
    assert_eq!((req.device_name.as_str(), req.active), ("\\\\.\\DISPLAY1", true));
    let g = gdi_display_from(&d, Some(("Dell".to_string(), "MONITOR\\DEL".to_string())), Some(mode("\\\\.\\DISPLAY1", false, 3, 3, 0, 0)));
    assert!(g.active && g.primary);
    assert_eq!(g.monitor_name, "Dell");
    let m = g.mode.unwrap();
    assert_eq!((m.device_string.as_str(), m.hardware_id.as_str(), m.active, m.primary), ("NVIDIA", "MONITOR\\DEL", true, true));
    let g2 = gdi_display_from(&device("\\\\.\\DISPLAY2", "AMD", 0, "PCI\\X"), None, None);
    assert_eq!((g2.monitor_name.as_str(), g2.monitor_id.as_str(), g2.active), ("", "PCI\\X", false));
}

#[test]
fn mode_reads_in_order() {
    assert_eq!(mode_query(true, 0), Some((ENUM_CURRENT_SETTINGS, EDS_RAWMODE)));
    assert_eq!(mode_query(false, 0), Some((ENUM_REGISTRY_SETTINGS, EDS_RAWMODE)));
    assert_eq!(mode_query(false, 3), Some((ENUM_CURRENT_SETTINGS, 0)));
    assert_eq!(mode_query(true, 4), Some((0, EDS_RAWMODE)));
    assert_eq!(mode_query(true, 5), Some((0, 0)));
    assert_eq!(mode_query(true, 259), Some((127, 0)));
    assert_eq!(mode_query(true, 260), None);
}

use lan_mouse::file_drop::layer_shell::{
    edge_geometry, try_start, DndAction, DndInitError, LayerShellDnd, PumpInput, PumpNext,
};
use lan_mouse::file_drop::windows::{
    drag_enter, drag_leave, drag_over, drop_files, dropped_name, edge_strip, on_message,
    reconcile, DropEffect, MessageAction, Rect, ThreadSignal, WindowAction,
};
use lan_mouse::file_drop::{
    auto_detect_backend, file_drop_source, windows, AnySource, EdgeSet, FileDropBackend,
    FileDropEvent, FileDropSource, PerEdge,
};
use lan_mouse::ipc::{FileDecision, Position, Settings, TransferResult};
use lan_mouse::text::{
    first_word_of, last_nonblank_line, pad_right, parse_decimal, replace_all, strip_prefix,
    strip_suffix, take_fitting, trimmed,
};
use lan_mouse::ui::client_row::{dns_class, file_dropped, port_changed, text_dropped, RowDrop};
use lan_mouse::ui::settings::{
    apply_settings, collect_settings, listen_options, refresh_service_status,
    release_bind_label, selected_address, selected_for,
};
use lan_mouse::ui::transfers::{
    decision_toast, default_download_dir, folder_title, initial_dir, offer_answered,
    open_folder_picker, present_file_offer, pretty_bytes, state_file_path, OfferAnswer,
    TransferToasts,
};
use lan_mouse::ui::window::{
    constructed, get_search_domain, hostname_tooltip, port_text, Interface,
};
use lan_mouse::uri::{parse_uri_list, percent_decode, urlencode};
use lan_mouse::windows_service::supervisor::{Action, Reply, Supervisor, WaitReply};
use lan_mouse::windows_service::worker::{
    worker_command_line, worker_desktop, SpawnAction, SpawnEnd, SpawnReply, SpawnWorker,
    NO_ACTIVE_SESSION,
};
use lan_mouse::windows_service::{
    install, on_control, service_main, status, uninstall, ControlResult, Error, InstalledState,
    ServiceControl, ServiceQuery, ServiceState, ServiceStep, UninstallAction,
};

// ----- drop zones -----------------------------------------------------------

fn edges(list: &[Position]) -> EdgeSet {
    let mut e = EdgeSet::new();
    for p in list {
        e.insert(*p);
    }
    e
}

#[test]
fn dummy_source_never_emits() {
    let mut src = file_drop_source(
        Some(FileDropBackend::Dummy),
        FileDropBackend::Dummy,
        None,
        None,
    );
    src.set_active_edges(edges(&[Position::Left]));
    assert!(src.next_event().is_none(), "dummy source must remain pending");
    src.terminate();
}

#[test]
fn failed_backends_fall_back() {
    let src = file_drop_source(None, FileDropBackend::LayerShellDataDevice, None, None);
    assert!(matches!(src, AnySource::Dummy(_)));
    let zones = try_start(&Ok(()));
    let src = file_drop_source(None, FileDropBackend::LayerShellDataDevice, zones, None);
    assert!(matches!(src, AnySource::LayerShell(_)));
    assert!(try_start(&Err(DndInitError::NoWaylandDisplay)).is_none());
    let src = file_drop_source(
        Some(FileDropBackend::WindowsOle),
        FileDropBackend::Dummy,
        None,
        windows::try_start(true),
    );
    assert!(matches!(src, AnySource::Windows(_)));
}

#[test]
fn detected_backends() {
    assert!(auto_detect_backend(true, false, false) == FileDropBackend::WindowsOle);
    assert!(auto_detect_backend(false, true, true) == FileDropBackend::LayerShellDataDevice);
    assert!(auto_detect_backend(false, true, false) == FileDropBackend::Dummy);
    assert_eq!(FileDropBackend::LayerShellDataDevice.name(), "layer-shell-data-device");
    assert_eq!(
        DndInitError::Connect("x".to_string()).message(),
        "wayland connect: x"
    );
}

#[test]
fn surfaces_follow_the_edges() {
    let mut d = LayerShellDnd::new();
    d.set_active_edges(edges(&[Position::Left, Position::Top]));
    assert!(
        d.take_actions()
            == vec![
                DndAction::CreateSurface(Position::Left),
                DndAction::CreateSurface(Position::Top),
                DndAction::Flush,
            ]
    );
    d.surface_created(Position::Left, 10);
    d.surface_created(Position::Top, 11);
    d.set_active_edges(edges(&[Position::Left, Position::Top]));
    assert!(d.take_actions().is_empty());
    d.set_active_edges(edges(&[Position::Top, Position::Right]));
    assert!(
        d.take_actions()
            == vec![
                DndAction::DestroySurface(10),
                DndAction::CreateSurface(Position::Right),
                DndAction::Flush,
            ]
    );
    d.terminate();
    assert!(d.take_actions() == vec![DndAction::DestroySurface(11), DndAction::Flush]);
}

fn zone() -> LayerShellDnd {
    let mut d = LayerShellDnd::new();
    d.set_active_edges(edges(&[Position::Left]));
    d.surface_created(Position::Left, 10);
    d.on_data_offer(5);
    d.on_offer_type(5, "text/plain");
    d.on_offer_type(5, "text/uri-list");
    d.take_actions();
    d
}

#[test]
fn dropped_files_are_reported() {
    let mut d = zone();
    d.on_enter(10, Some(5));
    assert!(matches!(d.next_event(), Some(FileDropEvent::Entered(Position::Left))));
    d.on_drop();
    assert!(
        d.take_actions()
            == vec![DndAction::AcceptOffer(5), DndAction::ReceiveOffer(5, Position::Left)]
    );
    d.on_received(5, Position::Left, Some(b"file:///a%20b\r\nsmb://x\r\n".to_vec()));
    assert!(d.take_actions() == vec![DndAction::FinishOffer(5), DndAction::DestroyOffer(5)]);
    match d.next_event() {
        Some(FileDropEvent::Dropped { position, paths }) => {
            assert_eq!(position, Position::Left);
            assert_eq!(paths, vec!["/a b"]);
        }
        other => panic!("unexpected event: {other:?}"),
    }
    assert!(d.next_event().is_none());
    d.on_received(6, Position::Left, None);
    assert!(d.take_actions() == vec![DndAction::DestroyOffer(6)]);
}

#[test]
fn other_drags_are_ignored() {
    let mut d = zone();
    d.on_enter(99, Some(5));
    d.on_enter(10, None);
    d.on_enter(10, Some(6));
    d.on_leave();
    d.on_drop();
    assert!(d.next_event().is_none());
    assert!(d.take_actions().is_empty());
    d.on_enter(10, Some(5));
    d.on_leave();
    d.on_leave();
    assert!(matches!(d.next_event(), Some(FileDropEvent::Entered(_))));
    assert!(matches!(d.next_event(), Some(FileDropEvent::Cancelled(Position::Left))));
    assert!(d.next_event().is_none());
}

#[test]
fn surfaces_are_shown_with_a_buffer() {
    let mut d = zone();
    assert!(d.needs_buffer());
    d.on_configure(Position::Left, false);
    assert!(d.take_actions().is_empty());
    d.on_configure(Position::Left, true);
    assert!(d.take_actions() == vec![DndAction::AttachBuffer(10)]);
    assert!(!d.needs_buffer());
    d.on_closed(Position::Left);
    d.on_configure(Position::Left, false);
    assert!(d.take_actions().is_empty());
}

#[test]
fn event_loop_turns() {
    let mut d = zone();
    assert!(d.pump(PumpInput::Start) == PumpNext::Prepare);
    assert!(d.pump(PumpInput::Prepared) == PumpNext::Poll);
    assert!(d.pump(PumpInput::NotReady) == PumpNext::Pending);
    assert!(d.pump(PumpInput::Dispatched(false)) == PumpNext::End);
    d.on_enter(10, Some(5));
    assert!(d.pump(PumpInput::Dispatched(true)) == PumpNext::Emit);
}

#[test]
fn surface_geometry() {
    let g = edge_geometry(Position::Top);
    assert_eq!((g.width, g.height), (0, 1));
    assert!(g.anchors == edges(&[Position::Top, Position::Left, Position::Right]));
    let g = edge_geometry(Position::Right);
    assert_eq!((g.width, g.height), (1, 0));
}

#[test]
fn drop_event_texts() {
    assert_eq!(FileDropEvent::Entered(Position::Top).message(), "drag entered top");
    assert_eq!(
        FileDropEvent::Dropped { position: Position::Left, paths: vec!["/a".to_string()] }
            .message(),
        "drop at left (1 paths)"
    );
}

#[test]
fn windows_follow_the_edges() {
    let mut w = PerEdge::new();
    let r = reconcile(&mut w, edges(&[Position::Left]));
    assert!(r == vec![WindowAction::Create(Position::Left)]);
    w.set(Position::Left, Some(3));
    let r = reconcile(&mut w, edges(&[Position::Bottom]));
    assert!(r == vec![WindowAction::Destroy(3), WindowAction::Create(Position::Bottom)]);
    assert!(w.get(Position::Left).is_none());
    let mut t = windows::try_start(true).unwrap();
    t.set_active_edges(edges(&[Position::Left]));
    t.set_active_edges(edges(&[Position::Left]));
    t.terminate();
    assert!(t.take_signals() == vec![ThreadSignal::ReconcileEdges, ThreadSignal::Exit]);
    assert!(t.active_edges().contains(Position::Left));
}

#[test]
fn window_strips() {
    let right = Rect { x: 1918, y: 0, width: 2, height: 1080 };
    assert!(edge_strip(Position::Right, 1920, 1080) == right);
    let bottom = Rect { x: 0, y: 1078, width: 1920, height: 2 };
    assert!(edge_strip(Position::Bottom, 1920, 1080) == bottom);
}

#[test]
fn window_drags() {
    assert!(matches!(
        drag_enter(Position::Left, true),
        (DropEffect::Copy, Some(FileDropEvent::Entered(Position::Left)))
    ));
    assert!(matches!(drag_enter(Position::Left, false), (DropEffect::Refuse, None)));
    assert!(drag_over() == DropEffect::Copy);
    assert!(matches!(drag_leave(Position::Top), FileDropEvent::Cancelled(Position::Top)));
    assert!(matches!(drop_files(Position::Left, Vec::new()), (DropEffect::Refuse, None)));
    assert!(matches!(
        drop_files(Position::Left, vec!["a".to_string()]),
        (DropEffect::Copy, Some(FileDropEvent::Dropped { .. }))
    ));
    assert_eq!(dropped_name(3, 2, vec![65, 66, 0]).unwrap(), vec![65, 66]);
    assert!(dropped_name(0, 2, vec![65]).is_none());
    assert!(dropped_name(2, 0, vec![65]).is_none());
    assert!(on_message(true, true, 1) == MessageAction::Reconcile);
    assert!(on_message(true, true, ThreadSignal::Exit.number()) == MessageAction::Quit);
    assert!(on_message(true, true, 9) == MessageAction::Ignore);
    assert!(on_message(false, true, 1) == MessageAction::Dispatch);
}

// ----- URIs and text --------------------------------------------------------

#[test]
fn escapes_roundtrip() {
    assert_eq!(urlencode("a b/ü~"), "a%20b%2F%C3%BC~");
    for s in ["", "plain", "a b", "100%", "ü&=?", "%41"] {
        assert_eq!(percent_decode(&urlencode(s)), s);
    }
    assert_eq!(percent_decode("%zz%4"), "%zz%4");
    assert_eq!(percent_decode("a%41"), "aA");
    assert_eq!(percent_decode("%ff"), "");
}

#[test]
fn uri_lists() {
    let list = b"# comment\r\nfile:///home/u/a%20b.txt\r\n\r\nsmb://host/x\nfile:///c\n";
    assert_eq!(parse_uri_list(list), vec!["/home/u/a b.txt", "/c"]);
    assert!(parse_uri_list(&[0xff]).is_empty());
}

#[test]
fn text_helpers() {
    assert_eq!(trimmed("  a b \n"), "a b");
    assert_eq!(strip_prefix("file://x", "file://").unwrap(), "x");
    assert!(strip_prefix("x", "file://").is_none());
    assert_eq!(strip_suffix("box.local", ".local").unwrap(), "box");
    assert_eq!(replace_all("LeftLeft", "Left", "L-"), "L-L-");
    assert_eq!(first_word_of("  a b").unwrap(), "a");
    assert!(first_word_of("  ").is_none());
    assert_eq!(pad_right("ab", 4), "ab  ");
    assert_eq!(pad_right("abcde", 4), "abcde");
    assert_eq!(last_nonblank_line("a\nb\r\n \n").unwrap(), "b");
    assert!(last_nonblank_line("\n").is_none());
    assert_eq!(parse_decimal("+12", 65535), Some(12));
    assert_eq!(parse_decimal("65536", 65535), None);
    assert_eq!(parse_decimal("", 65535), None);
    assert_eq!(take_fitting("aéb", 2), "a");
}

// ----- the Windows service --------------------------------------------------

#[test]
fn registration() {
    let d = install(false, "C:\\lm.exe").unwrap();
    assert_eq!(d.name, "LanMousePlus");
    assert_eq!(d.display_name, "Lan Mouse+");
    assert_eq!(d.executable_path, "C:\\lm.exe");
    assert_eq!(d.launch_arguments, vec!["service"]);
    assert!(matches!(install(true, "x"), Err(Error::AlreadyInstalled)));
    let gone = ServiceQuery::Refused(Some(1060), "x".to_string());
    assert!(matches!(uninstall(gone), Err(Error::NotInstalled)));
    let denied = ServiceQuery::Refused(Some(5), "denied".to_string());
    assert!(matches!(uninstall(denied), Err(Error::Win(e)) if e == "denied"));
    let stopped = ServiceQuery::State(ServiceState::Stopped);
    assert!(uninstall(stopped).unwrap() == vec![UninstallAction::Delete]);
    assert!(
        uninstall(ServiceQuery::State(ServiceState::Running)).unwrap()
            == vec![UninstallAction::Stop, UninstallAction::Wait(1), UninstallAction::Delete]
    );
}

#[test]
fn service_states() {
    let state = |s| status(ServiceQuery::State(s)).unwrap();
    assert!(state(ServiceState::Running) == InstalledState::Running);
    assert!(state(ServiceState::Other) == InstalledState::Other);
    let gone = status(ServiceQuery::Refused(Some(1060), "x".to_string())).unwrap();
    assert!(gone == InstalledState::NotInstalled);
    assert!(matches!(
        status(ServiceQuery::Refused(Some(5), "denied".to_string())),
        Err(Error::Win(e)) if e == "denied"
    ));
}

#[test]
fn service_entry_point() {
    assert!(on_control(false, ServiceControl::Stop) == (true, ControlResult::NoError));
    assert!(on_control(false, ServiceControl::Interrogate) == (false, ControlResult::NoError));
    assert!(on_control(true, ServiceControl::Other) == (true, ControlResult::NotImplemented));
    assert!(service_main(false, true).is_empty());
    assert!(
        service_main(true, true)
            == vec![
                ServiceStep::ReportRunning,
                ServiceStep::Supervise,
                ServiceStep::ReportStopped,
            ]
    );
    assert_eq!(service_main(true, false).len(), 2);
}

#[test]
fn worker_is_started_in_the_session() {
    let (mut w, first) = SpawnWorker::new();
    assert!(first == SpawnAction::QuerySession);
    assert!(w.step(SpawnReply::Session(2)).0 == vec![SpawnAction::OpenProcessToken]);
    assert!(
        w.step(SpawnReply::Token(10)).0 == vec![SpawnAction::DuplicateToken { token: 10 }]
    );
    assert!(
        w.step(SpawnReply::Token(11)).0
            == vec![
                SpawnAction::CloseToken { token: 10 },
                SpawnAction::SetTokenSession { token: 11, session: 2 },
            ]
    );
    assert!(
        w.step(SpawnReply::Done).0 == vec![SpawnAction::CreateEnvironment { token: 11 }]
    );
    assert!(
        w.step(SpawnReply::Environment(12)).0
            == vec![SpawnAction::CreateProcess { token: 11, environment: 12 }]
    );
    let (actions, end) = w.step(SpawnReply::Process { process: 20, thread: 21 });
    assert!(
        actions
            == vec![
                SpawnAction::DestroyEnvironment { environment: 12 },
                SpawnAction::CloseToken { token: 11 },
            ]
    );
    assert!(matches!(
        end,
        Some(SpawnEnd::Spawned { process: 20, thread: 21, session: 2 })
    ));
    assert_eq!(worker_command_line("C:\\a b\\lm.exe"), "\"C:\\a b\\lm.exe\" service-worker");
    assert_eq!(worker_desktop(), "winsta0\\default");
}

#[test]
fn failed_start_gives_everything_back() {
    let (mut w, _) = SpawnWorker::new();
    assert!(matches!(
        w.step(SpawnReply::Session(NO_ACTIVE_SESSION)).1,
        Some(SpawnEnd::NoSession)
    ));
    let (mut w, _) = SpawnWorker::new();
    w.step(SpawnReply::Session(2));
    w.step(SpawnReply::Token(10));
    w.step(SpawnReply::Token(11));
    let (actions, end) = w.step(SpawnReply::Refused("denied".to_string()));
    assert!(actions == vec![SpawnAction::CloseToken { token: 11 }]);
    match end {
        Some(SpawnEnd::Failed(e)) => {
            assert_eq!(e.message(), "Win32 SetTokenInformation(TokenSessionId): denied")
        }
        other => panic!("unexpected end: {other:?}"),
    }
}

#[test]
fn supervisor_backs_off() {
    let (mut s, first) = Supervisor::new();
    assert!(first == Action::ReadFlag);
    let mut pauses = Vec::new();
    for _ in 0..7 {
        assert!(s.step(Reply::Flag(false)) == vec![Action::QuerySession]);
        assert!(s.step(Reply::Session(1)) == vec![Action::Spawn]);
        match s.step(Reply::SpawnFailed)[0] {
            Action::Sleep(n) => pauses.push(n),
            _ => panic!("no pause"),
        }
        assert!(s.step(Reply::Rested) == vec![Action::ReadFlag]);
    }
    assert_eq!(pauses, vec![1, 2, 4, 8, 16, 30, 30]);
}

#[test]
fn supervisor_follows_the_user() {
    let (mut s, _) = Supervisor::new();
    s.step(Reply::Flag(false));
    assert!(s.step(Reply::Session(NO_ACTIVE_SESSION)) == vec![Action::Sleep(2)]);
    s.step(Reply::Rested);
    s.step(Reply::Flag(false));
    s.step(Reply::Session(1));
    assert!(s.step(Reply::Spawned) == vec![Action::ReadFlag]);
    assert!(s.step(Reply::Flag(false)) == vec![Action::Wait(1000)]);
    assert!(s.step(Reply::Wait(WaitReply::Timeout)) == vec![Action::QuerySession]);
    assert!(s.step(Reply::Session(NO_ACTIVE_SESSION)) == vec![Action::ReadFlag]);
    s.step(Reply::Flag(false));
    s.step(Reply::Wait(WaitReply::Timeout));
    assert!(s.step(Reply::Session(2)) == vec![Action::Terminate, Action::ReadFlag]);
    s.step(Reply::Flag(false));
    s.step(Reply::Session(2));
    s.step(Reply::Spawned);
    s.step(Reply::Flag(false));
    assert!(s.step(Reply::Wait(WaitReply::Signaled)) == vec![Action::Sleep(1)]);
    assert!(s.step(Reply::Rested) == vec![Action::Release, Action::ReadFlag]);
    s.step(Reply::Flag(false));
    s.step(Reply::Session(2));
    s.step(Reply::Spawned);
    assert!(s.step(Reply::Flag(true)) == vec![Action::Terminate, Action::Return]);
}

// ----- windows --------------------------------------------------------------

fn iface(name: &str, address: &str, v6: bool, loopback: bool) -> Interface {
    Interface { name: name.to_string(), loopback, v6, address: address.to_string() }
}

fn ifaces() -> Vec<Interface> {
    vec![
        iface("lo", "127.0.0.1", false, true),
        iface("eth0", "10.0.0.5", false, false),
        iface("eth0", "fe80::1", true, false),
        iface("eth0", "2001:db8::5", true, false),
        iface("wlan0", "192.168.1.5", false, false),
    ]
}

#[test]
fn host_panel() {
    let conf = Some("nameserver 1.1.1.1\n search  lan example\n".to_string());
    let p = constructed(Some("box".to_string()), &ifaces(), &conf);
    assert_eq!(p.tooltip.unwrap(), "IPv4: 10.0.0.5, 192.168.1.5\nIPv6: 2001:db8::5");
    let items: Vec<(&str, &str)> =
        p.items.iter().map(|i| (i.action.as_str(), i.text.as_str())).collect();
    assert_eq!(
        items,
        vec![
            ("copy-hostname", "box"),
            ("copy-fqdn", "box.lan"),
            ("copy-ipv4", "10.0.0.5"),
            ("copy-ipv6", "2001:db8::5"),
        ]
    );
    let p = constructed(None, &Vec::new(), &conf);
    assert!(p.items.is_empty());
    assert!(p.tooltip.is_none());
    assert!(hostname_tooltip(&Vec::new(), &Vec::new()).is_none());
}

#[test]
fn search_domains() {
    let d = |s: &str| get_search_domain(&Some(s.to_string()));
    assert_eq!(d("domain home.arpa\nsearch x").unwrap(), "home.arpa");
    assert!(d("nameserver 1.1.1.1").is_none());
    assert!(d("searching x").is_none());
    assert!(get_search_domain(&None).is_none());
}

#[test]
fn ports_in_entries() {
    assert_eq!(port_text(4242), "");
    assert_eq!(port_text(5000), "5000");
    assert_eq!(port_changed("5000"), Some(5000));
    assert_eq!(port_changed("70000"), None);
    assert_eq!(port_changed("x"), None);
    assert_eq!(dns_class(true), "success");
    assert_eq!(dns_class(false), "warning");
}

#[test]
fn drops_on_rows() {
    assert!(matches!(file_dropped(None), RowDrop::Refused));
    assert!(matches!(
        file_dropped(Some("/a".to_string())),
        RowDrop::SendFiles(v) if v == vec!["/a"]
    ));
    assert!(matches!(
        text_dropped("file:///a%20b\n# c\nhttp://x"),
        RowDrop::SendFiles(v) if v == vec!["/a b"]
    ));
    assert!(matches!(text_dropped("http://x"), RowDrop::Refused));
}

#[test]
fn settings_form() {
    let v4 = listen_options(&ifaces(), false);
    assert_eq!(
        v4,
        vec!["All interfaces (0.0.0.0)", "10.0.0.5 (eth0)", "192.168.1.5 (wlan0)"]
    );
    let v6 = listen_options(&ifaces(), true);
    assert_eq!(v6, vec!["All interfaces ([::])", "2001:db8::5 (eth0)"]);
    assert_eq!(selected_for(&v4, "192.168.1.5"), Some(2));
    assert_eq!(selected_for(&v4, "1.2.3.4"), None);
    assert_eq!(selected_address(&v4, 2).unwrap(), "192.168.1.5");
    assert!(selected_address(&v4, 0).is_none());
    let keys = vec!["KeyLeftCtrl".to_string(), "KeyRightShift".to_string(), "KeyA".to_string()];
    assert_eq!(release_bind_label(&keys), "Current: L-Ctrl + R-Shift + A");
    let s = Settings { auto_accept_discovered: true, release_bind: keys, ..Settings::default() };
    let f = apply_settings(&s, &Some("10.0.0.5".to_string()), &None, &v4, &v6);
    assert!(f.auto_accept && f.auto_accept_warning);
    assert_eq!(f.listen_ipv4, Some(1));
    assert_eq!(f.listen_ipv6, None);
    let c = collect_settings(true, false, true, false, None, None);
    assert!(c.discoverable_on_startup && c.start_minimized && !c.ipv6_enabled);
    assert!(c.release_bind.is_empty());
}

#[test]
fn service_panel() {
    let p = refresh_service_status(&Ok(InstalledState::NotInstalled));
    assert_eq!(p.text, "Not installed");
    assert!(p.install && !p.uninstall && !p.start && !p.stop);
    let p = refresh_service_status(&Ok(InstalledState::Running));
    assert!(!p.install && p.uninstall && !p.start && p.stop);
    let p = refresh_service_status(&Err(Error::NotInstalled));
    assert!(p.install && p.uninstall && p.start && p.stop);
}

#[test]
fn sizes() {
    assert_eq!(pretty_bytes(0), "0 B");
    assert_eq!(pretty_bytes(1023), "1023 B");
    for b in [
        1024u64, 1535, 1536, 2560, 3584, 1_048_575, 1_048_576, 1_572_864, 13_107_200,
        1_073_741_823, 1_073_741_824, 1_503_238_553, 68_719_476_736, 9_007_199_254_740_993,
        u64::MAX,
    ] {
        let f = b as f64;
        let expected = if f >= 1073741824.0 {
            format!("{:.2} GB", f / 1073741824.0)
        } else if f >= 1048576.0 {
            format!("{:.1} MB", f / 1048576.0)
        } else {
            format!("{:.0} KB", f / 1024.0)
        };
        assert_eq!(pretty_bytes(b), expected, "{b}");
    }
}

#[test]
fn transfer_directories() {
    assert_eq!(
        state_file_path(Some("/s"), None).unwrap(),
        "/s/lan-mouse/state.json"
    );
    assert_eq!(
        state_file_path(None, Some("/h")).unwrap(),
        "/h/.local/state/lan-mouse/state.json"
    );
    assert!(state_file_path(None, None).is_none());
    let s = |t: &str| Some(t.to_string());
    assert_eq!(default_download_dir(&s("/dl"), &s("/h")), "/dl");
    assert_eq!(default_download_dir(&s(""), &s("/h")), "/h/Downloads");
    assert_eq!(default_download_dir(&None, &None), ".");
    assert_eq!(initial_dir(&s("/last"), "/dl"), "/last");
    assert_eq!(initial_dir(&None, "/dl"), "/dl");
}

#[test]
fn offer_dialog() {
    let d = present_file_offer("pics", 3, 2048, "aa:bb");
    assert_eq!(d.title, "Incoming files: pics");
    assert_eq!(d.body, "3 entries, 2 KB\nFingerprint: aa:bb");
    assert_eq!(present_file_offer("a", 1, 5, "f").body, "5 B\nFingerprint: f");
    assert!(offer_answered("accept") == OfferAnswer::PickFolder);
    assert!(offer_answered("close") == OfferAnswer::Decline);
    assert_eq!(folder_title("pics"), "Save \"pics\" to…");
    let (d, dir) = open_folder_picker(true, None, "/dl");
    assert!(matches!(d, FileDecision::Accept { dest_dir } if dest_dir == "/dl"));
    assert_eq!(dir.unwrap(), "/dl");
    let (d, dir) = open_folder_picker(false, Some("/x".to_string()), "/dl");
    assert!(matches!(d, FileDecision::Decline));
    assert!(dir.is_none());
}

#[test]
fn transfer_messages() {
    let mut t = TransferToasts::new();
    assert_eq!(t.on_progress(1, 2048).unwrap(), "Receiving 2 KB…");
    assert!(t.on_progress(1, 2048).is_none());
    let done = TransferResult::Done { destination: "/in/x".to_string() };
    assert_eq!(t.on_finished(1, &done), "Transfer complete: saved to /in/x");
    assert!(t.on_progress(1, 1).is_some());
    assert_eq!(t.on_finished(1, &TransferResult::Cancelled), "Transfer cancelled");
    assert_eq!(
        t.on_finished(1, &TransferResult::Error("x".to_string())),
        "Transfer failed: x"
    );
    assert_eq!(decision_toast(4, &FileDecision::Decline).unwrap(), "Declined transfer 4");
}

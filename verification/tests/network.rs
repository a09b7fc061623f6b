use lan_mouse::client::{ClientManager, ConfigClient};
use lan_mouse::clipboard::encode_clipboard_msg;
use lan_mouse::connect::{
    bind_addr, candidate_addrs, classify, ConnectAny, Datagram, LanMouseConnection,
    LanMouseConnectionError, PingAction, PingPong, PingReply, SendPlan,
};
use lan_mouse::discovery::{
    start_advertising, BrowseEvent, Browser, DiscoveryMode, ModeAction, ResolvedService,
};
use lan_mouse::ipc::{FrontendEvent, Position};
use lan_mouse::net::{IpAddr, SocketAddr};

const SECOND: u64 = 1_000_000_000;

fn addr(last: u32) -> SocketAddr {
    SocketAddr::new(IpAddr::V4(last), 4242)
}

// ----- discovery ------------------------------------------------------------

fn resolved(host: &str) -> ResolvedService {
    ResolvedService {
        hostname: Some(host.to_string()),
        fingerprint: Some("fp".to_string()),
        port: Some("5000".to_string()),
        position: Some("top".to_string()),
        addrs: vec![IpAddr::V4(1)],
    }
}

#[test]
fn devices_are_reported_once() {
    let mut b = Browser::new("me".to_string());
    match b.step(BrowseEvent::Resolved(resolved("box")), 0) {
        Some(FrontendEvent::DiscoveredDevice(d)) => {
            assert_eq!(d.hostname, "box");
            assert_eq!(d.port, 5000);
            assert_eq!(d.position, Position::Bottom);
        }
        other => panic!("unexpected event: {other:?}"),
    }
    assert!(b.step(BrowseEvent::Resolved(resolved("box")), 1).is_none());
    assert!(b.step(BrowseEvent::Other, 1).is_none());
}

#[test]
fn own_device_is_not_reported() {
    let mut b = Browser::new("me".to_string());
    assert!(b.step(BrowseEvent::Resolved(resolved("me")), 0).is_none());
    let gone = "me._lan-mouse._udp.local.".to_string();
    assert!(b.step(BrowseEvent::Removed(gone), 60 * SECOND).is_none());
}

#[test]
fn missing_properties_have_defaults() {
    let mut b = Browser::new("me".to_string());
    let mut r = resolved("box");
    r.port = Some("70000".to_string());
    r.position = None;
    match b.step(BrowseEvent::Resolved(r), 0) {
        Some(FrontendEvent::DiscoveredDevice(d)) => {
            assert_eq!(d.port, 4242);
            assert_eq!(d.position, Position::Right);
        }
        other => panic!("unexpected event: {other:?}"),
    }
    let mut r = resolved("other");
    r.fingerprint = None;
    assert!(b.step(BrowseEvent::Resolved(r), 0).is_none());
}

#[test]
fn early_removals_are_spurious() {
    let mut b = Browser::new("me".to_string());
    let gone = || BrowseEvent::Removed("box._lan-mouse._udp.local.".to_string());
    assert!(b.step(gone(), 0).is_none());
    b.step(BrowseEvent::Resolved(resolved("box")), SECOND);
    assert!(b.step(gone(), 10 * SECOND).is_none());
    assert!(matches!(
        b.step(gone(), 11 * SECOND),
        Some(FrontendEvent::DeviceLost { hostname }) if hostname == "box"
    ));
    assert!(b.step(gone(), 12 * SECOND).is_none());
    assert!(b.step(BrowseEvent::Resolved(resolved("box")), 13 * SECOND).is_some());
}

#[test]
fn announcement() {
    let a = start_advertising("box", 4242, "aa:bb");
    assert_eq!(a.service_type, "_lan-mouse._udp.local.");
    assert_eq!(a.instance, "box");
    assert_eq!(a.host, "box.local.");
    let pairs: Vec<(&str, &str)> =
        a.properties.iter().map(|p| (p.key.as_str(), p.value.as_str())).collect();
    assert_eq!(
        pairs,
        vec![("fingerprint", "aa:bb"), ("hostname", "box"), ("port", "4242")]
    );
}

#[test]
fn mode_switches() {
    let mut m = DiscoveryMode::new(false);
    assert!(m.apply_mode().is_empty());
    assert!(m.set_discoverable(false).is_empty());
    assert!(
        m.set_discoverable(true) == vec![ModeAction::StartAdvertising, ModeAction::StartBrowsing]
    );
    m.advertising_started();
    m.browsing_started();
    assert!(
        m.set_discoverable(false) == vec![ModeAction::StopAdvertising, ModeAction::StopBrowsing]
    );
    assert!(!m.is_discoverable());
}

// ----- connections ----------------------------------------------------------

fn clients() -> ClientManager {
    let mut m = ClientManager::new();
    m.add_with_config(ConfigClient {
        ips: vec![IpAddr::V4(2), IpAddr::V6(3)],
        hostname: None,
        port: 5000,
        pos: Position::Left,
        active: true,
        enter_hook: None,
    });
    m
}

#[test]
fn one_attempt_at_a_time() {
    let mut m = clients();
    let mut c = LanMouseConnection::new(true);
    assert!(c.send(&m, 0) == SendPlan::Connect);
    assert!(c.send(&m, 0) == SendPlan::NotConnected);
    c.on_connect_failed(0);
    assert!(c.send(&m, 0) == SendPlan::Connect);
    c.on_connected(&mut m, 0, addr(2));
    assert!(c.send(&m, 0) == SendPlan::TargetEmulationDisabled);
    c.on_pong(&mut m, 0, addr(2), true);
    assert!(c.send(&m, 0) == SendPlan::Send(addr(2)));
    assert!(c.send_raw(&m, 0).unwrap() == addr(2));
    c.disconnect(&mut m, 0, addr(2));
    assert!(matches!(c.send_raw(&m, 0), Err(LanMouseConnectionError::NotConnected)));
    assert!(c.send(&m, 0) == SendPlan::Connect);
}

#[test]
fn addresses_that_are_tried() {
    let m = clients();
    let all = LanMouseConnection::new(true).connect_to_handle(&m, 0).unwrap();
    assert_eq!(all.len(), 2);
    assert_eq!(all[0].port, 5000);
    let v4 = LanMouseConnection::new(false).connect_to_handle(&m, 0).unwrap();
    assert_eq!(v4.len(), 1);
    assert!(LanMouseConnection::new(true).connect_to_handle(&m, 9).is_none());
    assert!(candidate_addrs(&vec![IpAddr::V6(1)], 1, false).is_empty());
    assert!(bind_addr(addr(2)) == SocketAddr::new(IpAddr::V4(0), 0));
    assert!(
        bind_addr(SocketAddr::new(IpAddr::V6(1), 1)) == SocketAddr::new(IpAddr::V6(0), 0)
    );
}

#[test]
fn first_connection_wins() {
    assert!(ConnectAny::new(0).is_err());
    let mut race = ConnectAny::new(2).unwrap();
    assert!(race.on_result(None).is_none());
    assert!(matches!(
        race.on_result(None),
        Some(Err(LanMouseConnectionError::NotConnected))
    ));
    let mut race = ConnectAny::new(2).unwrap();
    assert!(matches!(race.on_result(Some(addr(1))), Some(Ok(a)) if a == addr(1)));
}

#[test]
fn pings_in_rounds() {
    let (mut p, first) = PingPong::new();
    assert!(first == PingAction::Send);
    for _ in 0..3 {
        assert!(p.step(PingReply::Sent) == vec![PingAction::Sleep(500)]);
        assert!(p.step(PingReply::Slept) == vec![PingAction::Send]);
    }
    p.step(PingReply::Sent);
    assert!(p.step(PingReply::Slept) == vec![PingAction::Check]);
    assert!(p.step(PingReply::Answered(true)) == vec![PingAction::Send]);
    assert!(p.step(PingReply::SendFailed) == vec![PingAction::Close, PingAction::Check]);
    assert!(p.step(PingReply::Answered(false)) == vec![PingAction::Close, PingAction::Return]);
}

#[test]
fn answers_count_for_one_round() {
    let mut m = clients();
    let mut c = LanMouseConnection::new(true);
    c.on_pong(&mut m, 0, addr(2), true);
    assert!(c.take_answer(addr(2)));
    assert!(!c.take_answer(addr(2)));
}

#[test]
fn datagrams() {
    assert!(matches!(
        classify(&encode_clipboard_msg("hi"), 21),
        Datagram::Clipboard(t) if t == "hi"
    ));
    assert!(matches!(classify(&[0xff, 0, 0, 0, 9, 1], 21), Datagram::Dropped));
    assert!(matches!(classify(&[1, 2], 4), Datagram::Event(b) if b == vec![1, 2, 0, 0]));
    assert!(matches!(classify(&[1, 2, 3], 2), Datagram::Event(b) if b == vec![1, 2]));
}

#[test]
fn connection_errors() {
    assert_eq!(LanMouseConnectionError::NotConnected.message(), "not connected");
    assert_eq!(LanMouseConnectionError::Timeout.message(), "Connection timed out");
    assert_eq!(
        LanMouseConnectionError::TargetEmulationDisabled.message(),
        "emulation is disabled on the target device"
    );
    assert_eq!(LanMouseConnectionError::Transport("x".to_string()).message(), "x");
}

use lan_mouse::client::{all_ips, unique_ips, ClientManager, ConfigClient};
use lan_mouse::clipboard::{ClipboardCache, ClipboardChange};
use lan_mouse::collections::StrMap;
use lan_mouse::connect::LanMouseConnection;
use lan_mouse::file_drop::FileDropEvent;
use lan_mouse::file_transfer::{Command, Decision, Event, TransferResult};
use lan_mouse::ipc::{
    default_socket_path, macos_socket_path, ClientConfig, ClipboardImageDecision,
    ClipboardOverflowDecision, DiscoveredDevice, FileDecision, FrontendEvent, FrontendRequest,
    Position, Settings, SocketPathError, Status, DEFAULT_PORT,
};
use lan_mouse::net::{unspecified, IpAddr, SocketAddr};
use lan_mouse::service::machine::{ConfigFile, Service, ServiceConfig};
use lan_mouse::service::model::{
    CaptureEvent, CaptureType, DnsEvent, Effect, EmulationEvent, ENTER_HANDLE_BEGIN,
};
use std::str::FromStr;

fn ip(last: u32) -> IpAddr {
    IpAddr::V4(0x0a00_0000 + last)
}

fn addr(last: u32, port: u16) -> SocketAddr {
    SocketAddr::new(ip(last), port)
}

fn client(pos: Position, active: bool) -> ConfigClient {
    ConfigClient {
        ips: vec![ip(2)],
        hostname: Some("peer".to_string()),
        port: 4242,
        pos,
        active,
        enter_hook: None,
    }
}

fn config(clients: Vec<ConfigClient>) -> ServiceConfig {
    ServiceConfig {
        clients,
        authorized: StrMap::new(),
        port: 4242,
        public_key_fingerprint: "own".to_string(),
        settings: Settings::default(),
        clipboard: true,
        discovery: Some(true),
        file_transfer: true,
        file_transfer_port: 4243,
        auto_accept_file_transfers: false,
        auto_accept_dir: None,
    }
}

fn service(clients: Vec<ConfigClient>) -> Service {
    let mut s = Service::new(config(clients));
    s.start();
    s.take_effects();
    s
}

fn connected(s: &mut Service, last: u32) {
    s.handle_emulation_event(EmulationEvent::Entered {
        addr: addr(last, 5000),
        pos: Position::Left,
        fingerprint: "peer-fp".to_string(),
    });
    s.take_effects();
}

fn request(s: &mut Service, r: FrontendRequest) -> Vec<Effect> {
    s.handle_frontend_request(r, None);
    s.take_effects()
}

// ----- positions and paths --------------------------------------------------

#[test]
fn positions() {
    for p in [Position::Left, Position::Right, Position::Top, Position::Bottom] {
        assert_eq!(p.opposite().opposite(), p);
        assert_eq!(Position::from_str(p.name()).unwrap(), p);
        assert_eq!(Position::try_from(p.name()), Ok(p));
    }
    assert_eq!(Position::from_str("right").unwrap(), Position::Right);
    assert_eq!(Position::from_str("Left").unwrap_err().message(), "not a valid position: Left");
    assert_eq!(Position::try_from("middle"), Err(()));
    assert_eq!(Position::Left.opposite(), Position::Right);
    assert_eq!(Position::Top.opposite(), Position::Bottom);
    assert_eq!(
        Position::parse("middle").unwrap_err().message(),
        "not a valid position: middle"
    );
}

#[test]
fn socket_paths() {
    assert_eq!(
        default_socket_path(Some("/run/user/1000")).unwrap(),
        "/run/user/1000/lan-mouse-socket.sock"
    );
    assert!(matches!(
        default_socket_path(None),
        Err(SocketPathError::XdgRuntimeDirNotFound)
    ));
    assert_eq!(
        macos_socket_path(Some("/Users/u")).unwrap(),
        "/Users/u/Library/Caches/lan-mouse-socket.sock"
    );
    assert!(matches!(macos_socket_path(None), Err(SocketPathError::HomeDirNotFound)));
}

#[test]
fn defaults() {
    let c = ClientConfig::default();
    assert_eq!(c.port, DEFAULT_PORT);
    assert_eq!(c.pos, Position::Left);
    assert!(bool::from(Status::Enabled));
    assert!(!bool::from(Status::Disabled));
    assert!(unspecified(false, 1) == SocketAddr::new(IpAddr::V4(0), 1));
    assert!(unspecified(true, 1) == SocketAddr::new(IpAddr::V6(0), 1));
}

// ----- clients --------------------------------------------------------------

#[test]
fn handles_are_reused() {
    let mut m = ClientManager::new();
    assert_eq!(m.add_client(), 0);
    assert_eq!(m.add_client(), 1);
    assert_eq!(m.add_client(), 2);
    assert!(m.remove_client(1).is_some());
    assert!(m.remove_client(1).is_none());
    assert_eq!(m.add_client(), 1);
    assert_eq!(m.registered_clients(), vec![0, 1, 2]);
}

#[test]
fn addresses_are_listed_once() {
    assert_eq!(unique_ips(&vec![ip(1), ip(2), ip(1)]).len(), 2);
    assert_eq!(all_ips(&vec![ip(1)], &vec![ip(1), ip(3)]).len(), 2);
}

#[test]
fn client_settings() {
    let mut m = ClientManager::new();
    let h = m.add_with_config(client(Position::Top, false));
    assert_eq!(m.get_hostname(h).unwrap(), "peer");
    assert_eq!(m.get_pos(h), Some(Position::Top));
    assert_eq!(m.get_port(h), Some(4242));
    assert_eq!(m.get_ips(h).unwrap().len(), 1);
    assert!(m.activate_client(h));
    assert!(!m.activate_client(h));
    assert_eq!(m.client_at(Position::Top), Some(h));
    assert_eq!(m.active_clients(), vec![h]);
    m.set_active_addr(h, Some(addr(2, 4242)));
    m.set_port(h, 5000);
    assert!(m.active_addr(h) == Some(addr(2, 5000)));
    m.set_alive(h, true);
    assert!(m.alive(h));
    assert!(m.deactivate_client(h));
    assert_eq!(m.client_at(Position::Top), None);
}

// ----- activation -----------------------------------------------------------

#[test]
fn start_activates_configured_clients() {
    let mut s = Service::new(config(vec![client(Position::Left, true)]));
    s.start();
    let effects = s.take_effects();
    assert!(effects
        .iter()
        .any(|e| matches!(e, Effect::CaptureCreate(0, Position::Left, CaptureType::Default))));
}

#[test]
fn one_active_client_per_position() {
    let mut s = service(vec![client(Position::Left, true), client(Position::Left, false)]);
    let effects = request(&mut s, FrontendRequest::Activate(1, true));
    assert!(effects.iter().any(|e| matches!(e, Effect::CaptureDestroy(0))));
    assert!(effects.iter().any(|e| matches!(e, Effect::CaptureCreate(1, Position::Left, _))));
    assert_eq!(s.clients().active_clients(), vec![1]);
    assert!(effects.iter().any(|e| matches!(e, Effect::SaveConfig(_, _))));
}

#[test]
fn deleted_client_loses_its_barrier() {
    let mut s = service(vec![client(Position::Left, true)]);
    let effects = request(&mut s, FrontendRequest::Delete(0));
    assert!(effects.iter().any(|e| matches!(e, Effect::CaptureDestroy(0))));
    assert!(effects
        .iter()
        .any(|e| matches!(e, Effect::Notify(FrontendEvent::Deleted(0)))));
    assert_eq!(s.clients().len(), 0);
}

#[test]
fn moved_client_is_active_at_its_new_place() {
    let mut s = service(vec![client(Position::Left, true)]);
    let effects = request(&mut s, FrontendRequest::UpdatePosition(0, Position::Top));
    assert!(effects
        .iter()
        .any(|e| matches!(e, Effect::CaptureCreate(0, Position::Top, _))));
    assert_eq!(s.clients().client_at(Position::Top), Some(0));
}

#[test]
fn created_client_is_inactive() {
    let mut s = service(Vec::new());
    let effects = request(&mut s, FrontendRequest::Create);
    assert!(effects
        .iter()
        .any(|e| matches!(e, Effect::Notify(FrontendEvent::Created(c)) if c.handle == 0)));
    assert!(s.clients().active_clients().is_empty());
}

#[test]
fn authorized_keys() {
    let mut s = service(Vec::new());
    let effects = request(
        &mut s,
        FrontendRequest::AuthorizeKey("laptop".to_string(), "aa".to_string()),
    );
    assert!(effects.iter().any(|e| matches!(
        e,
        Effect::Notify(FrontendEvent::AuthorizedUpdated(m)) if m.contains_key("aa")
    )));
    let effects = request(&mut s, FrontendRequest::RemoveAuthorizedKey("aa".to_string()));
    assert!(effects.iter().any(|e| matches!(
        e,
        Effect::Notify(FrontendEvent::AuthorizedUpdated(m)) if !m.contains_key("aa")
    )));
}

#[test]
fn name_resolution() {
    let mut s = service(vec![client(Position::Left, false)]);
    let effects = request(&mut s, FrontendRequest::ResolveDns(0));
    assert!(effects.iter().any(|e| matches!(e, Effect::Resolve(0, h) if h == "peer")));
    s.handle_resolver_event(DnsEvent::Resolved(0, Some(vec![ip(9)])));
    assert_eq!(s.clients().get_ips(0).unwrap().len(), 2);
}

// ----- connections ----------------------------------------------------------

#[test]
fn entering_devices_get_a_barrier() {
    let mut s = service(Vec::new());
    s.handle_emulation_event(EmulationEvent::Entered {
        addr: addr(7, 5000),
        pos: Position::Right,
        fingerprint: "fp".to_string(),
    });
    let effects = s.take_effects();
    let barrier = effects.iter().find_map(|e| match e {
        Effect::CaptureCreate(h, Position::Right, CaptureType::EnterOnly) => Some(*h),
        _ => None,
    });
    assert_eq!(barrier, Some(ENTER_HANDLE_BEGIN));
    s.handle_capture_event(CaptureEvent::CaptureBegin(ENTER_HANDLE_BEGIN), "");
    assert!(s
        .take_effects()
        .iter()
        .any(|e| matches!(e, Effect::SendLeave(a) if *a == addr(7, 5000))));
    s.handle_emulation_event(EmulationEvent::Disconnected { addr: addr(7, 5000) });
    assert!(s
        .take_effects()
        .iter()
        .any(|e| matches!(e, Effect::CaptureDestroy(h) if *h == ENTER_HANDLE_BEGIN)));
    assert!(s.can_take_connection());
}

#[test]
fn connection_state_reaches_the_clients() {
    let mut s = service(vec![client(Position::Left, true)]);
    let mut conns = LanMouseConnection::new(true);
    s.connection_made(&mut conns, 0, addr(2, 4242));
    assert!(s.clients().active_addr(0) == Some(addr(2, 4242)));
    s.pong_received(&mut conns, 0, addr(2, 4242), true);
    assert!(s.clients().alive(0));
    s.connection_closed(&mut conns, 0, addr(2, 4242));
    assert!(s.clients().active_addr(0).is_none());
}

// ----- files ----------------------------------------------------------------

#[test]
fn dropped_files_go_to_the_client_at_the_edge() {
    let mut s = service(vec![client(Position::Left, true)]);
    connected(&mut s, 2);
    assert!(s.active_edges().contains(Position::Left));
    assert!(!s.active_edges().contains(Position::Right));
    s.handle_file_drop_event(FileDropEvent::Dropped {
        position: Position::Left,
        paths: vec!["/a".to_string(), "/b".to_string()],
    });
    let effects = s.take_effects();
    let roots: Vec<String> = effects
        .iter()
        .filter_map(|e| match e {
            Effect::Transfer(Command::SendPath { target_addr, target_fingerprint, root }) => {
                assert!(*target_addr == addr(2, 4243));
                assert_eq!(target_fingerprint, "peer-fp");
                Some(root.clone())
            }
            _ => None,
        })
        .collect();
    assert_eq!(roots, vec!["/a", "/b"]);
    s.handle_file_drop_event(FileDropEvent::Entered(Position::Left));
    s.handle_file_drop_event(FileDropEvent::Cancelled(Position::Left));
    assert!(s.take_effects().is_empty());
    s.handle_file_drop_event(FileDropEvent::Dropped {
        position: Position::Right,
        paths: vec!["/a".to_string()],
    });
    assert!(s.take_effects().is_empty());
}

#[test]
fn unknown_fingerprint_receives_nothing() {
    let mut s = service(vec![client(Position::Left, true)]);
    s.handle_file_drop(Position::Left, vec!["/a".to_string()]);
    assert!(s.take_effects().is_empty());
    assert!(s.resolve_drop_target(Position::Left).is_none());
    assert!(s.active_transfer_target().is_none());
}

fn offer(id: u64) -> Event {
    Event::IncomingOffer {
        xfer_id: id,
        peer_addr: addr(2, 9),
        peer_fingerprint: "peer-fp".to_string(),
        root_name: "x".to_string(),
        entries: 1,
        total_bytes: 5,
    }
}

#[test]
fn offers_wait_for_the_user() {
    let mut s = service(vec![client(Position::Left, true)]);
    s.handle_file_transfer_event(offer(3));
    let effects = s.take_effects();
    assert!(effects.iter().any(|e| matches!(
        e,
        Effect::Notify(FrontendEvent::FileOfferIncoming(o)) if o.xfer_id == 3
    )));
    assert!(!effects.iter().any(|e| matches!(e, Effect::Transfer(_))));
    let again = request(&mut s, FrontendRequest::Sync);
    assert!(again.iter().any(|e| matches!(
        e,
        Effect::Notify(FrontendEvent::FileOfferIncoming(o)) if o.xfer_id == 3
    )));
    let answered = request(
        &mut s,
        FrontendRequest::RespondFileOffer {
            xfer_id: 3,
            decision: FileDecision::Accept { dest_dir: "/in".to_string() },
        },
    );
    assert!(answered.iter().any(|e| matches!(
        e,
        Effect::Transfer(Command::RespondOffer {
            xfer_id: 3,
            decision: Decision::Accept { dest_dir }
        }) if dest_dir == "/in"
    )));
    let again = request(&mut s, FrontendRequest::Sync);
    assert!(!again
        .iter()
        .any(|e| matches!(e, Effect::Notify(FrontendEvent::FileOfferIncoming(_)))));
}

fn replayed(s: &mut Service) -> Vec<u64> {
    s.take_effects();
    request(s, FrontendRequest::Sync)
        .iter()
        .filter_map(|e| match e {
            Effect::Notify(FrontendEvent::FileOfferIncoming(o)) => {
                assert_eq!(o.root_name, "x");
                assert_eq!(o.total_bytes, 5);
                assert_eq!(o.fingerprint, "peer-fp");
                Some(o.xfer_id)
            }
            _ => None,
        })
        .collect()
}

#[test]
fn offers_name_the_client_they_come_from() {
    let named = |s: &mut Service| {
        s.handle_file_transfer_event(offer(9));
        s.take_effects().iter().find_map(|e| match e {
            Effect::Notify(FrontendEvent::FileOfferIncoming(o)) => Some(o.client),
            _ => None,
        })
    };
    let other = ConfigClient { ips: vec![ip(7)], ..client(Position::Right, false) };
    let mut s = service(vec![other, client(Position::Left, true)]);
    assert_eq!(named(&mut s), Some(1));
    let other = ConfigClient { ips: vec![ip(7)], ..client(Position::Right, false) };
    let mut s = service(vec![other]);
    connected(&mut s, 2);
    assert_eq!(named(&mut s), Some(0));
}

#[test]
fn open_offers_are_replayed_once_each() {
    let mut s = service(vec![client(Position::Left, true)]);
    for id in [3, 4, 5, 6] {
        s.handle_file_transfer_event(offer(id));
    }
    s.handle_file_transfer_event(offer(4));
    assert_eq!(replayed(&mut s), vec![3, 5, 6, 4]);
    request(
        &mut s,
        FrontendRequest::RespondFileOffer { xfer_id: 5, decision: FileDecision::Decline },
    );
    s.handle_file_transfer_event(Event::Finished {
        xfer_id: 3,
        result: TransferResult::Cancelled,
    });
    request(&mut s, FrontendRequest::Create);
    request(&mut s, FrontendRequest::Activate(0, false));
    assert_eq!(replayed(&mut s), vec![6, 4]);
    assert_eq!(replayed(&mut s), vec![6, 4]);
}

#[test]
fn entered_client_gets_the_clipboard() {
    let mut s = service(vec![client(Position::Left, true)]);
    let sent = |s: &mut Service, text: &str| {
        s.handle_capture_event(CaptureEvent::ClientEntered(0), text);
        s.take_effects().iter().any(|e| matches!(e, Effect::SendClipboardToClients(_)))
    };
    assert!(sent(&mut s, "hello"));
    assert!(!sent(&mut s, ""));
    assert!(sent(&mut s, &"a".repeat(65536)));
    assert!(!sent(&mut s, &"a".repeat(65537)));
    assert!(!sent(&mut s, &"é".repeat(32769)));
}

#[test]
fn auto_accept_needs_both_settings() {
    let mut c = config(Vec::new());
    c.auto_accept_file_transfers = true;
    c.auto_accept_dir = Some("/incoming".to_string());
    let mut s = Service::new(c);
    s.start();
    s.take_effects();
    s.handle_file_transfer_event(offer(4));
    assert!(s.take_effects().iter().any(|e| matches!(
        e,
        Effect::Transfer(Command::RespondOffer {
            xfer_id: 4,
            decision: Decision::Accept { dest_dir }
        }) if dest_dir == "/incoming"
    )));
    let mut c = config(Vec::new());
    c.auto_accept_file_transfers = true;
    let mut s = Service::new(c);
    s.start();
    s.take_effects();
    s.handle_file_transfer_event(offer(4));
    assert!(!s.take_effects().iter().any(|e| matches!(e, Effect::Transfer(_))));
}

#[test]
fn finished_transfers_are_reported() {
    let mut s = service(Vec::new());
    s.handle_file_transfer_event(Event::Finished {
        xfer_id: 4,
        result: TransferResult::Error("broken".to_string()),
    });
    assert!(s.take_effects().iter().any(|e| matches!(
        e,
        Effect::Notify(FrontendEvent::FileTransferFinished { xfer_id: 4, .. })
    )));
}

#[test]
fn send_file_request() {
    let mut s = service(vec![client(Position::Left, true)]);
    connected(&mut s, 2);
    let effects = request(
        &mut s,
        FrontendRequest::SendFile { client: 0, path: "/a".to_string() },
    );
    assert!(effects.iter().any(|e| matches!(
        e,
        Effect::Transfer(Command::SendPath { root, .. }) if root == "/a"
    )));
}

// ----- clipboard ------------------------------------------------------------

#[test]
fn clipboard_text_is_shared() {
    let mut s = service(vec![client(Position::Left, true)]);
    s.handle_clipboard_changed(ClipboardChange::Text("hi".to_string()));
    let effects = s.take_effects();
    assert!(effects.iter().any(|e| matches!(
        e,
        Effect::SendClipboardToControllers(b) if b == &[0xff, 0, 0, 0, 2, b'h', b'i']
    )));
    assert!(s.shares_clipboard());
}

#[test]
fn received_clipboard_is_set() {
    let mut s = service(Vec::new());
    s.handle_emulation_event(EmulationEvent::ClipboardReceived("hi".to_string()));
    assert!(s
        .take_effects()
        .iter()
        .any(|e| matches!(e, Effect::SetClipboard(t) if t == "hi")));
}

#[test]
fn oversize_clipboard_is_prompted_for() {
    let mut s = service(vec![client(Position::Left, true)]);
    connected(&mut s, 2);
    let content = "x".repeat(70_000);
    s.handle_clipboard_changed(ClipboardChange::OversizeText { content });
    let effects = s.take_effects();
    assert!(effects.iter().any(|e| matches!(
        e,
        Effect::Notify(FrontendEvent::ClipboardOverflow { client: 0, bytes: 70_000, preview })
            if preview.chars().count() <= 121
    )));
    let effects = request(
        &mut s,
        FrontendRequest::RespondClipboardOverflow {
            client: 0,
            decision: ClipboardOverflowDecision::Send,
        },
    );
    assert!(effects.iter().any(|e| matches!(
        e,
        Effect::Transfer(Command::SendClipboard { .. }) | Effect::SendAsFile { .. }
    )));
}

#[test]
fn truncated_clipboard_fits() {
    let mut s = service(vec![client(Position::Left, true)]);
    connected(&mut s, 2);
    let content = "é".repeat(40_000);
    s.handle_clipboard_changed(ClipboardChange::OversizeText { content });
    s.take_effects();
    let effects = request(
        &mut s,
        FrontendRequest::RespondClipboardOverflow {
            client: 0,
            decision: ClipboardOverflowDecision::Truncate,
        },
    );
    let sent = effects.iter().find_map(|e| match e {
        Effect::SendClipboardToControllers(b) => Some(b.len()),
        _ => None,
    });
    assert!(sent.unwrap() <= 65_536 + 5);
}

#[test]
fn answered_clipboard_is_not_prompted_for_again() {
    let content = "x".repeat(70_000);
    for decision in [ClipboardOverflowDecision::Truncate, ClipboardOverflowDecision::Ignore] {
        let mut s = service(vec![client(Position::Left, true)]);
        let mut cache = ClipboardCache::new(String::new());
        let change = cache.poll_text(content.clone()).unwrap();
        s.handle_clipboard_changed(change);
        s.take_effects();
        let respond = FrontendRequest::RespondClipboardOverflow { client: 0, decision };
        for effect in request(&mut s, respond) {
            if let Effect::NoteClipboard(text) = effect {
                cache.note_text(&text);
            }
        }
        assert!(cache.poll_text(content.clone()).is_none());
    }
}

#[test]
fn clipboard_image_is_prompted_for() {
    let mut s = service(vec![client(Position::Left, true)]);
    connected(&mut s, 2);
    s.handle_clipboard_changed(ClipboardChange::ImagePng {
        png: vec![1, 2, 3],
        width: 4,
        height: 5,
    });
    assert!(s.take_effects().iter().any(|e| matches!(
        e,
        Effect::Notify(FrontendEvent::ClipboardImageDetected {
            client: 0,
            bytes: 3,
            width: 4,
            height: 5
        })
    )));
    let effects = request(
        &mut s,
        FrontendRequest::RespondClipboardImage {
            client: 0,
            decision: ClipboardImageDecision::Send,
        },
    );
    assert!(effects.iter().any(|e| matches!(
        e,
        Effect::SendAsFile { content, ext, .. } if content == &[1, 2, 3] && ext == "png"
    )));
}

// ----- discovery ------------------------------------------------------------

fn device(name: &str) -> DiscoveredDevice {
    DiscoveredDevice {
        hostname: name.to_string(),
        addrs: vec![ip(8)],
        port: 4242,
        fingerprint: "dev-fp".to_string(),
        position: Position::Right,
    }
}

#[test]
fn discovered_devices_are_shown_and_accepted() {
    let mut s = service(Vec::new());
    assert!(s.is_discoverable());
    s.handle_discovery_event(FrontendEvent::DiscoveredDevice(device("box")));
    assert!(s.take_effects().iter().any(|e| matches!(
        e,
        Effect::Notify(FrontendEvent::DiscoveredDevice(d)) if d.hostname == "box"
    )));
    let effects = request(&mut s, FrontendRequest::AcceptDiscoveredDevice(device("box")));
    assert!(effects.iter().any(|e| matches!(
        e,
        Effect::Notify(FrontendEvent::AuthorizedUpdated(m)) if m.contains_key("dev-fp")
    )));
    assert_eq!(s.clients().get_hostname(0).unwrap(), "box");
    s.handle_discovery_event(FrontendEvent::DiscoveredDevice(device("box")));
    assert!(!s
        .take_effects()
        .iter()
        .any(|e| matches!(e, Effect::Notify(FrontendEvent::DiscoveredDevice(_)))));
}

#[test]
fn discoverable_mode_is_switched() {
    let mut s = service(Vec::new());
    let effects = request(&mut s, FrontendRequest::SetDiscoverable(false));
    assert!(effects.iter().any(|e| matches!(e, Effect::SetDiscoverable(false))));
    assert!(!s.is_discoverable());
}

// ----- settings and configuration -------------------------------------------

#[test]
fn settings_keep_the_release_keys() {
    let mut s = service(Vec::new());
    let mut changed = Settings::default();
    changed.release_bind = Vec::new();
    changed.start_minimized = true;
    let effects = request(&mut s, FrontendRequest::UpdateSettings(changed));
    assert!(matches!(&effects[0], Effect::WriteSettings(w) if w.start_minimized));
    assert!(matches!(
        &effects[1],
        Effect::Notify(FrontendEvent::SettingsChanged(n)) if n.start_minimized
    ));
    let shown = request(&mut s, FrontendRequest::Sync);
    let settings = shown
        .iter()
        .find_map(|e| match e {
            Effect::Notify(FrontendEvent::SettingsChanged(n)) => Some(n),
            _ => None,
        })
        .unwrap();
    assert!(settings.start_minimized);
    assert_eq!(settings.release_bind, Settings::default().release_bind);
}

#[test]
fn changed_configuration_is_taken_over() {
    let mut s = service(vec![client(Position::Left, true)]);
    connected(&mut s, 2);
    let mut authorized = StrMap::new();
    authorized.insert("fp".to_string(), "desk".to_string());
    let mut settings = Settings::default();
    settings.release_bind = vec!["KeyA".to_string()];
    settings.discoverable_on_startup = true;
    s.handle_config_change(ConfigFile {
        clients: vec![client(Position::Top, true)],
        authorized,
        settings,
        file_transfer_port: 5555,
        auto_accept_file_transfers: true,
        auto_accept_dir: Some("/inbox".to_string()),
    });
    let effects = s.take_effects();
    assert!(matches!(effects[0], Effect::CaptureDestroy(0)));
    assert!(matches!(effects[1], Effect::Notify(FrontendEvent::Deleted(0))));
    assert!(effects
        .iter()
        .any(|e| matches!(e, Effect::CaptureCreate(0, Position::Top, CaptureType::Default))));
    assert!(effects
        .iter()
        .any(|e| matches!(e, Effect::SetReleaseBind(keys) if keys == &["KeyA"])));
    assert!(effects
        .iter()
        .any(|e| matches!(e, Effect::Notify(FrontendEvent::DiscoverableChanged(true)))));
    assert!(effects.iter().any(|e| matches!(
        e,
        Effect::Notify(FrontendEvent::SettingsChanged(n)) if n.release_bind == ["KeyA"]
    )));
    assert!(effects.iter().any(|e| matches!(
        e,
        Effect::Notify(FrontendEvent::AuthorizedUpdated(keys)) if keys.get("fp").is_some()
    )));
    let sent = request(
        &mut s,
        FrontendRequest::SendFile { client: 0, path: "/tmp/f".to_string() },
    );
    match &sent[0] {
        Effect::Transfer(Command::SendPath { target_addr, .. }) => {
            assert_eq!(target_addr.port, 5555);
        }
        other => panic!("unexpected effect: {other:?}"),
    }
}

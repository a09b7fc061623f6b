use lan_mouse::cli::{
    execute, handle_service_action, needs_service, on_end, on_event, resolve_default_target,
    CliAction, CliSubcommand, ClientArgs, LoggerAction, ServiceAction, ServiceOutcome, Wait,
};
use lan_mouse::ipc::{
    Client, ClientConfig, ClientState, FrontendEvent, FrontendRequest, Position,
};
use lan_mouse::logger::{
    create, groups, join, no_token_message, print_entry, status, tail, tail_group, tail_path,
    versions, EntryInfo, GroupCache, GroupInfo, GroupState, HostInfo, VersionInfo,
};
use lan_mouse::net::IpAddr;
use lan_mouse::program::{
    launch_target, run, service_args, service_ended, Command, RunPlan, ServiceEnd,
};
use lan_mouse::remote_log::{
    level_str, load_cached_entry, read_api_key, status_entry, token_path, try_init_remote,
    ClientMetadata, ConfigDirs, InitAction, InitReply, Level, LogEntry, RemoteEnv, Shipper,
    ShipperAction, ShipperInput, TokenCache, UploadWarning, MAX_BATCH,
};
use lan_mouse::windows_service::{Error, InstalledState};

// ----- command line ---------------------------------------------------------

fn client(handle: u64, active: bool, ips: usize) -> Client {
    Client {
        handle,
        config: ClientConfig {
            hostname: Some("box".to_string()),
            port: 4242,
            pos: Position::Left,
            ..ClientConfig::default()
        },
        state: ClientState {
            active,
            ips: vec![IpAddr::V4(1); ips],
            ..ClientState::default()
        },
    }
}

fn printed(actions: &[CliAction]) -> Vec<String> {
    actions
        .iter()
        .filter_map(|a| match a {
            CliAction::Print(m) => Some(m.clone()),
            CliAction::PrintError(m) => Some(format!("! {m}")),
            CliAction::PrintClient { line, ips } => Some(format!("{line}{}", ips.len())),
            _ => None,
        })
        .collect()
}

#[test]
fn simple_commands_ask_once() {
    let (wait, actions) = execute(CliSubcommand::Activate { id: 3 }, false);
    assert!(matches!(wait, Wait::Nothing));
    assert!(matches!(actions[0], CliAction::Request(FrontendRequest::Activate(3, true))));
    let (_, actions) = execute(CliSubcommand::Deactivate { id: 3 }, false);
    assert!(matches!(actions[0], CliAction::Request(FrontendRequest::Activate(3, false))));
    let (_, actions) = execute(CliSubcommand::SetPort { id: 3, port: 9 }, false);
    assert!(matches!(actions[0], CliAction::Request(FrontendRequest::UpdatePort(3, 9))));
    let (_, actions) = execute(CliSubcommand::SaveConfig, false);
    assert!(matches!(actions[0], CliAction::Request(FrontendRequest::SaveConfiguration)));
}

#[test]
fn added_client_is_set_up() {
    let (wait, actions) = execute(
        CliSubcommand::AddClient(ClientArgs {
            hostname: Some("box".to_string()),
            port: None,
            ips: Some(vec![IpAddr::V4(1)]),
            enter_hook: Some("cmd".to_string()),
        }),
        false,
    );
    assert!(matches!(actions[0], CliAction::Request(FrontendRequest::Create)));
    let (wait, actions) = on_event(wait, &FrontendEvent::Deleted(1));
    assert!(actions.is_empty());
    let (wait, actions) = on_event(wait, &FrontendEvent::Created(client(5, false, 0)));
    assert!(matches!(wait, Wait::Nothing));
    assert_eq!(actions.len(), 3);
    assert!(matches!(
        &actions[0],
        CliAction::Request(FrontendRequest::UpdateHostname(5, Some(h))) if h == "box"
    ));
    assert!(matches!(&actions[1], CliAction::Request(FrontendRequest::UpdateFixIps(5, _))));
    assert!(matches!(
        &actions[2],
        CliAction::Request(FrontendRequest::UpdateEnterHook(5, Some(_)))
    ));
}

#[test]
fn clients_are_listed() {
    let (wait, _) = execute(CliSubcommand::List, false);
    let mut unnamed = client(1, true, 2);
    unnamed.config.hostname = None;
    let (_, actions) =
        on_event(wait, &FrontendEvent::Enumerate(vec![client(0, false, 0), unnamed]));
    assert_eq!(
        printed(&actions),
        vec![
            "id 0: box:4242 (left) active: false, ips: 0",
            "id 1: unknown:4242 (left) active: true, ips: 2",
        ]
    );
}

#[test]
fn files_are_sent() {
    let send = |client, exists| {
        execute(
            CliSubcommand::SendFile { path: "/a/b.txt".to_string(), client },
            exists,
        )
    };
    let (_, actions) = send(None, false);
    assert_eq!(printed(&actions), vec!["! Path not found: /a/b.txt"]);
    let (_, actions) = send(Some(4), true);
    assert!(matches!(
        &actions[0],
        CliAction::Request(FrontendRequest::SendFile { client: 4, path }) if path == "/a/b.txt"
    ));
    assert_eq!(printed(&actions), vec!["Sending \"b.txt\" to client 4…"]);
    let (wait, _) = send(None, true);
    let (_, actions) = on_event(wait, &FrontendEvent::Enumerate(vec![client(2, true, 0)]));
    assert!(matches!(
        &actions[0],
        CliAction::Request(FrontendRequest::SendFile { client: 2, .. })
    ));
    let (wait, _) = send(None, true);
    assert_eq!(
        printed(&on_end(wait)),
        vec!["! No connected Lan Mouse+ client available. Open Lan Mouse+ and connect/activate the destination client first."]
    );
}

#[test]
fn default_targets() {
    let active = vec![client(0, false, 1), client(1, true, 0), client(2, true, 0)];
    assert_eq!(resolve_default_target(&active), Some(1));
    let single = vec![client(0, false, 0), client(1, false, 1)];
    assert_eq!(resolve_default_target(&single), Some(1));
    let several = vec![client(0, false, 1), client(1, false, 1)];
    assert_eq!(resolve_default_target(&several), None);
    assert_eq!(resolve_default_target(&Vec::new()), None);
}

#[test]
fn logger_commands_need_no_service() {
    assert!(!needs_service(&CliSubcommand::Logger { action: LoggerAction::Status }));
    assert!(!needs_service(&CliSubcommand::Service { action: ServiceAction::Install }));
    assert!(needs_service(&CliSubcommand::List));
    let (_, actions) =
        execute(CliSubcommand::Service { action: ServiceAction::Install }, false);
    assert!(matches!(actions[0], CliAction::Service(ServiceAction::Install)));
}

#[test]
fn service_reports() {
    let report = |o| handle_service_action(&o);
    let r = report(ServiceOutcome::Install(Ok(())));
    assert_eq!(printed(&r), vec!["installed Lan Mouse+ service"]);
    let r = report(ServiceOutcome::Install(Err(Error::AlreadyInstalled)));
    assert_eq!(printed(&r), vec!["service is already installed"]);
    let r = report(ServiceOutcome::Install(Err(Error::Win("denied".to_string()))));
    assert_eq!(printed(&r), vec!["! install failed: windows-service error: denied"]);
    assert!(matches!(
        &r[1],
        CliAction::Notify { message, error: true } if message.contains("elevated PowerShell")
    ));
    let r = report(ServiceOutcome::Uninstall(Err(Error::NotInstalled)));
    assert_eq!(printed(&r), vec!["service is not installed"]);
    let r = report(ServiceOutcome::Start(Ok(())));
    assert_eq!(printed(&r), vec!["started"]);
    assert_eq!(r.len(), 1);
    let r = report(ServiceOutcome::Stop(Err(Error::Os("Stop".to_string(), "x".to_string()))));
    assert_eq!(printed(&r), vec!["! stop failed: Win32 Stop: x"]);
    let r = report(ServiceOutcome::Status(Ok(InstalledState::Running)));
    assert_eq!(printed(&r), vec!["Running"]);
    let r = report(ServiceOutcome::NoExecutable("gone".to_string()));
    assert_eq!(printed(&r), vec!["! could not resolve current exe: gone"]);
}

// ----- log groups -----------------------------------------------------------

fn group(code: Option<&str>) -> GroupCache {
    GroupCache {
        id: "g1".to_string(),
        name: "home".to_string(),
        owner_id: "c1".to_string(),
        invite_code: code.map(|c| c.to_string()),
    }
}

#[test]
fn entries_come_from_the_group() {
    let joined = GroupState::Joined(group(None));
    assert_eq!(tail_group(&joined, false).as_deref(), Some("g1"));
    assert_eq!(tail_group(&joined, true), None);
    assert_eq!(tail_group(&GroupState::Unreadable("bad".to_string()), false), None);
}

#[test]
fn group_reports() {
    assert_eq!(
        printed(&create(&group(Some("code")), "/f")),
        vec![
            "created group \"home\" (g1)",
            "invite_code: code",
            "share with the other hosts and have them run:\n  lan-mouse cli logger join code",
            "saved to /f",
        ]
    );
    assert_eq!(
        printed(&join(&group(None), "/f")),
        vec!["joined group \"home\" (g1)", "saved to /f"]
    );
}

#[test]
fn codes_are_shown_to_owners() {
    let info = |owner: &str| GroupInfo {
        id: Some("g".to_string()),
        name: None,
        owner_id: Some(owner.to_string()),
        invite_code: Some("code".to_string()),
    };
    let r = groups(&Some(vec![info("me"), info("other")]), "me").unwrap();
    assert_eq!(printed(&r), vec!["g  ? (owner)", "    invite_code: code", "g  ?"]);
    assert_eq!(groups(&None, "me").unwrap_err(), "unexpected response shape");
    assert_eq!(groups(&Some(Vec::new()), "me").unwrap().len(), 1);
}

#[test]
fn version_columns() {
    let v = VersionInfo {
        version: Some(7),
        created_at: None,
        metadata: "{}".to_string(),
    };
    assert_eq!(printed(&versions(&Some(vec![v])).unwrap()), vec!["v7    ?  {}"]);
    assert!(versions(&None).is_err());
}

#[test]
fn tail_requests() {
    assert_eq!(tail_path(50, &None, &None), "/v1/logs?limit=50&with_metadata=1");
    assert_eq!(
        tail_path(0, &Some("a&b".to_string()), &Some("g1".to_string())),
        "/v1/groups/g1/logs?limit=1&with_metadata=1&level=a%26b"
    );
    assert_eq!(tail_path(20000, &None, &None), "/v1/logs?limit=10000&with_metadata=1");
}

fn entry(message: &str) -> EntryInfo {
    EntryInfo {
        time: Some("t".to_string()),
        level: Some("warn".to_string()),
        message: Some(message.to_string()),
        snapshot: Some(HostInfo { hostname: Some("h".to_string()), os: None }),
        metadata: Some(HostInfo { hostname: Some("x".to_string()), os: Some("y".to_string()) }),
        metadata_version: Some(2),
    }
}

#[test]
fn entries_are_printed_oldest_first() {
    assert_eq!(
        print_entry(&entry("m")),
        "t  [?       h                    v2  ] warn  m"
    );
    let r = tail(&Some(vec![entry("new"), entry("old")]), &None).unwrap();
    let lines = printed(&r);
    assert!(lines[0].ends_with("old"));
    assert!(lines[1].ends_with("new"));
    assert_eq!(lines[2], "! --- 2 entries, own logs ---");
}

#[test]
fn logger_status() {
    let state = Some("ts=1 a\nts=2 b\r\n\n".to_string());
    let r = status("n", "c", &GroupState::Joined(group(None)), &state, "/s");
    assert_eq!(
        printed(&r),
        vec!["client name: n", "client_id:   c", "group:       home (g1)", "shipper:     ts=2 b"]
    );
    let r = status("n", "c", &GroupState::Unreadable("bad".to_string()), &None, "/s");
    assert_eq!(printed(&r)[2], "! group cache present but unreadable: bad");
    assert_eq!(
        printed(&r)[3],
        "shipper:     (no status yet — start lan-mouse once; status written to /s)"
    );
    assert_eq!(
        no_token_message("/t", "gone"),
        "no token cache at /t (gone). Start the daemon once with LOGGER_APIKEY set so it can register."
    );
}

// ----- shipping -------------------------------------------------------------

fn dirs() -> ConfigDirs {
    ConfigDirs { xdg_config_home: None, home: Some("/home/u".to_string()), appdata: None }
}

fn env(key: Option<&str>) -> RemoteEnv {
    RemoteEnv {
        disabled: false,
        host: None,
        host_name: Some("box".to_string()),
        os: "linux".to_string(),
        arch: "x".to_string(),
        version: "1".to_string(),
        commit: "c".to_string(),
        branch: "b".to_string(),
        build_time: "t".to_string(),
        dirs: dirs(),
        cb_key: None,
        logger_key: key.map(|k| k.to_string()),
    }
}

fn metadata(version: &str) -> ClientMetadata {
    ClientMetadata {
        os: "linux".to_string(),
        arch: "x".to_string(),
        hostname: "box".to_string(),
        version: version.to_string(),
        commit: "c".to_string(),
        branch: "b".to_string(),
        build_time: "t".to_string(),
    }
}

fn cache(name: &str, version: &str) -> TokenCache {
    TokenCache {
        client_id: "id".to_string(),
        token: "tok".to_string(),
        name: name.to_string(),
        metadata: Some(metadata(version)),
    }
}

#[test]
fn files_of_the_registration() {
    assert_eq!(
        token_path(&dirs()).unwrap(),
        "/home/u/.config/lan-mouse/remote-log-token.json"
    );
    let none = ConfigDirs { xdg_config_home: None, home: None, appdata: None };
    assert_eq!(
        token_path(&none).unwrap_err(),
        "no XDG_CONFIG_HOME / HOME / APPDATA in env"
    );
    assert_eq!(status_entry(5, 7, "x"), "ts=5 pid=7  x\n");
}

#[test]
fn keys_and_caches() {
    let key = |a: Option<&str>, b: Option<&str>| {
        read_api_key(a.map(|s| s.to_string()), b.map(|s| s.to_string()))
    };
    assert_eq!(key(None, Some("k")).unwrap(), "k");
    assert_eq!(key(Some("a"), Some("k")).unwrap(), "a");
    assert!(key(Some("  "), Some("k")).is_none());
    assert!(load_cached_entry(Some(cache("n", "1")), "n").is_some());
    assert!(load_cached_entry(Some(cache("n", "1")), "m").is_none());
    assert!(load_cached_entry(None, "m").is_none());
}

#[test]
fn unchanged_host_ships_at_once() {
    let (init, actions) = try_init_remote(env(Some("key")));
    assert!(matches!(&actions[0], InitAction::ReadCache(p) if p.ends_with("token.json")));
    let (_, actions) = init
        .unwrap()
        .step(InitReply::Cache(Some(cache("lan-mouse-linux-box", "1"))));
    assert!(matches!(
        &actions[2],
        InitAction::Ship { endpoint, token }
            if endpoint == "https://logger.cyberbook.id/v1/logs/bulk" && token == "tok"
    ));
}

#[test]
fn changed_host_is_told() {
    let (init, _) = try_init_remote(env(Some("key")));
    let (init, actions) = init
        .unwrap()
        .step(InitReply::Cache(Some(cache("lan-mouse-linux-box", "0"))));
    assert!(matches!(&actions[0], InitAction::Patch { metadata, .. } if metadata.version == "1"));
    let (_, actions) = init.step(InitReply::Done);
    assert!(matches!(
        &actions[0],
        InitAction::Persist { cache, required: false, .. }
            if cache.metadata.as_ref().unwrap().version == "1"
    ));
    assert!(matches!(actions[3], InitAction::Ship { .. }));
    let (init, _) = try_init_remote(env(Some("key")));
    let (init, _) = init
        .unwrap()
        .step(InitReply::Cache(Some(cache("lan-mouse-linux-box", "0"))));
    let (_, actions) = init.step(InitReply::Refused("x".to_string()));
    assert!(matches!(actions[3], InitAction::Ship { .. }));
}

#[test]
fn new_host_registers() {
    let (init, _) = try_init_remote(env(Some("key")));
    let (init, actions) = init.unwrap().step(InitReply::Cache(None));
    assert!(matches!(
        &actions[0],
        InitAction::Register { api_key, name, .. }
            if api_key == "key" && name == "lan-mouse-linux-box"
    ));
    let (init, actions) = init.step(InitReply::Registered {
        client_id: "id".to_string(),
        token: "tok".to_string(),
    });
    assert!(matches!(actions[0], InitAction::Persist { required: true, .. }));
    let (_, actions) = init.step(InitReply::Done);
    assert!(matches!(actions[2], InitAction::Ship { .. }));
    let (init, _) = try_init_remote(env(Some("key")));
    let (init, _) = init.unwrap().step(InitReply::Cache(None));
    let (_, actions) = init.step(InitReply::Refused("down".to_string()));
    assert!(matches!(&actions[0], InitAction::Fail(e) if e == "down"));
}

#[test]
fn shipping_can_be_off() {
    let mut e = env(Some("key"));
    e.disabled = true;
    let (init, actions) = try_init_remote(e);
    assert!(init.is_none());
    assert!(matches!(actions[1], InitAction::Disable));
    for cached in [None, Some(cache("lan-mouse-linux-box", "1"))] {
        let (init, _) = try_init_remote(env(None));
        let (_, actions) = init.unwrap().step(InitReply::Cache(cached));
        assert!(matches!(&actions[0], InitAction::WriteStatus(s) if s.starts_with("disabled (")));
        assert!(matches!(actions[1], InitAction::Disable));
    }
    for (key, failed) in [(Some("key"), true), (Some(" "), false), (None, false)] {
        let mut e = env(key);
        e.dirs = ConfigDirs { xdg_config_home: None, home: None, appdata: None };
        let (init, actions) = try_init_remote(e);
        assert!(init.is_none());
        assert_eq!(matches!(actions[0], InitAction::Fail(_)), failed);
        assert_eq!(matches!(actions[0], InitAction::Disable), !failed);
    }
}

fn log_entry(n: usize) -> LogEntry {
    LogEntry {
        level: Level::Info,
        message: format!("{n}"),
        target: "t".to_string(),
        module: None,
    }
}

#[test]
fn entries_are_batched() {
    let (mut s, first) = Shipper::new(0);
    assert!(matches!(first, ShipperAction::Receive(1000)));
    assert!(matches!(
        s.step(ShipperInput::Received(log_entry(0)), 100),
        ShipperAction::TryReceive
    ));
    assert!(matches!(s.step(ShipperInput::Empty, 100), ShipperAction::Receive(900)));
    assert!(matches!(s.step(ShipperInput::Timeout, 1000), ShipperAction::TryReceive));
    match s.step(ShipperInput::Empty, 1000) {
        ShipperAction::Send(batch) => assert_eq!(batch.len(), 1),
        other => panic!("unexpected action: {other:?}"),
    }
    assert!(matches!(s.step(ShipperInput::Flushed, 1500), ShipperAction::Receive(1000)));
}

#[test]
fn full_batches_are_sent_in_order() {
    let (mut s, _) = Shipper::new(0);
    let mut last = s.step(ShipperInput::Received(log_entry(0)), 1);
    for n in 1..MAX_BATCH {
        last = s.step(ShipperInput::Drained(log_entry(n)), 1);
    }
    match last {
        ShipperAction::Send(batch) => {
            assert_eq!(batch.len(), MAX_BATCH);
            assert_eq!(batch[0].message, "0");
            assert_eq!(batch[255].message, "255");
        }
        other => panic!("unexpected action: {other:?}"),
    }
    assert!(matches!(s.step(ShipperInput::Disconnected, 2), ShipperAction::Return));
    s.step(ShipperInput::Received(log_entry(1)), 2);
    assert!(matches!(
        s.step(ShipperInput::Disconnected, 2),
        ShipperAction::SendAndReturn(b) if b.len() == 1
    ));
}

#[test]
fn upload_failures_are_told_once() {
    let mut w = UploadWarning::new();
    assert_eq!(
        w.on_failure("x").unwrap(),
        "remote_log: bulk upload failed (further errors silenced): x"
    );
    assert!(w.on_failure("x").is_none());
}

#[test]
fn level_names() {
    let names: Vec<&str> =
        [Level::Error, Level::Warn, Level::Info, Level::Debug, Level::Trace]
            .into_iter()
            .map(level_str)
            .collect();
    assert_eq!(names, vec!["error", "warn", "info", "debug", "trace"]);
}

// ----- program --------------------------------------------------------------

#[test]
fn what_is_run() {
    assert!(run(None, true) == RunPlan::Frontend);
    assert!(run(None, false) == RunPlan::Service);
    assert!(run(Some(Command::Daemon), true) == RunPlan::Service);
    assert!(run(Some(Command::Cli), true) == RunPlan::Cli);
    assert!(run(Some(Command::Service), true) == RunPlan::Dispatch);
    assert!(run(Some(Command::ServiceWorker), true) == RunPlan::Worker);
    assert_eq!(
        service_ended(ServiceEnd::AlreadyRunning, false).unwrap(),
        "service already running!"
    );
    assert_eq!(
        service_ended(ServiceEnd::Failed("x".to_string()), false).unwrap_err(),
        "x"
    );
    assert_eq!(service_args(&vec!["-p".to_string()]), vec!["-p", "daemon"]);
}

#[test]
fn launcher_starts_the_program_beside_it() {
    assert_eq!(
        launch_target("/opt/lm/launcher", false).unwrap(),
        "/opt/lm/bin/lan-mouse"
    );
    assert_eq!(
        launch_target("/opt/lm/launcher", true).unwrap(),
        "/opt/lm/bin/lan-mouse.exe"
    );
    assert!(launch_target("/", false).is_none());
}

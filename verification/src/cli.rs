//! The command line: what each command asks of the service and tells the user.
use crate::file_transfer::paths;
use crate::ipc::{
    Client, ClientHandle, ClientView, FrontendEvent, FrontendEventView, FrontendRequest,
    FrontendRequestView, Position,
};
use crate::net::IpAddr;
use crate::windows_service::{Error, ErrorView, InstalledState};
use crate::{collections, ipc, text, windows_service};
use vstd::prelude::*;

verus! {

// ----- commands -------------------------------------------------------------

/// What is set of a client that is added.
#[derive(Debug)]
pub struct ClientArgs {
    /// Hostname.
    pub hostname: Option<String>,
    /// Port.
    pub port: Option<u16>,
    /// Fixed addresses.
    pub ips: Option<Vec<IpAddr>>,
    /// Enter hook.
    pub enter_hook: Option<String>,
}

/// Contents of [`ClientArgs`].
#[verifier::ext_equal]
pub struct ClientArgsView {
    /// See [`ClientArgs::hostname`].
    pub hostname: Option<Seq<char>>,
    /// See [`ClientArgs::port`].
    pub port: Option<u16>,
    /// See [`ClientArgs::ips`].
    pub ips: Option<Seq<IpAddr>>,
    /// See [`ClientArgs::enter_hook`].
    pub enter_hook: Option<Seq<char>>,
}

impl View for ClientArgs {
    type V = ClientArgsView;

    open spec fn view(&self) -> ClientArgsView {
        ClientArgsView {
            hostname: text::opt_view(self.hostname),
            port: self.port,
            ips: match self.ips {
                Some(v) => Some(v@),
                None => None,
            },
            enter_hook: text::opt_view(self.enter_hook),
        }
    }
}

/// An operation on the Windows service.
#[derive(Clone, Copy, PartialEq, Eq, Structural, Debug)]
pub enum ServiceAction {
    /// Register the service.
    Install,
    /// Stop and remove the service.
    Uninstall,
    /// Start the service.
    Start,
    /// Stop the service.
    Stop,
    /// Print the state of the service.
    Status,
}

/// An operation on the registration with the log server.
#[derive(Debug)]
pub enum LoggerAction {
    /// Show the registration and the group.
    Status,
    /// Create a group.
    Create {
        /// Name of the group.
        name: String,
    },
    /// Join a group.
    Join {
        /// Code that was handed out for it.
        invite_code: String,
    },
    /// List the groups.
    Groups,
    /// Print recent entries.
    Tail {
        /// Most entries to print.
        limit: u32,
        /// Level to print.
        level: Option<String>,
        /// Whether only this host's entries are printed.
        mine_only: bool,
    },
}

/// Contents of a [`LoggerAction`].
#[verifier::ext_equal]
pub enum LoggerActionView {
    /// See [`LoggerAction::Status`].
    Status,
    /// See [`LoggerAction::Create`].
    Create {
        /// See [`LoggerAction::Create`].
        name: Seq<char>,
    },
    /// See [`LoggerAction::Join`].
    Join {
        /// See [`LoggerAction::Join`].
        invite_code: Seq<char>,
    },
    /// See [`LoggerAction::Groups`].
    Groups,
    /// See [`LoggerAction::Tail`].
    Tail {
        /// See [`LoggerAction::Tail`].
        limit: u32,
        /// See [`LoggerAction::Tail`].
        level: Option<Seq<char>>,
        /// See [`LoggerAction::Tail`].
        mine_only: bool,
    },
}

impl View for LoggerAction {
    type V = LoggerActionView;

    open spec fn view(&self) -> LoggerActionView {
        match self {
            LoggerAction::Status => LoggerActionView::Status,
            LoggerAction::Create { name } => LoggerActionView::Create { name: name@ },
            LoggerAction::Join { invite_code } => LoggerActionView::Join {
                invite_code: invite_code@,
            },
            LoggerAction::Groups => LoggerActionView::Groups,
            LoggerAction::Tail { limit, level, mine_only } => LoggerActionView::Tail {
                limit: *limit,
                level: text::opt_view(*level),
                mine_only: *mine_only,
            },
        }
    }
}

/// A command.
#[derive(Debug)]
#[allow(inconsistent_fields)]
pub enum CliSubcommand {
    /// Add a client.
    AddClient(ClientArgs),
    /// Remove a client.
    RemoveClient {
        /// Number of the client.
        id: ClientHandle,
    },
    /// Activate a client.
    Activate {
        /// Number of the client.
        id: ClientHandle,
    },
    /// Deactivate a client.
    Deactivate {
        /// Number of the client.
        id: ClientHandle,
    },
    /// List the clients.
    List,
    /// Change a hostname.
    SetHost {
        /// Number of the client.
        id: ClientHandle,
        /// Hostname.
        host: Option<String>,
    },
    /// Change a port.
    SetPort {
        /// Number of the client.
        id: ClientHandle,
        /// Port.
        port: u16,
    },
    /// Change a position.
    SetPosition {
        /// Number of the client.
        id: ClientHandle,
        /// Position.
        pos: Position,
    },
    /// Change the fixed addresses.
    SetIps {
        /// Number of the client.
        id: ClientHandle,
        /// Addresses.
        ips: Vec<IpAddr>,
    },
    /// Enable capture again.
    EnableCapture,
    /// Enable emulation again.
    EnableEmulation,
    /// Authorize a fingerprint.
    AuthorizeKey {
        /// Description.
        description: String,
        /// Fingerprint.
        sha256_fingerprint: String,
    },
    /// Take an authorization back.
    RemoveAuthorizedKey {
        /// Fingerprint.
        sha256_fingerprint: String,
    },
    /// Save the configuration file.
    SaveConfig,
    /// Send a file or folder.
    SendFile {
        /// File or folder.
        path: String,
        /// Client that receives it; the one in use where it is missing.
        client: Option<ClientHandle>,
    },
    /// Manage the Windows service.
    Service {
        /// Operation.
        action: ServiceAction,
    },
    /// Manage the registration with the log server.
    Logger {
        /// Operation.
        action: LoggerAction,
    },
}

/// Contents of a [`CliSubcommand`].
#[verifier::ext_equal]
#[allow(inconsistent_fields)]
pub enum CliSubcommandView {
    /// See [`CliSubcommand::AddClient`].
    AddClient(ClientArgsView),
    /// See [`CliSubcommand::RemoveClient`].
    RemoveClient {
        /// See [`CliSubcommand::RemoveClient`].
        id: ClientHandle,
    },
    /// See [`CliSubcommand::Activate`].
    Activate {
        /// See [`CliSubcommand::Activate`].
        id: ClientHandle,
    },
    /// See [`CliSubcommand::Deactivate`].
    Deactivate {
        /// See [`CliSubcommand::Deactivate`].
        id: ClientHandle,
    },
    /// See [`CliSubcommand::List`].
    List,
    /// See [`CliSubcommand::SetHost`].
    SetHost {
        /// See [`CliSubcommand::SetHost`].
        id: ClientHandle,
        /// See [`CliSubcommand::SetHost`].
        host: Option<Seq<char>>,
    },
    /// See [`CliSubcommand::SetPort`].
    SetPort {
        /// See [`CliSubcommand::SetPort`].
        id: ClientHandle,
        /// See [`CliSubcommand::SetPort`].
        port: u16,
    },
    /// See [`CliSubcommand::SetPosition`].
    SetPosition {
        /// See [`CliSubcommand::SetPosition`].
        id: ClientHandle,
        /// See [`CliSubcommand::SetPosition`].
        pos: Position,
    },
    /// See [`CliSubcommand::SetIps`].
    SetIps {
        /// See [`CliSubcommand::SetIps`].
        id: ClientHandle,
        /// See [`CliSubcommand::SetIps`].
        ips: Seq<IpAddr>,
    },
    /// See [`CliSubcommand::EnableCapture`].
    EnableCapture,
    /// See [`CliSubcommand::EnableEmulation`].
    EnableEmulation,
    /// See [`CliSubcommand::AuthorizeKey`].
    AuthorizeKey {
        /// See [`CliSubcommand::AuthorizeKey`].
        description: Seq<char>,
        /// See [`CliSubcommand::AuthorizeKey`].
        sha256_fingerprint: Seq<char>,
    },
    /// See [`CliSubcommand::RemoveAuthorizedKey`].
    RemoveAuthorizedKey {
        /// See [`CliSubcommand::RemoveAuthorizedKey`].
        sha256_fingerprint: Seq<char>,
    },
    /// See [`CliSubcommand::SaveConfig`].
    SaveConfig,
    /// See [`CliSubcommand::SendFile`].
    SendFile {
        /// See [`CliSubcommand::SendFile`].
        path: Seq<char>,
        /// See [`CliSubcommand::SendFile`].
        client: Option<ClientHandle>,
    },
    /// See [`CliSubcommand::Service`].
    Service {
        /// See [`CliSubcommand::Service`].
        action: ServiceAction,
    },
    /// See [`CliSubcommand::Logger`].
    Logger {
        /// See [`CliSubcommand::Logger`].
        action: LoggerActionView,
    },
}

impl View for CliSubcommand {
    type V = CliSubcommandView;

    open spec fn view(&self) -> CliSubcommandView {
        match self {
            CliSubcommand::AddClient(c) => CliSubcommandView::AddClient(c@),
            CliSubcommand::RemoveClient { id } => CliSubcommandView::RemoveClient { id: *id },
            CliSubcommand::Activate { id } => CliSubcommandView::Activate { id: *id },
            CliSubcommand::Deactivate { id } => CliSubcommandView::Deactivate { id: *id },
            CliSubcommand::List => CliSubcommandView::List,
            CliSubcommand::SetHost { id, host } => CliSubcommandView::SetHost {
                id: *id,
                host: text::opt_view(*host),
            },
            CliSubcommand::SetPort { id, port } => CliSubcommandView::SetPort {
                id: *id,
                port: *port,
            },
            CliSubcommand::SetPosition { id, pos } => CliSubcommandView::SetPosition {
                id: *id,
                pos: *pos,
            },
            CliSubcommand::SetIps { id, ips } => CliSubcommandView::SetIps {
                id: *id,
                ips: ips@,
            },
            CliSubcommand::EnableCapture => CliSubcommandView::EnableCapture,
            CliSubcommand::EnableEmulation => CliSubcommandView::EnableEmulation,
            CliSubcommand::AuthorizeKey { description, sha256_fingerprint } => {
                CliSubcommandView::AuthorizeKey {
                    description: description@,
                    sha256_fingerprint: sha256_fingerprint@,
                }
            },
            CliSubcommand::RemoveAuthorizedKey { sha256_fingerprint } => {
                CliSubcommandView::RemoveAuthorizedKey { sha256_fingerprint: sha256_fingerprint@ }
            },
            CliSubcommand::SaveConfig => CliSubcommandView::SaveConfig,
            CliSubcommand::SendFile { path, client } => CliSubcommandView::SendFile {
                path: path@,
                client: *client,
            },
            CliSubcommand::Service { action } => CliSubcommandView::Service { action: *action },
            CliSubcommand::Logger { action } => CliSubcommandView::Logger { action: action@ },
        }
    }
}

// ----- what is done ---------------------------------------------------------

/// What is done for a command.
#[derive(Debug)]
pub enum CliAction {
    /// Ask the service.
    Request(FrontendRequest),
    /// Print a line.
    Print(String),
    /// Print a line to the error output.
    PrintError(String),
    /// Print a client: the line up to its addresses, and the addresses.
    PrintClient {
        /// Line up to the addresses.
        line: String,
        /// Addresses.
        ips: Vec<IpAddr>,
    },
    /// Show a message on the desktop.
    Notify {
        /// The message.
        message: String,
        /// Whether it tells of an error.
        error: bool,
    },
    /// Operate on the Windows service.
    Service(ServiceAction),
    /// Operate on the registration with the log server.
    Logger(LoggerAction),
}

/// Contents of a [`CliAction`].
#[verifier::ext_equal]
pub enum CliActionView {
    /// See [`CliAction::Request`].
    Request(FrontendRequestView),
    /// See [`CliAction::Print`].
    Print(Seq<char>),
    /// See [`CliAction::PrintError`].
    PrintError(Seq<char>),
    /// See [`CliAction::PrintClient`].
    PrintClient {
        /// See [`CliAction::PrintClient`].
        line: Seq<char>,
        /// See [`CliAction::PrintClient`].
        ips: Seq<IpAddr>,
    },
    /// See [`CliAction::Notify`].
    Notify {
        /// See [`CliAction::Notify`].
        message: Seq<char>,
        /// See [`CliAction::Notify`].
        error: bool,
    },
    /// See [`CliAction::Service`].
    Service(ServiceAction),
    /// See [`CliAction::Logger`].
    Logger(LoggerActionView),
}

impl View for CliAction {
    type V = CliActionView;

    open spec fn view(&self) -> CliActionView {
        match self {
            CliAction::Request(r) => CliActionView::Request(r@),
            CliAction::Print(m) => CliActionView::Print(m@),
            CliAction::PrintError(m) => CliActionView::PrintError(m@),
            CliAction::PrintClient { line, ips } => CliActionView::PrintClient {
                line: line@,
                ips: ips@,
            },
            CliAction::Notify { message, error } => CliActionView::Notify {
                message: message@,
                error: *error,
            },
            CliAction::Service(a) => CliActionView::Service(*a),
            CliAction::Logger(a) => CliActionView::Logger(a@),
        }
    }
}

/// The contents of a list of actions.
pub open spec fn action_views(v: Seq<CliAction>) -> Seq<CliActionView> {
    Seq::new(v.len(), |i: int| v[i]@)
}

/// What a command waits for.
#[derive(Debug)]
pub enum Wait {
    /// Nothing.
    Nothing,
    /// The client that was asked for, to set it up.
    Created(ClientArgs),
    /// The clients, to list them.
    Clients,
    /// The clients, to send a file or folder to one of them.
    Target(String),
}

/// Contents of a [`Wait`].
#[verifier::ext_equal]
pub enum WaitView {
    /// See [`Wait::Nothing`].
    Nothing,
    /// See [`Wait::Created`].
    Created(ClientArgsView),
    /// See [`Wait::Clients`].
    Clients,
    /// See [`Wait::Target`].
    Target(Seq<char>),
}

impl View for Wait {
    type V = WaitView;

    open spec fn view(&self) -> WaitView {
        match self {
            Wait::Nothing => WaitView::Nothing,
            Wait::Created(c) => WaitView::Created(c@),
            Wait::Clients => WaitView::Clients,
            Wait::Target(p) => WaitView::Target(p@),
        }
    }
}

/// A failure is printed and shown.
pub open spec fn failure(message: Seq<char>) -> Seq<CliActionView> {
    seq![CliActionView::PrintError(message), CliActionView::Notify { message, error: true }]
}

/// A success is printed and shown.
pub open spec fn success(message: Seq<char>) -> Seq<CliActionView> {
    seq![CliActionView::Print(message), CliActionView::Notify { message, error: false }]
}

/// What the user is told where nothing can be sent to.
pub open spec fn no_target_message() -> Seq<char> {
    "No connected Lan Mouse+ client available. Open Lan Mouse+ and connect/activate the destination client first."@
}

/// What the user is told of a file that is sent.
pub open spec fn sending_message(path: Seq<char>, client: ClientHandle) -> Seq<char> {
    let name = match paths::last_name(path) {
        Some(n) => n,
        None => path,
    };
    "Sending \""@ + name + "\" to client "@ + text::dec(client as nat) + "…"@
}

/// A file or folder is sent to a client.
pub open spec fn sent(path: Seq<char>, client: ClientHandle) -> Seq<CliActionView> {
    seq![CliActionView::Request(FrontendRequestView::SendFile { client, path })] + success(
        sending_message(path, client),
    )
}

/// One request and nothing more.
pub open spec fn asked(r: FrontendRequestView) -> (WaitView, Seq<CliActionView>) {
    (WaitView::Nothing, seq![CliActionView::Request(r)])
}

/// A command is given, with whether the path that it names exists.
pub open spec fn executed(cmd: CliSubcommandView, path_exists: bool) -> (
    WaitView,
    Seq<CliActionView>,
) {
    match cmd {
        CliSubcommandView::AddClient(c) => (
            WaitView::Created(c),
            seq![CliActionView::Request(FrontendRequestView::Create)],
        ),
        CliSubcommandView::RemoveClient { id } => asked(FrontendRequestView::Delete(id)),
        CliSubcommandView::Activate { id } => asked(FrontendRequestView::Activate(id, true)),
        CliSubcommandView::Deactivate { id } => asked(FrontendRequestView::Activate(id, false)),
        CliSubcommandView::List => (
            WaitView::Clients,
            seq![CliActionView::Request(FrontendRequestView::Enumerate)],
        ),
        CliSubcommandView::SetHost { id, host } => asked(
            FrontendRequestView::UpdateHostname(id, host),
        ),
        CliSubcommandView::SetPort { id, port } => asked(
            FrontendRequestView::UpdatePort(id, port),
        ),
        CliSubcommandView::SetPosition { id, pos } => asked(
            FrontendRequestView::UpdatePosition(id, pos),
        ),
        CliSubcommandView::SetIps { id, ips } => asked(
            FrontendRequestView::UpdateFixIps(id, ips),
        ),
        CliSubcommandView::EnableCapture => asked(FrontendRequestView::EnableCapture),
        CliSubcommandView::EnableEmulation => asked(FrontendRequestView::EnableEmulation),
        CliSubcommandView::AuthorizeKey { description, sha256_fingerprint } => asked(
            FrontendRequestView::AuthorizeKey(description, sha256_fingerprint),
        ),
        CliSubcommandView::RemoveAuthorizedKey { sha256_fingerprint } => asked(
            FrontendRequestView::RemoveAuthorizedKey(sha256_fingerprint),
        ),
        CliSubcommandView::SaveConfig => asked(FrontendRequestView::SaveConfiguration),
        CliSubcommandView::SendFile { path, client } => if !path_exists {
            (WaitView::Nothing, failure("Path not found: "@ + path))
        } else {
            match client {
                Some(c) => (WaitView::Nothing, sent(path, c)),
                None => (
                    WaitView::Target(path),
                    seq![CliActionView::Request(FrontendRequestView::Enumerate)],
                ),
            }
        },
        CliSubcommandView::Service { action } => (
            WaitView::Nothing,
            seq![CliActionView::Service(action)],
        ),
        CliSubcommandView::Logger { action } => (
            WaitView::Nothing,
            seq![CliActionView::Logger(action)],
        ),
    }
}

/// Whether a client is active.
pub open spec fn is_active() -> spec_fn(ClientView) -> bool {
    |c: ClientView| c.state.active
}

/// Whether an address of a client is known.
pub open spec fn is_connected() -> spec_fn(ClientView) -> bool {
    |c: ClientView| c.state.ips.len() > 0
}

/// Where a file goes where nothing is said: to the first active client; where there is none,
/// to the only connected one.
pub open spec fn default_target(clients: Seq<ClientView>) -> Option<ClientHandle> {
    match collections::first_where(clients, is_active()) {
        Some(c) => Some(c.handle),
        None => {
            let connected = collections::all_where(clients, is_connected());
            if connected.len() == 1 {
                Some(connected[0].handle)
            } else {
                None
            }
        },
    }
}

/// The text of a truth value.
pub open spec fn bool_text(b: bool) -> Seq<char> {
    if b {
        "true"@
    } else {
        "false"@
    }
}

/// The line of a client, up to its addresses.
pub open spec fn client_line(c: ClientView) -> Seq<char> {
    let host = match c.config.hostname {
        Some(h) => h,
        None => "unknown"@,
    };
    "id "@ + text::dec(c.handle as nat) + ": "@ + host + ":"@ + text::dec(c.config.port as nat)
        + " ("@ + ipc::position_name(c.config.pos) + ") active: "@ + bool_text(c.state.active)
        + ", ips: "@
}

/// The clients, one line each.
pub open spec fn listed(clients: Seq<ClientView>) -> Seq<CliActionView> {
    Seq::new(
        clients.len(),
        |i: int|
            CliActionView::PrintClient { line: client_line(clients[i]), ips: clients[i].state.ips },
    )
}

/// What is asked where something was given.
pub open spec fn asked_if<T>(given: Option<T>, r: spec_fn(T) -> FrontendRequestView) -> Seq<
    CliActionView,
> {
    match given {
        Some(t) => seq![CliActionView::Request(r(t))],
        None => Seq::empty(),
    }
}

/// What sets up a client that was added.
pub open spec fn client_setup(h: ClientHandle, c: ClientArgsView) -> Seq<CliActionView> {
    asked_if(c.hostname, |t: Seq<char>| FrontendRequestView::UpdateHostname(h, Some(t)))
        + asked_if(c.port, |t: u16| FrontendRequestView::UpdatePort(h, t)) + asked_if(
        c.ips,
        |t: Seq<IpAddr>| FrontendRequestView::UpdateFixIps(h, t),
    ) + asked_if(
        c.enter_hook,
        |t: Seq<char>| FrontendRequestView::UpdateEnterHook(h, Some(t)),
    )
}

/// What is done once the clients are known that a file could go to.
pub open spec fn target_found(path: Seq<char>, clients: Seq<ClientView>) -> Seq<CliActionView> {
    match default_target(clients) {
        Some(h) => sent(path, h),
        None => failure(no_target_message()),
    }
}

/// The service reports; what a command does not wait for is passed over.
pub open spec fn event_taken(w: WaitView, e: FrontendEventView) -> (
    WaitView,
    Seq<CliActionView>,
) {
    match (w, e) {
        (WaitView::Created(c), FrontendEventView::Created(client)) => (
            WaitView::Nothing,
            client_setup(client.handle, c),
        ),
        (WaitView::Clients, FrontendEventView::Enumerate(clients)) => (
            WaitView::Nothing,
            listed(clients),
        ),
        (WaitView::Target(path), FrontendEventView::Enumerate(clients)) => (
            WaitView::Nothing,
            target_found(path, clients),
        ),
        _ => (w, Seq::empty()),
    }
}

/// The reports end before what is waited for.
pub open spec fn events_ended(w: WaitView) -> Seq<CliActionView> {
    match w {
        WaitView::Target(path) => failure(no_target_message()),
        _ => Seq::empty(),
    }
}

// ----- executable -----------------------------------------------------------

fn one(a: CliAction) -> (r: Vec<CliAction>)
    ensures
        action_views(r@) == seq![a@],
{
    let mut r: Vec<CliAction> = Vec::new();
    r.push(a);
    assert(action_views(r@) =~= seq![a@]);
    r
}

fn ask(r: FrontendRequest) -> (res: (Wait, Vec<CliAction>))
    ensures
        (res.0@, action_views(res.1@)) == asked(r@),
{
    (Wait::Nothing, one(CliAction::Request(r)))
}

fn push_ask(out: &mut Vec<CliAction>, r: FrontendRequest)
    ensures
        action_views(final(out)@) == action_views(old(out)@).push(CliActionView::Request(r@)),
{
    out.push(CliAction::Request(r));
    assert(action_views(out@) =~= action_views(old(out)@).push(CliActionView::Request(r@)));
}

fn fail(message: String) -> (r: Vec<CliAction>)
    ensures
        action_views(r@) == failure(message@),
{
    let mut r: Vec<CliAction> = Vec::new();
    r.push(CliAction::PrintError(message.clone()));
    r.push(CliAction::Notify { message, error: true });
    assert(action_views(r@) =~= failure(message@));
    r
}

fn no_target() -> (r: Vec<CliAction>)
    ensures
        action_views(r@) == failure(no_target_message()),
{
    fail(
        "No connected Lan Mouse+ client available. Open Lan Mouse+ and connect/activate the destination client first.".to_owned(),
    )
}

fn send_to(path: String, client: ClientHandle) -> (r: Vec<CliAction>)
    ensures
        action_views(r@) == sent(path@, client),
{
    let name: String = match paths::file_name(path.as_str()) {
        Some(n) => n,
        None => path.clone(),
    };
    let head: String = text::concat3("Sending \"", name.as_str(), "\" to client ");
    let number: String = text::dec_string(client);
    let message: String = text::concat3(head.as_str(), number.as_str(), "…");
    let mut r: Vec<CliAction> = Vec::new();
    r.push(CliAction::Request(FrontendRequest::SendFile { client, path }));
    r.push(CliAction::Print(message.clone()));
    r.push(CliAction::Notify { message, error: false });
    assert(action_views(r@) =~= sent(path@, client));
    r
}

/// Whether a command needs the service to run. The others, which manage the registration of the
/// log and the Windows service, are carried out without it.
pub fn needs_service(cmd: &CliSubcommand) -> (r: bool)
    ensures
        r == !(cmd@ is Logger || cmd@ is Service),
{
    match cmd {
        CliSubcommand::Logger { action } => false,
        CliSubcommand::Service { action } => false,
        _ => true,
    }
}

/// Takes a command, with whether the path that it names exists: what it waits for, and what is
/// done first.
pub fn execute(cmd: CliSubcommand, path_exists: bool) -> (r: (Wait, Vec<CliAction>))
    ensures
        (r.0@, action_views(r.1@)) == executed(cmd@, path_exists),
{
    match cmd {
        CliSubcommand::AddClient(c) => (
            Wait::Created(c),
            one(CliAction::Request(FrontendRequest::Create)),
        ),
        CliSubcommand::RemoveClient { id } => ask(FrontendRequest::Delete(id)),
        CliSubcommand::Activate { id } => ask(FrontendRequest::Activate(id, true)),
        CliSubcommand::Deactivate { id } => ask(FrontendRequest::Activate(id, false)),
        CliSubcommand::List => (
            Wait::Clients,
            one(CliAction::Request(FrontendRequest::Enumerate())),
        ),
        CliSubcommand::SetHost { id, host } => ask(FrontendRequest::UpdateHostname(id, host)),
        CliSubcommand::SetPort { id, port } => ask(FrontendRequest::UpdatePort(id, port)),
        CliSubcommand::SetPosition { id, pos } => ask(FrontendRequest::UpdatePosition(id, pos)),
        CliSubcommand::SetIps { id, ips } => ask(FrontendRequest::UpdateFixIps(id, ips)),
        CliSubcommand::EnableCapture => ask(FrontendRequest::EnableCapture),
        CliSubcommand::EnableEmulation => ask(FrontendRequest::EnableEmulation),
        CliSubcommand::AuthorizeKey { description, sha256_fingerprint } => ask(
            FrontendRequest::AuthorizeKey(description, sha256_fingerprint),
        ),
        CliSubcommand::RemoveAuthorizedKey { sha256_fingerprint } => ask(
            FrontendRequest::RemoveAuthorizedKey(sha256_fingerprint),
        ),
        CliSubcommand::SaveConfig => ask(FrontendRequest::SaveConfiguration),
        CliSubcommand::SendFile { path, client } => send_file(path, client, path_exists),
        CliSubcommand::Service { action } => (Wait::Nothing, one(CliAction::Service(action))),
        CliSubcommand::Logger { action } => (Wait::Nothing, one(CliAction::Logger(action))),
    }
}

/// Sends a file or folder, where it exists: at once to the client that was named, otherwise as
/// soon as the clients are known.
pub fn send_file(path: String, explicit: Option<ClientHandle>, path_exists: bool) -> (r: (
    Wait,
    Vec<CliAction>,
))
    ensures
        (r.0@, action_views(r.1@)) == executed(
            CliSubcommandView::SendFile { path: path@, client: explicit },
            path_exists,
        ),
{
    if !path_exists {
        let message: String = text::concat2("Path not found: ", path.as_str());
        return (Wait::Nothing, fail(message));
    }
    match explicit {
        Some(c) => (Wait::Nothing, send_to(path, c)),
        None => (Wait::Target(path), one(CliAction::Request(FrontendRequest::Enumerate()))),
    }
}

/// Where a file goes where nothing is said.
pub fn resolve_default_target(clients: &Vec<Client>) -> (r: Option<ClientHandle>)
    ensures
        r == default_target(ipc::client_views(clients@)),
{
    let ghost all = ipc::client_views(clients@);
    let n: usize = clients.len();
    let mut i: usize = 0;
    while i < n
        invariant
            n == clients@.len() == all.len(),
            all == ipc::client_views(clients@),
            i <= n,
            forall|j: int| 0 <= j < i ==> !is_active()(#[trigger] all[j]),
        decreases n - i,
    {
        if clients[i].state.active {
            proof {
                assert(is_active()(all[i as int]));
                collections::lemma_first_at(all, is_active(), i as int);
            }
            return Some(clients[i].handle);
        }
        i += 1;
    }
    proof {
        collections::lemma_first_none(all, is_active());
    }
    let mut first: Option<ClientHandle> = None;
    let mut count: usize = 0;
    let mut k: usize = 0;
    while k < n
        invariant
            n == clients@.len() == all.len(),
            all == ipc::client_views(clients@),
            k <= n,
            count <= k,
            count == collections::all_where(all.take(k as int), is_connected()).len(),
            count == 0 ==> first is None,
            count > 0 ==> first == Some(
                collections::all_where(all.take(k as int), is_connected())[0].handle,
            ),
        decreases n - k,
    {
        proof {
            let t = all.take(k + 1);
            assert(t.drop_last() =~= all.take(k as int));
            assert(t.last() == all[k as int]);
            assert(all[k as int].state.ips == clients@[k as int].state.ips@);
        }
        if clients[k].state.ips.len() > 0 {
            if count == 0 {
                first = Some(clients[k].handle);
            }
            count += 1;
        }
        k += 1;
    }
    assert(all.take(n as int) =~= all);
    if count == 1 {
        first
    } else {
        None
    }
}

fn bool_str(b: bool) -> (r: &'static str)
    ensures
        r@ == bool_text(b),
{
    if b {
        "true"
    } else {
        "false"
    }
}

fn line_of(c: &Client) -> (r: String)
    ensures
        r@ == client_line(c@),
{
    let host: String = match &c.config.hostname {
        Some(h) => h.clone(),
        None => "unknown".to_owned(),
    };
    let number: String = text::dec_string(c.handle);
    let port: String = text::dec_string(c.config.port as u64);
    let a: String = text::concat3("id ", number.as_str(), ": ");
    let b: String = text::concat3(a.as_str(), host.as_str(), ":");
    let d: String = text::concat3(b.as_str(), port.as_str(), " (");
    let e: String = text::concat3(d.as_str(), c.config.pos.name(), ") active: ");
    text::concat3(e.as_str(), bool_str(c.state.active), ", ips: ")
}

fn list(clients: &Vec<Client>) -> (r: Vec<CliAction>)
    ensures
        action_views(r@) == listed(ipc::client_views(clients@)),
{
    let mut r: Vec<CliAction> = Vec::new();
    let n: usize = clients.len();
    let mut i: usize = 0;
    while i < n
        invariant
            n == clients@.len(),
            i <= n,
            r@.len() == i,
            forall|j: int|
                0 <= j < i ==> (#[trigger] r@[j])@ == (CliActionView::PrintClient {
                    line: client_line(clients@[j]@),
                    ips: clients@[j]@.state.ips,
                }),
        decreases n - i,
    {
        let line: String = line_of(&clients[i]);
        let ips: Vec<IpAddr> = crate::net::clone_ips(&clients[i].state.ips);
        r.push(CliAction::PrintClient { line, ips });
        i += 1;
    }
    assert(action_views(r@) =~= listed(ipc::client_views(clients@)));
    r
}

fn set_up(handle: ClientHandle, c: ClientArgs) -> (r: Vec<CliAction>)
    ensures
        action_views(r@) == client_setup(handle, c@),
{
    let mut r: Vec<CliAction> = Vec::new();
    assert(action_views(r@) =~= Seq::empty());
    if let Some(hostname) = c.hostname {
        push_ask(&mut r, FrontendRequest::UpdateHostname(handle, Some(hostname)));
    }
    if let Some(port) = c.port {
        push_ask(&mut r, FrontendRequest::UpdatePort(handle, port));
    }
    if let Some(ips) = c.ips {
        push_ask(&mut r, FrontendRequest::UpdateFixIps(handle, ips));
    }
    if let Some(enter_hook) = c.enter_hook {
        push_ask(&mut r, FrontendRequest::UpdateEnterHook(handle, Some(enter_hook)));
    }
    assert(action_views(r@) =~= client_setup(handle, c@));
    r
}

/// Takes a report of the service for a command that waits.
pub fn on_event(wait: Wait, event: &FrontendEvent) -> (r: (Wait, Vec<CliAction>))
    ensures
        (r.0@, action_views(r.1@)) == event_taken(wait@, event@),
{
    let nothing: Vec<CliAction> = Vec::new();
    assert(action_views(nothing@) =~= Seq::empty());
    match wait {
        Wait::Created(c) => match event {
            FrontendEvent::Created(client) => (Wait::Nothing, set_up(client.handle, c)),
            _ => (Wait::Created(c), nothing),
        },
        Wait::Clients => match event {
            FrontendEvent::Enumerate(clients) => (Wait::Nothing, list(clients)),
            _ => (Wait::Clients, nothing),
        },
        Wait::Target(path) => match event {
            FrontendEvent::Enumerate(clients) => match resolve_default_target(clients) {
                Some(h) => (Wait::Nothing, send_to(path, h)),
                None => (Wait::Nothing, no_target()),
            },
            _ => (Wait::Target(path), nothing),
        },
        Wait::Nothing => (Wait::Nothing, nothing),
    }
}

/// The reports of the service have ended.
pub fn on_end(wait: Wait) -> (r: Vec<CliAction>)
    ensures
        action_views(r@) == events_ended(wait@),
{
    match wait {
        Wait::Target(path) => no_target(),
        _ => {
            let nothing: Vec<CliAction> = Vec::new();
            assert(action_views(nothing@) =~= Seq::empty());
            nothing
        },
    }
}

// ----- the Windows service --------------------------------------------------

/// What came of an operation on the Windows service.
#[derive(Debug)]
pub enum ServiceOutcome {
    /// The own program could not be found for an installation; holds the system's words.
    NoExecutable(String),
    /// Installation.
    Install(Result<(), Error>),
    /// Removal.
    Uninstall(Result<(), Error>),
    /// Start.
    Start(Result<(), Error>),
    /// Stop.
    Stop(Result<(), Error>),
    /// State.
    Status(Result<InstalledState, Error>),
}

/// Contents of a [`ServiceOutcome`].
#[verifier::ext_equal]
pub enum ServiceOutcomeView {
    /// See [`ServiceOutcome::NoExecutable`].
    NoExecutable(Seq<char>),
    /// See [`ServiceOutcome::Install`].
    Install(Option<ErrorView>),
    /// See [`ServiceOutcome::Uninstall`].
    Uninstall(Option<ErrorView>),
    /// See [`ServiceOutcome::Start`].
    Start(Option<ErrorView>),
    /// See [`ServiceOutcome::Stop`].
    Stop(Option<ErrorView>),
    /// See [`ServiceOutcome::Status`].
    Status(Result<InstalledState, ErrorView>),
}

/// The error of an operation, where it failed.
pub open spec fn error_of(r: Result<(), Error>) -> Option<ErrorView> {
    match r {
        Ok(_) => None,
        Err(e) => Some(e@),
    }
}

impl View for ServiceOutcome {
    type V = ServiceOutcomeView;

    open spec fn view(&self) -> ServiceOutcomeView {
        match self {
            ServiceOutcome::NoExecutable(e) => ServiceOutcomeView::NoExecutable(e@),
            ServiceOutcome::Install(r) => ServiceOutcomeView::Install(error_of(*r)),
            ServiceOutcome::Uninstall(r) => ServiceOutcomeView::Uninstall(error_of(*r)),
            ServiceOutcome::Start(r) => ServiceOutcomeView::Start(error_of(*r)),
            ServiceOutcome::Stop(r) => ServiceOutcomeView::Stop(error_of(*r)),
            ServiceOutcome::Status(r) => ServiceOutcomeView::Status(
                match r {
                    Ok(s) => Ok(*s),
                    Err(e) => Err(e@),
                },
            ),
        }
    }
}

/// A printed line and a message on the desktop.
pub open spec fn told(printed: Seq<char>, message: Seq<char>) -> Seq<CliActionView> {
    seq![CliActionView::Print(printed), CliActionView::Notify { message, error: false }]
}

/// A line on the error output and an error on the desktop.
pub open spec fn told_error(printed: Seq<char>, message: Seq<char>) -> Seq<CliActionView> {
    seq![CliActionView::PrintError(printed), CliActionView::Notify { message, error: true }]
}

/// What the user is told of an operation on the Windows service.
pub open spec fn service_report(o: ServiceOutcomeView) -> Seq<CliActionView> {
    match o {
        ServiceOutcomeView::NoExecutable(e) => told_error(
            "could not resolve current exe: "@ + e,
            "Could not locate lan-mouse.exe: "@ + e,
        ),
        ServiceOutcomeView::Install(None) => told(
            "installed Lan Mouse+ service"@,
            "Lan Mouse+ service installed."@,
        ),
        ServiceOutcomeView::Install(Some(ErrorView::AlreadyInstalled)) => told(
            "service is already installed"@,
            "Lan Mouse+ service is already installed."@,
        ),
        ServiceOutcomeView::Install(Some(e)) => told_error(
            "install failed: "@ + windows_service::error_message(e),
            "Could not install Lan Mouse+ service.\n\n"@ + windows_service::error_message(e)
                + "\n\nRun this command from an elevated PowerShell or Command Prompt (right-click → Run as administrator)."@,
        ),
        ServiceOutcomeView::Uninstall(None) => told(
            "uninstalled Lan Mouse+ service"@,
            "Lan Mouse+ service uninstalled."@,
        ),
        ServiceOutcomeView::Uninstall(Some(ErrorView::NotInstalled)) => told(
            "service is not installed"@,
            "Lan Mouse+ service was not installed."@,
        ),
        ServiceOutcomeView::Uninstall(Some(e)) => told_error(
            "uninstall failed: "@ + windows_service::error_message(e),
            "Uninstall failed: "@ + windows_service::error_message(e),
        ),
        ServiceOutcomeView::Start(None) => seq![CliActionView::Print("started"@)],
        ServiceOutcomeView::Start(Some(e)) => told_error(
            "start failed: "@ + windows_service::error_message(e),
            "Could not start service: "@ + windows_service::error_message(e),
        ),
        ServiceOutcomeView::Stop(None) => seq![CliActionView::Print("stopped"@)],
        ServiceOutcomeView::Stop(Some(e)) => told_error(
            "stop failed: "@ + windows_service::error_message(e),
            "Could not stop service: "@ + windows_service::error_message(e),
        ),
        ServiceOutcomeView::Status(Ok(s)) => seq![
            CliActionView::Print(windows_service::state_name(s)),
        ],
        ServiceOutcomeView::Status(Err(e)) => seq![
            CliActionView::PrintError(
                "status query failed: "@ + windows_service::error_message(e),
            ),
        ],
    }
}

fn tell(printed: &str, message: &str) -> (r: Vec<CliAction>)
    ensures
        action_views(r@) == told(printed@, message@),
{
    let mut r: Vec<CliAction> = Vec::new();
    r.push(CliAction::Print(printed.to_owned()));
    r.push(CliAction::Notify { message: message.to_owned(), error: false });
    assert(action_views(r@) =~= told(printed@, message@));
    r
}

fn tell_error(printed: &str, message: &str, e: &str) -> (r: Vec<CliAction>)
    ensures
        action_views(r@) == told_error(printed@ + e@, message@ + e@),
{
    let mut r: Vec<CliAction> = Vec::new();
    r.push(CliAction::PrintError(text::concat2(printed, e)));
    r.push(CliAction::Notify { message: text::concat2(message, e), error: true });
    assert(action_views(r@) =~= told_error(printed@ + e@, message@ + e@));
    r
}

fn install_failed(e: &str) -> (r: Vec<CliAction>)
    ensures
        action_views(r@) == told_error(
            "install failed: "@ + e@,
            "Could not install Lan Mouse+ service.\n\n"@ + e@
                + "\n\nRun this command from an elevated PowerShell or Command Prompt (right-click → Run as administrator)."@,
        ),
{
    let mut r: Vec<CliAction> = Vec::new();
    let message: String = text::concat3(
        "Could not install Lan Mouse+ service.\n\n",
        e,
        "\n\nRun this command from an elevated PowerShell or Command Prompt (right-click → Run as administrator).",
    );
    r.push(CliAction::PrintError(text::concat2("install failed: ", e)));
    r.push(CliAction::Notify { message, error: true });
    assert(action_views(r@) =~= told_error("install failed: "@ + e@, message@));
    r
}

/// What the user is told of an operation on the Windows service.
pub fn handle_service_action(outcome: &ServiceOutcome) -> (r: Vec<CliAction>)
    ensures
        action_views(r@) == service_report(outcome@),
{
    match outcome {
        ServiceOutcome::NoExecutable(e) => tell_error(
            "could not resolve current exe: ",
            "Could not locate lan-mouse.exe: ",
            e.as_str(),
        ),
        ServiceOutcome::Install(Ok(_)) => tell(
            "installed Lan Mouse+ service",
            "Lan Mouse+ service installed.",
        ),
        ServiceOutcome::Install(Err(Error::AlreadyInstalled)) => tell(
            "service is already installed",
            "Lan Mouse+ service is already installed.",
        ),
        ServiceOutcome::Install(Err(e)) => install_failed(e.message().as_str()),
        ServiceOutcome::Uninstall(Ok(_)) => tell(
            "uninstalled Lan Mouse+ service",
            "Lan Mouse+ service uninstalled.",
        ),
        ServiceOutcome::Uninstall(Err(Error::NotInstalled)) => tell(
            "service is not installed",
            "Lan Mouse+ service was not installed.",
        ),
        ServiceOutcome::Uninstall(Err(e)) => tell_error(
            "uninstall failed: ",
            "Uninstall failed: ",
            e.message().as_str(),
        ),
        ServiceOutcome::Start(Ok(_)) => one(CliAction::Print("started".to_owned())),
        ServiceOutcome::Start(Err(e)) => tell_error(
            "start failed: ",
            "Could not start service: ",
            e.message().as_str(),
        ),
        ServiceOutcome::Stop(Ok(_)) => one(CliAction::Print("stopped".to_owned())),
        ServiceOutcome::Stop(Err(e)) => tell_error(
            "stop failed: ",
            "Could not stop service: ",
            e.message().as_str(),
        ),
        ServiceOutcome::Status(Ok(s)) => one(CliAction::Print(s.name().to_owned())),
        ServiceOutcome::Status(Err(e)) => one(
            CliAction::PrintError(
                text::concat2("status query failed: ", e.message().as_str()),
            ),
        ),
    }
}

// ----- laws -----------------------------------------------------------------

/// A file goes to an active client where there is one, otherwise to the connected client where
/// it is the only one; where several are connected and none is active, it goes nowhere.
pub proof fn law_default_target(clients: Seq<ClientView>, i: int)
    requires
        0 <= i < clients.len(),
    ensures
        clients[i].state.active && (forall|j: int|
            0 <= j < i ==> !(#[trigger] clients[j]).state.active) ==> default_target(clients)
            == Some(clients[i].handle),
        (forall|j: int| 0 <= j < clients.len() ==> !(#[trigger] clients[j]).state.active)
            && clients[i].state.ips.len() > 0 && (forall|j: int|
            0 <= j < clients.len() && j != i ==> (#[trigger] clients[j]).state.ips.len() == 0)
            ==> default_target(clients) == Some(clients[i].handle),
        (forall|j: int| 0 <= j < clients.len() ==> !(#[trigger] clients[j]).state.active)
            && clients[i].state.ips.len() > 0 && (exists|j: int|
            0 <= j < clients.len() && j != i && (#[trigger] clients[j]).state.ips.len() > 0)
            ==> default_target(clients) is None,
{
    let p = is_connected();
    if clients[i].state.active && (forall|j: int|
        0 <= j < i ==> !(#[trigger] clients[j]).state.active) {
        assert forall|j: int| 0 <= j < i implies !is_active()(#[trigger] clients[j]) by {}
        assert(is_active()(clients[i]));
        collections::lemma_first_at(clients, is_active(), i);
    }
    if forall|j: int| 0 <= j < clients.len() ==> !(#[trigger] clients[j]).state.active {
        assert forall|j: int| 0 <= j < clients.len() implies !is_active()(
            #[trigger] clients[j],
        ) by {}
        collections::lemma_first_none(clients, is_active());
        if clients[i].state.ips.len() > 0 {
            assert(p(clients[i]));
            if exists|j: int|
                0 <= j < clients.len() && j != i && (#[trigger] clients[j]).state.ips.len() > 0 {
                let j = choose|j: int|
                    0 <= j < clients.len() && j != i && (#[trigger] clients[j]).state.ips.len()
                        > 0;
                assert(p(clients[j]));
                if i < j {
                    lemma_two(clients, p, i, j);
                } else {
                    lemma_two(clients, p, j, i);
                }
            } else {
                assert forall|j: int| 0 <= j < clients.len() && j != i implies !p(
                    #[trigger] clients[j],
                ) by {}
                lemma_only(clients, p, i);
            }
        }
    }
}

proof fn lemma_none(s: Seq<ClientView>, p: spec_fn(ClientView) -> bool)
    requires
        forall|j: int| 0 <= j < s.len() ==> !p(#[trigger] s[j]),
    ensures
        collections::all_where(s, p).len() == 0,
    decreases s.len(),
{
    if s.len() > 0 {
        let t = s.drop_last();
        assert(!p(s[s.len() - 1]));
        assert forall|j: int| 0 <= j < t.len() implies !p(#[trigger] t[j]) by {
            assert(t[j] == s[j]);
        }
        lemma_none(t, p);
    }
}

proof fn lemma_only(s: Seq<ClientView>, p: spec_fn(ClientView) -> bool, i: int)
    requires
        0 <= i < s.len(),
        p(s[i]),
        forall|j: int| 0 <= j < s.len() && j != i ==> !p(#[trigger] s[j]),
    ensures
        collections::all_where(s, p) == seq![s[i]],
    decreases s.len(),
{
    let t = s.drop_last();
    if i == s.len() - 1 {
        assert forall|j: int| 0 <= j < t.len() implies !p(#[trigger] t[j]) by {
            assert(t[j] == s[j]);
        }
        lemma_none(t, p);
        assert(collections::all_where(s, p) =~= seq![s[i]]);
    } else {
        assert(!p(s[s.len() - 1]));
        assert forall|j: int| 0 <= j < t.len() && j != i implies !p(#[trigger] t[j]) by {
            assert(t[j] == s[j]);
        }
        lemma_only(t, p, i);
    }
}

proof fn lemma_some(s: Seq<ClientView>, p: spec_fn(ClientView) -> bool, i: int)
    requires
        0 <= i < s.len(),
        p(s[i]),
    ensures
        collections::all_where(s, p).len() > 0,
    decreases s.len(),
{
    if i < s.len() - 1 {
        lemma_some(s.drop_last(), p, i);
    }
}

proof fn lemma_two(s: Seq<ClientView>, p: spec_fn(ClientView) -> bool, i: int, j: int)
    requires
        0 <= i < j < s.len(),
        p(s[i]),
        p(s[j]),
    ensures
        collections::all_where(s, p).len() > 1,
    decreases s.len(),
{
    if j < s.len() - 1 {
        lemma_two(s.drop_last(), p, i, j);
    } else {
        lemma_some(s.drop_last(), p, i);
    }
}

/// A file that does not exist is never sent, whoever is named to receive it.
pub proof fn law_missing_path_not_sent(path: Seq<char>, client: Option<ClientHandle>)
    ensures
        ({
            let r = executed(CliSubcommandView::SendFile { path, client }, false);
            &&& r.0 is Nothing
            &&& forall|i: int| 0 <= i < r.1.len() ==> !(#[trigger] r.1[i] is Request)
        }),
{
}

/// A client that is named receives the file, whatever the other clients are.
pub proof fn law_named_client_receives(path: Seq<char>, client: ClientHandle)
    ensures
        executed(CliSubcommandView::SendFile { path, client: Some(client) }, true).1[0]
            == CliActionView::Request(FrontendRequestView::SendFile { client, path }),
{
}

/// Each command that changes something is one request that carries what was given, and waits for
/// nothing.
pub proof fn law_commands(
    id: ClientHandle,
    host: Option<Seq<char>>,
    port: u16,
    pos: Position,
    ips: Seq<IpAddr>,
    description: Seq<char>,
    fingerprint: Seq<char>,
    path_exists: bool,
)
    ensures
        executed(CliSubcommandView::RemoveClient { id }, path_exists) == (
            WaitView::Nothing,
            seq![CliActionView::Request(FrontendRequestView::Delete(id))],
        ),
        executed(CliSubcommandView::Activate { id }, path_exists) == (
            WaitView::Nothing,
            seq![CliActionView::Request(FrontendRequestView::Activate(id, true))],
        ),
        executed(CliSubcommandView::Deactivate { id }, path_exists) == (
            WaitView::Nothing,
            seq![CliActionView::Request(FrontendRequestView::Activate(id, false))],
        ),
        executed(CliSubcommandView::SetHost { id, host }, path_exists) == (
            WaitView::Nothing,
            seq![CliActionView::Request(FrontendRequestView::UpdateHostname(id, host))],
        ),
        executed(CliSubcommandView::SetPort { id, port }, path_exists) == (
            WaitView::Nothing,
            seq![CliActionView::Request(FrontendRequestView::UpdatePort(id, port))],
        ),
        executed(CliSubcommandView::SetPosition { id, pos }, path_exists) == (
            WaitView::Nothing,
            seq![CliActionView::Request(FrontendRequestView::UpdatePosition(id, pos))],
        ),
        executed(CliSubcommandView::SetIps { id, ips }, path_exists) == (
            WaitView::Nothing,
            seq![CliActionView::Request(FrontendRequestView::UpdateFixIps(id, ips))],
        ),
        executed(CliSubcommandView::EnableCapture, path_exists) == (
            WaitView::Nothing,
            seq![CliActionView::Request(FrontendRequestView::EnableCapture)],
        ),
        executed(CliSubcommandView::EnableEmulation, path_exists) == (
            WaitView::Nothing,
            seq![CliActionView::Request(FrontendRequestView::EnableEmulation)],
        ),
        executed(
            CliSubcommandView::AuthorizeKey { description, sha256_fingerprint: fingerprint },
            path_exists,
        ) == (
            WaitView::Nothing,
            seq![
                CliActionView::Request(
                    FrontendRequestView::AuthorizeKey(description, fingerprint),
                ),
            ],
        ),
        executed(
            CliSubcommandView::RemoveAuthorizedKey { sha256_fingerprint: fingerprint },
            path_exists,
        ) == (
            WaitView::Nothing,
            seq![CliActionView::Request(FrontendRequestView::RemoveAuthorizedKey(fingerprint))],
        ),
        executed(CliSubcommandView::SaveConfig, path_exists) == (
            WaitView::Nothing,
            seq![CliActionView::Request(FrontendRequestView::SaveConfiguration)],
        ),
{
}

/// Operations on the Windows service and on the log are handed on as they are.
pub proof fn law_operations_handed_on(
    action: ServiceAction,
    log: LoggerActionView,
    path_exists: bool,
)
    ensures
        executed(CliSubcommandView::Service { action }, path_exists) == (
            WaitView::Nothing,
            seq![CliActionView::Service(action)],
        ),
        executed(CliSubcommandView::Logger { action: log }, path_exists) == (
            WaitView::Nothing,
            seq![CliActionView::Logger(log)],
        ),
{
}

/// The number of options that were given.
pub open spec fn given(c: ClientArgsView) -> nat {
    (if c.hostname is Some {
        1nat
    } else {
        0
    }) + (if c.port is Some {
        1nat
    } else {
        0
    }) + (if c.ips is Some {
        1nat
    } else {
        0
    }) + (if c.enter_hook is Some {
        1nat
    } else {
        0
    })
}

/// A client that is added is asked for first; when it is there, each option that was given is asked
/// for under its handle, and nothing else.
pub proof fn law_client_is_added(c: ClientArgsView, client: ClientView, path_exists: bool)
    ensures
        executed(CliSubcommandView::AddClient(c), path_exists) == (
            WaitView::Created(c),
            seq![CliActionView::Request(FrontendRequestView::Create)],
        ),
        ({
            let (w, a) = event_taken(WaitView::Created(c), FrontendEventView::Created(client));
            let h = client.handle;
            &&& w is Nothing
            &&& a.len() == given(c)
            &&& c.hostname matches Some(n) ==> a.contains(
                CliActionView::Request(FrontendRequestView::UpdateHostname(h, Some(n))),
            )
            &&& c.port matches Some(p) ==> a.contains(
                CliActionView::Request(FrontendRequestView::UpdatePort(h, p)),
            )
            &&& c.ips matches Some(ips) ==> a.contains(
                CliActionView::Request(FrontendRequestView::UpdateFixIps(h, ips)),
            )
            &&& c.enter_hook matches Some(cmd) ==> a.contains(
                CliActionView::Request(FrontendRequestView::UpdateEnterHook(h, Some(cmd))),
            )
        }),
{
    let h = client.handle;
    let a = client_setup(h, c);
    let p = asked_if(c.hostname, |t: Seq<char>| FrontendRequestView::UpdateHostname(h, Some(t)));
    let q = asked_if(c.port, |t: u16| FrontendRequestView::UpdatePort(h, t));
    let r = asked_if(c.ips, |t: Seq<IpAddr>| FrontendRequestView::UpdateFixIps(h, t));
    let s = asked_if(
        c.enter_hook,
        |t: Seq<char>| FrontendRequestView::UpdateEnterHook(h, Some(t)),
    );
    assert(a =~= p + q + r + s);
    if let Some(n) = c.hostname {
        assert(a[0] == CliActionView::Request(FrontendRequestView::UpdateHostname(h, Some(n))));
    }
    if let Some(port) = c.port {
        assert(a[p.len() as int] == CliActionView::Request(
            FrontendRequestView::UpdatePort(h, port),
        ));
    }
    if let Some(ips) = c.ips {
        assert(a[(p.len() + q.len()) as int] == CliActionView::Request(
            FrontendRequestView::UpdateFixIps(h, ips),
        ));
    }
    if let Some(cmd) = c.enter_hook {
        assert(a[(p.len() + q.len() + r.len()) as int] == CliActionView::Request(
            FrontendRequestView::UpdateEnterHook(h, Some(cmd)),
        ));
    }
}

/// A list of clients has one line for each, in order, with all of its addresses; the line gives its
/// number, its name and port, its side, and whether it is active.
pub proof fn law_clients_are_listed(clients: Seq<ClientView>, i: int, path_exists: bool)
    requires
        0 <= i < clients.len(),
    ensures
        executed(CliSubcommandView::List, path_exists) == (
            WaitView::Clients,
            seq![CliActionView::Request(FrontendRequestView::Enumerate)],
        ),
        ({
            let (w, a) = event_taken(WaitView::Clients, FrontendEventView::Enumerate(clients));
            let c = clients[i];
            &&& w is Nothing
            &&& a.len() == clients.len()
            &&& a[i] matches CliActionView::PrintClient { line, ips } && {
                &&& ips == c.state.ips
                &&& ("id "@ + text::dec(c.handle as nat) + ": "@ + (match c.config.hostname {
                    Some(n) => n,
                    None => "unknown"@,
                }) + ":"@ + text::dec(c.config.port as nat)).is_prefix_of(line)
                &&& (ipc::position_name(c.config.pos) + ") active: "@ + (if c.state.active {
                    "true"@
                } else {
                    "false"@
                }) + ", ips: "@).is_suffix_of(line)
            }
        }),
{
    let c = clients[i];
    let host = match c.config.hostname {
        Some(h) => h,
        None => "unknown"@,
    };
    let head = "id "@ + text::dec(c.handle as nat) + ": "@ + host + ":"@ + text::dec(
        c.config.port as nat,
    );
    let tail = ipc::position_name(c.config.pos) + ") active: "@ + (if c.state.active {
        "true"@
    } else {
        "false"@
    }) + ", ips: "@;
    let line = client_line(c);
    assert(line =~= head + " ("@ + tail);
    assert(line.subrange(0, head.len() as int) =~= head);
    assert(line.subrange(line.len() - tail.len(), line.len() as int) =~= tail);
}

/// A file for nobody in particular goes, once the clients are known, just where a file for the
/// client goes that is then picked; where none can be picked, or no clients become known, the user
/// is told, and nothing is sent.
pub proof fn law_file_for_nobody(path: Seq<char>, clients: Seq<ClientView>)
    ensures
        executed(CliSubcommandView::SendFile { path, client: None }, true) == (
            WaitView::Target(path),
            seq![CliActionView::Request(FrontendRequestView::Enumerate)],
        ),
        ({
            let r = event_taken(WaitView::Target(path), FrontendEventView::Enumerate(clients));
            &&& r.0 is Nothing
            &&& default_target(clients) matches Some(h) ==> r.1 == executed(
                CliSubcommandView::SendFile { path, client: Some(h) },
                true,
            ).1
            &&& default_target(clients) is None ==> r.1 == events_ended(WaitView::Target(path))
        }),
        ({
            let e = events_ended(WaitView::Target(path));
            &&& e.len() == 2
            &&& e[0] matches CliActionView::PrintError(m) && m.len() > 0 && e[1]
                == CliActionView::Notify { message: m, error: true }
        }),
        events_ended(WaitView::Nothing).len() == 0,
        events_ended(WaitView::Clients).len() == 0,
{
    reveal_strlit(
        "No connected Lan Mouse+ client available. Open Lan Mouse+ and connect/activate the destination client first.",
    );
}

/// A file that is sent is announced on the terminal and on the desktop in the same words, which end
/// in the number of the client, after the request for it.
pub proof fn law_sending_is_told(path: Seq<char>, client: ClientHandle)
    ensures
        ({
            let (w, a) = executed(CliSubcommandView::SendFile { path, client: Some(client) }, true);
            &&& w is Nothing
            &&& a.len() == 3
            &&& a[0] == CliActionView::Request(FrontendRequestView::SendFile { client, path })
            &&& a[1] matches CliActionView::Print(m) && a[2] == (CliActionView::Notify {
                message: m,
                error: false,
            }) && ("\" to client "@ + text::dec(client as nat) + "…"@).is_suffix_of(m)
        }),
{
    let m = sending_message(path, client);
    let tail = "\" to client "@ + text::dec(client as nat) + "…"@;
    let name = match crate::file_transfer::paths::last_name(path) {
        Some(n) => n,
        None => path,
    };
    assert(m =~= "Sending \""@ + name + tail);
    assert(m.subrange(m.len() - tail.len(), m.len() as int) =~= tail);
}

/// A report that a command does not wait for does nothing, and the command goes on waiting.
pub proof fn law_other_reports_pass(w: WaitView, e: FrontendEventView)
    requires
        w is Nothing || (w is Created && !(e is Created)) || ((w is Clients || w is Target) && !(
        e is Enumerate)),
    ensures
        event_taken(w, e) == (w, Seq::<CliActionView>::empty()),
{
}

/// Whether actions tell an error whose words end as given.
pub open spec fn tells_error(a: Seq<CliActionView>, end: Seq<char>) -> bool {
    &&& a.len() > 0
    &&& a[0] matches CliActionView::PrintError(m) && end.is_suffix_of(m)
}

/// Whether actions tell no error.
pub open spec fn tells_success(a: Seq<CliActionView>) -> bool {
    &&& a.len() > 0
    &&& forall|i: int|
        0 <= i < a.len() ==> !(#[trigger] a[i] is PrintError) && !(
        a[i] matches CliActionView::Notify { message: _, error: true })
}

/// An operation on the Windows service that succeeds tells no error, nor does installing what is
/// installed or removing what is not; any other failure is told with its reason.
pub proof fn law_service_report(e: ErrorView, s: InstalledState, exe: Seq<char>)
    ensures
        tells_success(service_report(ServiceOutcomeView::Install(None))),
        tells_success(service_report(ServiceOutcomeView::Uninstall(None))),
        tells_success(service_report(ServiceOutcomeView::Start(None))),
        tells_success(service_report(ServiceOutcomeView::Stop(None))),
        service_report(ServiceOutcomeView::Status(Ok(s))) == seq![
            CliActionView::Print(windows_service::state_name(s)),
        ],
        tells_success(service_report(ServiceOutcomeView::Install(Some(ErrorView::AlreadyInstalled)))),
        tells_success(service_report(ServiceOutcomeView::Uninstall(Some(ErrorView::NotInstalled)))),
        !(e is AlreadyInstalled) ==> tells_error(
            service_report(ServiceOutcomeView::Install(Some(e))),
            windows_service::error_message(e),
        ),
        !(e is NotInstalled) ==> tells_error(
            service_report(ServiceOutcomeView::Uninstall(Some(e))),
            windows_service::error_message(e),
        ),
        tells_error(
            service_report(ServiceOutcomeView::Start(Some(e))),
            windows_service::error_message(e),
        ),
        tells_error(
            service_report(ServiceOutcomeView::Stop(Some(e))),
            windows_service::error_message(e),
        ),
        tells_error(
            service_report(ServiceOutcomeView::Status(Err(e))),
            windows_service::error_message(e),
        ),
        tells_error(service_report(ServiceOutcomeView::NoExecutable(exe)), exe),
{
    let m = windows_service::error_message(e);
    lemma_suffix("install failed: "@, m);
    lemma_suffix("uninstall failed: "@, m);
    lemma_suffix("start failed: "@, m);
    lemma_suffix("stop failed: "@, m);
    lemma_suffix("status query failed: "@, m);
    lemma_suffix("could not resolve current exe: "@, exe);
}

proof fn lemma_suffix(a: Seq<char>, b: Seq<char>)
    ensures
        b.is_suffix_of(a + b),
{
    assert((a + b).subrange((a + b).len() - b.len(), (a + b).len() as int) =~= b);
}

} // verus!

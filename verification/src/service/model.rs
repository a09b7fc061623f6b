//! State, effects and transitions of the service.
use crate::client::{ConfigClient, ConfigClientView};
use crate::clipboard::{ClipboardChangeView, MAX_CLIPBOARD_SIZE};
use crate::collections::StrMap;
use crate::file_drop::{EdgeSet, FileDropEventView};
use crate::file_transfer::{Command, CommandView, DecisionView, EventView};
use crate::ipc::{
    ClientHandle, ClientView, ClipboardImageDecision, ClipboardOverflowDecision,
    DiscoveredDeviceView, FileDecisionView, FileOfferView, FrontendEvent, FrontendEventView,
    FrontendRequestView, Position, Settings, SettingsView, Status,
};
use crate::net::{IpAddr, SocketAddr};
use crate::{client, clipboard, collections, file_transfer, ipc, net, text};
use vstd::prelude::*;

verus! {

/// First handle of the capture barriers of incoming connections.
pub const ENTER_HANDLE_BEGIN: u64 = 0x8000_0000_0000_0000;

/// Number of characters of an oversize clipboard that are shown.
pub const PREVIEW_CHARS: usize = 120;

// ----- effects --------------------------------------------------------------

/// Kind of a capture barrier.
#[derive(Clone, Copy, PartialEq, Eq, Structural, Debug)]
pub enum CaptureType {
    /// Captures input for a client.
    Default,
    /// Only notices that the pointer enters.
    EnterOnly,
}

/// Something to be done outside the service.
#[derive(Debug)]
pub enum Effect {
    /// Tell all frontends.
    Notify(FrontendEvent),
    /// Create a capture barrier.
    CaptureCreate(ClientHandle, Position, CaptureType),
    /// Destroy a capture barrier.
    CaptureDestroy(ClientHandle),
    /// Release the captured input.
    CaptureRelease,
    /// Enable capture again.
    CaptureReenable,
    /// Change the keys that release the pointer.
    SetReleaseBind(Vec<String>),
    /// Enable emulation again.
    EmulationReenable,
    /// Tell a device that it has left the screen.
    SendLeave(SocketAddr),
    /// Move the listener to another port.
    RequestPortChange(u16),
    /// Resolve a hostname.
    Resolve(ClientHandle, String),
    /// Write clients and authorized keys to the configuration file.
    SaveConfig(Vec<ConfigClient>, StrMap),
    /// Write settings to the configuration file.
    WriteSettings(Settings),
    /// Send a clipboard message to the devices that control this one.
    SendClipboardToControllers(Vec<u8>),
    /// Send a clipboard message to the clients that this device controls.
    SendClipboardToClients(Vec<u8>),
    /// Put a text that came from a peer on the local clipboard.
    SetClipboard(String),
    /// Remember a text without touching the clipboard.
    NoteClipboard(String),
    /// Run a shell command.
    SpawnHook(String),
    /// Command for the file-transfer service.
    Transfer(Command),
    /// Write bytes to a temporary file with an extension, and send that file.
    SendAsFile {
        /// Contents of the file.
        content: Vec<u8>,
        /// Its extension.
        ext: String,
        /// Listener of the peer.
        target_addr: SocketAddr,
        /// Certificate fingerprint that the peer must show.
        fingerprint: String,
    },
    /// Switch the announcement of this device.
    SetDiscoverable(bool),
}

/// Contents of an [`Effect`].
#[verifier::ext_equal]
pub enum EffectView {
    /// See [`Effect::Notify`].
    Notify(FrontendEventView),
    /// See [`Effect::CaptureCreate`].
    CaptureCreate(ClientHandle, Position, CaptureType),
    /// See [`Effect::CaptureDestroy`].
    CaptureDestroy(ClientHandle),
    /// See [`Effect::CaptureRelease`].
    CaptureRelease,
    /// See [`Effect::CaptureReenable`].
    CaptureReenable,
    /// See [`Effect::SetReleaseBind`].
    SetReleaseBind(Seq<Seq<char>>),
    /// See [`Effect::EmulationReenable`].
    EmulationReenable,
    /// See [`Effect::SendLeave`].
    SendLeave(SocketAddr),
    /// See [`Effect::RequestPortChange`].
    RequestPortChange(u16),
    /// See [`Effect::Resolve`].
    Resolve(ClientHandle, Seq<char>),
    /// See [`Effect::SaveConfig`].
    SaveConfig(Seq<ConfigClientView>, Map<Seq<char>, Seq<char>>),
    /// See [`Effect::WriteSettings`].
    WriteSettings(SettingsView),
    /// See [`Effect::SendClipboardToControllers`].
    SendClipboardToControllers(Seq<u8>),
    /// See [`Effect::SendClipboardToClients`].
    SendClipboardToClients(Seq<u8>),
    /// See [`Effect::SetClipboard`].
    SetClipboard(Seq<char>),
    /// See [`Effect::NoteClipboard`].
    NoteClipboard(Seq<char>),
    /// See [`Effect::SpawnHook`].
    SpawnHook(Seq<char>),
    /// See [`Effect::Transfer`].
    Transfer(CommandView),
    /// See [`Effect::SendAsFile`].
    SendAsFile {
        content: Seq<u8>,
        ext: Seq<char>,
        target_addr: SocketAddr,
        fingerprint: Seq<char>,
    },
    /// See [`Effect::SetDiscoverable`].
    SetDiscoverable(bool),
}

impl View for Effect {
    type V = EffectView;

    open spec fn view(&self) -> EffectView {
        match self {
            Effect::Notify(e) => EffectView::Notify(e@),
            Effect::CaptureCreate(h, p, t) => EffectView::CaptureCreate(*h, *p, *t),
            Effect::CaptureDestroy(h) => EffectView::CaptureDestroy(*h),
            Effect::CaptureRelease => EffectView::CaptureRelease,
            Effect::CaptureReenable => EffectView::CaptureReenable,
            Effect::SetReleaseBind(v) => EffectView::SetReleaseBind(text::views(v@)),
            Effect::EmulationReenable => EffectView::EmulationReenable,
            Effect::SendLeave(a) => EffectView::SendLeave(*a),
            Effect::RequestPortChange(p) => EffectView::RequestPortChange(*p),
            Effect::Resolve(h, n) => EffectView::Resolve(*h, n@),
            Effect::SaveConfig(c, k) => EffectView::SaveConfig(client::config_views(c@), k@),
            Effect::WriteSettings(s) => EffectView::WriteSettings(s@),
            Effect::SendClipboardToControllers(b) => EffectView::SendClipboardToControllers(b@),
            Effect::SendClipboardToClients(b) => EffectView::SendClipboardToClients(b@),
            Effect::SetClipboard(t) => EffectView::SetClipboard(t@),
            Effect::NoteClipboard(t) => EffectView::NoteClipboard(t@),
            Effect::SpawnHook(c) => EffectView::SpawnHook(c@),
            Effect::Transfer(c) => EffectView::Transfer(c@),
            Effect::SendAsFile { content, ext, target_addr, fingerprint } => {
                EffectView::SendAsFile {
                    content: content@,
                    ext: ext@,
                    target_addr: *target_addr,
                    fingerprint: fingerprint@,
                }
            },
            Effect::SetDiscoverable(b) => EffectView::SetDiscoverable(*b),
        }
    }
}

/// The contents of a list of effects.
pub open spec fn effect_views(v: Seq<Effect>) -> Seq<EffectView> {
    Seq::new(v.len(), |i: int| v[i]@)
}

// ----- events from the other parts ------------------------------------------

/// What emulation reports.
#[derive(Debug)]
pub enum EmulationEvent {
    /// A device without authorization tried to connect.
    ConnectionAttempt {
        /// Its certificate fingerprint.
        fingerprint: String,
    },
    /// A device entered the screen.
    Entered {
        /// Its address.
        addr: SocketAddr,
        /// Side of the screen.
        pos: Position,
        /// Its certificate fingerprint.
        fingerprint: String,
    },
    /// A device disconnected.
    Disconnected {
        /// Its address.
        addr: SocketAddr,
    },
    /// The listener moved to a port, or could not.
    PortChanged(Result<u16, String>),
    /// Emulation was disabled.
    EmulationDisabled,
    /// Emulation was enabled.
    EmulationEnabled,
    /// A device asks to release the captured input.
    ReleaseNotify,
    /// A device connected.
    Connected {
        /// Its address.
        addr: SocketAddr,
        /// Its certificate fingerprint.
        fingerprint: String,
    },
    /// A device sent its clipboard.
    ClipboardReceived(String),
}

/// Contents of an [`EmulationEvent`].
#[verifier::ext_equal]
pub enum EmulationEventView {
    /// See [`EmulationEvent::ConnectionAttempt`].
    ConnectionAttempt { fingerprint: Seq<char> },
    /// See [`EmulationEvent::Entered`].
    Entered { addr: SocketAddr, pos: Position, fingerprint: Seq<char> },
    /// See [`EmulationEvent::Disconnected`].
    Disconnected { addr: SocketAddr },
    /// See [`EmulationEvent::PortChanged`].
    PortChanged(Result<u16, Seq<char>>),
    /// See [`EmulationEvent::EmulationDisabled`].
    EmulationDisabled,
    /// See [`EmulationEvent::EmulationEnabled`].
    EmulationEnabled,
    /// See [`EmulationEvent::ReleaseNotify`].
    ReleaseNotify,
    /// See [`EmulationEvent::Connected`].
    Connected { addr: SocketAddr, fingerprint: Seq<char> },
    /// See [`EmulationEvent::ClipboardReceived`].
    ClipboardReceived(Seq<char>),
}

impl View for EmulationEvent {
    type V = EmulationEventView;

    open spec fn view(&self) -> EmulationEventView {
        match self {
            EmulationEvent::ConnectionAttempt { fingerprint } => {
                EmulationEventView::ConnectionAttempt { fingerprint: fingerprint@ }
            },
            EmulationEvent::Entered { addr, pos, fingerprint } => EmulationEventView::Entered {
                addr: *addr,
                pos: *pos,
                fingerprint: fingerprint@,
            },
            EmulationEvent::Disconnected { addr } => EmulationEventView::Disconnected {
                addr: *addr,
            },
            EmulationEvent::PortChanged(Ok(p)) => EmulationEventView::PortChanged(Ok(*p)),
            EmulationEvent::PortChanged(Err(e)) => EmulationEventView::PortChanged(Err(e@)),
            EmulationEvent::EmulationDisabled => EmulationEventView::EmulationDisabled,
            EmulationEvent::EmulationEnabled => EmulationEventView::EmulationEnabled,
            EmulationEvent::ReleaseNotify => EmulationEventView::ReleaseNotify,
            EmulationEvent::Connected { addr, fingerprint } => EmulationEventView::Connected {
                addr: *addr,
                fingerprint: fingerprint@,
            },
            EmulationEvent::ClipboardReceived(t) => EmulationEventView::ClipboardReceived(t@),
        }
    }
}

/// What capture reports.
#[derive(Debug)]
pub enum CaptureEvent {
    /// Input was captured at a barrier.
    CaptureBegin(ClientHandle),
    /// Capture was disabled.
    CaptureDisabled,
    /// Capture was enabled.
    CaptureEnabled,
    /// The pointer entered a client.
    ClientEntered(ClientHandle),
    /// A client sent its clipboard.
    ClipboardReceived(String),
}

/// Contents of a [`CaptureEvent`].
#[verifier::ext_equal]
pub enum CaptureEventView {
    /// See [`CaptureEvent::CaptureBegin`].
    CaptureBegin(ClientHandle),
    /// See [`CaptureEvent::CaptureDisabled`].
    CaptureDisabled,
    /// See [`CaptureEvent::CaptureEnabled`].
    CaptureEnabled,
    /// See [`CaptureEvent::ClientEntered`].
    ClientEntered(ClientHandle),
    /// See [`CaptureEvent::ClipboardReceived`].
    ClipboardReceived(Seq<char>),
}

impl View for CaptureEvent {
    type V = CaptureEventView;

    open spec fn view(&self) -> CaptureEventView {
        match self {
            CaptureEvent::CaptureBegin(h) => CaptureEventView::CaptureBegin(*h),
            CaptureEvent::CaptureDisabled => CaptureEventView::CaptureDisabled,
            CaptureEvent::CaptureEnabled => CaptureEventView::CaptureEnabled,
            CaptureEvent::ClientEntered(h) => CaptureEventView::ClientEntered(*h),
            CaptureEvent::ClipboardReceived(t) => CaptureEventView::ClipboardReceived(t@),
        }
    }
}

/// What the resolver reports.
#[derive(Debug)]
pub enum DnsEvent {
    /// The hostname of a client is being resolved.
    Resolving(ClientHandle),
    /// The addresses that were found; none where that failed.
    Resolved(ClientHandle, Option<Vec<IpAddr>>),
}

/// Contents of a [`DnsEvent`].
#[verifier::ext_equal]
pub enum DnsEventView {
    /// See [`DnsEvent::Resolving`].
    Resolving(ClientHandle),
    /// See [`DnsEvent::Resolved`].
    Resolved(ClientHandle, Option<Seq<IpAddr>>),
}

impl View for DnsEvent {
    type V = DnsEventView;

    open spec fn view(&self) -> DnsEventView {
        match self {
            DnsEvent::Resolving(h) => DnsEventView::Resolving(*h),
            DnsEvent::Resolved(h, Some(v)) => DnsEventView::Resolved(*h, Some(v@)),
            DnsEvent::Resolved(h, None) => DnsEventView::Resolved(*h, None),
        }
    }
}

// ----- state ----------------------------------------------------------------

/// A device that controls this one.
#[verifier::ext_equal]
pub struct IncomingView {
    /// Handle of its capture barrier.
    pub handle: ClientHandle,
    /// Certificate fingerprint.
    pub fingerprint: Seq<char>,
    /// Address.
    pub addr: SocketAddr,
    /// Side of the screen.
    pub pos: Position,
}

/// State of the service.
#[verifier::ext_equal]
pub struct ServiceView {
    /// Configured clients.
    pub clients: Seq<ClientView>,
    /// Authorized fingerprints with their descriptions.
    pub authorized: Map<Seq<char>, Seq<char>>,
    /// Port of the listener.
    pub port: u16,
    /// Certificate fingerprint of this device.
    pub public_key_fingerprint: Seq<char>,
    /// Whether capture is enabled.
    pub capture_status: Status,
    /// Whether emulation is enabled.
    pub emulation_status: Status,
    /// Devices that control this one.
    pub incoming: Seq<IncomingView>,
    /// Barriers of incoming connections created so far.
    pub next_trigger_handle: u64,
    /// Whether the clipboard is shared.
    pub clipboard: bool,
    /// Oversize clipboard text that awaits a decision.
    pub overflow: Option<Seq<char>>,
    /// Clipboard image that awaits a decision.
    pub image: Option<Seq<u8>>,
    /// Whether this device is announced; `None` where discovery does not run.
    pub discovery: Option<bool>,
    /// Discovered devices, no two with the same hostname.
    pub discovered: Seq<DiscoveredDeviceView>,
    /// Whether the file-transfer service runs.
    pub file_transfer: bool,
    /// Its port.
    pub file_transfer_port: u16,
    /// Offers that await a decision.
    pub offers: Seq<FileOfferView>,
    /// Directory that takes every offer without a prompt, where that is configured.
    pub auto_accept: Option<Seq<char>>,
    /// Settings.
    pub settings: SettingsView,
    /// What is to be done, in order.
    pub effects: Seq<EffectView>,
}

// ----- small steps ----------------------------------------------------------

/// Adds an effect.
pub open spec fn effected(s: ServiceView, e: EffectView) -> ServiceView {
    ServiceView { effects: s.effects.push(e), ..s }
}

/// Tells all frontends.
pub open spec fn notified(s: ServiceView, e: FrontendEventView) -> ServiceView {
    effected(s, EffectView::Notify(e))
}

/// Replaces the clients.
pub open spec fn with_clients(s: ServiceView, clients: Seq<ClientView>) -> ServiceView {
    ServiceView { clients, ..s }
}

/// Whether a client is kept in the configuration file: not the placeholders without hostname
/// and without fixed addresses.
pub open spec fn persisted(c: ClientView) -> bool {
    ||| c.config.hostname is Some && c.config.hostname->0.len() > 0
    ||| c.config.fix_ips.len() > 0
}

/// A client as it goes into the configuration file.
pub open spec fn saved_client(c: ClientView) -> ConfigClientView {
    ConfigClientView {
        ips: client::each_once(c.config.fix_ips),
        hostname: c.config.hostname,
        port: c.config.port,
        pos: c.config.pos,
        active: c.state.active,
        enter_hook: c.config.cmd,
    }
}

/// The clients as they go into the configuration file.
pub open spec fn saved_clients(s: Seq<ClientView>) -> Seq<ConfigClientView>
    decreases s.len(),
{
    if s.len() == 0 {
        Seq::empty()
    } else {
        let front = saved_clients(s.drop_last());
        if persisted(s.last()) {
            front.push(saved_client(s.last()))
        } else {
            front
        }
    }
}

/// Saves the configuration.
#[verifier::opaque]
pub open spec fn config_saved(s: ServiceView) -> ServiceView {
    effected(s, EffectView::SaveConfig(saved_clients(s.clients), s.authorized))
}

/// Reports a client.
#[verifier::opaque]
pub open spec fn client_broadcast(s: ServiceView, h: ClientHandle) -> ServiceView {
    match client::client_with(s.clients, h) {
        Some(c) => notified(s, FrontendEventView::State(c)),
        None => notified(s, FrontendEventView::NoSuchClient(h)),
    }
}

/// Reports all clients.
#[verifier::opaque]
pub open spec fn enumerated(s: ServiceView) -> ServiceView {
    notified(s, FrontendEventView::Enumerate(s.clients))
}

/// Resolves the hostname of a client that has one.
#[verifier::opaque]
pub open spec fn resolved(s: ServiceView, h: ClientHandle) -> ServiceView {
    match client::client_with(s.clients, h) {
        Some(c) => match c.config.hostname {
            Some(n) => effected(s, EffectView::Resolve(h, n)),
            None => s,
        },
        None => s,
    }
}

/// Whether a client is active.
pub open spec fn is_active(clients: Seq<ClientView>, h: ClientHandle) -> bool {
    client::client_with(clients, h) matches Some(c) && c.state.active
}

/// Deactivates a client: an active one loses its barrier.
#[verifier::opaque]
pub open spec fn deactivated(s: ServiceView, h: ClientHandle) -> ServiceView {
    if is_active(s.clients, h) {
        client_broadcast(
            effected(
                with_clients(
                    s,
                    client::changed(s.clients, h, client::active_set(false)),
                ),
                EffectView::CaptureDestroy(h),
            ),
            h,
        )
    } else {
        s
    }
}

/// Deactivates whatever other client is active at a position.
pub open spec fn position_cleared(s: ServiceView, h: ClientHandle, pos: Position) -> ServiceView {
    match client::handle_of(collections::first_where(s.clients, client::active_at(pos))) {
        Some(other) => if other != h {
            deactivated(s, other)
        } else {
            s
        },
        None => s,
    }
}

/// Gives a client its barrier, where it is inactive.
pub open spec fn barrier_created(s: ServiceView, h: ClientHandle, pos: Position) -> ServiceView {
    if client::client_with(s.clients, h) is Some && !is_active(s.clients, h) {
        client_broadcast(
            effected(
                with_clients(s, client::changed(s.clients, h, client::active_set(true))),
                EffectView::CaptureCreate(h, pos, CaptureType::Default),
            ),
            h,
        )
    } else {
        s
    }
}

/// Activates a client: its hostname is resolved, another client at its position is
/// deactivated, and it gets a barrier.
#[verifier::opaque]
pub open spec fn activated(s: ServiceView, h: ClientHandle) -> ServiceView {
    let s1 = resolved(s, h);
    match client::client_with(s1.clients, h) {
        Some(c) => barrier_created(position_cleared(s1, h, c.config.pos), h, c.config.pos),
        None => s1,
    }
}

/// Authorizes a fingerprint.
#[verifier::opaque]
pub open spec fn key_added(s: ServiceView, desc: Seq<char>, fp: Seq<char>) -> ServiceView {
    let authorized = s.authorized.insert(fp, desc);
    notified(
        ServiceView { authorized, ..s },
        FrontendEventView::AuthorizedUpdated(authorized),
    )
}

/// Takes an authorization back.
#[verifier::opaque]
pub open spec fn key_removed(s: ServiceView, fp: Seq<char>) -> ServiceView {
    let authorized = s.authorized.remove(fp);
    notified(
        ServiceView { authorized, ..s },
        FrontendEventView::AuthorizedUpdated(authorized),
    )
}

/// Whether a client has a hostname.
pub open spec fn has_hostname(hostname: Seq<char>) -> spec_fn(ClientView) -> bool {
    |c: ClientView| c.config.hostname == Some(hostname)
}

/// Whether some client has a hostname.
pub open spec fn hostname_taken(s: ServiceView, hostname: Seq<char>) -> bool {
    collections::first_where(s.clients, has_hostname(hostname)) is Some
}

/// Whether a device has a hostname.
pub open spec fn device_named(hostname: Seq<char>) -> spec_fn(DiscoveredDeviceView) -> bool {
    |d: DiscoveredDeviceView| d.hostname == hostname
}

// ----- incoming connections -------------------------------------------------

/// Whether a connection has an address.
pub open spec fn incoming_at(addr: SocketAddr) -> spec_fn(IncomingView) -> bool {
    |i: IncomingView| i.addr == addr
}

/// Whether a connection comes from an IP address.
pub open spec fn incoming_from(ip: IpAddr) -> spec_fn(IncomingView) -> bool {
    |i: IncomingView| i.addr.ip == ip
}

/// Whether a connection has a handle.
pub open spec fn incoming_with(h: ClientHandle) -> spec_fn(IncomingView) -> bool {
    |i: IncomingView| i.handle == h
}

/// Registers a connection with a barrier of its own.
pub open spec fn incoming_added(
    s: ServiceView,
    addr: SocketAddr,
    pos: Position,
    fingerprint: Seq<char>,
) -> ServiceView {
    let handle = (ENTER_HANDLE_BEGIN + s.next_trigger_handle) as u64;
    let s1 = effected(s, EffectView::CaptureCreate(handle, pos, CaptureType::EnterOnly));
    ServiceView {
        next_trigger_handle: (s.next_trigger_handle + 1) as u64,
        incoming: s.incoming.push(IncomingView { handle, fingerprint, addr, pos }),
        ..s1
    }
}

/// Drops a connection with its barrier.
pub open spec fn incoming_removed(s: ServiceView, addr: SocketAddr) -> ServiceView {
    match collections::first_where(s.incoming, incoming_at(addr)) {
        Some(i) => {
            let s1 = effected(s, EffectView::CaptureDestroy(i.handle));
            ServiceView {
                incoming: collections::without_first(s.incoming, incoming_at(addr)),
                ..s1
            }
        },
        None => s,
    }
}

/// A device enters: a new connection is registered; one that entered with another fingerprint
/// or elsewhere is registered anew.
pub open spec fn device_entered(
    s: ServiceView,
    addr: SocketAddr,
    pos: Position,
    fingerprint: Seq<char>,
) -> ServiceView {
    let entered = FrontendEventView::DeviceEntered { fingerprint, addr, pos };
    match collections::first_where(s.incoming, incoming_at(addr)) {
        None => notified(incoming_added(s, addr, pos, fingerprint), entered),
        Some(i) => if i.fingerprint != fingerprint || i.pos != pos {
            notified(
                notified(
                    incoming_added(incoming_removed(s, addr), addr, pos, fingerprint),
                    FrontendEventView::IncomingDisconnected(addr),
                ),
                entered,
            )
        } else {
            s
        },
    }
}

// ----- requests -------------------------------------------------------------

/// Removes a client, with its barrier; a discovered device of its name is shown again.
#[verifier::opaque]
pub open spec fn client_removed(s: ServiceView, h: ClientHandle) -> ServiceView {
    let found = client::client_with(s.clients, h);
    let s1 = with_clients(s, client::removed(s.clients, h));
    let s2 = if is_active(s.clients, h) {
        effected(s1, EffectView::CaptureDestroy(h))
    } else {
        s1
    };
    let s3 = notified(s2, FrontendEventView::Deleted(h));
    match found {
        Some(c) => match c.config.hostname {
            Some(n) => if hostname_taken(s3, n) {
                s3
            } else {
                match collections::first_where(s3.discovered, device_named(n)) {
                    Some(d) => notified(s3, FrontendEventView::DiscoveredDevice(d)),
                    None => s3,
                }
            },
            None => s3,
        },
        None => s3,
    }
}

/// Adds a client.
#[verifier::opaque]
pub open spec fn client_added(s: ServiceView) -> ServiceView {
    let clients = client::added(s.clients, ipc::default_config(), ipc::default_state());
    let h = client::free_handle(s.clients) as u64;
    notified(
        with_clients(s, clients),
        FrontendEventView::Created(
            ClientView { handle: h, config: ipc::default_config(), state: ipc::default_state() },
        ),
    )
}

/// Changes a hostname; one that is an address is used as the fixed address, another one is
/// resolved where it is new.
#[verifier::opaque]
pub open spec fn hostname_updated(
    s: ServiceView,
    h: ClientHandle,
    hostname: Option<Seq<char>>,
    ip: Option<IpAddr>,
) -> ServiceView {
    let clients = client::changed(s.clients, h, client::hostname_set(hostname));
    let new = client::client_with(s.clients, h) matches Some(c) && c.config.hostname != hostname;
    if hostname is Some && ip is Some {
        client_broadcast(
            with_clients(s, client::changed(clients, h, client::fix_ips_set(seq![ip->0]))),
            h,
        )
    } else if new {
        client_broadcast(resolved(with_clients(s, clients), h), h)
    } else {
        client_broadcast(with_clients(s, clients), h)
    }
}

/// Changes a position; an active client moves its barrier.
#[verifier::opaque]
pub open spec fn pos_updated(s: ServiceView, h: ClientHandle, pos: Position) -> ServiceView {
    let moves = client::client_with(s.clients, h) matches Some(c) && c.config.pos != pos
        && c.state.active;
    let s1 = with_clients(s, client::changed(s.clients, h, client::pos_set(pos)));
    client_broadcast(
        if moves {
            activated(deactivated(s1, h), h)
        } else {
            s1
        },
        h,
    )
}

/// Changes the port of the listener, or reports that it stays.
#[verifier::opaque]
pub open spec fn port_changed(s: ServiceView, port: u16) -> ServiceView {
    if s.port != port {
        effected(s, EffectView::RequestPortChange(port))
    } else {
        notified(s, FrontendEventView::PortChanged(s.port, None))
    }
}

/// Reports the first `n` offers that await a decision.
pub open spec fn offers_replayed(s: ServiceView, offers: Seq<FileOfferView>, n: nat) -> ServiceView
    decreases n,
{
    if n == 0 || n > offers.len() {
        s
    } else {
        notified(
            offers_replayed(s, offers, (n - 1) as nat),
            FrontendEventView::FileOfferIncoming(offers[n - 1]),
        )
    }
}

/// Reports everything to the frontends.
#[verifier::opaque]
pub open spec fn synced(s: ServiceView) -> ServiceView {
    let s1 = enumerated(s);
    let s2 = notified(s1, FrontendEventView::EmulationStatus(s.emulation_status));
    let s3 = notified(s2, FrontendEventView::CaptureStatus(s.capture_status));
    let s4 = notified(s3, FrontendEventView::PortChanged(s.port, None));
    let s5 = notified(s4, FrontendEventView::PublicKeyFingerprint(s.public_key_fingerprint));
    let s6 = notified(s5, FrontendEventView::AuthorizedUpdated(s.authorized));
    let s7 = notified(s6, FrontendEventView::SettingsChanged(s.settings));
    let s8 = notified(
        s7,
        FrontendEventView::DiscoverableChanged(s.settings.discoverable_on_startup),
    );
    offers_replayed(s8, s.offers, s.offers.len())
}

/// Adds a discovered device as a client, authorizes and activates it.
#[verifier::opaque]
pub open spec fn device_accepted(s: ServiceView, d: DiscoveredDeviceView) -> ServiceView {
    let s1 = key_added(s, d.hostname, d.fingerprint);
    let h = client::free_handle(s1.clients) as u64;
    let c1 = client::added(s1.clients, ipc::default_config(), ipc::default_state());
    let c2 = client::changed(c1, h, client::hostname_set(Some(d.hostname)));
    let c3 = client::changed(c2, h, client::port_set(d.port));
    let c4 = client::changed(c3, h, client::pos_set(d.position));
    let c5 = if d.addrs.len() > 0 {
        client::changed(c4, h, client::fix_ips_set(d.addrs))
    } else {
        c4
    };
    let s2 = with_clients(s1, c5);
    let s3 = match client::client_with(c5, h) {
        Some(c) => notified(s2, FrontendEventView::Created(c)),
        None => s2,
    };
    notified(
        config_saved(activated(s3, h)),
        FrontendEventView::DeviceLost { hostname: d.hostname },
    )
}

/// Switches the announcement of this device, for this session only.
#[verifier::opaque]
pub open spec fn discoverable_set(s: ServiceView, discoverable: bool) -> ServiceView {
    let s1 = if s.discovery is Some {
        effected(
            ServiceView { discovery: Some(discoverable), ..s },
            EffectView::SetDiscoverable(discoverable),
        )
    } else {
        s
    };
    notified(s1, FrontendEventView::DiscoverableChanged(discoverable))
}

/// Changes the settings. The keys that release the mouse are not among what frontends change:
/// they stay those of the configuration file.
#[verifier::opaque]
pub open spec fn settings_updated(s: ServiceView, settings: SettingsView) -> ServiceView {
    let kept = SettingsView { release_bind: s.settings.release_bind, ..settings };
    notified(
        effected(ServiceView { settings: kept, ..s }, EffectView::WriteSettings(settings)),
        FrontendEventView::SettingsChanged(settings),
    )
}

// ----- file transfers -------------------------------------------------------

/// Whether an offer has a number.
pub open spec fn offer_with(xfer_id: u64) -> spec_fn(FileOfferView) -> bool {
    |o: FileOfferView| o.xfer_id == xfer_id
}

/// Forgets an offer.
pub open spec fn offer_dropped(s: ServiceView, xfer_id: u64) -> ServiceView {
    ServiceView { offers: collections::without_first(s.offers, offer_with(xfer_id)), ..s }
}

/// The decision as the file-transfer service takes it.
pub open spec fn transfer_decision(d: FileDecisionView) -> DecisionView {
    match d {
        FileDecisionView::Accept { dest_dir } => DecisionView::Accept { dest_dir },
        FileDecisionView::Decline => DecisionView::Decline,
    }
}

/// The result as the frontends take it.
pub open spec fn frontend_result(r: file_transfer::TransferResultView) -> ipc::TransferResultView {
    match r {
        file_transfer::TransferResultView::Done { destination } => ipc::TransferResultView::Done {
            destination,
        },
        file_transfer::TransferResultView::Cancelled => ipc::TransferResultView::Cancelled,
        file_transfer::TransferResultView::Error(e) => ipc::TransferResultView::Error(e),
    }
}

/// The user answers an offer.
#[verifier::opaque]
pub open spec fn offer_answered(s: ServiceView, xfer_id: u64, d: FileDecisionView) -> ServiceView {
    let s1 = offer_dropped(s, xfer_id);
    if s.file_transfer {
        effected(
            s1,
            EffectView::Transfer(
                CommandView::RespondOffer { xfer_id, decision: transfer_decision(d) },
            ),
        )
    } else {
        s1
    }
}

/// Whether a client is known by an IP address: by its active one, or by one of its others.
pub open spec fn known_by(ip: IpAddr) -> spec_fn(ClientView) -> bool {
    |c: ClientView|
        (c.state.active_addr matches Some(a) && a.ip == ip) || c.state.ips.contains(ip)
}

/// The handle of the first client that is known by an IP address; 0 where there is none.
pub open spec fn client_from(s: ServiceView, ip: IpAddr) -> ClientHandle {
    match collections::first_where(s.clients, known_by(ip)) {
        Some(c) => c.handle,
        None => 0,
    }
}

/// An offer comes in: it is accepted where that is configured, else shown and kept until it is
/// answered or over.
pub open spec fn offer_received(s: ServiceView, o: FileOfferView) -> ServiceView {
    match s.auto_accept {
        Some(dest_dir) => effected(
            s,
            EffectView::Transfer(
                CommandView::RespondOffer {
                    xfer_id: o.xfer_id,
                    decision: DecisionView::Accept { dest_dir },
                },
            ),
        ),
        None => {
            let s1 = offer_dropped(s, o.xfer_id);
            notified(
                ServiceView { offers: s1.offers.push(o), ..s1 },
                FrontendEventView::FileOfferIncoming(o),
            )
        },
    }
}

/// The file-transfer service reports.
pub open spec fn transfer_reported(s: ServiceView, e: EventView) -> ServiceView {
    match e {
        EventView::IncomingOffer {
            xfer_id,
            peer_addr,
            peer_fingerprint,
            root_name,
            entries,
            total_bytes,
        } => offer_received(
            s,
            FileOfferView {
                xfer_id,
                client: client_from(s, peer_addr.ip),
                root_name,
                entries,
                total_bytes,
                fingerprint: peer_fingerprint,
            },
        ),
        EventView::Progress { xfer_id, bytes, total, entries_done, entries_total, current_entry } => {
            notified(
                s,
                FrontendEventView::FileTransferProgress {
                    xfer_id,
                    bytes,
                    total,
                    entries_done,
                    entries_total,
                    current_entry,
                },
            )
        },
        EventView::Finished { xfer_id, result } => notified(
            offer_dropped(s, xfer_id),
            FrontendEventView::FileTransferFinished { xfer_id, result: frontend_result(result) },
        ),
        EventView::ClipboardReceived { peer_addr: _, content } => match text::utf8_text(content) {
            Some(t) => if s.clipboard {
                effected(s, EffectView::SetClipboard(t))
            } else {
                s
            },
            None => s,
        },
    }
}

/// The address of the client at an edge: the active address of the first active client there
/// that has one, else the first known address of the last active client there.
pub open spec fn edge_address(
    clients: Seq<ClientView>,
    pos: Position,
    found: Option<SocketAddr>,
) -> Option<SocketAddr>
    decreases clients.len(),
{
    if clients.len() == 0 {
        found
    } else {
        let c = clients[0];
        let rest = clients.skip(1);
        if c.config.pos != pos || !c.state.active {
            edge_address(rest, pos, found)
        } else if c.state.active_addr is Some {
            c.state.active_addr
        } else if c.state.ips.len() > 0 {
            edge_address(rest, pos, Some(net::addr_at(c.state.ips[0], c.config.port)))
        } else {
            edge_address(rest, pos, found)
        }
    }
}

/// Where a transfer to an address goes: the file-transfer port there, under the fingerprint that
/// a connection from there has shown.
pub open spec fn transfer_target(s: ServiceView, addr: Option<SocketAddr>) -> Option<
    (SocketAddr, Seq<char>),
> {
    match addr {
        Some(a) => match collections::first_where(s.incoming, incoming_from(a.ip)) {
            Some(i) => Some((net::addr_at(a.ip, s.file_transfer_port), i.fingerprint)),
            None => None,
        },
        None => None,
    }
}

/// The edges at which there is a client.
pub open spec fn client_edges(clients: Seq<ClientView>) -> EdgeSet
    decreases clients.len(),
{
    if clients.len() == 0 {
        EdgeSet { left: false, right: false, top: false, bottom: false }
    } else {
        client_edges(clients.drop_last()).with(clients.last().config.pos)
    }
}

/// Something happens at a drop zone: what is dropped is sent, the rest is advisory.
pub open spec fn drop_event_taken(s: ServiceView, e: FileDropEventView) -> ServiceView {
    match e {
        FileDropEventView::Dropped { position, paths } => paths_dropped(s, position, paths),
        FileDropEventView::DragEndedEarly { position, paths } => paths_dropped(
            s,
            position,
            paths,
        ),
        _ => s,
    }
}

/// Where a file dropped at an edge goes.
pub open spec fn drop_target(s: ServiceView, pos: Position) -> Option<(SocketAddr, Seq<char>)> {
    transfer_target(s, edge_address(s.clients, pos, None))
}

/// Sends the first `n` paths.
pub open spec fn paths_sent(
    s: ServiceView,
    target: (SocketAddr, Seq<char>),
    paths: Seq<Seq<char>>,
    n: nat,
) -> ServiceView
    decreases n,
{
    if n == 0 || n > paths.len() {
        s
    } else {
        effected(
            paths_sent(s, target, paths, (n - 1) as nat),
            EffectView::Transfer(
                CommandView::SendPath {
                    target_addr: target.0,
                    target_fingerprint: target.1,
                    root: paths[n - 1],
                },
            ),
        )
    }
}

/// Paths are dropped at an edge.
pub open spec fn paths_dropped(s: ServiceView, pos: Position, paths: Seq<Seq<char>>) -> ServiceView {
    if paths.len() == 0 || !s.file_transfer {
        s
    } else {
        match drop_target(s, pos) {
            Some(t) => paths_sent(s, t, paths, paths.len()),
            None => s,
        }
    }
}

/// The address that a client is known by: its active one, else its first with port 0.
pub open spec fn known_address(c: ClientView) -> Option<SocketAddr> {
    if c.state.active_addr is Some {
        c.state.active_addr
    } else if c.state.ips.len() > 0 {
        Some(net::addr_at(c.state.ips[0], 0))
    } else {
        None
    }
}

/// Where a transfer to the active client goes.
pub open spec fn active_target(s: ServiceView) -> Option<(SocketAddr, Seq<char>)> {
    match collections::first_where(s.clients, client::active_client()) {
        Some(c) => transfer_target(s, known_address(c)),
        None => None,
    }
}

/// The handle of the active client; 0 where there is none.
pub open spec fn active_handle(s: ServiceView) -> ClientHandle {
    match collections::first_where(s.clients, client::active_client()) {
        Some(c) => c.handle,
        None => 0,
    }
}

/// A file is sent to a client.
#[verifier::opaque]
pub open spec fn file_sent(s: ServiceView, h: ClientHandle, path: Seq<char>) -> ServiceView {
    match client::client_with(s.clients, h) {
        Some(c) => match transfer_target(s, known_address(c)) {
            Some(t) => if s.file_transfer {
                paths_sent(s, t, seq![path], 1)
            } else {
                s
            },
            None => s,
        },
        None => s,
    }
}

// ----- clipboard ------------------------------------------------------------

/// Sends a text inline to every connected device.
pub open spec fn text_shared(s: ServiceView, t: Seq<char>) -> ServiceView {
    let data = clipboard::clipboard_msg(t);
    effected(
        effected(s, EffectView::SendClipboardToControllers(data)),
        EffectView::SendClipboardToClients(data),
    )
}

/// The first characters of a text.
pub open spec fn preview_of(t: Seq<char>) -> Seq<char> {
    if t.len() <= PREVIEW_CHARS {
        t
    } else {
        t.take(PREVIEW_CHARS as int)
    }
}

/// The clipboard changed: text that fits is shared, anything else waits for a decision.
pub open spec fn clipboard_changed(s: ServiceView, c: ClipboardChangeView) -> ServiceView {
    match c {
        ClipboardChangeView::Text(t) => text_shared(s, t),
        ClipboardChangeView::OversizeText { content } => notified(
            ServiceView { overflow: Some(content), ..s },
            FrontendEventView::ClipboardOverflow {
                client: active_handle(s),
                bytes: text::utf8_len(content) as u64,
                preview: preview_of(content),
            },
        ),
        ClipboardChangeView::ImagePng { png, width, height } => notified(
            ServiceView { image: Some(png), ..s },
            FrontendEventView::ClipboardImageDetected {
                client: active_handle(s),
                bytes: png.len() as u64,
                width,
                height,
            },
        ),
    }
}

/// Bytes go to the active client as a file.
pub open spec fn sent_as_file(s: ServiceView, content: Seq<u8>, ext: Seq<char>) -> ServiceView {
    if !s.file_transfer {
        s
    } else {
        match active_target(s) {
            Some((target_addr, fingerprint)) => effected(
                s,
                EffectView::SendAsFile { content, ext, target_addr, fingerprint },
            ),
            None => s,
        }
    }
}

/// Notes a text as the one on the clipboard, where the clipboard is watched.
pub open spec fn text_noted(s: ServiceView, t: Seq<char>) -> ServiceView {
    if s.clipboard {
        effected(s, EffectView::NoteClipboard(t))
    } else {
        s
    }
}

/// The user decides on an oversize text. One that is not sent as a file stays on the clipboard of
/// this device; it is noted, so that it does not look new from then on.
#[verifier::opaque]
pub open spec fn overflow_answered(s: ServiceView, d: ClipboardOverflowDecision) -> ServiceView {
    let s1 = ServiceView { overflow: None, ..s };
    match s.overflow {
        None => s,
        Some(content) => match d {
            ClipboardOverflowDecision::Send => sent_as_file(
                s1,
                vstd::utf8::encode_utf8(content),
                "txt"@,
            ),
            ClipboardOverflowDecision::Truncate => {
                let t = text::fitting_prefix(content, MAX_CLIPBOARD_SIZE as nat);
                let s2 = text_shared(s1, t);
                text_noted(s2, content)
            },
            ClipboardOverflowDecision::Ignore => text_noted(s1, content),
        },
    }
}

/// The user decides on an image.
#[verifier::opaque]
pub open spec fn image_answered(s: ServiceView, d: ClipboardImageDecision) -> ServiceView {
    let s1 = ServiceView { image: None, ..s };
    match s.image {
        None => s,
        Some(png) => match d {
            ClipboardImageDecision::Send => sent_as_file(s1, png, "png"@),
            ClipboardImageDecision::Skip => s1,
        },
    }
}

// ----- the handlers ---------------------------------------------------------

/// A frontend asks; `ip` is the address that a hostname in the request denotes, where it denotes
/// one.
pub open spec fn requested(s: ServiceView, r: FrontendRequestView, ip: Option<IpAddr>) -> ServiceView {
    match r {
        FrontendRequestView::Activate(h, active) => config_saved(
            if active {
                activated(s, h)
            } else {
                deactivated(s, h)
            },
        ),
        FrontendRequestView::AuthorizeKey(desc, fp) => config_saved(key_added(s, desc, fp)),
        FrontendRequestView::ChangePort(port) => port_changed(s, port),
        FrontendRequestView::Create => config_saved(client_added(s)),
        FrontendRequestView::Delete(h) => config_saved(client_removed(s, h)),
        FrontendRequestView::EnableCapture => effected(s, EffectView::CaptureReenable),
        FrontendRequestView::EnableEmulation => effected(s, EffectView::EmulationReenable),
        FrontendRequestView::Enumerate => enumerated(s),
        FrontendRequestView::UpdateFixIps(h, ips) => config_saved(
            client_broadcast(
                with_clients(s, client::changed(s.clients, h, client::fix_ips_set(ips))),
                h,
            ),
        ),
        FrontendRequestView::UpdateHostname(h, n) => config_saved(hostname_updated(s, h, n, ip)),
        FrontendRequestView::UpdatePort(h, port) => config_saved(
            client_broadcast(
                with_clients(s, client::changed(s.clients, h, client::port_set(port))),
                h,
            ),
        ),
        FrontendRequestView::UpdatePosition(h, pos) => config_saved(pos_updated(s, h, pos)),
        FrontendRequestView::ResolveDns(h) => resolved(s, h),
        FrontendRequestView::Sync => synced(s),
        FrontendRequestView::RemoveAuthorizedKey(fp) => config_saved(key_removed(s, fp)),
        FrontendRequestView::UpdateEnterHook(h, cmd) => client_broadcast(
            with_clients(s, client::changed(s.clients, h, client::cmd_set(cmd))),
            h,
        ),
        FrontendRequestView::SaveConfiguration => config_saved(s),
        FrontendRequestView::AcceptDiscoveredDevice(d) => device_accepted(s, d),
        FrontendRequestView::SetDiscoverable(b) => discoverable_set(s, b),
        FrontendRequestView::UpdateSettings(settings) => settings_updated(s, settings),
        FrontendRequestView::RespondFileOffer { xfer_id, decision } => offer_answered(
            s,
            xfer_id,
            decision,
        ),
        FrontendRequestView::RespondClipboardOverflow { client: _, decision } => {
            overflow_answered(s, decision)
        },
        FrontendRequestView::RespondClipboardImage { client: _, decision } => image_answered(
            s,
            decision,
        ),
        FrontendRequestView::SendFile { client, path } => file_sent(s, client, path),
    }
}

/// Emulation reports.
pub open spec fn emulation_reported(s: ServiceView, e: EmulationEventView) -> ServiceView {
    match e {
        EmulationEventView::ConnectionAttempt { fingerprint } => {
            let s1 = if s.discovery == Some(true) {
                config_saved(key_added(s, "discovered-peer"@, fingerprint))
            } else {
                s
            };
            notified(s1, FrontendEventView::ConnectionAttempt { fingerprint })
        },
        EmulationEventView::Entered { addr, pos, fingerprint } => device_entered(
            s,
            addr,
            pos,
            fingerprint,
        ),
        EmulationEventView::Disconnected { addr } => {
            if collections::first_where(s.incoming, incoming_at(addr)) is Some {
                notified(
                    incoming_removed(s, addr),
                    FrontendEventView::IncomingDisconnected(addr),
                )
            } else {
                s
            }
        },
        EmulationEventView::PortChanged(Ok(port)) => notified(
            ServiceView { port, ..s },
            FrontendEventView::PortChanged(port, None),
        ),
        EmulationEventView::PortChanged(Err(e)) => notified(
            s,
            FrontendEventView::PortChanged(s.port, Some(e)),
        ),
        EmulationEventView::EmulationDisabled => notified(
            ServiceView { emulation_status: Status::Disabled, ..s },
            FrontendEventView::EmulationStatus(Status::Disabled),
        ),
        EmulationEventView::EmulationEnabled => notified(
            ServiceView { emulation_status: Status::Enabled, ..s },
            FrontendEventView::EmulationStatus(Status::Enabled),
        ),
        EmulationEventView::ReleaseNotify => effected(s, EffectView::CaptureRelease),
        EmulationEventView::Connected { addr, fingerprint } => notified(
            s,
            FrontendEventView::DeviceConnected { addr, fingerprint },
        ),
        EmulationEventView::ClipboardReceived(t) => if s.clipboard {
            effected(s, EffectView::SetClipboard(t))
        } else {
            s
        },
    }
}

/// Capture reports; `current` is the text on the clipboard, which a client that is entered gets
/// where it fits the inline cap.
pub open spec fn capture_reported(s: ServiceView, e: CaptureEventView, current: Seq<char>) -> ServiceView {
    match e {
        CaptureEventView::CaptureBegin(h) => match collections::first_where(
            s.incoming,
            incoming_with(h),
        ) {
            Some(i) => effected(s, EffectView::SendLeave(i.addr)),
            None => s,
        },
        CaptureEventView::CaptureDisabled => notified(
            ServiceView { capture_status: Status::Disabled, ..s },
            FrontendEventView::CaptureStatus(Status::Disabled),
        ),
        CaptureEventView::CaptureEnabled => notified(
            ServiceView { capture_status: Status::Enabled, ..s },
            FrontendEventView::CaptureStatus(Status::Enabled),
        ),
        CaptureEventView::ClientEntered(h) => {
            let s1 = match client::client_with(s.clients, h) {
                Some(c) => match c.config.cmd {
                    Some(cmd) => effected(s, EffectView::SpawnHook(cmd)),
                    None => s,
                },
                None => s,
            };
            if s.clipboard && 0 < text::utf8_len(current) <= MAX_CLIPBOARD_SIZE {
                effected(
                    s1,
                    EffectView::SendClipboardToClients(clipboard::clipboard_msg(current)),
                )
            } else {
                s1
            }
        },
        CaptureEventView::ClipboardReceived(t) => if s.clipboard {
            effected(s, EffectView::SetClipboard(t))
        } else {
            s
        },
    }
}

/// The resolver reports; a failure leaves no addresses.
pub open spec fn dns_reported(s: ServiceView, e: DnsEventView) -> ServiceView {
    match e {
        DnsEventView::Resolving(h) => client_broadcast(
            with_clients(s, client::changed(s.clients, h, client::resolving_set(true))),
            h,
        ),
        DnsEventView::Resolved(h, ips) => {
            let c1 = client::changed(s.clients, h, client::resolving_set(false));
            let found = match ips {
                Some(v) => v,
                None => Seq::empty(),
            };
            client_broadcast(
                with_clients(s, client::changed(c1, h, client::dns_ips_set(found))),
                h,
            )
        },
    }
}

/// Discovery reports. A device is authorized, remembered, and shown unless a client has its
/// hostname; a lost device is forgotten.
pub open spec fn discovery_reported(s: ServiceView, e: FrontendEventView) -> ServiceView {
    match e {
        FrontendEventView::DiscoveredDevice(d) => {
            let s1 = if d.fingerprint.len() > 0 && !s.authorized.dom().contains(d.fingerprint) {
                config_saved(key_added(s, d.hostname, d.fingerprint))
            } else {
                s
            };
            let s2 = ServiceView {
                discovered: collections::without_first(
                    s1.discovered,
                    device_named(d.hostname),
                ).push(d),
                ..s1
            };
            if hostname_taken(s2, d.hostname) {
                s2
            } else {
                notified(s2, e)
            }
        },
        FrontendEventView::DeviceLost { hostname } => notified(
            ServiceView {
                discovered: collections::without_first(s.discovered, device_named(hostname)),
                ..s
            },
            e,
        ),
        _ => notified(s, e),
    }
}

/// The clients with these handles are removed, in order.
pub open spec fn all_removed(s: ServiceView, handles: Seq<ClientHandle>) -> ServiceView
    decreases handles.len(),
{
    if handles.len() == 0 {
        s
    } else {
        client_removed(all_removed(s, handles.drop_last()), handles.last())
    }
}

/// A configured client is added, and activated where it is configured as active; it is reported
/// as configured.
pub open spec fn config_added(s: ServiceView, c: ConfigClientView) -> ServiceView {
    let h = client::free_handle(s.clients) as u64;
    let s1 = with_clients(s, client::added_config(s.clients, c));
    match client::client_with(s1.clients, h) {
        Some(found) => {
            let s2 = if found.state.active {
                activated(
                    with_clients(
                        s1,
                        client::changed(s1.clients, h, client::active_set(false)),
                    ),
                    h,
                )
            } else {
                s1
            };
            notified(s2, FrontendEventView::Created(found))
        },
        None => s1,
    }
}

/// Configured clients are added, in order.
pub open spec fn configs_added(s: ServiceView, cs: Seq<ConfigClientView>) -> ServiceView
    decreases cs.len(),
{
    if cs.len() == 0 {
        s
    } else {
        config_added(configs_added(s, cs.drop_last()), cs.last())
    }
}

/// What is read again from a configuration file that has changed.
#[verifier::ext_equal]
pub struct ConfigFileView {
    /// Configured clients.
    pub clients: Seq<ConfigClientView>,
    /// Authorized fingerprints.
    pub authorized: Map<Seq<char>, Seq<char>>,
    /// Settings.
    pub settings: SettingsView,
    /// Port of the file-transfer service.
    pub file_transfer_port: u16,
    /// Directory that takes every offer without a prompt, where that is configured.
    pub auto_accept: Option<Seq<char>>,
}

/// The configuration file changed: clients, release keys, authorized keys and settings are taken
/// from it, and everything is reported.
pub open spec fn config_changed(s: ServiceView, c: ConfigFileView) -> ServiceView {
    let s1 = all_removed(s, client::handles_where(s.clients, client::any_client()));
    let s2 = configs_added(s1, c.clients);
    let s3 = effected(s2, EffectView::SetReleaseBind(c.settings.release_bind));
    synced(
        ServiceView {
            authorized: c.authorized,
            settings: c.settings,
            file_transfer_port: c.file_transfer_port,
            auto_accept: c.auto_accept,
            ..s3
        },
    )
}

/// The clients with these handles are marked inactive, in order.
pub open spec fn all_inactive(clients: Seq<ClientView>, handles: Seq<ClientHandle>) -> Seq<ClientView>
    decreases handles.len(),
{
    if handles.len() == 0 {
        clients
    } else {
        client::changed(
            all_inactive(clients, handles.drop_last()),
            handles.last(),
            client::active_set(false),
        )
    }
}

/// The clients with these handles are activated, in order.
pub open spec fn all_activated(s: ServiceView, handles: Seq<ClientHandle>) -> ServiceView
    decreases handles.len(),
{
    if handles.len() == 0 {
        s
    } else {
        activated(all_activated(s, handles.drop_last()), handles.last())
    }
}

/// The service starts to run: the clients that are configured as active get their barriers.
pub open spec fn started(s: ServiceView) -> ServiceView {
    let active = client::handles_where(s.clients, client::active_client());
    all_activated(with_clients(s, all_inactive(s.clients, active)), active)
}

} // verus!

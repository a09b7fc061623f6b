//! Messages between the service and its frontends.
use crate::collections::StrMap;
use crate::file_transfer::paths;
use crate::net::{clone_ips, IpAddr, SocketAddr};
use crate::text;
use vstd::prelude::*;

verus! {

/// Port of the input channel where none is configured.
pub const DEFAULT_PORT: u16 = 4242;

/// Number of a client.
pub type ClientHandle = u64;

// ----- position -------------------------------------------------------------

/// Side of the screen at which a client stands.
#[derive(Clone, Copy, PartialEq, Eq, Structural, Hash, Debug)]
pub enum Position {
    /// Left.
    Left,
    /// Right.
    Right,
    /// Top.
    Top,
    /// Bottom.
    Bottom,
}

impl Default for Position {
    fn default() -> (r: Position)
        ensures
            r == Position::Left,
    {
        Position::Left
    }
}

/// The other side of the screen.
pub open spec fn opposite_of(p: Position) -> Position {
    match p {
        Position::Left => Position::Right,
        Position::Right => Position::Left,
        Position::Top => Position::Bottom,
        Position::Bottom => Position::Top,
    }
}

/// The name of a position.
pub open spec fn position_name(p: Position) -> Seq<char> {
    match p {
        Position::Left => "left"@,
        Position::Right => "right"@,
        Position::Top => "top"@,
        Position::Bottom => "bottom"@,
    }
}

/// The position with a name.
pub open spec fn position_named(s: Seq<char>) -> Option<Position> {
    if s == "left"@ {
        Some(Position::Left)
    } else if s == "right"@ {
        Some(Position::Right)
    } else if s == "top"@ {
        Some(Position::Top)
    } else if s == "bottom"@ {
        Some(Position::Bottom)
    } else {
        None
    }
}

/// A text that names no position.
#[derive(Debug)]
pub struct PositionParseError {
    pos: String,
}

impl PositionParseError {
    /// The text that was read.
    pub closed spec fn text(&self) -> Seq<char> {
        self.pos@
    }

    /// What is wrong.
    pub fn message(&self) -> (r: String)
        ensures
            r@ == "not a valid position: "@ + self.text(),
    {
        text::concat2("not a valid position: ", self.pos.as_str())
    }
}

impl Position {
    /// The other side of the screen.
    pub fn opposite(&self) -> (r: Position)
        ensures
            r == opposite_of(*self),
    {
        match self {
            Position::Left => Position::Right,
            Position::Right => Position::Left,
            Position::Top => Position::Bottom,
            Position::Bottom => Position::Top,
        }
    }

    /// The position with a name.
    pub fn parse(s: &str) -> (r: Result<Position, PositionParseError>)
        ensures
            match r {
                Ok(p) => position_named(s@) == Some(p),
                Err(e) => position_named(s@) is None && e.text() == s@,
            },
    {
        if text::str_eq(s, "left") {
            Ok(Position::Left)
        } else if text::str_eq(s, "right") {
            Ok(Position::Right)
        } else if text::str_eq(s, "top") {
            Ok(Position::Top)
        } else if text::str_eq(s, "bottom") {
            Ok(Position::Bottom)
        } else {
            Err(PositionParseError { pos: s.to_owned() })
        }
    }

    /// The name of the position.
    pub fn name(&self) -> (r: &'static str)
        ensures
            r@ == position_name(*self),
    {
        match self {
            Position::Left => "left",
            Position::Right => "right",
            Position::Top => "top",
            Position::Bottom => "bottom",
        }
    }
}

impl std::str::FromStr for Position {
    type Err = PositionParseError;

    fn from_str(s: &str) -> (r: Result<Position, PositionParseError>)
        ensures
            match r {
                Ok(p) => position_named(s@) == Some(p),
                Err(e) => position_named(s@) is None && e.text() == s@,
            },
    {
        Position::parse(s)
    }
}

impl TryFrom<&str> for Position {
    type Error = ();

    fn try_from(s: &str) -> (r: Result<Position, ()>) {
        match Position::parse(s) {
            Ok(p) => Ok(p),
            Err(_) => Err(()),
        }
    }
}

impl vstd::std_specs::convert::TryFromSpecImpl<&str> for Position {
    open spec fn obeys_try_from_spec() -> bool {
        true
    }

    open spec fn try_from_spec(s: &str) -> Result<Position, ()> {
        match position_named(s@) {
            Some(p) => Ok(p),
            None => Err(()),
        }
    }
}

/// The opposite of the opposite is where one started, and never the side itself.
pub proof fn law_opposite_is_involution(p: Position)
    ensures
        opposite_of(opposite_of(p)) == p,
        opposite_of(p) != p,
{
}

/// A position's name denotes the position, and names nothing else.
pub proof fn law_position_names_roundtrip(p: Position, s: Seq<char>)
    ensures
        position_named(position_name(p)) == Some(p),
        position_named(s) == Some(p) ==> s == position_name(p),
{
    reveal_strlit("left");
    reveal_strlit("right");
    reveal_strlit("top");
    reveal_strlit("bottom");
    assert("left"@.len() == 4 && "right"@.len() == 5 && "top"@.len() == 3 && "bottom"@.len() == 6);
}

// ----- clients --------------------------------------------------------------

/// What the user configures of a client.
#[derive(Debug)]
pub struct ClientConfig {
    /// Hostname.
    pub hostname: Option<String>,
    /// Fixed addresses, determined by the user.
    pub fix_ips: Vec<IpAddr>,
    /// Port; kept apart, as both the active address and the addresses may be missing.
    pub port: u16,
    /// Position on screen.
    pub pos: Position,
    /// Enter hook.
    pub cmd: Option<String>,
}

/// Contents of a [`ClientConfig`].
#[verifier::ext_equal]
pub struct ClientConfigView {
    /// See [`ClientConfig::hostname`].
    pub hostname: Option<Seq<char>>,
    /// See [`ClientConfig::fix_ips`].
    pub fix_ips: Seq<IpAddr>,
    /// See [`ClientConfig::port`].
    pub port: u16,
    /// See [`ClientConfig::pos`].
    pub pos: Position,
    /// See [`ClientConfig::cmd`].
    pub cmd: Option<Seq<char>>,
}

impl View for ClientConfig {
    type V = ClientConfigView;

    open spec fn view(&self) -> ClientConfigView {
        ClientConfigView {
            hostname: text::opt_view(self.hostname),
            fix_ips: self.fix_ips@,
            port: self.port,
            pos: self.pos,
            cmd: text::opt_view(self.cmd),
        }
    }
}

/// The configuration of a client that has just been added.
pub open spec fn default_config() -> ClientConfigView {
    ClientConfigView {
        hostname: None,
        fix_ips: Seq::empty(),
        port: DEFAULT_PORT,
        pos: Position::Left,
        cmd: None,
    }
}

impl Default for ClientConfig {
    fn default() -> (r: ClientConfig)
        ensures
            r@ == default_config(),
    {
        let r: ClientConfig = ClientConfig {
            hostname: None,
            fix_ips: Vec::new(),
            port: DEFAULT_PORT,
            pos: Position::Left,
            cmd: None,
        };
        assert(r@ =~= default_config());
        r
    }
}

impl Clone for ClientConfig {
    fn clone(&self) -> (r: ClientConfig)
        ensures
            r@ == self@,
    {
        ClientConfig {
            hostname: text::opt_clone(&self.hostname),
            fix_ips: clone_ips(&self.fix_ips),
            port: self.port,
            pos: self.pos,
            cmd: text::opt_clone(&self.cmd),
        }
    }
}

/// What is known of a client at the moment.
#[derive(Debug)]
pub struct ClientState {
    /// Whether events are sent to and received from the client.
    pub active: bool,
    /// Address to send data to, generally where data was last received from.
    pub active_addr: Option<SocketAddr>,
    /// Whether the client is available for emulation.
    pub alive: bool,
    /// Addresses from DNS.
    pub dns_ips: Vec<IpAddr>,
    /// All addresses of the client, each once.
    pub ips: Vec<IpAddr>,
    /// Whether the client has pressed keys.
    pub has_pressed_keys: bool,
    /// Whether the hostname is being resolved.
    pub resolving: bool,
}

/// Contents of a [`ClientState`].
#[verifier::ext_equal]
pub struct ClientStateView {
    /// See [`ClientState::active`].
    pub active: bool,
    /// See [`ClientState::active_addr`].
    pub active_addr: Option<SocketAddr>,
    /// See [`ClientState::alive`].
    pub alive: bool,
    /// See [`ClientState::dns_ips`].
    pub dns_ips: Seq<IpAddr>,
    /// See [`ClientState::ips`].
    pub ips: Seq<IpAddr>,
    /// See [`ClientState::has_pressed_keys`].
    pub has_pressed_keys: bool,
    /// See [`ClientState::resolving`].
    pub resolving: bool,
}

impl View for ClientState {
    type V = ClientStateView;

    open spec fn view(&self) -> ClientStateView {
        ClientStateView {
            active: self.active,
            active_addr: self.active_addr,
            alive: self.alive,
            dns_ips: self.dns_ips@,
            ips: self.ips@,
            has_pressed_keys: self.has_pressed_keys,
            resolving: self.resolving,
        }
    }
}

/// The state of a client of which nothing is known.
pub open spec fn default_state() -> ClientStateView {
    ClientStateView {
        active: false,
        active_addr: None,
        alive: false,
        dns_ips: Seq::empty(),
        ips: Seq::empty(),
        has_pressed_keys: false,
        resolving: false,
    }
}

impl Default for ClientState {
    fn default() -> (r: ClientState)
        ensures
            r@ == default_state(),
    {
        let r: ClientState = ClientState {
            active: false,
            active_addr: None,
            alive: false,
            dns_ips: Vec::new(),
            ips: Vec::new(),
            has_pressed_keys: false,
            resolving: false,
        };
        assert(r@ =~= default_state());
        r
    }
}

impl Clone for ClientState {
    fn clone(&self) -> (r: ClientState)
        ensures
            r@ == self@,
    {
        ClientState {
            active: self.active,
            active_addr: self.active_addr,
            alive: self.alive,
            dns_ips: clone_ips(&self.dns_ips),
            ips: clone_ips(&self.ips),
            has_pressed_keys: self.has_pressed_keys,
            resolving: self.resolving,
        }
    }
}

/// A client with its number.
#[derive(Debug)]
pub struct Client {
    /// Number.
    pub handle: ClientHandle,
    /// Configuration.
    pub config: ClientConfig,
    /// State.
    pub state: ClientState,
}

/// Contents of a [`Client`].
#[verifier::ext_equal]
pub struct ClientView {
    /// See [`Client::handle`].
    pub handle: ClientHandle,
    /// See [`Client::config`].
    pub config: ClientConfigView,
    /// See [`Client::state`].
    pub state: ClientStateView,
}

impl View for Client {
    type V = ClientView;

    open spec fn view(&self) -> ClientView {
        ClientView { handle: self.handle, config: self.config@, state: self.state@ }
    }
}

impl Clone for Client {
    fn clone(&self) -> (r: Client)
        ensures
            r@ == self@,
    {
        Client { handle: self.handle, config: self.config.clone(), state: self.state.clone() }
    }
}

/// The contents of a list of clients.
pub open spec fn client_views(v: Seq<Client>) -> Seq<ClientView> {
    Seq::new(v.len(), |i: int| v[i]@)
}

/// A copy of a list of clients.
pub fn clone_clients(v: &Vec<Client>) -> (r: Vec<Client>)
    ensures
        client_views(r@) == client_views(v@),
{
    let mut r: Vec<Client> = Vec::new();
    let n: usize = v.len();
    let mut i: usize = 0;
    while i < n
        invariant
            n == v@.len(),
            i <= n,
            r@.len() == i,
            forall|j: int| 0 <= j < i ==> (#[trigger] r@[j])@ == v@[j]@,
        decreases n - i,
    {
        r.push(v[i].clone());
        i += 1;
    }
    assert(client_views(r@) =~= client_views(v@));
    r
}

// ----- decisions and results ------------------------------------------------

/// The user's decision on an offered file.
#[derive(Debug)]
pub enum FileDecision {
    /// Receive into a directory.
    Accept {
        /// Directory that takes the tree.
        dest_dir: String,
    },
    /// Refuse.
    Decline,
}

/// Contents of a [`FileDecision`].
#[verifier::ext_equal]
pub enum FileDecisionView {
    /// See [`FileDecision::Accept`].
    Accept { dest_dir: Seq<char> },
    /// See [`FileDecision::Decline`].
    Decline,
}

impl View for FileDecision {
    type V = FileDecisionView;

    open spec fn view(&self) -> FileDecisionView {
        match self {
            FileDecision::Accept { dest_dir } => FileDecisionView::Accept { dest_dir: dest_dir@ },
            FileDecision::Decline => FileDecisionView::Decline,
        }
    }
}

/// Terminal state of a file transfer.
#[derive(Debug)]
pub enum TransferResult {
    /// Everything arrived.
    Done {
        /// Where it is.
        destination: String,
    },
    /// Refused or cancelled.
    Cancelled,
    /// Failed, with the reason.
    Error(String),
}

/// Contents of a [`TransferResult`].
#[verifier::ext_equal]
pub enum TransferResultView {
    /// See [`TransferResult::Done`].
    Done { destination: Seq<char> },
    /// See [`TransferResult::Cancelled`].
    Cancelled,
    /// See [`TransferResult::Error`].
    Error(Seq<char>),
}

impl View for TransferResult {
    type V = TransferResultView;

    open spec fn view(&self) -> TransferResultView {
        match self {
            TransferResult::Done { destination } => TransferResultView::Done {
                destination: destination@,
            },
            TransferResult::Cancelled => TransferResultView::Cancelled,
            TransferResult::Error(e) => TransferResultView::Error(e@),
        }
    }
}

/// The user's decision when clipboard text exceeds the inline cap.
#[derive(Clone, Copy, PartialEq, Eq, Structural, Debug)]
pub enum ClipboardOverflowDecision {
    /// Ship the full payload as a file.
    Send,
    /// Truncate to the cap and share as text.
    Truncate,
    /// Skip this change.
    Ignore,
}

/// The user's decision on a clipboard image.
#[derive(Clone, Copy, PartialEq, Eq, Structural, Debug)]
pub enum ClipboardImageDecision {
    /// Ship as a file.
    Send,
    /// Skip this image.
    Skip,
}

/// Whether capture or emulation is enabled.
#[derive(Clone, Copy, PartialEq, Eq, Structural, Debug)]
pub enum Status {
    /// Disabled.
    Disabled,
    /// Enabled.
    Enabled,
}

impl Default for Status {
    fn default() -> (r: Status)
        ensures
            r == Status::Disabled,
    {
        Status::Disabled
    }
}

impl From<Status> for bool {
    fn from(status: Status) -> (r: bool) {
        match status {
            Status::Enabled => true,
            Status::Disabled => false,
        }
    }
}

impl vstd::std_specs::convert::FromSpecImpl<Status> for bool {
    open spec fn obeys_from_spec() -> bool {
        true
    }

    open spec fn from_spec(status: Status) -> bool {
        status == Status::Enabled
    }
}

// ----- settings -------------------------------------------------------------

/// Persistent settings.
#[derive(Debug)]
pub struct Settings {
    /// Announce this device from the start.
    pub discoverable_on_startup: bool,
    /// Add discovered devices without a prompt.
    pub auto_accept_discovered: bool,
    /// Start with the window hidden.
    pub start_minimized: bool,
    /// IPv4 interface to listen on; all where missing.
    pub listen_ipv4: Option<IpAddr>,
    /// IPv6 interface to listen on; all where missing.
    pub listen_ipv6: Option<IpAddr>,
    /// Whether IPv6 is used.
    pub ipv6_enabled: bool,
    /// Keys that release the pointer when pressed together.
    pub release_bind: Vec<String>,
}

/// Contents of [`Settings`].
#[verifier::ext_equal]
pub struct SettingsView {
    /// See [`Settings::discoverable_on_startup`].
    pub discoverable_on_startup: bool,
    /// See [`Settings::auto_accept_discovered`].
    pub auto_accept_discovered: bool,
    /// See [`Settings::start_minimized`].
    pub start_minimized: bool,
    /// See [`Settings::listen_ipv4`].
    pub listen_ipv4: Option<IpAddr>,
    /// See [`Settings::listen_ipv6`].
    pub listen_ipv6: Option<IpAddr>,
    /// See [`Settings::ipv6_enabled`].
    pub ipv6_enabled: bool,
    /// See [`Settings::release_bind`].
    pub release_bind: Seq<Seq<char>>,
}

impl View for Settings {
    type V = SettingsView;

    open spec fn view(&self) -> SettingsView {
        SettingsView {
            discoverable_on_startup: self.discoverable_on_startup,
            auto_accept_discovered: self.auto_accept_discovered,
            start_minimized: self.start_minimized,
            listen_ipv4: self.listen_ipv4,
            listen_ipv6: self.listen_ipv6,
            ipv6_enabled: self.ipv6_enabled,
            release_bind: text::views(self.release_bind@),
        }
    }
}

/// The settings where nothing is configured.
pub open spec fn default_settings() -> SettingsView {
    SettingsView {
        discoverable_on_startup: false,
        auto_accept_discovered: false,
        start_minimized: false,
        listen_ipv4: None,
        listen_ipv6: None,
        ipv6_enabled: true,
        release_bind: seq!["KeyLeftCtrl"@, "KeyLeftShift"@, "KeyLeftMeta"@, "KeyLeftAlt"@],
    }
}

impl Default for Settings {
    fn default() -> (r: Settings)
        ensures
            r@ == default_settings(),
    {
        let mut release_bind: Vec<String> = Vec::new();
        release_bind.push("KeyLeftCtrl".to_owned());
        release_bind.push("KeyLeftShift".to_owned());
        release_bind.push("KeyLeftMeta".to_owned());
        release_bind.push("KeyLeftAlt".to_owned());
        let r: Settings = Settings {
            discoverable_on_startup: false,
            auto_accept_discovered: false,
            start_minimized: false,
            listen_ipv4: None,
            listen_ipv6: None,
            ipv6_enabled: true,
            release_bind,
        };
        assert(text::views(r.release_bind@) =~= default_settings().release_bind);
        r
    }
}

impl Clone for Settings {
    fn clone(&self) -> (r: Settings)
        ensures
            r@ == self@,
    {
        Settings {
            discoverable_on_startup: self.discoverable_on_startup,
            auto_accept_discovered: self.auto_accept_discovered,
            start_minimized: self.start_minimized,
            listen_ipv4: self.listen_ipv4,
            listen_ipv6: self.listen_ipv6,
            ipv6_enabled: self.ipv6_enabled,
            release_bind: text::clone_strings(&self.release_bind),
        }
    }
}

// ----- discovered devices and offers ----------------------------------------

/// A device found on the network.
#[derive(Debug)]
pub struct DiscoveredDevice {
    /// Hostname.
    pub hostname: String,
    /// Addresses.
    pub addrs: Vec<IpAddr>,
    /// Port of the input channel.
    pub port: u16,
    /// Certificate fingerprint; empty where it was not announced.
    pub fingerprint: String,
    /// Suggested position.
    pub position: Position,
}

/// Contents of a [`DiscoveredDevice`].
#[verifier::ext_equal]
pub struct DiscoveredDeviceView {
    /// See [`DiscoveredDevice::hostname`].
    pub hostname: Seq<char>,
    /// See [`DiscoveredDevice::addrs`].
    pub addrs: Seq<IpAddr>,
    /// See [`DiscoveredDevice::port`].
    pub port: u16,
    /// See [`DiscoveredDevice::fingerprint`].
    pub fingerprint: Seq<char>,
    /// See [`DiscoveredDevice::position`].
    pub position: Position,
}

impl View for DiscoveredDevice {
    type V = DiscoveredDeviceView;

    open spec fn view(&self) -> DiscoveredDeviceView {
        DiscoveredDeviceView {
            hostname: self.hostname@,
            addrs: self.addrs@,
            port: self.port,
            fingerprint: self.fingerprint@,
            position: self.position,
        }
    }
}

impl Clone for DiscoveredDevice {
    fn clone(&self) -> (r: DiscoveredDevice)
        ensures
            r@ == self@,
    {
        DiscoveredDevice {
            hostname: self.hostname.clone(),
            addrs: clone_ips(&self.addrs),
            port: self.port,
            fingerprint: self.fingerprint.clone(),
            position: self.position,
        }
    }
}

/// A file or folder that a peer offers.
#[derive(Debug)]
pub struct FileOffer {
    /// Number of the transfer.
    pub xfer_id: u64,
    /// Client that is known by the address of the peer; 0 where there is none.
    pub client: ClientHandle,
    /// Name of the tree.
    pub root_name: String,
    /// Number of entries.
    pub entries: u32,
    /// Sum of the file sizes.
    pub total_bytes: u64,
    /// Certificate fingerprint of the peer.
    pub fingerprint: String,
}

/// Contents of a [`FileOffer`].
#[verifier::ext_equal]
pub struct FileOfferView {
    /// See [`FileOffer::xfer_id`].
    pub xfer_id: u64,
    /// See [`FileOffer::client`].
    pub client: ClientHandle,
    /// See [`FileOffer::root_name`].
    pub root_name: Seq<char>,
    /// See [`FileOffer::entries`].
    pub entries: u32,
    /// See [`FileOffer::total_bytes`].
    pub total_bytes: u64,
    /// See [`FileOffer::fingerprint`].
    pub fingerprint: Seq<char>,
}

impl View for FileOffer {
    type V = FileOfferView;

    open spec fn view(&self) -> FileOfferView {
        FileOfferView {
            xfer_id: self.xfer_id,
            client: self.client,
            root_name: self.root_name@,
            entries: self.entries,
            total_bytes: self.total_bytes,
            fingerprint: self.fingerprint@,
        }
    }
}

impl Clone for FileOffer {
    fn clone(&self) -> (r: FileOffer)
        ensures
            r@ == self@,
    {
        FileOffer {
            xfer_id: self.xfer_id,
            client: self.client,
            root_name: self.root_name.clone(),
            entries: self.entries,
            total_bytes: self.total_bytes,
            fingerprint: self.fingerprint.clone(),
        }
    }
}

// ----- events ---------------------------------------------------------------

/// What the service tells its frontends.
#[derive(Debug)]
pub enum FrontendEvent {
    /// A client was created.
    Created(Client),
    /// There is no such client.
    NoSuchClient(ClientHandle),
    /// The state of a client changed.
    State(Client),
    /// A client was deleted.
    Deleted(ClientHandle),
    /// New port, and the reason of a failure.
    PortChanged(u16, Option<String>),
    /// All clients.
    Enumerate(Vec<Client>),
    /// An error occurred.
    Error(String),
    /// Capture status.
    CaptureStatus(Status),
    /// Emulation status.
    EmulationStatus(Status),
    /// Authorized fingerprints with their descriptions.
    AuthorizedUpdated(StrMap),
    /// Certificate fingerprint of this device.
    PublicKeyFingerprint(String),
    /// A device connected.
    DeviceConnected {
        /// Address of the device.
        addr: SocketAddr,
        /// Certificate fingerprint of the device.
        fingerprint: String,
    },
    /// A device entered the screen.
    DeviceEntered {
        /// Certificate fingerprint of the device.
        fingerprint: String,
        /// Address of the device.
        addr: SocketAddr,
        /// Side of the screen.
        pos: Position,
    },
    /// A device disconnected.
    IncomingDisconnected(SocketAddr),
    /// A connection attempt failed for want of an authorization.
    ConnectionAttempt {
        /// Certificate fingerprint of the device.
        fingerprint: String,
    },
    /// A device was found on the network.
    DiscoveredDevice(DiscoveredDevice),
    /// A device found before is gone.
    DeviceLost {
        /// Hostname.
        hostname: String,
    },
    /// Discoverable mode changed.
    DiscoverableChanged(bool),
    /// The settings changed.
    SettingsChanged(Settings),
    /// A peer offers a file or folder.
    FileOfferIncoming(FileOffer),
    /// Progress of an accepted transfer.
    FileTransferProgress {
        /// Number of the transfer.
        xfer_id: u64,
        /// Bytes so far.
        bytes: u64,
        /// Bytes offered.
        total: u64,
        /// Entries so far.
        entries_done: u32,
        /// Entries offered.
        entries_total: u32,
        /// Entry being received.
        current_entry: Option<String>,
    },
    /// A transfer is over.
    FileTransferFinished {
        /// Number of the transfer.
        xfer_id: u64,
        /// How it ended.
        result: TransferResult,
    },
    /// The clipboard text exceeds the inline cap.
    ClipboardOverflow {
        /// Client that would receive it.
        client: ClientHandle,
        /// Size of the text.
        bytes: u64,
        /// Start of the text.
        preview: String,
    },
    /// An image is on the clipboard.
    ClipboardImageDetected {
        /// Client that would receive it.
        client: ClientHandle,
        /// Size of the PNG file.
        bytes: u64,
        /// Width in pixels.
        width: u32,
        /// Height in pixels.
        height: u32,
    },
}

/// Contents of a [`FrontendEvent`].
#[verifier::ext_equal]
pub enum FrontendEventView {
    /// See [`FrontendEvent::Created`].
    Created(ClientView),
    /// See [`FrontendEvent::NoSuchClient`].
    NoSuchClient(ClientHandle),
    /// See [`FrontendEvent::State`].
    State(ClientView),
    /// See [`FrontendEvent::Deleted`].
    Deleted(ClientHandle),
    /// See [`FrontendEvent::PortChanged`].
    PortChanged(u16, Option<Seq<char>>),
    /// See [`FrontendEvent::Enumerate`].
    Enumerate(Seq<ClientView>),
    /// See [`FrontendEvent::Error`].
    Error(Seq<char>),
    /// See [`FrontendEvent::CaptureStatus`].
    CaptureStatus(Status),
    /// See [`FrontendEvent::EmulationStatus`].
    EmulationStatus(Status),
    /// See [`FrontendEvent::AuthorizedUpdated`].
    AuthorizedUpdated(Map<Seq<char>, Seq<char>>),
    /// See [`FrontendEvent::PublicKeyFingerprint`].
    PublicKeyFingerprint(Seq<char>),
    /// See [`FrontendEvent::DeviceConnected`].
    DeviceConnected { addr: SocketAddr, fingerprint: Seq<char> },
    /// See [`FrontendEvent::DeviceEntered`].
    DeviceEntered { fingerprint: Seq<char>, addr: SocketAddr, pos: Position },
    /// See [`FrontendEvent::IncomingDisconnected`].
    IncomingDisconnected(SocketAddr),
    /// See [`FrontendEvent::ConnectionAttempt`].
    ConnectionAttempt { fingerprint: Seq<char> },
    /// See [`FrontendEvent::DiscoveredDevice`].
    DiscoveredDevice(DiscoveredDeviceView),
    /// See [`FrontendEvent::DeviceLost`].
    DeviceLost { hostname: Seq<char> },
    /// See [`FrontendEvent::DiscoverableChanged`].
    DiscoverableChanged(bool),
    /// See [`FrontendEvent::SettingsChanged`].
    SettingsChanged(SettingsView),
    /// See [`FrontendEvent::FileOfferIncoming`].
    FileOfferIncoming(FileOfferView),
    /// See [`FrontendEvent::FileTransferProgress`].
    FileTransferProgress {
        xfer_id: u64,
        bytes: u64,
        total: u64,
        entries_done: u32,
        entries_total: u32,
        current_entry: Option<Seq<char>>,
    },
    /// See [`FrontendEvent::FileTransferFinished`].
    FileTransferFinished { xfer_id: u64, result: TransferResultView },
    /// See [`FrontendEvent::ClipboardOverflow`].
    ClipboardOverflow { client: ClientHandle, bytes: u64, preview: Seq<char> },
    /// See [`FrontendEvent::ClipboardImageDetected`].
    ClipboardImageDetected { client: ClientHandle, bytes: u64, width: u32, height: u32 },
}

impl View for FrontendEvent {
    type V = FrontendEventView;

    open spec fn view(&self) -> FrontendEventView {
        match self {
            FrontendEvent::Created(c) => FrontendEventView::Created(c@),
            FrontendEvent::NoSuchClient(h) => FrontendEventView::NoSuchClient(*h),
            FrontendEvent::State(c) => FrontendEventView::State(c@),
            FrontendEvent::Deleted(h) => FrontendEventView::Deleted(*h),
            FrontendEvent::PortChanged(p, e) => FrontendEventView::PortChanged(
                *p,
                text::opt_view(*e),
            ),
            FrontendEvent::Enumerate(v) => FrontendEventView::Enumerate(client_views(v@)),
            FrontendEvent::Error(e) => FrontendEventView::Error(e@),
            FrontendEvent::CaptureStatus(s) => FrontendEventView::CaptureStatus(*s),
            FrontendEvent::EmulationStatus(s) => FrontendEventView::EmulationStatus(*s),
            FrontendEvent::AuthorizedUpdated(m) => FrontendEventView::AuthorizedUpdated(m@),
            FrontendEvent::PublicKeyFingerprint(f) => FrontendEventView::PublicKeyFingerprint(f@),
            FrontendEvent::DeviceConnected { addr, fingerprint } => {
                FrontendEventView::DeviceConnected { addr: *addr, fingerprint: fingerprint@ }
            },
            FrontendEvent::DeviceEntered { fingerprint, addr, pos } => {
                FrontendEventView::DeviceEntered {
                    fingerprint: fingerprint@,
                    addr: *addr,
                    pos: *pos,
                }
            },
            FrontendEvent::IncomingDisconnected(a) => FrontendEventView::IncomingDisconnected(*a),
            FrontendEvent::ConnectionAttempt { fingerprint } => {
                FrontendEventView::ConnectionAttempt { fingerprint: fingerprint@ }
            },
            FrontendEvent::DiscoveredDevice(d) => FrontendEventView::DiscoveredDevice(d@),
            FrontendEvent::DeviceLost { hostname } => FrontendEventView::DeviceLost {
                hostname: hostname@,
            },
            FrontendEvent::DiscoverableChanged(b) => FrontendEventView::DiscoverableChanged(*b),
            FrontendEvent::SettingsChanged(s) => FrontendEventView::SettingsChanged(s@),
            FrontendEvent::FileOfferIncoming(o) => FrontendEventView::FileOfferIncoming(o@),
            FrontendEvent::FileTransferProgress {
                xfer_id,
                bytes,
                total,
                entries_done,
                entries_total,
                current_entry,
            } => FrontendEventView::FileTransferProgress {
                xfer_id: *xfer_id,
                bytes: *bytes,
                total: *total,
                entries_done: *entries_done,
                entries_total: *entries_total,
                current_entry: text::opt_view(*current_entry),
            },
            FrontendEvent::FileTransferFinished { xfer_id, result } => {
                FrontendEventView::FileTransferFinished { xfer_id: *xfer_id, result: result@ }
            },
            FrontendEvent::ClipboardOverflow { client, bytes, preview } => {
                FrontendEventView::ClipboardOverflow {
                    client: *client,
                    bytes: *bytes,
                    preview: preview@,
                }
            },
            FrontendEvent::ClipboardImageDetected { client, bytes, width, height } => {
                FrontendEventView::ClipboardImageDetected {
                    client: *client,
                    bytes: *bytes,
                    width: *width,
                    height: *height,
                }
            },
        }
    }
}

// ----- requests -------------------------------------------------------------

/// What a frontend asks of the service.
#[allow(inconsistent_fields)]
#[derive(Debug)]
pub enum FrontendRequest {
    /// Activate or deactivate a client.
    Activate(ClientHandle, bool),
    /// Add a client.
    Create,
    /// Change the port of the listener.
    ChangePort(u16),
    /// Remove a client.
    Delete(ClientHandle),
    /// List all clients.
    Enumerate(),
    /// Resolve the hostname of a client.
    ResolveDns(ClientHandle),
    /// Change a hostname.
    UpdateHostname(ClientHandle, Option<String>),
    /// Change a port.
    UpdatePort(ClientHandle, u16),
    /// Change a position.
    UpdatePosition(ClientHandle, Position),
    /// Change the fixed addresses.
    UpdateFixIps(ClientHandle, Vec<IpAddr>),
    /// Enable input capture again.
    EnableCapture,
    /// Enable input emulation again.
    EnableEmulation,
    /// Report everything.
    Sync,
    /// Authorize a fingerprint: description, fingerprint.
    AuthorizeKey(String, String),
    /// Take an authorization back.
    RemoveAuthorizedKey(String),
    /// Change the enter hook.
    UpdateEnterHook(ClientHandle, Option<String>),
    /// Save the configuration file.
    SaveConfiguration,
    /// Add a discovered device as a client.
    AcceptDiscoveredDevice(DiscoveredDevice),
    /// Switch discoverable mode.
    SetDiscoverable(bool),
    /// Change the settings.
    UpdateSettings(Settings),
    /// Answer an offered file.
    RespondFileOffer {
        /// Number of the transfer.
        xfer_id: u64,
        /// The answer.
        decision: FileDecision,
    },
    /// Answer the prompt for an oversize clipboard.
    RespondClipboardOverflow {
        /// Client of the prompt.
        client: ClientHandle,
        /// The answer.
        decision: ClipboardOverflowDecision,
    },
    /// Answer the prompt for a clipboard image.
    RespondClipboardImage {
        /// Client of the prompt.
        client: ClientHandle,
        /// The answer.
        decision: ClipboardImageDecision,
    },
    /// Send a file or folder to a client.
    SendFile {
        /// Client that receives it.
        client: ClientHandle,
        /// File or folder.
        path: String,
    },
}

/// Contents of a [`FrontendRequest`].
#[allow(inconsistent_fields)]
#[verifier::ext_equal]
pub enum FrontendRequestView {
    /// See [`FrontendRequest::Activate`].
    Activate(ClientHandle, bool),
    /// See [`FrontendRequest::Create`].
    Create,
    /// See [`FrontendRequest::ChangePort`].
    ChangePort(u16),
    /// See [`FrontendRequest::Delete`].
    Delete(ClientHandle),
    /// See [`FrontendRequest::Enumerate`].
    Enumerate,
    /// See [`FrontendRequest::ResolveDns`].
    ResolveDns(ClientHandle),
    /// See [`FrontendRequest::UpdateHostname`].
    UpdateHostname(ClientHandle, Option<Seq<char>>),
    /// See [`FrontendRequest::UpdatePort`].
    UpdatePort(ClientHandle, u16),
    /// See [`FrontendRequest::UpdatePosition`].
    UpdatePosition(ClientHandle, Position),
    /// See [`FrontendRequest::UpdateFixIps`].
    UpdateFixIps(ClientHandle, Seq<IpAddr>),
    /// See [`FrontendRequest::EnableCapture`].
    EnableCapture,
    /// See [`FrontendRequest::EnableEmulation`].
    EnableEmulation,
    /// See [`FrontendRequest::Sync`].
    Sync,
    /// See [`FrontendRequest::AuthorizeKey`].
    AuthorizeKey(Seq<char>, Seq<char>),
    /// See [`FrontendRequest::RemoveAuthorizedKey`].
    RemoveAuthorizedKey(Seq<char>),
    /// See [`FrontendRequest::UpdateEnterHook`].
    UpdateEnterHook(ClientHandle, Option<Seq<char>>),
    /// See [`FrontendRequest::SaveConfiguration`].
    SaveConfiguration,
    /// See [`FrontendRequest::AcceptDiscoveredDevice`].
    AcceptDiscoveredDevice(DiscoveredDeviceView),
    /// See [`FrontendRequest::SetDiscoverable`].
    SetDiscoverable(bool),
    /// See [`FrontendRequest::UpdateSettings`].
    UpdateSettings(SettingsView),
    /// See [`FrontendRequest::RespondFileOffer`].
    RespondFileOffer { xfer_id: u64, decision: FileDecisionView },
    /// See [`FrontendRequest::RespondClipboardOverflow`].
    RespondClipboardOverflow { client: ClientHandle, decision: ClipboardOverflowDecision },
    /// See [`FrontendRequest::RespondClipboardImage`].
    RespondClipboardImage { client: ClientHandle, decision: ClipboardImageDecision },
    /// See [`FrontendRequest::SendFile`].
    SendFile { client: ClientHandle, path: Seq<char> },
}

impl View for FrontendRequest {
    type V = FrontendRequestView;

    open spec fn view(&self) -> FrontendRequestView {
        match self {
            FrontendRequest::Activate(h, a) => FrontendRequestView::Activate(*h, *a),
            FrontendRequest::Create => FrontendRequestView::Create,
            FrontendRequest::ChangePort(p) => FrontendRequestView::ChangePort(*p),
            FrontendRequest::Delete(h) => FrontendRequestView::Delete(*h),
            FrontendRequest::Enumerate() => FrontendRequestView::Enumerate,
            FrontendRequest::ResolveDns(h) => FrontendRequestView::ResolveDns(*h),
            FrontendRequest::UpdateHostname(h, n) => FrontendRequestView::UpdateHostname(
                *h,
                text::opt_view(*n),
            ),
            FrontendRequest::UpdatePort(h, p) => FrontendRequestView::UpdatePort(*h, *p),
            FrontendRequest::UpdatePosition(h, p) => FrontendRequestView::UpdatePosition(*h, *p),
            FrontendRequest::UpdateFixIps(h, v) => FrontendRequestView::UpdateFixIps(*h, v@),
            FrontendRequest::EnableCapture => FrontendRequestView::EnableCapture,
            FrontendRequest::EnableEmulation => FrontendRequestView::EnableEmulation,
            FrontendRequest::Sync => FrontendRequestView::Sync,
            FrontendRequest::AuthorizeKey(d, f) => FrontendRequestView::AuthorizeKey(d@, f@),
            FrontendRequest::RemoveAuthorizedKey(f) => FrontendRequestView::RemoveAuthorizedKey(
                f@,
            ),
            FrontendRequest::UpdateEnterHook(h, c) => FrontendRequestView::UpdateEnterHook(
                *h,
                text::opt_view(*c),
            ),
            FrontendRequest::SaveConfiguration => FrontendRequestView::SaveConfiguration,
            FrontendRequest::AcceptDiscoveredDevice(d) => {
                FrontendRequestView::AcceptDiscoveredDevice(d@)
            },
            FrontendRequest::SetDiscoverable(b) => FrontendRequestView::SetDiscoverable(*b),
            FrontendRequest::UpdateSettings(s) => FrontendRequestView::UpdateSettings(s@),
            FrontendRequest::RespondFileOffer { xfer_id, decision } => {
                FrontendRequestView::RespondFileOffer { xfer_id: *xfer_id, decision: decision@ }
            },
            FrontendRequest::RespondClipboardOverflow { client, decision } => {
                FrontendRequestView::RespondClipboardOverflow {
                    client: *client,
                    decision: *decision,
                }
            },
            FrontendRequest::RespondClipboardImage { client, decision } => {
                FrontendRequestView::RespondClipboardImage { client: *client, decision: *decision }
            },
            FrontendRequest::SendFile { client, path } => FrontendRequestView::SendFile {
                client: *client,
                path: path@,
            },
        }
    }
}

// ----- socket path ----------------------------------------------------------

/// Why the path of the frontend socket is not known.
#[derive(Clone, Copy, PartialEq, Eq, Structural, Debug)]
pub enum SocketPathError {
    /// `$XDG_RUNTIME_DIR` is not set.
    XdgRuntimeDirNotFound,
    /// `$HOME` is not set.
    HomeDirNotFound,
}

/// Path of the frontend socket, from `$XDG_RUNTIME_DIR`.
pub fn default_socket_path(xdg_runtime_dir: Option<&str>) -> (r: Result<String, SocketPathError>)
    ensures
        match r {
            Ok(p) => xdg_runtime_dir matches Some(d) && p@ == paths::joined(
                d@,
                "lan-mouse-socket.sock"@,
            ),
            Err(e) => xdg_runtime_dir is None && e == SocketPathError::XdgRuntimeDirNotFound,
        },
{
    match xdg_runtime_dir {
        Some(dir) => Ok(paths::join_path(dir, "lan-mouse-socket.sock")),
        None => Err(SocketPathError::XdgRuntimeDirNotFound),
    }
}

/// Path of the frontend socket on macOS, from `$HOME`.
pub fn macos_socket_path(home: Option<&str>) -> (r: Result<String, SocketPathError>)
    ensures
        match r {
            Ok(p) => home matches Some(d) && p@ == paths::joined(
                paths::joined(paths::joined(d@, "Library"@), "Caches"@),
                "lan-mouse-socket.sock"@,
            ),
            Err(e) => home is None && e == SocketPathError::HomeDirNotFound,
        },
{
    match home {
        Some(home) => {
            let library: String = paths::join_path(home, "Library");
            let caches: String = paths::join_path(library.as_str(), "Caches");
            Ok(paths::join_path(caches.as_str(), "lan-mouse-socket.sock"))
        },
        None => Err(SocketPathError::HomeDirNotFound),
    }
}

/// Sides are opposite across the screen, left to right and top to bottom, and are called by their
/// names; a client of which nothing is known is on the left, at the default port, and inactive.
pub proof fn law_sides_and_defaults()
    ensures
        opposite_of(Position::Left) == Position::Right,
        opposite_of(Position::Top) == Position::Bottom,
        position_name(Position::Left) == "left"@,
        position_name(Position::Right) == "right"@,
        position_name(Position::Top) == "top"@,
        position_name(Position::Bottom) == "bottom"@,
        default_config().pos == Position::Left,
        default_config().port == 4242,
        default_config().hostname is None,
        default_config().cmd is None,
        default_config().fix_ips.len() == 0,
        !default_state().active && !default_state().alive && !default_state().resolving,
        default_state().active_addr is None,
        default_state().ips.len() == 0 && default_state().dns_ips.len() == 0,
        default_settings().ipv6_enabled,
        !default_settings().discoverable_on_startup,
        !default_settings().auto_accept_discovered,
        !default_settings().start_minimized,
        default_settings().release_bind == seq![
            "KeyLeftCtrl"@,
            "KeyLeftShift"@,
            "KeyLeftMeta"@,
            "KeyLeftAlt"@,
        ],
        default_settings().listen_ipv4 is None && default_settings().listen_ipv6 is None,
{
}

} // verus!

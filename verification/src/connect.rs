//! Outgoing connections to the clients.
use crate::client::ClientManager;
use crate::clipboard::{decode_clipboard_msg, CLIPBOARD_MSG_TYPE};
use crate::collections::{AddrSet, IdSet};
use crate::ipc::{ClientHandle, ClientView, DEFAULT_PORT};
use crate::net::{IpAddr, SocketAddr};
use crate::{client, clipboard, net};
use vstd::prelude::*;

verus! {

/// How long a connection attempt may last, in seconds.
pub const DEFAULT_CONNECTION_TIMEOUT: u64 = 5;

/// Pings of one round, of which at least one has to be answered.
pub const PINGS: u8 = 4;

/// Pause after a ping, in milliseconds.
pub const PING_INTERVAL: u64 = 500;

/// Why nothing was sent.
#[derive(Debug)]
pub enum LanMouseConnectionError {
    /// The socket, the channel or the transport failed; holds its words.
    Transport(String),
    /// There is no connection.
    NotConnected,
    /// The other device does not emulate.
    TargetEmulationDisabled,
    /// The connection attempt took too long.
    Timeout,
}

/// What a user is told of a failure.
pub open spec fn error_message(e: LanMouseConnectionError) -> Seq<char> {
    match e {
        LanMouseConnectionError::Transport(e) => e@,
        LanMouseConnectionError::NotConnected => "not connected"@,
        LanMouseConnectionError::TargetEmulationDisabled => {
            "emulation is disabled on the target device"@
        },
        LanMouseConnectionError::Timeout => "Connection timed out"@,
    }
}

impl LanMouseConnectionError {
    /// What a user is told.
    pub fn message(&self) -> (r: String)
        ensures
            r@ == error_message(*self),
    {
        match self {
            LanMouseConnectionError::Transport(e) => e.clone(),
            LanMouseConnectionError::NotConnected => "not connected".to_owned(),
            LanMouseConnectionError::TargetEmulationDisabled => {
                "emulation is disabled on the target device".to_owned()
            },
            LanMouseConnectionError::Timeout => "Connection timed out".to_owned(),
        }
    }
}

// ----- addresses ------------------------------------------------------------

/// Whether an address may be used.
pub open spec fn usable(ip: IpAddr, ipv6_enabled: bool) -> bool {
    ipv6_enabled || ip is V4
}

/// The addresses at which a client is tried, in order.
pub open spec fn tried_addrs(ips: Seq<IpAddr>, port: u16, ipv6_enabled: bool) -> Seq<SocketAddr>
    decreases ips.len(),
{
    if ips.len() == 0 {
        Seq::empty()
    } else {
        let front = tried_addrs(ips.drop_last(), port, ipv6_enabled);
        if usable(ips.last(), ipv6_enabled) {
            front.push(net::addr_at(ips.last(), port))
        } else {
            front
        }
    }
}

/// The addresses at which a client is tried.
pub fn candidate_addrs(ips: &Vec<IpAddr>, port: u16, ipv6_enabled: bool) -> (r: Vec<SocketAddr>)
    ensures
        r@ == tried_addrs(ips@, port, ipv6_enabled),
{
    let mut r: Vec<SocketAddr> = Vec::new();
    let n: usize = ips.len();
    let mut i: usize = 0;
    assert(ips@.take(0) =~= Seq::empty());
    while i < n
        invariant
            n == ips@.len(),
            i <= n,
            r@ == tried_addrs(ips@.take(i as int), port, ipv6_enabled),
        decreases n - i,
    {
        proof {
            assert(ips@.take(i + 1).drop_last() =~= ips@.take(i as int));
            assert(ips@.take(i + 1).last() == ips@[i as int]);
        }
        let v4: bool = match ips[i] {
            IpAddr::V4(_) => true,
            IpAddr::V6(_) => false,
        };
        if ipv6_enabled || v4 {
            r.push(SocketAddr::new(ips[i], port));
        }
        i += 1;
    }
    assert(ips@.take(n as int) =~= ips@);
    r
}

/// The local address for a connection to an address: any, of the same family.
pub fn bind_addr(addr: SocketAddr) -> (r: SocketAddr)
    ensures
        r == (match addr.ip {
            IpAddr::V4(_) => net::addr_at(IpAddr::V4(0), 0),
            IpAddr::V6(_) => net::addr_at(IpAddr::V6(0), 0),
        }),
{
    match addr.ip {
        IpAddr::V4(_) => SocketAddr::new(IpAddr::V4(0), 0),
        IpAddr::V6(_) => SocketAddr::new(IpAddr::V6(0), 0),
    }
}

/// A race of connection attempts: the first that succeeds wins.
#[derive(Debug)]
pub struct ConnectAny {
    pending: usize,
}

impl ConnectAny {
    /// Attempts that have not ended.
    pub closed spec fn pending(&self) -> nat {
        self.pending as nat
    }

    /// A race of attempts; it is lost at once where there are none.
    pub fn new(attempts: usize) -> (r: Result<ConnectAny, LanMouseConnectionError>)
        ensures
            match r {
                Ok(c) => attempts > 0 && c.pending() == attempts,
                Err(e) => attempts == 0 && e is NotConnected,
            },
    {
        if attempts == 0 {
            Err(LanMouseConnectionError::NotConnected)
        } else {
            Ok(ConnectAny { pending: attempts })
        }
    }

    /// An attempt ended, with the address where it succeeded. Says how the race ended, where it
    /// did.
    pub fn on_result(&mut self, connected: Option<SocketAddr>) -> (r: Option<
        Result<SocketAddr, LanMouseConnectionError>,
    >)
        requires
            old(self).pending() > 0,
        ensures
            final(self).pending() == old(self).pending() - 1,
            match connected {
                Some(a) => r == Some(Ok::<SocketAddr, LanMouseConnectionError>(a)),
                None => if old(self).pending() == 1 {
                    r is Some && r->0 is Err && r->0->Err_0 is NotConnected
                } else {
                    r is None
                },
            },
    {
        self.pending = self.pending - 1;
        match connected {
            Some(a) => Some(Ok(a)),
            None => if self.pending == 0 {
                Some(Err(LanMouseConnectionError::NotConnected))
            } else {
                None
            },
        }
    }
}

// ----- connections ----------------------------------------------------------

/// State of the connections.
#[verifier::ext_equal]
pub struct ConnectionsView {
    /// Addresses to which there is a connection.
    pub conns: Set<SocketAddr>,
    /// Clients to which a connection is being made.
    pub connecting: Set<ClientHandle>,
    /// Addresses that have answered a ping of this round.
    pub answered: Set<SocketAddr>,
}

/// What becomes of data for a client.
#[derive(Clone, Copy, PartialEq, Eq, Structural, Debug)]
pub enum SendPlan {
    /// It is sent to an address.
    Send(SocketAddr),
    /// The other device does not emulate.
    TargetEmulationDisabled,
    /// There is no connection, and one is to be made.
    Connect,
    /// There is no connection.
    NotConnected,
}

/// The address of the connection to a client, where there is one.
pub open spec fn connection_of(
    s: ConnectionsView,
    clients: Seq<ClientView>,
    handle: ClientHandle,
) -> Option<SocketAddr> {
    match client::client_with(clients, handle) {
        Some(c) => match c.state.active_addr {
            Some(a) if s.conns.contains(a) => Some(a),
            _ => None,
        },
        None => None,
    }
}

/// What becomes of an event for a client: it is sent where there is a connection and the other
/// device emulates; where there is no connection one is made, unless that is under way.
pub open spec fn send_plan(
    s: ConnectionsView,
    clients: Seq<ClientView>,
    handle: ClientHandle,
) -> (ConnectionsView, SendPlan) {
    match connection_of(s, clients, handle) {
        Some(a) => if client::client_with(clients, handle)->0.state.alive {
            (s, SendPlan::Send(a))
        } else {
            (s, SendPlan::TargetEmulationDisabled)
        },
        None => if s.connecting.contains(handle) {
            (s, SendPlan::NotConnected)
        } else {
            (
                ConnectionsView { connecting: s.connecting.insert(handle), ..s },
                SendPlan::Connect,
            )
        },
    }
}

/// A connection is closed.
pub open spec fn conn_closed(s: ConnectionsView, addr: SocketAddr) -> ConnectionsView {
    ConnectionsView { conns: s.conns.remove(addr), ..s }
}

/// A connection to a client is made.
pub open spec fn conn_made(s: ConnectionsView, handle: ClientHandle, addr: SocketAddr) -> ConnectionsView {
    ConnectionsView {
        conns: s.conns.insert(addr),
        connecting: s.connecting.remove(handle),
        ..s
    }
}

/// No connection to a client could be made.
pub open spec fn conn_failed(s: ConnectionsView, handle: ClientHandle) -> ConnectionsView {
    ConnectionsView { connecting: s.connecting.remove(handle), ..s }
}

/// The connections.
#[derive(Debug)]
pub struct LanMouseConnection {
    conns: AddrSet,
    connecting: IdSet,
    ping_response: AddrSet,
    ipv6_enabled: bool,
}

impl View for LanMouseConnection {
    type V = ConnectionsView;

    closed spec fn view(&self) -> ConnectionsView {
        ConnectionsView {
            conns: self.conns@,
            connecting: self.connecting@,
            answered: self.ping_response@,
        }
    }
}

impl LanMouseConnection {
    /// Whether addresses of the newer family are tried.
    pub closed spec fn ipv6(&self) -> bool {
        self.ipv6_enabled
    }

    /// No connections.
    pub fn new(ipv6_enabled: bool) -> (r: LanMouseConnection)
        ensures
            r.ipv6() == ipv6_enabled,
            r@ == (ConnectionsView {
                conns: Set::empty(),
                connecting: Set::empty(),
                answered: Set::empty(),
            }),
    {
        LanMouseConnection {
            conns: AddrSet::new(),
            connecting: IdSet::new(),
            ping_response: AddrSet::new(),
            ipv6_enabled,
        }
    }

    fn connection(&self, clients: &ClientManager, handle: ClientHandle) -> (r: Option<SocketAddr>)
        requires
            clients.wf(),
        ensures
            r == connection_of(self@, clients@, handle),
    {
        match clients.active_addr(handle) {
            Some(a) => if self.conns.contains(a) {
                Some(a)
            } else {
                None
            },
            None => None,
        }
    }

    /// Where raw bytes for a client are sent to.
    pub fn send_raw(&self, clients: &ClientManager, handle: ClientHandle) -> (r: Result<
        SocketAddr,
        LanMouseConnectionError,
    >)
        requires
            clients.wf(),
        ensures
            match connection_of(self@, clients@, handle) {
                Some(a) => r == Ok::<SocketAddr, LanMouseConnectionError>(a),
                None => r is Err && r->Err_0 is NotConnected,
            },
    {
        match self.connection(clients, handle) {
            Some(a) => Ok(a),
            None => Err(LanMouseConnectionError::NotConnected),
        }
    }

    /// What becomes of an event for a client.
    pub fn send(&mut self, clients: &ClientManager, handle: ClientHandle) -> (r: SendPlan)
        requires
            clients.wf(),
        ensures
            (final(self)@, r) == send_plan(old(self)@, clients@, handle),
            final(self).ipv6() == old(self).ipv6(),
    {
        match self.connection(clients, handle) {
            Some(a) => if clients.alive(handle) {
                SendPlan::Send(a)
            } else {
                SendPlan::TargetEmulationDisabled
            },
            None => if self.connecting.contains(handle) {
                SendPlan::NotConnected
            } else {
                let _ = self.connecting.insert(handle);
                SendPlan::Connect
            },
        }
    }

    /// The addresses at which a client is tried, where it is known.
    pub fn connect_to_handle(&self, clients: &ClientManager, handle: ClientHandle) -> (r: Option<
        Vec<SocketAddr>,
    >)
        requires
            clients.wf(),
        ensures
            match client::client_with(clients@, handle) {
                Some(c) => r is Some && r->0@ == tried_addrs(
                    c.state.ips,
                    c.config.port,
                    self.ipv6(),
                ),
                None => r is None,
            },
    {
        match clients.get_ips(handle) {
            Some(ips) => {
                let port: u16 = match clients.get_port(handle) {
                    Some(p) => p,
                    None => DEFAULT_PORT,
                };
                Some(candidate_addrs(&ips, port, self.ipv6_enabled))
            },
            None => None,
        }
    }

    /// A connection to a client was made; the client is from now on reached there.
    pub fn on_connected(
        &mut self,
        clients: &mut ClientManager,
        handle: ClientHandle,
        addr: SocketAddr,
    )
        requires
            old(clients).wf(),
        ensures
            final(clients).wf(),
            final(self)@ == conn_made(old(self)@, handle, addr),
            final(self).ipv6() == old(self).ipv6(),
            final(clients)@ == client::changed(
                old(clients)@,
                handle,
                client::active_addr_set(Some(addr)),
            ),
    {
        clients.set_active_addr(handle, Some(addr));
        let _ = self.conns.insert(addr);
        let _ = self.connecting.remove(handle);
    }

    /// No connection to a client could be made.
    pub fn on_connect_failed(&mut self, handle: ClientHandle)
        ensures
            final(self)@ == conn_failed(old(self)@, handle),
            final(self).ipv6() == old(self).ipv6(),
    {
        let _ = self.connecting.remove(handle);
    }

    /// A connection to a client is closed.
    pub fn disconnect(
        &mut self,
        clients: &mut ClientManager,
        handle: ClientHandle,
        addr: SocketAddr,
    )
        requires
            old(clients).wf(),
        ensures
            final(clients).wf(),
            final(self)@ == conn_closed(old(self)@, addr),
            final(self).ipv6() == old(self).ipv6(),
            final(clients)@ == client::changed(
                old(clients)@,
                handle,
                client::active_addr_set(None),
            ),
    {
        let _ = self.conns.remove(addr);
        clients.set_active_addr(handle, None);
    }

    /// A ping was answered, with whether the other device emulates.
    pub fn on_pong(
        &mut self,
        clients: &mut ClientManager,
        handle: ClientHandle,
        addr: SocketAddr,
        alive: bool,
    )
        requires
            old(clients).wf(),
        ensures
            final(clients).wf(),
            final(self)@ == (ConnectionsView {
                answered: old(self)@.answered.insert(addr),
                ..old(self)@
            }),
            final(self).ipv6() == old(self).ipv6(),
            final(clients)@ == client::changed(
                client::changed(old(clients)@, handle, client::active_addr_set(Some(addr))),
                handle,
                client::alive_set(alive),
            ),
    {
        clients.set_active_addr(handle, Some(addr));
        clients.set_alive(handle, alive);
        let _ = self.ping_response.insert(addr);
    }

    /// Whether an address has answered a ping of this round; starts a new round.
    pub fn take_answer(&mut self, addr: SocketAddr) -> (r: bool)
        ensures
            r == old(self)@.answered.contains(addr),
            final(self)@ == (ConnectionsView {
                answered: old(self)@.answered.remove(addr),
                ..old(self)@
            }),
            final(self).ipv6() == old(self).ipv6(),
    {
        self.ping_response.remove(addr)
    }
}

// ----- pings ----------------------------------------------------------------

/// What a connection is asked to do to stay alive.
#[derive(Clone, Copy, PartialEq, Eq, Structural, Debug)]
pub enum PingAction {
    /// Send a ping.
    Send,
    /// Pause, in milliseconds.
    Sleep(u64),
    /// See whether a ping was answered.
    Check,
    /// Close the connection.
    Close,
    /// Return.
    Return,
}

/// What came of it.
#[derive(Clone, Copy, PartialEq, Eq, Structural, Debug)]
pub enum PingReply {
    /// The ping was sent.
    Sent,
    /// The ping could not be sent.
    SendFailed,
    /// The pause is over.
    Slept,
    /// Whether a ping was answered.
    Answered(bool),
}

/// The pings sent in this round grow, or a new round starts.
pub open spec fn ping_step(sent: u8, r: PingReply) -> (u8, Seq<PingAction>) {
    match r {
        PingReply::Sent => (sent, seq![PingAction::Sleep(PING_INTERVAL)]),
        PingReply::SendFailed => (sent, seq![PingAction::Close, PingAction::Check]),
        PingReply::Slept => if sent + 1 < PINGS {
            ((sent + 1) as u8, seq![PingAction::Send])
        } else {
            (sent, seq![PingAction::Check])
        },
        PingReply::Answered(true) => (0, seq![PingAction::Send]),
        PingReply::Answered(false) => (sent, seq![PingAction::Close, PingAction::Return]),
    }
}

/// Keeps a connection alive.
#[derive(Debug)]
pub struct PingPong {
    sent: u8,
}

impl View for PingPong {
    type V = u8;

    closed spec fn view(&self) -> u8 {
        self.sent
    }
}

impl PingPong {
    /// Before the first ping.
    pub fn new() -> (r: (PingPong, PingAction))
        ensures
            r.0@ == 0,
            r.1 == PingAction::Send,
    {
        (PingPong { sent: 0 }, PingAction::Send)
    }

    /// Takes what came of an action; says what is done next.
    pub fn step(&mut self, reply: PingReply) -> (r: Vec<PingAction>)
        requires
            old(self)@ < PINGS,
        ensures
            (final(self)@, r@) == ping_step(old(self)@, reply),
            final(self)@ < PINGS,
    {
        let mut r: Vec<PingAction> = Vec::new();
        match reply {
            PingReply::Sent => r.push(PingAction::Sleep(PING_INTERVAL)),
            PingReply::SendFailed => {
                r.push(PingAction::Close);
                r.push(PingAction::Check);
            },
            PingReply::Slept => {
                if self.sent + 1 < PINGS {
                    self.sent = self.sent + 1;
                    r.push(PingAction::Send);
                } else {
                    r.push(PingAction::Check);
                }
            },
            PingReply::Answered(answered) => {
                if answered {
                    self.sent = 0;
                    r.push(PingAction::Send);
                } else {
                    r.push(PingAction::Close);
                    r.push(PingAction::Return);
                }
            },
        }
        assert(r@ =~= ping_step(old(self)@, reply).1);
        r
    }
}

// ----- datagrams ------------------------------------------------------------

/// What was received.
#[derive(Debug)]
pub enum Datagram {
    /// A clipboard text.
    Clipboard(String),
    /// A clipboard message that is none.
    Dropped,
    /// The bytes of an event, filled up to the size of the largest one.
    Event(Vec<u8>),
}

/// Contents of a [`Datagram`].
#[verifier::ext_equal]
pub enum DatagramView {
    /// See [`Datagram::Clipboard`].
    Clipboard(Seq<char>),
    /// See [`Datagram::Dropped`].
    Dropped,
    /// See [`Datagram::Event`].
    Event(Seq<u8>),
}

impl View for Datagram {
    type V = DatagramView;

    open spec fn view(&self) -> DatagramView {
        match self {
            Datagram::Clipboard(t) => DatagramView::Clipboard(t@),
            Datagram::Dropped => DatagramView::Dropped,
            Datagram::Event(b) => DatagramView::Event(b@),
        }
    }
}

/// Bytes cut or filled up with zeros to a length.
pub open spec fn fixed_length(bytes: Seq<u8>, len: nat) -> Seq<u8> {
    Seq::new(
        len,
        |i: int|
            if i < bytes.len() {
                bytes[i]
            } else {
                0u8
            },
    )
}

/// What bytes from a connection are, where events have at most `max_event_size` bytes.
pub open spec fn datagram(bytes: Seq<u8>, max_event_size: nat) -> DatagramView {
    if bytes.len() >= 5 && bytes[0] == CLIPBOARD_MSG_TYPE {
        match clipboard::clipboard_text(bytes) {
            Some(t) => DatagramView::Clipboard(t),
            None => DatagramView::Dropped,
        }
    } else {
        DatagramView::Event(fixed_length(bytes, max_event_size))
    }
}

/// What bytes from a connection are.
pub fn classify(bytes: &[u8], max_event_size: usize) -> (r: Datagram)
    ensures
        r@ == datagram(bytes@, max_event_size as nat),
{
    let n: usize = bytes.len();
    if n >= 5 && bytes[0] == CLIPBOARD_MSG_TYPE {
        return match decode_clipboard_msg(bytes) {
            Some(t) => Datagram::Clipboard(t),
            None => Datagram::Dropped,
        };
    }
    let mut fixed: Vec<u8> = Vec::new();
    let mut i: usize = 0;
    while i < max_event_size
        invariant
            n == bytes@.len(),
            i <= max_event_size,
            fixed@.len() == i,
            forall|j: int|
                0 <= j < i ==> fixed@[j] == fixed_length(bytes@, max_event_size as nat)[j],
        decreases max_event_size - i,
    {
        fixed.push(
            if i < n {
                bytes[i]
            } else {
                0
            },
        );
        i += 1;
    }
    assert(fixed@ =~= fixed_length(bytes@, max_event_size as nat));
    Datagram::Event(fixed)
}

// ----- laws -----------------------------------------------------------------

/// At most one connection to a client is made at a time: while one is made no other is started,
/// and when it has been made or has failed the next one may be.
pub proof fn law_one_attempt(
    s: ConnectionsView,
    clients: Seq<ClientView>,
    handle: ClientHandle,
    addr: SocketAddr,
)
    requires
        send_plan(s, clients, handle).1 == SendPlan::Connect,
    ensures
        ({
            let t = send_plan(s, clients, handle).0;
            &&& !s.connecting.contains(handle)
            &&& send_plan(t, clients, handle) == (t, SendPlan::NotConnected)
            &&& !conn_made(t, handle, addr).connecting.contains(handle)
            &&& !conn_failed(t, handle).connecting.contains(handle)
        }),
{
}

proof fn lemma_changed_client(
    clients: Seq<ClientView>,
    handle: ClientHandle,
    addr: Option<SocketAddr>,
)
    ensures
        match client::client_with(clients, handle) {
            Some(c) => client::client_with(
                client::changed(clients, handle, client::active_addr_set(addr)),
                handle,
            ) == Some(client::active_addr_set(addr)(c)),
            None => client::client_with(
                client::changed(clients, handle, client::active_addr_set(addr)),
                handle,
            ) is None,
        },
    decreases clients.len(),
{
    if clients.len() > 0 {
        let f = client::active_addr_set(addr);
        if clients[0].handle != handle {
            lemma_changed_client(clients.skip(1), handle, addr);
        }
        assert(client::changed(clients, handle, f).skip(1) =~= client::changed(
            clients.skip(1),
            handle,
            f,
        ));
    }
}

/// A client is reached at the address at which a connection to it was made.
pub proof fn law_connected_is_reached(
    s: ConnectionsView,
    clients: Seq<ClientView>,
    handle: ClientHandle,
    addr: SocketAddr,
)
    requires
        client::client_with(clients, handle) is Some,
    ensures
        connection_of(
            conn_made(s, handle, addr),
            client::changed(clients, handle, client::active_addr_set(Some(addr))),
            handle,
        ) == Some(addr),
{
    lemma_changed_client(clients, handle, Some(addr));
}

/// After a connection to a client was closed, the next event for it starts a new one, unless one
/// is being made.
pub proof fn law_reconnect(
    s: ConnectionsView,
    clients: Seq<ClientView>,
    handle: ClientHandle,
    addr: SocketAddr,
)
    ensures
        ({
            let t = conn_closed(s, addr);
            let after = client::changed(clients, handle, client::active_addr_set(None));
            send_plan(t, after, handle).1 == (if s.connecting.contains(handle) {
                SendPlan::NotConnected
            } else {
                SendPlan::Connect
            })
        }),
{
    lemma_changed_client(clients, handle, None);
}

/// Nothing is sent over a connection that was closed.
pub proof fn law_closed_is_not_used(
    s: ConnectionsView,
    clients: Seq<ClientView>,
    handle: ClientHandle,
    addr: SocketAddr,
)
    ensures
        connection_of(conn_closed(s, addr), clients, handle) != Some(addr),
        send_plan(conn_closed(s, addr), clients, handle).1 != SendPlan::Send(addr),
{
}

/// A connection is kept as long as at least one ping of each round is answered, and closed when a
/// round passes without an answer.
pub proof fn law_ping_round(sent: u8)
    requires
        sent < PINGS,
    ensures
        ping_step(sent, PingReply::Answered(true)) == (0u8, seq![PingAction::Send]),
        ping_step(sent, PingReply::Answered(false)).1 == seq![
            PingAction::Close,
            PingAction::Return,
        ],
        ping_step(3, PingReply::Slept).1 == seq![PingAction::Check],
        sent < 3 ==> ping_step(sent, PingReply::Slept) == (
            (sent + 1) as u8,
            seq![PingAction::Send],
        ),
{
}

/// Where the newer family is off, no address of it is tried; every address that is tried is one
/// of the client's, at its port.
pub proof fn law_tried_addrs(ips: Seq<IpAddr>, port: u16, ipv6_enabled: bool, i: int)
    requires
        0 <= i < tried_addrs(ips, port, ipv6_enabled).len(),
    ensures
        ({
            let a = tried_addrs(ips, port, ipv6_enabled)[i];
            &&& a == net::addr_at(a.ip, port)
            &&& ips.contains(a.ip)
            &&& usable(a.ip, ipv6_enabled)
        }),
    decreases ips.len(),
{
    let front = tried_addrs(ips.drop_last(), port, ipv6_enabled);
    if i < front.len() {
        law_tried_addrs(ips.drop_last(), port, ipv6_enabled, i);
        let a = front[i];
        let k = choose|k: int| 0 <= k < ips.drop_last().len() && ips.drop_last()[k] == a.ip;
        assert(ips[k] == a.ip);
    } else {
        assert(ips[ips.len() - 1] == ips.last());
    }
}

/// A client is tried at each of its addresses that may be used, in order, at its port.
pub proof fn law_every_usable_address_is_tried(ips: Seq<IpAddr>, port: u16, ipv6_enabled: bool)
    ensures
        tried_addrs(ips, port, ipv6_enabled) == ips.filter(
            |ip: IpAddr| ipv6_enabled || ip is V4,
        ).map_values(|ip: IpAddr| SocketAddr { ip, port, flowinfo: 0, scope_id: 0 }),
    decreases ips.len(),
{
    reveal(Seq::filter);
    let p = |ip: IpAddr| ipv6_enabled || ip is V4;
    let f = |ip: IpAddr| SocketAddr { ip, port, flowinfo: 0, scope_id: 0 };
    if ips.len() > 0 {
        let front = ips.drop_last();
        law_every_usable_address_is_tried(front, port, ipv6_enabled);
        if p(ips.last()) {
            assert(ips.filter(p).map_values(f) =~= front.filter(p).map_values(f).push(
                f(ips.last()),
            ));
        }
    } else {
        assert(ips.filter(p).map_values(f) =~= tried_addrs(ips, port, ipv6_enabled));
    }
}

/// An event for a client goes over the connection at its active address where there is one and
/// the device emulates, and the connections stay as they are; it is refused where the device does
/// not emulate. Without a connection one is made, and noted as being made.
pub proof fn law_event_is_sent(s: ConnectionsView, clients: Seq<ClientView>, i: int)
    requires
        client::handles_ascend(clients),
        0 <= i < clients.len(),
    ensures
        ({
            let c = clients[i];
            let plan = send_plan(s, clients, c.handle);
            match c.state.active_addr {
                Some(a) if s.conns.contains(a) => plan == (
                    s,
                    if c.state.alive {
                        SendPlan::Send(a)
                    } else {
                        SendPlan::TargetEmulationDisabled
                    },
                ),
                _ => if s.connecting.contains(c.handle) {
                    plan == (s, SendPlan::NotConnected)
                } else {
                    &&& plan.1 == SendPlan::Connect
                    &&& plan.0.conns == s.conns
                    &&& plan.0.answered == s.answered
                    &&& plan.0.connecting == s.connecting.insert(c.handle)
                },
            }
        }),
{
    let p = client::with_handle(clients[i].handle);
    assert forall|j: int| 0 <= j < i implies !p(#[trigger] clients[j]) by {
        assert(clients[j].handle < clients[i].handle);
    }
    crate::collections::lemma_first_at(clients, p, i);
}

/// Connections that are made, closed or fail change nothing but themselves.
pub proof fn law_connections_change(s: ConnectionsView, handle: ClientHandle, addr: SocketAddr)
    ensures
        conn_made(s, handle, addr).conns == s.conns.insert(addr),
        conn_made(s, handle, addr).connecting == s.connecting.remove(handle),
        conn_made(s, handle, addr).answered == s.answered,
        conn_closed(s, addr).conns == s.conns.remove(addr),
        conn_closed(s, addr).connecting == s.connecting,
        conn_closed(s, addr).answered == s.answered,
        conn_failed(s, handle).conns == s.conns,
        conn_failed(s, handle).connecting == s.connecting.remove(handle),
        conn_failed(s, handle).answered == s.answered,
{
}

/// Between two pings there is a pause of half a second; a ping that cannot be sent closes the
/// connection.
pub proof fn law_ping_sent(sent: u8)
    ensures
        ping_step(sent, PingReply::Sent) == (sent, seq![PingAction::Sleep(500)]),
        ping_step(sent, PingReply::SendFailed) == (
            sent,
            seq![PingAction::Close, PingAction::Check],
        ),
{
}

/// What comes in is a clipboard text where it is a message with one, is dropped where it only
/// starts like one, and is an event else: its bytes, cut or filled up with zeros.
pub proof fn law_datagram(t: Seq<char>, bytes: Seq<u8>, max: nat)
    requires
        vstd::utf8::encode_utf8(t).len() < 0x1_0000_0000,
    ensures
        datagram(clipboard::clipboard_msg(t), max) == DatagramView::Clipboard(t),
        bytes.len() >= 5 && bytes[0] == 0xFF && clipboard::clipboard_text(bytes) is None
            ==> datagram(bytes, max) == DatagramView::Dropped,
        bytes.len() < 5 || bytes[0] != 0xFF ==> (datagram(bytes, max) matches DatagramView::Event(e)
            && e.len() == max && (forall|i: int|
            0 <= i < max ==> #[trigger] e[i] == if i < bytes.len() {
                bytes[i]
            } else {
                0u8
            })),
{
    clipboard::law_decode_inverts_encode(t, Seq::empty());
    let m = clipboard::clipboard_msg(t);
    assert(m + Seq::<u8>::empty() =~= m);
}

/// What a user is told of a failure; a failure of the transport speaks for itself.
pub proof fn law_error_message(e: LanMouseConnectionError)
    ensures
        e is NotConnected ==> error_message(e) == "not connected"@,
        e is TargetEmulationDisabled ==> error_message(e)
            == "emulation is disabled on the target device"@,
        e is Timeout ==> error_message(e) == "Connection timed out"@,
        e matches LanMouseConnectionError::Transport(t) ==> error_message(e) == t@,
{
}

} // verus!

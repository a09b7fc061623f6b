//! The table of configured clients.
use crate::ipc::{Client, ClientConfig, ClientHandle, ClientState, ClientView, Position};
use crate::net::{clone_ips, IpAddr, SocketAddr};
use crate::{collections, ipc, text};
use vstd::prelude::*;

verus! {

// ----- model ----------------------------------------------------------------

/// Handles ascend, so that none occurs twice.
pub open spec fn handles_ascend(s: Seq<ClientView>) -> bool {
    forall|i: int, j: int|
        0 <= i < j < s.len() ==> (#[trigger] s[i]).handle < (#[trigger] s[j]).handle
}

/// Whether a client has a handle.
pub open spec fn with_handle(h: ClientHandle) -> spec_fn(ClientView) -> bool {
    |c: ClientView| c.handle == h
}

/// The client with a handle.
pub open spec fn client_with(s: Seq<ClientView>, h: ClientHandle) -> Option<ClientView> {
    collections::first_where(s, with_handle(h))
}

/// The clients after the one with a handle has been changed by `f`.
pub open spec fn changed(s: Seq<ClientView>, h: ClientHandle, f: spec_fn(ClientView) -> ClientView) -> Seq<
    ClientView,
> {
    Seq::new(
        s.len(),
        |i: int|
            if s[i].handle == h {
                f(s[i])
            } else {
                s[i]
            },
    )
}

/// The clients after one has been given a port.
pub open spec fn port_set(port: u16) -> spec_fn(ClientView) -> ClientView {
    |c: ClientView|
        if c.config.port == port {
            c
        } else {
            ClientView {
                config: ipc::ClientConfigView { port, ..c.config },
                state: ipc::ClientStateView {
                    active_addr: match c.state.active_addr {
                        Some(a) => Some(crate::net::addr_at(a.ip, port)),
                        None => None,
                    },
                    ..c.state
                },
                ..c
            }
        }
}

/// The addresses of a list, each once, in the order of their first occurrence.
pub open spec fn each_once(ips: Seq<IpAddr>) -> Seq<IpAddr>
    decreases ips.len(),
{
    if ips.len() == 0 {
        ips
    } else {
        let front = each_once(ips.drop_last());
        if front.contains(ips.last()) {
            front
        } else {
            front.push(ips.last())
        }
    }
}

/// The client with all its addresses taken from its fixed ones and those of DNS.
pub open spec fn ips_updated(c: ClientView) -> ClientView {
    ClientView {
        state: ipc::ClientStateView {
            ips: each_once(c.config.fix_ips + c.state.dns_ips),
            ..c.state
        },
        ..c
    }
}

/// Changes the fixed addresses.
pub open spec fn fix_ips_set(ips: Seq<IpAddr>) -> spec_fn(ClientView) -> ClientView {
    |c: ClientView|
        ips_updated(
            ClientView { config: ipc::ClientConfigView { fix_ips: ips, ..c.config }, ..c },
        )
}

/// Changes the addresses of DNS.
pub open spec fn dns_ips_set(ips: Seq<IpAddr>) -> spec_fn(ClientView) -> ClientView {
    |c: ClientView|
        ips_updated(ClientView { state: ipc::ClientStateView { dns_ips: ips, ..c.state }, ..c })
}

/// Changes the hostname; another one makes the active address and the addresses of DNS void.
pub open spec fn hostname_set(hostname: Option<Seq<char>>) -> spec_fn(ClientView) -> ClientView {
    |c: ClientView|
        if c.config.hostname == hostname {
            c
        } else {
            ips_updated(
                ClientView {
                    config: ipc::ClientConfigView { hostname, ..c.config },
                    state: ipc::ClientStateView {
                        active_addr: None,
                        dns_ips: Seq::empty(),
                        ..c.state
                    },
                    ..c
                },
            )
        }
}

/// Changes the position.
pub open spec fn pos_set(pos: Position) -> spec_fn(ClientView) -> ClientView {
    |c: ClientView| ClientView { config: ipc::ClientConfigView { pos, ..c.config }, ..c }
}

/// Changes the enter hook.
pub open spec fn cmd_set(cmd: Option<Seq<char>>) -> spec_fn(ClientView) -> ClientView {
    |c: ClientView| ClientView { config: ipc::ClientConfigView { cmd, ..c.config }, ..c }
}

/// Marks a client as active or not.
pub open spec fn active_set(active: bool) -> spec_fn(ClientView) -> ClientView {
    |c: ClientView| ClientView { state: ipc::ClientStateView { active, ..c.state }, ..c }
}

/// Marks a client as being resolved or not.
pub open spec fn resolving_set(resolving: bool) -> spec_fn(ClientView) -> ClientView {
    |c: ClientView| ClientView { state: ipc::ClientStateView { resolving, ..c.state }, ..c }
}

/// Changes the address to send to.
pub open spec fn active_addr_set(active_addr: Option<SocketAddr>) -> spec_fn(
    ClientView,
) -> ClientView {
    |c: ClientView| ClientView { state: ipc::ClientStateView { active_addr, ..c.state }, ..c }
}

/// Marks a client as available or not.
pub open spec fn alive_set(alive: bool) -> spec_fn(ClientView) -> ClientView {
    |c: ClientView| ClientView { state: ipc::ClientStateView { alive, ..c.state }, ..c }
}

/// The lowest handle from `i` on that is free, where `i` clients have the handles below.
pub open spec fn free_from(s: Seq<ClientView>, i: nat) -> nat
    decreases s.len() - i,
{
    if i < s.len() && s[i as int].handle == i {
        free_from(s, i + 1)
    } else {
        i
    }
}

/// The lowest free handle.
pub open spec fn free_handle(s: Seq<ClientView>) -> nat {
    free_from(s, 0)
}

/// The clients after one has been added under the lowest free handle.
pub open spec fn added(
    s: Seq<ClientView>,
    config: ipc::ClientConfigView,
    state: ipc::ClientStateView,
) -> Seq<ClientView> {
    let k = free_handle(s);
    s.insert(k as int, ClientView { handle: k as u64, config, state })
}

/// The clients after one has been removed.
pub open spec fn removed(s: Seq<ClientView>, h: ClientHandle) -> Seq<ClientView> {
    collections::without_first(s, with_handle(h))
}

/// Whether a client is active at a position.
pub open spec fn active_at(pos: Position) -> spec_fn(ClientView) -> bool {
    |c: ClientView| c.state.active && c.config.pos == pos
}

/// The handle of an optional client.
pub open spec fn handle_of(c: Option<ClientView>) -> Option<ClientHandle> {
    match c {
        Some(c) => Some(c.handle),
        None => None,
    }
}

/// The handles of the clients for which `p` holds.
pub open spec fn handles_where(s: Seq<ClientView>, p: spec_fn(ClientView) -> bool) -> Seq<ClientHandle>
    decreases s.len(),
{
    if s.len() == 0 {
        Seq::empty()
    } else {
        let front = handles_where(s.drop_last(), p);
        if p(s.last()) {
            front.push(s.last().handle)
        } else {
            front
        }
    }
}

/// Every client.
pub open spec fn any_client() -> spec_fn(ClientView) -> bool {
    |c: ClientView| true
}

/// Every active client.
pub open spec fn active_client() -> spec_fn(ClientView) -> bool {
    |c: ClientView| c.state.active
}

/// A client as it stands in the configuration file.
#[derive(Debug)]
pub struct ConfigClient {
    /// Fixed addresses.
    pub ips: Vec<IpAddr>,
    /// Hostname.
    pub hostname: Option<String>,
    /// Port.
    pub port: u16,
    /// Position.
    pub pos: Position,
    /// Whether the client is active.
    pub active: bool,
    /// Enter hook.
    pub enter_hook: Option<String>,
}

/// Contents of a [`ConfigClient`].
#[verifier::ext_equal]
pub struct ConfigClientView {
    /// See [`ConfigClient::ips`].
    pub ips: Seq<IpAddr>,
    /// See [`ConfigClient::hostname`].
    pub hostname: Option<Seq<char>>,
    /// See [`ConfigClient::port`].
    pub port: u16,
    /// See [`ConfigClient::pos`].
    pub pos: Position,
    /// See [`ConfigClient::active`].
    pub active: bool,
    /// See [`ConfigClient::enter_hook`].
    pub enter_hook: Option<Seq<char>>,
}

impl View for ConfigClient {
    type V = ConfigClientView;

    open spec fn view(&self) -> ConfigClientView {
        ConfigClientView {
            ips: self.ips@,
            hostname: text::opt_view(self.hostname),
            port: self.port,
            pos: self.pos,
            active: self.active,
            enter_hook: text::opt_view(self.enter_hook),
        }
    }
}

/// The contents of a list of configured clients.
pub open spec fn config_views(v: Seq<ConfigClient>) -> Seq<ConfigClientView> {
    Seq::new(v.len(), |i: int| v[i]@)
}

/// The clients after one from the configuration file has been added.
pub open spec fn added_config(s: Seq<ClientView>, c: ConfigClientView) -> Seq<ClientView> {
    added(
        s,
        ipc::ClientConfigView {
            hostname: c.hostname,
            fix_ips: c.ips,
            port: c.port,
            pos: c.pos,
            cmd: c.enter_hook,
        },
        ipc::ClientStateView {
            active: c.active,
            ips: each_once(c.ips),
            ..ipc::default_state()
        },
    )
}

proof fn lemma_free_from(s: Seq<ClientView>, i: nat)
    requires
        handles_ascend(s),
        i <= s.len(),
        forall|j: int| 0 <= j < i ==> (#[trigger] s[j]).handle == j,
    ensures
        i <= free_from(s, i) <= s.len(),
        forall|j: int| 0 <= j < free_from(s, i) ==> (#[trigger] s[j]).handle == j,
        forall|j: int| free_from(s, i) <= j < s.len() ==> (#[trigger] s[j]).handle > free_from(
            s,
            i,
        ),
    decreases s.len() - i,
{
    if i < s.len() && s[i as int].handle == i {
        lemma_free_from(s, i + 1);
    } else if i < s.len() {
        if i > 0 {
            assert(s[i - 1].handle < s[i as int].handle);
        }
        assert(s[i as int].handle > i);
        assert forall|j: int| i <= j < s.len() implies (#[trigger] s[j]).handle > i by {
            if j > i {
                assert(s[i as int].handle < s[j].handle);
            }
        }
    }
}

/// The lowest free handle: all below are taken, and it is not.
pub proof fn lemma_free_handle(s: Seq<ClientView>)
    requires
        handles_ascend(s),
    ensures
        free_handle(s) <= s.len(),
        forall|j: int| 0 <= j < free_handle(s) ==> (#[trigger] s[j]).handle == j,
        forall|j: int| 0 <= j < s.len() ==> (#[trigger] s[j]).handle != free_handle(s),
{
    lemma_free_from(s, 0);
}

/// A client that is added gets a handle that no client had, and the table stays in order.
pub proof fn lemma_added(
    s: Seq<ClientView>,
    config: ipc::ClientConfigView,
    state: ipc::ClientStateView,
)
    requires
        handles_ascend(s),
        s.len() < u64::MAX,
    ensures
        free_handle(s) <= s.len(),
        handles_ascend(added(s, config, state)),
        client_with(s, free_handle(s) as u64) is None,
        client_with(added(s, config, state), free_handle(s) as u64) == Some(
            ClientView { handle: free_handle(s) as u64, config, state },
        ),
{
    lemma_free_from(s, 0);
    let k = free_handle(s);
    let t = added(s, config, state);
    assert forall|i: int, j: int| 0 <= i < j < t.len() implies (#[trigger] t[i]).handle < (
    #[trigger] t[j]).handle by {
        let i2 = if i < k {
            i
        } else {
            i - 1
        };
        let j2 = if j < k {
            j
        } else {
            j - 1
        };
        if i != k && j != k {
            assert(t[i] == s[i2] && t[j] == s[j2]);
            assert(s[i2].handle < s[j2].handle);
        } else if i == k {
            assert(t[j] == s[j2]);
        } else {
            assert(t[i] == s[i2]);
        }
    }
    assert forall|j: int| 0 <= j < s.len() implies !with_handle(k as u64)(#[trigger] s[j]) by {}
    collections::lemma_first_none(s, with_handle(k as u64));
    assert forall|j: int| 0 <= j < k implies !with_handle(k as u64)(#[trigger] t[j]) by {
        assert(t[j] == s[j]);
    }
    assert(t[k as int].handle == k);
    collections::lemma_first_at(t, with_handle(k as u64), k as int);
}

/// The table of clients, in ascending order of their handles.
#[derive(Debug)]
pub struct ClientManager {
    clients: Vec<Client>,
}

impl View for ClientManager {
    type V = Seq<ClientView>;

    closed spec fn view(&self) -> Seq<ClientView> {
        ipc::client_views(self.clients@)
    }
}

impl ClientManager {
    /// Whether the handles ascend.
    pub open spec fn wf(&self) -> bool {
        handles_ascend(self@)
    }

    fn position(&self, handle: ClientHandle) -> (r: Option<usize>)
        requires
            self.wf(),
        ensures
            match r {
                Some(i) => {
                    &&& i < self.clients@.len()
                    &&& self.clients@[i as int].handle == handle
                    &&& client_with(self@, handle) == Some(self@[i as int])
                    &&& forall|j: int|
                        0 <= j < self@.len() && j != i ==> (#[trigger] self@[j]).handle != handle
                },
                None => {
                    &&& client_with(self@, handle) is None
                    &&& forall|j: int|
                        0 <= j < self@.len() ==> (#[trigger] self@[j]).handle != handle
                },
            },
    {
        let n: usize = self.clients.len();
        let mut i: usize = 0;
        while i < n
            invariant
                n == self.clients@.len(),
                i <= n,
                self.wf(),
                forall|j: int| 0 <= j < i ==> (#[trigger] self@[j]).handle != handle,
            decreases n - i,
        {
            assert(self@[i as int] == self.clients@[i as int]@);
            if self.clients[i].handle == handle {
                proof {
                    collections::lemma_first_at(self@, with_handle(handle), i as int);
                }
                return Some(i);
            }
            i += 1;
        }
        proof {
            collections::lemma_first_none(self@, with_handle(handle));
        }
        None
    }

    /// Changes a port; the active address follows it.
    pub fn set_port(&mut self, handle: ClientHandle, port: u16)
        requires
            old(self).wf(),
        ensures
            final(self).wf(),
            final(self)@ == changed(old(self)@, handle, port_set(port)),
    {
        match self.position(handle) {
            Some(i) => {
                let c: &mut Client = &mut self.clients[i];
                if c.config.port != port {
                    c.config.port = port;
                    c.state.active_addr = match c.state.active_addr {
                        Some(a) => Some(SocketAddr::new(a.ip, port)),
                        None => None,
                    };
                }
            },
            None => {},
        }
        assert(self@ =~= changed(old(self)@, handle, port_set(port)));
    }

    /// The empty table.
    pub fn new() -> (r: ClientManager)
        ensures
            r.wf(),
            r@ == Seq::<ClientView>::empty(),
    {
        let r: ClientManager = ClientManager { clients: Vec::new() };
        assert(r@ =~= Seq::<ClientView>::empty());
        r
    }

    /// All clients, in ascending order of their handles.
    pub fn get_client_states(&self) -> (r: Vec<Client>)
        ensures
            ipc::client_views(r@) == self@,
    {
        ipc::clone_clients(&self.clients)
    }

    /// Number of clients.
    pub fn len(&self) -> (r: usize)
        ensures
            r == self@.len(),
    {
        self.clients.len()
    }

    /// The client at a place in the table.
    pub fn nth(&self, i: usize) -> (r: &Client)
        requires
            i < self@.len(),
        ensures
            r@ == self@[i as int],
    {
        &self.clients[i]
    }

    fn add(&mut self, config: ClientConfig, state: ClientState) -> (r: ClientHandle)
        requires
            old(self).wf(),
            old(self)@.len() < u64::MAX,
        ensures
            final(self).wf(),
            final(self)@ == added(old(self)@, config@, state@),
            r == free_handle(old(self)@),
    {
        let n: usize = self.clients.len();
        let mut k: usize = 0;
        while k < n && self.clients[k].handle == k as u64
            invariant
                n == self.clients@.len() == self@.len(),
                k <= n,
                self.wf(),
                free_handle(self@) == free_from(self@, k as nat),
            decreases n - k,
        {
            assert(self@[k as int] == self.clients@[k as int]@);
            k += 1;
        }
        proof {
            if k < n {
                assert(self@[k as int] == self.clients@[k as int]@);
            }
            lemma_added(self@, config@, state@);
        }
        self.clients.insert(k, Client { handle: k as u64, config, state });
        assert(self@ =~= added(old(self)@, config@, state@));
        k as u64
    }

    /// Adds a client with the default configuration under the lowest free handle.
    pub fn add_client(&mut self) -> (r: ClientHandle)
        requires
            old(self).wf(),
            old(self)@.len() < u64::MAX,
        ensures
            final(self).wf(),
            final(self)@ == added(old(self)@, ipc::default_config(), ipc::default_state()),
            r == free_handle(old(self)@),
    {
        self.add(ClientConfig::default(), ClientState::default())
    }

    /// Adds a client from the configuration file.
    pub fn add_with_config(&mut self, c: ConfigClient) -> (r: ClientHandle)
        requires
            old(self).wf(),
            old(self)@.len() < u64::MAX,
        ensures
            final(self).wf(),
            final(self)@ == added_config(old(self)@, c@),
            r == free_handle(old(self)@),
    {
        let ips: Vec<IpAddr> = unique_ips(&c.ips);
        let mut state: ClientState = ClientState::default();
        state.active = c.active;
        state.ips = ips;
        let config: ClientConfig = ClientConfig {
            hostname: c.hostname,
            fix_ips: c.ips,
            port: c.port,
            pos: c.pos,
            cmd: c.enter_hook,
        };
        assert(state@ =~= ipc::ClientStateView {
            active: c.active,
            ips: each_once(c.ips@),
            ..ipc::default_state()
        });
        self.add(config, state)
    }

    /// Removes a client; gives it back.
    pub fn remove_client(&mut self, handle: ClientHandle) -> (r: Option<Client>)
        requires
            old(self).wf(),
        ensures
            final(self).wf(),
            final(self)@ == removed(old(self)@, handle),
            opt_client_view(r) == client_with(old(self)@, handle),
    {
        match self.position(handle) {
            Some(i) => {
                proof {
                    collections::lemma_index_at(self@, with_handle(handle), i as int);
                }
                assert(self@[i as int] == self.clients@[i as int]@);
                let c: Client = self.clients.remove(i);
                assert(self@ =~= removed(old(self)@, handle));
                Some(c)
            },
            None => {
                proof {
                    collections::lemma_index_at(
                        self@,
                        with_handle(handle),
                        self@.len() as int,
                    );
                }
                None
            },
        }
    }

    /// The client with a handle.
    pub fn get_state(&self, handle: ClientHandle) -> (r: Option<Client>)
        requires
            self.wf(),
        ensures
            opt_client_view(r) == client_with(self@, handle),
    {
        match self.position(handle) {
            Some(i) => {
                assert(self@[i as int] == self.clients@[i as int]@);
                Some(self.clients[i].clone())
            },
            None => None,
        }
    }

    /// The hostname of a client.
    pub fn get_hostname(&self, handle: ClientHandle) -> (r: Option<String>)
        requires
            self.wf(),
        ensures
            text::opt_view(r) == (match client_with(self@, handle) {
                Some(c) => c.config.hostname,
                None => None,
            }),
    {
        match self.position(handle) {
            Some(i) => {
                assert(self@[i as int] == self.clients@[i as int]@);
                text::opt_clone(&self.clients[i].config.hostname)
            },
            None => None,
        }
    }

    /// The address to send to.
    pub fn active_addr(&self, handle: ClientHandle) -> (r: Option<SocketAddr>)
        requires
            self.wf(),
        ensures
            r == (match client_with(self@, handle) {
                Some(c) => c.state.active_addr,
                None => None,
            }),
    {
        match self.position(handle) {
            Some(i) => {
                assert(self@[i as int] == self.clients@[i as int]@);
                self.clients[i].state.active_addr
            },
            None => None,
        }
    }

    /// Whether a client is available for emulation.
    pub fn alive(&self, handle: ClientHandle) -> (r: bool)
        requires
            self.wf(),
        ensures
            r == (match client_with(self@, handle) {
                Some(c) => c.state.alive,
                None => false,
            }),
    {
        match self.position(handle) {
            Some(i) => {
                assert(self@[i as int] == self.clients@[i as int]@);
                self.clients[i].state.alive
            },
            None => false,
        }
    }

    /// All addresses of a client.
    pub fn get_ips(&self, handle: ClientHandle) -> (r: Option<Vec<IpAddr>>)
        requires
            self.wf(),
        ensures
            match client_with(self@, handle) {
                Some(c) => r is Some && r->0@ == c.state.ips,
                None => r is None,
            },
    {
        match self.position(handle) {
            Some(i) => {
                assert(self@[i as int] == self.clients@[i as int]@);
                Some(clone_ips(&self.clients[i].state.ips))
            },
            None => None,
        }
    }

    /// The port of a client.
    pub fn get_port(&self, handle: ClientHandle) -> (r: Option<u16>)
        requires
            self.wf(),
        ensures
            r == (match client_with(self@, handle) {
                Some(c) => Some(c.config.port),
                None => None,
            }),
    {
        match self.position(handle) {
            Some(i) => {
                assert(self@[i as int] == self.clients@[i as int]@);
                Some(self.clients[i].config.port)
            },
            None => None,
        }
    }

    /// The position of a client.
    pub fn get_pos(&self, handle: ClientHandle) -> (r: Option<Position>)
        requires
            self.wf(),
        ensures
            r == (match client_with(self@, handle) {
                Some(c) => Some(c.config.pos),
                None => None,
            }),
    {
        match self.position(handle) {
            Some(i) => {
                assert(self@[i as int] == self.clients@[i as int]@);
                Some(self.clients[i].config.pos)
            },
            None => None,
        }
    }

    /// The enter hook of a client.
    pub fn get_enter_cmd(&self, handle: ClientHandle) -> (r: Option<String>)
        requires
            self.wf(),
        ensures
            text::opt_view(r) == (match client_with(self@, handle) {
                Some(c) => c.config.cmd,
                None => None,
            }),
    {
        match self.position(handle) {
            Some(i) => {
                assert(self@[i as int] == self.clients@[i as int]@);
                text::opt_clone(&self.clients[i].config.cmd)
            },
            None => None,
        }
    }

    /// The active client at a position.
    pub fn client_at(&self, pos: Position) -> (r: Option<ClientHandle>)
        ensures
            r == handle_of(collections::first_where(self@, active_at(pos))),
    {
        let n: usize = self.clients.len();
        let mut i: usize = 0;
        while i < n
            invariant
                n == self.clients@.len(),
                i <= n,
                forall|j: int| 0 <= j < i ==> !active_at(pos)(#[trigger] self@[j]),
            decreases n - i,
        {
            assert(self@[i as int] == self.clients@[i as int]@);
            if self.clients[i].state.active && self.clients[i].config.pos == pos {
                proof {
                    collections::lemma_first_at(self@, active_at(pos), i as int);
                }
                return Some(self.clients[i].handle);
            }
            i += 1;
        }
        proof {
            collections::lemma_first_none(self@, active_at(pos));
        }
        None
    }

    /// The handles of all clients.
    pub fn registered_clients(&self) -> (r: Vec<ClientHandle>)
        ensures
            r@ == handles_where(self@, any_client()),
    {
        let mut r: Vec<ClientHandle> = Vec::new();
        let n: usize = self.clients.len();
        let mut i: usize = 0;
        while i < n
            invariant
                n == self.clients@.len(),
                i <= n,
                r@ == handles_where(self@.take(i as int), any_client()),
            decreases n - i,
        {
            assert(self@[i as int] == self.clients@[i as int]@);
            assert(self@.take(i + 1).drop_last() =~= self@.take(i as int));
            r.push(self.clients[i].handle);
            i += 1;
        }
        assert(self@.take(n as int) =~= self@);
        r
    }

    /// The handles of all active clients.
    pub fn active_clients(&self) -> (r: Vec<ClientHandle>)
        ensures
            r@ == handles_where(self@, active_client()),
    {
        let mut r: Vec<ClientHandle> = Vec::new();
        let n: usize = self.clients.len();
        let mut i: usize = 0;
        while i < n
            invariant
                n == self.clients@.len(),
                i <= n,
                r@ == handles_where(self@.take(i as int), active_client()),
            decreases n - i,
        {
            assert(self@[i as int] == self.clients@[i as int]@);
            assert(self@.take(i + 1).drop_last() =~= self@.take(i as int));
            if self.clients[i].state.active {
                r.push(self.clients[i].handle);
            }
            i += 1;
        }
        assert(self@.take(n as int) =~= self@);
        r
    }

    /// Activates a client; says whether it was inactive.
    pub fn activate_client(&mut self, handle: ClientHandle) -> (r: bool)
        requires
            old(self).wf(),
        ensures
            final(self).wf(),
            final(self)@ == changed(old(self)@, handle, active_set(true)),
            r == (client_with(old(self)@, handle) matches Some(c) && !c.state.active),
    {
        let mut r: bool = false;
        match self.position(handle) {
            Some(i) => {
                assert(self@[i as int] == self.clients@[i as int]@);
                let c: &mut Client = &mut self.clients[i];
                r = !c.state.active;
                c.state.active = true;
            },
            None => {},
        }
        assert(self@ =~= changed(old(self)@, handle, active_set(true)));
        r
    }

    /// Deactivates a client; says whether it was active.
    pub fn deactivate_client(&mut self, handle: ClientHandle) -> (r: bool)
        requires
            old(self).wf(),
        ensures
            final(self).wf(),
            final(self)@ == changed(old(self)@, handle, active_set(false)),
            r == (client_with(old(self)@, handle) matches Some(c) && c.state.active),
    {
        let mut r: bool = false;
        match self.position(handle) {
            Some(i) => {
                assert(self@[i as int] == self.clients@[i as int]@);
                let c: &mut Client = &mut self.clients[i];
                r = c.state.active;
                c.state.active = false;
            },
            None => {},
        }
        assert(self@ =~= changed(old(self)@, handle, active_set(false)));
        r
    }

    /// Changes the fixed addresses.
    pub fn set_fix_ips(&mut self, handle: ClientHandle, fix_ips: Vec<IpAddr>)
        requires
            old(self).wf(),
        ensures
            final(self).wf(),
            final(self)@ == changed(old(self)@, handle, fix_ips_set(fix_ips@)),
    {
        match self.position(handle) {
            Some(i) => {
                assert(self@[i as int] == self.clients@[i as int]@);
                let ips: Vec<IpAddr> = all_ips(&fix_ips, &self.clients[i].state.dns_ips);
                let c: &mut Client = &mut self.clients[i];
                c.config.fix_ips = fix_ips;
                c.state.ips = ips;
            },
            None => {},
        }
        assert(self@ =~= changed(old(self)@, handle, fix_ips_set(fix_ips@)));
    }

    /// Changes the addresses of DNS.
    pub fn set_dns_ips(&mut self, handle: ClientHandle, dns_ips: Vec<IpAddr>)
        requires
            old(self).wf(),
        ensures
            final(self).wf(),
            final(self)@ == changed(old(self)@, handle, dns_ips_set(dns_ips@)),
    {
        match self.position(handle) {
            Some(i) => {
                assert(self@[i as int] == self.clients@[i as int]@);
                let ips: Vec<IpAddr> = all_ips(&self.clients[i].config.fix_ips, &dns_ips);
                let c: &mut Client = &mut self.clients[i];
                c.state.dns_ips = dns_ips;
                c.state.ips = ips;
            },
            None => {},
        }
        assert(self@ =~= changed(old(self)@, handle, dns_ips_set(dns_ips@)));
    }

    /// Changes the hostname; says whether it is another one.
    pub fn set_hostname(&mut self, handle: ClientHandle, hostname: Option<String>) -> (r: bool)
        requires
            old(self).wf(),
        ensures
            final(self).wf(),
            final(self)@ == changed(old(self)@, handle, hostname_set(text::opt_view(hostname))),
            r == (client_with(old(self)@, handle) matches Some(c) && c.config.hostname
                != text::opt_view(hostname)),
    {
        let mut r: bool = false;
        match self.position(handle) {
            Some(i) => {
                assert(self@[i as int] == self.clients@[i as int]@);
                if !text::opt_str_eq(&self.clients[i].config.hostname, &hostname) {
                    let none: Vec<IpAddr> = Vec::new();
                    let ips: Vec<IpAddr> = all_ips(&self.clients[i].config.fix_ips, &none);
                    let c: &mut Client = &mut self.clients[i];
                    c.config.hostname = hostname;
                    c.state.active_addr = None;
                    c.state.dns_ips = none;
                    c.state.ips = ips;
                    r = true;
                }
            },
            None => {},
        }
        assert(self@ =~= changed(old(self)@, handle, hostname_set(text::opt_view(hostname))));
        r
    }

    /// Changes the position; says whether the capture has to follow: whether it is another
    /// position and the client is active.
    pub fn set_pos(&mut self, handle: ClientHandle, pos: Position) -> (r: bool)
        requires
            old(self).wf(),
        ensures
            final(self).wf(),
            final(self)@ == changed(old(self)@, handle, pos_set(pos)),
            r == (client_with(old(self)@, handle) matches Some(c) && c.config.pos != pos
                && c.state.active),
    {
        let mut r: bool = false;
        match self.position(handle) {
            Some(i) => {
                assert(self@[i as int] == self.clients@[i as int]@);
                let c: &mut Client = &mut self.clients[i];
                r = c.config.pos != pos && c.state.active;
                c.config.pos = pos;
            },
            None => {},
        }
        assert(self@ =~= changed(old(self)@, handle, pos_set(pos)));
        r
    }

    /// Marks a client as being resolved or not.
    pub fn set_resolving(&mut self, handle: ClientHandle, resolving: bool)
        requires
            old(self).wf(),
        ensures
            final(self).wf(),
            final(self)@ == changed(old(self)@, handle, resolving_set(resolving)),
    {
        match self.position(handle) {
            Some(i) => {
                assert(self@[i as int] == self.clients@[i as int]@);
                let c: &mut Client = &mut self.clients[i];
                c.state.resolving = resolving;
            },
            None => {},
        }
        assert(self@ =~= changed(old(self)@, handle, resolving_set(resolving)));
    }

    /// Changes the enter hook.
    pub fn set_enter_hook(&mut self, handle: ClientHandle, cmd: Option<String>)
        requires
            old(self).wf(),
        ensures
            final(self).wf(),
            final(self)@ == changed(old(self)@, handle, cmd_set(text::opt_view(cmd))),
    {
        match self.position(handle) {
            Some(i) => {
                assert(self@[i as int] == self.clients@[i as int]@);
                let c: &mut Client = &mut self.clients[i];
                c.config.cmd = cmd;
            },
            None => {},
        }
        assert(self@ =~= changed(old(self)@, handle, cmd_set(text::opt_view(cmd))));
    }

    /// Changes the address to send to.
    pub fn set_active_addr(&mut self, handle: ClientHandle, addr: Option<SocketAddr>)
        requires
            old(self).wf(),
        ensures
            final(self).wf(),
            final(self)@ == changed(old(self)@, handle, active_addr_set(addr)),
    {
        match self.position(handle) {
            Some(i) => {
                assert(self@[i as int] == self.clients@[i as int]@);
                let c: &mut Client = &mut self.clients[i];
                c.state.active_addr = addr;
            },
            None => {},
        }
        assert(self@ =~= changed(old(self)@, handle, active_addr_set(addr)));
    }

    /// Marks a client as available for emulation or not.
    pub fn set_alive(&mut self, handle: ClientHandle, alive: bool)
        requires
            old(self).wf(),
        ensures
            final(self).wf(),
            final(self)@ == changed(old(self)@, handle, alive_set(alive)),
    {
        match self.position(handle) {
            Some(i) => {
                assert(self@[i as int] == self.clients@[i as int]@);
                let c: &mut Client = &mut self.clients[i];
                c.state.alive = alive;
            },
            None => {},
        }
        assert(self@ =~= changed(old(self)@, handle, alive_set(alive)));
    }
}

/// The contents of an optional client.
pub open spec fn opt_client_view(c: Option<Client>) -> Option<ClientView> {
    match c {
        Some(c) => Some(c@),
        None => None,
    }
}

/// The addresses of a list, each once.
pub fn unique_ips(ips: &Vec<IpAddr>) -> (r: Vec<IpAddr>)
    ensures
        r@ == each_once(ips@),
{
    let mut r: Vec<IpAddr> = Vec::new();
    let n: usize = ips.len();
    let mut i: usize = 0;
    while i < n
        invariant
            n == ips@.len(),
            i <= n,
            r@ == each_once(ips@.take(i as int)),
        decreases n - i,
    {
        assert(ips@.take(i + 1).drop_last() =~= ips@.take(i as int));
        if !crate::net::contains_ip(&r, ips[i]) {
            r.push(ips[i]);
        }
        i += 1;
    }
    assert(ips@.take(n as int) =~= ips@);
    r
}

/// All addresses of two lists, each once.
pub fn all_ips(fix_ips: &Vec<IpAddr>, dns_ips: &Vec<IpAddr>) -> (r: Vec<IpAddr>)
    ensures
        r@ == each_once(fix_ips@ + dns_ips@),
{
    let mut all: Vec<IpAddr> = clone_ips(fix_ips);
    let mut more: Vec<IpAddr> = clone_ips(dns_ips);
    all.append(&mut more);
    assert(all@ =~= fix_ips@ + dns_ips@);
    unique_ips(&all)
}

/// All addresses of a client are listed once, and they are its fixed ones and those of DNS.
pub proof fn law_each_once(ips: Seq<IpAddr>, ip: IpAddr)
    ensures
        each_once(ips).no_duplicates(),
        each_once(ips).contains(ip) <==> ips.contains(ip),
    decreases ips.len(),
{
    if ips.len() > 0 {
        let front = ips.drop_last();
        let last = ips.last();
        law_each_once(front, ip);
        law_each_once(front, last);
        let e = each_once(front);
        assert(ips =~= front.push(last));
        if ips.contains(ip) {
            let k = choose|k: int| 0 <= k < ips.len() && ips[k] == ip;
            if k < front.len() {
                assert(front[k] == ip);
                let m = choose|m: int| 0 <= m < e.len() && e[m] == ip;
                assert(each_once(ips)[m] == ip);
            } else if !e.contains(last) {
                assert(each_once(ips)[e.len() as int] == ip);
            }
        }
        if each_once(ips).contains(ip) {
            let k = choose|k: int| 0 <= k < each_once(ips).len() && each_once(ips)[k] == ip;
            if k < e.len() {
                assert(e[k] == ip);
                let m = choose|m: int| 0 <= m < front.len() && front[m] == ip;
                assert(ips[m] == ip);
            } else {
                assert(ips[ips.len() - 1] == ip);
            }
        }
        assert forall|a: int, b: int|
            0 <= a < each_once(ips).len() && 0 <= b < each_once(ips).len() && a
                != b implies each_once(ips)[a] != each_once(ips)[b] by {
            if a == e.len() {
                assert(e.contains(e[b]));
            } else if b == e.len() {
                assert(e.contains(e[a]));
            }
        }
    }
}

/// Addresses are kept at the place of their first occurrence: a list without repetitions stays as it
/// is, and a longer list only adds behind.
pub proof fn law_each_once_in_order(ips: Seq<IpAddr>, more: Seq<IpAddr>)
    ensures
        ips.no_duplicates() ==> each_once(ips) == ips,
        each_once(ips).is_prefix_of(each_once(ips + more)),
    decreases ips.len(), more.len(),
{
    if more.len() > 0 {
        law_each_once_in_order(ips, more.drop_last());
        assert((ips + more).drop_last() =~= ips + more.drop_last());
        let a = each_once(ips);
        let b = each_once(ips + more.drop_last());
        let c = each_once(ips + more);
        assert(c.subrange(0, a.len() as int) =~= b.subrange(0, a.len() as int));
    } else {
        assert(ips + more =~= ips);
        assert(each_once(ips).subrange(0, each_once(ips).len() as int) =~= each_once(ips));
        if ips.len() > 0 && ips.no_duplicates() {
            let f = ips.drop_last();
            law_each_once_in_order(f, Seq::empty());
            assert(f.no_duplicates());
            assert(!f.contains(ips.last())) by {
                if f.contains(ips.last()) {
                    let m = choose|m: int| 0 <= m < f.len() && f[m] == ips.last();
                    assert(ips[m] == ips[ips.len() - 1]);
                }
            }
            assert(f.push(ips.last()) =~= ips);
        }
    }
}

/// A client that is changed changes in what it is changed in and in nothing else.
pub proof fn law_setters(
    c: ClientView,
    pos: Position,
    cmd: Option<Seq<char>>,
    on: bool,
    addr: Option<SocketAddr>,
)
    ensures
        ({
            let d = pos_set(pos)(c);
            &&& d.handle == c.handle && d.state == c.state
            &&& d.config == (ipc::ClientConfigView { pos, ..c.config })
        }),
        ({
            let d = cmd_set(cmd)(c);
            &&& d.handle == c.handle && d.state == c.state
            &&& d.config == (ipc::ClientConfigView { cmd, ..c.config })
        }),
        ({
            let d = active_set(on)(c);
            &&& d.handle == c.handle && d.config == c.config
            &&& d.state == (ipc::ClientStateView { active: on, ..c.state })
        }),
        ({
            let d = resolving_set(on)(c);
            &&& d.handle == c.handle && d.config == c.config
            &&& d.state == (ipc::ClientStateView { resolving: on, ..c.state })
        }),
        ({
            let d = active_addr_set(addr)(c);
            &&& d.handle == c.handle && d.config == c.config
            &&& d.state == (ipc::ClientStateView { active_addr: addr, ..c.state })
        }),
        ({
            let d = alive_set(on)(c);
            &&& d.handle == c.handle && d.config == c.config
            &&& d.state == (ipc::ClientStateView { alive: on, ..c.state })
        }),
{
}

/// A change of the client with a handle leaves every other client as it is, and the table in order.
pub proof fn law_changed(
    s: Seq<ClientView>,
    h: ClientHandle,
    f: spec_fn(ClientView) -> ClientView,
    i: int,
)
    requires
        0 <= i < s.len(),
    ensures
        changed(s, h, f).len() == s.len(),
        s[i].handle == h ==> changed(s, h, f)[i] == f(s[i]),
        s[i].handle != h ==> changed(s, h, f)[i] == s[i],
{
}

/// The clients for which something holds are listed by their handles, all of them and in order.
pub proof fn law_handles_where(s: Seq<ClientView>, p: spec_fn(ClientView) -> bool)
    ensures
        handles_where(s, p) == s.filter(p).map_values(|c: ClientView| c.handle),
    decreases s.len(),
{
    reveal(Seq::filter);
    let f = |c: ClientView| c.handle;
    if s.len() > 0 {
        let front = s.drop_last();
        law_handles_where(front, p);
        if p(s.last()) {
            assert(s.filter(p).map_values(f) =~= front.filter(p).map_values(f).push(f(s.last())));
        }
    } else {
        assert(s.filter(p).map_values(f) =~= handles_where(s, p));
    }
}

} // verus!

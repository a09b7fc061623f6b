//! The executable service.
use crate::client::{unique_ips, ClientManager, ConfigClient};
use crate::clipboard::{encode_clipboard_msg, ClipboardChange, MAX_CLIPBOARD_SIZE};
use crate::collections::StrMap;
use crate::connect::LanMouseConnection;
use crate::file_drop::EdgeSet;
use crate::file_transfer::codec::copy_bytes;
use crate::file_transfer::{Command, Decision, Event};
use crate::ipc::{
    Client, ClientHandle, ClientView, ClipboardImageDecision, ClipboardOverflowDecision,
    DiscoveredDevice, FileDecision, FileOffer, FrontendEvent, FrontendEventView, Position,
    Settings, Status, TransferResult,
};
use crate::net::{contains_ip, IpAddr, SocketAddr};
use crate::service::model;
use crate::service::model::{
    CaptureType, ConfigFileView, DnsEvent, Effect, IncomingView, ServiceView, ENTER_HANDLE_BEGIN,
    PREVIEW_CHARS,
};
use crate::{client, clipboard, collections, connect, file_transfer, ipc, text};
use vstd::prelude::*;

verus! {

/// A device that controls this one.
#[derive(Debug)]
pub struct Incoming {
    /// Handle of its capture barrier.
    pub handle: ClientHandle,
    /// Certificate fingerprint.
    pub fingerprint: String,
    /// Address.
    pub addr: SocketAddr,
    /// Side of the screen.
    pub pos: Position,
}

impl View for Incoming {
    type V = IncomingView;

    open spec fn view(&self) -> IncomingView {
        IncomingView {
            handle: self.handle,
            fingerprint: self.fingerprint@,
            addr: self.addr,
            pos: self.pos,
        }
    }
}

/// The contents of a list of connections.
pub open spec fn incoming_views(v: Seq<Incoming>) -> Seq<IncomingView> {
    Seq::new(v.len(), |i: int| v[i]@)
}

/// The contents of a list of devices.
pub open spec fn device_views(v: Seq<DiscoveredDevice>) -> Seq<ipc::DiscoveredDeviceView> {
    Seq::new(v.len(), |i: int| v[i]@)
}

/// The contents of a list of offers.
pub open spec fn offer_views(v: Seq<FileOffer>) -> Seq<ipc::FileOfferView> {
    Seq::new(v.len(), |i: int| v[i]@)
}

/// What a service starts from.
#[derive(Debug)]
pub struct ServiceConfig {
    /// Configured clients.
    pub clients: Vec<ConfigClient>,
    /// Authorized fingerprints.
    pub authorized: StrMap,
    /// Port of the listener.
    pub port: u16,
    /// Certificate fingerprint of this device.
    pub public_key_fingerprint: String,
    /// Settings.
    pub settings: Settings,
    /// Whether the clipboard monitor runs.
    pub clipboard: bool,
    /// Whether this device is announced; `None` where discovery does not run.
    pub discovery: Option<bool>,
    /// Whether the file-transfer service runs.
    pub file_transfer: bool,
    /// Its port.
    pub file_transfer_port: u16,
    /// Whether offers are accepted without a prompt.
    pub auto_accept_file_transfers: bool,
    /// Directory for such offers.
    pub auto_accept_dir: Option<String>,
}

/// What is read again from a configuration file that has changed.
#[derive(Debug)]
pub struct ConfigFile {
    /// Configured clients.
    pub clients: Vec<ConfigClient>,
    /// Authorized fingerprints.
    pub authorized: StrMap,
    /// Settings.
    pub settings: Settings,
    /// Port of the file-transfer service.
    pub file_transfer_port: u16,
    /// Whether offers are accepted without a prompt.
    pub auto_accept_file_transfers: bool,
    /// Directory for such offers.
    pub auto_accept_dir: Option<String>,
}

impl View for ConfigFile {
    type V = ConfigFileView;

    open spec fn view(&self) -> ConfigFileView {
        ConfigFileView {
            clients: client::config_views(self.clients@),
            authorized: self.authorized@,
            settings: self.settings@,
            file_transfer_port: self.file_transfer_port,
            auto_accept: accepting_dir(self.auto_accept_file_transfers, self.auto_accept_dir),
        }
    }
}

/// The directory that takes every offer: both the switch and the directory must be set.
pub open spec fn accepting_dir(switch: bool, dir: Option<String>) -> Option<Seq<char>> {
    if switch {
        text::opt_view(dir)
    } else {
        None
    }
}

/// The clients of a configuration, added in order.
pub open spec fn configured(cs: Seq<client::ConfigClientView>) -> Seq<ClientView>
    decreases cs.len(),
{
    if cs.len() == 0 {
        Seq::empty()
    } else {
        client::added_config(configured(cs.drop_last()), cs.last())
    }
}

/// The service.
#[derive(Debug)]
pub struct Service {
    client_manager: ClientManager,
    authorized_keys: StrMap,
    port: u16,
    public_key_fingerprint: String,
    capture_status: Status,
    emulation_status: Status,
    incoming_conn_info: Vec<Incoming>,
    next_trigger_handle: u64,
    clipboard: bool,
    pending_clipboard_overflow: Option<String>,
    pending_clipboard_image: Option<Vec<u8>>,
    discovery: Option<bool>,
    discovered_devices: Vec<DiscoveredDevice>,
    file_transfer: bool,
    file_transfer_port: u16,
    pending_file_offers: Vec<FileOffer>,
    auto_accept: Option<String>,
    settings: Settings,
    effects: Vec<Effect>,
}

impl View for Service {
    type V = ServiceView;

    closed spec fn view(&self) -> ServiceView {
        ServiceView {
            clients: self.client_manager@,
            authorized: self.authorized_keys@,
            port: self.port,
            public_key_fingerprint: self.public_key_fingerprint@,
            capture_status: self.capture_status,
            emulation_status: self.emulation_status,
            incoming: incoming_views(self.incoming_conn_info@),
            next_trigger_handle: self.next_trigger_handle,
            clipboard: self.clipboard,
            overflow: text::opt_view(self.pending_clipboard_overflow),
            image: match self.pending_clipboard_image {
                Some(b) => Some(b@),
                None => None,
            },
            discovery: self.discovery,
            discovered: device_views(self.discovered_devices@),
            file_transfer: self.file_transfer,
            file_transfer_port: self.file_transfer_port,
            offers: offer_views(self.pending_file_offers@),
            auto_accept: text::opt_view(self.auto_accept),
            settings: self.settings@,
            effects: model::effect_views(self.effects@),
        }
    }
}

impl Service {
    /// Whether the tables inside are in order.
    pub closed spec fn wf(&self) -> bool {
        self.client_manager.wf() && self.authorized_keys.wf()
    }

    // ----- small steps ------------------------------------------------------

    pub(crate) fn effect(&mut self, e: Effect)
        requires
            old(self).wf(),
        ensures
            final(self).wf(),
            final(self)@ == model::effected(old(self)@, e@),
    {
        self.effects.push(e);
        assert(self@ =~= model::effected(old(self)@, e@));
    }

    pub(crate) fn notify_frontend(&mut self, e: FrontendEvent)
        requires
            old(self).wf(),
        ensures
            final(self).wf(),
            final(self)@ == model::notified(old(self)@, e@),
    {
        self.effect(Effect::Notify(e));
    }

    /// All effects that are to be carried out, in order; they are handed out once.
    pub fn take_effects(&mut self) -> (r: Vec<Effect>)
        requires
            old(self).wf(),
        ensures
            final(self).wf(),
            model::effect_views(r@) == old(self)@.effects,
            final(self)@ == (ServiceView { effects: Seq::empty(), ..old(self)@ }),
    {
        let mut r: Vec<Effect> = Vec::new();
        r.append(&mut self.effects);
        proof {
            assert(model::effect_views(r@) =~= old(self)@.effects);
            assert(self@ =~= ServiceView { effects: Seq::empty(), ..old(self)@ });
        }
        r
    }

    pub(crate) fn save_config(&mut self)
        requires
            old(self).wf(),
        ensures
            final(self).wf(),
            final(self)@ == model::config_saved(old(self)@),
    {
        proof {
            reveal(model::config_saved);
        }
        let mut saved: Vec<ConfigClient> = Vec::new();
        let n: usize = self.client_manager.len();
        let ghost all = self.client_manager@;
        let mut i: usize = 0;
        while i < n
            invariant
                n == all.len(),
                all == self.client_manager@,
                i <= n,
                client::config_views(saved@) == model::saved_clients(all.take(i as int)),
            decreases n - i,
        {
            let c: &Client = self.client_manager.nth(i);
            proof {
                assert(all.take(i + 1).drop_last() =~= all.take(i as int));
                assert(all.take(i + 1).last() == c@);
            }
            let has_hostname: bool = match &c.config.hostname {
                Some(h) => text::chars_of(h.as_str()).len() > 0,
                None => false,
            };
            if has_hostname || c.config.fix_ips.len() > 0 {
                let entry: ConfigClient = ConfigClient {
                    ips: unique_ips(&c.config.fix_ips),
                    hostname: text::opt_clone(&c.config.hostname),
                    port: c.config.port,
                    pos: c.config.pos,
                    active: c.state.active,
                    enter_hook: text::opt_clone(&c.config.cmd),
                };
                let ghost before = client::config_views(saved@);
                assert(entry@ =~= model::saved_client(c@));
                saved.push(entry);
                assert(client::config_views(saved@) =~= before.push(model::saved_client(c@)));
            }
            i += 1;
        }
        assert(all.take(n as int) =~= all);
        let keys: StrMap = self.authorized_keys.copy();
        self.effect(Effect::SaveConfig(saved, keys));
    }

    pub(crate) fn broadcast_client(&mut self, handle: ClientHandle)
        requires
            old(self).wf(),
        ensures
            final(self).wf(),
            final(self)@ == model::client_broadcast(old(self)@, handle),
    {
        proof {
            reveal(model::client_broadcast);
        }
        match self.client_manager.get_state(handle) {
            Some(c) => self.notify_frontend(FrontendEvent::State(c)),
            None => self.notify_frontend(FrontendEvent::NoSuchClient(handle)),
        }
    }

    pub(crate) fn enumerate(&mut self)
        requires
            old(self).wf(),
        ensures
            final(self).wf(),
            final(self)@ == model::enumerated(old(self)@),
    {
        proof {
            reveal(model::enumerated);
        }
        let clients: Vec<Client> = self.client_manager.get_client_states();
        self.notify_frontend(FrontendEvent::Enumerate(clients));
    }

    pub(crate) fn resolve(&mut self, handle: ClientHandle)
        requires
            old(self).wf(),
        ensures
            final(self).wf(),
            final(self)@ == model::resolved(old(self)@, handle),
    {
        proof {
            reveal(model::resolved);
        }
        match self.client_manager.get_hostname(handle) {
            Some(hostname) => self.effect(Effect::Resolve(handle, hostname)),
            None => {},
        }
    }

    pub(crate) fn deactivate_client(&mut self, handle: ClientHandle)
        requires
            old(self).wf(),
        ensures
            final(self).wf(),
            final(self)@ == model::deactivated(old(self)@, handle),
    {
        proof {
            reveal(model::deactivated);
        }
        if self.client_manager.deactivate_client(handle) {
            proof {
                assert(self@ =~= model::with_clients(
                    old(self)@,
                    client::changed(old(self)@.clients, handle, client::active_set(false)),
                ));
            }
            self.effect(Effect::CaptureDestroy(handle));
            self.broadcast_client(handle);
        } else {
            proof {
                lemma_already(old(self)@.clients, handle, false);
                assert(self@ =~= old(self)@);
            }
        }
    }

    pub(crate) fn activate_client(&mut self, handle: ClientHandle)
        requires
            old(self).wf(),
        ensures
            final(self).wf(),
            final(self)@ == model::activated(old(self)@, handle),
    {
        proof {
            reveal(model::activated);
            reveal(model::resolved);
        }
        self.resolve(handle);
        let pos: Position = match self.client_manager.get_pos(handle) {
            Some(pos) => pos,
            None => return,
        };
        match self.client_manager.client_at(pos) {
            Some(other) => {
                if other != handle {
                    self.deactivate_client(other);
                }
            },
            None => {},
        }
        let ghost s = self@;
        if self.client_manager.activate_client(handle) {
            proof {
                assert(self@ =~= model::with_clients(
                    s,
                    client::changed(s.clients, handle, client::active_set(true)),
                ));
            }
            self.effect(Effect::CaptureCreate(handle, pos, CaptureType::Default));
            self.broadcast_client(handle);
        } else {
            proof {
                lemma_already(s.clients, handle, true);
                assert(self@ =~= s);
            }
        }
    }

    pub(crate) fn add_authorized_key(&mut self, desc: String, fp: String)
        requires
            old(self).wf(),
        ensures
            final(self).wf(),
            final(self)@ == model::key_added(old(self)@, desc@, fp@),
    {
        proof {
            reveal(model::key_added);
        }
        self.authorized_keys.insert(fp, desc);
        let keys: StrMap = self.authorized_keys.copy();
        proof {
            assert(self@ =~= ServiceView {
                authorized: old(self)@.authorized.insert(fp@, desc@),
                ..old(self)@
            });
        }
        self.notify_frontend(FrontendEvent::AuthorizedUpdated(keys));
    }

    pub(crate) fn remove_authorized_key(&mut self, fp: String)
        requires
            old(self).wf(),
        ensures
            final(self).wf(),
            final(self)@ == model::key_removed(old(self)@, fp@),
    {
        proof {
            reveal(model::key_removed);
        }
        self.authorized_keys.remove(fp.as_str());
        let keys: StrMap = self.authorized_keys.copy();
        proof {
            assert(self@ =~= ServiceView {
                authorized: old(self)@.authorized.remove(fp@),
                ..old(self)@
            });
        }
        self.notify_frontend(FrontendEvent::AuthorizedUpdated(keys));
    }

    fn hostname_has_client(&self, hostname: &str) -> (r: bool)
        ensures
            r == model::hostname_taken(self@, hostname@),
    {
        let n: usize = self.client_manager.len();
        let ghost p = model::has_hostname(hostname@);
        let mut i: usize = 0;
        while i < n
            invariant
                n == self.client_manager@.len(),
                i <= n,
                p == model::has_hostname(hostname@),
                forall|j: int| 0 <= j < i ==> !p(#[trigger] self.client_manager@[j]),
            decreases n - i,
        {
            let c: &Client = self.client_manager.nth(i);
            let same: bool = match &c.config.hostname {
                Some(h) => text::str_eq(h.as_str(), hostname),
                None => false,
            };
            if same {
                proof {
                    collections::lemma_first_at(self.client_manager@, p, i as int);
                }
                return true;
            }
            i += 1;
        }
        proof {
            collections::lemma_first_none(self.client_manager@, p);
        }
        false
    }

    fn find_device(&self, hostname: &str) -> (r: Option<usize>)
        ensures
            match r {
                Some(i) => {
                    &&& i < self.discovered_devices@.len()
                    &&& collections::first_where(
                        self@.discovered,
                        model::device_named(hostname@),
                    ) == Some(self@.discovered[i as int])
                    &&& collections::index_where(
                        self@.discovered,
                        model::device_named(hostname@),
                    ) == i
                },
                None => {
                    &&& collections::first_where(
                        self@.discovered,
                        model::device_named(hostname@),
                    ) is None
                    &&& collections::index_where(
                        self@.discovered,
                        model::device_named(hostname@),
                    ) == self@.discovered.len()
                },
            },
    {
        let n: usize = self.discovered_devices.len();
        let ghost p = model::device_named(hostname@);
        let ghost all = self@.discovered;
        let mut i: usize = 0;
        while i < n
            invariant
                n == self.discovered_devices@.len() == all.len(),
                all == device_views(self.discovered_devices@),
                i <= n,
                p == model::device_named(hostname@),
                forall|j: int| 0 <= j < i ==> !p(#[trigger] all[j]),
            decreases n - i,
        {
            if text::str_eq(self.discovered_devices[i].hostname.as_str(), hostname) {
                proof {
                    collections::lemma_first_at(all, p, i as int);
                    collections::lemma_index_at(all, p, i as int);
                }
                return Some(i);
            }
            i += 1;
        }
        proof {
            collections::lemma_first_none(all, p);
            collections::lemma_index_at(all, p, n as int);
        }
        None
    }

    fn forget_device(&mut self, hostname: &str)
        requires
            old(self).wf(),
        ensures
            final(self).wf(),
            final(self)@ == (ServiceView {
                discovered: collections::without_first(
                    old(self)@.discovered,
                    model::device_named(hostname@),
                ),
                ..old(self)@
            }),
    {
        match self.find_device(hostname) {
            Some(i) => {
                self.discovered_devices.remove(i);
            },
            None => {},
        }
        proof {
            let d = collections::without_first(
                old(self)@.discovered,
                model::device_named(hostname@),
            );
            assert(self@.discovered =~= d);
            assert(self@ =~= ServiceView { discovered: d, ..old(self)@ });
        }
    }

    fn forget_offer(&mut self, xfer_id: u64)
        requires
            old(self).wf(),
        ensures
            final(self).wf(),
            final(self)@ == model::offer_dropped(old(self)@, xfer_id),
    {
        let n: usize = self.pending_file_offers.len();
        let ghost p = model::offer_with(xfer_id);
        let ghost all = self@.offers;
        let mut i: usize = 0;
        while i < n && self.pending_file_offers[i].xfer_id != xfer_id
            invariant
                n == self.pending_file_offers@.len() == all.len(),
                all == offer_views(self.pending_file_offers@),
                i <= n,
                p == model::offer_with(xfer_id),
                forall|j: int| 0 <= j < i ==> !p(#[trigger] all[j]),
            decreases n - i,
        {
            i += 1;
        }
        proof {
            collections::lemma_index_at(all, p, i as int);
        }
        if i < n {
            self.pending_file_offers.remove(i);
        }
        proof {
            assert(self@.offers =~= collections::without_first(all, p));
            assert(self@ =~= model::offer_dropped(old(self)@, xfer_id));
        }
    }

    // ----- incoming connections ---------------------------------------------

    pub(crate) fn find_incoming(&self, addr: SocketAddr) -> (r: Option<usize>)
        ensures
            match r {
                Some(i) => {
                    &&& i < self@.incoming.len()
                    &&& collections::first_where(
                        self@.incoming,
                        model::incoming_at(addr),
                    ) == Some(self@.incoming[i as int])
                    &&& collections::index_where(self@.incoming, model::incoming_at(addr)) == i
                },
                None => collections::first_where(
                    self@.incoming,
                    model::incoming_at(addr),
                ) is None,
            },
    {
        let n: usize = self.incoming_conn_info.len();
        let ghost p = model::incoming_at(addr);
        let ghost all = self@.incoming;
        let mut i: usize = 0;
        while i < n
            invariant
                n == self.incoming_conn_info@.len() == all.len(),
                all == incoming_views(self.incoming_conn_info@),
                i <= n,
                p == model::incoming_at(addr),
                forall|j: int| 0 <= j < i ==> !p(#[trigger] all[j]),
            decreases n - i,
        {
            if self.incoming_conn_info[i].addr == addr {
                proof {
                    collections::lemma_first_at(all, p, i as int);
                    collections::lemma_index_at(all, p, i as int);
                }
                return Some(i);
            }
            i += 1;
        }
        proof {
            collections::lemma_first_none(all, p);
        }
        None
    }

    fn find_incoming_from(&self, ip: IpAddr) -> (r: Option<usize>)
        ensures
            match r {
                Some(i) => {
                    &&& i < self@.incoming.len()
                    &&& collections::first_where(
                        self@.incoming,
                        model::incoming_from(ip),
                    ) == Some(self@.incoming[i as int])
                },
                None => collections::first_where(
                    self@.incoming,
                    model::incoming_from(ip),
                ) is None,
            },
    {
        let n: usize = self.incoming_conn_info.len();
        let ghost p = model::incoming_from(ip);
        let ghost all = self@.incoming;
        let mut i: usize = 0;
        while i < n
            invariant
                n == self.incoming_conn_info@.len() == all.len(),
                all == incoming_views(self.incoming_conn_info@),
                i <= n,
                p == model::incoming_from(ip),
                forall|j: int| 0 <= j < i ==> !p(#[trigger] all[j]),
            decreases n - i,
        {
            if self.incoming_conn_info[i].addr.ip == ip {
                proof {
                    collections::lemma_first_at(all, p, i as int);
                }
                return Some(i);
            }
            i += 1;
        }
        proof {
            collections::lemma_first_none(all, p);
        }
        None
    }

    pub(crate) fn add_incoming(&mut self, addr: SocketAddr, pos: Position, fingerprint: String)
        requires
            old(self).wf(),
            old(self)@.next_trigger_handle < ENTER_HANDLE_BEGIN,
        ensures
            final(self).wf(),
            final(self)@ == model::incoming_added(old(self)@, addr, pos, fingerprint@),
    {
        let handle: ClientHandle = ENTER_HANDLE_BEGIN + self.next_trigger_handle;
        self.next_trigger_handle = self.next_trigger_handle + 1;
        self.effect(Effect::CaptureCreate(handle, pos, CaptureType::EnterOnly));
        let ghost before = self@;
        self.incoming_conn_info.push(Incoming { handle, fingerprint, addr, pos });
        proof {
            let i = IncomingView { handle, fingerprint: fingerprint@, addr, pos };
            assert(self@.incoming =~= before.incoming.push(i));
            assert(self@ =~= model::incoming_added(old(self)@, addr, pos, fingerprint@));
        }
    }

    pub(crate) fn remove_incoming(&mut self, addr: SocketAddr) -> (r: Option<SocketAddr>)
        requires
            old(self).wf(),
        ensures
            final(self).wf(),
            final(self)@ == model::incoming_removed(old(self)@, addr),
            r == (if collections::first_where(
                old(self)@.incoming,
                model::incoming_at(addr),
            ) is Some {
                Some(addr)
            } else {
                None
            }),
    {
        match self.find_incoming(addr) {
            Some(i) => {
                let handle: ClientHandle = self.incoming_conn_info[i].handle;
                self.effect(Effect::CaptureDestroy(handle));
                let ghost before = self@;
                self.incoming_conn_info.remove(i);
                proof {
                    assert(self@.incoming =~= before.incoming.remove(i as int));
                    assert(self@ =~= model::incoming_removed(old(self)@, addr));
                }
                Some(addr)
            },
            None => None,
        }
    }

    pub(crate) fn update_incoming(&mut self, i: usize, addr: SocketAddr, pos: Position, fingerprint: String)
        requires
            old(self).wf(),
            old(self)@.next_trigger_handle < ENTER_HANDLE_BEGIN,
            i < old(self)@.incoming.len(),
            collections::first_where(old(self)@.incoming, model::incoming_at(addr)) == Some(
                old(self)@.incoming[i as int],
            ),
        ensures
            final(self).wf(),
            final(self)@ == model::device_entered(old(self)@, addr, pos, fingerprint@),
    {
        let changed: bool = !text::str_eq(
            self.incoming_conn_info[i].fingerprint.as_str(),
            fingerprint.as_str(),
        ) || self.incoming_conn_info[i].pos != pos;
        if changed {
            self.remove_incoming(addr);
            self.add_incoming(addr, pos, fingerprint.clone());
            self.notify_frontend(FrontendEvent::IncomingDisconnected(addr));
            self.notify_frontend(FrontendEvent::DeviceEntered { fingerprint, addr, pos });
        }
    }

    // ----- requests ---------------------------------------------------------

    pub(crate) fn remove_client(&mut self, handle: ClientHandle)
        requires
            old(self).wf(),
        ensures
            final(self).wf(),
            final(self)@ == model::client_removed(old(self)@, handle),
    {
        proof {
            reveal(model::client_removed);
        }
        let removed: Option<Client> = self.client_manager.remove_client(handle);
        assert(self@ =~= model::with_clients(
            old(self)@,
            client::removed(old(self)@.clients, handle),
        ));
        let was_active: bool = match &removed {
            Some(c) => c.state.active,
            None => false,
        };
        if was_active {
            self.effect(Effect::CaptureDestroy(handle));
        }
        self.notify_frontend(FrontendEvent::Deleted(handle));
        match removed {
            Some(c) => match c.config.hostname {
                Some(hostname) => {
                    if !self.hostname_has_client(hostname.as_str()) {
                        match self.find_device(hostname.as_str()) {
                            Some(i) => {
                                let d: DiscoveredDevice = self.discovered_devices[i].clone();
                                self.notify_frontend(FrontendEvent::DiscoveredDevice(d));
                            },
                            None => {},
                        }
                    }
                },
                None => {},
            },
            None => {},
        }
    }

    pub(crate) fn add_client(&mut self)
        requires
            old(self).wf(),
            old(self)@.clients.len() < ENTER_HANDLE_BEGIN,
        ensures
            final(self).wf(),
            final(self)@ == model::client_added(old(self)@),
    {
        proof {
            reveal(model::client_added);
        }
        let handle: ClientHandle = self.client_manager.add_client();
        proof {
            assert(self@ =~= model::with_clients(
                old(self)@,
                client::added(
                    old(self)@.clients,
                    ipc::default_config(),
                    ipc::default_state(),
                ),
            ));
        }
        let c: Client = Client {
            handle,
            config: ipc::ClientConfig::default(),
            state: ipc::ClientState::default(),
        };
        self.notify_frontend(FrontendEvent::Created(c));
    }

    pub(crate) fn update_hostname(
        &mut self,
        handle: ClientHandle,
        hostname: Option<String>,
        ip: Option<IpAddr>,
    )
        requires
            old(self).wf(),
        ensures
            final(self).wf(),
            final(self)@ == model::hostname_updated(
                old(self)@,
                handle,
                text::opt_view(hostname),
                ip,
            ),
    {
        proof {
            reveal(model::hostname_updated);
        }
        let ghost name = text::opt_view(hostname);
        let given: bool = hostname.is_some();
        let changed: bool = self.client_manager.set_hostname(handle, hostname);
        let ghost clients = client::changed(
            old(self)@.clients,
            handle,
            client::hostname_set(name),
        );
        assert(self@ =~= model::with_clients(old(self)@, clients));
        match ip {
            Some(ip) => {
                if given {
                    let mut ips: Vec<IpAddr> = Vec::new();
                    ips.push(ip);
                    assert(ips@ =~= seq![ip]);
                    self.client_manager.set_fix_ips(handle, ips);
                    proof {
                        assert(self@ =~= model::with_clients(
                            old(self)@,
                            client::changed(clients, handle, client::fix_ips_set(seq![ip])),
                        ));
                    }
                    self.broadcast_client(handle);
                    return;
                }
            },
            None => {},
        }
        if changed {
            self.resolve(handle);
        }
        self.broadcast_client(handle);
    }

    pub(crate) fn update_pos(&mut self, handle: ClientHandle, pos: Position)
        requires
            old(self).wf(),
        ensures
            final(self).wf(),
            final(self)@ == model::pos_updated(old(self)@, handle, pos),
    {
        proof {
            reveal(model::pos_updated);
        }
        let moves: bool = self.client_manager.set_pos(handle, pos);
        assert(self@ =~= model::with_clients(
            old(self)@,
            client::changed(old(self)@.clients, handle, client::pos_set(pos)),
        ));
        if moves {
            self.deactivate_client(handle);
            self.activate_client(handle);
        }
        self.broadcast_client(handle);
    }

    pub(crate) fn update_fix_ips(&mut self, handle: ClientHandle, ips: Vec<IpAddr>)
        requires
            old(self).wf(),
        ensures
            final(self).wf(),
            final(self)@ == model::client_broadcast(
                model::with_clients(
                    old(self)@,
                    client::changed(old(self)@.clients, handle, client::fix_ips_set(ips@)),
                ),
                handle,
            ),
    {
        self.client_manager.set_fix_ips(handle, ips);
        assert(self@ =~= model::with_clients(
            old(self)@,
            client::changed(old(self)@.clients, handle, client::fix_ips_set(ips@)),
        ));
        self.broadcast_client(handle);
    }

    pub(crate) fn update_port(&mut self, handle: ClientHandle, port: u16)
        requires
            old(self).wf(),
        ensures
            final(self).wf(),
            final(self)@ == model::client_broadcast(
                model::with_clients(
                    old(self)@,
                    client::changed(old(self)@.clients, handle, client::port_set(port)),
                ),
                handle,
            ),
    {
        self.client_manager.set_port(handle, port);
        assert(self@ =~= model::with_clients(
            old(self)@,
            client::changed(old(self)@.clients, handle, client::port_set(port)),
        ));
        self.broadcast_client(handle);
    }

    pub(crate) fn update_enter_hook(&mut self, handle: ClientHandle, cmd: Option<String>)
        requires
            old(self).wf(),
        ensures
            final(self).wf(),
            final(self)@ == model::client_broadcast(
                model::with_clients(
                    old(self)@,
                    client::changed(
                        old(self)@.clients,
                        handle,
                        client::cmd_set(text::opt_view(cmd)),
                    ),
                ),
                handle,
            ),
    {
        self.client_manager.set_enter_hook(handle, cmd);
        assert(self@ =~= model::with_clients(
            old(self)@,
            client::changed(old(self)@.clients, handle, client::cmd_set(text::opt_view(cmd))),
        ));
        self.broadcast_client(handle);
    }

    pub(crate) fn change_port(&mut self, port: u16)
        requires
            old(self).wf(),
        ensures
            final(self).wf(),
            final(self)@ == model::port_changed(old(self)@, port),
    {
        proof {
            reveal(model::port_changed);
        }
        if self.port != port {
            self.effect(Effect::RequestPortChange(port));
        } else {
            let port: u16 = self.port;
            self.notify_frontend(FrontendEvent::PortChanged(port, None));
        }
    }

    pub(crate) fn sync_frontend(&mut self)
        requires
            old(self).wf(),
        ensures
            final(self).wf(),
            final(self)@ == model::synced(old(self)@),
    {
        proof {
            reveal(model::synced);
            reveal(model::enumerated);
        }
        let emulation: Status = self.emulation_status;
        let capture: Status = self.capture_status;
        let port: u16 = self.port;
        let fingerprint: String = self.public_key_fingerprint.clone();
        let keys: StrMap = self.authorized_keys.copy();
        let settings: Settings = self.settings.clone();
        let discoverable: bool = self.settings.discoverable_on_startup;
        self.enumerate();
        self.notify_frontend(FrontendEvent::EmulationStatus(emulation));
        self.notify_frontend(FrontendEvent::CaptureStatus(capture));
        self.notify_frontend(FrontendEvent::PortChanged(port, None));
        self.notify_frontend(FrontendEvent::PublicKeyFingerprint(fingerprint));
        self.notify_frontend(FrontendEvent::AuthorizedUpdated(keys));
        self.notify_frontend(FrontendEvent::SettingsChanged(settings));
        self.notify_frontend(FrontendEvent::DiscoverableChanged(discoverable));
        let ghost s8 = self@;
        let n: usize = self.pending_file_offers.len();
        let mut i: usize = 0;
        while i < n
            invariant
                self.wf(),
                n == s8.offers.len(),
                i <= n,
                self@ == model::offers_replayed(s8, s8.offers, i as nat),
                self@.offers == s8.offers,
            decreases n - i,
        {
            assert(self@.offers.len() == self.pending_file_offers@.len());
            let o: FileOffer = self.pending_file_offers[i].clone();
            assert(o@ == self@.offers[i as int]);
            self.notify_frontend(FrontendEvent::FileOfferIncoming(o));
            i += 1;
        }
    }

    pub(crate) fn accept_discovered_device(&mut self, d: DiscoveredDevice)
        requires
            old(self).wf(),
            old(self)@.clients.len() < ENTER_HANDLE_BEGIN,
        ensures
            final(self).wf(),
            final(self)@ == model::device_accepted(old(self)@, d@),
    {
        proof {
            reveal(model::device_accepted);
            reveal(model::key_added);
        }
        let ghost dv = d@;
        let hostname: String = d.hostname;
        let lost: String = hostname.clone();
        self.add_authorized_key(hostname.clone(), d.fingerprint);
        let ghost s1 = self@;
        let handle: ClientHandle = self.client_manager.add_client();
        self.client_manager.set_hostname(handle, Some(hostname));
        self.client_manager.set_port(handle, d.port);
        self.client_manager.set_pos(handle, d.position);
        if d.addrs.len() > 0 {
            self.client_manager.set_fix_ips(handle, d.addrs);
        }
        proof {
            let c1 = client::added(s1.clients, ipc::default_config(), ipc::default_state());
            let c2 = client::changed(c1, handle, client::hostname_set(Some(dv.hostname)));
            let c3 = client::changed(c2, handle, client::port_set(dv.port));
            let c4 = client::changed(c3, handle, client::pos_set(dv.position));
            let c5 = if dv.addrs.len() > 0 {
                client::changed(c4, handle, client::fix_ips_set(dv.addrs))
            } else {
                c4
            };
            assert(self@ =~= model::with_clients(s1, c5));
        }
        match self.client_manager.get_state(handle) {
            Some(c) => self.notify_frontend(FrontendEvent::Created(c)),
            None => {},
        }
        self.activate_client(handle);
        self.save_config();
        self.notify_frontend(FrontendEvent::DeviceLost { hostname: lost });
    }

    pub(crate) fn set_discoverable(&mut self, discoverable: bool)
        requires
            old(self).wf(),
        ensures
            final(self).wf(),
            final(self)@ == model::discoverable_set(old(self)@, discoverable),
    {
        proof {
            reveal(model::discoverable_set);
        }
        if self.discovery.is_some() {
            self.discovery = Some(discoverable);
            assert(self@ =~= ServiceView { discovery: Some(discoverable), ..old(self)@ });
            self.effect(Effect::SetDiscoverable(discoverable));
        }
        self.notify_frontend(FrontendEvent::DiscoverableChanged(discoverable));
    }

    pub(crate) fn update_settings(&mut self, settings: Settings)
        requires
            old(self).wf(),
        ensures
            final(self).wf(),
            final(self)@ == model::settings_updated(old(self)@, settings@),
    {
        proof {
            reveal(model::settings_updated);
        }
        let mut kept: Settings = settings.clone();
        kept.release_bind = text::clone_strings(&self.settings.release_bind);
        self.settings = kept;
        proof {
            let kept = ipc::SettingsView {
                release_bind: old(self)@.settings.release_bind,
                ..settings@
            };
            assert(self.settings@ =~= kept);
            assert(self@ =~= ServiceView { settings: kept, ..old(self)@ });
        }
        let written: Settings = settings.clone();
        self.effect(Effect::WriteSettings(written));
        self.notify_frontend(FrontendEvent::SettingsChanged(settings));
    }

    // ----- file transfers ---------------------------------------------------

    pub(crate) fn handle_respond_file_offer(&mut self, xfer_id: u64, decision: FileDecision)
        requires
            old(self).wf(),
        ensures
            final(self).wf(),
            final(self)@ == model::offer_answered(old(self)@, xfer_id, decision@),
    {
        proof {
            reveal(model::offer_answered);
        }
        self.forget_offer(xfer_id);
        if self.file_transfer {
            let decision: Decision = match decision {
                FileDecision::Accept { dest_dir } => Decision::Accept { dest_dir },
                FileDecision::Decline => Decision::Decline,
            };
            self.effect(Effect::Transfer(Command::RespondOffer { xfer_id, decision }));
        }
    }

    fn lookup_client_by_addr(&self, ip: IpAddr) -> (r: Option<ClientHandle>)
        ensures
            r == client::handle_of(
                collections::first_where(self@.clients, model::known_by(ip)),
            ),
    {
        let n: usize = self.client_manager.len();
        let ghost p = model::known_by(ip);
        let mut i: usize = 0;
        while i < n
            invariant
                n == self.client_manager@.len(),
                i <= n,
                p == model::known_by(ip),
                forall|j: int| 0 <= j < i ==> !p(#[trigger] self.client_manager@[j]),
            decreases n - i,
        {
            let c: &Client = self.client_manager.nth(i);
            let here: bool = match c.state.active_addr {
                Some(a) => a.ip == ip,
                None => false,
            };
            if here || contains_ip(&c.state.ips, ip) {
                proof {
                    collections::lemma_first_at(self.client_manager@, p, i as int);
                }
                return Some(c.handle);
            }
            i += 1;
        }
        proof {
            collections::lemma_first_none(self.client_manager@, p);
        }
        None
    }

    fn receive_offer(&mut self, o: FileOffer)
        requires
            old(self).wf(),
        ensures
            final(self).wf(),
            final(self)@ == model::offer_received(old(self)@, o@),
    {
        let dir: Option<String> = text::opt_clone(&self.auto_accept);
        match dir {
            Some(dest_dir) => {
                let decision: Decision = Decision::Accept { dest_dir };
                self.effect(
                    Effect::Transfer(Command::RespondOffer { xfer_id: o.xfer_id, decision }),
                );
            },
            None => {
                self.forget_offer(o.xfer_id);
                let ghost s1 = self@;
                let shown: FileOffer = o.clone();
                self.pending_file_offers.push(o);
                proof {
                    assert(self@.offers =~= s1.offers.push(o@));
                    assert(self@ =~= ServiceView { offers: s1.offers.push(o@), ..s1 });
                }
                self.notify_frontend(FrontendEvent::FileOfferIncoming(shown));
            },
        }
    }

    /// Takes a report of the file-transfer service.
    pub fn handle_file_transfer_event(&mut self, event: Event)
        requires
            old(self).wf(),
        ensures
            final(self).wf(),
            final(self)@ == model::transfer_reported(old(self)@, event@),
    {
        match event {
            Event::IncomingOffer {
                xfer_id,
                peer_addr,
                peer_fingerprint,
                root_name,
                entries,
                total_bytes,
            } => {
                let client: ClientHandle = match self.lookup_client_by_addr(peer_addr.ip) {
                    Some(h) => h,
                    None => 0,
                };
                self.receive_offer(
                    FileOffer {
                        xfer_id,
                        client,
                        root_name,
                        entries,
                        total_bytes,
                        fingerprint: peer_fingerprint,
                    },
                );
            },
            Event::Progress {
                xfer_id,
                bytes,
                total,
                entries_done,
                entries_total,
                current_entry,
            } => {
                self.notify_frontend(
                    FrontendEvent::FileTransferProgress {
                        xfer_id,
                        bytes,
                        total,
                        entries_done,
                        entries_total,
                        current_entry,
                    },
                );
            },
            Event::Finished { xfer_id, result } => {
                self.forget_offer(xfer_id);
                let result: TransferResult = match result {
                    file_transfer::TransferResult::Done { destination } => TransferResult::Done {
                        destination,
                    },
                    file_transfer::TransferResult::Cancelled => TransferResult::Cancelled,
                    file_transfer::TransferResult::Error(e) => TransferResult::Error(e),
                };
                self.notify_frontend(FrontendEvent::FileTransferFinished { xfer_id, result });
            },
            Event::ClipboardReceived { peer_addr: _, content } => {
                match text::text_of_bytes(content) {
                    Some(t) => {
                        if self.clipboard {
                            self.effect(Effect::SetClipboard(t));
                        }
                    },
                    None => {},
                }
            },
        }
    }

    fn edge_candidate(&self, pos: Position) -> (r: Option<SocketAddr>)
        ensures
            r == model::edge_address(self@.clients, pos, None),
    {
        let n: usize = self.client_manager.len();
        let ghost all = self.client_manager@;
        let mut found: Option<SocketAddr> = None;
        let mut i: usize = 0;
        assert(all.skip(0) =~= all);
        while i < n
            invariant
                n == all.len(),
                all == self.client_manager@,
                i <= n,
                model::edge_address(all, pos, None) == model::edge_address(
                    all.skip(i as int),
                    pos,
                    found,
                ),
            decreases n - i,
        {
            let c: &Client = self.client_manager.nth(i);
            assert(all.skip(i as int)[0] == c@);
            assert(all.skip(i as int).skip(1) =~= all.skip(i + 1));
            if c.config.pos == pos && c.state.active {
                if c.state.active_addr.is_some() {
                    return c.state.active_addr;
                }
                if c.state.ips.len() > 0 {
                    found = Some(SocketAddr::new(c.state.ips[0], c.config.port));
                }
            }
            i += 1;
        }
        found
    }

    fn target_of(&self, addr: Option<SocketAddr>) -> (r: Option<(SocketAddr, String)>)
        ensures
            opt_target_view(r) == model::transfer_target(self@, addr),
    {
        match addr {
            Some(a) => match self.find_incoming_from(a.ip) {
                Some(i) => Some(
                    (
                        SocketAddr::new(a.ip, self.file_transfer_port),
                        self.incoming_conn_info[i].fingerprint.clone(),
                    ),
                ),
                None => None,
            },
            None => None,
        }
    }

    /// Where a file dropped at an edge goes: the file-transfer address of the active client
    /// there, and its fingerprint as an earlier connection from there has shown it.
    pub fn resolve_drop_target(&self, edge: Position) -> (r: Option<(SocketAddr, String)>)
        ensures
            opt_target_view(r) == model::drop_target(self@, edge),
    {
        self.target_of(self.edge_candidate(edge))
    }

    fn send_paths(&mut self, target: (SocketAddr, String), paths: &Vec<String>)
        requires
            old(self).wf(),
        ensures
            final(self).wf(),
            final(self)@ == model::paths_sent(
                old(self)@,
                (target.0, target.1@),
                text::views(paths@),
                paths@.len(),
            ),
    {
        let n: usize = paths.len();
        let mut i: usize = 0;
        while i < n
            invariant
                self.wf(),
                n == paths@.len(),
                i <= n,
                self@ == model::paths_sent(
                    old(self)@,
                    (target.0, target.1@),
                    text::views(paths@),
                    i as nat,
                ),
            decreases n - i,
        {
            assert(text::views(paths@)[i as int] == paths@[i as int]@);
            self.effect(
                Effect::Transfer(
                    Command::SendPath {
                        target_addr: target.0,
                        target_fingerprint: target.1.clone(),
                        root: paths[i].clone(),
                    },
                ),
            );
            i += 1;
        }
    }

    /// The clients.
    pub fn clients(&self) -> (r: &ClientManager)
        requires
            self.wf(),
        ensures
            r.wf(),
            r@ == self@.clients,
    {
        &self.client_manager
    }

    /// A connection to a client was made.
    pub fn connection_made(
        &mut self,
        conns: &mut LanMouseConnection,
        handle: ClientHandle,
        addr: SocketAddr,
    )
        requires
            old(self).wf(),
        ensures
            final(self).wf(),
            final(conns)@ == connect::conn_made(old(conns)@, handle, addr),
            final(conns).ipv6() == old(conns).ipv6(),
            final(self)@ == model::with_clients(
                old(self)@,
                client::changed(
                    old(self)@.clients,
                    handle,
                    client::active_addr_set(Some(addr)),
                ),
            ),
    {
        conns.on_connected(&mut self.client_manager, handle, addr);
        proof {
            assert(self@ =~= model::with_clients(
                old(self)@,
                client::changed(
                    old(self)@.clients,
                    handle,
                    client::active_addr_set(Some(addr)),
                ),
            ));
        }
    }

    /// A connection to a client is closed.
    pub fn connection_closed(
        &mut self,
        conns: &mut LanMouseConnection,
        handle: ClientHandle,
        addr: SocketAddr,
    )
        requires
            old(self).wf(),
        ensures
            final(self).wf(),
            final(conns)@ == connect::conn_closed(old(conns)@, addr),
            final(conns).ipv6() == old(conns).ipv6(),
            final(self)@ == model::with_clients(
                old(self)@,
                client::changed(old(self)@.clients, handle, client::active_addr_set(None)),
            ),
    {
        conns.disconnect(&mut self.client_manager, handle, addr);
        proof {
            assert(self@ =~= model::with_clients(
                old(self)@,
                client::changed(old(self)@.clients, handle, client::active_addr_set(None)),
            ));
        }
    }

    /// A ping was answered, with whether the other device emulates.
    pub fn pong_received(
        &mut self,
        conns: &mut LanMouseConnection,
        handle: ClientHandle,
        addr: SocketAddr,
        alive: bool,
    )
        requires
            old(self).wf(),
        ensures
            final(self).wf(),
            final(conns)@.conns == old(conns)@.conns,
            final(conns)@.connecting == old(conns)@.connecting,
            final(conns)@.answered == old(conns)@.answered.insert(addr),
            final(conns).ipv6() == old(conns).ipv6(),
            final(self)@ == model::with_clients(
                old(self)@,
                client::changed(
                    client::changed(
                        old(self)@.clients,
                        handle,
                        client::active_addr_set(Some(addr)),
                    ),
                    handle,
                    client::alive_set(alive),
                ),
            ),
    {
        conns.on_pong(&mut self.client_manager, handle, addr, alive);
        proof {
            assert(self@ =~= model::with_clients(
                old(self)@,
                client::changed(
                    client::changed(
                        old(self)@.clients,
                        handle,
                        client::active_addr_set(Some(addr)),
                    ),
                    handle,
                    client::alive_set(alive),
                ),
            ));
        }
    }

    /// Whether another connection can be given a number.
    pub fn can_take_connection(&self) -> (r: bool)
        ensures
            r == (self@.next_trigger_handle < ENTER_HANDLE_BEGIN),
    {
        self.next_trigger_handle < ENTER_HANDLE_BEGIN
    }

    /// The edges at which there is a client, for the drop zones.
    pub fn active_edges(&self) -> (r: EdgeSet)
        requires
            self.wf(),
        ensures
            r == model::client_edges(self@.clients),
    {
        let mut r: EdgeSet = EdgeSet::new();
        let ghost all = self@.clients;
        let n: usize = self.client_manager.len();
        let mut i: usize = 0;
        assert(all.take(0) =~= Seq::empty());
        while i < n
            invariant
                all == self.client_manager@,
                n == all.len(),
                i <= n,
                r == model::client_edges(all.take(i as int)),
            decreases n - i,
        {
            proof {
                assert(all.take(i + 1).drop_last() =~= all.take(i as int));
                assert(all.take(i + 1).last() == all[i as int]);
            }
            let c: &Client = self.client_manager.nth(i);
            r.insert(c.config.pos);
            i += 1;
        }
        assert(all.take(n as int) =~= all);
        r
    }

    /// Takes paths that were dropped at an edge.
    pub fn handle_file_drop(&mut self, position: Position, paths: Vec<String>)
        requires
            old(self).wf(),
        ensures
            final(self).wf(),
            final(self)@ == model::paths_dropped(old(self)@, position, text::views(paths@)),
    {
        if paths.len() == 0 || !self.file_transfer {
            return;
        }
        match self.resolve_drop_target(position) {
            Some(target) => self.send_paths(target, &paths),
            None => {},
        }
    }

    pub(crate) fn send_file(&mut self, handle: ClientHandle, path: String)
        requires
            old(self).wf(),
        ensures
            final(self).wf(),
            final(self)@ == model::file_sent(old(self)@, handle, path@),
    {
        proof {
            reveal(model::file_sent);
        }
        let addr: Option<SocketAddr> = match self.client_manager.get_state(handle) {
            Some(c) => known_address_of(&c),
            None => return,
        };
        match self.target_of(addr) {
            Some(target) => {
                if self.file_transfer {
                    let mut paths: Vec<String> = Vec::new();
                    paths.push(path);
                    assert(text::views(paths@) =~= seq![path@]);
                    self.send_paths(target, &paths);
                }
            },
            None => {},
        }
    }

    // ----- clipboard --------------------------------------------------------

    fn first_active(&self) -> (r: Option<usize>)
        ensures
            match r {
                Some(i) => i < self@.clients.len() && collections::first_where(
                    self@.clients,
                    client::active_client(),
                ) == Some(self@.clients[i as int]),
                None => collections::first_where(
                    self@.clients,
                    client::active_client(),
                ) is None,
            },
    {
        let n: usize = self.client_manager.len();
        let ghost p = client::active_client();
        let mut i: usize = 0;
        while i < n
            invariant
                n == self.client_manager@.len(),
                i <= n,
                p == client::active_client(),
                forall|j: int| 0 <= j < i ==> !p(#[trigger] self.client_manager@[j]),
            decreases n - i,
        {
            if self.client_manager.nth(i).state.active {
                proof {
                    collections::lemma_first_at(self.client_manager@, p, i as int);
                }
                return Some(i);
            }
            i += 1;
        }
        proof {
            collections::lemma_first_none(self.client_manager@, p);
        }
        None
    }

    /// Where a transfer to the active client goes.
    pub fn active_transfer_target(&self) -> (r: Option<(SocketAddr, String)>)
        ensures
            opt_target_view(r) == model::active_target(self@),
    {
        match self.first_active() {
            Some(i) => self.target_of(known_address_of(self.client_manager.nth(i))),
            None => None,
        }
    }

    fn active_transfer_target_handle(&self) -> (r: Option<ClientHandle>)
        ensures
            r == client::handle_of(
                collections::first_where(self@.clients, client::active_client()),
            ),
    {
        match self.first_active() {
            Some(i) => Some(self.client_manager.nth(i).handle),
            None => None,
        }
    }

    fn target_handle_or_zero(&self) -> (r: ClientHandle)
        ensures
            r == model::active_handle(self@),
    {
        match self.active_transfer_target_handle() {
            Some(h) => h,
            None => 0,
        }
    }

    fn share_text(&mut self, t: &str)
        requires
            old(self).wf(),
        ensures
            final(self).wf(),
            final(self)@ == model::text_shared(old(self)@, t@),
    {
        let data: Vec<u8> = encode_clipboard_msg(t);
        let copy: Vec<u8> = copy_bytes(data.as_slice());
        self.effect(Effect::SendClipboardToControllers(data));
        self.effect(Effect::SendClipboardToClients(copy));
    }

    /// Takes a change of the local clipboard.
    pub fn handle_clipboard_changed(&mut self, change: ClipboardChange)
        requires
            old(self).wf(),
        ensures
            final(self).wf(),
            final(self)@ == model::clipboard_changed(old(self)@, change@),
    {
        match change {
            ClipboardChange::Text(t) => self.share_text(t.as_str()),
            ClipboardChange::OversizeText { content } => self.handle_clipboard_oversize(content),
            ClipboardChange::ImagePng { png, width, height } => self.handle_clipboard_image(
                png,
                width,
                height,
            ),
        }
    }

    fn handle_clipboard_oversize(&mut self, content: String)
        requires
            old(self).wf(),
        ensures
            final(self).wf(),
            final(self)@ == model::clipboard_changed(
                old(self)@,
                (clipboard::ClipboardChangeView::OversizeText { content: content@ }),
            ),
    {
        let bytes: u64 = text::byte_len(content.as_str()) as u64;
        let chars: Vec<char> = text::chars_of(content.as_str());
        let shown: usize = if chars.len() <= PREVIEW_CHARS {
            chars.len()
        } else {
            PREVIEW_CHARS
        };
        let preview: String = text::slice_string(chars.as_slice(), 0, shown);
        assert(preview@ =~= model::preview_of(content@));
        let client: ClientHandle = self.target_handle_or_zero();
        self.pending_clipboard_overflow = Some(content);
        assert(self@ =~= ServiceView { overflow: Some(content@), ..old(self)@ });
        self.notify_frontend(FrontendEvent::ClipboardOverflow { client, bytes, preview });
    }

    fn handle_clipboard_image(&mut self, png: Vec<u8>, width: u32, height: u32)
        requires
            old(self).wf(),
        ensures
            final(self).wf(),
            final(self)@ == model::clipboard_changed(
                old(self)@,
                (clipboard::ClipboardChangeView::ImagePng { png: png@, width, height }),
            ),
    {
        let bytes: u64 = png.len() as u64;
        let client: ClientHandle = self.target_handle_or_zero();
        self.pending_clipboard_image = Some(png);
        assert(self@ =~= ServiceView { image: Some(png@), ..old(self)@ });
        self.notify_frontend(
            FrontendEvent::ClipboardImageDetected { client, bytes, width, height },
        );
    }

    fn send_clipboard_as_file(&mut self, content: Vec<u8>, ext: &str)
        requires
            old(self).wf(),
        ensures
            final(self).wf(),
            final(self)@ == model::sent_as_file(old(self)@, content@, ext@),
    {
        if !self.file_transfer {
            return;
        }
        match self.active_transfer_target() {
            Some((target_addr, fingerprint)) => {
                self.effect(
                    Effect::SendAsFile {
                        content,
                        ext: ext.to_owned(),
                        target_addr,
                        fingerprint,
                    },
                );
            },
            None => {},
        }
    }

    pub(crate) fn handle_respond_clipboard_overflow(&mut self, decision: ClipboardOverflowDecision)
        requires
            old(self).wf(),
        ensures
            final(self).wf(),
            final(self)@ == model::overflow_answered(old(self)@, decision),
    {
        proof {
            reveal(model::overflow_answered);
        }
        let content: String = match &self.pending_clipboard_overflow {
            Some(content) => content.clone(),
            None => return,
        };
        self.pending_clipboard_overflow = None;
        assert(self@ =~= ServiceView { overflow: None, ..old(self)@ });
        match decision {
            ClipboardOverflowDecision::Send => {
                let bytes: Vec<u8> = copy_bytes(content.as_str().as_bytes());
                self.send_clipboard_as_file(bytes, "txt");
            },
            ClipboardOverflowDecision::Truncate => {
                let truncated: String = text::take_fitting(content.as_str(), MAX_CLIPBOARD_SIZE);
                self.share_text(truncated.as_str());
                if self.clipboard {
                    self.effect(Effect::NoteClipboard(content));
                }
            },
            ClipboardOverflowDecision::Ignore => {
                if self.clipboard {
                    self.effect(Effect::NoteClipboard(content));
                }
            },
        }
    }

    pub(crate) fn handle_respond_clipboard_image(&mut self, decision: ClipboardImageDecision)
        requires
            old(self).wf(),
        ensures
            final(self).wf(),
            final(self)@ == model::image_answered(old(self)@, decision),
    {
        proof {
            reveal(model::image_answered);
        }
        let png: Vec<u8> = match &self.pending_clipboard_image {
            Some(png) => copy_bytes(png.as_slice()),
            None => return,
        };
        self.pending_clipboard_image = None;
        assert(self@ =~= ServiceView { image: None, ..old(self)@ });
        match decision {
            ClipboardImageDecision::Send => self.send_clipboard_as_file(png, "png"),
            ClipboardImageDecision::Skip => {},
        }
    }

    // ----- events -----------------------------------------------------------

    /// Whether this device is announced.
    pub fn is_discoverable(&self) -> (r: bool)
        ensures
            r == (self@.discovery == Some(true)),
    {
        match self.discovery {
            Some(d) => d,
            None => false,
        }
    }

    /// Whether the clipboard is shared.
    pub fn shares_clipboard(&self) -> (r: bool)
        ensures
            r == self@.clipboard,
    {
        self.clipboard
    }

    pub(crate) fn set_port(&mut self, port: u16)
        requires
            old(self).wf(),
        ensures
            final(self).wf(),
            final(self)@ == model::notified(
                (ServiceView { port, ..old(self)@ }),
                FrontendEventView::PortChanged(port, None),
            ),
    {
        self.port = port;
        assert(self@ =~= ServiceView { port, ..old(self)@ });
        self.notify_frontend(FrontendEvent::PortChanged(port, None));
    }

    pub(crate) fn keep_port(&mut self, reason: String)
        requires
            old(self).wf(),
        ensures
            final(self).wf(),
            final(self)@ == model::notified(
                old(self)@,
                FrontendEventView::PortChanged(old(self)@.port, Some(reason@)),
            ),
    {
        let port: u16 = self.port;
        self.notify_frontend(FrontendEvent::PortChanged(port, Some(reason)));
    }

    pub(crate) fn set_emulation_status(&mut self, status: Status)
        requires
            old(self).wf(),
        ensures
            final(self).wf(),
            final(self)@ == model::notified(
                (ServiceView { emulation_status: status, ..old(self)@ }),
                FrontendEventView::EmulationStatus(status),
            ),
    {
        self.emulation_status = status;
        assert(self@ =~= ServiceView { emulation_status: status, ..old(self)@ });
        self.notify_frontend(FrontendEvent::EmulationStatus(status));
    }

    pub(crate) fn set_capture_status(&mut self, status: Status)
        requires
            old(self).wf(),
        ensures
            final(self).wf(),
            final(self)@ == model::notified(
                (ServiceView { capture_status: status, ..old(self)@ }),
                FrontendEventView::CaptureStatus(status),
            ),
    {
        self.capture_status = status;
        assert(self@ =~= ServiceView { capture_status: status, ..old(self)@ });
        self.notify_frontend(FrontendEvent::CaptureStatus(status));
    }

    pub(crate) fn find_incoming_handle(&self, handle: ClientHandle) -> (r: Option<SocketAddr>)
        ensures
            r == (match collections::first_where(self@.incoming, model::incoming_with(handle)) {
                Some(i) => Some(i.addr),
                None => None,
            }),
    {
        let n: usize = self.incoming_conn_info.len();
        let ghost p = model::incoming_with(handle);
        let ghost all = self@.incoming;
        let mut i: usize = 0;
        while i < n
            invariant
                n == self.incoming_conn_info@.len() == all.len(),
                all == incoming_views(self.incoming_conn_info@),
                i <= n,
                p == model::incoming_with(handle),
                forall|j: int| 0 <= j < i ==> !p(#[trigger] all[j]),
            decreases n - i,
        {
            if self.incoming_conn_info[i].handle == handle {
                proof {
                    collections::lemma_first_at(all, p, i as int);
                }
                return Some(self.incoming_conn_info[i].addr);
            }
            i += 1;
        }
        proof {
            collections::lemma_first_none(all, p);
        }
        None
    }

    pub(crate) fn spawn_hook_command(&mut self, handle: ClientHandle)
        requires
            old(self).wf(),
        ensures
            final(self).wf(),
            final(self)@ == (match client::client_with(old(self)@.clients, handle) {
                Some(c) => match c.config.cmd {
                    Some(cmd) => model::effected(old(self)@, model::EffectView::SpawnHook(cmd)),
                    None => old(self)@,
                },
                None => old(self)@,
            }),
    {
        match self.client_manager.get_enter_cmd(handle) {
            Some(cmd) => self.effect(Effect::SpawnHook(cmd)),
            None => {},
        }
    }

    /// Takes a report of the resolver.
    pub fn handle_resolver_event(&mut self, event: DnsEvent)
        requires
            old(self).wf(),
        ensures
            final(self).wf(),
            final(self)@ == model::dns_reported(old(self)@, event@),
    {
        match event {
            DnsEvent::Resolving(handle) => {
                self.client_manager.set_resolving(handle, true);
                assert(self@ =~= model::with_clients(
                    old(self)@,
                    client::changed(old(self)@.clients, handle, client::resolving_set(true)),
                ));
                self.broadcast_client(handle);
            },
            DnsEvent::Resolved(handle, ips) => {
                self.client_manager.set_resolving(handle, false);
                let found: Vec<IpAddr> = match ips {
                    Some(v) => v,
                    None => Vec::new(),
                };
                self.client_manager.set_dns_ips(handle, found);
                proof {
                    let c1 = client::changed(
                        old(self)@.clients,
                        handle,
                        client::resolving_set(false),
                    );
                    assert(self@ =~= model::with_clients(
                        old(self)@,
                        client::changed(c1, handle, client::dns_ips_set(found@)),
                    ));
                }
                self.broadcast_client(handle);
            },
        }
    }

    /// Takes a report of discovery.
    pub fn handle_discovery_event(&mut self, event: FrontendEvent)
        requires
            old(self).wf(),
        ensures
            final(self).wf(),
            final(self)@ == model::discovery_reported(old(self)@, event@),
    {
        match event {
            FrontendEvent::DiscoveredDevice(d) => {
                if text::chars_of(d.fingerprint.as_str()).len() > 0
                    && !self.authorized_keys.contains_key(d.fingerprint.as_str()) {
                    self.add_authorized_key(d.hostname.clone(), d.fingerprint.clone());
                    self.save_config();
                }
                self.forget_device(d.hostname.as_str());
                let ghost before = self@;
                let cached: DiscoveredDevice = d.clone();
                self.discovered_devices.push(cached);
                proof {
                    assert(self@.discovered =~= before.discovered.push(d@));
                    assert(self@ =~= ServiceView {
                        discovered: before.discovered.push(d@),
                        ..before
                    });
                }
                if !self.hostname_has_client(d.hostname.as_str()) {
                    self.notify_frontend(FrontendEvent::DiscoveredDevice(d));
                }
            },
            FrontendEvent::DeviceLost { hostname } => {
                self.forget_device(hostname.as_str());
                self.notify_frontend(FrontendEvent::DeviceLost { hostname });
            },
            other => self.notify_frontend(other),
        }
    }

    fn add_configured(&mut self, c: ConfigClient)
        requires
            old(self).wf(),
            old(self)@.clients.len() < ENTER_HANDLE_BEGIN,
        ensures
            final(self).wf(),
            final(self)@ == model::config_added(old(self)@, c@),
    {
        let handle: ClientHandle = self.client_manager.add_with_config(c);
        let ghost s1 = self@;
        assert(s1 =~= model::with_clients(
            old(self)@,
            client::added_config(old(self)@.clients, c@),
        ));
        match self.client_manager.get_state(handle) {
            Some(found) => {
                if found.state.active {
                    self.client_manager.deactivate_client(handle);
                    assert(self@ =~= model::with_clients(
                        s1,
                        client::changed(s1.clients, handle, client::active_set(false)),
                    ));
                    self.activate_client(handle);
                }
                self.notify_frontend(FrontendEvent::Created(found));
            },
            None => {},
        }
    }

    /// Takes a changed configuration file. Together with the clients that are there, the
    /// configured ones must be countable.
    pub fn handle_config_change(&mut self, config: ConfigFile)
        requires
            old(self).wf(),
            config.authorized.wf(),
            old(self)@.clients.len() + config.clients@.len() < ENTER_HANDLE_BEGIN,
        ensures
            final(self).wf(),
            final(self)@ == model::config_changed(old(self)@, config@),
    {
        let ConfigFile {
            clients,
            authorized,
            settings,
            file_transfer_port,
            auto_accept_file_transfers,
            auto_accept_dir,
        } = config;
        let handles: Vec<ClientHandle> = self.client_manager.registered_clients();
        let n: usize = handles.len();
        let mut i: usize = 0;
        assert(handles@.take(0) =~= Seq::empty());
        while i < n
            invariant
                self.wf(),
                n == handles@.len(),
                i <= n,
                self@ == model::all_removed(old(self)@, handles@.take(i as int)),
                self@.clients.len() <= old(self)@.clients.len(),
            decreases n - i,
        {
            assert(handles@.take(i + 1).drop_last() =~= handles@.take(i as int));
            let ghost before = self@;
            self.remove_client(handles[i]);
            proof {
                lemma_removed_len(before, handles@[i as int]);
            }
            i += 1;
        }
        assert(handles@.take(n as int) =~= handles@);
        let ghost s1 = self@;
        let ghost all = client::config_views(clients@);
        let ghost total = clients@.len();
        let mut rest: Vec<ConfigClient> = clients;
        let mut done: usize = 0;
        let m: usize = rest.len();
        let ghost given = rest@;
        assert(all.take(0) =~= Seq::empty());
        while done < m
            invariant
                self.wf(),
                m == total == given.len(),
                done <= m,
                all == client::config_views(given),
                rest@ == given.skip(done as int),
                self@ == model::configs_added(s1, all.take(done as int)),
                self@.clients.len() <= old(self)@.clients.len() + done,
                old(self)@.clients.len() + total < ENTER_HANDLE_BEGIN,
            decreases m - done,
        {
            let c: ConfigClient = rest.remove(0);
            proof {
                assert(rest@ =~= given.skip(done + 1));
                assert(all.take(done + 1).drop_last() =~= all.take(done as int));
                assert(all.take(done + 1).last() == c@);
            }
            let ghost before = self@;
            self.add_configured(c);
            proof {
                lemma_config_added_len(before, c@);
            }
            done += 1;
        }
        assert(all.take(m as int) =~= all);
        self.effect(Effect::SetReleaseBind(text::clone_strings(&settings.release_bind)));
        let ghost s3 = self@;
        self.authorized_keys = authorized;
        self.settings = settings;
        self.file_transfer_port = file_transfer_port;
        self.auto_accept = if auto_accept_file_transfers {
            auto_accept_dir
        } else {
            None
        };
        assert(self@ =~= ServiceView {
            authorized: config@.authorized,
            settings: config@.settings,
            file_transfer_port: config@.file_transfer_port,
            auto_accept: config@.auto_accept,
            ..s3
        });
        self.sync_frontend();
    }

    /// Gives the clients that are configured as active their barriers.
    pub fn start(&mut self)
        requires
            old(self).wf(),
        ensures
            final(self).wf(),
            final(self)@ == model::started(old(self)@),
    {
        let active: Vec<ClientHandle> = self.client_manager.active_clients();
        let n: usize = active.len();
        let ghost s = self@;
        let mut i: usize = 0;
        assert(active@.take(0) =~= Seq::empty());
        while i < n
            invariant
                self.wf(),
                n == active@.len(),
                i <= n,
                self@ == model::with_clients(
                    s,
                    model::all_inactive(s.clients, active@.take(i as int)),
                ),
            decreases n - i,
        {
            assert(active@.take(i + 1).drop_last() =~= active@.take(i as int));
            self.client_manager.deactivate_client(active[i]);
            i += 1;
            assert(self@ =~= model::with_clients(
                s,
                model::all_inactive(s.clients, active@.take(i as int)),
            ));
        }
        assert(active@.take(n as int) =~= active@);
        let ghost s1 = self@;
        let mut k: usize = 0;
        while k < n
            invariant
                self.wf(),
                n == active@.len(),
                k <= n,
                self@ == model::all_activated(s1, active@.take(k as int)),
            decreases n - k,
        {
            assert(active@.take(k + 1).drop_last() =~= active@.take(k as int));
            self.activate_client(active[k]);
            k += 1;
        }
        assert(active@.take(n as int) =~= active@);
    }

    /// The service with a configuration. Clients keep the order of the configuration; offers
    /// are accepted without a prompt only where both the switch and the directory are set.
    pub fn new(config: ServiceConfig) -> (r: Service)
        requires
            config.authorized.wf(),
            config.clients@.len() < ENTER_HANDLE_BEGIN,
        ensures
            r.wf(),
            r@ == initial_service(config),
    {
        let mut manager: ClientManager = ClientManager::new();
        let mut rest: Vec<ConfigClient> = config.clients;
        let ghost given = rest@;
        let ghost all = client::config_views(given);
        let m: usize = rest.len();
        let mut done: usize = 0;
        assert(all.take(0) =~= Seq::empty());
        while done < m
            invariant
                manager.wf(),
                m == given.len(),
                m < ENTER_HANDLE_BEGIN,
                done <= m,
                all == client::config_views(given),
                rest@ == given.skip(done as int),
                manager@ == configured(all.take(done as int)),
                manager@.len() == done,
            decreases m - done,
        {
            let c: ConfigClient = rest.remove(0);
            proof {
                assert(rest@ =~= given.skip(done + 1));
                assert(all.take(done + 1).drop_last() =~= all.take(done as int));
                assert(all.take(done + 1).last() == c@);
                client::lemma_added(
                    manager@,
                    ipc::default_config(),
                    ipc::default_state(),
                );
            }
            manager.add_with_config(c);
            done += 1;
        }
        assert(all.take(m as int) =~= all);
        let auto_accept: Option<String> = if config.auto_accept_file_transfers {
            config.auto_accept_dir
        } else {
            None
        };
        let r: Service = Service {
            client_manager: manager,
            authorized_keys: config.authorized,
            port: config.port,
            public_key_fingerprint: config.public_key_fingerprint,
            capture_status: Status::Disabled,
            emulation_status: Status::Disabled,
            incoming_conn_info: Vec::new(),
            next_trigger_handle: 0,
            clipboard: config.clipboard,
            pending_clipboard_overflow: None,
            pending_clipboard_image: None,
            discovery: config.discovery,
            discovered_devices: Vec::new(),
            file_transfer: config.file_transfer,
            file_transfer_port: config.file_transfer_port,
            pending_file_offers: Vec::new(),
            auto_accept,
            settings: config.settings,
            effects: Vec::new(),
        };
        assert(r@ =~= initial_service(config));
        r
    }
}

/// The state of a service that has just been created.
pub open spec fn initial_service(config: ServiceConfig) -> ServiceView {
    ServiceView {
        clients: configured(client::config_views(config.clients@)),
        authorized: config.authorized@,
        port: config.port,
        public_key_fingerprint: config.public_key_fingerprint@,
        capture_status: Status::Disabled,
        emulation_status: Status::Disabled,
        incoming: Seq::empty(),
        next_trigger_handle: 0,
        clipboard: config.clipboard,
        overflow: None,
        image: None,
        discovery: config.discovery,
        discovered: Seq::empty(),
        file_transfer: config.file_transfer,
        file_transfer_port: config.file_transfer_port,
        offers: Seq::empty(),
        auto_accept: accepting_dir(config.auto_accept_file_transfers, config.auto_accept_dir),
        settings: config.settings@,
        effects: Seq::empty(),
    }
}

proof fn lemma_removed_len(s: ServiceView, h: ClientHandle)
    ensures
        model::client_removed(s, h).clients.len() <= s.clients.len(),
{
    reveal(model::client_removed);
    lemma_index_bound(s.clients, client::with_handle(h));
}

proof fn lemma_index_bound<A>(s: Seq<A>, p: spec_fn(A) -> bool)
    ensures
        0 <= collections::index_where(s, p) <= s.len(),
    decreases s.len(),
{
    if s.len() > 0 && !p(s[0]) {
        lemma_index_bound(s.skip(1), p);
    }
}

proof fn lemma_config_added_len(s: ServiceView, c: client::ConfigClientView)
    requires
        client::handles_ascend(s.clients),
        s.clients.len() < ENTER_HANDLE_BEGIN,
    ensures
        model::config_added(s, c).clients.len() == s.clients.len() + 1,
{
    client::lemma_added(s.clients, ipc::default_config(), ipc::default_state());
    reveal(model::activated);
    reveal(model::resolved);
    reveal(model::deactivated);
    reveal(model::client_broadcast);
}

/// The contents of an optional target.
pub open spec fn opt_target_view(t: Option<(SocketAddr, String)>) -> Option<
    (SocketAddr, Seq<char>),
> {
    match t {
        Some((a, f)) => Some((a, f@)),
        None => None,
    }
}

fn known_address_of(c: &Client) -> (r: Option<SocketAddr>)
    ensures
        r == model::known_address(c@),
{
    if c.state.active_addr.is_some() {
        c.state.active_addr
    } else if c.state.ips.len() > 0 {
        Some(SocketAddr::new(c.state.ips[0], 0))
    } else {
        None
    }
}

/// Marking a client as it already is changes nothing.
proof fn lemma_already(clients: Seq<ClientView>, h: ClientHandle, active: bool)
    requires
        client::handles_ascend(clients),
        client::client_with(clients, h) matches Some(c) ==> c.state.active == active,
    ensures
        client::changed(clients, h, client::active_set(active)) == clients,
{
    collections::lemma_first_is(clients, client::with_handle(h));
    let d = client::changed(clients, h, client::active_set(active));
    assert forall|i: int| 0 <= i < clients.len() implies d[i] == clients[i] by {
        if clients[i].handle == h {
            let c = client::client_with(clients, h)->0;
            assert(client::client_with(clients, h) is Some) by {
                if client::client_with(clients, h) is None {
                    assert(!client::with_handle(h)(clients[i]));
                }
            }
            let k = choose|k: int| 0 <= k < clients.len() && clients[k] == c;
            if k < i {
                assert(clients[k].handle < clients[i].handle);
            } else if i < k {
                assert(clients[i].handle < clients[k].handle);
            }
            assert(d[i] =~= clients[i]);
        }
    }
    assert(d =~= clients);
}

} // verus!

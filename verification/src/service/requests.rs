//! What the service does on each request of a frontend, said by the effects that follow and by
//! what changes in its state.
use crate::client::ConfigClientView;
use crate::ipc::{
    ClientConfigView, ClientHandle, ClientStateView, ClientView, DiscoveredDeviceView,
    FrontendEventView, FrontendRequestView, Position, SettingsView,
};
use crate::net::{IpAddr, SocketAddr};
use crate::service::model;
use crate::service::model::{CaptureType, EffectView, ServiceView};
use crate::service::promises;
use crate::{client, collections, ipc};
use vstd::prelude::*;

verus! {

// ----- the configuration file -----------------------------------------------

/// A client as it goes into the configuration file.
pub open spec fn as_configured(c: ClientView) -> ConfigClientView {
    ConfigClientView {
        ips: client::each_once(c.config.fix_ips),
        hostname: c.config.hostname,
        port: c.config.port,
        pos: c.config.pos,
        active: c.state.active,
        enter_hook: c.config.cmd,
    }
}

/// Whether a client is worth keeping: it has a name that is not empty, or an address.
pub open spec fn worth_keeping(c: ClientView) -> bool {
    (c.config.hostname matches Some(n) && n.len() > 0) || c.config.fix_ips.len() > 0
}

/// What is written to the configuration file: every client that is worth keeping, in order, and
/// all authorized keys.
pub open spec fn written(s: ServiceView) -> EffectView {
    EffectView::SaveConfig(
        s.clients.filter(|c: ClientView| worth_keeping(c)).map_values(
            |c: ClientView| as_configured(c),
        ),
        s.authorized,
    )
}

proof fn lemma_saved(clients: Seq<ClientView>)
    ensures
        model::saved_clients(clients) == clients.filter(
            |c: ClientView| worth_keeping(c),
        ).map_values(|c: ClientView| as_configured(c)),
    decreases clients.len(),
{
    let p = |c: ClientView| worth_keeping(c);
    let f = |c: ClientView| as_configured(c);
    reveal(Seq::filter);
    if clients.len() > 0 {
        let front = clients.drop_last();
        lemma_saved(front);
        let a = front.filter(p);
        let b = clients.filter(p);
        if p(clients.last()) {
            assert(b == a.push(clients.last()));
            assert(b.map_values(f) =~= a.map_values(f).push(f(clients.last())));
        } else {
            assert(b == a);
        }
    } else {
        assert(clients.filter(p).map_values(f) =~= model::saved_clients(clients));
    }
}

/// Saving writes every client that is worth keeping, with all that is configured of it, and all
/// authorized keys; nothing else happens.
pub proof fn law_save_writes_everything(s: ServiceView, ip: Option<IpAddr>)
    ensures
        promises::only_adds(
            s,
            model::requested(s, FrontendRequestView::SaveConfiguration, ip),
            seq![written(s)],
        ),
{
    reveal(model::config_saved);
    lemma_saved(s.clients);
    let t = model::requested(s, FrontendRequestView::SaveConfiguration, ip);
    assert(t.effects =~= s.effects + seq![written(s)]);
}

pub proof fn lemma_config_saved(s: ServiceView)
    ensures
        promises::only_adds(s, model::config_saved(s), seq![written(s)]),
{
    reveal(model::config_saved);
    lemma_saved(s.clients);
    assert(model::config_saved(s).effects =~= s.effects + seq![written(s)]);
}

// ----- keys, ports, settings ------------------------------------------------

/// A key that is authorized or loses its authorization is told to the frontends with all that are
/// authorized then, and saved; no other key is affected.
pub proof fn law_keys(s: ServiceView, desc: Seq<char>, fp: Seq<char>, ip: Option<IpAddr>)
    ensures
        ({
            let with = ServiceView { authorized: s.authorized.insert(fp, desc), ..s };
            let without = ServiceView { authorized: s.authorized.remove(fp), ..s };
            &&& promises::only_adds(
                with,
                model::requested(s, FrontendRequestView::AuthorizeKey(desc, fp), ip),
                seq![
                    promises::tell(FrontendEventView::AuthorizedUpdated(with.authorized)),
                    written(with),
                ],
            )
            &&& promises::only_adds(
                without,
                model::requested(s, FrontendRequestView::RemoveAuthorizedKey(fp), ip),
                seq![
                    promises::tell(FrontendEventView::AuthorizedUpdated(without.authorized)),
                    written(without),
                ],
            )
        }),
{
    reveal(model::key_added);
    reveal(model::key_removed);
    let with = ServiceView { authorized: s.authorized.insert(fp, desc), ..s };
    let without = ServiceView { authorized: s.authorized.remove(fp), ..s };
    lemma_config_saved(model::key_added(s, desc, fp));
    lemma_config_saved(model::key_removed(s, fp));
    let t = model::requested(s, FrontendRequestView::AuthorizeKey(desc, fp), ip);
    let u = model::requested(s, FrontendRequestView::RemoveAuthorizedKey(fp), ip);
    assert(t.effects =~= s.effects + seq![
        promises::tell(FrontendEventView::AuthorizedUpdated(with.authorized)),
        written(with),
    ]);
    assert(u.effects =~= s.effects + seq![
        promises::tell(FrontendEventView::AuthorizedUpdated(without.authorized)),
        written(without),
    ]);
}

/// Another port is asked of the listener; the one that it has is told. Capture and emulation are
/// enabled again on request.
pub proof fn law_ports_and_switches(s: ServiceView, port: u16, ip: Option<IpAddr>)
    ensures
        promises::only_adds(
            s,
            model::requested(s, FrontendRequestView::ChangePort(port), ip),
            seq![
                if port != s.port {
                    EffectView::RequestPortChange(port)
                } else {
                    promises::tell(FrontendEventView::PortChanged(port, None))
                },
            ],
        ),
        promises::only_adds(
            s,
            model::requested(s, FrontendRequestView::EnableCapture, ip),
            seq![EffectView::CaptureReenable],
        ),
        promises::only_adds(
            s,
            model::requested(s, FrontendRequestView::EnableEmulation, ip),
            seq![EffectView::EmulationReenable],
        ),
        promises::only_adds(
            s,
            model::requested(s, FrontendRequestView::Enumerate, ip),
            seq![promises::tell(FrontendEventView::Enumerate(s.clients))],
        ),
{
    reveal(model::port_changed);
    reveal(model::enumerated);
    let t = model::requested(s, FrontendRequestView::ChangePort(port), ip);
    assert(t.effects =~= s.effects + seq![
        if port != s.port {
            EffectView::RequestPortChange(port)
        } else {
            promises::tell(FrontendEventView::PortChanged(port, None))
        },
    ]);
    let a = model::requested(s, FrontendRequestView::EnableCapture, ip);
    assert(a.effects =~= s.effects + seq![EffectView::CaptureReenable]);
    let b = model::requested(s, FrontendRequestView::EnableEmulation, ip);
    assert(b.effects =~= s.effects + seq![EffectView::EmulationReenable]);
    let c = model::requested(s, FrontendRequestView::Enumerate, ip);
    assert(c.effects =~= s.effects + seq![
        promises::tell(FrontendEventView::Enumerate(s.clients)),
    ]);
}

/// The announcement of this device is switched where discovery runs, and the frontends learn of
/// it; the settings stay.
pub proof fn law_discoverable(s: ServiceView, on: bool, ip: Option<IpAddr>)
    ensures
        ({
            let t = model::requested(s, FrontendRequestView::SetDiscoverable(on), ip);
            let told = promises::tell(FrontendEventView::DiscoverableChanged(on));
            &&& s.discovery is Some ==> promises::only_adds(
                ServiceView { discovery: Some(on), ..s },
                t,
                seq![EffectView::SetDiscoverable(on), told],
            )
            &&& s.discovery is None ==> promises::only_adds(s, t, seq![told])
        }),
{
    reveal(model::discoverable_set);
    let t = model::requested(s, FrontendRequestView::SetDiscoverable(on), ip);
    let told = promises::tell(FrontendEventView::DiscoverableChanged(on));
    if s.discovery is Some {
        assert(t.effects =~= s.effects + seq![EffectView::SetDiscoverable(on), told]);
    } else {
        assert(t.effects =~= s.effects + seq![told]);
    }
}

/// New settings are written and told as they are; the service keeps the keys that release the
/// mouse, and takes everything else.
pub proof fn law_settings_taken(s: ServiceView, new: SettingsView, ip: Option<IpAddr>)
    ensures
        promises::only_adds(
            ServiceView {
                settings: SettingsView { release_bind: s.settings.release_bind, ..new },
                ..s
            },
            model::requested(s, FrontendRequestView::UpdateSettings(new), ip),
            seq![
                EffectView::WriteSettings(new),
                promises::tell(FrontendEventView::SettingsChanged(new)),
            ],
        ),
{
    reveal(model::settings_updated);
    let t = model::requested(s, FrontendRequestView::UpdateSettings(new), ip);
    assert(t.effects =~= s.effects + seq![
        EffectView::WriteSettings(new),
        promises::tell(FrontendEventView::SettingsChanged(new)),
    ]);
}

// ----- single clients -------------------------------------------------------

/// Whether an effect tells the frontends how the client with a handle stands, or that there is
/// none.
pub open spec fn reports(clients: Seq<ClientView>, h: ClientHandle, e: EffectView) -> bool {
    ||| exists|i: int|
        0 <= i < clients.len() && (#[trigger] clients[i]).handle == h && e == promises::tell(
            FrontendEventView::State(clients[i]),
        )
    ||| e == promises::tell(FrontendEventView::NoSuchClient(h)) && forall|i: int|
        0 <= i < clients.len() ==> (#[trigger] clients[i]).handle != h
}

/// The clients after the one with a handle was put through `f`.
pub open spec fn with_one(
    clients: Seq<ClientView>,
    h: ClientHandle,
    f: spec_fn(ClientView) -> ClientView,
) -> Seq<ClientView> {
    clients.map_values(
        |c: ClientView|
            if c.handle == h {
                f(c)
            } else {
                c
            },
    )
}

/// Whether a state follows from another by a change of one client that is told to the frontends,
/// and saved where that is said.
pub open spec fn one_updated(
    s: ServiceView,
    t: ServiceView,
    h: ClientHandle,
    f: spec_fn(ClientView) -> ClientView,
    saved: bool,
) -> bool {
    &&& t == ServiceView { clients: with_one(s.clients, h, f), effects: t.effects, ..s }
    &&& exists|e: EffectView| #[trigger]
        reports(t.clients, h, e) && t.effects == s.effects + (if saved {
            seq![e, written(t)]
        } else {
            seq![e]
        })
}

pub proof fn lemma_broadcast(s: ServiceView, h: ClientHandle) -> (e: EffectView)
    ensures
        reports(s.clients, h, e),
        promises::only_adds(s, model::client_broadcast(s, h), seq![e]),
{
    reveal(model::client_broadcast);
    let p = client::with_handle(h);
    let i = collections::lemma_first_index(s.clients, p);
    let t = model::client_broadcast(s, h);
    if i < s.clients.len() {
        assert(s.clients[i].handle == h);
        let e = promises::tell(FrontendEventView::State(s.clients[i]));
        assert(t.effects =~= s.effects + seq![e]);
        e
    } else {
        assert forall|j: int| 0 <= j < s.clients.len() implies (#[trigger] s.clients[j]).handle
            != h by {
            assert(!p(s.clients[j]));
        }
        let e = promises::tell(FrontendEventView::NoSuchClient(h));
        assert(t.effects =~= s.effects + seq![e]);
        e
    }
}

pub proof fn lemma_one_updated(
    s: ServiceView,
    h: ClientHandle,
    g: spec_fn(ClientView) -> ClientView,
    f: spec_fn(ClientView) -> ClientView,
)
    requires
        forall|i: int| 0 <= i < s.clients.len() ==> g(#[trigger] s.clients[i]) == f(s.clients[i]),
    ensures
        ({
            let t = model::with_clients(s, client::changed(s.clients, h, g));
            &&& one_updated(s, model::client_broadcast(t, h), h, f, false)
            &&& one_updated(s, model::config_saved(model::client_broadcast(t, h)), h, f, true)
        }),
{
    let c = client::changed(s.clients, h, g);
    assert(c =~= with_one(s.clients, h, f));
    let t = model::with_clients(s, c);
    let e = lemma_broadcast(t, h);
    let u = model::client_broadcast(t, h);
    assert(reports(u.clients, h, e));
    lemma_config_saved(u);
    let v = model::config_saved(u);
    assert(written(v) == written(u));
    assert(reports(v.clients, h, e));
    assert(v.effects =~= s.effects + seq![e, written(v)]);
}

/// The addresses of a client: its fixed ones and those of DNS, each once.
pub open spec fn all_addresses(fix: Seq<IpAddr>, dns: Seq<IpAddr>) -> Seq<IpAddr> {
    client::each_once(fix + dns)
}

/// A client gets the port that is asked for, also in the address that it is reached at; the other
/// clients stay as they are.
pub proof fn law_port_of_client(s: ServiceView, h: ClientHandle, port: u16, ip: Option<IpAddr>)
    ensures
        one_updated(
            s,
            model::requested(s, FrontendRequestView::UpdatePort(h, port), ip),
            h,
            |c: ClientView|
                ClientView {
                    handle: c.handle,
                    config: ClientConfigView { port, ..c.config },
                    state: ClientStateView {
                        active_addr: if c.config.port == port {
                            c.state.active_addr
                        } else {
                            match c.state.active_addr {
                                Some(a) => Some(
                                    SocketAddr { ip: a.ip, port, flowinfo: 0, scope_id: 0 },
                                ),
                                None => None,
                            }
                        },
                        ..c.state
                    },
                },
            true,
        ),
{
    let f = |c: ClientView|
        ClientView {
            handle: c.handle,
            config: ClientConfigView { port, ..c.config },
            state: ClientStateView {
                active_addr: if c.config.port == port {
                    c.state.active_addr
                } else {
                    match c.state.active_addr {
                        Some(a) => Some(SocketAddr { ip: a.ip, port, flowinfo: 0, scope_id: 0 }),
                        None => None,
                    }
                },
                ..c.state
            },
        };
    lemma_one_updated(s, h, client::port_set(port), f);
}

/// A client gets the fixed addresses that are asked for, and is reached at these and at those of
/// DNS.
pub proof fn law_addresses_of_client(
    s: ServiceView,
    h: ClientHandle,
    ips: Seq<IpAddr>,
    ip: Option<IpAddr>,
)
    ensures
        one_updated(
            s,
            model::requested(s, FrontendRequestView::UpdateFixIps(h, ips), ip),
            h,
            |c: ClientView|
                ClientView {
                    handle: c.handle,
                    config: ClientConfigView { fix_ips: ips, ..c.config },
                    state: ClientStateView {
                        ips: all_addresses(ips, c.state.dns_ips),
                        ..c.state
                    },
                },
            true,
        ),
{
    let f = |c: ClientView|
        ClientView {
            handle: c.handle,
            config: ClientConfigView { fix_ips: ips, ..c.config },
            state: ClientStateView { ips: all_addresses(ips, c.state.dns_ips), ..c.state },
        };
    lemma_one_updated(s, h, client::fix_ips_set(ips), f);
}

/// A client gets the enter hook that is asked for.
pub proof fn law_hook_of_client(
    s: ServiceView,
    h: ClientHandle,
    cmd: Option<Seq<char>>,
    ip: Option<IpAddr>,
)
    ensures
        one_updated(
            s,
            model::requested(s, FrontendRequestView::UpdateEnterHook(h, cmd), ip),
            h,
            |c: ClientView|
                ClientView {
                    handle: c.handle,
                    config: ClientConfigView { cmd, ..c.config },
                    state: c.state,
                },
            false,
        ),
{
    let f = |c: ClientView|
        ClientView {
            handle: c.handle,
            config: ClientConfigView { cmd, ..c.config },
            state: c.state,
        };
    lemma_one_updated(s, h, client::cmd_set(cmd), f);
}

/// While the hostname of a client is resolved it is marked so; when it is resolved, the mark goes,
/// and the addresses that were found, none where that failed, take the place of the old ones.
pub proof fn law_resolution(s: ServiceView, h: ClientHandle, found: Option<Seq<IpAddr>>)
    ensures
        one_updated(
            s,
            model::dns_reported(s, model::DnsEventView::Resolving(h)),
            h,
            |c: ClientView|
                ClientView {
                    handle: c.handle,
                    config: c.config,
                    state: ClientStateView { resolving: true, ..c.state },
                },
            false,
        ),
        one_updated(
            s,
            model::dns_reported(s, model::DnsEventView::Resolved(h, found)),
            h,
            |c: ClientView|
                ({
                    let ips = match found {
                        Some(v) => v,
                        None => Seq::empty(),
                    };
                    ClientView {
                        handle: c.handle,
                        config: c.config,
                        state: ClientStateView {
                            resolving: false,
                            dns_ips: ips,
                            ips: all_addresses(c.config.fix_ips, ips),
                            ..c.state
                        },
                    }
                }),
            false,
        ),
{
    let f = |c: ClientView|
        ClientView {
            handle: c.handle,
            config: c.config,
            state: ClientStateView { resolving: true, ..c.state },
        };
    lemma_one_updated(s, h, client::resolving_set(true), f);
    let ips = match found {
        Some(v) => v,
        None => Seq::empty(),
    };
    let g = |c: ClientView|
        ({
            let ips = match found {
                Some(v) => v,
                None => Seq::empty(),
            };
            ClientView {
                handle: c.handle,
                config: c.config,
                state: ClientStateView {
                    resolving: false,
                    dns_ips: ips,
                    ips: all_addresses(c.config.fix_ips, ips),
                    ..c.state
                },
            }
        });
    lemma_one_updated(s, h, g, g);
    let c1 = client::changed(s.clients, h, client::resolving_set(false));
    let c2 = client::changed(c1, h, client::dns_ips_set(ips));
    assert(c2 =~= client::changed(s.clients, h, g));
}

/// A client that has a hostname is resolved on request; any other request to resolve does nothing.
pub proof fn law_resolve_on_request(s: ServiceView, h: ClientHandle, i: int, ip: Option<IpAddr>)
    ensures
        ({
            let t = model::requested(s, FrontendRequestView::ResolveDns(h), ip);
            &&& 0 <= i < s.clients.len() && s.clients[i].handle == h && (forall|j: int|
                0 <= j < i ==> (#[trigger] s.clients[j]).handle != h) ==> {
                match s.clients[i].config.hostname {
                    Some(n) => promises::only_adds(s, t, seq![EffectView::Resolve(h, n)]),
                    None => t == s,
                }
            }
            &&& (forall|j: int|
                0 <= j < s.clients.len() ==> (#[trigger] s.clients[j]).handle != h) ==> t == s
        }),
{
    reveal(model::resolved);
    let t = model::requested(s, FrontendRequestView::ResolveDns(h), ip);
    let p = client::with_handle(h);
    if 0 <= i < s.clients.len() && s.clients[i].handle == h && (forall|j: int|
        0 <= j < i ==> (#[trigger] s.clients[j]).handle != h) {
        assert forall|j: int| 0 <= j < i implies !p(#[trigger] s.clients[j]) by {}
        collections::lemma_first_at(s.clients, p, i);
        if let Some(n) = s.clients[i].config.hostname {
            assert(t.effects =~= s.effects + seq![EffectView::Resolve(h, n)]);
        }
    }
    if forall|j: int| 0 <= j < s.clients.len() ==> (#[trigger] s.clients[j]).handle != h {
        assert forall|j: int| 0 <= j < s.clients.len() implies !p(#[trigger] s.clients[j]) by {}
        collections::lemma_first_none(s.clients, p);
    }
}

// ----- activation -----------------------------------------------------------

/// The client as it stands after it was made active or inactive.
pub open spec fn made_active(c: ClientView, active: bool) -> ClientView {
    ClientView {
        handle: c.handle,
        config: c.config,
        state: ClientStateView { active, ..c.state },
    }
}

pub proof fn lemma_found(clients: Seq<ClientView>, i: int)
    requires
        client::handles_ascend(clients),
        0 <= i < clients.len(),
    ensures
        client::client_with(clients, clients[i].handle) == Some(clients[i]),
        forall|j: int|
            0 <= j < clients.len() && j != i ==> (#[trigger] clients[j]).handle
                != clients[i].handle,
{
    let h = clients[i].handle;
    let p = client::with_handle(h);
    assert forall|j: int| 0 <= j < clients.len() && j != i implies (#[trigger] clients[j]).handle
        != h by {
        if j < i {
            assert(clients[j].handle < clients[i].handle);
        } else {
            assert(clients[i].handle < clients[j].handle);
        }
    }
    assert forall|j: int| 0 <= j < i implies !p(#[trigger] clients[j]) by {}
    collections::lemma_first_at(clients, p, i);
}

pub proof fn lemma_nobody(clients: Seq<ClientView>, h: ClientHandle)
    requires
        forall|j: int| 0 <= j < clients.len() ==> (#[trigger] clients[j]).handle != h,
    ensures
        client::client_with(clients, h) is None,
{
    let p = client::with_handle(h);
    assert forall|j: int| 0 <= j < clients.len() implies !p(#[trigger] clients[j]) by {}
    collections::lemma_first_none(clients, p);
}

pub proof fn lemma_changed_one(
    clients: Seq<ClientView>,
    i: int,
    f: spec_fn(ClientView) -> ClientView,
)
    requires
        client::handles_ascend(clients),
        0 <= i < clients.len(),
        f(clients[i]).handle == clients[i].handle,
    ensures
        client::changed(clients, clients[i].handle, f) == clients.update(i, f(clients[i])),
        client::handles_ascend(clients.update(i, f(clients[i]))),
{
    lemma_found(clients, i);
    let c = clients.update(i, f(clients[i]));
    assert(client::changed(clients, clients[i].handle, f) =~= c);
    assert forall|a: int, b: int| 0 <= a < b < c.len() implies (#[trigger] c[a]).handle < (
    #[trigger] c[b]).handle by {
        assert(clients[a].handle < clients[b].handle);
    }
}

pub proof fn lemma_deactivated(s: ServiceView, i: int)
    requires
        client::handles_ascend(s.clients),
        0 <= i < s.clients.len(),
    ensures
        ({
            let c = s.clients[i];
            let t = model::deactivated(s, c.handle);
            if c.state.active {
                promises::only_adds(
                    ServiceView { clients: s.clients.update(i, made_active(c, false)), ..s },
                    t,
                    seq![
                        EffectView::CaptureDestroy(c.handle),
                        promises::tell(FrontendEventView::State(made_active(c, false))),
                    ],
                )
            } else {
                t == s
            }
        }),
{
    reveal(model::deactivated);
    reveal(model::client_broadcast);
    let c = s.clients[i];
    lemma_found(s.clients, i);
    if c.state.active {
        lemma_changed_one(s.clients, i, client::active_set(false));
        let cs = s.clients.update(i, made_active(c, false));
        lemma_found(cs, i);
        let t = model::deactivated(s, c.handle);
        assert(t.effects =~= s.effects + seq![
            EffectView::CaptureDestroy(c.handle),
            promises::tell(FrontendEventView::State(made_active(c, false))),
        ]);
    }
}

/// An active client that is deactivated loses its barrier, is told as inactive, and that is saved;
/// nobody else is affected. Deactivating an inactive one only saves.
pub proof fn law_deactivate(s: ServiceView, i: int, ip: Option<IpAddr>)
    requires
        client::handles_ascend(s.clients),
        0 <= i < s.clients.len(),
    ensures
        ({
            let c = s.clients[i];
            let off = ServiceView { clients: s.clients.update(i, made_active(c, false)), ..s };
            let t = model::requested(s, FrontendRequestView::Activate(c.handle, false), ip);
            if c.state.active {
                promises::only_adds(
                    off,
                    t,
                    seq![
                        EffectView::CaptureDestroy(c.handle),
                        promises::tell(FrontendEventView::State(made_active(c, false))),
                        written(off),
                    ],
                )
            } else {
                promises::only_adds(s, t, seq![written(s)])
            }
        }),
{
    let c = s.clients[i];
    lemma_deactivated(s, i);
    let d = model::deactivated(s, c.handle);
    lemma_config_saved(d);
    let t = model::requested(s, FrontendRequestView::Activate(c.handle, false), ip);
    let off = ServiceView { clients: s.clients.update(i, made_active(c, false)), ..s };
    if c.state.active {
        assert(written(d) == written(off));
        assert(t.effects =~= s.effects + seq![
            EffectView::CaptureDestroy(c.handle),
            promises::tell(FrontendEventView::State(made_active(c, false))),
            written(off),
        ]);
    }
}

/// The request to resolve that comes with an activation.
pub open spec fn resolution_of(c: ClientView) -> Seq<EffectView> {
    match c.config.hostname {
        Some(n) => seq![EffectView::Resolve(c.handle, n)],
        None => Seq::empty(),
    }
}

/// What making an inactive client active does where nobody else is active at its side: its name
/// is resolved, it gets a barrier at its side, and is told as active.
pub open spec fn activation_of(c: ClientView) -> Seq<EffectView> {
    seq![
        EffectView::CaptureCreate(c.handle, c.config.pos, CaptureType::Default),
        promises::tell(FrontendEventView::State(made_active(c, true))),
    ]
}

pub proof fn lemma_resolved(s: ServiceView, i: int)
    requires
        client::handles_ascend(s.clients),
        0 <= i < s.clients.len(),
    ensures
        promises::only_adds(
            s,
            model::resolved(s, s.clients[i].handle),
            resolution_of(s.clients[i]),
        ),
{
    reveal(model::resolved);
    lemma_found(s.clients, i);
    let t = model::resolved(s, s.clients[i].handle);
    assert(t.effects =~= s.effects + resolution_of(s.clients[i]));
}

proof fn lemma_barrier(s: ServiceView, i: int)
    requires
        client::handles_ascend(s.clients),
        0 <= i < s.clients.len(),
        !s.clients[i].state.active,
    ensures
        promises::only_adds(
            ServiceView {
                clients: s.clients.update(i, made_active(s.clients[i], true)),
                ..s
            },
            model::barrier_created(s, s.clients[i].handle, s.clients[i].config.pos),
            activation_of(s.clients[i]),
        ),
{
    reveal(model::client_broadcast);
    let c = s.clients[i];
    lemma_found(s.clients, i);
    lemma_changed_one(s.clients, i, client::active_set(true));
    lemma_found(s.clients.update(i, made_active(c, true)), i);
    let t = model::barrier_created(s, c.handle, c.config.pos);
    assert(t.effects =~= s.effects + activation_of(c));
}

pub proof fn lemma_activated_alone(s: ServiceView, i: int)
    requires
        client::handles_ascend(s.clients),
        0 <= i < s.clients.len(),
        !s.clients[i].state.active,
        forall|j: int|
            0 <= j < s.clients.len() ==> !(#[trigger] s.clients[j].state.active
                && s.clients[j].config.pos == s.clients[i].config.pos),
    ensures
        promises::only_adds(
            ServiceView {
                clients: s.clients.update(i, made_active(s.clients[i], true)),
                ..s
            },
            model::activated(s, s.clients[i].handle),
            resolution_of(s.clients[i]) + activation_of(s.clients[i]),
        ),
{
    reveal(model::activated);
    let c = s.clients[i];
    lemma_found(s.clients, i);
    lemma_resolved(s, i);
    let s1 = model::resolved(s, c.handle);
    let p = client::active_at(c.config.pos);
    assert forall|j: int| 0 <= j < s.clients.len() implies !p(#[trigger] s.clients[j]) by {
        assert(!(s.clients[j].state.active && s.clients[j].config.pos == c.config.pos));
    }
    collections::lemma_first_none(s.clients, p);
    lemma_barrier(s1, i);
    let t = model::activated(s, c.handle);
    assert(t.effects =~= s.effects + (resolution_of(c) + activation_of(c)));
}

pub proof fn lemma_activated_over(s: ServiceView, i: int, k: int)
    requires
        client::handles_ascend(s.clients),
        0 <= i < s.clients.len(),
        0 <= k < s.clients.len(),
        !s.clients[i].state.active,
        s.clients[k].state.active && s.clients[k].config.pos == s.clients[i].config.pos,
        forall|j: int|
            0 <= j < k ==> !(#[trigger] s.clients[j].state.active && s.clients[j].config.pos
                == s.clients[i].config.pos),
    ensures
        promises::only_adds(
            ServiceView {
                clients: s.clients.update(k, made_active(s.clients[k], false)).update(
                    i,
                    made_active(s.clients[i], true),
                ),
                ..s
            },
            model::activated(s, s.clients[i].handle),
            resolution_of(s.clients[i]) + seq![
                EffectView::CaptureDestroy(s.clients[k].handle),
                promises::tell(FrontendEventView::State(made_active(s.clients[k], false))),
            ] + activation_of(s.clients[i]),
        ),
{
    reveal(model::activated);
    let c = s.clients[i];
    let o = s.clients[k];
    lemma_found(s.clients, i);
    lemma_resolved(s, i);
    let s1 = model::resolved(s, c.handle);
    let p = client::active_at(c.config.pos);
    assert forall|j: int| 0 <= j < k implies !p(#[trigger] s.clients[j]) by {
        assert(!(s.clients[j].state.active && s.clients[j].config.pos == c.config.pos));
    }
    collections::lemma_first_at(s.clients, p, k);
    assert(o.handle != c.handle);
    lemma_deactivated(s1, k);
    let s2 = model::deactivated(s1, o.handle);
    lemma_changed_one(s.clients, k, client::active_set(false));
    assert(s2.clients[i] == c);
    lemma_found(s2.clients, i);
    lemma_barrier(s2, i);
    let t = model::activated(s, c.handle);
    assert(t.effects =~= s.effects + (resolution_of(c) + seq![
        EffectView::CaptureDestroy(o.handle),
        promises::tell(FrontendEventView::State(made_active(o, false))),
    ] + activation_of(c)));
}

/// An inactive client that is activated has its name resolved, gets a barrier at its side, is told
/// as active, and that is saved. Another client that is active at that side is deactivated first:
/// it loses its barrier and is told as inactive.
pub proof fn law_activate(s: ServiceView, i: int, k: int, ip: Option<IpAddr>)
    requires
        client::handles_ascend(s.clients),
        0 <= i < s.clients.len(),
        !s.clients[i].state.active,
    ensures
        ({
            let c = s.clients[i];
            let on = ServiceView { clients: s.clients.update(i, made_active(c, true)), ..s };
            let t = model::requested(s, FrontendRequestView::Activate(c.handle, true), ip);
            &&& (forall|j: int|
                0 <= j < s.clients.len() ==> !(#[trigger] s.clients[j].state.active
                    && s.clients[j].config.pos == c.config.pos)) ==> promises::only_adds(
                on,
                t,
                resolution_of(c) + activation_of(c) + seq![written(on)],
            )
            &&& 0 <= k < s.clients.len() && s.clients[k].state.active && s.clients[k].config.pos
                == c.config.pos && (forall|j: int|
                0 <= j < k ==> !(#[trigger] s.clients[j].state.active && s.clients[j].config.pos
                    == c.config.pos)) ==> {
                let o = s.clients[k];
                let swapped = ServiceView {
                    clients: s.clients.update(k, made_active(o, false)).update(
                        i,
                        made_active(c, true),
                    ),
                    ..s
                };
                promises::only_adds(
                    swapped,
                    t,
                    resolution_of(c) + seq![
                        EffectView::CaptureDestroy(o.handle),
                        promises::tell(FrontendEventView::State(made_active(o, false))),
                    ] + activation_of(c) + seq![written(swapped)],
                )
            }
        }),
{
    let c = s.clients[i];
    let a = model::activated(s, c.handle);
    lemma_config_saved(a);
    let t = model::requested(s, FrontendRequestView::Activate(c.handle, true), ip);
    if forall|j: int|
        0 <= j < s.clients.len() ==> !(#[trigger] s.clients[j].state.active
            && s.clients[j].config.pos == c.config.pos) {
        lemma_activated_alone(s, i);
        let on = ServiceView { clients: s.clients.update(i, made_active(c, true)), ..s };
        assert(written(a) == written(on));
        assert(t.effects =~= s.effects + (resolution_of(c) + activation_of(c) + seq![
            written(on),
        ]));
    }
    if 0 <= k < s.clients.len() && s.clients[k].state.active && s.clients[k].config.pos
        == c.config.pos && (forall|j: int|
        0 <= j < k ==> !(#[trigger] s.clients[j].state.active && s.clients[j].config.pos
            == c.config.pos)) {
        lemma_activated_over(s, i, k);
        let o = s.clients[k];
        let swapped = ServiceView {
            clients: s.clients.update(k, made_active(o, false)).update(i, made_active(c, true)),
            ..s
        };
        assert(written(a) == written(swapped));
        assert(t.effects =~= s.effects + (resolution_of(c) + seq![
            EffectView::CaptureDestroy(o.handle),
            promises::tell(FrontendEventView::State(made_active(o, false))),
        ] + activation_of(c) + seq![written(swapped)]));
    }
}

/// A request for a client that does not exist changes no client and creates no barrier: it is only
/// saved, or answered by saying that there is no such client.
pub proof fn law_unknown_client(s: ServiceView, h: ClientHandle, on: bool, ip: Option<IpAddr>)
    requires
        forall|j: int| 0 <= j < s.clients.len() ==> (#[trigger] s.clients[j]).handle != h,
    ensures
        promises::only_adds(
            s,
            model::requested(s, FrontendRequestView::Activate(h, on), ip),
            seq![written(s)],
        ),
        promises::only_adds(
            s,
            model::requested(s, FrontendRequestView::Delete(h), ip),
            seq![promises::tell(FrontendEventView::Deleted(h)), written(s)],
        ),
{
    reveal(model::activated);
    reveal(model::deactivated);
    reveal(model::resolved);
    reveal(model::client_removed);
    lemma_nobody(s.clients, h);
    lemma_config_saved(s);
    let p = client::with_handle(h);
    assert forall|j: int| 0 <= j < s.clients.len() implies !p(#[trigger] s.clients[j]) by {}
    collections::lemma_index_at(s.clients, p, s.clients.len() as int);
    let d = model::client_removed(s, h);
    assert(client::removed(s.clients, h) == s.clients);
    lemma_config_saved(d);
    let t = model::requested(s, FrontendRequestView::Delete(h), ip);
    assert(written(d) == written(s));
    assert(t.effects =~= s.effects + seq![
        promises::tell(FrontendEventView::Deleted(h)),
        written(s),
    ]);
}

// ----- adding and removing clients ------------------------------------------

/// A client that is added stands in the table under a handle that nobody had, with the default
/// configuration and inactive; the others stay as they are, the frontends learn of it, and it is
/// saved.
pub proof fn law_create(s: ServiceView, ip: Option<IpAddr>)
    requires
        client::handles_ascend(s.clients),
        s.clients.len() < u64::MAX,
    ensures
        ({
            let t = model::requested(s, FrontendRequestView::Create, ip);
            exists|k: int|
                {
                    &&& 0 <= k <= s.clients.len()
                    &&& #[trigger] added_at(s, t, k)
                }
        }),
{
    reveal(model::client_added);
    let a = model::client_added(s);
    lemma_config_saved(a);
    let t = model::requested(s, FrontendRequestView::Create, ip);
    client::lemma_added(s.clients, ipc::default_config(), ipc::default_state());
    let k = client::free_handle(s.clients) as int;
    let c = fresh_client(k as u64);
    assert(a.clients == s.clients.insert(k, c));
    client::lemma_free_handle(s.clients);
    assert(written(a) == written(t));
    assert(t.effects =~= s.effects + seq![
        promises::tell(FrontendEventView::Created(c)),
        written(t),
    ]);
    assert(added_at(s, t, k));
}

/// A client of which nothing is configured.
pub open spec fn fresh_client(h: ClientHandle) -> ClientView {
    ClientView {
        handle: h,
        config: ClientConfigView {
            hostname: None,
            fix_ips: Seq::empty(),
            port: 4242,
            pos: Position::Left,
            cmd: None,
        },
        state: ClientStateView {
            active: false,
            active_addr: None,
            alive: false,
            dns_ips: Seq::empty(),
            ips: Seq::empty(),
            has_pressed_keys: false,
            resolving: false,
        },
    }
}

/// Whether a state follows from another by adding a client at a position of the table, under the
/// lowest free handle.
pub open spec fn added_at(s: ServiceView, t: ServiceView, k: int) -> bool {
    &&& forall|j: int| 0 <= j < s.clients.len() ==> (#[trigger] s.clients[j]).handle != k
    &&& forall|j: int| 0 <= j < k ==> (#[trigger] s.clients[j]).handle == j
    &&& t == ServiceView {
        clients: s.clients.insert(k, fresh_client(k as u64)),
        effects: t.effects,
        ..s
    }
    &&& t.effects == s.effects + seq![
        promises::tell(FrontendEventView::Created(fresh_client(k as u64))),
        written(t),
    ]
}

/// Whether a device in a list is the first with a hostname.
pub open spec fn first_named(
    devices: Seq<DiscoveredDeviceView>,
    k: int,
    hostname: Seq<char>,
) -> bool {
    &&& 0 <= k < devices.len()
    &&& devices[k].hostname == hostname
    &&& forall|j: int| 0 <= j < k ==> (#[trigger] devices[j]).hostname != hostname
}

/// A client that is deleted leaves the table, and its barrier goes with it where it had one; the
/// frontends learn of it, and it is saved. A discovered device of its name is shown again where no
/// other client has that name, and only then.
pub proof fn law_delete(s: ServiceView, i: int, k: int, ip: Option<IpAddr>)
    requires
        client::handles_ascend(s.clients),
        0 <= i < s.clients.len(),
    ensures
        ({
            let c = s.clients[i];
            let t = model::requested(s, FrontendRequestView::Delete(c.handle), ip);
            let gone = (if c.state.active {
                seq![EffectView::CaptureDestroy(c.handle)]
            } else {
                Seq::empty()
            }) + seq![promises::tell(FrontendEventView::Deleted(c.handle))];
            let taken = exists|j: int|
                0 <= j < s.clients.len() && j != i && (#[trigger] s.clients[j]).config.hostname
                    == c.config.hostname;
            &&& t == ServiceView { clients: s.clients.remove(i), effects: t.effects, ..s }
            &&& c.config.hostname is None || taken ==> t.effects == s.effects + gone + seq![
                written(t),
            ]
            &&& c.config.hostname is Some && !taken && first_named(
                s.discovered,
                k,
                c.config.hostname->0,
            ) ==> t.effects == s.effects + gone + seq![
                promises::tell(FrontendEventView::DiscoveredDevice(s.discovered[k])),
                written(t),
            ]
        }),
{
    reveal(model::client_removed);
    let c = s.clients[i];
    lemma_found(s.clients, i);
    let p = client::with_handle(c.handle);
    assert forall|j: int| 0 <= j < i implies !p(#[trigger] s.clients[j]) by {}
    collections::lemma_index_at(s.clients, p, i);
    let d = model::client_removed(s, c.handle);
    lemma_config_saved(d);
    let t = model::requested(s, FrontendRequestView::Delete(c.handle), ip);
    assert(written(d) == written(t));
    let gone = (if c.state.active {
        seq![EffectView::CaptureDestroy(c.handle)]
    } else {
        Seq::empty()
    }) + seq![promises::tell(FrontendEventView::Deleted(c.handle))];
    let rest = s.clients.remove(i);
    let taken = exists|j: int|
        0 <= j < s.clients.len() && j != i && (#[trigger] s.clients[j]).config.hostname
            == c.config.hostname;
    if let Some(n) = c.config.hostname {
        let q = model::has_hostname(n);
        if taken {
            let j = choose|j: int|
                0 <= j < s.clients.len() && j != i && (#[trigger] s.clients[j]).config.hostname
                    == c.config.hostname;
            let m = if j < i {
                j
            } else {
                j - 1
            };
            assert(q(rest[m]));
            collections::lemma_first_is(rest, q);
        } else {
            assert forall|m: int| 0 <= m < rest.len() implies !q(#[trigger] rest[m]) by {
                let j = if m < i {
                    m
                } else {
                    m + 1
                };
                assert(rest[m] == s.clients[j]);
            }
            collections::lemma_first_none(rest, q);
            if first_named(s.discovered, k, n) {
                let r = model::device_named(n);
                assert forall|j: int| 0 <= j < k implies !r(#[trigger] s.discovered[j]) by {}
                collections::lemma_first_at(s.discovered, r, k);
            }
        }
    }
    if c.config.hostname is None || taken {
        assert(t.effects =~= s.effects + gone + seq![written(t)]);
    } else if first_named(s.discovered, k, c.config.hostname->0) {
        assert(t.effects =~= s.effects + gone + seq![
            promises::tell(FrontendEventView::DiscoveredDevice(s.discovered[k])),
            written(t),
        ]);
    }
}

} // verus!

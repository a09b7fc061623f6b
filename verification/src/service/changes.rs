//! What the service does when a client gets another name or side, when a discovered device is
//! taken in, and when the configuration is read, said by what follows of it.
use crate::client::ConfigClientView;
use crate::ipc::{
    ClientConfigView, ClientHandle, ClientStateView, ClientView, DiscoveredDeviceView,
    FrontendEventView, FrontendRequestView, Position,
};
use crate::net::IpAddr;
use crate::service::model;
use crate::service::model::{ConfigFileView, EffectView, ServiceView};
use crate::service::{answers, laws, machine, promises, requests};
use crate::{client, collections, ipc};
use vstd::prelude::*;

verus! {

// ----- names ----------------------------------------------------------------

/// A client under another name: the addresses that belong to the old name are gone.
pub open spec fn renamed(c: ClientView, hostname: Option<Seq<char>>) -> ClientView {
    if c.config.hostname == hostname {
        c
    } else {
        ClientView {
            handle: c.handle,
            config: ClientConfigView { hostname, ..c.config },
            state: ClientStateView {
                active_addr: None,
                dns_ips: Seq::empty(),
                ips: client::each_once(c.config.fix_ips),
                ..c.state
            },
        }
    }
}

/// A client with one fixed address.
pub open spec fn fixed_to(c: ClientView, ip: IpAddr) -> ClientView {
    ClientView {
        handle: c.handle,
        config: ClientConfigView { fix_ips: seq![ip], ..c.config },
        state: ClientStateView {
            ips: client::each_once(seq![ip] + c.state.dns_ips),
            ..c.state
        },
    }
}

/// A client gets the name that is asked for; a name that is new is resolved. The client is told,
/// and saved; nobody else is affected.
pub proof fn law_rename(
    s: ServiceView,
    i: int,
    hostname: Option<Seq<char>>,
    ip: Option<IpAddr>,
)
    requires
        client::handles_ascend(s.clients),
        0 <= i < s.clients.len(),
        hostname is None || ip is None,
    ensures
        ({
            let c = s.clients[i];
            let n = renamed(c, hostname);
            let base = ServiceView { clients: s.clients.update(i, n), ..s };
            promises::only_adds(
                base,
                model::requested(
                    s,
                    FrontendRequestView::UpdateHostname(c.handle, hostname),
                    ip,
                ),
                (if hostname is Some && c.config.hostname != hostname {
                    seq![EffectView::Resolve(c.handle, hostname->0)]
                } else {
                    Seq::empty()
                }) + seq![
                    promises::tell(FrontendEventView::State(n)),
                    requests::written(base),
                ],
            )
        }),
{
    let c = s.clients[i];
    let h = c.handle;
    let n = renamed(c, hostname);
    let c1 = client::changed(s.clients, h, client::hostname_set(hostname));
    lemma_renamed(s.clients, i, hostname);
    requests::lemma_found(s.clients, i);
    let base = model::with_clients(s, c1);
    requests::lemma_resolved(base, i);
    let found = if c.config.hostname != hostname {
        model::resolved(base, h)
    } else {
        base
    };
    let u = model::hostname_updated(s, h, hostname, ip);
    assert(u == model::client_broadcast(found, h)) by {
        reveal(model::hostname_updated);
    }
    requests::lemma_found(found.clients, i);
    assert(u == model::notified(found, FrontendEventView::State(n))) by {
        reveal(model::client_broadcast);
    }
    requests::lemma_config_saved(u);
    assert(requests::written(u) == requests::written(base));
    let t = model::config_saved(u);
    let first = if hostname is Some && c.config.hostname != hostname {
        seq![EffectView::Resolve(h, hostname->0)]
    } else {
        Seq::empty()
    };
    assert(found.effects =~= s.effects + first);
    assert(t.effects =~= s.effects + (first + seq![
        promises::tell(FrontendEventView::State(n)),
        requests::written(base),
    ]));
}

proof fn lemma_renamed(clients: Seq<ClientView>, i: int, hostname: Option<Seq<char>>)
    requires
        client::handles_ascend(clients),
        0 <= i < clients.len(),
    ensures
        client::changed(clients, clients[i].handle, client::hostname_set(hostname))
            == clients.update(i, renamed(clients[i], hostname)),
        client::handles_ascend(clients.update(i, renamed(clients[i], hostname))),
{
    let c = clients[i];
    assert(c.config.fix_ips + Seq::<IpAddr>::empty() =~= c.config.fix_ips);
    assert(client::hostname_set(hostname)(c) == renamed(c, hostname));
    requests::lemma_changed_one(clients, i, client::hostname_set(hostname));
}

/// A name that is an address becomes the fixed address of the client as well, and nothing is
/// resolved.
pub proof fn law_rename_to_address(s: ServiceView, i: int, hostname: Seq<char>, ip: IpAddr)
    requires
        client::handles_ascend(s.clients),
        0 <= i < s.clients.len(),
    ensures
        ({
            let c = s.clients[i];
            let n = fixed_to(renamed(c, Some(hostname)), ip);
            let base = ServiceView { clients: s.clients.update(i, n), ..s };
            promises::only_adds(
                base,
                model::requested(
                    s,
                    FrontendRequestView::UpdateHostname(c.handle, Some(hostname)),
                    Some(ip),
                ),
                seq![promises::tell(FrontendEventView::State(n)), requests::written(base)],
            )
        }),
{
    let c = s.clients[i];
    let h = c.handle;
    let m = renamed(c, Some(hostname));
    let n = fixed_to(m, ip);
    lemma_renamed(s.clients, i, Some(hostname));
    let c1 = client::changed(s.clients, h, client::hostname_set(Some(hostname)));
    let g = client::fix_ips_set(seq![ip]);
    assert(g(m) == n);
    requests::lemma_changed_one(c1, i, g);
    let c2 = client::changed(c1, h, g);
    let base = ServiceView { clients: s.clients.update(i, n), ..s };
    assert(c2 =~= base.clients);
    requests::lemma_found(c2, i);
    let u = model::hostname_updated(s, h, Some(hostname), Some(ip));
    assert(u == model::client_broadcast(base, h)) by {
        reveal(model::hostname_updated);
    }
    assert(u == model::notified(base, FrontendEventView::State(n))) by {
        reveal(model::client_broadcast);
    }
    requests::lemma_config_saved(u);
    assert(requests::written(u) == requests::written(base));
    let t = model::config_saved(u);
    assert(t.effects =~= s.effects + seq![
        promises::tell(FrontendEventView::State(n)),
        requests::written(base),
    ]);
}

// ----- sides ----------------------------------------------------------------

/// A client at another side.
pub open spec fn at_side(c: ClientView, pos: Position) -> ClientView {
    ClientView {
        handle: c.handle,
        config: ClientConfigView { pos, ..c.config },
        state: c.state,
    }
}

/// An inactive client, and one that stays where it is, gets the side that is asked for; that is
/// told and saved, and no barrier is touched.
pub proof fn law_side_of_resting_client(s: ServiceView, i: int, pos: Position, ip: Option<IpAddr>)
    requires
        client::handles_ascend(s.clients),
        0 <= i < s.clients.len(),
        !s.clients[i].state.active || s.clients[i].config.pos == pos,
    ensures
        ({
            let c = s.clients[i];
            let base = ServiceView { clients: s.clients.update(i, at_side(c, pos)), ..s };
            promises::only_adds(
                base,
                model::requested(s, FrontendRequestView::UpdatePosition(c.handle, pos), ip),
                seq![
                    promises::tell(FrontendEventView::State(at_side(c, pos))),
                    requests::written(base),
                ],
            )
        }),
{
    reveal(model::pos_updated);
    reveal(model::client_broadcast);
    let c = s.clients[i];
    requests::lemma_found(s.clients, i);
    requests::lemma_changed_one(s.clients, i, client::pos_set(pos));
    let base = ServiceView { clients: s.clients.update(i, at_side(c, pos)), ..s };
    requests::lemma_found(base.clients, i);
    let u = model::pos_updated(s, c.handle, pos);
    requests::lemma_config_saved(u);
    assert(u.clients == base.clients);
    assert(requests::written(u) == requests::written(base));
    let t = model::requested(s, FrontendRequestView::UpdatePosition(c.handle, pos), ip);
    assert(t.effects =~= s.effects + seq![
        promises::tell(FrontendEventView::State(at_side(c, pos))),
        requests::written(base),
    ]);
}

/// An active client that moves to a free side loses its barrier at the old side and gets one at
/// the new side; its name is resolved again, and it is active there.
pub proof fn law_active_client_moves(s: ServiceView, i: int, pos: Position, ip: Option<IpAddr>)
    requires
        client::handles_ascend(s.clients),
        0 <= i < s.clients.len(),
        s.clients[i].state.active,
        s.clients[i].config.pos != pos,
        forall|j: int|
            0 <= j < s.clients.len() ==> !(#[trigger] s.clients[j].state.active
                && s.clients[j].config.pos == pos),
    ensures
        ({
            let c = at_side(s.clients[i], pos);
            let off = requests::made_active(c, false);
            let base = ServiceView { clients: s.clients.update(i, c), ..s };
            promises::only_adds(
                base,
                model::requested(s, FrontendRequestView::UpdatePosition(c.handle, pos), ip),
                seq![
                    EffectView::CaptureDestroy(c.handle),
                    promises::tell(FrontendEventView::State(off)),
                ] + requests::resolution_of(off) + requests::activation_of(off) + seq![
                    promises::tell(FrontendEventView::State(c)),
                    requests::written(base),
                ],
            )
        }),
{
    reveal(model::pos_updated);
    reveal(model::client_broadcast);
    let c0 = s.clients[i];
    let c = at_side(c0, pos);
    let off = requests::made_active(c, false);
    requests::lemma_found(s.clients, i);
    requests::lemma_changed_one(s.clients, i, client::pos_set(pos));
    let base = ServiceView { clients: s.clients.update(i, c), ..s };
    requests::lemma_deactivated(base, i);
    let d = model::deactivated(base, c.handle);
    requests::lemma_changed_one(base.clients, i, client::active_set(false));
    assert(d.clients == base.clients.update(i, off));
    assert forall|j: int| 0 <= j < d.clients.len() implies !(#[trigger] d.clients[j].state.active
        && d.clients[j].config.pos == d.clients[i].config.pos) by {
        if j != i {
            assert(d.clients[j] == s.clients[j]);
            assert(!(s.clients[j].state.active && s.clients[j].config.pos == pos));
        }
    }
    requests::lemma_activated_alone(d, i);
    let a = model::activated(d, c.handle);
    assert(a.clients =~= base.clients) by {
        assert(requests::made_active(off, true) == c);
    }
    requests::lemma_found(base.clients, i);
    let u = model::pos_updated(s, c.handle, pos);
    requests::lemma_config_saved(u);
    assert(u.clients == base.clients);
    assert(requests::written(u) == requests::written(base));
    let t = model::requested(s, FrontendRequestView::UpdatePosition(c.handle, pos), ip);
    assert(t.effects =~= s.effects + (seq![
        EffectView::CaptureDestroy(c.handle),
        promises::tell(FrontendEventView::State(off)),
    ] + requests::resolution_of(off) + requests::activation_of(off) + seq![
        promises::tell(FrontendEventView::State(c)),
        requests::written(base),
    ]));
}

/// An active client that moves to a side where another one is active takes that side over: the other
/// one loses its barrier and is told as inactive.
pub proof fn law_active_client_takes_over(
    s: ServiceView,
    i: int,
    k: int,
    pos: Position,
    ip: Option<IpAddr>,
)
    requires
        client::handles_ascend(s.clients),
        0 <= i < s.clients.len(),
        0 <= k < s.clients.len(),
        s.clients[i].state.active,
        s.clients[i].config.pos != pos,
        s.clients[k].state.active && s.clients[k].config.pos == pos,
        forall|j: int|
            0 <= j < k ==> !(#[trigger] s.clients[j].state.active && s.clients[j].config.pos == pos),
    ensures
        ({
            let c = at_side(s.clients[i], pos);
            let off = requests::made_active(c, false);
            let o = s.clients[k];
            let base = ServiceView {
                clients: s.clients.update(i, c).update(k, requests::made_active(o, false)),
                ..s
            };
            promises::only_adds(
                base,
                model::requested(s, FrontendRequestView::UpdatePosition(c.handle, pos), ip),
                seq![
                    EffectView::CaptureDestroy(c.handle),
                    promises::tell(FrontendEventView::State(off)),
                ] + requests::resolution_of(off) + seq![
                    EffectView::CaptureDestroy(o.handle),
                    promises::tell(FrontendEventView::State(requests::made_active(o, false))),
                ] + requests::activation_of(off) + seq![
                    promises::tell(FrontendEventView::State(c)),
                    requests::written(base),
                ],
            )
        }),
{
    let c0 = s.clients[i];
    let c = at_side(c0, pos);
    let o = s.clients[k];
    let off = requests::made_active(c, false);
    requests::lemma_found(s.clients, i);
    requests::lemma_changed_one(s.clients, i, client::pos_set(pos));
    let s1 = ServiceView { clients: s.clients.update(i, c), ..s };
    requests::lemma_deactivated(s1, i);
    let d = model::deactivated(s1, c.handle);
    requests::lemma_changed_one(s1.clients, i, client::active_set(false));
    assert(d.clients == s1.clients.update(i, off));
    assert(d.clients[k] == o);
    assert forall|j: int| 0 <= j < k implies !(#[trigger] d.clients[j].state.active
        && d.clients[j].config.pos == d.clients[i].config.pos) by {
        if j != i {
            assert(d.clients[j] == s.clients[j]);
            assert(!(s.clients[j].state.active && s.clients[j].config.pos == pos));
        }
    }
    requests::lemma_activated_over(d, i, k);
    let a = model::activated(d, c.handle);
    let base = ServiceView {
        clients: s.clients.update(i, c).update(k, requests::made_active(o, false)),
        ..s
    };
    assert(requests::made_active(off, true) == c);
    assert(a.clients =~= base.clients);
    requests::lemma_changed_one(s1.clients, k, client::active_set(false));
    requests::lemma_found(base.clients, i);
    let u = model::pos_updated(s, c.handle, pos);
    assert(u == model::client_broadcast(a, c.handle)) by {
        reveal(model::pos_updated);
    }
    assert(u == model::notified(a, FrontendEventView::State(c))) by {
        reveal(model::client_broadcast);
    }
    requests::lemma_config_saved(u);
    assert(requests::written(u) == requests::written(base));
    let t = model::config_saved(u);
    assert(t.effects =~= s.effects + (seq![
        EffectView::CaptureDestroy(c.handle),
        promises::tell(FrontendEventView::State(off)),
    ] + requests::resolution_of(off) + seq![
        EffectView::CaptureDestroy(o.handle),
        promises::tell(FrontendEventView::State(requests::made_active(o, false))),
    ] + requests::activation_of(off) + seq![
        promises::tell(FrontendEventView::State(c)),
        requests::written(base),
    ]));
}

/// A name or a side for a client that does not exist changes nobody: that there is none is told, and
/// the configuration is saved as it is.
pub proof fn law_change_of_unknown_client(
    s: ServiceView,
    h: ClientHandle,
    hostname: Option<Seq<char>>,
    pos: Position,
    ip: Option<IpAddr>,
)
    requires
        forall|j: int| 0 <= j < s.clients.len() ==> (#[trigger] s.clients[j]).handle != h,
    ensures
        promises::only_adds(
            s,
            model::requested(s, FrontendRequestView::UpdateHostname(h, hostname), ip),
            seq![
                promises::tell(FrontendEventView::NoSuchClient(h)),
                requests::written(s),
            ],
        ),
        promises::only_adds(
            s,
            model::requested(s, FrontendRequestView::UpdatePosition(h, pos), ip),
            seq![
                promises::tell(FrontendEventView::NoSuchClient(h)),
                requests::written(s),
            ],
        ),
{
    requests::lemma_nobody(s.clients, h);
    assert(client::changed(s.clients, h, client::hostname_set(hostname)) =~= s.clients);
    assert(client::changed(s.clients, h, client::pos_set(pos)) =~= s.clients);
    if let Some(a) = ip {
        assert(client::changed(s.clients, h, client::fix_ips_set(seq![a])) =~= s.clients);
    }
    let told = model::client_broadcast(s, h);
    assert(told == model::notified(s, FrontendEventView::NoSuchClient(h))) by {
        reveal(model::client_broadcast);
    }
    assert(model::with_clients(s, s.clients) == s);
    assert(model::hostname_updated(s, h, hostname, ip) == told) by {
        reveal(model::hostname_updated);
    }
    assert(model::pos_updated(s, h, pos) == told) by {
        reveal(model::pos_updated);
    }
    requests::lemma_config_saved(told);
    assert(requests::written(told) == requests::written(s));
    assert(model::config_saved(told).effects =~= s.effects + seq![
        promises::tell(FrontendEventView::NoSuchClient(h)),
        requests::written(s),
    ]);
}

// ----- discovered devices ---------------------------------------------------

/// The client that a discovered device becomes.
pub open spec fn taken_in(d: DiscoveredDeviceView, h: ClientHandle) -> ClientView {
    ClientView {
        handle: h,
        config: ClientConfigView {
            hostname: Some(d.hostname),
            fix_ips: d.addrs,
            port: d.port,
            pos: d.position,
            cmd: None,
        },
        state: ClientStateView {
            active: false,
            active_addr: None,
            alive: false,
            dns_ips: Seq::empty(),
            ips: client::each_once(d.addrs),
            has_pressed_keys: false,
            resolving: false,
        },
    }
}

/// A discovered device that is taken in, at a side where nobody is active, becomes an active
/// client with its name, addresses, port and side under a free handle; its key is authorized under
/// its name; that is told and saved, and it is no longer shown as discovered.
pub proof fn law_device_is_taken_in(s: ServiceView, d: DiscoveredDeviceView, ip: Option<IpAddr>)
    requires
        client::handles_ascend(s.clients),
        s.clients.len() < u64::MAX,
        forall|j: int|
            0 <= j < s.clients.len() ==> !(#[trigger] s.clients[j].state.active
                && s.clients[j].config.pos == d.position),
    ensures
        ({
            let t = model::requested(s, FrontendRequestView::AcceptDiscoveredDevice(d), ip);
            exists|k: int| #[trigger] taken_in_at(s, t, d, k)
        }),
{
    reveal(model::device_accepted);
    reveal(model::key_added);
    let t = model::device_accepted(s, d);
    let s1 = model::key_added(s, d.hostname, d.fingerprint);
    lemma_taken_in(s, d);
    let k = client::free_handle(s.clients) as int;
    let h = k as u64;
    let c = taken_in(d, h);
    let s2 = model::with_clients(s1, s.clients.insert(k, c));
    let s3 = model::notified(s2, FrontendEventView::Created(c));
    assert forall|j: int| 0 <= j < s3.clients.len() implies !(#[trigger] s3.clients[j].state.active
        && s3.clients[j].config.pos == s3.clients[k].config.pos) by {
        if j < k {
            assert(s3.clients[j] == s.clients[j]);
            assert(!(s.clients[j].state.active && s.clients[j].config.pos == d.position));
        } else if j > k {
            assert(s3.clients[j] == s.clients[j - 1]);
            assert(!(s.clients[j - 1].state.active && s.clients[j - 1].config.pos == d.position));
        }
    }
    requests::lemma_activated_alone(s3, k);
    let a = model::activated(s3, h);
    requests::lemma_config_saved(a);
    let keys = s.authorized.insert(d.fingerprint, d.hostname);
    let base = ServiceView {
        authorized: keys,
        clients: s.clients.insert(k, requests::made_active(c, true)),
        ..s
    };
    assert(a.clients =~= base.clients);
    assert(requests::written(a) == requests::written(base));
    assert(t.effects =~= s.effects + (seq![
        promises::tell(FrontendEventView::AuthorizedUpdated(keys)),
        promises::tell(FrontendEventView::Created(c)),
    ] + requests::resolution_of(c) + requests::activation_of(c) + seq![
        requests::written(base),
        promises::tell(FrontendEventView::DeviceLost { hostname: d.hostname }),
    ]));
    assert(taken_in_at(s, t, d, k));
}

/// Whether a state follows from another by taking a device in under the free handle `k`.
pub open spec fn taken_in_at(
    s: ServiceView,
    t: ServiceView,
    d: DiscoveredDeviceView,
    k: int,
) -> bool {
    let keys = s.authorized.insert(d.fingerprint, d.hostname);
    let c = taken_in(d, k as u64);
    let base = ServiceView {
        authorized: keys,
        clients: s.clients.insert(k, requests::made_active(c, true)),
        ..s
    };
    &&& 0 <= k <= s.clients.len()
    &&& forall|j: int| 0 <= j < s.clients.len() ==> (#[trigger] s.clients[j]).handle != k
    &&& promises::only_adds(
        base,
        t,
        seq![
            promises::tell(FrontendEventView::AuthorizedUpdated(keys)),
            promises::tell(FrontendEventView::Created(c)),
        ] + requests::resolution_of(c) + requests::activation_of(c) + seq![
            requests::written(base),
            promises::tell(FrontendEventView::DeviceLost { hostname: d.hostname }),
        ],
    )
}

/// Taking a device in, at any side, is authorizing its key, adding it as a client, and then asking for
/// its activation; last, it is no longer shown as discovered.
pub proof fn law_taking_in_is_activating(s: ServiceView, d: DiscoveredDeviceView, ip: Option<IpAddr>)
    requires
        client::handles_ascend(s.clients),
        s.clients.len() < u64::MAX,
    ensures
        ({
            let t = model::requested(s, FrontendRequestView::AcceptDiscoveredDevice(d), ip);
            exists|k: int| #[trigger] activated_after(s, t, d, k)
        }),
{
    reveal(model::device_accepted);
    reveal(model::key_added);
    let t = model::device_accepted(s, d);
    lemma_taken_in(s, d);
    let k = client::free_handle(s.clients) as int;
    let added = added_as(s, d, k);
    let h = k as u64;
    let s1 = model::key_added(s, d.hostname, d.fingerprint);
    let s2 = model::with_clients(s1, added.clients);
    let s3 = model::notified(s2, FrontendEventView::Created(taken_in(d, h)));
    assert(s3.effects =~= added.effects);
    assert(s3 == added);
    assert(t.effects =~= model::requested(
        added,
        FrontendRequestView::Activate(h, true),
        None,
    ).effects + seq![promises::tell(FrontendEventView::DeviceLost { hostname: d.hostname })]);
    assert(activated_after(s, t, d, k));
}

/// The state in which a discovered device has been added as a client under the handle `k`, and is
/// not active yet.
pub open spec fn added_as(s: ServiceView, d: DiscoveredDeviceView, k: int) -> ServiceView {
    let keys = s.authorized.insert(d.fingerprint, d.hostname);
    let c = taken_in(d, k as u64);
    ServiceView {
        authorized: keys,
        clients: s.clients.insert(k, c),
        effects: s.effects + seq![
            promises::tell(FrontendEventView::AuthorizedUpdated(keys)),
            promises::tell(FrontendEventView::Created(c)),
        ],
        ..s
    }
}

/// Whether a state follows from another by taking a device in under the free handle `k` and asking
/// for its activation.
pub open spec fn activated_after(
    s: ServiceView,
    t: ServiceView,
    d: DiscoveredDeviceView,
    k: int,
) -> bool {
    &&& 0 <= k <= s.clients.len()
    &&& forall|j: int| 0 <= j < s.clients.len() ==> (#[trigger] s.clients[j]).handle != k
    &&& promises::only_adds(
        model::requested(
            added_as(s, d, k),
            FrontendRequestView::Activate(k as u64, true),
            None,
        ),
        t,
        seq![promises::tell(FrontendEventView::DeviceLost { hostname: d.hostname })],
    )
}

proof fn lemma_taken_in(s: ServiceView, d: DiscoveredDeviceView)
    requires
        client::handles_ascend(s.clients),
        s.clients.len() < u64::MAX,
    ensures
        ({
            let k = client::free_handle(s.clients) as int;
            let h = k as u64;
            let c1 = client::added(s.clients, ipc::default_config(), ipc::default_state());
            let c2 = client::changed(c1, h, client::hostname_set(Some(d.hostname)));
            let c3 = client::changed(c2, h, client::port_set(d.port));
            let c4 = client::changed(c3, h, client::pos_set(d.position));
            let c5 = if d.addrs.len() > 0 {
                client::changed(c4, h, client::fix_ips_set(d.addrs))
            } else {
                c4
            };
            &&& c5 == s.clients.insert(k, taken_in(d, h))
            &&& client::handles_ascend(c5)
            &&& client::client_with(c5, h) == Some(taken_in(d, h))
            &&& 0 <= k <= s.clients.len()
            &&& forall|j: int| 0 <= j < s.clients.len() ==> (#[trigger] s.clients[j]).handle != k
        }),
{
    client::lemma_free_handle(s.clients);
    client::lemma_added(s.clients, ipc::default_config(), ipc::default_state());
    let k = client::free_handle(s.clients) as int;
    let h = k as u64;
    let c1 = client::added(s.clients, ipc::default_config(), ipc::default_state());
    let f0 = ClientView { handle: h, config: ipc::default_config(), state: ipc::default_state() };
    assert(c1 == s.clients.insert(k, f0));
    let g2 = client::hostname_set(Some(d.hostname));
    let g3 = client::port_set(d.port);
    let g4 = client::pos_set(d.position);
    let g5 = client::fix_ips_set(d.addrs);
    requests::lemma_changed_one(c1, k, g2);
    let c2 = client::changed(c1, h, g2);
    requests::lemma_changed_one(c2, k, g3);
    let c3 = client::changed(c2, h, g3);
    requests::lemma_changed_one(c3, k, g4);
    let c4 = client::changed(c3, h, g4);
    requests::lemma_changed_one(c4, k, g5);
    let c5 = if d.addrs.len() > 0 {
        client::changed(c4, h, g5)
    } else {
        c4
    };
    let c = taken_in(d, h);
    assert(ipc::default_config().fix_ips + Seq::<IpAddr>::empty() =~= Seq::<IpAddr>::empty());
    assert(client::each_once(Seq::<IpAddr>::empty()) =~= Seq::<IpAddr>::empty());
    assert(d.addrs + Seq::<IpAddr>::empty() =~= d.addrs);
    assert(c5[k] =~= c) by {
        if d.addrs.len() == 0 {
            assert(d.addrs =~= Seq::<IpAddr>::empty());
        }
    }
    assert(c5 =~= s.clients.insert(k, c));
    requests::lemma_found(c5, k);
}

// ----- the configuration file -----------------------------------------------

/// Whether the table holds exactly the clients of a configuration, in order, each with all that is
/// configured of it; of those that are configured as active at one side, the last one is active.
pub open spec fn holds_configured(clients: Seq<ClientView>, cs: Seq<ConfigClientView>) -> bool {
    &&& clients.len() == cs.len()
    &&& forall|i: int| 0 <= i < cs.len() ==> configured_as(#[trigger] clients[i], cs, i)
}

/// Whether a client is the one that stands at a position of a configuration.
pub open spec fn configured_as(c: ClientView, cs: Seq<ConfigClientView>, i: int) -> bool {
    c == ClientView {
        handle: i as u64,
        config: ClientConfigView {
            hostname: cs[i].hostname,
            fix_ips: cs[i].ips,
            port: cs[i].port,
            pos: cs[i].pos,
            cmd: cs[i].enter_hook,
        },
        state: ClientStateView {
            active: cs[i].active && forall|j: int|
                i < j < cs.len() ==> !((#[trigger] cs[j]).active && cs[j].pos == cs[i].pos),
            active_addr: None,
            alive: false,
            dns_ips: Seq::empty(),
            ips: client::each_once(cs[i].ips),
            has_pressed_keys: false,
            resolving: false,
        },
    }
}

proof fn lemma_all_gone(s: ServiceView, n: nat)
    requires
        client::handles_ascend(s.clients),
        n <= s.clients.len(),
    ensures
        ({
            let hs = client::handles_where(s.clients, client::any_client());
            let t = model::all_removed(s, hs.take(n as int));
            &&& hs.len() == s.clients.len()
            &&& t == ServiceView { clients: s.clients.skip(n as int), effects: t.effects, ..s }
        }),
    decreases n,
{
    let hs = client::handles_where(s.clients, client::any_client());
    lemma_all_handles(s.clients);
    if n == 0 {
        assert(hs.take(0).len() == 0);
        assert(s.clients.skip(0) =~= s.clients);
    } else {
        lemma_all_gone(s, (n - 1) as nat);
        let before = hs.take(n as int).drop_last();
        assert(before =~= hs.take(n - 1));
        let u = model::all_removed(s, before);
        let rest = s.clients.skip(n - 1);
        let h = hs[n - 1];
        assert(rest[0] == s.clients[n - 1]);
        let p = client::with_handle(h);
        assert(p(rest[0]));
        collections::lemma_index_at(rest, p, 0);
        assert(client::removed(rest, h) == rest.remove(0));
        assert(rest.remove(0) =~= s.clients.skip(n as int));
        reveal(model::client_removed);
    }
}

proof fn lemma_all_handles(clients: Seq<ClientView>)
    ensures
        ({
            let hs = client::handles_where(clients, client::any_client());
            &&& hs.len() == clients.len()
            &&& forall|i: int| 0 <= i < clients.len() ==> hs[i] == (#[trigger] clients[i]).handle
        }),
    decreases clients.len(),
{
    if clients.len() > 0 {
        let front = clients.drop_last();
        lemma_all_handles(front);
        let hs = client::handles_where(clients, client::any_client());
        assert forall|i: int| 0 <= i < clients.len() implies hs[i] == (
        #[trigger] clients[i]).handle by {
            if i < front.len() {
                assert(front[i] == clients[i]);
            }
        }
    }
}

proof fn lemma_first_active_at(clients: Seq<ClientView>, pos: Position) -> (k: int)
    ensures
        0 <= k <= clients.len(),
        k < clients.len() ==> clients[k].state.active && clients[k].config.pos == pos,
        forall|j: int|
            0 <= j < k ==> !(#[trigger] clients[j].state.active && clients[j].config.pos == pos),
    decreases clients.len(),
{
    let p = client::active_at(pos);
    let k = collections::lemma_first_index(clients, p);
    assert forall|j: int| 0 <= j < k implies !(#[trigger] clients[j].state.active
        && clients[j].config.pos == pos) by {
        assert(!p(clients[j]));
    }
    k
}

/// A table without gaps has its length as the lowest free handle.
proof fn lemma_next_handle(clients: Seq<ClientView>)
    requires
        forall|i: int| 0 <= i < clients.len() ==> (#[trigger] clients[i]).handle == i,
    ensures
        client::handles_ascend(clients),
        client::free_handle(clients) == clients.len(),
{
    client::lemma_free_handle(clients);
    let k = client::free_handle(clients);
    if k < clients.len() {
        assert(clients[k as int].handle == k);
    }
}

proof fn lemma_one_configured(s: ServiceView, cs: Seq<ConfigClientView>)
    requires
        cs.len() > 0,
        cs.len() < u64::MAX,
        holds_configured(s.clients, cs.drop_last()),
    ensures
        ({
            let t = model::config_added(s, cs.last());
            &&& holds_configured(t.clients, cs)
            &&& t == ServiceView { clients: t.clients, effects: t.effects, ..s }
        }),
{
    let old = cs.drop_last();
    let n = old.len() as int;
    let c = cs.last();
    assert forall|i: int| 0 <= i < s.clients.len() implies (#[trigger] s.clients[i]).handle == i by {
        assert(configured_as(s.clients[i], old, i));
    }
    lemma_next_handle(s.clients);
    let h = n as u64;
    let clients = client::added_config(s.clients, c);
    let new = clients[n];
    assert(clients =~= s.clients.push(new));
    assert forall|i: int| 0 <= i < clients.len() implies (#[trigger] clients[i]).handle == i by {
        if i < n {
            assert(clients[i] == s.clients[i]);
        }
    }
    lemma_next_handle(clients);
    requests::lemma_found(clients, n);
    let s1 = model::with_clients(s, clients);
    let t = model::config_added(s, c);
    if c.active {
        requests::lemma_changed_one(clients, n, client::active_set(false));
        let off = requests::made_active(new, false);
        let s2 = model::with_clients(s1, clients.update(n, off));
        let k = lemma_first_active_at(s2.clients, c.pos);
        if k < s2.clients.len() {
            requests::lemma_activated_over(s2, n, k);
        } else {
            requests::lemma_activated_alone(s2, n);
        }
        assert(requests::made_active(off, true) == new);
        let a = model::activated(s2, h);
        assert(t.clients == a.clients);
        assert forall|i: int| 0 <= i < cs.len() implies configured_as(
            #[trigger] t.clients[i],
            cs,
            i,
        ) by {
            if i < n {
                assert(configured_as(s.clients[i], old, i));
                assert(s2.clients[i] == s.clients[i]);
                assert(cs[i] == old[i]);
                assert(forall|j: int| i < j < n ==> cs[j] == old[j]);
                if cs[i].pos == c.pos {
                    assert(!(cs[i].active && forall|j: int|
                        i < j < cs.len() ==> !((#[trigger] cs[j]).active && cs[j].pos
                            == cs[i].pos))) by {
                        assert(cs[n].active && cs[n].pos == cs[i].pos);
                    }
                    if i != k && s2.clients[i].state.active {
                        assert(k < i);
                        assert(configured_as(s.clients[k], old, k));
                        assert(s2.clients[k] == s.clients[k]);
                        assert(old[i].active && old[i].pos == old[k].pos);
                        assert(false);
                    }
                } else {
                    assert(i != k);
                    assert(t.clients[i] == s.clients[i]);
                    lemma_same_claim(old, cs, i);
                }
            } else {
                assert(t.clients[n] == new);
                assert(configured_as(new, cs, n));
            }
        }
    } else {
        assert(t.clients == clients);
        assert forall|i: int| 0 <= i < cs.len() implies configured_as(
            #[trigger] t.clients[i],
            cs,
            i,
        ) by {
            if i < n {
                assert(configured_as(s.clients[i], old, i));
                assert(clients[i] == s.clients[i]);
                lemma_same_claim(old, cs, i);
            } else {
                assert(configured_as(new, cs, n));
            }
        }
    }
}

/// A client that is added does not take the side of one elsewhere, nor does an inactive one.
proof fn lemma_same_claim(old: Seq<ConfigClientView>, cs: Seq<ConfigClientView>, i: int)
    requires
        cs.len() > 0,
        old == cs.drop_last(),
        0 <= i < old.len(),
        !cs.last().active || cs.last().pos != cs[i].pos,
    ensures
        (forall|j: int| i < j < old.len() ==> !((#[trigger] old[j]).active && old[j].pos
            == old[i].pos)) == (forall|j: int|
            i < j < cs.len() ==> !((#[trigger] cs[j]).active && cs[j].pos == cs[i].pos)),
{
    let a = forall|j: int|
        i < j < old.len() ==> !((#[trigger] old[j]).active && old[j].pos == old[i].pos);
    let b = forall|j: int|
        i < j < cs.len() ==> !((#[trigger] cs[j]).active && cs[j].pos == cs[i].pos);
    if a {
        assert forall|j: int| i < j < cs.len() implies !((#[trigger] cs[j]).active && cs[j].pos
            == cs[i].pos) by {
            if j < old.len() {
                assert(old[j] == cs[j]);
            }
        }
    }
    if b {
        assert forall|j: int| i < j < old.len() implies !((#[trigger] old[j]).active && old[j].pos
            == old[i].pos) by {
            assert(cs[j] == old[j]);
        }
    }
}

proof fn lemma_all_configured(s: ServiceView, cs: Seq<ConfigClientView>)
    requires
        s.clients.len() == 0,
        cs.len() < u64::MAX,
    ensures
        ({
            let t = model::configs_added(s, cs);
            &&& holds_configured(t.clients, cs)
            &&& t == ServiceView { clients: t.clients, effects: t.effects, ..s }
        }),
    decreases cs.len(),
{
    if cs.len() > 0 {
        lemma_all_configured(s, cs.drop_last());
        lemma_one_configured(model::configs_added(s, cs.drop_last()), cs);
    }
}

/// When the configuration file has changed, the clients are exactly the configured ones, and the
/// authorized keys, the settings, the port for transfers and the directory for offers are those of
/// the file; everything else stays. The keys that release the pointer are set, and then every
/// frontend is told of everything.
pub proof fn law_configuration_is_taken(s: ServiceView, c: ConfigFileView)
    requires
        client::handles_ascend(s.clients),
        c.clients.len() < u64::MAX,
    ensures
        ({
            let t = model::config_changed(s, c);
            let told = answers::everything(t);
            &&& holds_configured(t.clients, c.clients)
            &&& t == ServiceView {
                clients: t.clients,
                authorized: c.authorized,
                settings: c.settings,
                file_transfer_port: c.file_transfer_port,
                auto_accept: c.auto_accept,
                effects: t.effects,
                ..s
            }
            &&& t.effects.len() > told.len()
            &&& t.effects.skip(t.effects.len() - told.len()) == told
            &&& t.effects[t.effects.len() - told.len() - 1] == EffectView::SetReleaseBind(
                c.settings.release_bind,
            )
        }),
{
    let hs = client::handles_where(s.clients, client::any_client());
    lemma_all_gone(s, s.clients.len());
    assert(hs.take(s.clients.len() as int) =~= hs);
    assert(s.clients.skip(s.clients.len() as int) =~= Seq::empty());
    let s1 = model::all_removed(s, hs);
    lemma_all_configured(s1, c.clients);
    let s2 = model::configs_added(s1, c.clients);
    let s3 = model::effected(s2, EffectView::SetReleaseBind(c.settings.release_bind));
    let s4 = ServiceView {
        authorized: c.authorized,
        settings: c.settings,
        file_transfer_port: c.file_transfer_port,
        auto_accept: c.auto_accept,
        ..s3
    };
    answers::lemma_synced(s4);
    let t = model::config_changed(s, c);
    let told = answers::everything(t);
    assert(told == answers::everything(s4));
    assert(t.effects.skip(t.effects.len() - told.len()) =~= told);
}

// ----- the start ------------------------------------------------------------

/// A service that is created holds exactly the clients of its configuration, in order and with all
/// that is configured of them, and all else that the configuration says; nothing has happened yet.
pub proof fn law_created_service(config: machine::ServiceConfig, i: int)
    requires
        config.clients@.len() < model::ENTER_HANDLE_BEGIN,
    ensures
        ({
            let s = machine::initial_service(config);
            &&& s.clients.len() == config.clients@.len()
            &&& 0 <= i < s.clients.len() ==> ({
                let c = config.clients@[i]@;
                s.clients[i] == ClientView {
                    handle: i as u64,
                    config: ClientConfigView {
                        hostname: c.hostname,
                        fix_ips: c.ips,
                        port: c.port,
                        pos: c.pos,
                        cmd: c.enter_hook,
                    },
                    state: ClientStateView {
                        active: c.active,
                        active_addr: None,
                        alive: false,
                        dns_ips: Seq::empty(),
                        ips: client::each_once(c.ips),
                        has_pressed_keys: false,
                        resolving: false,
                    },
                }
            })
            &&& s.authorized == config.authorized@
            &&& s.port == config.port
            &&& s.public_key_fingerprint == config.public_key_fingerprint@
            &&& s.clipboard == config.clipboard
            &&& s.discovery == config.discovery
            &&& s.file_transfer == config.file_transfer
            &&& s.file_transfer_port == config.file_transfer_port
            &&& s.settings == config.settings@
            &&& s.auto_accept is Some ==> config.auto_accept_file_transfers
            &&& s.incoming.len() == 0 && s.discovered.len() == 0 && s.offers.len() == 0
            &&& s.overflow is None && s.image is None
            &&& s.effects.len() == 0
        }),
{
    let cs = client::config_views(config.clients@);
    lemma_created(cs);
    if 0 <= i < cs.len() {
        assert(cs[i] == config.clients@[i]@);
        let _ = machine::configured(cs)[i];
    }
}

/// A client as it stands after the configuration was read.
pub open spec fn read_as(c: ConfigClientView, i: int) -> ClientView {
    ClientView {
        handle: i as u64,
        config: ClientConfigView {
            hostname: c.hostname,
            fix_ips: c.ips,
            port: c.port,
            pos: c.pos,
            cmd: c.enter_hook,
        },
        state: ClientStateView {
            active: c.active,
            active_addr: None,
            alive: false,
            dns_ips: Seq::empty(),
            ips: client::each_once(c.ips),
            has_pressed_keys: false,
            resolving: false,
        },
    }
}

proof fn lemma_created(cs: Seq<ConfigClientView>)
    requires
        cs.len() < u64::MAX,
    ensures
        machine::configured(cs) == Seq::new(cs.len(), |i: int| read_as(cs[i], i)),
    decreases cs.len(),
{
    let all = Seq::new(cs.len(), |i: int| read_as(cs[i], i));
    if cs.len() > 0 {
        let old = cs.drop_last();
        lemma_created(old);
        let front = machine::configured(old);
        assert forall|i: int| 0 <= i < front.len() implies (#[trigger] front[i]).handle == i by {}
        lemma_next_handle(front);
        assert(machine::configured(cs) =~= front.push(read_as(cs.last(), old.len() as int)));
        assert(all =~= front.push(read_as(cs.last(), old.len() as int)));
    } else {
        assert(machine::configured(cs) =~= all);
    }
}

proof fn lemma_put_to_rest(clients: Seq<ClientView>, handles: Seq<ClientHandle>)
    ensures
        ({
            let c = model::all_inactive(clients, handles);
            &&& c.len() == clients.len()
            &&& forall|i: int|
                0 <= i < c.len() ==> (#[trigger] c[i]) == if handles.contains(clients[i].handle) {
                    requests::made_active(clients[i], false)
                } else {
                    clients[i]
                }
        }),
    decreases handles.len(),
{
    if handles.len() > 0 {
        let front = handles.drop_last();
        lemma_put_to_rest(clients, front);
        let b = model::all_inactive(clients, front);
        let c = model::all_inactive(clients, handles);
        assert forall|i: int| 0 <= i < c.len() implies (#[trigger] c[i]) == if handles.contains(
            clients[i].handle,
        ) {
            requests::made_active(clients[i], false)
        } else {
            clients[i]
        } by {
            let g = clients[i].handle;
            assert(b[i].handle == g);
            assert(handles =~= front.push(handles.last()));
            if front.contains(g) {
                let k = choose|k: int| 0 <= k < front.len() && front[k] == g;
                assert(handles[k] == g);
            }
            if handles.last() == g {
                assert(handles[handles.len() - 1] == g);
            }
            if handles.contains(g) && handles.last() != g {
                let k = choose|k: int| 0 <= k < handles.len() && handles[k] == g;
                assert(front[k] == g);
            }
        }
    }
}

/// Whether a client is active once the first `m` were looked at: it was configured as active, and no
/// later one of them at its side was.
pub open spec fn holds_side(clients: Seq<ClientView>, i: int, m: int) -> bool {
    &&& i < m
    &&& clients[i].state.active
    &&& forall|j: int|
        i < j < m ==> !((#[trigger] clients[j]).state.active && clients[j].config.pos
            == clients[i].config.pos)
}

proof fn lemma_started(s: ServiceView, base: ServiceView, m: nat)
    requires
        client::handles_ascend(s.clients),
        m <= s.clients.len(),
        base.clients == s.clients.map_values(
            |c: ClientView| requests::made_active(c, false),
        ),
    ensures
        ({
            let hs = client::handles_where(s.clients.take(m as int), client::active_client());
            let t = model::all_activated(base, hs);
            &&& t == ServiceView { clients: t.clients, effects: t.effects, ..base }
            &&& t.clients == Seq::new(
                s.clients.len(),
                |i: int|
                    requests::made_active(s.clients[i], holds_side(s.clients, i, m as int)),
            )
        }),
    decreases m,
{
    let p = client::active_client();
    let hs = client::handles_where(s.clients.take(m as int), p);
    let t = model::all_activated(base, hs);
    let goal = Seq::new(
        s.clients.len(),
        |i: int| requests::made_active(s.clients[i], holds_side(s.clients, i, m as int)),
    );
    if m == 0 {
        assert(hs.len() == 0);
        assert(t.clients =~= goal);
    } else {
        let n = (m - 1) as int;
        lemma_started(s, base, n as nat);
        assert(s.clients.take(m as int).drop_last() =~= s.clients.take(n));
        let before = client::handles_where(s.clients.take(n), p);
        let u = model::all_activated(base, before);
        let c = s.clients[n];
        if c.state.active {
            assert(hs =~= before.push(c.handle));
            assert(hs.drop_last() =~= before);
            assert forall|a: int, b: int| 0 <= a < b < u.clients.len() implies (
            #[trigger] u.clients[a]).handle < (#[trigger] u.clients[b]).handle by {
                assert(s.clients[a].handle < s.clients[b].handle);
            }
            assert(!u.clients[n].state.active);
            let k = lemma_first_active_at(u.clients, c.config.pos);
            if k < u.clients.len() {
                requests::lemma_activated_over(u, n, k);
            } else {
                requests::lemma_activated_alone(u, n);
            }
            assert(t == model::activated(u, c.handle));
            assert forall|i: int| 0 <= i < s.clients.len() implies t.clients[i] == goal[i] by {
                let was = holds_side(s.clients, i, n);
                let is = holds_side(s.clients, i, m as int);
                assert(u.clients[i] == requests::made_active(s.clients[i], was));
                if i == n {
                    assert(is);
                } else if s.clients[i].config.pos == c.config.pos {
                    assert(!is) by {
                        if i < n {
                            assert(s.clients[n].state.active);
                        }
                    }
                    if was && i != k {
                        assert(k < i);
                        assert(holds_side(s.clients, k, n));
                        assert(s.clients[i].state.active);
                    }
                } else {
                    assert(i != k);
                    lemma_side_kept(s.clients, i, n);
                }
            }
            assert(t.clients =~= goal);
        } else {
            assert(hs == before);
            assert forall|i: int| 0 <= i < s.clients.len() implies u.clients[i] == goal[i] by {
                lemma_side_kept(s.clients, i, n);
            }
            assert(t.clients =~= goal);
        }
    }
}

proof fn lemma_side_kept(clients: Seq<ClientView>, i: int, n: int)
    requires
        0 <= i < clients.len(),
        0 <= n < clients.len(),
        !clients[n].state.active || (i != n && clients[n].config.pos != clients[i].config.pos),
    ensures
        holds_side(clients, i, n) == holds_side(clients, i, n + 1),
{
    if holds_side(clients, i, n) {
        assert forall|j: int| i < j < n + 1 implies !((#[trigger] clients[j]).state.active
            && clients[j].config.pos == clients[i].config.pos) by {}
    }
}

/// When the service starts, of the clients that are configured as active at one side the last one is
/// active, and nothing else changes of any client or of the service.
pub proof fn law_start_activates(s: ServiceView, i: int)
    requires
        client::handles_ascend(s.clients),
        0 <= i < s.clients.len(),
    ensures
        ({
            let t = model::started(s);
            &&& t == ServiceView { clients: t.clients, effects: t.effects, ..s }
            &&& t.clients.len() == s.clients.len()
            &&& t.clients[i] == requests::made_active(
                s.clients[i],
                s.clients[i].state.active && forall|j: int|
                    i < j < s.clients.len() ==> !((#[trigger] s.clients[j]).state.active
                        && s.clients[j].config.pos == s.clients[i].config.pos),
            )
        }),
{
    let hs = client::handles_where(s.clients, client::active_client());
    let rest = model::all_inactive(s.clients, hs);
    lemma_put_to_rest(s.clients, hs);
    let f = |c: ClientView| requests::made_active(c, false);
    assert forall|k: int| 0 <= k < rest.len() implies rest[k] == f(s.clients[k]) by {
        if s.clients[k].state.active {
            laws::lemma_active_listed(s.clients, k);
        } else {
            assert(f(s.clients[k]) == s.clients[k]);
        }
    }
    assert(rest =~= s.clients.map_values(f));
    let base = model::with_clients(s, rest);
    lemma_started(s, base, s.clients.len());
    assert(s.clients.take(s.clients.len() as int) =~= s.clients);
}

} // verus!

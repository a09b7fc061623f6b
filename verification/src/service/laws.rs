//! What holds of the service in every state.
use crate::file_drop::FileDropEventView;
use crate::ipc::{ClientHandle, ClientView, Position};
use crate::service::machine;
use crate::service::model;
use crate::service::model::{EffectView, IncomingView, ServiceView, ENTER_HANDLE_BEGIN};
use crate::{client, collections, ipc};
use vstd::prelude::*;

verus! {

// ----- the invariant --------------------------------------------------------

/// No two active clients stand at the same side of the screen.
pub open spec fn one_active_per_position(clients: Seq<ClientView>) -> bool {
    forall|i: int, j: int|
        0 <= i < j < clients.len() && (#[trigger] clients[i]).state.active && (
        #[trigger] clients[j]).state.active ==> clients[i].config.pos != clients[j].config.pos
}

/// The handles of clients stay below those of incoming connections.
pub open spec fn client_handles_low(clients: Seq<ClientView>) -> bool {
    forall|i: int| 0 <= i < clients.len() ==> (#[trigger] clients[i]).handle < ENTER_HANDLE_BEGIN
}

/// What holds of the clients.
pub open spec fn clients_inv(clients: Seq<ClientView>) -> bool {
    &&& client::handles_ascend(clients)
    &&& one_active_per_position(clients)
    &&& client_handles_low(clients)
}

/// What holds of the incoming connections: each address and each handle occurs once, and the
/// handles are those that were given out.
pub open spec fn incoming_inv(incoming: Seq<IncomingView>, next: u64) -> bool {
    &&& next <= ENTER_HANDLE_BEGIN
    &&& forall|i: int, j: int|
        #![trigger incoming[i], incoming[j]]
        0 <= i < j < incoming.len() ==> incoming[i].addr != incoming[j].addr && incoming[i].handle
            != incoming[j].handle
    &&& forall|i: int|
        0 <= i < incoming.len() ==> ENTER_HANDLE_BEGIN <= (#[trigger] incoming[i]).handle
            < ENTER_HANDLE_BEGIN + next
}

/// What holds of the service in every state.
pub open spec fn service_inv(s: ServiceView) -> bool {
    &&& clients_inv(s.clients)
    &&& incoming_inv(s.incoming, s.next_trigger_handle)
}

// ----- capture barriers -----------------------------------------------------

/// Whether an incoming connection has a handle.
pub open spec fn incoming_handle(incoming: Seq<IncomingView>, h: ClientHandle) -> bool {
    exists|i: int| 0 <= i < incoming.len() && (#[trigger] incoming[i]).handle == h
}

/// The barriers that ought to exist: one for each active client and each incoming connection.
pub open spec fn barriers(s: ServiceView) -> Set<ClientHandle> {
    Set::new(|h: ClientHandle| model::is_active(s.clients, h) || incoming_handle(s.incoming, h))
}

/// The barriers that exist after one effect.
pub open spec fn barrier_effect(b: Set<ClientHandle>, e: EffectView) -> Set<ClientHandle> {
    match e {
        EffectView::CaptureCreate(h, _, _) => b.insert(h),
        EffectView::CaptureDestroy(h) => b.remove(h),
        _ => b,
    }
}

/// The barriers that exist after effects have been carried out.
pub open spec fn barriers_after(b: Set<ClientHandle>, effects: Seq<EffectView>) -> Set<ClientHandle>
    decreases effects.len(),
{
    if effects.len() == 0 {
        b
    } else {
        barrier_effect(barriers_after(b, effects.drop_last()), effects.last())
    }
}

/// Whether the effects that lead from one state to another turn the barriers of the first into
/// those of the second.
pub open spec fn barriers_follow(s: ServiceView, t: ServiceView) -> bool {
    &&& s.effects.is_prefix_of(t.effects)
    &&& barriers_after(barriers(s), t.effects.skip(s.effects.len() as int)) == barriers(t)
}

/// What a step of the service keeps: the invariant, and the barriers.
pub open spec fn keeps(s: ServiceView, t: ServiceView) -> bool {
    service_inv(t) && barriers_follow(s, t)
}

proof fn lemma_barriers_append(
    b: Set<ClientHandle>,
    x: Seq<EffectView>,
    y: Seq<EffectView>,
)
    ensures
        barriers_after(b, x + y) == barriers_after(barriers_after(b, x), y),
    decreases y.len(),
{
    if y.len() == 0 {
        assert(x + y =~= x);
    } else {
        assert((x + y).drop_last() =~= x + y.drop_last());
        lemma_barriers_append(b, x, y.drop_last());
    }
}

/// Steps that keep can be put one after the other.
proof fn lemma_keeps_trans(s: ServiceView, t: ServiceView, u: ServiceView)
    requires
        keeps(s, t),
        keeps(t, u),
    ensures
        keeps(s, u),
{
    let n = s.effects.len() as int;
    let m = t.effects.len() as int;
    let x = t.effects.skip(n);
    let y = u.effects.skip(m);
    assert(u.effects.skip(n) =~= x + y) by {
        assert(u.effects.take(m) =~= t.effects);
        assert forall|k: int| 0 <= k < u.effects.len() - n implies u.effects.skip(n)[k] == (x
            + y)[k] by {
            if k < m - n {
                assert(u.effects[n + k] == u.effects.take(m)[n + k]);
            }
        }
    }
    lemma_barriers_append(barriers(s), x, y);
    assert(s.effects =~= u.effects.take(n)) by {
        assert(u.effects.take(m) =~= t.effects);
        assert(t.effects.take(n) =~= s.effects);
        assert forall|k: int| 0 <= k < n implies u.effects.take(n)[k] == s.effects[k] by {
            assert(u.effects[k] == u.effects.take(m)[k]);
            assert(t.effects[k] == t.effects.take(n)[k]);
        }
    }
}

/// Nothing done keeps everything.
proof fn lemma_keeps_same(s: ServiceView, t: ServiceView)
    requires
        service_inv(s),
        t.clients == s.clients,
        t.incoming == s.incoming,
        t.next_trigger_handle == s.next_trigger_handle,
        t.effects == s.effects,
    ensures
        keeps(s, t),
{
    assert(t.effects.skip(s.effects.len() as int) =~= Seq::empty());
    assert(s.effects.take(s.effects.len() as int) =~= t.effects);
    assert(barriers(s) =~= barriers(t));
}

/// An effect that is not about barriers keeps everything.
proof fn lemma_quiet_effect(s: ServiceView, e: EffectView)
    requires
        service_inv(s),
        !(e is CaptureCreate),
        !(e is CaptureDestroy),
    ensures
        keeps(s, model::effected(s, e)),
{
    let t = model::effected(s, e);
    lemma_one_effect(s, t, e);
    assert(barriers(s) =~= barriers(t));
}

/// What one more effect does to the barriers.
proof fn lemma_one_effect(s: ServiceView, t: ServiceView, e: EffectView)
    requires
        t.effects == s.effects.push(e),
    ensures
        s.effects.is_prefix_of(t.effects),
        barriers_after(barriers(s), t.effects.skip(s.effects.len() as int)) == barrier_effect(
            barriers(s),
            e,
        ),
{
    let d = t.effects.skip(s.effects.len() as int);
    assert(d =~= seq![e]);
    assert(d.drop_last() =~= Seq::empty());
    assert(barriers_after(barriers(s), Seq::empty()) == barriers(s));
    assert(t.effects.take(s.effects.len() as int) =~= s.effects);
}

// ----- the table of clients -------------------------------------------------

/// Where a handle is in the table.
proof fn lemma_client_at(clients: Seq<ClientView>, h: ClientHandle, i: int)
    requires
        client::handles_ascend(clients),
        0 <= i < clients.len(),
        clients[i].handle == h,
    ensures
        client::client_with(clients, h) == Some(clients[i]),
{
    assert forall|j: int| 0 <= j < i implies !client::with_handle(h)(#[trigger] clients[j]) by {
        assert(clients[j].handle < clients[i].handle);
    }
    collections::lemma_first_at(clients, client::with_handle(h), i);
}

/// A handle that is found is in the table.
proof fn lemma_client_found(clients: Seq<ClientView>, h: ClientHandle) -> (i: int)
    requires
        client::client_with(clients, h) is Some,
    ensures
        0 <= i < clients.len(),
        clients[i].handle == h,
        client::client_with(clients, h) == Some(clients[i]),
{
    collections::lemma_first_is(clients, client::with_handle(h));
    let c = client::client_with(clients, h)->0;
    choose|i: int| 0 <= i < clients.len() && clients[i] == c
}

/// Whether a change leaves handle, activity and position of a client alone.
pub open spec fn harmless(f: spec_fn(ClientView) -> ClientView) -> bool {
    forall|c: ClientView|
        (#[trigger] f(c)).handle == c.handle && f(c).state.active == c.state.active
            && f(c).config.pos == c.config.pos
}

/// A harmless change keeps everything.
proof fn lemma_harmless_change(
    s: ServiceView,
    h: ClientHandle,
    f: spec_fn(ClientView) -> ClientView,
)
    requires
        service_inv(s),
        harmless(f),
    ensures
        keeps(s, model::with_clients(s, client::changed(s.clients, h, f))),
{
    let c = client::changed(s.clients, h, f);
    let t = model::with_clients(s, c);
    assert forall|i: int| 0 <= i < c.len() implies c[i].handle == s.clients[i].handle
        && c[i].state.active == s.clients[i].state.active && c[i].config.pos
        == s.clients[i].config.pos by {
        assert(f(s.clients[i]).handle == s.clients[i].handle);
    }
    lemma_same_shape(s.clients, c);
    assert(barriers(s) =~= barriers(t)) by {
        assert forall|g: ClientHandle| model::is_active(s.clients, g) == model::is_active(
            c,
            g,
        ) by {
            lemma_active_same(s.clients, c, g);
        }
    }
    assert(t.effects.skip(s.effects.len() as int) =~= Seq::empty());
    assert(s.effects.take(s.effects.len() as int) =~= t.effects);
}

proof fn lemma_same_shape(a: Seq<ClientView>, b: Seq<ClientView>)
    requires
        clients_inv(a),
        a.len() == b.len(),
        forall|i: int|
            #![trigger b[i]]
            0 <= i < b.len() ==> b[i].handle == a[i].handle && b[i].state.active
                == a[i].state.active && b[i].config.pos == a[i].config.pos,
    ensures
        clients_inv(b),
{
    assert forall|i: int, j: int| 0 <= i < j < b.len() implies (#[trigger] b[i]).handle < (
    #[trigger] b[j]).handle by {
        assert(a[i].handle < a[j].handle);
    }
    assert forall|i: int, j: int|
        0 <= i < j < b.len() && (#[trigger] b[i]).state.active && (
        #[trigger] b[j]).state.active implies b[i].config.pos != b[j].config.pos by {
        assert(a[i].state.active && a[j].state.active);
    }
    assert forall|i: int| 0 <= i < b.len() implies (#[trigger] b[i]).handle
        < ENTER_HANDLE_BEGIN by {
        assert(a[i].handle < ENTER_HANDLE_BEGIN);
    }
}

proof fn lemma_active_same(a: Seq<ClientView>, b: Seq<ClientView>, h: ClientHandle)
    requires
        client::handles_ascend(a),
        client::handles_ascend(b),
        a.len() == b.len(),
        forall|i: int|
            #![trigger b[i]]
            0 <= i < b.len() ==> b[i].handle == a[i].handle && b[i].state.active
                == a[i].state.active,
    ensures
        model::is_active(a, h) == model::is_active(b, h),
{
    if client::client_with(a, h) is Some {
        let i = lemma_client_found(a, h);
        assert(b[i].handle == a[i].handle);
        lemma_client_at(b, h, i);
    }
    if client::client_with(b, h) is Some {
        let i = lemma_client_found(b, h);
        lemma_client_at(a, h, i);
    }
}

/// What a change of activity does to the table.
proof fn lemma_activity_change(clients: Seq<ClientView>, h: ClientHandle, active: bool)
    requires
        client::handles_ascend(clients),
    ensures
        ({
            let c = client::changed(clients, h, client::active_set(active));
            &&& client::handles_ascend(c)
            &&& forall|g: ClientHandle| #[trigger]
                model::is_active(c, g) == (if g == h && client::client_with(clients, h) is Some {
                    active
                } else {
                    model::is_active(clients, g)
                })
            &&& forall|g: ClientHandle|
                (client::client_with(c, g) is Some) == (#[trigger] client::client_with(
                    clients,
                    g,
                ) is Some)
        }),
{
    let c = client::changed(clients, h, client::active_set(active));
    assert forall|i: int, j: int| 0 <= i < j < c.len() implies (#[trigger] c[i]).handle < (
    #[trigger] c[j]).handle by {
        assert(clients[i].handle < clients[j].handle);
    }
    assert forall|g: ClientHandle| #[trigger]
        model::is_active(c, g) == (if g == h && client::client_with(clients, h) is Some {
            active
        } else {
            model::is_active(clients, g)
        }) by {
        lemma_activity_change_one(clients, h, active, g);
    }
    assert forall|g: ClientHandle|
        (client::client_with(c, g) is Some) == (#[trigger] client::client_with(
            clients,
            g,
        ) is Some) by {
        lemma_activity_change_one(clients, h, active, g);
    }
}

proof fn lemma_activity_change_one(
    clients: Seq<ClientView>,
    h: ClientHandle,
    active: bool,
    g: ClientHandle,
)
    requires
        client::handles_ascend(clients),
        client::handles_ascend(client::changed(clients, h, client::active_set(active))),
    ensures
        ({
            let c = client::changed(clients, h, client::active_set(active));
            &&& model::is_active(c, g) == (if g == h && client::client_with(clients, h) is Some {
                active
            } else {
                model::is_active(clients, g)
            })
            &&& (client::client_with(c, g) is Some) == (client::client_with(clients, g) is Some)
        }),
{
    let c = client::changed(clients, h, client::active_set(active));
    if client::client_with(clients, g) is Some {
        let i = lemma_client_found(clients, g);
        assert(c[i].handle == g);
        lemma_client_at(c, g, i);
    }
    if client::client_with(c, g) is Some {
        let i = lemma_client_found(c, g);
        assert(clients[i].handle == g);
        lemma_client_at(clients, g, i);
    }
}

// ----- activation -----------------------------------------------------------

/// Reporting a client keeps everything.
proof fn lemma_broadcast_keeps(s: ServiceView, h: ClientHandle)
    requires
        service_inv(s),
    ensures
        keeps(s, model::client_broadcast(s, h)),
        model::client_broadcast(s, h).clients == s.clients,
{
    reveal(model::client_broadcast);
    match client::client_with(s.clients, h) {
        Some(c) => lemma_quiet_effect(s, EffectView::Notify(ipc::FrontendEventView::State(c))),
        None => lemma_quiet_effect(
            s,
            EffectView::Notify(ipc::FrontendEventView::NoSuchClient(h)),
        ),
    }
}

/// Resolving keeps everything.
proof fn lemma_resolved_keeps(s: ServiceView, h: ClientHandle)
    requires
        service_inv(s),
    ensures
        keeps(s, model::resolved(s, h)),
        model::resolved(s, h).clients == s.clients,
{
    reveal(model::resolved);
    lemma_keeps_same(s, s);
    match client::client_with(s.clients, h) {
        Some(c) => match c.config.hostname {
            Some(n) => lemma_quiet_effect(s, EffectView::Resolve(h, n)),
            None => {},
        },
        None => {},
    }
}

/// Deactivating keeps everything, and leaves the client inactive.
proof fn lemma_deactivated_keeps(s: ServiceView, h: ClientHandle)
    requires
        service_inv(s),
    ensures
        keeps(s, model::deactivated(s, h)),
        model::deactivated(s, h).clients == client::changed(
            s.clients,
            h,
            client::active_set(false),
        ) || model::deactivated(s, h).clients == s.clients,
        forall|g: ClientHandle| #[trigger]
            model::is_active(model::deactivated(s, h).clients, g) == (g != h && model::is_active(
                s.clients,
                g,
            )),
        forall|g: ClientHandle|
            (client::client_with(model::deactivated(s, h).clients, g) is Some) == (
            #[trigger] client::client_with(s.clients, g) is Some),
{
    reveal(model::deactivated);
    if model::is_active(s.clients, h) {
        let c = client::changed(s.clients, h, client::active_set(false));
        lemma_activity_change(s.clients, h, false);
        let t1 = model::with_clients(s, c);
        let t2 = model::effected(t1, EffectView::CaptureDestroy(h));
        assert(one_active_per_position(c)) by {
            assert forall|i: int, j: int|
                0 <= i < j < c.len() && (#[trigger] c[i]).state.active && (
                #[trigger] c[j]).state.active implies c[i].config.pos != c[j].config.pos by {
                assert(s.clients[i].state.active && s.clients[j].state.active);
            }
        }
        assert(client_handles_low(c)) by {
            assert forall|i: int| 0 <= i < c.len() implies (#[trigger] c[i]).handle
                < ENTER_HANDLE_BEGIN by {
                assert(s.clients[i].handle < ENTER_HANDLE_BEGIN);
            }
        }
        lemma_one_effect(s, t2, EffectView::CaptureDestroy(h));
        lemma_handle_is_low(s.clients, h);
        assert(!incoming_handle(s.incoming, h));
        assert(barriers(s).remove(h) =~= barriers(t2)) by {
            assert forall|g: ClientHandle| barriers(s).remove(h).contains(g) == barriers(
                t2,
            ).contains(g) by {
                assert(model::is_active(c, g) == (if g == h {
                    false
                } else {
                    model::is_active(s.clients, g)
                }));
            }
        }
        assert(keeps(s, t2));
        lemma_broadcast_keeps(t2, h);
        lemma_keeps_trans(s, t2, model::client_broadcast(t2, h));
    } else {
        lemma_keeps_same(s, s);
    }
}

proof fn lemma_handle_is_low(clients: Seq<ClientView>, h: ClientHandle)
    requires
        client_handles_low(clients),
        client::client_with(clients, h) is Some,
    ensures
        h < ENTER_HANDLE_BEGIN,
{
    let i = lemma_client_found(clients, h);
}

/// No client other than `h` is active at a position.
pub open spec fn position_free(clients: Seq<ClientView>, h: ClientHandle, pos: Position) -> bool {
    forall|i: int|
        0 <= i < clients.len() && (#[trigger] clients[i]).state.active && clients[i].handle != h
            ==> clients[i].config.pos != pos
}

proof fn lemma_position_cleared(s: ServiceView, h: ClientHandle, pos: Position)
    requires
        service_inv(s),
        client::client_with(s.clients, h) matches Some(c) && c.config.pos == pos,
    ensures
        keeps(s, model::position_cleared(s, h, pos)),
        position_free(model::position_cleared(s, h, pos).clients, h, pos),
        client::client_with(model::position_cleared(s, h, pos).clients, h) is Some,
        client::client_with(model::position_cleared(s, h, pos).clients, h)->0.config.pos == pos,
        model::position_cleared(s, h, pos).clients.len() == s.clients.len(),
{
    let p = client::active_at(pos);
    let clients = s.clients;
    collections::lemma_first_is(clients, p);
    lemma_keeps_same(s, s);
    match collections::first_where(clients, p) {
        None => {
            assert forall|i: int|
                0 <= i < clients.len() && (#[trigger] clients[i]).state.active && clients[i].handle
                    != h implies clients[i].config.pos != pos by {
                assert(!p(clients[i]));
            }
        },
        Some(o) => {
            let k = choose|k: int| 0 <= k < clients.len() && clients[k] == o;
            assert(p(clients[k]));
            assert forall|i: int|
                0 <= i < clients.len() && i != k && (
                #[trigger] clients[i]).state.active implies clients[i].config.pos != pos by {
                if i < k {
                    assert(clients[i].state.active && clients[k].state.active);
                } else {
                    assert(clients[k].state.active && clients[i].state.active);
                }
            }
            lemma_client_at(clients, o.handle, k);
            if o.handle != h {
                lemma_deactivated_keeps(s, o.handle);
                let t = model::deactivated(s, o.handle);
                reveal(model::deactivated);
                reveal(model::client_broadcast);
                assert(model::is_active(clients, o.handle));
                let c = client::changed(clients, o.handle, client::active_set(false));
                assert(t.clients == c);
                assert forall|i: int|
                    0 <= i < c.len() && (#[trigger] c[i]).state.active && c[i].handle
                        != h implies c[i].config.pos != pos by {
                    assert(i != k);
                    assert(clients[i].state.active);
                }
                let j = lemma_client_found(clients, h);
                assert(c[j].handle == h && c[j].config.pos == pos);
                lemma_activity_change(clients, o.handle, false);
                lemma_client_at(c, h, j);
            }
        },
    }
}

proof fn lemma_barrier_created(s: ServiceView, h: ClientHandle, pos: Position)
    requires
        service_inv(s),
        position_free(s.clients, h, pos),
        client::client_with(s.clients, h) matches Some(c) && c.config.pos == pos,
    ensures
        keeps(s, model::barrier_created(s, h, pos)),
        model::is_active(model::barrier_created(s, h, pos).clients, h),
{
    if model::is_active(s.clients, h) {
        lemma_keeps_same(s, s);
    } else {
        let c = client::changed(s.clients, h, client::active_set(true));
        lemma_activity_change(s.clients, h, true);
        let e = EffectView::CaptureCreate(h, pos, model::CaptureType::Default);
        let t2 = model::effected(model::with_clients(s, c), e);
        let k = lemma_client_found(s.clients, h);
        assert(one_active_per_position(c)) by {
            assert forall|i: int, j: int|
                0 <= i < j < c.len() && (#[trigger] c[i]).state.active && (
                #[trigger] c[j]).state.active implies c[i].config.pos != c[j].config.pos by {
                assert(s.clients[i].handle < s.clients[j].handle);
                if s.clients[i].handle == h {
                    assert(i == k) by {
                        if i < k {
                            assert(s.clients[i].handle < s.clients[k].handle);
                        } else if k < i {
                            assert(s.clients[k].handle < s.clients[i].handle);
                        }
                    }
                    assert(s.clients[j].state.active);
                } else if s.clients[j].handle == h {
                    assert(j == k) by {
                        if j < k {
                            assert(s.clients[j].handle < s.clients[k].handle);
                        } else if k < j {
                            assert(s.clients[k].handle < s.clients[j].handle);
                        }
                    }
                    assert(s.clients[i].state.active);
                } else {
                    assert(s.clients[i].state.active && s.clients[j].state.active);
                }
            }
        }
        assert(client_handles_low(c)) by {
            assert forall|i: int| 0 <= i < c.len() implies (#[trigger] c[i]).handle
                < ENTER_HANDLE_BEGIN by {
                assert(s.clients[i].handle < ENTER_HANDLE_BEGIN);
            }
        }
        lemma_one_effect(s, t2, e);
        assert(barriers(s).insert(h) =~= barriers(t2)) by {
            assert forall|g: ClientHandle| barriers(s).insert(h).contains(g) == barriers(
                t2,
            ).contains(g) by {
                assert(model::is_active(c, g) == (if g == h {
                    true
                } else {
                    model::is_active(s.clients, g)
                }));
            }
        }
        assert(keeps(s, t2));
        assert(model::is_active(c, h));
        lemma_broadcast_keeps(t2, h);
        lemma_keeps_trans(s, t2, model::client_broadcast(t2, h));
    }
}

/// Activating keeps everything, and the client, where there is one, is then active.
pub proof fn law_activation(s: ServiceView, h: ClientHandle)
    requires
        service_inv(s),
    ensures
        keeps(s, model::activated(s, h)),
        client::client_with(s.clients, h) is Some ==> model::is_active(
            model::activated(s, h).clients,
            h,
        ),
{
    reveal(model::activated);
    lemma_resolved_keeps(s, h);
    let s1 = model::resolved(s, h);
    match client::client_with(s1.clients, h) {
        Some(c) => {
            let pos = c.config.pos;
            lemma_position_cleared(s1, h, pos);
            let s2 = model::position_cleared(s1, h, pos);
            lemma_barrier_created(s2, h, pos);
            lemma_keeps_trans(s, s1, s2);
            lemma_keeps_trans(s, s2, model::barrier_created(s2, h, pos));
        },
        None => {},
    }
}

/// Deactivating keeps everything, and the client is then inactive.
pub proof fn law_deactivation(s: ServiceView, h: ClientHandle)
    requires
        service_inv(s),
    ensures
        keeps(s, model::deactivated(s, h)),
        !model::is_active(model::deactivated(s, h).clients, h),
{
    lemma_deactivated_keeps(s, h);
}

// ----- removing and adding clients ------------------------------------------

/// What removing does to the table.
proof fn lemma_removed(clients: Seq<ClientView>, h: ClientHandle)
    requires
        clients_inv(clients),
    ensures
        clients_inv(client::removed(clients, h)),
        client::client_with(client::removed(clients, h), h) is None,
        forall|g: ClientHandle| #[trigger]
            model::is_active(client::removed(clients, h), g) == (g != h && model::is_active(
                clients,
                g,
            )),
{
    let r = client::removed(clients, h);
    if client::client_with(clients, h) is Some {
        let k = lemma_client_found(clients, h);
        assert forall|j: int| 0 <= j < k implies !client::with_handle(h)(
            #[trigger] clients[j],
        ) by {
            assert(clients[j].handle < clients[k].handle);
        }
        collections::lemma_index_at(clients, client::with_handle(h), k);
        assert(r == clients.remove(k));
        assert forall|i: int, j: int| 0 <= i < j < r.len() implies (#[trigger] r[i]).handle < (
        #[trigger] r[j]).handle by {
            let i2 = if i < k {
                i
            } else {
                i + 1
            };
            let j2 = if j < k {
                j
            } else {
                j + 1
            };
            assert(clients[i2].handle < clients[j2].handle);
        }
        assert forall|i: int, j: int|
            0 <= i < j < r.len() && (#[trigger] r[i]).state.active && (
            #[trigger] r[j]).state.active implies r[i].config.pos != r[j].config.pos by {
            let i2 = if i < k {
                i
            } else {
                i + 1
            };
            let j2 = if j < k {
                j
            } else {
                j + 1
            };
            assert(clients[i2].state.active && clients[j2].state.active);
        }
        assert forall|i: int| 0 <= i < r.len() implies (#[trigger] r[i]).handle
            < ENTER_HANDLE_BEGIN by {
            let i2 = if i < k {
                i
            } else {
                i + 1
            };
            assert(clients[i2].handle < ENTER_HANDLE_BEGIN);
        }
        assert forall|g: ClientHandle| #[trigger]
            model::is_active(r, g) == (g != h && model::is_active(clients, g)) by {
            lemma_removed_one(clients, h, k, g);
        }
        lemma_removed_one(clients, h, k, h);
    } else {
        collections::lemma_first_is(clients, client::with_handle(h));
        assert forall|j: int| 0 <= j < clients.len() implies !client::with_handle(h)(
            #[trigger] clients[j],
        ) by {}
        collections::lemma_index_at(clients, client::with_handle(h), clients.len() as int);
    }
}

proof fn lemma_removed_one(clients: Seq<ClientView>, h: ClientHandle, k: int, g: ClientHandle)
    requires
        client::handles_ascend(clients),
        0 <= k < clients.len(),
        clients[k].handle == h,
        client::handles_ascend(clients.remove(k)),
    ensures
        model::is_active(clients.remove(k), g) == (g != h && model::is_active(clients, g)),
        g == h ==> client::client_with(clients.remove(k), g) is None,
{
    let r = clients.remove(k);
    if client::client_with(r, g) is Some {
        let i = lemma_client_found(r, g);
        let i2 = if i < k {
            i
        } else {
            i + 1
        };
        assert(clients[i2].handle == g);
        lemma_client_at(clients, g, i2);
        if i2 < k {
            assert(clients[i2].handle < clients[k].handle);
        } else {
            assert(clients[k].handle < clients[i2].handle);
        }
    }
    if client::client_with(clients, g) is Some && g != h {
        let i = lemma_client_found(clients, g);
        let i2 = if i < k {
            i
        } else {
            i - 1
        };
        assert(r[i2].handle == g);
        lemma_client_at(r, g, i2);
    }
}

/// Removing a client keeps everything; it is then gone.
pub proof fn law_removal(s: ServiceView, h: ClientHandle)
    requires
        service_inv(s),
    ensures
        keeps(s, model::client_removed(s, h)),
        client::client_with(model::client_removed(s, h).clients, h) is None,
{
    reveal(model::client_removed);
    lemma_removed(s.clients, h);
    let s1 = model::with_clients(s, client::removed(s.clients, h));
    let e = EffectView::CaptureDestroy(h);
    let s2 = if model::is_active(s.clients, h) {
        model::effected(s1, e)
    } else {
        s1
    };
    if model::is_active(s.clients, h) {
        lemma_handle_is_low(s.clients, h);
        lemma_one_effect(s, s2, e);
        assert(barriers(s).remove(h) =~= barriers(s2));
    } else {
        assert(barriers(s) =~= barriers(s2)) by {
            assert forall|g: ClientHandle| model::is_active(s.clients, g) == model::is_active(
                s2.clients,
                g,
            ) by {}
        }
        assert(s2.effects.skip(s.effects.len() as int) =~= Seq::empty());
        assert(s.effects.take(s.effects.len() as int) =~= s2.effects);
    }
    let deleted = ipc::FrontendEventView::Deleted(h);
    let s3 = model::notified(s2, deleted);
    lemma_quiet_effect(s2, EffectView::Notify(deleted));
    lemma_keeps_trans(s, s2, s3);
    match client::client_with(s.clients, h) {
        Some(c) => match c.config.hostname {
            Some(n) => {
                match collections::first_where(s3.discovered, model::device_named(n)) {
                    Some(d) => {
                        let shown = ipc::FrontendEventView::DiscoveredDevice(d);
                        lemma_quiet_effect(s3, EffectView::Notify(shown));
                        lemma_keeps_trans(s, s3, model::notified(s3, shown));
                    },
                    None => {},
                }
            },
            None => {},
        },
        None => {},
    }
}

/// What adding an inactive client does to the table.
proof fn lemma_added_inactive(
    clients: Seq<ClientView>,
    config: ipc::ClientConfigView,
    state: ipc::ClientStateView,
)
    requires
        clients_inv(clients),
        clients.len() < ENTER_HANDLE_BEGIN,
        !state.active,
    ensures
        clients_inv(client::added(clients, config, state)),
        forall|g: ClientHandle| #[trigger]
            model::is_active(client::added(clients, config, state), g) == model::is_active(
                clients,
                g,
            ),
        client::client_with(
            client::added(clients, config, state),
            client::free_handle(clients) as u64,
        ) == Some(
            ClientView { handle: client::free_handle(clients) as u64, config, state },
        ),
{
    client::lemma_added(clients, config, state);
    let k = client::free_handle(clients) as int;
    let a = client::added(clients, config, state);
    assert forall|i: int, j: int|
        0 <= i < j < a.len() && (#[trigger] a[i]).state.active && (
        #[trigger] a[j]).state.active implies a[i].config.pos != a[j].config.pos by {
        let i2 = if i < k {
            i
        } else {
            i - 1
        };
        let j2 = if j < k {
            j
        } else {
            j - 1
        };
        assert(a[i] == clients[i2] && a[j] == clients[j2]);
        assert(clients[i2].state.active && clients[j2].state.active);
    }
    assert forall|i: int| 0 <= i < a.len() implies (#[trigger] a[i]).handle
        < ENTER_HANDLE_BEGIN by {
        if i != k {
            let i2 = if i < k {
                i
            } else {
                i - 1
            };
            assert(clients[i2].handle < ENTER_HANDLE_BEGIN);
        }
    }
    assert forall|g: ClientHandle| #[trigger] model::is_active(a, g) == model::is_active(
        clients,
        g,
    ) by {
        if client::client_with(clients, g) is Some {
            let i = lemma_client_found(clients, g);
            let i2 = if i < k {
                i
            } else {
                i + 1
            };
            assert(a[i2] == clients[i]);
            lemma_client_at(a, g, i2);
        }
        if client::client_with(a, g) is Some {
            let i = lemma_client_found(a, g);
            if i != k {
                let i2 = if i < k {
                    i
                } else {
                    i - 1
                };
                assert(a[i] == clients[i2]);
                lemma_client_at(clients, g, i2);
            } else {
                assert(client::client_with(clients, k as u64) is None);
            }
        }
    }
}

/// A table with the same active clients keeps everything.
proof fn lemma_same_active(s: ServiceView, c: Seq<ClientView>)
    requires
        service_inv(s),
        clients_inv(c),
        forall|g: ClientHandle| #[trigger]
            model::is_active(c, g) == model::is_active(s.clients, g),
    ensures
        keeps(s, model::with_clients(s, c)),
{
    let t = model::with_clients(s, c);
    assert(barriers(s) =~= barriers(t));
    assert(t.effects.skip(s.effects.len() as int) =~= Seq::empty());
    assert(s.effects.take(s.effects.len() as int) =~= t.effects);
}

/// Adding a client keeps everything.
pub proof fn law_adding(s: ServiceView)
    requires
        service_inv(s),
        s.clients.len() < ENTER_HANDLE_BEGIN,
    ensures
        keeps(s, model::client_added(s)),
{
    reveal(model::client_added);
    lemma_added_inactive(s.clients, ipc::default_config(), ipc::default_state());
    let c = client::added(s.clients, ipc::default_config(), ipc::default_state());
    lemma_same_active(s, c);
    let s1 = model::with_clients(s, c);
    let created = ipc::FrontendEventView::Created(
        ClientView {
            handle: client::free_handle(s.clients) as u64,
            config: ipc::default_config(),
            state: ipc::default_state(),
        },
    );
    lemma_quiet_effect(s1, EffectView::Notify(created));
    lemma_keeps_trans(s, s1, model::notified(s1, created));
}

// ----- incoming connections -------------------------------------------------

/// Registering a connection keeps everything.
proof fn lemma_incoming_added(
    s: ServiceView,
    addr: crate::net::SocketAddr,
    pos: Position,
    fingerprint: Seq<char>,
)
    requires
        service_inv(s),
        s.next_trigger_handle < ENTER_HANDLE_BEGIN,
        collections::first_where(s.incoming, model::incoming_at(addr)) is None,
    ensures
        keeps(s, model::incoming_added(s, addr, pos, fingerprint)),
{
    let t = model::incoming_added(s, addr, pos, fingerprint);
    let h = (ENTER_HANDLE_BEGIN + s.next_trigger_handle) as u64;
    let e = EffectView::CaptureCreate(h, pos, model::CaptureType::EnterOnly);
    collections::lemma_first_is(s.incoming, model::incoming_at(addr));
    let n = s.incoming.len() as int;
    assert forall|i: int, j: int|
        #![trigger t.incoming[i], t.incoming[j]]
        0 <= i < j < t.incoming.len() implies t.incoming[i].addr != t.incoming[j].addr
        && t.incoming[i].handle != t.incoming[j].handle by {
        assert(t.incoming[i] == s.incoming[i]);
        if j < n {
            assert(t.incoming[j] == s.incoming[j]);
        } else {
            assert(!model::incoming_at(addr)(s.incoming[i]));
        }
    }
    lemma_one_effect(s, t, e);
    assert(barriers(s).insert(h) =~= barriers(t)) by {
        assert forall|g: ClientHandle| incoming_handle(t.incoming, g) == (incoming_handle(
            s.incoming,
            g,
        ) || g == h) by {
            if incoming_handle(s.incoming, g) {
                let i = choose|i: int|
                    0 <= i < s.incoming.len() && (#[trigger] s.incoming[i]).handle == g;
                assert(t.incoming[i].handle == g);
            }
            if g == h {
                assert(t.incoming[n].handle == g);
            }
            if incoming_handle(t.incoming, g) {
                let i = choose|i: int|
                    0 <= i < t.incoming.len() && (#[trigger] t.incoming[i]).handle == g;
                if i < n {
                    assert(s.incoming[i].handle == g);
                }
            }
        }
    }
}

/// Dropping a connection keeps everything; no connection then has its address.
proof fn lemma_incoming_removed(s: ServiceView, addr: crate::net::SocketAddr)
    requires
        service_inv(s),
    ensures
        keeps(s, model::incoming_removed(s, addr)),
        collections::first_where(
            model::incoming_removed(s, addr).incoming,
            model::incoming_at(addr),
        ) is None,
        model::incoming_removed(s, addr).next_trigger_handle == s.next_trigger_handle,
{
    let p = model::incoming_at(addr);
    collections::lemma_first_is(s.incoming, p);
    match collections::first_where(s.incoming, p) {
        None => lemma_keeps_same(s, s),
        Some(x) => {
            let k = choose|k: int| 0 <= k < s.incoming.len() && s.incoming[k] == x;
            assert(p(s.incoming[k]));
            assert forall|j: int| 0 <= j < s.incoming.len() && j != k implies !p(
                #[trigger] s.incoming[j],
            ) by {
                if j < k {
                    assert(s.incoming[j].addr != s.incoming[k].addr);
                } else {
                    assert(s.incoming[k].addr != s.incoming[j].addr);
                }
            }
            collections::lemma_index_at(s.incoming, p, k);
            let t = model::incoming_removed(s, addr);
            let r = s.incoming.remove(k);
            assert(t.incoming == r);
            assert forall|i: int, j: int|
                #![trigger r[i], r[j]]
                0 <= i < j < r.len() implies r[i].addr != r[j].addr && r[i].handle
                != r[j].handle by {
                let i2 = if i < k {
                    i
                } else {
                    i + 1
                };
                let j2 = if j < k {
                    j
                } else {
                    j + 1
                };
                assert(s.incoming[i2].addr != s.incoming[j2].addr);
            }
            assert forall|i: int| 0 <= i < r.len() implies ENTER_HANDLE_BEGIN <= (
            #[trigger] r[i]).handle < ENTER_HANDLE_BEGIN + s.next_trigger_handle by {
                let i2 = if i < k {
                    i
                } else {
                    i + 1
                };
                assert(ENTER_HANDLE_BEGIN <= s.incoming[i2].handle);
            }
            assert forall|j: int| 0 <= j < r.len() implies !p(#[trigger] r[j]) by {
                let j2 = if j < k {
                    j
                } else {
                    j + 1
                };
                assert(!p(s.incoming[j2]));
            }
            collections::lemma_first_none(r, p);
            let h = x.handle;
            lemma_one_effect(s, t, EffectView::CaptureDestroy(h));
            assert(barriers(s).remove(h) =~= barriers(t)) by {
                assert forall|g: ClientHandle| barriers(s).remove(h).contains(g) == barriers(
                    t,
                ).contains(g) by {
                    lemma_incoming_handles(s.incoming, k, g);
                    if model::is_active(s.clients, h) {
                        lemma_handle_is_low(s.clients, h);
                    }
                }
            }
        },
    }
}

proof fn lemma_incoming_handles(incoming: Seq<IncomingView>, k: int, g: ClientHandle)
    requires
        0 <= k < incoming.len(),
        forall|i: int, j: int|
            #![trigger incoming[i], incoming[j]]
            0 <= i < j < incoming.len() ==> incoming[i].handle != incoming[j].handle,
    ensures
        incoming_handle(incoming.remove(k), g) == (incoming_handle(incoming, g) && g
            != incoming[k].handle),
{
    let r = incoming.remove(k);
    if incoming_handle(r, g) {
        let i = choose|i: int| 0 <= i < r.len() && (#[trigger] r[i]).handle == g;
        let i2 = if i < k {
            i
        } else {
            i + 1
        };
        assert(incoming[i2].handle == g);
        if i2 < k {
            assert(incoming[i2].handle != incoming[k].handle);
        } else {
            assert(incoming[k].handle != incoming[i2].handle);
        }
    }
    if incoming_handle(incoming, g) && g != incoming[k].handle {
        let i = choose|i: int| 0 <= i < incoming.len() && (#[trigger] incoming[i]).handle == g;
        let i2 = if i < k {
            i
        } else {
            i - 1
        };
        assert(r[i2].handle == g);
    }
}

// ----- every handler --------------------------------------------------------

/// Whether an effect is about a capture barrier.
pub open spec fn about_barriers(e: EffectView) -> bool {
    e is CaptureCreate || e is CaptureDestroy
}

/// Whether a step leaves clients and connections alone and adds only effects that are not about
/// barriers.
pub open spec fn quiet(s: ServiceView, t: ServiceView) -> bool {
    &&& t.clients == s.clients
    &&& t.incoming == s.incoming
    &&& t.next_trigger_handle == s.next_trigger_handle
    &&& s.effects.len() <= t.effects.len()
    &&& forall|k: int| 0 <= k < s.effects.len() ==> #[trigger] t.effects[k] == s.effects[k]
    &&& forall|k: int|
        s.effects.len() <= k < t.effects.len() ==> !about_barriers(#[trigger] t.effects[k])
}

proof fn lemma_no_barriers(b: Set<ClientHandle>, q: Seq<EffectView>)
    requires
        forall|k: int| 0 <= k < q.len() ==> !about_barriers(#[trigger] q[k]),
    ensures
        barriers_after(b, q) == b,
    decreases q.len(),
{
    if q.len() > 0 {
        let r = q.drop_last();
        assert forall|k: int| 0 <= k < r.len() implies !about_barriers(#[trigger] r[k]) by {
            assert(!about_barriers(q[k]));
        }
        lemma_no_barriers(b, r);
        assert(!about_barriers(q[q.len() - 1]));
    }
}

/// A quiet step keeps everything.
proof fn lemma_quiet(s: ServiceView, t: ServiceView)
    requires
        service_inv(s),
        quiet(s, t),
    ensures
        keeps(s, t),
{
    let n = s.effects.len() as int;
    let q = t.effects.skip(n);
    assert forall|k: int| 0 <= k < q.len() implies !about_barriers(#[trigger] q[k]) by {
        assert(!about_barriers(t.effects[n + k]));
    }
    lemma_no_barriers(barriers(s), q);
    assert(t.effects.take(n) =~= s.effects);
    assert(barriers(s) =~= barriers(t));
}

proof fn lemma_replay_quiet(s: ServiceView, offers: Seq<ipc::FileOfferView>, n: nat)
    ensures
        quiet(s, model::offers_replayed(s, offers, n)),
        model::offers_replayed(s, offers, n).offers == s.offers,
    decreases n,
{
    if n > 0 && n <= offers.len() {
        lemma_replay_quiet(s, offers, (n - 1) as nat);
    }
}

proof fn lemma_paths_quiet(
    s: ServiceView,
    target: (crate::net::SocketAddr, Seq<char>),
    paths: Seq<Seq<char>>,
    n: nat,
)
    ensures
        quiet(s, model::paths_sent(s, target, paths, n)),
    decreases n,
{
    if n > 0 && n <= paths.len() {
        lemma_paths_quiet(s, target, paths, (n - 1) as nat);
    }
}

proof fn lemma_synced_quiet(s: ServiceView)
    ensures
        quiet(s, model::synced(s)),
{
    reveal(model::synced);
    reveal(model::enumerated);
    let s1 = model::enumerated(s);
    let s2 = model::notified(s1, ipc::FrontendEventView::EmulationStatus(s.emulation_status));
    let s3 = model::notified(s2, ipc::FrontendEventView::CaptureStatus(s.capture_status));
    let s4 = model::notified(s3, ipc::FrontendEventView::PortChanged(s.port, None));
    let s5 = model::notified(
        s4,
        ipc::FrontendEventView::PublicKeyFingerprint(s.public_key_fingerprint),
    );
    let s6 = model::notified(s5, ipc::FrontendEventView::AuthorizedUpdated(s.authorized));
    let s7 = model::notified(s6, ipc::FrontendEventView::SettingsChanged(s.settings));
    let s8 = model::notified(
        s7,
        ipc::FrontendEventView::DiscoverableChanged(s.settings.discoverable_on_startup),
    );
    lemma_replay_quiet(s8, s.offers, s.offers.len());
}

proof fn lemma_then_saved(s: ServiceView, t: ServiceView)
    requires
        keeps(s, t),
    ensures
        keeps(s, model::config_saved(t)),
{
    reveal(model::config_saved);
    lemma_quiet(t, model::config_saved(t));
    lemma_keeps_trans(s, t, model::config_saved(t));
}

proof fn lemma_then_broadcast(s: ServiceView, t: ServiceView, h: ClientHandle)
    requires
        keeps(s, t),
    ensures
        keeps(s, model::client_broadcast(t, h)),
{
    lemma_broadcast_keeps(t, h);
    lemma_keeps_trans(s, t, model::client_broadcast(t, h));
}

proof fn lemma_changes_harmless(
    port: u16,
    ips: Seq<crate::net::IpAddr>,
    text: Option<Seq<char>>,
    flag: bool,
)
    ensures
        harmless(client::port_set(port)),
        harmless(client::fix_ips_set(ips)),
        harmless(client::dns_ips_set(ips)),
        harmless(client::hostname_set(text)),
        harmless(client::cmd_set(text)),
        harmless(client::resolving_set(flag)),
{
}

/// Changing a hostname keeps everything.
proof fn lemma_hostname_keeps(
    s: ServiceView,
    h: ClientHandle,
    hostname: Option<Seq<char>>,
    ip: Option<crate::net::IpAddr>,
)
    requires
        service_inv(s),
    ensures
        keeps(s, model::hostname_updated(s, h, hostname, ip)),
{
    reveal(model::hostname_updated);
    let ips = match ip {
        Some(a) => seq![a],
        None => Seq::empty(),
    };
    lemma_changes_harmless(0, ips, hostname, false);
    lemma_harmless_change(s, h, client::hostname_set(hostname));
    let c = client::changed(s.clients, h, client::hostname_set(hostname));
    let s1 = model::with_clients(s, c);
    if hostname is Some && ip is Some {
        lemma_harmless_change(s1, h, client::fix_ips_set(ips));
        let s2 = model::with_clients(s1, client::changed(c, h, client::fix_ips_set(ips)));
        lemma_keeps_trans(s, s1, s2);
        assert(s2 == model::with_clients(s, s2.clients));
        lemma_then_broadcast(s, s2, h);
    } else if client::client_with(s.clients, h) matches Some(c) && c.config.hostname != hostname {
        lemma_resolved_keeps(s1, h);
        lemma_keeps_trans(s, s1, model::resolved(s1, h));
        lemma_then_broadcast(s, model::resolved(s1, h), h);
    } else {
        lemma_then_broadcast(s, s1, h);
    }
}

/// Moving a client keeps everything: also where it moves to a side that another active client
/// has, which is then deactivated.
pub proof fn law_moving(s: ServiceView, h: ClientHandle, pos: Position)
    requires
        service_inv(s),
    ensures
        keeps(s, model::pos_updated(s, h, pos)),
{
    reveal(model::pos_updated);
    let c = client::changed(s.clients, h, client::pos_set(pos));
    let s1 = model::with_clients(s, c);
    let moves = client::client_with(s.clients, h) matches Some(x) && x.config.pos != pos
        && x.state.active;
    assert forall|i: int, j: int| 0 <= i < j < c.len() implies (#[trigger] c[i]).handle < (
    #[trigger] c[j]).handle by {
        assert(s.clients[i].handle < s.clients[j].handle);
    }
    assert forall|g: ClientHandle| #[trigger]
        model::is_active(c, g) == model::is_active(s.clients, g) by {
        lemma_active_same(s.clients, c, g);
    }
    if moves {
        let k = lemma_client_found(s.clients, h);
        assert(c[k].handle == h);
        lemma_client_at(c, h, k);
        assert(model::is_active(c, h));
        // the client is inactive before it is activated at the new side
        let c2 = client::changed(c, h, client::active_set(false));
        let e = EffectView::CaptureDestroy(h);
        let s2 = model::effected(model::with_clients(s1, c2), e);
        lemma_activity_change(c, h, false);
        assert(clients_inv(c2)) by {
            assert forall|i: int, j: int|
                0 <= i < j < c2.len() && (#[trigger] c2[i]).state.active && (
                #[trigger] c2[j]).state.active implies c2[i].config.pos != c2[j].config.pos by {
                assert(s.clients[i].state.active && s.clients[j].state.active);
            }
            assert forall|i: int| 0 <= i < c2.len() implies (#[trigger] c2[i]).handle
                < ENTER_HANDLE_BEGIN by {
                assert(s.clients[i].handle < ENTER_HANDLE_BEGIN);
            }
        }
        lemma_handle_is_low(s.clients, h);
        lemma_one_effect(s, s2, e);
        assert(barriers(s).remove(h) =~= barriers(s2)) by {
            assert forall|g: ClientHandle| barriers(s).remove(h).contains(g) == barriers(
                s2,
            ).contains(g) by {
                assert(model::is_active(c2, g) == (if g == h {
                    false
                } else {
                    model::is_active(c, g)
                }));
            }
        }
        assert(keeps(s, s2));
        lemma_then_broadcast(s, s2, h);
        let s3 = model::client_broadcast(s2, h);
        assert(model::deactivated(s1, h) == s3) by {
            reveal(model::deactivated);
        }
        law_activation(s3, h);
        lemma_keeps_trans(s, s3, model::activated(s3, h));
        lemma_then_broadcast(s, model::activated(s3, h), h);
    } else {
        assert(clients_inv(c)) by {
            assert forall|i: int, j: int|
                0 <= i < j < c.len() && (#[trigger] c[i]).state.active && (
                #[trigger] c[j]).state.active implies c[i].config.pos != c[j].config.pos by {
                assert(s.clients[i].state.active && s.clients[j].state.active);
                if s.clients[i].handle == h {
                    lemma_client_at(s.clients, h, i);
                }
                if s.clients[j].handle == h {
                    lemma_client_at(s.clients, h, j);
                }
            }
            assert forall|i: int| 0 <= i < c.len() implies (#[trigger] c[i]).handle
                < ENTER_HANDLE_BEGIN by {
                assert(s.clients[i].handle < ENTER_HANDLE_BEGIN);
            }
        }
        lemma_same_active(s, c);
        lemma_then_broadcast(s, s1, h);
    }
}

proof fn lemma_harmless_active(
    clients: Seq<ClientView>,
    h: ClientHandle,
    f: spec_fn(ClientView) -> ClientView,
)
    requires
        clients_inv(clients),
        harmless(f),
    ensures
        model::is_active(client::changed(clients, h, f), h) == model::is_active(clients, h),
{
    let c = client::changed(clients, h, f);
    assert forall|i: int| 0 <= i < c.len() implies c[i].handle == clients[i].handle
        && c[i].state.active == clients[i].state.active && c[i].config.pos
        == clients[i].config.pos by {
        assert(f(clients[i]).handle == clients[i].handle);
    }
    lemma_same_shape(clients, c);
    lemma_active_same(clients, c, h);
}

/// An inactive client may be put anywhere.
proof fn lemma_inactive_moves(s: ServiceView, h: ClientHandle, pos: Position)
    requires
        service_inv(s),
        !model::is_active(s.clients, h),
    ensures
        keeps(s, model::with_clients(s, client::changed(s.clients, h, client::pos_set(pos)))),
{
    let c = client::changed(s.clients, h, client::pos_set(pos));
    assert forall|i: int, j: int| 0 <= i < j < c.len() implies (#[trigger] c[i]).handle < (
    #[trigger] c[j]).handle by {
        assert(s.clients[i].handle < s.clients[j].handle);
    }
    assert forall|i: int, j: int|
        0 <= i < j < c.len() && (#[trigger] c[i]).state.active && (
        #[trigger] c[j]).state.active implies c[i].config.pos != c[j].config.pos by {
        assert(s.clients[i].state.active && s.clients[j].state.active);
        if s.clients[i].handle == h {
            lemma_client_at(s.clients, h, i);
        }
        if s.clients[j].handle == h {
            lemma_client_at(s.clients, h, j);
        }
    }
    assert forall|i: int| 0 <= i < c.len() implies (#[trigger] c[i]).handle
        < ENTER_HANDLE_BEGIN by {
        assert(s.clients[i].handle < ENTER_HANDLE_BEGIN);
    }
    assert forall|g: ClientHandle| #[trigger]
        model::is_active(c, g) == model::is_active(s.clients, g) by {
        lemma_active_same(s.clients, c, g);
    }
    lemma_same_active(s, c);
}

/// Accepting a discovered device keeps everything.
pub proof fn law_accepting_device(s: ServiceView, d: ipc::DiscoveredDeviceView)
    requires
        service_inv(s),
        s.clients.len() < ENTER_HANDLE_BEGIN,
    ensures
        keeps(s, model::device_accepted(s, d)),
{
    reveal(model::device_accepted);
    reveal(model::key_added);
    let s1 = model::key_added(s, d.hostname, d.fingerprint);
    lemma_quiet(s, s1);
    let h = client::free_handle(s1.clients) as u64;
    lemma_changes_harmless(d.port, d.addrs, Some(d.hostname), false);
    lemma_added_inactive(s1.clients, ipc::default_config(), ipc::default_state());
    let c1 = client::added(s1.clients, ipc::default_config(), ipc::default_state());
    lemma_same_active(s1, c1);
    let t1 = model::with_clients(s1, c1);
    lemma_harmless_change(t1, h, client::hostname_set(Some(d.hostname)));
    let c2 = client::changed(c1, h, client::hostname_set(Some(d.hostname)));
    let t2 = model::with_clients(t1, c2);
    lemma_harmless_change(t2, h, client::port_set(d.port));
    let c3 = client::changed(c2, h, client::port_set(d.port));
    let t3 = model::with_clients(t2, c3);
    lemma_keeps_trans(s1, t1, t2);
    lemma_keeps_trans(s1, t2, t3);
    // the new client is inactive, so that its position is free to change
    let c4 = client::changed(c3, h, client::pos_set(d.position));
    let t4 = model::with_clients(t3, c4);
    assert(!model::is_active(c1, h));
    lemma_harmless_active(c1, h, client::hostname_set(Some(d.hostname)));
    lemma_harmless_active(c2, h, client::port_set(d.port));
    lemma_inactive_moves(t3, h, d.position);
    lemma_keeps_trans(s1, t3, t4);
    let c5 = if d.addrs.len() > 0 {
        client::changed(c4, h, client::fix_ips_set(d.addrs))
    } else {
        c4
    };
    let t5 = model::with_clients(t4, c5);
    if d.addrs.len() > 0 {
        lemma_harmless_change(t4, h, client::fix_ips_set(d.addrs));
        lemma_keeps_trans(s1, t4, t5);
    }
    lemma_keeps_trans(s, s1, t5);
    let s3 = match client::client_with(c5, h) {
        Some(c) => model::notified(t5, ipc::FrontendEventView::Created(c)),
        None => t5,
    };
    assert(t5 == model::with_clients(s1, c5));
    lemma_quiet(t5, s3);
    lemma_keeps_trans(s, t5, s3);
    law_activation(s3, h);
    lemma_keeps_trans(s, s3, model::activated(s3, h));
    lemma_then_saved(s, model::activated(s3, h));
    let s5 = model::config_saved(model::activated(s3, h));
    let lost = ipc::FrontendEventView::DeviceLost { hostname: d.hostname };
    lemma_quiet(s5, model::notified(s5, lost));
    lemma_keeps_trans(s, s5, model::notified(s5, lost));
}

/// Every request of a frontend keeps the invariant and the barriers: in particular no two
/// active clients ever stand at the same side of the screen, and a barrier exists exactly for
/// each active client and each incoming connection.
pub proof fn law_request_keeps(
    s: ServiceView,
    r: ipc::FrontendRequestView,
    ip: Option<crate::net::IpAddr>,
)
    requires
        service_inv(s),
        s.clients.len() < ENTER_HANDLE_BEGIN,
    ensures
        keeps(s, model::requested(s, r, ip)),
{
    match r {
        ipc::FrontendRequestView::Activate(h, active) => {
            if active {
                law_activation(s, h);
                lemma_then_saved(s, model::activated(s, h));
            } else {
                law_deactivation(s, h);
                lemma_then_saved(s, model::deactivated(s, h));
            }
        },
        ipc::FrontendRequestView::AuthorizeKey(desc, fp) => {
            reveal(model::key_added);
            lemma_quiet(s, model::key_added(s, desc, fp));
            lemma_then_saved(s, model::key_added(s, desc, fp));
        },
        ipc::FrontendRequestView::ChangePort(port) => {
            reveal(model::port_changed);
            lemma_quiet(s, model::port_changed(s, port));
        },
        ipc::FrontendRequestView::Create => {
            law_adding(s);
            lemma_then_saved(s, model::client_added(s));
        },
        ipc::FrontendRequestView::Delete(h) => {
            law_removal(s, h);
            lemma_then_saved(s, model::client_removed(s, h));
        },
        ipc::FrontendRequestView::EnableCapture => lemma_quiet_effect(
            s,
            EffectView::CaptureReenable,
        ),
        ipc::FrontendRequestView::EnableEmulation => lemma_quiet_effect(
            s,
            EffectView::EmulationReenable,
        ),
        ipc::FrontendRequestView::Enumerate => {
            reveal(model::enumerated);
            lemma_quiet(s, model::enumerated(s));
        },
        ipc::FrontendRequestView::UpdateFixIps(h, ips) => {
            lemma_changes_harmless(0, ips, None, false);
            lemma_harmless_change(s, h, client::fix_ips_set(ips));
            let t = model::with_clients(
                s,
                client::changed(s.clients, h, client::fix_ips_set(ips)),
            );
            lemma_then_broadcast(s, t, h);
            lemma_then_saved(s, model::client_broadcast(t, h));
        },
        ipc::FrontendRequestView::UpdateHostname(h, n) => {
            lemma_hostname_keeps(s, h, n, ip);
            lemma_then_saved(s, model::hostname_updated(s, h, n, ip));
        },
        ipc::FrontendRequestView::UpdatePort(h, port) => {
            lemma_changes_harmless(port, Seq::empty(), None, false);
            lemma_harmless_change(s, h, client::port_set(port));
            let t = model::with_clients(s, client::changed(s.clients, h, client::port_set(port)));
            lemma_then_broadcast(s, t, h);
            lemma_then_saved(s, model::client_broadcast(t, h));
        },
        ipc::FrontendRequestView::UpdatePosition(h, pos) => {
            law_moving(s, h, pos);
            lemma_then_saved(s, model::pos_updated(s, h, pos));
        },
        ipc::FrontendRequestView::ResolveDns(h) => lemma_resolved_keeps(s, h),
        ipc::FrontendRequestView::Sync => {
            lemma_synced_quiet(s);
            lemma_quiet(s, model::synced(s));
        },
        ipc::FrontendRequestView::RemoveAuthorizedKey(fp) => {
            reveal(model::key_removed);
            lemma_quiet(s, model::key_removed(s, fp));
            lemma_then_saved(s, model::key_removed(s, fp));
        },
        ipc::FrontendRequestView::UpdateEnterHook(h, cmd) => {
            lemma_changes_harmless(0, Seq::empty(), cmd, false);
            lemma_harmless_change(s, h, client::cmd_set(cmd));
            let t = model::with_clients(s, client::changed(s.clients, h, client::cmd_set(cmd)));
            lemma_then_broadcast(s, t, h);
        },
        ipc::FrontendRequestView::SaveConfiguration => {
            lemma_keeps_same(s, s);
            lemma_then_saved(s, s);
        },
        ipc::FrontendRequestView::AcceptDiscoveredDevice(d) => law_accepting_device(s, d),
        ipc::FrontendRequestView::SetDiscoverable(b) => {
            reveal(model::discoverable_set);
            lemma_quiet(s, model::discoverable_set(s, b));
        },
        ipc::FrontendRequestView::UpdateSettings(settings) => {
            reveal(model::settings_updated);
            lemma_quiet(s, model::settings_updated(s, settings));
        },
        ipc::FrontendRequestView::RespondFileOffer { xfer_id, decision } => {
            reveal(model::offer_answered);
            lemma_quiet(s, model::offer_answered(s, xfer_id, decision));
        },
        ipc::FrontendRequestView::RespondClipboardOverflow { client: _, decision } => {
            reveal(model::overflow_answered);
            lemma_quiet(s, model::overflow_answered(s, decision));
        },
        ipc::FrontendRequestView::RespondClipboardImage { client: _, decision } => {
            reveal(model::image_answered);
            lemma_quiet(s, model::image_answered(s, decision));
        },
        ipc::FrontendRequestView::SendFile { client: h, path } => {
            reveal(model::file_sent);
            lemma_keeps_same(s, s);
            match client::client_with(s.clients, h) {
                Some(c) => match model::transfer_target(s, model::known_address(c)) {
                    Some(t) => {
                        lemma_paths_quiet(s, t, seq![path], 1);
                        if s.file_transfer {
                            lemma_quiet(s, model::paths_sent(s, t, seq![path], 1));
                        }
                    },
                    None => {},
                },
                None => {},
            }
        },
    }
}

/// Every report of emulation keeps the invariant and the barriers.
pub proof fn law_emulation_keeps(s: ServiceView, e: model::EmulationEventView)
    requires
        service_inv(s),
        s.next_trigger_handle < ENTER_HANDLE_BEGIN,
    ensures
        keeps(s, model::emulation_reported(s, e)),
{
    match e {
        model::EmulationEventView::ConnectionAttempt { fingerprint } => {
            reveal(model::key_added);
            reveal(model::config_saved);
            lemma_quiet(s, model::emulation_reported(s, e));
        },
        model::EmulationEventView::Entered { addr, pos, fingerprint } => {
            let entered = ipc::FrontendEventView::DeviceEntered { fingerprint, addr, pos };
            match collections::first_where(s.incoming, model::incoming_at(addr)) {
                None => {
                    lemma_incoming_added(s, addr, pos, fingerprint);
                    let t = model::incoming_added(s, addr, pos, fingerprint);
                    lemma_quiet(t, model::notified(t, entered));
                    lemma_keeps_trans(s, t, model::notified(t, entered));
                },
                Some(i) => {
                    lemma_keeps_same(s, s);
                    if i.fingerprint != fingerprint || i.pos != pos {
                        lemma_incoming_removed(s, addr);
                        let t1 = model::incoming_removed(s, addr);
                        lemma_incoming_added(t1, addr, pos, fingerprint);
                        let t2 = model::incoming_added(t1, addr, pos, fingerprint);
                        lemma_keeps_trans(s, t1, t2);
                        let gone = ipc::FrontendEventView::IncomingDisconnected(addr);
                        let t4 = model::notified(model::notified(t2, gone), entered);
                        lemma_quiet(t2, t4);
                        lemma_keeps_trans(s, t2, t4);
                    }
                },
            }
        },
        model::EmulationEventView::Disconnected { addr } => {
            lemma_keeps_same(s, s);
            lemma_incoming_removed(s, addr);
            let t = model::incoming_removed(s, addr);
            let gone = ipc::FrontendEventView::IncomingDisconnected(addr);
            lemma_quiet(t, model::notified(t, gone));
            lemma_keeps_trans(s, t, model::notified(t, gone));
        },
        _ => {
            lemma_quiet(s, model::emulation_reported(s, e));
        },
    }
}

/// Every report of capture keeps the invariant and the barriers.
pub proof fn law_capture_keeps(s: ServiceView, e: model::CaptureEventView, current: Seq<char>)
    requires
        service_inv(s),
    ensures
        keeps(s, model::capture_reported(s, e, current)),
{
    lemma_quiet(s, model::capture_reported(s, e, current));
}

/// Every report of the resolver keeps the invariant and the barriers.
pub proof fn law_dns_keeps(s: ServiceView, e: model::DnsEventView)
    requires
        service_inv(s),
    ensures
        keeps(s, model::dns_reported(s, e)),
{
    match e {
        model::DnsEventView::Resolving(h) => {
            lemma_changes_harmless(0, Seq::empty(), None, true);
            lemma_harmless_change(s, h, client::resolving_set(true));
            let t = model::with_clients(
                s,
                client::changed(s.clients, h, client::resolving_set(true)),
            );
            lemma_then_broadcast(s, t, h);
        },
        model::DnsEventView::Resolved(h, ips) => {
            let found = match ips {
                Some(v) => v,
                None => Seq::empty(),
            };
            lemma_changes_harmless(0, found, None, false);
            lemma_harmless_change(s, h, client::resolving_set(false));
            let c1 = client::changed(s.clients, h, client::resolving_set(false));
            let t1 = model::with_clients(s, c1);
            lemma_harmless_change(t1, h, client::dns_ips_set(found));
            let c2 = client::changed(c1, h, client::dns_ips_set(found));
            let t2 = model::with_clients(t1, c2);
            lemma_keeps_trans(s, t1, t2);
            assert(t2 == model::with_clients(s, c2));
            lemma_then_broadcast(s, t2, h);
        },
    }
}

/// Every report of discovery keeps the invariant and the barriers.
pub proof fn law_discovery_keeps(s: ServiceView, e: ipc::FrontendEventView)
    requires
        service_inv(s),
    ensures
        keeps(s, model::discovery_reported(s, e)),
{
    reveal(model::key_added);
    reveal(model::config_saved);
    lemma_quiet(s, model::discovery_reported(s, e));
}

/// Every report of the file-transfer service, every drop and every change of the clipboard
/// keeps the invariant and the barriers.
pub proof fn law_transfer_and_clipboard_keep(
    s: ServiceView,
    e: crate::file_transfer::EventView,
    pos: Position,
    paths: Seq<Seq<char>>,
    c: crate::clipboard::ClipboardChangeView,
)
    requires
        service_inv(s),
    ensures
        keeps(s, model::transfer_reported(s, e)),
        keeps(s, model::paths_dropped(s, pos, paths)),
        keeps(s, model::clipboard_changed(s, c)),
{
    lemma_quiet(s, model::transfer_reported(s, e));
    lemma_quiet(s, model::clipboard_changed(s, c));
    lemma_keeps_same(s, s);
    match model::drop_target(s, pos) {
        Some(t) => {
            lemma_paths_quiet(s, t, paths, paths.len());
            lemma_quiet(s, model::paths_sent(s, t, paths, paths.len()));
        },
        None => {},
    }
}

// ----- configuration --------------------------------------------------------

proof fn lemma_all_removed(s: ServiceView, handles: Seq<ClientHandle>)
    requires
        service_inv(s),
    ensures
        keeps(s, model::all_removed(s, handles)),
        model::all_removed(s, handles).clients.len() <= s.clients.len(),
    decreases handles.len(),
{
    if handles.len() == 0 {
        lemma_keeps_same(s, s);
    } else {
        let t = model::all_removed(s, handles.drop_last());
        lemma_all_removed(s, handles.drop_last());
        law_removal(t, handles.last());
        lemma_keeps_trans(s, t, model::client_removed(t, handles.last()));
        reveal(model::client_removed);
        lemma_removed_shorter(t.clients, handles.last());
    }
}

proof fn lemma_removed_shorter(clients: Seq<ClientView>, h: ClientHandle)
    ensures
        client::removed(clients, h).len() <= clients.len(),
{
    lemma_index_in_range(clients, client::with_handle(h));
}

pub proof fn lemma_index_in_range<A>(s: Seq<A>, p: spec_fn(A) -> bool)
    ensures
        0 <= collections::index_where(s, p) <= s.len(),
    decreases s.len(),
{
    if s.len() > 0 && !p(s[0]) {
        lemma_index_in_range(s.skip(1), p);
    }
}

/// Marking a freshly added client inactive is adding an inactive one.
proof fn lemma_added_then_inactive(
    clients: Seq<ClientView>,
    config: ipc::ClientConfigView,
    state: ipc::ClientStateView,
)
    requires
        client::handles_ascend(clients),
        clients.len() < ENTER_HANDLE_BEGIN,
    ensures
        client::changed(
            client::added(clients, config, state),
            client::free_handle(clients) as u64,
            client::active_set(false),
        ) == client::added(clients, config, ipc::ClientStateView { active: false, ..state }),
{
    client::lemma_added(clients, config, state);
    let k = client::free_handle(clients) as int;
    let a = client::added(clients, config, state);
    let b = client::added(clients, config, ipc::ClientStateView { active: false, ..state });
    let c = client::changed(a, k as u64, client::active_set(false));
    assert forall|i: int| 0 <= i < c.len() implies c[i] == b[i] by {
        if i != k {
            if i < k {
                assert(a[i].handle < a[k].handle);
            } else {
                assert(a[k].handle < a[i].handle);
            }
        }
    }
    assert(c =~= b);
}

proof fn lemma_config_added(s: ServiceView, c: client::ConfigClientView)
    requires
        service_inv(s),
        s.clients.len() < ENTER_HANDLE_BEGIN,
    ensures
        keeps(s, model::config_added(s, c)),
        model::config_added(s, c).clients.len() == s.clients.len() + 1,
{
    let config = ipc::ClientConfigView {
        hostname: c.hostname,
        fix_ips: c.ips,
        port: c.port,
        pos: c.pos,
        cmd: c.enter_hook,
    };
    let state = ipc::ClientStateView {
        active: c.active,
        ips: client::each_once(c.ips),
        ..ipc::default_state()
    };
    let idle = ipc::ClientStateView { active: false, ..state };
    let h = client::free_handle(s.clients) as u64;
    let a = client::added(s.clients, config, state);
    let s1 = model::with_clients(s, a);
    client::lemma_added(s.clients, config, state);
    lemma_added_inactive(s.clients, config, idle);
    let found = ClientView { handle: h, config, state };
    let created = ipc::FrontendEventView::Created(found);
    if c.active {
        lemma_added_then_inactive(s.clients, config, state);
        let b = client::added(s.clients, config, idle);
        lemma_same_active(s, b);
        let s2 = model::with_clients(s1, b);
        assert(s2 == model::with_clients(s, b));
        law_activation(s2, h);
        let s3 = model::activated(s2, h);
        lemma_keeps_trans(s, s2, s3);
        lemma_quiet(s3, model::notified(s3, created));
        lemma_keeps_trans(s, s3, model::notified(s3, created));
        reveal(model::activated);
        reveal(model::resolved);
        reveal(model::deactivated);
        reveal(model::client_broadcast);
    } else {
        assert(idle == state);
        lemma_same_active(s, a);
        lemma_quiet(s1, model::notified(s1, created));
        lemma_keeps_trans(s, s1, model::notified(s1, created));
    }
}

proof fn lemma_configs_added(s: ServiceView, cs: Seq<client::ConfigClientView>)
    requires
        service_inv(s),
        s.clients.len() + cs.len() < ENTER_HANDLE_BEGIN,
    ensures
        keeps(s, model::configs_added(s, cs)),
        model::configs_added(s, cs).clients.len() == s.clients.len() + cs.len(),
    decreases cs.len(),
{
    if cs.len() == 0 {
        lemma_keeps_same(s, s);
    } else {
        let t = model::configs_added(s, cs.drop_last());
        lemma_configs_added(s, cs.drop_last());
        lemma_config_added(t, cs.last());
        lemma_keeps_trans(s, t, model::config_added(t, cs.last()));
    }
}

/// A changed configuration file keeps the invariant and the barriers, whatever clients it marks
/// as active.
pub proof fn law_config_change_keeps(s: ServiceView, c: model::ConfigFileView)
    requires
        service_inv(s),
        s.clients.len() + c.clients.len() < ENTER_HANDLE_BEGIN,
    ensures
        keeps(s, model::config_changed(s, c)),
{
    let handles = client::handles_where(s.clients, client::any_client());
    let s1 = model::all_removed(s, handles);
    lemma_all_removed(s, handles);
    lemma_configs_added(s1, c.clients);
    let s2 = model::configs_added(s1, c.clients);
    lemma_keeps_trans(s, s1, s2);
    let s3 = model::effected(s2, EffectView::SetReleaseBind(c.settings.release_bind));
    let s4 = ServiceView {
        authorized: c.authorized,
        settings: c.settings,
        file_transfer_port: c.file_transfer_port,
        auto_accept: c.auto_accept,
        ..s3
    };
    lemma_quiet(s2, s4);
    lemma_keeps_trans(s, s2, s4);
    lemma_synced_quiet(s4);
    lemma_quiet(s4, model::synced(s4));
    lemma_keeps_trans(s, s4, model::synced(s4));
}

proof fn lemma_all_activated(s: ServiceView, handles: Seq<ClientHandle>)
    requires
        service_inv(s),
    ensures
        keeps(s, model::all_activated(s, handles)),
    decreases handles.len(),
{
    if handles.len() == 0 {
        lemma_keeps_same(s, s);
    } else {
        let t = model::all_activated(s, handles.drop_last());
        lemma_all_activated(s, handles.drop_last());
        law_activation(t, handles.last());
        lemma_keeps_trans(s, t, model::activated(t, handles.last()));
    }
}

proof fn lemma_all_inactive(clients: Seq<ClientView>, handles: Seq<ClientHandle>)
    ensures
        ({
            let c = model::all_inactive(clients, handles);
            &&& c.len() == clients.len()
            &&& forall|i: int|
                #![trigger c[i]]
                0 <= i < c.len() ==> c[i].handle == clients[i].handle && c[i].state.active == (
                clients[i].state.active && !handles.contains(clients[i].handle))
        }),
    decreases handles.len(),
{
    if handles.len() > 0 {
        let front = handles.drop_last();
        lemma_all_inactive(clients, front);
        let b = model::all_inactive(clients, front);
        let c = model::all_inactive(clients, handles);
        assert forall|i: int| 0 <= i < c.len() implies (#[trigger] c[i]).handle
            == clients[i].handle && c[i].state.active == (clients[i].state.active
            && !handles.contains(clients[i].handle)) by {
            assert(b[i].handle == clients[i].handle);
            let g = clients[i].handle;
            assert(handles =~= front.push(handles.last()));
            if front.contains(g) {
                let k = choose|k: int| 0 <= k < front.len() && front[k] == g;
                assert(handles[k] == g);
            }
            if g == handles.last() {
                assert(handles[handles.len() - 1] == g);
            }
            if handles.contains(g) && g != handles.last() {
                let k = choose|k: int| 0 <= k < handles.len() && handles[k] == g;
                assert(front[k] == g);
            }
        }
    }
}

pub proof fn lemma_active_listed(clients: Seq<ClientView>, i: int)
    requires
        0 <= i < clients.len(),
        clients[i].state.active,
    ensures
        client::handles_where(clients, client::active_client()).contains(clients[i].handle),
    decreases clients.len(),
{
    let p = client::active_client();
    let all = client::handles_where(clients, p);
    let front = client::handles_where(clients.drop_last(), p);
    if i == clients.len() - 1 {
        assert(all[all.len() - 1] == clients[i].handle);
    } else {
        lemma_active_listed(clients.drop_last(), i);
        let k = choose|k: int| 0 <= k < front.len() && front[k] == clients[i].handle;
        assert(all[k] == clients[i].handle);
    }
}

/// When the service starts, every client that is configured as active gets a barrier, unless a
/// later one has its side; the invariant holds from then on.
pub proof fn law_start(s: ServiceView)
    requires
        client::handles_ascend(s.clients),
        client_handles_low(s.clients),
        s.incoming.len() == 0,
        s.next_trigger_handle == 0,
    ensures
        service_inv(model::started(s)),
        s.effects.is_prefix_of(model::started(s).effects),
        barriers_after(
            Set::empty(),
            model::started(s).effects.skip(s.effects.len() as int),
        ) == barriers(model::started(s)),
{
    let active = client::handles_where(s.clients, client::active_client());
    let c = model::all_inactive(s.clients, active);
    lemma_all_inactive(s.clients, active);
    assert forall|i: int| 0 <= i < c.len() implies !(#[trigger] c[i]).state.active by {
        if s.clients[i].state.active {
            lemma_active_listed(s.clients, i);
        }
    }
    let s1 = model::with_clients(s, c);
    assert forall|i: int, j: int| 0 <= i < j < c.len() implies (#[trigger] c[i]).handle < (
    #[trigger] c[j]).handle by {
        assert(s.clients[i].handle < s.clients[j].handle);
    }
    assert forall|i: int| 0 <= i < c.len() implies (#[trigger] c[i]).handle
        < ENTER_HANDLE_BEGIN by {
        assert(s.clients[i].handle < ENTER_HANDLE_BEGIN);
    }
    assert(service_inv(s1));
    assert(barriers(s1) =~= Set::empty()) by {
        assert forall|g: ClientHandle| !model::is_active(c, g) by {
            if client::client_with(c, g) is Some {
                let i = lemma_client_found(c, g);
            }
        }
    }
    lemma_all_activated(s1, active);
}

// ----- offers ---------------------------------------------------------------

proof fn lemma_replayed(s: ServiceView, offers: Seq<ipc::FileOfferView>, n: nat, k: int)
    requires
        0 <= k < n <= offers.len(),
    ensures
        model::offers_replayed(s, offers, n).effects.contains(
            EffectView::Notify(ipc::FrontendEventView::FileOfferIncoming(offers[k])),
        ),
    decreases n,
{
    let t = model::offers_replayed(s, offers, (n - 1) as nat);
    let u = model::offers_replayed(s, offers, n);
    let e = EffectView::Notify(ipc::FrontendEventView::FileOfferIncoming(offers[k]));
    if k == n - 1 {
        assert(u.effects[u.effects.len() - 1] == e);
    } else {
        lemma_replayed(s, offers, (n - 1) as nat, k);
        let i = choose|i: int| 0 <= i < t.effects.len() && t.effects[i] == e;
        assert(u.effects[i] == e);
    }
}

/// A frontend that attaches late is told of every offer that still awaits a decision.
pub proof fn law_pending_offers_replayed(s: ServiceView, k: int)
    requires
        0 <= k < s.offers.len(),
    ensures
        model::synced(s).effects.contains(
            EffectView::Notify(ipc::FrontendEventView::FileOfferIncoming(s.offers[k])),
        ),
{
    reveal(model::synced);
    let s1 = model::enumerated(s);
    let s2 = model::notified(s1, ipc::FrontendEventView::EmulationStatus(s.emulation_status));
    let s3 = model::notified(s2, ipc::FrontendEventView::CaptureStatus(s.capture_status));
    let s4 = model::notified(s3, ipc::FrontendEventView::PortChanged(s.port, None));
    let s5 = model::notified(
        s4,
        ipc::FrontendEventView::PublicKeyFingerprint(s.public_key_fingerprint),
    );
    let s6 = model::notified(s5, ipc::FrontendEventView::AuthorizedUpdated(s.authorized));
    let s7 = model::notified(s6, ipc::FrontendEventView::SettingsChanged(s.settings));
    let s8 = model::notified(
        s7,
        ipc::FrontendEventView::DiscoverableChanged(s.settings.discoverable_on_startup),
    );
    lemma_replayed(s8, s.offers, s.offers.len(), k);
}

/// No two offers have the same number.
pub open spec fn offers_unique(offers: Seq<ipc::FileOfferView>) -> bool {
    forall|i: int, j: int|
        0 <= i < j < offers.len() ==> (#[trigger] offers[i]).xfer_id != (
        #[trigger] offers[j]).xfer_id
}

pub proof fn lemma_offer_dropped(s: ServiceView, xfer_id: u64)
    requires
        offers_unique(s.offers),
    ensures
        offers_unique(model::offer_dropped(s, xfer_id).offers),
        forall|k: int|
            0 <= k < model::offer_dropped(s, xfer_id).offers.len() ==> (
            #[trigger] model::offer_dropped(s, xfer_id).offers[k]).xfer_id != xfer_id,
{
    let p = model::offer_with(xfer_id);
    lemma_index_in_range(s.offers, p);
    let i = collections::index_where(s.offers, p);
    lemma_index_is(s.offers, p);
    let r = model::offer_dropped(s, xfer_id).offers;
    if i < s.offers.len() {
        assert forall|a: int, b: int| 0 <= a < b < r.len() implies (#[trigger] r[a]).xfer_id != (
        #[trigger] r[b]).xfer_id by {
            let a2 = if a < i {
                a
            } else {
                a + 1
            };
            let b2 = if b < i {
                b
            } else {
                b + 1
            };
            assert(s.offers[a2].xfer_id != s.offers[b2].xfer_id);
        }
        assert forall|k: int| 0 <= k < r.len() implies (#[trigger] r[k]).xfer_id != xfer_id by {
            if k < i {
                assert(s.offers[k].xfer_id != s.offers[i].xfer_id);
            } else {
                assert(s.offers[i].xfer_id != s.offers[k + 1].xfer_id);
            }
        }
    } else {
        assert forall|k: int| 0 <= k < r.len() implies (#[trigger] r[k]).xfer_id != xfer_id by {
            assert(!p(s.offers[k]));
        }
    }
}

pub proof fn lemma_index_is<A>(s: Seq<A>, p: spec_fn(A) -> bool)
    ensures
        collections::index_where(s, p) < s.len() ==> p(s[collections::index_where(s, p)]),
        forall|j: int| 0 <= j < collections::index_where(s, p) && j < s.len() ==> !p(
            #[trigger] s[j],
        ),
    decreases s.len(),
{
    if s.len() > 0 && !p(s[0]) {
        let t = s.skip(1);
        lemma_index_is(t, p);
        lemma_index_in_range(t, p);
        let i = collections::index_where(t, p);
        assert forall|j: int| 0 <= j < i + 1 && j < s.len() implies !p(#[trigger] s[j]) by {
            if j > 0 {
                assert(!p(t[j - 1]));
            }
        }
        if i < t.len() {
            assert(t[i] == s[i + 1]);
        }
    }
}

/// An offer that was answered, or whose transfer is over, is forgotten: it is never replayed
/// again. Numbers of pending offers stay unique.
pub proof fn law_offer_forgotten(
    s: ServiceView,
    xfer_id: u64,
    d: ipc::FileDecisionView,
    result: crate::file_transfer::TransferResultView,
)
    requires
        offers_unique(s.offers),
    ensures
        ({
            let t = model::offer_answered(s, xfer_id, d);
            &&& offers_unique(t.offers)
            &&& forall|k: int|
                0 <= k < t.offers.len() ==> (#[trigger] t.offers[k]).xfer_id != xfer_id
        }),
        ({
            let t = model::transfer_reported(
                s,
                crate::file_transfer::EventView::Finished { xfer_id, result },
            );
            &&& offers_unique(t.offers)
            &&& forall|k: int|
                0 <= k < t.offers.len() ==> (#[trigger] t.offers[k]).xfer_id != xfer_id
        }),
{
    reveal(model::offer_answered);
    lemma_offer_dropped(s, xfer_id);
}

/// An offer is attributed to a client only where one of the configured clients is known by the
/// address that it comes from.
pub proof fn law_offer_names_a_known_client(s: ServiceView, ip: crate::net::IpAddr)
    ensures
        (exists|i: int|
            0 <= i < s.clients.len() && model::known_by(ip)(#[trigger] s.clients[i])
                && s.clients[i].handle == model::client_from(s, ip)) || (model::client_from(s, ip)
            == 0 && forall|i: int|
            0 <= i < s.clients.len() ==> !model::known_by(ip)(#[trigger] s.clients[i])),
{
    let p = model::known_by(ip);
    lemma_index_in_range(s.clients, p);
    lemma_index_is(s.clients, p);
    let i = collections::index_where(s.clients, p);
    if i < s.clients.len() {
        collections::lemma_first_at(s.clients, p, i);
    } else {
        collections::lemma_first_none(s.clients, p);
    }
}

/// An offer that comes in is kept until it is answered and shown to the user, unless every
/// offer is accepted by configuration; then the user is not asked.
pub proof fn law_offer_kept(s: ServiceView, o: ipc::FileOfferView)
    requires
        offers_unique(s.offers),
    ensures
        ({
            let t = model::offer_received(s, o);
            let shown = EffectView::Notify(ipc::FrontendEventView::FileOfferIncoming(o));
            &&& offers_unique(t.offers)
            &&& s.auto_accept is None ==> t.offers.contains(o) && t.effects == s.effects.push(shown)
            &&& s.auto_accept is Some ==> t.offers == s.offers && t.effects.len()
                == s.effects.len() + 1 && t.effects.last() is Transfer
        }),
{
    lemma_offer_dropped(s, o.xfer_id);
    if s.auto_accept is None {
        let t = model::offer_received(s, o);
        let r = model::offer_dropped(s, o.xfer_id).offers;
        assert(t.offers[r.len() as int] == o);
        assert forall|a: int, b: int| 0 <= a < b < t.offers.len() implies (
        #[trigger] t.offers[a]).xfer_id != (#[trigger] t.offers[b]).xfer_id by {
            if b < r.len() {
                assert(r[a].xfer_id != r[b].xfer_id);
            } else {
                assert(r[a].xfer_id != o.xfer_id);
            }
        }
    }
}

// ----- discovered devices ---------------------------------------------------

/// A discovered device whose hostname a client already has is remembered, and not shown.
pub proof fn law_known_device_not_shown(s: ServiceView, d: ipc::DiscoveredDeviceView)
    requires
        model::hostname_taken(s, d.hostname),
    ensures
        ({
            let t = model::discovery_reported(s, ipc::FrontendEventView::DiscoveredDevice(d));
            &&& t.discovered.contains(d)
            &&& forall|k: int|
                s.effects.len() <= k < t.effects.len() ==> #[trigger] t.effects[k]
                    != EffectView::Notify(ipc::FrontendEventView::DiscoveredDevice(d))
        }),
{
    reveal(model::key_added);
    reveal(model::config_saved);
    let t = model::discovery_reported(s, ipc::FrontendEventView::DiscoveredDevice(d));
    assert(t.discovered.last() == d);
    assert(t.discovered[t.discovered.len() - 1] == d);
}

/// When the only client with a hostname is deleted, the discovered device of that name is shown
/// again.
pub proof fn law_device_shown_after_delete(
    s: ServiceView,
    h: ClientHandle,
    hostname: Seq<char>,
    d: ipc::DiscoveredDeviceView,
)
    requires
        client::client_with(s.clients, h) matches Some(c) && c.config.hostname == Some(hostname),
        collections::first_where(
            client::removed(s.clients, h),
            model::has_hostname(hostname),
        ) is None,
        collections::first_where(s.discovered, model::device_named(hostname)) == Some(d),
    ensures
        model::client_removed(s, h).effects.last() == EffectView::Notify(
            ipc::FrontendEventView::DiscoveredDevice(d),
        ),
{
    reveal(model::client_removed);
}

/// A device that announces a fingerprint is authorized from then on.
pub proof fn law_discovered_device_authorized(s: ServiceView, d: ipc::DiscoveredDeviceView)
    requires
        d.fingerprint.len() > 0,
    ensures
        model::discovery_reported(
            s,
            ipc::FrontendEventView::DiscoveredDevice(d),
        ).authorized.dom().contains(d.fingerprint),
{
    reveal(model::key_added);
    reveal(model::config_saved);
}

// ----- the configuration file -----------------------------------------------

/// Only clients with a hostname or a fixed address reach the configuration file: closing the
/// program with an unfilled row leaves no trace.
pub proof fn law_placeholders_not_saved(clients: Seq<ClientView>, k: int)
    requires
        0 <= k < model::saved_clients(clients).len(),
    ensures
        ({
            let c = model::saved_clients(clients)[k];
            ||| c.hostname is Some && c.hostname->0.len() > 0
            ||| c.ips.len() > 0
        }),
    decreases clients.len(),
{
    let front = model::saved_clients(clients.drop_last());
    if k < front.len() {
        law_placeholders_not_saved(clients.drop_last(), k);
    } else {
        let c = clients.last();
        if c.config.fix_ips.len() > 0 {
            let ip = c.config.fix_ips[0];
            assert(c.config.fix_ips.contains(ip));
            client::law_each_once(c.config.fix_ips, ip);
        }
    }
}

/// Every client with a hostname or a fixed address reaches the configuration file.
pub proof fn law_clients_saved(clients: Seq<ClientView>, i: int)
    requires
        0 <= i < clients.len(),
        model::persisted(clients[i]),
    ensures
        model::saved_clients(clients).contains(model::saved_client(clients[i])),
    decreases clients.len(),
{
    let all = model::saved_clients(clients);
    let front = model::saved_clients(clients.drop_last());
    let c = model::saved_client(clients[i]);
    if i == clients.len() - 1 {
        assert(all[all.len() - 1] == c);
    } else {
        law_clients_saved(clients.drop_last(), i);
        let k = choose|k: int| 0 <= k < front.len() && front[k] == c;
        assert(all[k] == c);
    }
}

// ----- trust ----------------------------------------------------------------

/// A transfer goes only to an address from which a device has connected, and only under the
/// fingerprint that it has shown.
pub proof fn law_target_fingerprint_known(
    s: ServiceView,
    addr: Option<crate::net::SocketAddr>,
)
    ensures
        model::transfer_target(s, addr) matches Some(t) ==> {
            &&& t.0.port == s.file_transfer_port
            &&& exists|i: int|
                0 <= i < s.incoming.len() && (#[trigger] s.incoming[i]).addr.ip == t.0.ip
                    && s.incoming[i].fingerprint == t.1
        },
{
    match addr {
        Some(a) => {
            let p = model::incoming_from(a.ip);
            collections::lemma_first_is(s.incoming, p);
            match collections::first_where(s.incoming, p) {
                Some(x) => {
                    let i = choose|i: int| 0 <= i < s.incoming.len() && s.incoming[i] == x;
                    assert(s.incoming[i].addr.ip == a.ip);
                },
                None => {},
            }
        },
        None => {},
    }
}

/// A client that is entered gets the text on the clipboard exactly where that text is not empty
/// and fits the inline cap.
pub proof fn law_entered_client_gets_text(s: ServiceView, h: ClientHandle, current: Seq<char>)
    ensures
        ({
            let t = model::capture_reported(
                s,
                model::CaptureEventView::ClientEntered(h),
                current,
            );
            let sent = EffectView::SendClipboardToClients(
                crate::clipboard::clipboard_msg(current),
            );
            let fits = 0 < crate::text::utf8_len(current)
                <= crate::clipboard::MAX_CLIPBOARD_SIZE;
            &&& s.clipboard && fits ==> t.effects.len() > s.effects.len() && t.effects.last()
                == sent
            &&& !(s.clipboard && fits) ==> forall|k: int|
                s.effects.len() <= k < t.effects.len() ==> !(#[trigger] t.effects[k]
                    is SendClipboardToClients)
        }),
{
}

/// An oversize clipboard that the user lets be truncated is shared as a prefix that fits the
/// inline cap.
pub proof fn law_truncated_clipboard(s: ServiceView, content: Seq<char>)
    requires
        s.overflow == Some(content),
        s.clipboard,
    ensures
        ({
            let t = model::overflow_answered(s, ipc::ClipboardOverflowDecision::Truncate);
            let cut = crate::text::fitting_prefix(
                content,
                crate::clipboard::MAX_CLIPBOARD_SIZE as nat,
            );
            &&& cut.is_prefix_of(content)
            &&& crate::text::utf8_len(cut) <= crate::clipboard::MAX_CLIPBOARD_SIZE
            &&& t.effects == s.effects + seq![
                EffectView::SendClipboardToControllers(crate::clipboard::clipboard_msg(cut)),
                EffectView::SendClipboardToClients(crate::clipboard::clipboard_msg(cut)),
                EffectView::NoteClipboard(content),
            ]
            &&& t.overflow is None
        }),
{
    reveal(model::overflow_answered);
    crate::text::law_fitting_prefix(content, crate::clipboard::MAX_CLIPBOARD_SIZE as nat);
}

/// An oversize text that the user lets be truncated or ignores stays on the clipboard, and is not
/// reported as new again: it is noted, and reading it again means no change.
pub proof fn law_answered_text_is_not_new(
    s: ServiceView,
    content: Seq<char>,
    d: ipc::ClipboardOverflowDecision,
    cache: crate::clipboard::ClipboardCacheView,
)
    requires
        s.overflow == Some(content),
        s.clipboard,
        d is Truncate || d is Ignore,
    ensures
        model::overflow_answered(s, d).overflow is None,
        model::overflow_answered(s, d).effects.last() == EffectView::NoteClipboard(content),
        ({
            let noted = crate::clipboard::ClipboardCacheView { last_text: content, ..cache };
            let (after, change) = crate::clipboard::text_polled(noted, content);
            after == noted && change is None
        }),
{
    reveal(model::overflow_answered);
}

/// An edge has a drop zone if and only if a client is at it.
pub proof fn law_client_edges(clients: Seq<ClientView>, pos: Position)
    ensures
        model::client_edges(clients).has(pos) <==> exists|i: int|
            0 <= i < clients.len() && (#[trigger] clients[i]).config.pos == pos,
    decreases clients.len(),
{
    if clients.len() > 0 {
        let front = clients.drop_last();
        law_client_edges(front, pos);
        if model::client_edges(front).has(pos) {
            let i = choose|i: int| 0 <= i < front.len() && (#[trigger] front[i]).config.pos == pos;
            assert(clients[i].config.pos == pos);
        }
        if clients.last().config.pos == pos {
            assert(clients[clients.len() - 1].config.pos == pos);
        }
        if exists|i: int| 0 <= i < clients.len() && (#[trigger] clients[i]).config.pos == pos {
            let i = choose|i: int|
                0 <= i < clients.len() && (#[trigger] clients[i]).config.pos == pos;
            if i < front.len() {
                assert(front[i].config.pos == pos);
            }
        }
    }
}

/// A drag that only passes a drop zone sends nothing.
pub proof fn law_passing_drag_sends_nothing(s: ServiceView, pos: Position)
    ensures
        model::drop_event_taken(s, FileDropEventView::Entered(pos)) == s,
        model::drop_event_taken(s, FileDropEventView::Cancelled(pos)) == s,
{
}

/// Connections that are made, closed or answer a ping keep the state consistent and need no
/// barrier.
pub proof fn law_connection_keeps(
    s: ServiceView,
    h: ClientHandle,
    addr: Option<crate::net::SocketAddr>,
    alive: bool,
)
    requires
        service_inv(s),
    ensures
        keeps(
            s,
            model::with_clients(
                s,
                client::changed(s.clients, h, client::active_addr_set(addr)),
            ),
        ),
        keeps(
            s,
            model::with_clients(
                s,
                client::changed(
                    client::changed(s.clients, h, client::active_addr_set(addr)),
                    h,
                    client::alive_set(alive),
                ),
            ),
        ),
{
    assert(harmless(client::active_addr_set(addr)));
    assert(harmless(client::alive_set(alive)));
    lemma_harmless_change(s, h, client::active_addr_set(addr));
    let c = client::changed(s.clients, h, client::active_addr_set(addr));
    let t = model::with_clients(s, c);
    lemma_harmless_change(t, h, client::alive_set(alive));
    let d = client::changed(c, h, client::alive_set(alive));
    lemma_keeps_trans(s, t, model::with_clients(t, d));
    assert(model::with_clients(t, d) == model::with_clients(s, d));
}

/// What happens at a drop zone keeps the state consistent and needs no barrier.
pub proof fn law_drop_keeps(s: ServiceView, e: FileDropEventView)
    requires
        service_inv(s),
    ensures
        keeps(s, model::drop_event_taken(s, e)),
{
    lemma_keeps_same(s, s);
    let (pos, paths) = match e {
        FileDropEventView::Dropped { position, paths } => (position, paths),
        FileDropEventView::DragEndedEarly { position, paths } => (position, paths),
        _ => (Position::Left, Seq::empty()),
    };
    match model::drop_target(s, pos) {
        Some(t) => {
            lemma_paths_quiet(s, t, paths, paths.len());
            lemma_quiet(s, model::paths_sent(s, t, paths, paths.len()));
        },
        None => {},
    }
}

proof fn lemma_configured(cs: Seq<client::ConfigClientView>)
    requires
        cs.len() < ENTER_HANDLE_BEGIN,
    ensures
        machine::configured(cs).len() == cs.len(),
        client::handles_ascend(machine::configured(cs)),
        forall|i: int|
            0 <= i < cs.len() ==> (#[trigger] machine::configured(cs)[i]).handle < cs.len(),
    decreases cs.len(),
{
    if cs.len() > 0 {
        let front = machine::configured(cs.drop_last());
        let c = cs.last();
        lemma_configured(cs.drop_last());
        let config = ipc::ClientConfigView {
            hostname: c.hostname,
            fix_ips: c.ips,
            port: c.port,
            pos: c.pos,
            cmd: c.enter_hook,
        };
        let state = ipc::ClientStateView {
            active: c.active,
            ips: client::each_once(c.ips),
            ..ipc::default_state()
        };
        client::lemma_added(front, config, state);
        let k = client::free_handle(front) as int;
        let all = machine::configured(cs);
        assert(all == client::added(front, config, state));
        assert forall|i: int| 0 <= i < cs.len() implies (#[trigger] all[i]).handle < cs.len() by {
            if i < k {
                assert(all[i] == front[i]);
            } else if i > k {
                assert(all[i] == front[i - 1]);
            }
        }
    }
}

/// A service that starts with any configuration is consistent, and has asked for exactly the
/// barriers of its active clients.
pub proof fn law_configured_start(config: machine::ServiceConfig)
    requires
        config.clients@.len() < ENTER_HANDLE_BEGIN,
    ensures
        ({
            let t = model::started(machine::initial_service(config));
            &&& service_inv(t)
            &&& barriers_after(Set::empty(), t.effects) == barriers(t)
        }),
{
    let s = machine::initial_service(config);
    lemma_configured(client::config_views(config.clients@));
    assert forall|i: int| 0 <= i < s.clients.len() implies (#[trigger] s.clients[i]).handle
        < ENTER_HANDLE_BEGIN by {}
    law_start(s);
    let t = model::started(s);
    assert(t.effects.skip(0) =~= t.effects);
}

} // verus!

//! What holds of the service over any sequence of things that happen.
use crate::clipboard::ClipboardChangeView;
use crate::file_drop::FileDropEventView;
use crate::file_transfer::EventView;
use crate::ipc::{
    ClientHandle, ClientView, FileOfferView, FrontendEventView, FrontendRequestView,
};
use crate::net::{IpAddr, SocketAddr};
use crate::service::laws;
use crate::service::model;
use crate::service::model::{
    CaptureEventView, ConfigFileView, DnsEventView, EffectView, EmulationEventView, ServiceView,
};
use crate::{client, collections, ipc};
use vstd::prelude::*;

verus! {

/// One thing that happens to the service.
#[verifier::ext_equal]
pub enum StepView {
    /// It starts to run.
    Started,
    /// A frontend asks; with it comes the address that a hostname in the request denotes.
    Asked(FrontendRequestView, Option<IpAddr>),
    /// Emulation reports.
    Emulation(EmulationEventView),
    /// Capture reports; with it comes the text on the clipboard.
    Capture(CaptureEventView, Seq<char>),
    /// The resolver reports.
    Dns(DnsEventView),
    /// Discovery reports.
    Discovery(FrontendEventView),
    /// The file-transfer service reports.
    Transfer(EventView),
    /// The clipboard changes.
    Clipboard(ClipboardChangeView),
    /// Something happens at a drop zone.
    Drop(FileDropEventView),
    /// The configuration file changes.
    ConfigChanged(ConfigFileView),
    /// A connection to a client is made or closed.
    Connection(ClientHandle, Option<SocketAddr>),
    /// A client answers a ping.
    Pong(ClientHandle, SocketAddr, bool),
    /// The effects are carried out.
    EffectsTaken,
}

/// The service after a step.
#[verifier::opaque]
pub open spec fn stepped(s: ServiceView, step: StepView) -> ServiceView {
    match step {
        StepView::Started => model::started(s),
        StepView::Asked(r, ip) => model::requested(s, r, ip),
        StepView::Emulation(e) => model::emulation_reported(s, e),
        StepView::Capture(e, current) => model::capture_reported(s, e, current),
        StepView::Dns(e) => model::dns_reported(s, e),
        StepView::Discovery(e) => model::discovery_reported(s, e),
        StepView::Transfer(e) => model::transfer_reported(s, e),
        StepView::Clipboard(c) => model::clipboard_changed(s, c),
        StepView::Drop(e) => model::drop_event_taken(s, e),
        StepView::ConfigChanged(c) => model::config_changed(s, c),
        StepView::Connection(h, addr) => model::with_clients(
            s,
            client::changed(s.clients, h, client::active_addr_set(addr)),
        ),
        StepView::Pong(h, addr, alive) => model::with_clients(
            s,
            client::changed(
                client::changed(s.clients, h, client::active_addr_set(Some(addr))),
                h,
                client::alive_set(alive),
            ),
        ),
        StepView::EffectsTaken => ServiceView { effects: Seq::empty(), ..s },
    }
}

/// The service after a sequence of steps.
pub open spec fn after(s: ServiceView, steps: Seq<StepView>) -> ServiceView
    decreases steps.len(),
{
    if steps.len() == 0 {
        s
    } else {
        stepped(after(s, steps.drop_last()), steps.last())
    }
}

// ----- offers ---------------------------------------------------------------

/// The offer that a step puts before the user.
pub open spec fn offer_of(s: ServiceView, step: StepView) -> Option<FileOfferView> {
    match step {
        StepView::Transfer(
            EventView::IncomingOffer {
                xfer_id,
                peer_addr,
                peer_fingerprint,
                root_name,
                entries,
                total_bytes,
            },
        ) => if s.auto_accept is None {
            Some(
                FileOfferView {
                    xfer_id,
                    client: model::client_from(s, peer_addr.ip),
                    root_name,
                    entries,
                    total_bytes,
                    fingerprint: peer_fingerprint,
                },
            )
        } else {
            None
        },
        _ => None,
    }
}

/// Whether a step settles the offer with a number: the user answers it, its transfer is over,
/// or another offer takes its number.
pub open spec fn settles(s: ServiceView, step: StepView, xfer_id: u64) -> bool {
    match step {
        StepView::Asked(FrontendRequestView::RespondFileOffer { xfer_id: x, decision: _ }, _) => x
            == xfer_id,
        StepView::Transfer(EventView::Finished { xfer_id: x, result: _ }) => x == xfer_id,
        _ => offer_of(s, step) matches Some(o) && o.xfer_id == xfer_id,
    }
}

/// Whether step `j` settles the offer with a number.
pub open spec fn settled_at(s: ServiceView, steps: Seq<StepView>, j: int, xfer_id: u64) -> bool {
    settles(after(s, steps.take(j)), steps[j], xfer_id)
}

/// Whether the offer came with step `k` and nothing has settled it since.
pub open spec fn pending_since(
    s: ServiceView,
    steps: Seq<StepView>,
    k: int,
    o: FileOfferView,
) -> bool {
    &&& 0 <= k < steps.len()
    &&& offer_of(after(s, steps.take(k)), steps[k]) == Some(o)
    &&& forall|j: int| k < j < steps.len() ==> !#[trigger] settled_at(s, steps, j, o.xfer_id)
}

/// The offers that a sequence of effects shows to the frontends, in order.
pub open spec fn shown_offers(effects: Seq<EffectView>) -> Seq<FileOfferView>
    decreases effects.len(),
{
    if effects.len() == 0 {
        Seq::empty()
    } else {
        let front = shown_offers(effects.drop_last());
        match effects.last() {
            EffectView::Notify(FrontendEventView::FileOfferIncoming(o)) => front.push(o),
            _ => front,
        }
    }
}

proof fn lemma_activated_offers(s: ServiceView, h: ClientHandle)
    ensures
        model::activated(s, h).offers == s.offers,
        model::deactivated(s, h).offers == s.offers,
        model::resolved(s, h).offers == s.offers,
{
    reveal(model::activated);
    reveal(model::deactivated);
    reveal(model::resolved);
    reveal(model::client_broadcast);
}

proof fn lemma_all_activated_offers(s: ServiceView, handles: Seq<ClientHandle>)
    ensures
        model::all_activated(s, handles).offers == s.offers,
    decreases handles.len(),
{
    if handles.len() > 0 {
        let t = model::all_activated(s, handles.drop_last());
        lemma_all_activated_offers(s, handles.drop_last());
        lemma_activated_offers(t, handles.last());
    }
}

proof fn lemma_all_removed_offers(s: ServiceView, handles: Seq<ClientHandle>)
    ensures
        model::all_removed(s, handles).offers == s.offers,
    decreases handles.len(),
{
    if handles.len() > 0 {
        reveal(model::client_removed);
        lemma_all_removed_offers(s, handles.drop_last());
    }
}

proof fn lemma_configs_added_offers(s: ServiceView, cs: Seq<client::ConfigClientView>)
    ensures
        model::configs_added(s, cs).offers == s.offers,
    decreases cs.len(),
{
    if cs.len() > 0 {
        let t = model::configs_added(s, cs.drop_last());
        lemma_configs_added_offers(s, cs.drop_last());
        let h = client::free_handle(t.clients) as u64;
        let t1 = model::with_clients(t, client::added_config(t.clients, cs.last()));
        let t2 = model::with_clients(
            t1,
            client::changed(t1.clients, h, client::active_set(false)),
        );
        lemma_activated_offers(t2, h);
    }
}

proof fn lemma_paths_sent_offers(
    s: ServiceView,
    target: (SocketAddr, Seq<char>),
    paths: Seq<Seq<char>>,
    n: nat,
)
    ensures
        model::paths_sent(s, target, paths, n).offers == s.offers,
    decreases n,
{
    if n > 0 && n <= paths.len() {
        lemma_paths_sent_offers(s, target, paths, (n - 1) as nat);
    }
}

proof fn lemma_shown_joined(a: Seq<EffectView>, b: Seq<EffectView>)
    ensures
        shown_offers(a + b) == shown_offers(a) + shown_offers(b),
    decreases b.len(),
{
    if b.len() == 0 {
        assert(a + b =~= a);
    } else {
        lemma_shown_joined(a, b.drop_last());
        assert((a + b).drop_last() =~= a + b.drop_last());
    }
}

proof fn lemma_replay(s: ServiceView, offers: Seq<FileOfferView>, n: nat)
    requires
        n <= offers.len(),
    ensures
        ({
            let t = model::offers_replayed(s, offers, n);
            &&& t.offers == s.offers
            &&& s.effects.is_prefix_of(t.effects)
            &&& shown_offers(t.effects) == shown_offers(s.effects) + offers.take(n as int)
        }),
    decreases n,
{
    if n > 0 {
        let t = model::offers_replayed(s, offers, (n - 1) as nat);
        lemma_replay(s, offers, (n - 1) as nat);
        let u = model::offers_replayed(s, offers, n);
        assert(u.effects.drop_last() =~= t.effects);
        assert(shown_offers(s.effects) + offers.take(n as int) =~= (shown_offers(s.effects)
            + offers.take(n - 1)).push(offers[n - 1]));
    } else {
        assert(shown_offers(s.effects) + offers.take(0) =~= shown_offers(s.effects));
    }
}

/// An effect that shows no offer.
proof fn lemma_not_shown(a: Seq<EffectView>, e: EffectView)
    requires
        !(e matches EffectView::Notify(n) && n is FileOfferIncoming),
    ensures
        shown_offers(a.push(e)) == shown_offers(a),
{
    assert(a.push(e).drop_last() =~= a);
}

proof fn lemma_synced(s: ServiceView)
    ensures
        ({
            let u = model::synced(s);
            &&& u.offers == s.offers
            &&& s.effects.is_prefix_of(u.effects)
            &&& shown_offers(u.effects) == shown_offers(s.effects) + s.offers
        }),
{
    reveal(model::synced);
    reveal(model::enumerated);
    let s1 = model::enumerated(s);
    let s2 = model::notified(s1, FrontendEventView::EmulationStatus(s.emulation_status));
    let s3 = model::notified(s2, FrontendEventView::CaptureStatus(s.capture_status));
    let s4 = model::notified(s3, FrontendEventView::PortChanged(s.port, None));
    let s5 = model::notified(
        s4,
        FrontendEventView::PublicKeyFingerprint(s.public_key_fingerprint),
    );
    let s6 = model::notified(s5, FrontendEventView::AuthorizedUpdated(s.authorized));
    let s7 = model::notified(s6, FrontendEventView::SettingsChanged(s.settings));
    let s8 = model::notified(
        s7,
        FrontendEventView::DiscoverableChanged(s.settings.discoverable_on_startup),
    );
    lemma_not_shown(s.effects, s1.effects.last());
    lemma_not_shown(s1.effects, s2.effects.last());
    lemma_not_shown(s2.effects, s3.effects.last());
    lemma_not_shown(s3.effects, s4.effects.last());
    lemma_not_shown(s4.effects, s5.effects.last());
    lemma_not_shown(s5.effects, s6.effects.last());
    lemma_not_shown(s6.effects, s7.effects.last());
    lemma_not_shown(s7.effects, s8.effects.last());
    lemma_replay(s8, s.offers, s.offers.len());
    assert(s.offers.take(s.offers.len() as int) =~= s.offers);
    let u = model::synced(s);
    assert(u.effects.len() >= s8.effects.len());
    assert(s.effects.is_prefix_of(u.effects)) by {
        assert(s.effects =~= s8.effects.take(s.effects.len() as int));
        assert(s8.effects =~= u.effects.take(s8.effects.len() as int));
        assert(s.effects =~= u.effects.take(s.effects.len() as int));
    }
}

proof fn lemma_request_offers(s: ServiceView, r: FrontendRequestView, ip: Option<IpAddr>)
    requires
        !(r is RespondFileOffer),
    ensures
        model::requested(s, r, ip).offers == s.offers,
{
    reveal(model::config_saved);
    reveal(model::client_broadcast);
    match r {
        FrontendRequestView::Activate(h, _) => lemma_activated_offers(s, h),
        FrontendRequestView::AuthorizeKey(_, _) => reveal(model::key_added),
        FrontendRequestView::ChangePort(_) => reveal(model::port_changed),
        FrontendRequestView::Create => reveal(model::client_added),
        FrontendRequestView::Delete(_) => reveal(model::client_removed),
        FrontendRequestView::Enumerate => reveal(model::enumerated),
        FrontendRequestView::UpdateHostname(_, _) => {
            reveal(model::hostname_updated);
            reveal(model::resolved);
        },
        FrontendRequestView::UpdatePosition(h, pos) => {
            reveal(model::pos_updated);
            let t = model::with_clients(s, client::changed(s.clients, h, client::pos_set(pos)));
            lemma_activated_offers(t, h);
            lemma_activated_offers(model::deactivated(t, h), h);
        },
        FrontendRequestView::ResolveDns(h) => lemma_activated_offers(s, h),
        FrontendRequestView::Sync => lemma_synced(s),
        FrontendRequestView::RemoveAuthorizedKey(_) => reveal(model::key_removed),
        FrontendRequestView::AcceptDiscoveredDevice(_) => {
            reveal(model::device_accepted);
            reveal(model::key_added);
            reveal(model::activated);
            reveal(model::deactivated);
            reveal(model::resolved);
        },
        FrontendRequestView::SetDiscoverable(_) => reveal(model::discoverable_set),
        FrontendRequestView::UpdateSettings(_) => reveal(model::settings_updated),
        FrontendRequestView::RespondClipboardOverflow { client: _, decision: _ } => reveal(
            model::overflow_answered,
        ),
        FrontendRequestView::RespondClipboardImage { client: _, decision: _ } => reveal(
            model::image_answered,
        ),
        FrontendRequestView::SendFile { client: h, path } => {
            reveal(model::file_sent);
            match client::client_with(s.clients, h) {
                Some(c) => match model::transfer_target(s, model::known_address(c)) {
                    Some(t) => lemma_paths_sent_offers(s, t, seq![path], 1),
                    None => {},
                },
                None => {},
            }
        },
        _ => {},
    }
}

proof fn lemma_dropped_offers(s: ServiceView, pos: ipc::Position, paths: Seq<Seq<char>>)
    ensures
        model::paths_dropped(s, pos, paths).offers == s.offers,
{
    match model::drop_target(s, pos) {
        Some(t) => lemma_paths_sent_offers(s, t, paths, paths.len()),
        None => {},
    }
}

/// A step that settles nothing and offers nothing leaves the offers as they are.
proof fn lemma_other_steps(s: ServiceView, step: StepView)
    requires
        !(step matches StepView::Asked(r, _) && r is RespondFileOffer),
        !(step matches StepView::Transfer(e) && (e is IncomingOffer || e is Finished)),
    ensures
        stepped(s, step).offers == s.offers,
{
    reveal(stepped);
    match step {
        StepView::Started => {
            let active = client::handles_where(s.clients, client::active_client());
            lemma_all_activated_offers(
                model::with_clients(s, model::all_inactive(s.clients, active)),
                active,
            );
        },
        StepView::Asked(r, ip) => lemma_request_offers(s, r, ip),
        StepView::Emulation(_) => {
            reveal(model::config_saved);
            reveal(model::key_added);
        },
        StepView::Dns(_) => reveal(model::client_broadcast),
        StepView::Discovery(_) => {
            reveal(model::config_saved);
            reveal(model::key_added);
        },
        StepView::Drop(e) => match e {
            FileDropEventView::Dropped { position, paths } => lemma_dropped_offers(
                s,
                position,
                paths,
            ),
            FileDropEventView::DragEndedEarly { position, paths } => lemma_dropped_offers(
                s,
                position,
                paths,
            ),
            _ => {},
        },
        StepView::ConfigChanged(c) => {
            let handles = client::handles_where(s.clients, client::any_client());
            let s1 = model::all_removed(s, handles);
            lemma_all_removed_offers(s, handles);
            lemma_configs_added_offers(s1, c.clients);
            let s2 = model::configs_added(s1, c.clients);
            let s3 = model::effected(s2, EffectView::SetReleaseBind(c.settings.release_bind));
            lemma_synced(
                ServiceView {
                    authorized: c.authorized,
                    settings: c.settings,
                    file_transfer_port: c.file_transfer_port,
                    auto_accept: c.auto_accept,
                    ..s3
                },
            );
        },
        _ => {},
    }
}

/// What remains of offers without the one that has a number.
proof fn lemma_dropped(s: ServiceView, xfer_id: u64)
    requires
        laws::offers_unique(s.offers),
    ensures
        laws::offers_unique(model::offer_dropped(s, xfer_id).offers),
        forall|o: FileOfferView| #[trigger]
            model::offer_dropped(s, xfer_id).offers.contains(o) <==> s.offers.contains(o)
                && o.xfer_id != xfer_id,
{
    laws::lemma_offer_dropped(s, xfer_id);
    let r = model::offer_dropped(s, xfer_id).offers;
    let p = model::offer_with(xfer_id);
    let i = collections::index_where(s.offers, p);
    laws::lemma_index_in_range(s.offers, p);
    laws::lemma_index_is(s.offers, p);
    assert forall|o: FileOfferView| #[trigger] r.contains(o) <==> s.offers.contains(o)
        && o.xfer_id != xfer_id by {
        if r.contains(o) {
            let k = choose|k: int| 0 <= k < r.len() && r[k] == o;
            assert(r[k].xfer_id != xfer_id);
            if i < s.offers.len() && k >= i {
                assert(s.offers[k + 1] == o);
            } else {
                assert(s.offers[k] == o);
            }
        }
        if s.offers.contains(o) && o.xfer_id != xfer_id {
            let k = choose|k: int| 0 <= k < s.offers.len() && s.offers[k] == o;
            if i < s.offers.len() && k > i {
                assert(r[k - 1] == o);
            } else {
                assert(r[k] == o);
            }
        }
    }
}

/// What one step does to the offers that await a decision.
proof fn lemma_step_offers(s: ServiceView, step: StepView)
    requires
        laws::offers_unique(s.offers),
    ensures
        laws::offers_unique(stepped(s, step).offers),
        forall|o: FileOfferView| #[trigger]
            stepped(s, step).offers.contains(o) <==> offer_of(s, step) == Some(o) || (
            s.offers.contains(o) && !settles(s, step, o.xfer_id)),
{
    reveal(stepped);
    match step {
        StepView::Asked(FrontendRequestView::RespondFileOffer { xfer_id, decision: _ }, _) => {
            reveal(model::offer_answered);
            lemma_dropped(s, xfer_id);
        },
        StepView::Transfer(EventView::Finished { xfer_id, result: _ }) => {
            lemma_dropped(s, xfer_id);
        },
        StepView::Transfer(EventView::IncomingOffer { xfer_id, .. }) => {
            if s.auto_accept is None {
                let o = offer_of(s, step)->0;
                let r = model::offer_dropped(s, xfer_id).offers;
                let t = stepped(s, step);
                lemma_dropped(s, xfer_id);
                laws::law_offer_kept(s, o);
                assert(t == model::offer_received(s, o));
                assert(t.offers == r.push(o));
                assert forall|q: FileOfferView| #[trigger]
                    t.offers.contains(q) <==> offer_of(s, step) == Some(q) || (
                    s.offers.contains(q) && !settles(s, step, q.xfer_id)) by {
                    if t.offers.contains(q) {
                        let k = choose|k: int| 0 <= k < t.offers.len() && t.offers[k] == q;
                        if k < r.len() {
                            assert(r[k] == q);
                            assert(r.contains(q));
                        }
                    }
                    if s.offers.contains(q) && q.xfer_id != xfer_id {
                        assert(r.contains(q));
                        let k = choose|k: int| 0 <= k < r.len() && r[k] == q;
                        assert(t.offers[k] == q);
                    }
                }
            }
        },
        _ => {
            lemma_other_steps(s, step);
        },
    }
}

/// Whatever happens, the offers that await a decision are those that came in and were neither
/// answered nor finished since, each once and with what it came with.
pub proof fn law_pending_offers(s: ServiceView, steps: Seq<StepView>)
    requires
        s.offers.len() == 0,
    ensures
        laws::offers_unique(after(s, steps).offers),
        forall|o: FileOfferView| #[trigger]
            after(s, steps).offers.contains(o) <==> exists|k: int| pending_since(s, steps, k, o),
    decreases steps.len(),
{
    if steps.len() > 0 {
        let front = steps.drop_last();
        law_pending_offers(s, front);
        lemma_step_offers(after(s, front), steps.last());
        assert forall|o: FileOfferView| #[trigger]
            after(s, steps).offers.contains(o) <==> exists|k: int|
                pending_since(s, steps, k, o) by {
            assert(after(s, front).offers.contains(o) <==> exists|k: int|
                pending_since(s, front, k, o));
            lemma_last_step(s, steps, o);
        }
    }
}

/// What the last step does to one offer.
proof fn lemma_last_step(s: ServiceView, steps: Seq<StepView>, o: FileOfferView)
    requires
        steps.len() > 0,
        laws::offers_unique(after(s, steps.drop_last()).offers),
        after(s, steps.drop_last()).offers.contains(o) <==> exists|k: int|
            pending_since(s, steps.drop_last(), k, o),
    ensures
        after(s, steps).offers.contains(o) <==> exists|k: int| pending_since(s, steps, k, o),
{
    let front = steps.drop_last();
    let n = front.len() as int;
    let b = after(s, front);
    let t = after(s, steps);
    lemma_step_offers(b, steps.last());
    assert(t == stepped(b, steps.last()));
    assert(steps.take(n) =~= front);
    if t.offers.contains(o) {
        if offer_of(b, steps.last()) == Some(o) {
            assert(pending_since(s, steps, n, o));
        } else {
            let k = choose|k: int| pending_since(s, front, k, o);
            lemma_still_pending(s, steps, k, o);
        }
    }
    if exists|k: int| pending_since(s, steps, k, o) {
        let k = choose|k: int| pending_since(s, steps, k, o);
        if k < n {
            assert(!settled_at(s, steps, n, o.xfer_id));
            lemma_was_pending(s, steps, k, o);
        }
    }
}

proof fn lemma_still_pending(s: ServiceView, steps: Seq<StepView>, k: int, o: FileOfferView)
    requires
        steps.len() > 0,
        pending_since(s, steps.drop_last(), k, o),
        !settles(after(s, steps.drop_last()), steps.last(), o.xfer_id),
    ensures
        pending_since(s, steps, k, o),
{
    let front = steps.drop_last();
    assert(steps.take(k) =~= front.take(k));
    assert forall|j: int| k < j < steps.len() implies !#[trigger] settled_at(
        s,
        steps,
        j,
        o.xfer_id,
    ) by {
        if j < front.len() {
            assert(!settled_at(s, front, j, o.xfer_id));
            assert(steps.take(j) =~= front.take(j));
        } else {
            assert(steps.take(j) =~= front);
        }
    }
}

proof fn lemma_was_pending(s: ServiceView, steps: Seq<StepView>, k: int, o: FileOfferView)
    requires
        k < steps.len() - 1,
        pending_since(s, steps, k, o),
    ensures
        pending_since(s, steps.drop_last(), k, o),
{
    let front = steps.drop_last();
    assert(steps.take(k) =~= front.take(k));
    assert forall|j: int| k < j < front.len() implies !#[trigger] settled_at(
        s,
        front,
        j,
        o.xfer_id,
    ) by {
        assert(!settled_at(s, steps, j, o.xfer_id));
        assert(steps.take(j) =~= front.take(j));
    }
}

/// After any history, a frontend that asks for everything is shown exactly the offers that came
/// in and were neither answered nor finished, each once and with what it came with; and they
/// await a decision as before.
pub proof fn law_sync_replays_pending(s: ServiceView, steps: Seq<StepView>)
    requires
        s.offers.len() == 0,
    ensures
        ({
            let t = after(s, steps);
            let u = model::requested(t, FrontendRequestView::Sync, None);
            let shown = shown_offers(u.effects.skip(t.effects.len() as int));
            &&& u.offers == t.offers
            &&& t.effects.is_prefix_of(u.effects)
            &&& shown == t.offers
            &&& laws::offers_unique(shown)
            &&& forall|o: FileOfferView| #[trigger]
                shown.contains(o) <==> exists|k: int| pending_since(s, steps, k, o)
        }),
{
    let t = after(s, steps);
    let u = model::synced(t);
    law_pending_offers(s, steps);
    lemma_synced(t);
    let new = u.effects.skip(t.effects.len() as int);
    assert(t.effects + new =~= u.effects);
    lemma_shown_joined(t.effects, new);
    let shown = shown_offers(new);
    let before = shown_offers(t.effects);
    assert(before + shown == before + t.offers);
    assert((before + shown).len() == before.len() + shown.len());
    assert((before + t.offers).len() == before.len() + t.offers.len());
    assert forall|i: int| 0 <= i < shown.len() implies shown[i] == t.offers[i] by {
        let k = before.len() + i;
        assert((before + shown)[k] == shown[i]);
        assert((before + t.offers)[k] == t.offers[i]);
    }
    assert(shown =~= t.offers);
}

} // verus!

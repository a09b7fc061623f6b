//! What the service does with the answers of the user, with files, and with the reports of
//! transfers and of discovery, said by the effects that follow and by what changes in its state.
use crate::file_transfer::{CommandView, DecisionView, EventView, TransferResultView};
use crate::ipc::{
    ClientHandle, ClipboardImageDecision, ClipboardOverflowDecision, DiscoveredDeviceView,
    FileDecisionView, FileOfferView, FrontendEventView, FrontendRequestView,
};
use crate::net::{IpAddr, SocketAddr};
use crate::service::model;
use crate::service::model::{EffectView, ServiceView};
use crate::service::{promises, requests};
use crate::{client, collections, ipc, text};
use vstd::prelude::*;
use vstd::utf8::encode_utf8;

verus! {

// ----- offers ---------------------------------------------------------------

/// Whether a list of offers follows from another by taking the first with a number out.
pub open spec fn offer_taken_out(
    before: Seq<FileOfferView>,
    after: Seq<FileOfferView>,
    xfer_id: u64,
) -> bool {
    ||| exists|k: int|
        {
            &&& 0 <= k < before.len()
            &&& (#[trigger] before[k]).xfer_id == xfer_id
            &&& forall|j: int| 0 <= j < k ==> (#[trigger] before[j]).xfer_id != xfer_id
            &&& after == before.remove(k)
        }
    ||| after == before && forall|j: int|
        0 <= j < before.len() ==> (#[trigger] before[j]).xfer_id != xfer_id
}

proof fn lemma_offer_taken_out(s: ServiceView, xfer_id: u64)
    ensures
        offer_taken_out(s.offers, model::offer_dropped(s, xfer_id).offers, xfer_id),
        model::offer_dropped(s, xfer_id) == (ServiceView {
            offers: model::offer_dropped(s, xfer_id).offers,
            ..s
        }),
{
    let p = model::offer_with(xfer_id);
    let k = collections::lemma_first_index(s.offers, p);
    assert forall|j: int| 0 <= j < k implies (#[trigger] s.offers[j]).xfer_id != xfer_id by {
        assert(!p(s.offers[j]));
    }
    if k < s.offers.len() {
        assert(s.offers[k].xfer_id == xfer_id);
    }
}

/// What the user says to an offer is handed on as it is said, for the offer that it is said of;
/// the offer is off the list, and the others stay. Nothing is handed on where transfers do not
/// run.
pub proof fn law_offer_answer(
    s: ServiceView,
    xfer_id: u64,
    dest_dir: Seq<char>,
    ip: Option<IpAddr>,
)
    ensures
        ({
            let yes = model::requested(
                s,
                FrontendRequestView::RespondFileOffer {
                    xfer_id,
                    decision: FileDecisionView::Accept { dest_dir },
                },
                ip,
            );
            let no = model::requested(
                s,
                FrontendRequestView::RespondFileOffer {
                    xfer_id,
                    decision: FileDecisionView::Decline,
                },
                ip,
            );
            &&& offer_taken_out(s.offers, yes.offers, xfer_id)
            &&& offer_taken_out(s.offers, no.offers, xfer_id)
            &&& promises::only_adds(
                ServiceView { offers: yes.offers, ..s },
                yes,
                if s.file_transfer {
                    seq![
                        EffectView::Transfer(
                            CommandView::RespondOffer {
                                xfer_id,
                                decision: DecisionView::Accept { dest_dir },
                            },
                        ),
                    ]
                } else {
                    Seq::empty()
                },
            )
            &&& promises::only_adds(
                ServiceView { offers: no.offers, ..s },
                no,
                if s.file_transfer {
                    seq![
                        EffectView::Transfer(
                            CommandView::RespondOffer { xfer_id, decision: DecisionView::Decline },
                        ),
                    ]
                } else {
                    Seq::empty()
                },
            )
        }),
{
    reveal(model::offer_answered);
    lemma_offer_taken_out(s, xfer_id);
    let yes = model::offer_answered(s, xfer_id, FileDecisionView::Accept { dest_dir });
    let no = model::offer_answered(s, xfer_id, FileDecisionView::Decline);
    if s.file_transfer {
        let y = EffectView::Transfer(
            CommandView::RespondOffer { xfer_id, decision: DecisionView::Accept { dest_dir } },
        );
        let n = EffectView::Transfer(
            CommandView::RespondOffer { xfer_id, decision: DecisionView::Decline },
        );
        assert(yes.effects =~= s.effects + seq![y]);
        assert(no.effects =~= s.effects + seq![n]);
    } else {
        assert(yes.effects =~= s.effects + Seq::empty());
        assert(no.effects =~= s.effects + Seq::empty());
    }
}

/// Whether an offer is attributed to the first client that is known by an IP address, or to none.
pub open spec fn comes_from(s: ServiceView, ip: IpAddr, h: ClientHandle) -> bool {
    ||| exists|i: int|
        {
            &&& 0 <= i < s.clients.len()
            &&& ((#[trigger] s.clients[i]).state.ips.contains(ip)
                || s.clients[i].state.active_addr is Some && s.clients[i].state.active_addr->0.ip
                == ip)
            &&& s.clients[i].handle == h
            &&& forall|j: int|
                0 <= j < i ==> !(#[trigger] s.clients[j]).state.ips.contains(ip) && !(
                s.clients[j].state.active_addr is Some && s.clients[j].state.active_addr->0.ip
                    == ip)
        }
    ||| h == 0 && forall|j: int|
        0 <= j < s.clients.len() ==> !(#[trigger] s.clients[j]).state.ips.contains(ip) && !(
        s.clients[j].state.active_addr is Some && s.clients[j].state.active_addr->0.ip == ip)
}

proof fn lemma_comes_from(s: ServiceView, ip: IpAddr)
    ensures
        comes_from(s, ip, model::client_from(s, ip)),
{
    let p = model::known_by(ip);
    let i = collections::lemma_first_index(s.clients, p);
    assert forall|j: int| 0 <= j < i implies !(#[trigger] s.clients[j]).state.ips.contains(ip) && !(
    s.clients[j].state.active_addr is Some && s.clients[j].state.active_addr->0.ip == ip) by {
        assert(!p(s.clients[j]));
    }
    if i < s.clients.len() {
        assert(p(s.clients[i]));
        assert(s.clients[i].handle == model::client_from(s, ip));
    }
}

/// An offer that comes in is shown to the user as it was made, under the client that it comes
/// from, and kept in place of an older one with its number; where offers are accepted by
/// configuration it is accepted into the configured directory instead, and nothing is shown.
pub proof fn law_offer_comes_in(
    s: ServiceView,
    xfer_id: u64,
    peer_addr: SocketAddr,
    fingerprint: Seq<char>,
    root_name: Seq<char>,
    entries: u32,
    total_bytes: u64,
)
    ensures
        ({
            let t = model::transfer_reported(
                s,
                EventView::IncomingOffer {
                    xfer_id,
                    peer_addr,
                    peer_fingerprint: fingerprint,
                    root_name,
                    entries,
                    total_bytes,
                },
            );
            match s.auto_accept {
                Some(dest_dir) => promises::only_adds(
                    s,
                    t,
                    seq![
                        EffectView::Transfer(
                            CommandView::RespondOffer {
                                xfer_id,
                                decision: DecisionView::Accept { dest_dir },
                            },
                        ),
                    ],
                ),
                None => {
                    let o = t.offers.last();
                    &&& t.offers.len() > 0
                    &&& offer_taken_out(s.offers, t.offers.drop_last(), xfer_id)
                    &&& comes_from(s, peer_addr.ip, o.client)
                    &&& o == FileOfferView {
                        xfer_id,
                        client: o.client,
                        root_name,
                        entries,
                        total_bytes,
                        fingerprint,
                    }
                    &&& promises::only_adds(
                        ServiceView { offers: t.offers, ..s },
                        t,
                        seq![promises::tell(FrontendEventView::FileOfferIncoming(o))],
                    )
                },
            }
        }),
{
    let t = model::transfer_reported(
        s,
        EventView::IncomingOffer {
            xfer_id,
            peer_addr,
            peer_fingerprint: fingerprint,
            root_name,
            entries,
            total_bytes,
        },
    );
    match s.auto_accept {
        Some(dest_dir) => {
            assert(t.effects =~= s.effects + seq![
                EffectView::Transfer(
                    CommandView::RespondOffer {
                        xfer_id,
                        decision: DecisionView::Accept { dest_dir },
                    },
                ),
            ]);
        },
        None => {
            lemma_offer_taken_out(s, xfer_id);
            lemma_comes_from(s, peer_addr.ip);
            let o = t.offers.last();
            assert(t.offers.drop_last() =~= model::offer_dropped(s, xfer_id).offers);
            assert(t.effects =~= s.effects + seq![
                promises::tell(FrontendEventView::FileOfferIncoming(o)),
            ]);
        },
    }
}

/// Progress of a transfer is told number by number, and changes nothing.
pub proof fn law_progress_told(
    s: ServiceView,
    xfer_id: u64,
    bytes: u64,
    total: u64,
    entries_done: u32,
    entries_total: u32,
    current_entry: Option<Seq<char>>,
)
    ensures
        promises::only_adds(
            s,
            model::transfer_reported(
                s,
                EventView::Progress {
                    xfer_id,
                    bytes,
                    total,
                    entries_done,
                    entries_total,
                    current_entry,
                },
            ),
            seq![
                promises::tell(
                    FrontendEventView::FileTransferProgress {
                        xfer_id,
                        bytes,
                        total,
                        entries_done,
                        entries_total,
                        current_entry,
                    },
                ),
            ],
        ),
{
    let t = model::transfer_reported(
        s,
        EventView::Progress {
            xfer_id,
            bytes,
            total,
            entries_done,
            entries_total,
            current_entry,
        },
    );
    assert(t.effects =~= s.effects + seq![
        promises::tell(
            FrontendEventView::FileTransferProgress {
                xfer_id,
                bytes,
                total,
                entries_done,
                entries_total,
                current_entry,
            },
        ),
    ]);
}

/// The end of a transfer is told as it came about, and its offer is off the list.
pub proof fn law_end_told(s: ServiceView, xfer_id: u64, result: TransferResultView)
    ensures
        ({
            let t = model::transfer_reported(s, EventView::Finished { xfer_id, result });
            &&& offer_taken_out(s.offers, t.offers, xfer_id)
            &&& promises::only_adds(
                ServiceView { offers: t.offers, ..s },
                t,
                seq![
                    promises::tell(
                        FrontendEventView::FileTransferFinished {
                            xfer_id,
                            result: match result {
                                TransferResultView::Done { destination } => {
                                    ipc::TransferResultView::Done { destination }
                                },
                                TransferResultView::Cancelled => ipc::TransferResultView::Cancelled,
                                TransferResultView::Error(e) => ipc::TransferResultView::Error(e),
                            },
                        },
                    ),
                ],
            )
        }),
{
    lemma_offer_taken_out(s, xfer_id);
    let t = model::transfer_reported(s, EventView::Finished { xfer_id, result });
    assert(t.effects =~= s.effects + seq![t.effects.last()]);
}

/// A clipboard that arrives as a transfer is set where the clipboard is shared and the bytes are a
/// text; else nothing happens.
pub proof fn law_received_clipboard_is_set(s: ServiceView, peer_addr: SocketAddr, t: Seq<char>)
    ensures
        promises::only_adds(
            s,
            model::transfer_reported(
                s,
                EventView::ClipboardReceived { peer_addr, content: encode_utf8(t) },
            ),
            if s.clipboard {
                seq![EffectView::SetClipboard(t)]
            } else {
                Seq::empty()
            },
        ),
{
    let r = model::transfer_reported(
        s,
        EventView::ClipboardReceived { peer_addr, content: encode_utf8(t) },
    );
    vstd::utf8::encode_utf8_decode_utf8(t);
    vstd::utf8::encode_utf8_valid_utf8(t);
    assert(text::utf8_text(encode_utf8(t)) == Some(t));
    if s.clipboard {
        assert(r.effects =~= s.effects + seq![EffectView::SetClipboard(t)]);
    } else {
        assert(r.effects =~= s.effects + Seq::empty());
    }
}

// ----- what is on the clipboard ---------------------------------------------

/// Whether a client is the first active one.
pub open spec fn first_active(s: ServiceView, i: int) -> bool {
    &&& 0 <= i < s.clients.len()
    &&& s.clients[i].state.active
    &&& forall|j: int| 0 <= j < i ==> !(#[trigger] s.clients[j]).state.active
}

proof fn lemma_sent_as_file(
    s: ServiceView,
    content: Seq<u8>,
    ext: Seq<char>,
    i: int,
    a: SocketAddr,
    fp: Seq<char>,
)
    requires
        s.file_transfer,
        first_active(s, i),
        promises::reached_at(s.clients[i]) == Some(a),
        promises::shown_from(s, a.ip, fp),
    ensures
        promises::only_adds(
            s,
            model::sent_as_file(s, content, ext),
            seq![
                EffectView::SendAsFile {
                    content,
                    ext,
                    target_addr: promises::transfer_addr(s, a.ip),
                    fingerprint: fp,
                },
            ],
        ),
{
    let t = model::sent_as_file(s, content, ext);
    let p = client::active_client();
    assert forall|j: int| 0 <= j < i implies !p(#[trigger] s.clients[j]) by {}
    collections::lemma_first_at(s.clients, p, i);
    promises::law_transfer_target(s, a, fp);
    assert(model::known_address(s.clients[i]) == Some(a));
    assert(t.effects =~= s.effects + seq![
        EffectView::SendAsFile {
            content,
            ext,
            target_addr: promises::transfer_addr(s, a.ip),
            fingerprint: fp,
        },
    ]);
}

proof fn lemma_still_shown(s: ServiceView, t: ServiceView, ip: IpAddr, fp: Seq<char>)
    requires
        promises::shown_from(s, ip, fp),
        t.incoming == s.incoming,
    ensures
        promises::shown_from(t, ip, fp),
{
}

/// A waiting text that the user sends goes out whole, as a text file with its UTF-8 bytes, to the
/// first active client; a waiting image goes out as it is, as a PNG file. Neither waits any
/// longer.
pub proof fn law_waiting_content_is_sent(
    s: ServiceView,
    i: int,
    fp: Seq<char>,
    content: Seq<char>,
    png: Seq<u8>,
    h: ClientHandle,
    ip: Option<IpAddr>,
)
    requires
        s.file_transfer,
        first_active(s, i),
        promises::reached_at(s.clients[i]) is Some,
        promises::shown_from(s, promises::reached_at(s.clients[i])->0.ip, fp),
    ensures
        ({
            let to = promises::transfer_addr(s, promises::reached_at(s.clients[i])->0.ip);
            &&& s.overflow == Some(content) ==> promises::only_adds(
                ServiceView { overflow: None, ..s },
                model::requested(
                    s,
                    FrontendRequestView::RespondClipboardOverflow {
                        client: h,
                        decision: ClipboardOverflowDecision::Send,
                    },
                    ip,
                ),
                seq![
                    EffectView::SendAsFile {
                        content: encode_utf8(content),
                        ext: "txt"@,
                        target_addr: to,
                        fingerprint: fp,
                    },
                ],
            )
            &&& s.image == Some(png) ==> promises::only_adds(
                ServiceView { image: None, ..s },
                model::requested(
                    s,
                    FrontendRequestView::RespondClipboardImage {
                        client: h,
                        decision: ClipboardImageDecision::Send,
                    },
                    ip,
                ),
                seq![
                    EffectView::SendAsFile {
                        content: png,
                        ext: "png"@,
                        target_addr: to,
                        fingerprint: fp,
                    },
                ],
            )
        }),
{
    reveal(model::overflow_answered);
    reveal(model::image_answered);
    let a = promises::reached_at(s.clients[i])->0;
    let s1 = ServiceView { overflow: None, ..s };
    let s2 = ServiceView { image: None, ..s };
    lemma_still_shown(s, s1, a.ip, fp);
    lemma_still_shown(s, s2, a.ip, fp);
    lemma_sent_as_file(s1, encode_utf8(content), "txt"@, i, a, fp);
    lemma_sent_as_file(s2, png, "png"@, i, a, fp);
}

/// A waiting text that the user lets be truncated is shared with both sides as the longest prefix
/// of it that fits 64 KiB; one that is truncated or ignored is noted whole where the clipboard is
/// watched. An image that is skipped goes nowhere. Nothing waits any longer, and an answer to
/// nothing does nothing.
pub proof fn law_waiting_content_is_kept_back(
    s: ServiceView,
    content: Seq<char>,
    cut: int,
    h: ClientHandle,
    over: ClipboardOverflowDecision,
    image: ClipboardImageDecision,
    ip: Option<IpAddr>,
)
    requires
        0 <= cut <= content.len(),
        encode_utf8(content.take(cut)).len() <= 65536,
        cut < content.len() ==> encode_utf8(content.take(cut + 1)).len() > 65536,
    ensures
        ({
            let waits = FrontendRequestView::RespondClipboardOverflow { client: h, decision: over };
            let shows = FrontendRequestView::RespondClipboardImage { client: h, decision: image };
            let noted = if s.clipboard {
                seq![EffectView::NoteClipboard(content)]
            } else {
                Seq::empty()
            };
            &&& s.overflow == Some(content) && over == ClipboardOverflowDecision::Truncate
                ==> promises::only_adds(
                ServiceView { overflow: None, ..s },
                model::requested(s, waits, ip),
                seq![
                    EffectView::SendClipboardToControllers(
                        promises::inline_message(content.take(cut)),
                    ),
                    EffectView::SendClipboardToClients(promises::inline_message(content.take(cut))),
                ] + noted,
            )
            &&& s.overflow == Some(content) && over == ClipboardOverflowDecision::Ignore
                ==> promises::only_adds(
                ServiceView { overflow: None, ..s },
                model::requested(s, waits, ip),
                noted,
            )
            &&& s.overflow is None ==> model::requested(s, waits, ip) == s
            &&& s.image is Some && image == ClipboardImageDecision::Skip ==> model::requested(
                s,
                shows,
                ip,
            ) == (ServiceView { image: None, ..s })
            &&& s.image is None ==> model::requested(s, shows, ip) == s
        }),
{
    reveal(model::overflow_answered);
    reveal(model::image_answered);
    let waits = FrontendRequestView::RespondClipboardOverflow { client: h, decision: over };
    let t = model::requested(s, waits, ip);
    let noted = if s.clipboard {
        seq![EffectView::NoteClipboard(content)]
    } else {
        Seq::empty()
    };
    if s.overflow == Some(content) && over == ClipboardOverflowDecision::Truncate {
        text::lemma_fitting_from(content, cut, content.len() as int, 65536);
        assert(content.take(content.len() as int) =~= content);
        let p = content.take(cut);
        promises::lemma_message(p);
        let new = seq![
            EffectView::SendClipboardToControllers(promises::inline_message(p)),
            EffectView::SendClipboardToClients(promises::inline_message(p)),
        ] + noted;
        assert(t.effects =~= s.effects + new);
    }
    if s.overflow == Some(content) && over == ClipboardOverflowDecision::Ignore {
        assert(t.effects =~= s.effects + noted);
    }
}

/// A file that is sent to a client goes there under its path: to the file-transfer port of the
/// address that the client is reached at, under the fingerprint that was shown from there.
pub proof fn law_file_is_sent(
    s: ServiceView,
    i: int,
    fp: Seq<char>,
    path: Seq<char>,
    unknown: ClientHandle,
    ip: Option<IpAddr>,
)
    requires
        client::handles_ascend(s.clients),
        0 <= i < s.clients.len(),
        promises::reached_at(s.clients[i]) is Some,
        promises::shown_from(s, promises::reached_at(s.clients[i])->0.ip, fp),
        forall|j: int| 0 <= j < s.clients.len() ==> (#[trigger] s.clients[j]).handle != unknown,
    ensures
        promises::only_adds(
            s,
            model::requested(
                s,
                FrontendRequestView::SendFile { client: s.clients[i].handle, path },
                ip,
            ),
            if s.file_transfer {
                promises::send_each(
                    promises::transfer_addr(s, promises::reached_at(s.clients[i])->0.ip),
                    fp,
                    seq![path],
                )
            } else {
                Seq::empty()
            },
        ),
        model::requested(s, FrontendRequestView::SendFile { client: unknown, path }, ip) == s,
{
    reveal(model::file_sent);
    requests::lemma_found(s.clients, i);
    requests::lemma_nobody(s.clients, unknown);
    let a = promises::reached_at(s.clients[i])->0;
    promises::law_transfer_target(s, a, fp);
    assert(model::known_address(s.clients[i]) == Some(a));
    let to = (promises::transfer_addr(s, a.ip), fp);
    promises::lemma_paths_sent(s, to, seq![path], 1);
    assert(seq![path].take(1) =~= seq![path]);
    let t = model::requested(
        s,
        FrontendRequestView::SendFile { client: s.clients[i].handle, path },
        ip,
    );
    if !s.file_transfer {
        assert(t.effects =~= s.effects + Seq::empty());
    }
}

// ----- what a frontend is told ----------------------------------------------

/// A frontend that asks for everything is told of all clients, of both states, the port, the
/// fingerprint of this device, all authorized keys, the settings, whether the device is found,
/// and of each offer that awaits an answer, in this order; nothing changes.
pub proof fn law_sync_tells_everything(s: ServiceView, ip: Option<IpAddr>)
    ensures
        promises::only_adds(
            s,
            model::requested(s, FrontendRequestView::Sync, ip),
            seq![
                promises::tell(FrontendEventView::Enumerate(s.clients)),
                promises::tell(FrontendEventView::EmulationStatus(s.emulation_status)),
                promises::tell(FrontendEventView::CaptureStatus(s.capture_status)),
                promises::tell(FrontendEventView::PortChanged(s.port, None)),
                promises::tell(
                    FrontendEventView::PublicKeyFingerprint(s.public_key_fingerprint),
                ),
                promises::tell(FrontendEventView::AuthorizedUpdated(s.authorized)),
                promises::tell(FrontendEventView::SettingsChanged(s.settings)),
                promises::tell(
                    FrontendEventView::DiscoverableChanged(s.settings.discoverable_on_startup),
                ),
            ] + s.offers.map_values(
                |o: FileOfferView| promises::tell(FrontendEventView::FileOfferIncoming(o)),
            ),
        ),
        promises::only_adds(
            s,
            model::requested(s, FrontendRequestView::Enumerate, ip),
            seq![promises::tell(FrontendEventView::Enumerate(s.clients))],
        ),
{
    reveal(model::enumerated);
    lemma_synced(s);
    let u = model::requested(s, FrontendRequestView::Enumerate, ip);
    assert(u.effects =~= s.effects + seq![
        promises::tell(FrontendEventView::Enumerate(s.clients)),
    ]);
}

/// What a frontend is told that asks for everything.
pub open spec fn everything(s: ServiceView) -> Seq<EffectView> {
    seq![
        promises::tell(FrontendEventView::Enumerate(s.clients)),
        promises::tell(FrontendEventView::EmulationStatus(s.emulation_status)),
        promises::tell(FrontendEventView::CaptureStatus(s.capture_status)),
        promises::tell(FrontendEventView::PortChanged(s.port, None)),
        promises::tell(FrontendEventView::PublicKeyFingerprint(s.public_key_fingerprint)),
        promises::tell(FrontendEventView::AuthorizedUpdated(s.authorized)),
        promises::tell(FrontendEventView::SettingsChanged(s.settings)),
        promises::tell(FrontendEventView::DiscoverableChanged(s.settings.discoverable_on_startup)),
    ] + s.offers.map_values(
        |o: FileOfferView| promises::tell(FrontendEventView::FileOfferIncoming(o)),
    )
}

pub proof fn lemma_synced(s: ServiceView)
    ensures
        promises::only_adds(s, model::synced(s), everything(s)),
{
    reveal(model::synced);
    reveal(model::enumerated);
    let t = model::synced(s);
    let s1 = model::enumerated(s);
    let s2 = model::notified(s1, FrontendEventView::EmulationStatus(s.emulation_status));
    let s3 = model::notified(s2, FrontendEventView::CaptureStatus(s.capture_status));
    let s4 = model::notified(s3, FrontendEventView::PortChanged(s.port, None));
    let s5 = model::notified(
        s4,
        FrontendEventView::PublicKeyFingerprint(s.public_key_fingerprint),
    );
    let s6 = model::notified(s5, FrontendEventView::AuthorizedUpdated(s.authorized));
    let s7 = model::notified(s6, FrontendEventView::SettingsChanged(s.settings));
    let s8 = model::notified(
        s7,
        FrontendEventView::DiscoverableChanged(s.settings.discoverable_on_startup),
    );
    lemma_replayed(s8, s.offers, s.offers.len());
    assert(s.offers.take(s.offers.len() as int) =~= s.offers);
    assert(t.effects =~= s.effects + everything(s));
}

proof fn lemma_replayed(s: ServiceView, offers: Seq<FileOfferView>, n: nat)
    requires
        n <= offers.len(),
    ensures
        promises::only_adds(
            s,
            model::offers_replayed(s, offers, n),
            offers.take(n as int).map_values(
                |o: FileOfferView| promises::tell(FrontendEventView::FileOfferIncoming(o)),
            ),
        ),
    decreases n,
{
    let t = model::offers_replayed(s, offers, n);
    let f = |o: FileOfferView| promises::tell(FrontendEventView::FileOfferIncoming(o));
    if n > 0 {
        lemma_replayed(s, offers, (n - 1) as nat);
        assert(offers.take(n as int).map_values(f) =~= offers.take(n - 1).map_values(f).push(
            f(offers[n - 1]),
        ));
    }
    assert(t.effects =~= s.effects + offers.take(n as int).map_values(f));
}

// ----- discovery ------------------------------------------------------------

/// Whether a list of devices follows from another by taking the first with a hostname out.
pub open spec fn device_taken_out(
    before: Seq<DiscoveredDeviceView>,
    after: Seq<DiscoveredDeviceView>,
    hostname: Seq<char>,
) -> bool {
    ||| exists|k: int| #[trigger] requests::first_named(before, k, hostname) && after
        == before.remove(k)
    ||| after == before && forall|j: int|
        0 <= j < before.len() ==> (#[trigger] before[j]).hostname != hostname
}

proof fn lemma_device_taken_out(before: Seq<DiscoveredDeviceView>, hostname: Seq<char>)
    ensures
        device_taken_out(
            before,
            collections::without_first(before, model::device_named(hostname)),
            hostname,
        ),
{
    let p = model::device_named(hostname);
    let k = collections::lemma_first_index(before, p);
    assert forall|j: int| 0 <= j < k implies (#[trigger] before[j]).hostname != hostname by {
        assert(!p(before[j]));
    }
    if k < before.len() {
        assert(requests::first_named(before, k, hostname));
    }
}

/// A device that is found is remembered with all that is known of it, in place of an older one of
/// its name; it is shown as it was found where no client has its name; a fingerprint that it shows
/// and that is not authorized is authorized under its name, and that is told and saved.
pub proof fn law_found_device(s: ServiceView, d: DiscoveredDeviceView)
    ensures
        ({
            let t = model::discovery_reported(s, FrontendEventView::DiscoveredDevice(d));
            let taken = exists|i: int|
                0 <= i < s.clients.len() && (#[trigger] s.clients[i]).config.hostname == Some(
                    d.hostname,
                );
            let new = d.fingerprint.len() > 0 && !s.authorized.dom().contains(d.fingerprint);
            let keys = if new {
                s.authorized.insert(d.fingerprint, d.hostname)
            } else {
                s.authorized
            };
            let base = ServiceView { authorized: keys, discovered: t.discovered, ..s };
            &&& t.discovered.len() > 0
            &&& t.discovered.last() == d
            &&& device_taken_out(s.discovered, t.discovered.drop_last(), d.hostname)
            &&& promises::only_adds(
                base,
                t,
                (if new {
                    seq![
                        promises::tell(FrontendEventView::AuthorizedUpdated(keys)),
                        requests::written(base),
                    ]
                } else {
                    Seq::empty()
                }) + (if taken {
                    Seq::empty()
                } else {
                    seq![promises::tell(FrontendEventView::DiscoveredDevice(d))]
                }),
            )
        }),
{
    reveal(model::key_added);
    let t = model::discovery_reported(s, FrontendEventView::DiscoveredDevice(d));
    let q = model::has_hostname(d.hostname);
    let taken = exists|i: int|
        0 <= i < s.clients.len() && (#[trigger] s.clients[i]).config.hostname == Some(d.hostname);
    collections::lemma_first_is(s.clients, q);
    if taken {
        let i = choose|i: int|
            0 <= i < s.clients.len() && (#[trigger] s.clients[i]).config.hostname == Some(
                d.hostname,
            );
        assert(q(s.clients[i]));
    } else if let Some(x) = collections::first_where(s.clients, q) {
        let i = choose|i: int| 0 <= i < s.clients.len() && s.clients[i] == x;
        assert(s.clients[i].config.hostname == Some(d.hostname));
    }
    lemma_device_taken_out(s.discovered, d.hostname);
    let new = d.fingerprint.len() > 0 && !s.authorized.dom().contains(d.fingerprint);
    let k = model::key_added(s, d.hostname, d.fingerprint);
    requests::lemma_config_saved(k);
    let keys = if new {
        s.authorized.insert(d.fingerprint, d.hostname)
    } else {
        s.authorized
    };
    let base = ServiceView { authorized: keys, discovered: t.discovered, ..s };
    assert(new ==> requests::written(k) == requests::written(base));
    assert(t.discovered.drop_last() =~= collections::without_first(
        s.discovered,
        model::device_named(d.hostname),
    ));
    let adds = (if new {
        seq![
            promises::tell(FrontendEventView::AuthorizedUpdated(keys)),
            requests::written(base),
        ]
    } else {
        Seq::empty()
    }) + (if taken {
        Seq::empty()
    } else {
        seq![promises::tell(FrontendEventView::DiscoveredDevice(d))]
    });
    assert(t.effects =~= s.effects + adds);
}

/// A device that is lost is forgotten and told as lost; whatever else discovery reports is told as
/// it is.
pub proof fn law_lost_device(s: ServiceView, hostname: Seq<char>, e: FrontendEventView)
    requires
        !(e is DiscoveredDevice),
        !(e is DeviceLost),
    ensures
        ({
            let t = model::discovery_reported(s, FrontendEventView::DeviceLost { hostname });
            &&& device_taken_out(s.discovered, t.discovered, hostname)
            &&& promises::only_adds(
                ServiceView { discovered: t.discovered, ..s },
                t,
                seq![promises::tell(FrontendEventView::DeviceLost { hostname })],
            )
        }),
        promises::only_adds(s, model::discovery_reported(s, e), seq![promises::tell(e)]),
{
    lemma_device_taken_out(s.discovered, hostname);
    let t = model::discovery_reported(s, FrontendEventView::DeviceLost { hostname });
    assert(t.effects =~= s.effects + seq![
        promises::tell(FrontendEventView::DeviceLost { hostname }),
    ]);
    assert(model::discovery_reported(s, e).effects =~= s.effects + seq![promises::tell(e)]);
}

} // verus!

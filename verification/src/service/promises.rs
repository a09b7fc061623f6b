//! What the service does on each report, drop and change of the clipboard, said by the effects
//! that follow and by what changes in its state.
use crate::clipboard::ClipboardChangeView;
use crate::file_drop::FileDropEventView;
use crate::file_transfer::CommandView;
use crate::ipc::{ClientHandle, ClientView, FrontendEventView, Position, Status};
use crate::net::{IpAddr, SocketAddr};
use crate::service::model;
use crate::service::model::{
    CaptureEventView, CaptureType, EffectView, EmulationEventView, IncomingView, ServiceView,
    ENTER_HANDLE_BEGIN,
};
use crate::{client, clipboard, collections};
use vstd::prelude::*;
use vstd::utf8::encode_utf8;

verus! {

/// Whether one state differs from another in nothing but effects that were added.
pub open spec fn only_adds(s: ServiceView, t: ServiceView, new: Seq<EffectView>) -> bool {
    t == ServiceView { effects: s.effects + new, ..s }
}

/// The effect that tells all frontends.
pub open spec fn tell(e: FrontendEventView) -> EffectView {
    EffectView::Notify(e)
}

// ----- emulation ------------------------------------------------------------

/// A device that asks for the captured input to be released gets it released, in every state, and
/// nothing else happens.
pub proof fn law_release_is_honoured(s: ServiceView)
    ensures
        only_adds(
            s,
            model::emulation_reported(s, EmulationEventView::ReleaseNotify),
            seq![EffectView::CaptureRelease],
        ),
{
    let t = model::emulation_reported(s, EmulationEventView::ReleaseNotify);
    assert(t.effects =~= s.effects + seq![EffectView::CaptureRelease]);
}

/// The frontends learn whether emulation runs, and the service remembers it.
pub proof fn law_emulation_status_told(s: ServiceView, on: bool)
    ensures
        ({
            let e = if on {
                EmulationEventView::EmulationEnabled
            } else {
                EmulationEventView::EmulationDisabled
            };
            let status = if on {
                Status::Enabled
            } else {
                Status::Disabled
            };
            let t = model::emulation_reported(s, e);
            only_adds(
                ServiceView { emulation_status: status, ..s },
                t,
                seq![tell(FrontendEventView::EmulationStatus(status))],
            )
        }),
{
    let e = if on {
        EmulationEventView::EmulationEnabled
    } else {
        EmulationEventView::EmulationDisabled
    };
    let status = if on {
        Status::Enabled
    } else {
        Status::Disabled
    };
    let t = model::emulation_reported(s, e);
    assert(t.effects =~= s.effects + seq![tell(FrontendEventView::EmulationStatus(status))]);
}

/// A listener that has moved is remembered with its new port; one that could not move keeps the
/// old one. The frontends are told the port that holds, with the failure where there was one.
pub proof fn law_port_change_told(s: ServiceView, port: u16, failure: Seq<char>)
    ensures
        only_adds(
            ServiceView { port, ..s },
            model::emulation_reported(s, EmulationEventView::PortChanged(Ok(port))),
            seq![tell(FrontendEventView::PortChanged(port, None))],
        ),
        only_adds(
            s,
            model::emulation_reported(s, EmulationEventView::PortChanged(Err(failure))),
            seq![tell(FrontendEventView::PortChanged(s.port, Some(failure)))],
        ),
{
    let t = model::emulation_reported(s, EmulationEventView::PortChanged(Ok(port)));
    assert(t.effects =~= s.effects + seq![tell(FrontendEventView::PortChanged(port, None))]);
    let u = model::emulation_reported(s, EmulationEventView::PortChanged(Err(failure)));
    assert(u.effects =~= s.effects + seq![
        tell(FrontendEventView::PortChanged(s.port, Some(failure))),
    ]);
}

/// The frontends learn of every device that connects.
pub proof fn law_connection_told(s: ServiceView, addr: SocketAddr, fingerprint: Seq<char>)
    ensures
        only_adds(
            s,
            model::emulation_reported(s, EmulationEventView::Connected { addr, fingerprint }),
            seq![tell(FrontendEventView::DeviceConnected { addr, fingerprint })],
        ),
{
    let t = model::emulation_reported(s, EmulationEventView::Connected { addr, fingerprint });
    assert(t.effects =~= s.effects + seq![
        tell(FrontendEventView::DeviceConnected { addr, fingerprint }),
    ]);
}

/// A text that a peer sends, in either role, goes to the clipboard of this device as it is, where
/// the clipboard is shared, and is ignored where it is not.
pub proof fn law_peer_text_is_set(s: ServiceView, t: Seq<char>, current: Seq<char>)
    ensures
        ({
            let new = if s.clipboard {
                seq![EffectView::SetClipboard(t)]
            } else {
                Seq::empty()
            };
            &&& only_adds(
                s,
                model::emulation_reported(s, EmulationEventView::ClipboardReceived(t)),
                new,
            )
            &&& only_adds(
                s,
                model::capture_reported(s, CaptureEventView::ClipboardReceived(t), current),
                new,
            )
        }),
{
    let new = if s.clipboard {
        seq![EffectView::SetClipboard(t)]
    } else {
        Seq::empty()
    };
    let a = model::emulation_reported(s, EmulationEventView::ClipboardReceived(t));
    let b = model::capture_reported(s, CaptureEventView::ClipboardReceived(t), current);
    assert(a.effects =~= s.effects + new);
    assert(b.effects =~= s.effects + new);
}

/// A device without authorization that tries to connect is reported. It is authorized exactly
/// where this device is discoverable; the others who are authorized stay so.
pub proof fn law_connection_attempt(s: ServiceView, fingerprint: Seq<char>)
    ensures
        ({
            let t = model::emulation_reported(
                s,
                EmulationEventView::ConnectionAttempt { fingerprint },
            );
            let told = tell(FrontendEventView::ConnectionAttempt { fingerprint });
            let keys = s.authorized.insert(fingerprint, "discovered-peer"@);
            &&& s.discovery == Some(true) ==> {
                &&& t.authorized == keys
                &&& t == ServiceView { authorized: keys, effects: t.effects, ..s }
                &&& t.effects.len() == s.effects.len() + 3
                &&& t.effects.take(s.effects.len() as int) == s.effects
                &&& t.effects[s.effects.len() as int] == tell(
                    FrontendEventView::AuthorizedUpdated(keys),
                )
                &&& t.effects[(s.effects.len() + 1) as int] matches EffectView::SaveConfig(_, saved)
                    && saved == keys
                &&& t.effects.last() == told
            }
            &&& s.discovery != Some(true) ==> only_adds(s, t, seq![told])
        }),
{
    reveal(model::key_added);
    reveal(model::config_saved);
    let t = model::emulation_reported(s, EmulationEventView::ConnectionAttempt { fingerprint });
    let told = tell(FrontendEventView::ConnectionAttempt { fingerprint });
    if s.discovery != Some(true) {
        assert(t.effects =~= s.effects + seq![told]);
    } else {
        assert(t.effects.take(s.effects.len() as int) =~= s.effects);
    }
}

/// What is known of a device that has entered.
pub open spec fn entered_as(
    s: ServiceView,
    addr: SocketAddr,
    pos: Position,
    fingerprint: Seq<char>,
) -> IncomingView {
    IncomingView {
        handle: (ENTER_HANDLE_BEGIN + s.next_trigger_handle) as u64,
        fingerprint,
        addr,
        pos,
    }
}

/// A device that enters and is not known gets a barrier of its own at its side, under a handle
/// that was not used before, is remembered, and is reported.
pub proof fn law_new_device_enters(
    s: ServiceView,
    addr: SocketAddr,
    pos: Position,
    fingerprint: Seq<char>,
)
    requires
        forall|i: int| 0 <= i < s.incoming.len() ==> (#[trigger] s.incoming[i]).addr != addr,
    ensures
        ({
            let t = model::emulation_reported(
                s,
                EmulationEventView::Entered { addr, pos, fingerprint },
            );
            let d = entered_as(s, addr, pos, fingerprint);
            &&& t == ServiceView {
                incoming: s.incoming.push(d),
                next_trigger_handle: (s.next_trigger_handle + 1) as u64,
                effects: t.effects,
                ..s
            }
            &&& t.effects == s.effects + seq![
                EffectView::CaptureCreate(d.handle, pos, CaptureType::EnterOnly),
                tell(FrontendEventView::DeviceEntered { fingerprint, addr, pos }),
            ]
        }),
{
    let t = model::emulation_reported(s, EmulationEventView::Entered { addr, pos, fingerprint });
    let d = entered_as(s, addr, pos, fingerprint);
    let p = model::incoming_at(addr);
    assert forall|j: int| 0 <= j < s.incoming.len() implies !p(#[trigger] s.incoming[j]) by {}
    collections::lemma_first_none(s.incoming, p);
    assert(t.effects =~= s.effects + seq![
        EffectView::CaptureCreate(d.handle, pos, CaptureType::EnterOnly),
        tell(FrontendEventView::DeviceEntered { fingerprint, addr, pos }),
    ]);
}

/// A known device that enters again as before changes nothing. One that enters at another side or
/// with another fingerprint loses its old barrier, gets a new one at the new side, and both is
/// reported.
pub proof fn law_known_device_enters(
    s: ServiceView,
    i: int,
    pos: Position,
    fingerprint: Seq<char>,
)
    requires
        0 <= i < s.incoming.len(),
        forall|j: int|
            0 <= j < i ==> (#[trigger] s.incoming[j]).addr != s.incoming[i].addr,
    ensures
        ({
            let addr = s.incoming[i].addr;
            let t = model::emulation_reported(
                s,
                EmulationEventView::Entered { addr, pos, fingerprint },
            );
            let d = entered_as(s, addr, pos, fingerprint);
            &&& s.incoming[i].pos == pos && s.incoming[i].fingerprint == fingerprint ==> t == s
            &&& !(s.incoming[i].pos == pos && s.incoming[i].fingerprint == fingerprint) ==> {
                &&& t == ServiceView {
                    incoming: s.incoming.remove(i).push(d),
                    next_trigger_handle: (s.next_trigger_handle + 1) as u64,
                    effects: t.effects,
                    ..s
                }
                &&& t.effects == s.effects + seq![
                    EffectView::CaptureDestroy(s.incoming[i].handle),
                    EffectView::CaptureCreate(d.handle, pos, CaptureType::EnterOnly),
                    tell(FrontendEventView::IncomingDisconnected(addr)),
                    tell(FrontendEventView::DeviceEntered { fingerprint, addr, pos }),
                ]
            }
        }),
{
    let addr = s.incoming[i].addr;
    let p = model::incoming_at(addr);
    assert forall|j: int| 0 <= j < i implies !p(#[trigger] s.incoming[j]) by {}
    collections::lemma_first_at(s.incoming, p, i);
    collections::lemma_index_at(s.incoming, p, i);
    let t = model::emulation_reported(s, EmulationEventView::Entered { addr, pos, fingerprint });
    let d = entered_as(s, addr, pos, fingerprint);
    if !(s.incoming[i].pos == pos && s.incoming[i].fingerprint == fingerprint) {
        assert(t.effects =~= s.effects + seq![
            EffectView::CaptureDestroy(s.incoming[i].handle),
            EffectView::CaptureCreate(d.handle, pos, CaptureType::EnterOnly),
            tell(FrontendEventView::IncomingDisconnected(addr)),
            tell(FrontendEventView::DeviceEntered { fingerprint, addr, pos }),
        ]);
    }
}

/// A known device that disconnects is forgotten, loses its barrier, and is reported; all others
/// stay. An unknown one changes nothing.
pub proof fn law_device_disconnects(s: ServiceView, i: int, unknown: SocketAddr)
    requires
        forall|j: int| 0 <= j < s.incoming.len() ==> (#[trigger] s.incoming[j]).addr != unknown,
        0 <= i < s.incoming.len() ==> forall|j: int|
            0 <= j < i ==> (#[trigger] s.incoming[j]).addr != s.incoming[i].addr,
    ensures
        model::emulation_reported(s, EmulationEventView::Disconnected { addr: unknown }) == s,
        0 <= i < s.incoming.len() ==> ({
            let addr = s.incoming[i].addr;
            let t = model::emulation_reported(s, EmulationEventView::Disconnected { addr });
            &&& t == ServiceView { incoming: s.incoming.remove(i), effects: t.effects, ..s }
            &&& t.effects == s.effects + seq![
                EffectView::CaptureDestroy(s.incoming[i].handle),
                tell(FrontendEventView::IncomingDisconnected(addr)),
            ]
        }),
{
    let q = model::incoming_at(unknown);
    assert forall|j: int| 0 <= j < s.incoming.len() implies !q(#[trigger] s.incoming[j]) by {}
    collections::lemma_first_none(s.incoming, q);
    if 0 <= i < s.incoming.len() {
        let addr = s.incoming[i].addr;
        let p = model::incoming_at(addr);
        assert forall|j: int| 0 <= j < i implies !p(#[trigger] s.incoming[j]) by {}
        collections::lemma_first_at(s.incoming, p, i);
        collections::lemma_index_at(s.incoming, p, i);
        let t = model::emulation_reported(s, EmulationEventView::Disconnected { addr });
        assert(t.effects =~= s.effects + seq![
            EffectView::CaptureDestroy(s.incoming[i].handle),
            tell(FrontendEventView::IncomingDisconnected(addr)),
        ]);
    }
}

// ----- capture --------------------------------------------------------------

/// The frontends learn whether capture runs, and the service remembers it.
pub proof fn law_capture_status_told(s: ServiceView, on: bool, current: Seq<char>)
    ensures
        ({
            let e = if on {
                CaptureEventView::CaptureEnabled
            } else {
                CaptureEventView::CaptureDisabled
            };
            let status = if on {
                Status::Enabled
            } else {
                Status::Disabled
            };
            only_adds(
                ServiceView { capture_status: status, ..s },
                model::capture_reported(s, e, current),
                seq![tell(FrontendEventView::CaptureStatus(status))],
            )
        }),
{
    let e = if on {
        CaptureEventView::CaptureEnabled
    } else {
        CaptureEventView::CaptureDisabled
    };
    let status = if on {
        Status::Enabled
    } else {
        Status::Disabled
    };
    let t = model::capture_reported(s, e, current);
    assert(t.effects =~= s.effects + seq![tell(FrontendEventView::CaptureStatus(status))]);
}

/// When input is captured at the barrier of a device that controls this one, that device is told
/// that it has left; at any other barrier nothing of the kind happens.
pub proof fn law_capture_makes_leave(s: ServiceView, h: ClientHandle, i: int, current: Seq<char>)
    ensures
        0 <= i < s.incoming.len() && s.incoming[i].handle == h && (forall|j: int|
            0 <= j < i ==> (#[trigger] s.incoming[j]).handle != h) ==> only_adds(
            s,
            model::capture_reported(s, CaptureEventView::CaptureBegin(h), current),
            seq![EffectView::SendLeave(s.incoming[i].addr)],
        ),
        (forall|j: int| 0 <= j < s.incoming.len() ==> (#[trigger] s.incoming[j]).handle != h)
            ==> model::capture_reported(s, CaptureEventView::CaptureBegin(h), current) == s,
{
    let p = model::incoming_with(h);
    let t = model::capture_reported(s, CaptureEventView::CaptureBegin(h), current);
    if 0 <= i < s.incoming.len() && s.incoming[i].handle == h && (forall|j: int|
        0 <= j < i ==> (#[trigger] s.incoming[j]).handle != h) {
        assert forall|j: int| 0 <= j < i implies !p(#[trigger] s.incoming[j]) by {}
        collections::lemma_first_at(s.incoming, p, i);
        assert(t.effects =~= s.effects + seq![EffectView::SendLeave(s.incoming[i].addr)]);
    }
    if forall|j: int| 0 <= j < s.incoming.len() ==> (#[trigger] s.incoming[j]).handle != h {
        assert forall|j: int| 0 <= j < s.incoming.len() implies !p(#[trigger] s.incoming[j]) by {}
        collections::lemma_first_none(s.incoming, p);
    }
}

/// A text as it goes over the wire: a marker, the number of its bytes from the highest byte to the
/// lowest, and the bytes.
pub open spec fn inline_message(t: Seq<char>) -> Seq<u8> {
    let n = encode_utf8(t).len() as int;
    seq![
        0xFFu8,
        ((n / 0x100_0000) % 256) as u8,
        ((n / 0x1_0000) % 256) as u8,
        ((n / 0x100) % 256) as u8,
        (n % 256) as u8,
    ] + encode_utf8(t)
}

pub proof fn lemma_message(t: Seq<char>)
    requires
        encode_utf8(t).len() < 0x1_0000_0000,
    ensures
        clipboard::clipboard_msg(t) == inline_message(t),
{
    assert(clipboard::clipboard_msg(t) =~= inline_message(t));
}

/// What a device gets of a text is what was copied: the message on the wire is read back as the
/// text.
pub proof fn law_message_is_read_back(t: Seq<char>)
    requires
        encode_utf8(t).len() < 0x1_0000_0000,
    ensures
        clipboard::clipboard_text(inline_message(t)) == Some(t),
{
    lemma_message(t);
    clipboard::law_decode_inverts_encode(t, Seq::empty());
    assert(clipboard::clipboard_msg(t) + Seq::<u8>::empty() =~= clipboard::clipboard_msg(t));
}

/// A client that is entered has its hook run, where it has one, and gets the text on the
/// clipboard, where that is not empty and fits the inline cap; nothing else happens.
pub proof fn law_client_entered(s: ServiceView, i: int, current: Seq<char>)
    requires
        0 <= i < s.clients.len(),
        forall|j: int|
            0 <= j < i ==> (#[trigger] s.clients[j]).handle != s.clients[i].handle,
    ensures
        only_adds(
            s,
            model::capture_reported(
                s,
                CaptureEventView::ClientEntered(s.clients[i].handle),
                current,
            ),
            (match s.clients[i].config.cmd {
                Some(cmd) => seq![EffectView::SpawnHook(cmd)],
                None => Seq::empty(),
            }) + (if s.clipboard && 0 < encode_utf8(current).len() <= 65536 {
                seq![EffectView::SendClipboardToClients(inline_message(current))]
            } else {
                Seq::empty()
            }),
        ),
{
    let c = s.clients[i];
    let p = client::with_handle(c.handle);
    assert forall|j: int| 0 <= j < i implies !p(#[trigger] s.clients[j]) by {}
    collections::lemma_first_at(s.clients, p, i);
    let t = model::capture_reported(s, CaptureEventView::ClientEntered(c.handle), current);
    let hook = match c.config.cmd {
        Some(cmd) => seq![EffectView::SpawnHook(cmd)],
        None => Seq::empty(),
    };
    if encode_utf8(current).len() <= 65536 {
        lemma_message(current);
    }
    let new = hook + (if s.clipboard && 0 < encode_utf8(current).len() <= 65536 {
        seq![EffectView::SendClipboardToClients(inline_message(current))]
    } else {
        Seq::empty()
    });
    assert(t.effects =~= s.effects + new);
}

// ----- clipboard ------------------------------------------------------------

/// A text that is copied goes to every connected device, of either kind: to those that control
/// this one and to those that it controls, and both get the text that was copied.
pub proof fn law_copied_text_is_shared(s: ServiceView, t: Seq<char>)
    requires
        encode_utf8(t).len() <= 65536,
    ensures
        only_adds(
            s,
            model::clipboard_changed(s, ClipboardChangeView::Text(t)),
            seq![
                EffectView::SendClipboardToControllers(inline_message(t)),
                EffectView::SendClipboardToClients(inline_message(t)),
            ],
        ),
        clipboard::clipboard_text(inline_message(t)) == Some(t),
{
    lemma_message(t);
    law_message_is_read_back(t);
    let u = model::clipboard_changed(s, ClipboardChangeView::Text(t));
    assert(u.effects =~= s.effects + seq![
        EffectView::SendClipboardToControllers(inline_message(t)),
        EffectView::SendClipboardToClients(inline_message(t)),
    ]);
}

/// The handle that a prompt is shown for: that of the first active client, 0 where there is none.
pub open spec fn prompted_for(s: ServiceView, h: ClientHandle) -> bool {
    ||| exists|i: int|
        {
            &&& 0 <= i < s.clients.len()
            &&& (#[trigger] s.clients[i]).state.active
            &&& s.clients[i].handle == h
            &&& forall|j: int| 0 <= j < i ==> !(#[trigger] s.clients[j]).state.active
        }
    ||| h == 0 && forall|j: int|
        0 <= j < s.clients.len() ==> !(#[trigger] s.clients[j]).state.active
}

proof fn lemma_prompted_for(s: ServiceView)
    ensures
        prompted_for(s, model::active_handle(s)),
{
    let p = client::active_client();
    let i = collections::lemma_first_index(s.clients, p);
    if i < s.clients.len() {
        assert(s.clients[i].state.active);
    }
    assert forall|j: int| 0 <= j < i implies !(#[trigger] s.clients[j]).state.active by {
        assert(!p(s.clients[j]));
    }
}

/// An oversize text is kept until the user decides, and the user is asked: with its size, its
/// first characters, and the client that it would go to. Nothing is sent.
pub proof fn law_oversize_text_is_asked_about(s: ServiceView, content: Seq<char>)
    ensures
        ({
            let t = model::clipboard_changed(s, ClipboardChangeView::OversizeText { content });
            let preview = if content.len() <= 120 {
                content
            } else {
                content.take(120)
            };
            exists|h: ClientHandle|
                #[trigger] prompted_for(s, h) && only_adds(
                    ServiceView { overflow: Some(content), ..s },
                    t,
                    seq![
                        tell(
                            FrontendEventView::ClipboardOverflow {
                                client: h,
                                bytes: encode_utf8(content).len() as u64,
                                preview,
                            },
                        ),
                    ],
                )
        }),
{
    let t = model::clipboard_changed(s, ClipboardChangeView::OversizeText { content });
    let preview = if content.len() <= 120 {
        content
    } else {
        content.take(120)
    };
    let h = model::active_handle(s);
    lemma_prompted_for(s);
    let new = seq![
        tell(
            FrontendEventView::ClipboardOverflow {
                client: h,
                bytes: encode_utf8(content).len() as u64,
                preview,
            },
        ),
    ];
    assert(t.effects =~= s.effects + new);
    assert(only_adds(ServiceView { overflow: Some(content), ..s }, t, new));
}

/// An image on the clipboard is kept until the user decides, and the user is asked. Nothing is
/// sent.
pub proof fn law_image_is_asked_about(s: ServiceView, png: Seq<u8>, width: u32, height: u32)
    ensures
        ({
            let t = model::clipboard_changed(
                s,
                ClipboardChangeView::ImagePng { png, width, height },
            );
            exists|h: ClientHandle|
                #[trigger] prompted_for(s, h) && only_adds(
                    ServiceView { image: Some(png), ..s },
                    t,
                    seq![
                        tell(
                            FrontendEventView::ClipboardImageDetected {
                                client: h,
                                bytes: png.len() as u64,
                                width,
                                height,
                            },
                        ),
                    ],
                )
        }),
{
    let t = model::clipboard_changed(s, ClipboardChangeView::ImagePng { png, width, height });
    let h = model::active_handle(s);
    lemma_prompted_for(s);
    let new = seq![
        tell(
            FrontendEventView::ClipboardImageDetected {
                client: h,
                bytes: png.len() as u64,
                width,
                height,
            },
        ),
    ];
    assert(t.effects =~= s.effects + new);
    assert(only_adds(ServiceView { image: Some(png), ..s }, t, new));
}

// ----- targets --------------------------------------------------------------

/// The address that a client is reached at: its active one, else its first one with no port.
pub open spec fn reached_at(c: ClientView) -> Option<SocketAddr> {
    if c.state.active_addr is Some {
        c.state.active_addr
    } else if c.state.ips.len() > 0 {
        Some(SocketAddr { ip: c.state.ips[0], port: 0, flowinfo: 0, scope_id: 0 })
    } else {
        None
    }
}

/// Whether a transfer to an IP address is possible with a fingerprint: the first device that
/// connected from there has shown it.
pub open spec fn shown_from(s: ServiceView, ip: IpAddr, fingerprint: Seq<char>) -> bool {
    exists|k: int|
        {
            &&& 0 <= k < s.incoming.len()
            &&& (#[trigger] s.incoming[k]).addr.ip == ip
            &&& s.incoming[k].fingerprint == fingerprint
            &&& forall|j: int| 0 <= j < k ==> (#[trigger] s.incoming[j]).addr.ip != ip
        }
}

/// The address of an IP on the file-transfer port.
pub open spec fn transfer_addr(s: ServiceView, ip: IpAddr) -> SocketAddr {
    SocketAddr { ip, port: s.file_transfer_port, flowinfo: 0, scope_id: 0 }
}

/// A transfer to a known address goes to the file-transfer port there, under the fingerprint that
/// the first device from there has shown; without such a device there is none.
pub proof fn law_transfer_target(s: ServiceView, a: SocketAddr, fingerprint: Seq<char>)
    ensures
        shown_from(s, a.ip, fingerprint) ==> model::transfer_target(s, Some(a)) == Some(
            (transfer_addr(s, a.ip), fingerprint),
        ),
        (forall|j: int| 0 <= j < s.incoming.len() ==> (#[trigger] s.incoming[j]).addr.ip != a.ip)
            ==> model::transfer_target(s, Some(a)) is None,
        model::transfer_target(s, None) is None,
{
    let p = model::incoming_from(a.ip);
    if shown_from(s, a.ip, fingerprint) {
        let k = choose|k: int|
            {
                &&& 0 <= k < s.incoming.len()
                &&& (#[trigger] s.incoming[k]).addr.ip == a.ip
                &&& s.incoming[k].fingerprint == fingerprint
                &&& forall|j: int| 0 <= j < k ==> (#[trigger] s.incoming[j]).addr.ip != a.ip
            };
        assert forall|j: int| 0 <= j < k implies !p(#[trigger] s.incoming[j]) by {}
        collections::lemma_first_at(s.incoming, p, k);
    }
    if forall|j: int| 0 <= j < s.incoming.len() ==> (#[trigger] s.incoming[j]).addr.ip != a.ip {
        assert forall|j: int| 0 <= j < s.incoming.len() implies !p(#[trigger] s.incoming[j]) by {}
        collections::lemma_first_none(s.incoming, p);
    }
}

/// The commands that send paths to one place, one for each, in order.
pub open spec fn send_each(
    target: SocketAddr,
    fingerprint: Seq<char>,
    paths: Seq<Seq<char>>,
) -> Seq<EffectView> {
    Seq::new(
        paths.len(),
        |k: int|
            EffectView::Transfer(
                CommandView::SendPath {
                    target_addr: target,
                    target_fingerprint: fingerprint,
                    root: paths[k],
                },
            ),
    )
}

pub proof fn lemma_paths_sent(
    s: ServiceView,
    target: (SocketAddr, Seq<char>),
    paths: Seq<Seq<char>>,
    n: nat,
)
    requires
        n <= paths.len(),
    ensures
        only_adds(
            s,
            model::paths_sent(s, target, paths, n),
            send_each(target.0, target.1, paths.take(n as int)),
        ),
    decreases n,
{
    let t = model::paths_sent(s, target, paths, n);
    if n > 0 {
        lemma_paths_sent(s, target, paths, (n - 1) as nat);
        assert(t.effects =~= s.effects + send_each(target.0, target.1, paths.take(n as int)));
    } else {
        assert(t.effects =~= s.effects + send_each(target.0, target.1, paths.take(0)));
    }
}

/// Whether the client at a position of the table stands at an edge and is active.
pub open spec fn stands_at(clients: Seq<ClientView>, i: int, pos: Position) -> bool {
    0 <= i < clients.len() && clients[i].state.active && clients[i].config.pos == pos
}

proof fn lemma_edge_connected(
    clients: Seq<ClientView>,
    pos: Position,
    found: Option<SocketAddr>,
    i: int,
)
    requires
        stands_at(clients, i, pos),
        clients[i].state.active_addr is Some,
        forall|j: int|
            0 <= j < i && stands_at(clients, j, pos) ==> (
            #[trigger] clients[j]).state.active_addr is None,
    ensures
        model::edge_address(clients, pos, found) == clients[i].state.active_addr,
    decreases clients.len(),
{
    let rest = clients.skip(1);
    let c = clients[0];
    if i > 0 {
        assert(rest[i - 1] == clients[i]);
        assert forall|j: int| 0 <= j < i - 1 && stands_at(rest, j, pos) implies (
        #[trigger] rest[j]).state.active_addr is None by {
            assert(rest[j] == clients[j + 1]);
            assert(stands_at(clients, j + 1, pos));
        }
        if stands_at(clients, 0, pos) {
            assert(clients[0].state.active_addr is None);
        }
        let next = if c.config.pos == pos && c.state.active && c.state.active_addr is None
            && c.state.ips.len() > 0 {
            Some(crate::net::addr_at(c.state.ips[0], c.config.port))
        } else {
            found
        };
        lemma_edge_connected(rest, pos, next, i - 1);
    }
}

proof fn lemma_edge_unconnected(
    clients: Seq<ClientView>,
    pos: Position,
    found: Option<SocketAddr>,
    i: int,
)
    requires
        stands_at(clients, i, pos),
        clients[i].state.ips.len() > 0,
        forall|j: int|
            0 <= j < clients.len() && stands_at(clients, j, pos) ==> (
            #[trigger] clients[j]).state.active_addr is None,
        forall|j: int|
            i < j < clients.len() && stands_at(clients, j, pos) ==> (
            #[trigger] clients[j]).state.ips.len() == 0,
    ensures
        model::edge_address(clients, pos, found) == Some(
            SocketAddr {
                ip: clients[i].state.ips[0],
                port: clients[i].config.port,
                flowinfo: 0,
                scope_id: 0,
            },
        ),
    decreases clients.len(),
{
    let rest = clients.skip(1);
    let c = clients[0];
    assert forall|j: int| 0 <= j < rest.len() && stands_at(rest, j, pos) implies (
    #[trigger] rest[j]).state.active_addr is None && (j > i - 1 ==> rest[j].state.ips.len()
        == 0) by {
        assert(rest[j] == clients[j + 1]);
        assert(stands_at(clients, j + 1, pos));
    }
    if stands_at(clients, 0, pos) {
        assert(clients[0].state.active_addr is None);
    }
    let next = if c.config.pos == pos && c.state.active && c.state.ips.len() > 0 {
        Some(crate::net::addr_at(c.state.ips[0], c.config.port))
    } else {
        found
    };
    if i > 0 {
        assert(rest[i - 1] == clients[i]);
        lemma_edge_unconnected(rest, pos, next, i - 1);
    } else {
        lemma_edge_nobody(rest, pos, next);
    }
}

proof fn lemma_edge_nobody(clients: Seq<ClientView>, pos: Position, found: Option<SocketAddr>)
    requires
        forall|j: int|
            0 <= j < clients.len() && stands_at(clients, j, pos) ==> (
            #[trigger] clients[j]).state.active_addr is None && clients[j].state.ips.len() == 0,
    ensures
        model::edge_address(clients, pos, found) == found,
    decreases clients.len(),
{
    if clients.len() > 0 {
        let rest = clients.skip(1);
        assert forall|j: int| 0 <= j < rest.len() && stands_at(rest, j, pos) implies (
        #[trigger] rest[j]).state.active_addr is None && rest[j].state.ips.len() == 0 by {
            assert(rest[j] == clients[j + 1]);
            assert(stands_at(clients, j + 1, pos));
        }
        if stands_at(clients, 0, pos) {
            assert(clients[0].state.active_addr is None);
        }
        lemma_edge_nobody(rest, pos, found);
    }
}

/// Paths that are dropped at an edge are sent to the client there: to the first active client at
/// that edge that is connected, at its active address on the file-transfer port, under the
/// fingerprint known from there; one command for each path, in order.
pub proof fn law_drop_reaches_connected_client(
    s: ServiceView,
    pos: Position,
    i: int,
    fingerprint: Seq<char>,
    paths: Seq<Seq<char>>,
)
    requires
        stands_at(s.clients, i, pos),
        s.clients[i].state.active_addr is Some,
        forall|j: int|
            0 <= j < i && stands_at(s.clients, j, pos) ==> (
            #[trigger] s.clients[j]).state.active_addr is None,
        shown_from(s, s.clients[i].state.active_addr->0.ip, fingerprint),
        s.file_transfer,
    ensures
        ({
            let ip = s.clients[i].state.active_addr->0.ip;
            let sent = send_each(transfer_addr(s, ip), fingerprint, paths);
            &&& model::drop_target(s, pos) == Some((transfer_addr(s, ip), fingerprint))
            &&& sent.len() == paths.len()
            &&& only_adds(
                s,
                model::drop_event_taken(
                    s,
                    FileDropEventView::Dropped { position: pos, paths },
                ),
                sent,
            )
            &&& only_adds(
                s,
                model::drop_event_taken(
                    s,
                    FileDropEventView::DragEndedEarly { position: pos, paths },
                ),
                sent,
            )
        }),
{
    lemma_edge_connected(s.clients, pos, None, i);
    let a = s.clients[i].state.active_addr->0;
    law_transfer_target(s, a, fingerprint);
    let target = (transfer_addr(s, a.ip), fingerprint);
    lemma_paths_sent(s, target, paths, paths.len());
    assert(paths.take(paths.len() as int) =~= paths);
    if paths.len() == 0 {
        assert(s.effects =~= s.effects + send_each(target.0, target.1, paths));
    }
}

/// Where nobody at an edge is connected, what is dropped there goes to the first address of the
/// last active client there that has one.
pub proof fn law_drop_reaches_known_client(
    s: ServiceView,
    pos: Position,
    i: int,
    fingerprint: Seq<char>,
    paths: Seq<Seq<char>>,
)
    requires
        stands_at(s.clients, i, pos),
        s.clients[i].state.ips.len() > 0,
        forall|j: int|
            0 <= j < s.clients.len() && stands_at(s.clients, j, pos) ==> (
            #[trigger] s.clients[j]).state.active_addr is None,
        forall|j: int|
            i < j < s.clients.len() && stands_at(s.clients, j, pos) ==> (
            #[trigger] s.clients[j]).state.ips.len() == 0,
        shown_from(s, s.clients[i].state.ips[0], fingerprint),
        s.file_transfer,
    ensures
        ({
            let to = transfer_addr(s, s.clients[i].state.ips[0]);
            &&& model::drop_target(s, pos) == Some((to, fingerprint))
            &&& only_adds(
                s,
                model::drop_event_taken(
                    s,
                    FileDropEventView::Dropped { position: pos, paths },
                ),
                send_each(to, fingerprint, paths),
            )
        }),
{
    lemma_edge_unconnected(s.clients, pos, None, i);
    let ip = s.clients[i].state.ips[0];
    let a = SocketAddr { ip, port: s.clients[i].config.port, flowinfo: 0, scope_id: 0 };
    law_transfer_target(s, a, fingerprint);
    let target = (transfer_addr(s, ip), fingerprint);
    lemma_paths_sent(s, target, paths, paths.len());
    assert(paths.take(paths.len() as int) =~= paths);
    if paths.len() == 0 {
        assert(s.effects =~= s.effects + send_each(target.0, target.1, paths));
    }
}

/// A drop sends nothing where nobody stands at the edge, where the peer's fingerprint is not known,
/// or where the file-transfer service does not run.
pub proof fn law_drop_without_target(s: ServiceView, pos: Position, paths: Seq<Seq<char>>)
    requires
        !s.file_transfer || s.incoming.len() == 0 || (forall|j: int|
            0 <= j < s.clients.len() ==> !stands_at(s.clients, j, pos)),
    ensures
        model::drop_event_taken(s, FileDropEventView::Dropped { position: pos, paths }) == s,
        model::drop_event_taken(s, FileDropEventView::DragEndedEarly { position: pos, paths })
            == s,
{
    if forall|j: int| 0 <= j < s.clients.len() ==> !stands_at(s.clients, j, pos) {
        assert forall|j: int|
            0 <= j < s.clients.len() && stands_at(s.clients, j, pos) implies (
        #[trigger] s.clients[j]).state.active_addr is None && s.clients[j].state.ips.len()
            == 0 by {}
        lemma_edge_nobody(s.clients, pos, None);
    }
    if s.incoming.len() == 0 {
        match model::edge_address(s.clients, pos, None) {
            Some(a) => law_transfer_target(s, a, Seq::empty()),
            None => {},
        }
    }
}

} // verus!

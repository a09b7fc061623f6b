//! What is sent of a tree, said by the nodes of the tree and by the bytes of its files, and what
//! either side does at each step.
use crate::file_transfer::outgoing::{
    SendActionView, SendErrorView, SendInputView, SendPhase, SendView,
};
use crate::file_transfer::receiver::{
    Phase, RecvActionView, RecvErrorView, RecvInputView, RecvOutcomeView, RecvView,
};
use crate::file_transfer::sender::{EntrySenderView, FsNode, LocalEntryView};
use crate::file_transfer::wire::{EntryKind, FileCtrlView, FileFrameView, ProtocolErrorView};
use crate::file_transfer::{codec, outgoing, paths, receiver, sender};
use crate::file_transfer::{DecisionView, EventView};
use vstd::prelude::*;

verus! {

// ----- paths of a tree ------------------------------------------------------

/// A name is put below a directory by a slash between the two, unless the directory already ends
/// in one or is empty; the joined path ends in the name, and a rooted name stands for itself.
pub proof fn law_join(base: Seq<char>, name: Seq<char>)
    ensures
        name.len() > 0 && name[0] == '/' ==> paths::joined(base, name) == name,
        (name.len() == 0 || name[0] != '/') && base.len() > 0 && base.last() != '/'
            ==> paths::joined(base, name) == base.push('/') + name,
        (name.len() == 0 || name[0] != '/') && (base.len() == 0 || base.last() == '/')
            ==> paths::joined(base, name) == base + name,
{
    assert(base + seq!['/'] =~= base.push('/'));
}

// ----- the nodes of a tree --------------------------------------------------

/// The node that a path of child positions leads to.
pub open spec fn found_at(node: FsNode, path: Seq<int>) -> Option<FsNode>
    decreases path.len(),
{
    if path.len() == 0 {
        Some(node)
    } else {
        match node {
            FsNode::Dir { name: _, mode: _, children } => if 0 <= path[0] < children@.len() {
                found_at(children@[path[0]], path.skip(1))
            } else {
                None
            },
            _ => None,
        }
    }
}

/// A base path extended by the names of the nodes along a path of child positions.
pub open spec fn named_along(node: FsNode, path: Seq<int>, base: Seq<char>) -> Seq<char>
    decreases path.len(),
{
    if path.len() == 0 {
        base
    } else {
        match node {
            FsNode::Dir { name: _, mode: _, children } => {
                let child = children@[path[0]];
                let name = match child {
                    FsNode::File { name, .. } => name@,
                    FsNode::Dir { name, .. } => name@,
                    FsNode::Other => Seq::empty(),
                };
                named_along(child, path.skip(1), paths::joined(base, name))
            },
            _ => base,
        }
    }
}

/// The number of files and directories of a tree.
pub open spec fn node_count(node: FsNode) -> nat
    decreases node, 1nat, 0nat,
{
    match node {
        FsNode::File { .. } => 1,
        FsNode::Dir { name: _, mode: _, children } => 1 + count_before(node, children@.len()),
        FsNode::Other => 0,
    }
}

/// The number of files and directories in the first `k` children of a directory.
pub open spec fn count_before(node: FsNode, k: nat) -> nat
    decreases node, 0nat, k,
{
    match node {
        FsNode::Dir { name: _, mode: _, children } => if k == 0 || k > children@.len() {
            0
        } else {
            count_before(node, (k - 1) as nat) + node_count(children@[k - 1])
        },
        _ => 0,
    }
}

/// The number of files and directories that come before a node when each directory comes before
/// what it holds, and its children come in order.
pub open spec fn count_ahead(node: FsNode, path: Seq<int>) -> nat
    decreases path.len(),
{
    if path.len() == 0 {
        0
    } else {
        match node {
            FsNode::Dir { name: _, mode: _, children } => 1 + count_before(node, path[0] as nat)
                + count_ahead(children@[path[0]], path.skip(1)),
            _ => 0,
        }
    }
}

proof fn lemma_count(node: FsNode, abs: Seq<char>, rel: Seq<char>)
    ensures
        sender::walked(node, abs, rel).len() == node_count(node),
    decreases node, 1nat, 0nat,
{
    match node {
        FsNode::Dir { name: _, mode: _, children } => {
            lemma_count_children(node, children@.len(), abs, rel);
        },
        _ => {},
    }
}

proof fn lemma_count_children(node: FsNode, k: nat, abs: Seq<char>, rel: Seq<char>)
    ensures
        sender::walked_children(node, k, abs, rel).len() == count_before(node, k),
    decreases node, 0nat, k,
{
    match node {
        FsNode::Dir { name: _, mode: _, children } => {
            if 0 < k <= children@.len() {
                let child = children@[k - 1];
                lemma_count_children(node, (k - 1) as nat, abs, rel);
                lemma_count(
                    child,
                    paths::joined(abs, sender::node_name(child)),
                    paths::joined(rel, sender::node_name(child)),
                );
            }
        },
        _ => {},
    }
}

/// The entries of a child stand among those of its directory behind those of its elder siblings.
proof fn lemma_child_at(node: FsNode, c: int, k: nat, j: int, abs: Seq<char>, rel: Seq<char>)
    requires
        node matches FsNode::Dir { name: _, mode: _, children } && 0 <= c < k
            <= children@.len() && 0 <= j < node_count(children@[c]),
    ensures
        ({
            let child = node->children@[c];
            let at = count_before(node, c as nat) + j;
            &&& at < count_before(node, k)
            &&& sender::walked_children(node, k, abs, rel)[at as int] == sender::walked(
                child,
                paths::joined(abs, sender::node_name(child)),
                paths::joined(rel, sender::node_name(child)),
            )[j]
        }),
    decreases k,
{
    lemma_count_children(node, (k - 1) as nat, abs, rel);
    if c < k - 1 {
        lemma_child_at(node, c, (k - 1) as nat, j, abs, rel);
    } else {
        let child = node->children@[c];
        lemma_count(
            child,
            paths::joined(abs, sender::node_name(child)),
            paths::joined(rel, sender::node_name(child)),
        );
    }
}

/// Every file and every directory of a tree is among the entries that are sent, hidden ones too:
/// at the place that its position in the tree gives it, under the path of the names that lead to
/// it, with its own size, mode and kind.
pub proof fn law_every_node_is_listed(
    node: FsNode,
    path: Seq<int>,
    abs: Seq<char>,
    rel: Seq<char>,
)
    requires
        found_at(node, path) is Some,
        !(found_at(node, path)->0 is Other),
    ensures
        ({
            let at = count_ahead(node, path) as int;
            let entries = sender::walked(node, abs, rel);
            &&& at < entries.len()
            &&& entries[at] == match found_at(node, path)->0 {
                FsNode::File { name: _, size, mode } => LocalEntryView {
                    rel_path: named_along(node, path, rel),
                    absolute: named_along(node, path, abs),
                    size,
                    mode,
                    is_dir: false,
                },
                FsNode::Dir { name: _, mode, children: _ } => LocalEntryView {
                    rel_path: named_along(node, path, rel),
                    absolute: named_along(node, path, abs),
                    size: 0,
                    mode,
                    is_dir: true,
                },
                FsNode::Other => entries[at],
            }
        }),
    decreases path.len(),
{
    lemma_count(node, abs, rel);
    if path.len() > 0 {
        let children = node->children;
        let child = children@[path[0]];
        let child_abs = paths::joined(abs, sender::node_name(child));
        let child_rel = paths::joined(rel, sender::node_name(child));
        law_every_node_is_listed(child, path.skip(1), child_abs, child_rel);
        lemma_count(child, child_abs, child_rel);
        let j = count_ahead(child, path.skip(1)) as int;
        lemma_child_at(node, path[0], children@.len(), j, abs, rel);
        let at = count_before(node, path[0] as nat) + j;
        assert(sender::walked(node, abs, rel)[1 + at] == sender::walked_children(
            node,
            children@.len(),
            abs,
            rel,
        )[at]);
    }
}

/// Nothing else is sent: there are as many entries as the tree has files and directories.
pub proof fn law_nothing_else_is_listed(node: FsNode, abs: Seq<char>, rel: Seq<char>)
    ensures
        sender::walked(node, abs, rel).len() == node_count(node),
{
    lemma_count(node, abs, rel);
}

// ----- the offer ------------------------------------------------------------

/// The size that is offered is that of all entries together: an entry more adds its size.
pub proof fn law_offered_size(entries: Seq<LocalEntryView>, e: LocalEntryView)
    ensures
        sender::total_size(Seq::empty()) == 0,
        sender::total_size(entries.push(e)) == sender::total_size(entries) + e.size,
{
    assert(entries.push(e).drop_last() =~= entries);
}

/// An offer carries the number of the transfer, the number of the entries and their size, and is
/// marked as a clipboard only where it is one.
pub proof fn law_offer_is_true(
    xfer_id: u64,
    root: Seq<char>,
    entries: Seq<LocalEntryView>,
    len: u64,
)
    ensures
        match sender::offer_of(xfer_id, root, entries) {
            FileCtrlView::Offer { xfer_id: id, root: _, entries: n, total_bytes, clipboard } => {
                &&& id == xfer_id
                &&& entries.len() <= u32::MAX ==> n == entries.len()
                &&& sender::total_size(entries) <= u64::MAX ==> total_bytes == sender::total_size(
                    entries,
                )
                &&& !clipboard
            },
            _ => false,
        },
        sender::clipboard_offer_of(xfer_id, len) == (FileCtrlView::Offer {
            xfer_id,
            root: "clipboard"@,
            entries: 1,
            total_bytes: len,
            clipboard: true,
        }),
{
}

/// Only an acceptance lets the entries go out; a refusal comes back with its reason, and every
/// other answer with itself.
pub proof fn law_reply(reply: FileCtrlView, clipboard: bool)
    ensures
        sender::reply_of(reply, clipboard) is Ok <==> reply is Accept,
        reply matches FileCtrlView::Decline { xfer_id: _, reason } ==> sender::reply_of(
            reply,
            clipboard,
        ) == Err::<(), ProtocolErrorView>(
            if clipboard {
                ProtocolErrorView::ClipboardDeclined(reason)
            } else {
                ProtocolErrorView::Declined(reason)
            },
        ),
        !(reply is Accept) && !(reply is Decline) ==> sender::reply_of(reply, clipboard) == Err::<
            (),
            ProtocolErrorView,
        >(ProtocolErrorView::UnexpectedPreAccept(reply)),
{
}

// ----- the frames of an entry -----------------------------------------------

/// A directory goes out as one entry with its path and mode and no contents.
pub proof fn law_directory_frames(e: LocalEntryView)
    ensures
        sender::dir_frames_of(e) == seq![
            FileFrameView::Entry {
                rel_path: e.rel_path,
                size: 0,
                mode: e.mode,
                kind: EntryKind::Dir,
                compressed: false,
            },
            FileFrameView::EntryDone { blake3: codec::blake3_digest(Seq::empty()) },
        ],
{
}

/// A file is announced under its own path, size and mode, and its first bytes follow unless there
/// are none; uncompressed bytes go out as they are.
pub proof fn law_file_opening(e: LocalEntryView, head: Seq<u8>)
    ensures
        ({
            let frames = sender::opening_of(e, head);
            &&& frames[0] matches FileFrameView::Entry { rel_path, size, mode, kind, compressed }
                && rel_path == e.rel_path && size == e.size && mode == e.mode && kind
                == EntryKind::File && compressed == !codec::already_compressed(head)
            &&& frames.len() == if head.len() > 0 {
                2nat
            } else {
                1nat
            }
            &&& head.len() > 0 && codec::already_compressed(head) ==> frames[1]
                == FileFrameView::Chunk { data: head }
            &&& head.len() > 0 && !codec::already_compressed(head) ==> frames[1]
                == FileFrameView::Chunk { data: codec::zstd_compressed(head, 3) }
        }),
{
}

/// A chunk that is not compressed holds its contents as they are; a compressed one holds what it
/// was made of.
pub proof fn law_chunk_contents(raw: Seq<u8>, data: Seq<u8>)
    ensures
        codec::chunk_data(raw, false) == raw,
        codec::chunk_contents(data, false) == Some(data),
        codec::chunk_data(raw, true) == codec::zstd_compressed(raw, 3),
        codec::zstd_content(data) == Some(raw) && raw.len() <= 131072 ==> codec::chunk_contents(
            data,
            true,
        ) == Some(raw),
        codec::zstd_content(data) == Some(raw) && raw.len() > 131072 ==> codec::chunk_contents(
            data,
            true,
        ) is None,
        codec::zstd_content(data) is None ==> codec::chunk_contents(data, true) is None,
{
}

/// Whether bytes start with given ones.
pub open spec fn starts(head: Seq<u8>, first: Seq<u8>) -> bool {
    head.len() >= first.len() && head.take(first.len() as int) == first
}

/// What decides whether a file is compressed on its way: only the first bytes of the known
/// compressed formats keep it as it is.
pub proof fn law_compressed_formats(head: Seq<u8>)
    ensures
        codec::already_compressed(head) <==> {
            ||| starts(head, seq![0x28u8, 0xb5, 0x2f, 0xfd])
            ||| starts(head, seq![0x1fu8, 0x8b])
            ||| starts(head, seq![0xfdu8, 0x37, 0x7a, 0x58, 0x5a, 0x00])
            ||| starts(head, seq![0x50u8, 0x4b, 0x03, 0x04])
            ||| starts(head, seq![0xffu8, 0xd8, 0xff])
            ||| starts(head, seq![0x89u8, 0x50, 0x4e, 0x47, 0x0d, 0x0a, 0x1a, 0x0a])
            ||| starts(head, seq![0x52u8, 0x49, 0x46, 0x46])
            ||| starts(head, seq![0x00u8, 0x00, 0x00, 0x18, 0x66, 0x74, 0x79, 0x70])
            ||| starts(head, seq![0x00u8, 0x00, 0x00, 0x20, 0x66, 0x74, 0x79, 0x70])
            ||| starts(head, seq![0x1au8, 0x45, 0xdf, 0xa3])
            ||| starts(head, seq![0x4fu8, 0x67, 0x67, 0x53])
            ||| starts(head, seq![0xffu8, 0xfb])
            ||| starts(head, seq![0x49u8, 0x44, 0x33])
        },
{
    let m = codec::magics();
    assert forall|i: int| 0 <= i < 13 implies (#[trigger] m[i]).is_prefix_of(head) == starts(
        head,
        m[i],
    ) by {
        if m[i].len() <= head.len() {
            assert(head.subrange(0, m[i].len() as int) =~= head.take(m[i].len() as int));
        }
    }
    assert(m.len() == 13);
    assert(starts(head, m[0]) || starts(head, m[1]) || starts(head, m[2]) || starts(head, m[3])
        || starts(head, m[4]) || starts(head, m[5]) || starts(head, m[6]) || starts(head, m[7])
        || starts(head, m[8]) || starts(head, m[9]) || starts(head, m[10]) || starts(head, m[11])
        || starts(head, m[12]) ==> codec::already_compressed(head)) by {
        if starts(head, m[0]) { assert(m[0].is_prefix_of(head)); }
        if starts(head, m[1]) { assert(m[1].is_prefix_of(head)); }
        if starts(head, m[2]) { assert(m[2].is_prefix_of(head)); }
        if starts(head, m[3]) { assert(m[3].is_prefix_of(head)); }
        if starts(head, m[4]) { assert(m[4].is_prefix_of(head)); }
        if starts(head, m[5]) { assert(m[5].is_prefix_of(head)); }
        if starts(head, m[6]) { assert(m[6].is_prefix_of(head)); }
        if starts(head, m[7]) { assert(m[7].is_prefix_of(head)); }
        if starts(head, m[8]) { assert(m[8].is_prefix_of(head)); }
        if starts(head, m[9]) { assert(m[9].is_prefix_of(head)); }
        if starts(head, m[10]) { assert(m[10].is_prefix_of(head)); }
        if starts(head, m[11]) { assert(m[11].is_prefix_of(head)); }
        if starts(head, m[12]) { assert(m[12].is_prefix_of(head)); }
    }
    if codec::already_compressed(head) {
        let i = choose|i: int| 0 <= i < m.len() && (#[trigger] m[i]).is_prefix_of(head);
        assert(starts(head, m[i]));
    }
}

// ----- the sending side, step by step ---------------------------------------

/// The bytes that frames carry uncompressed, one after the other.
pub open spec fn carried_bytes(frames: Seq<FileFrameView>) -> Seq<u8>
    decreases frames.len(),
{
    if frames.len() == 0 {
        Seq::empty()
    } else {
        carried_bytes(frames.drop_last()) + match frames.last() {
            FileFrameView::Chunk { data } => data,
            _ => Seq::empty(),
        }
    }
}

/// A clipboard goes out as one uncompressed file that carries exactly its bytes and ends with their
/// hash.
pub proof fn law_clipboard_frames(content: Seq<u8>)
    ensures
        ({
            let frames = sender::clipboard_frames_of(content);
            &&& frames.len() >= 2
            &&& frames[0] == FileFrameView::Entry {
                rel_path: "clipboard"@,
                size: content.len() as u64,
                mode: 0,
                kind: EntryKind::File,
                compressed: false,
            }
            &&& frames.last() == FileFrameView::EntryDone { blake3: codec::blake3_digest(content) }
            &&& carried_bytes(frames) == content
        }),
{
    let frames = sender::clipboard_frames_of(content);
    let f = frames.drop_last();
    reveal_with_fuel(carried_bytes, 4);
    if content.len() == 0 {
        assert(content =~= Seq::empty());
        assert(f.drop_last() =~= Seq::empty());
    } else {
        assert(f.drop_last() =~= seq![frames[0]]);
        assert(f.drop_last().drop_last() =~= Seq::empty());
    }
    assert(carried_bytes(frames) =~= content);
}

/// After an acceptance the first entry goes out, and with nothing to send the transfer ends; after
/// anything else it fails, and the user is told why.
pub proof fn law_reply_taken(s: SendView, c: FileCtrlView)
    requires
        s.phase == SendPhase::Reply,
    ensures
        ({
            let (t, a) = outgoing::send_step(s, SendInputView::Ctrl(c));
            &&& c is Accept && (s.clipboard is Some || s.next < s.entries.len()) ==> t == SendView {
                phase: SendPhase::Stream,
                ..s
            } && a == seq![SendActionView::OpenStream]
            &&& c is Accept && s.clipboard is None && s.next >= s.entries.len() ==> t == SendView {
                phase: SendPhase::Close,
                ..s
            } && a == seq![SendActionView::FinishCtrl, SendActionView::AwaitClose]
            &&& c matches FileCtrlView::Decline { xfer_id: _, reason } ==> t == SendView {
                phase: SendPhase::Closed,
                ..s
            } && a == seq![
                SendActionView::Fail(
                    SendErrorView::Protocol(
                        if s.clipboard is Some {
                            ProtocolErrorView::ClipboardDeclined(reason)
                        } else {
                            ProtocolErrorView::Declined(reason)
                        },
                    ),
                ),
            ]
            &&& !(c is Accept) && !(c is Decline) ==> t == SendView {
                phase: SendPhase::Closed,
                ..s
            } && a == seq![
                SendActionView::Fail(
                    SendErrorView::Protocol(ProtocolErrorView::UnexpectedPreAccept(c)),
                ),
            ]
        }),
{
}

/// A file is read from the place on disk that its entry names, first the bytes that show its format
/// and then piece by piece; each piece goes out as it is read, and the end with the hash of all.
pub proof fn law_file_is_read(s: SendView, d: Seq<u8>)
    requires
        s.clipboard is None,
        s.next < s.entries.len(),
        !s.entries[s.next as int].is_dir,
    ensures
        s.phase == SendPhase::Stream ==> outgoing::send_step(s, SendInputView::StreamOpened) == (
            SendView { phase: SendPhase::Open, ..s },
            seq![SendActionView::OpenFile(s.entries[s.next as int].absolute)],
        ),
        s.phase == SendPhase::Open ==> outgoing::send_step(s, SendInputView::FileOpened) == (
            SendView { phase: SendPhase::Head, head: Seq::empty(), ..s },
            seq![SendActionView::Read(16)],
        ),
        s.phase == SendPhase::Body && s.file is Some && d.len() > 0 ==> ({
            let (t, a) = outgoing::send_step(s, SendInputView::Data(d));
            let f = s.file->0;
            &&& t == SendView {
                file: Some(EntrySenderView { compressed: f.compressed, sent: f.sent + d }),
                ..s
            }
            &&& a == seq![
                SendActionView::SendFrame(
                    FileFrameView::Chunk {
                        data: if f.compressed {
                            codec::zstd_compressed(d, 3)
                        } else {
                            d
                        },
                    },
                ),
                SendActionView::Read(65536),
            ]
        }),
        s.phase == SendPhase::Body && s.file is Some ==> ({
            let (t, a) = outgoing::send_step(s, SendInputView::Data(Seq::empty()));
            &&& t.next == s.next + 1
            &&& t.file is None
            &&& a.len() >= 2
            &&& a[0] == SendActionView::SendFrame(
                FileFrameView::EntryDone { blake3: codec::blake3_digest(s.file->0.sent) },
            )
            &&& a[1] == SendActionView::FinishStream
        }),
{
}

/// When the peer closes after the last entry the transfer is done; what is not waited for changes
/// nothing.
pub proof fn law_sender_ends(s: SendView, i: SendInputView)
    ensures
        s.phase == SendPhase::Close ==> outgoing::send_step(s, SendInputView::PeerClosed) == (
            SendView { phase: SendPhase::Closed, ..s },
            seq![SendActionView::Done],
        ),
        s.phase == SendPhase::Closed || (s.phase == SendPhase::Close && !(i is PeerClosed)) || (
        s.phase == SendPhase::Reply && !(i is Ctrl)) || (s.phase == SendPhase::Stream && !(
        i is StreamOpened)) || (s.phase == SendPhase::Open && !(i is FileOpened)) || ((s.phase
            == SendPhase::Head || s.phase == SendPhase::Body) && !(i is Data))
            ==> outgoing::send_step(s, i) == (s, Seq::<SendActionView>::empty()),
{
}

// ----- the receiving side, step by step -------------------------------------

/// An offer within the caps and under a safe name is shown to the user as it was made, and the
/// decision awaited; a clipboard within the caps is accepted at once, without a question.
pub proof fn law_offer_is_shown(
    s: RecvView,
    xfer_id: u64,
    root: Seq<char>,
    entries: u32,
    total_bytes: u64,
)
    requires
        s.phase == Phase::Offer,
        total_bytes <= s.limits.max_bytes,
        entries <= s.limits.max_entries,
    ensures
        paths::received_components(root) is Some ==> receiver::recv_step(
            s,
            RecvInputView::Ctrl(
                FileCtrlView::Offer { xfer_id, root, entries, total_bytes, clipboard: false },
            ),
        ) == (
            RecvView {
                phase: Phase::Decision,
                root_name: root,
                entries_total: entries,
                total_bytes,
                ..s
            },
            seq![
                RecvActionView::Emit(
                    EventView::IncomingOffer {
                        xfer_id: s.xfer_id,
                        peer_addr: s.peer_addr,
                        peer_fingerprint: s.peer_fingerprint,
                        root_name: root,
                        entries,
                        total_bytes,
                    },
                ),
                RecvActionView::AwaitDecision,
            ],
        ),
        receiver::recv_step(
            s,
            RecvInputView::Ctrl(
                FileCtrlView::Offer { xfer_id, root, entries, total_bytes, clipboard: true },
            ),
        ) == (
            RecvView { phase: Phase::ClipboardStream, ..s },
            seq![
                RecvActionView::SendCtrl(FileCtrlView::Accept { xfer_id: s.xfer_id }),
                RecvActionView::AcceptStream,
            ],
        ),
{
}

/// A transfer that the user accepts is accepted towards the peer; its root below the chosen
/// directory is created, and the entries are received there, from the first on.
pub proof fn law_acceptance(s: RecvView, dest_dir: Seq<char>, now: u64)
    requires
        s.phase == Phase::Decision,
        paths::received_root(dest_dir, s.root_name) is Some,
    ensures
        ({
            let root = paths::received_root(dest_dir, s.root_name)->0;
            let (t, a) = receiver::recv_step(
                s,
                RecvInputView::Decided(Some(DecisionView::Accept { dest_dir }), now),
            );
            &&& t == RecvView {
                phase: if s.entries_total > 0 {
                    Phase::Stream
                } else {
                    Phase::Closed
                },
                dest_dir,
                root_dst: root,
                entries_done: 0,
                bytes_done: 0,
                last_progress: now,
                last_progress_bytes: 0,
                ..s
            }
            &&& a[0] == RecvActionView::SendCtrl(FileCtrlView::Accept { xfer_id: s.xfer_id })
            &&& a[1] == RecvActionView::CreateDirs(root)
            &&& s.entries_total > 0 ==> a.len() == 3 && a[2] == RecvActionView::AcceptStream
            &&& s.entries_total == 0 ==> a.len() == 5 && a[4] == RecvActionView::Done(
                RecvOutcomeView::File(root),
            )
        }),
{
}

/// A directory is created where its path leads below the root, and gets the permission bits of its
/// mode when its entry ends; a path that leads out is refused with its own words.
pub proof fn law_directory_is_received(
    s: RecvView,
    rel_path: Seq<char>,
    size: u64,
    mode: u32,
    compressed: bool,
    blake3: Seq<u8>,
)
    ensures
        s.phase == Phase::Entry ==> ({
            let (t, a) = receiver::recv_step(
                s,
                RecvInputView::Frame(
                    FileFrameView::Entry { rel_path, size, mode, kind: EntryKind::Dir, compressed },
                ),
            );
            match paths::joined_safely(s.root_dst, rel_path) {
                Some(p) => {
                    &&& t == RecvView { phase: Phase::DirDone, rel_path, final_path: p, mode, ..s }
                    &&& a == seq![RecvActionView::CreateDirs(p), RecvActionView::ReadFrame]
                },
                None => {
                    &&& t.phase == Phase::Closed
                    &&& a == seq![
                        RecvActionView::Fail(
                            RecvErrorView::Protocol(ProtocolErrorView::UnsafeRelPath(rel_path)),
                        ),
                    ]
                },
            }
        }),
        s.phase == Phase::DirDone && s.entries_done < s.entries_total ==> ({
            let (t, a) = receiver::recv_step(
                s,
                RecvInputView::Frame(FileFrameView::EntryDone { blake3 }),
            );
            &&& t.entries_done == s.entries_done + 1
            &&& a[0] == RecvActionView::SetMode(s.final_path, (s.mode % 512) as u32)
            &&& s.entries_done + 1 < s.entries_total ==> t.phase == Phase::Stream && a.len() == 2
                && a[1] == RecvActionView::AcceptStream
            &&& s.entries_done + 1 == s.entries_total ==> t.phase == Phase::Closed && a.last()
                == RecvActionView::Done(RecvOutcomeView::File(s.root_dst))
        }),
{
    let empty = Seq::<RecvActionView>::empty();
    let e = RecvActionView::Fail(
        RecvErrorView::Protocol(ProtocolErrorView::UnsafeRelPath(rel_path)),
    );
    assert(empty.push(e) =~= seq![e]);
}

/// What a chunk holds is written, hashed and counted, all of it; a chunk that cannot be read gives
/// the transfer up, and the partial file goes.
pub proof fn law_chunk_is_written(s: RecvView, data: Seq<u8>)
    requires
        s.phase == Phase::Chunks,
    ensures
        ({
            let (t, a) = receiver::recv_step(s, RecvInputView::Frame(FileFrameView::Chunk { data }));
            match codec::chunk_contents(data, s.compressed) {
                Some(raw) => {
                    &&& a == seq![RecvActionView::Write(raw)]
                    &&& s.bytes_done + raw.len() <= u64::MAX ==> t == RecvView {
                        phase: Phase::Writing,
                        hashed: s.hashed + raw,
                        bytes_done: (s.bytes_done + raw.len()) as u64,
                        ..s
                    }
                },
                None => {
                    &&& t.phase == Phase::Closed
                    &&& a == seq![
                        RecvActionView::RemoveFile(s.part_path),
                        RecvActionView::Fail(RecvErrorView::Codec),
                    ]
                },
            }
        }),
{
    assert(seq![RecvActionView::RemoveFile(s.part_path)].push(
        RecvActionView::Fail(RecvErrorView::Codec),
    ) =~= seq![
        RecvActionView::RemoveFile(s.part_path),
        RecvActionView::Fail(RecvErrorView::Codec),
    ]);
}

/// Clipboard contents are gathered from an empty start: what each chunk holds comes behind what came
/// before it, and is hashed with it. A chunk that cannot be read gives the contents up.
pub proof fn law_clipboard_is_gathered(
    s: RecvView,
    rel_path: Seq<char>,
    size: u64,
    mode: u32,
    compressed: bool,
    data: Seq<u8>,
)
    ensures
        s.phase == Phase::ClipboardEntry ==> receiver::recv_step(
            s,
            RecvInputView::Frame(
                FileFrameView::Entry { rel_path, size, mode, kind: EntryKind::File, compressed },
            ),
        ) == (
            (RecvView {
                phase: Phase::ClipboardChunks,
                compressed,
                clipboard: Seq::empty(),
                hashed: Seq::empty(),
                ..s
            }),
            seq![RecvActionView::ReadFrame],
        ),
        s.phase == Phase::ClipboardChunks ==> ({
            let (t, a) = receiver::recv_step(s, RecvInputView::Frame(FileFrameView::Chunk { data }));
            match codec::chunk_contents(data, s.compressed) {
                Some(raw) => {
                    &&& t == RecvView { clipboard: s.clipboard + raw, hashed: s.hashed + raw, ..s }
                    &&& a == seq![RecvActionView::ReadFrame]
                },
                None => {
                    &&& t.phase == Phase::Closed
                    &&& a == seq![RecvActionView::Fail(RecvErrorView::Codec)]
                },
            }
        }),
{
    let fail = RecvActionView::Fail(RecvErrorView::Codec);
    assert(Seq::<RecvActionView>::empty().push(fail) =~= seq![fail]);
}

/// Clipboard contents that came in whole are handed on with the peer's address, and the transfer is
/// closed; where the hash differs nothing is handed on.
pub proof fn law_whole_clipboard_is_handed_on(s: RecvView, blake3: Seq<u8>)
    requires
        s.phase == Phase::ClipboardChunks,
    ensures
        ({
            let (t, a) = receiver::recv_step(
                s,
                RecvInputView::Frame(FileFrameView::EntryDone { blake3 }),
            );
            &&& t == RecvView { phase: Phase::Closed, ..s }
            &&& codec::blake3_digest(s.hashed) == blake3 ==> a == seq![
                RecvActionView::FinishCtrl,
                RecvActionView::CloseConnection,
                RecvActionView::Emit(
                    EventView::ClipboardReceived { peer_addr: s.peer_addr, content: s.clipboard },
                ),
                RecvActionView::Done(RecvOutcomeView::Clipboard),
            ]
            &&& codec::blake3_digest(s.hashed) != blake3 ==> a == seq![
                RecvActionView::Fail(
                    RecvErrorView::Protocol(ProtocolErrorView::ClipboardHashMismatch),
                ),
            ]
        }),
{
    let fail = RecvActionView::Fail(
        RecvErrorView::Protocol(ProtocolErrorView::ClipboardHashMismatch),
    );
    assert(Seq::<RecvActionView>::empty().push(fail) =~= seq![fail]);
}

/// Progress is told with the true numbers, at most ten times a second unless a mebibyte has come in
/// between, and the next frame is read either way.
pub proof fn law_progress(s: RecvView, now: u64)
    requires
        s.phase == Phase::Writing,
    ensures
        ({
            let (t, a) = receiver::recv_step(s, RecvInputView::Written(now));
            let due = now >= s.last_progress + 100_000_000 || s.bytes_done
                >= s.last_progress_bytes + 1_048_576;
            &&& t.phase == Phase::Chunks
            &&& a.last() == RecvActionView::ReadFrame
            &&& due ==> t == RecvView {
                phase: Phase::Chunks,
                last_progress: now,
                last_progress_bytes: s.bytes_done,
                ..s
            } && a.len() == 2 && a[0] == RecvActionView::Emit(
                EventView::Progress {
                    xfer_id: s.xfer_id,
                    bytes: s.bytes_done,
                    total: s.total_bytes,
                    entries_done: s.entries_done,
                    entries_total: s.entries_total,
                    current_entry: Some(s.rel_path),
                },
            )
            &&& !due ==> t == RecvView { phase: Phase::Chunks, ..s } && a.len() == 1
        }),
{
}

/// A frame that does not belong where it comes gives the transfer up with an error that names it; a
/// partial file goes, and nothing else is done.
pub proof fn law_stray_frame(s: RecvView, f: FileFrameView)
    ensures
        ({
            let (t, a) = receiver::recv_step(s, RecvInputView::Frame(f));
            &&& s.phase == Phase::Entry && !(f is Entry) ==> t.phase == Phase::Closed && a == seq![
                RecvActionView::Fail(RecvErrorView::Protocol(ProtocolErrorView::NotEntry(f))),
            ]
            &&& s.phase == Phase::DirDone && !(f is EntryDone) ==> t.phase == Phase::Closed && a
                == seq![
                RecvActionView::Fail(RecvErrorView::Protocol(ProtocolErrorView::NotDirDone(f))),
            ]
            &&& s.phase == Phase::Chunks && f is Entry ==> t.phase == Phase::Closed && a == seq![
                RecvActionView::RemoveFile(s.part_path),
                RecvActionView::Fail(
                    RecvErrorView::Protocol(ProtocolErrorView::UnexpectedFrame(f)),
                ),
            ]
            &&& s.phase == Phase::ClipboardEntry && !(f matches FileFrameView::Entry {
                kind: EntryKind::File,
                ..
            }) ==> t.phase == Phase::Closed && a == seq![
                RecvActionView::Fail(
                    RecvErrorView::Protocol(ProtocolErrorView::ClipboardNotFileEntry(f)),
                ),
            ]
            &&& s.phase == Phase::ClipboardChunks && f is Entry ==> t.phase == Phase::Closed && a
                == seq![
                RecvActionView::Fail(
                    RecvErrorView::Protocol(ProtocolErrorView::ClipboardUnexpectedFrame(f)),
                ),
            ]
        }),
{
    let a = receiver::recv_step(s, RecvInputView::Frame(f)).1;
    if s.phase == Phase::Entry && !(f is Entry) {
        assert(a =~= seq![
            RecvActionView::Fail(RecvErrorView::Protocol(ProtocolErrorView::NotEntry(f))),
        ]);
    }
    if s.phase == Phase::DirDone && !(f is EntryDone) {
        assert(a =~= seq![
            RecvActionView::Fail(RecvErrorView::Protocol(ProtocolErrorView::NotDirDone(f))),
        ]);
    }
    if s.phase == Phase::Chunks && f is Entry {
        assert(a =~= seq![
            RecvActionView::RemoveFile(s.part_path),
            RecvActionView::Fail(RecvErrorView::Protocol(ProtocolErrorView::UnexpectedFrame(f))),
        ]);
    }
    if s.phase == Phase::ClipboardEntry {
        assert(a.len() == 1);
    }
    if s.phase == Phase::ClipboardChunks && f is Entry {
        assert(a =~= seq![
            RecvActionView::Fail(
                RecvErrorView::Protocol(ProtocolErrorView::ClipboardUnexpectedFrame(f)),
            ),
        ]);
    }
}

/// Without an offer nothing starts: any other first message gives the connection up. A failure
/// outside ends the transfer, and a partial file goes.
pub proof fn law_no_offer_and_failure(s: RecvView, c: FileCtrlView)
    ensures
        s.phase == Phase::Offer && !(c is Offer) ==> ({
            let (t, a) = receiver::recv_step(s, RecvInputView::Ctrl(c));
            &&& t.phase == Phase::Closed
            &&& a == seq![
                RecvActionView::Fail(
                    RecvErrorView::Protocol(ProtocolErrorView::FirstCtrlNotOffer(c)),
                ),
            ]
        }),
        ({
            let (t, a) = receiver::recv_step(s, RecvInputView::Failed);
            let partial = s.phase == Phase::Chunks || s.phase == Phase::Writing || s.phase
                == Phase::Storing;
            &&& t == RecvView { phase: Phase::Closed, ..s }
            &&& a == if partial {
                seq![RecvActionView::RemoveFile(s.part_path)]
            } else {
                Seq::empty()
            }
        }),
{
    if s.phase == Phase::Offer && !(c is Offer) {
        assert(receiver::recv_step(s, RecvInputView::Ctrl(c)).1 =~= seq![
            RecvActionView::Fail(RecvErrorView::Protocol(ProtocolErrorView::FirstCtrlNotOffer(c))),
        ]);
    }
}

/// A sender that has made its offer awaits the reply, has sent nothing, and holds all that it offered.
pub proof fn law_fresh_sender(entries: Seq<LocalEntryView>, content: Seq<u8>)
    ensures
        ({
            let s = outgoing::fresh_tree(entries);
            &&& s.phase == SendPhase::Reply && s.next == 0 && s.head.len() == 0 && s.file is None
            &&& s.entries == entries && s.clipboard is None
        }),
        ({
            let s = outgoing::fresh_clipboard(content);
            &&& s.phase == SendPhase::Reply && s.next == 0 && s.head.len() == 0 && s.file is None
            &&& s.entries.len() == 0 && s.clipboard == Some(content)
        }),
{
}

/// The first bytes of a file are read until there are sixteen or the file ends; then its entry goes
/// out with them, and the rest is read.
pub proof fn law_first_bytes(s: SendView, d: Seq<u8>)
    requires
        s.phase == SendPhase::Head,
    ensures
        ({
            let (t, a) = outgoing::send_step(s, SendInputView::Data(d));
            let head = s.head + d;
            if d.len() > 0 && head.len() < 16 {
                &&& t == SendView { head, ..s }
                &&& a == seq![SendActionView::Read((16 - head.len()) as usize)]
            } else {
                let opening = sender::opening_of(s.entries[s.next as int], head);
                &&& t.phase == SendPhase::Body
                &&& t.head.len() == 0
                &&& t.file == Some(
                    EntrySenderView { compressed: !codec::already_compressed(head), sent: head },
                )
                &&& a.len() == opening.len() + 1
                &&& a.last() == SendActionView::Read(65536)
                &&& forall|i: int|
                    0 <= i < opening.len() ==> #[trigger] a[i] == SendActionView::SendFrame(
                        opening[i],
                    )
            }
        }),
{
}

/// The count of the bytes that have come in stops at the largest number instead of starting over.
pub proof fn law_count_saturates(s: RecvView, data: Seq<u8>)
    requires
        s.phase == Phase::Chunks,
        !s.compressed,
        s.bytes_done + data.len() > u64::MAX,
    ensures
        receiver::recv_step(s, RecvInputView::Frame(FileFrameView::Chunk { data })).0.bytes_done
            == u64::MAX,
{
}

} // verus!

//! What holds of whole transfers.
use crate::file_transfer::outgoing::{SendActionView, SendInputView, SendPhase, SendView};
use crate::file_transfer::receiver::{
    Phase, RecvActionView, RecvInputView, RecvOutcomeView, RecvView,
};
use crate::file_transfer::sender::{EntrySenderView, FsNode, LocalEntryView};
use crate::file_transfer::wire::{FileCtrlView, FileFrameView};
use crate::file_transfer::{codec, outgoing, paths, receiver, sender, wire};
use crate::file_transfer::{DecisionView, EventView, Limits};
use crate::net::SocketAddr;
use vstd::prelude::*;

verus! {

/// A receiver's state and all actions after a series of inputs.
pub open spec fn recv_run(s: RecvView, inputs: Seq<RecvInputView>) -> (RecvView, Seq<RecvActionView>)
    decreases inputs.len(),
{
    if inputs.len() == 0 {
        (s, Seq::empty())
    } else {
        let (s1, a) = receiver::recv_step(s, inputs[0]);
        let (s2, b) = recv_run(s1, inputs.skip(1));
        (s2, a + b)
    }
}

/// Running two series one after the other.
pub proof fn lemma_run_append(s: RecvView, x: Seq<RecvInputView>, y: Seq<RecvInputView>)
    ensures
        recv_run(s, x + y) == ({
            let (s1, a) = recv_run(s, x);
            let (s2, b) = recv_run(s1, y);
            (s2, a + b)
        }),
    decreases x.len(),
{
    if x.len() == 0 {
        assert(x + y =~= y);
        assert(Seq::<RecvActionView>::empty() + recv_run(s, y).1 =~= recv_run(s, y).1);
    } else {
        let (s1, a) = receiver::recv_step(s, x[0]);
        lemma_run_append(s1, x.skip(1), y);
        assert((x + y).skip(1) =~= x.skip(1) + y);
        let (s2, b) = recv_run(s1, x.skip(1));
        let (s3, c) = recv_run(s2, y);
        assert(a + b + c =~= a + (b + c));
    }
}

/// A series of one input.
pub proof fn lemma_run_one(s: RecvView, i: RecvInputView)
    ensures
        recv_run(s, seq![i]) == receiver::recv_step(s, i),
{
    let (s1, a) = receiver::recv_step(s, i);
    assert(seq![i].skip(1) =~= Seq::empty());
    assert(recv_run(s1, Seq::empty()) == (s1, Seq::<RecvActionView>::empty()));
    assert(a + Seq::<RecvActionView>::empty() =~= a);
}

// ----- consent --------------------------------------------------------------

/// Whether an action changes the receiver's disk.
pub open spec fn touches_disk(a: RecvActionView) -> bool {
    a is CreateDirs || a is SetMode || a is CreateFile || a is Write || a is Store
        || a is RemoveFile
}

/// Whether an input is the user's acceptance.
pub open spec fn accepts(i: RecvInputView) -> bool {
    i matches RecvInputView::Decided(Some(DecisionView::Accept { .. }), _)
}

/// The phases before an acceptance, and the end.
pub open spec fn undecided(p: Phase) -> bool {
    p == Phase::Offer || p == Phase::Decision || p == Phase::ClipboardStream || p
        == Phase::ClipboardEntry || p == Phase::ClipboardChunks || p == Phase::Closed
}

/// No silent writes: as long as the user has not accepted, nothing on disk is touched.
pub proof fn law_no_write_without_acceptance(s: RecvView, inputs: Seq<RecvInputView>)
    requires
        undecided(s.phase),
        forall|i: int| 0 <= i < inputs.len() ==> !accepts(#[trigger] inputs[i]),
    ensures
        undecided(recv_run(s, inputs).0.phase),
        forall|j: int|
            0 <= j < recv_run(s, inputs).1.len() ==> !touches_disk(
                #[trigger] recv_run(s, inputs).1[j],
            ),
    decreases inputs.len(),
{
    if inputs.len() > 0 {
        let i = inputs[0];
        let (s1, a) = receiver::recv_step(s, i);
        assert(!accepts(i));
        assert(undecided(s1.phase));
        assert(forall|j: int| 0 <= j < a.len() ==> !touches_disk(#[trigger] a[j]));
        let rest = inputs.skip(1);
        assert(forall|k: int| 0 <= k < rest.len() ==> (#[trigger] rest[k]) == inputs[k + 1]);
        law_no_write_without_acceptance(s1, rest);
    }
}

/// Whether an action asks the user.
pub open spec fn prompts(a: RecvActionView) -> bool {
    ||| a is AwaitDecision
    ||| a matches RecvActionView::Emit(EventView::IncomingOffer { .. })
}

/// The phases of a clipboard hand-off, and the end.
pub open spec fn in_clipboard(p: Phase) -> bool {
    p == Phase::ClipboardStream || p == Phase::ClipboardEntry || p == Phase::ClipboardChunks || p
        == Phase::Closed
}

/// A clipboard hand-off is silent from end to end: once its offer is in, the user is never
/// asked and nothing on disk is touched.
pub proof fn law_clipboard_is_silent(s: RecvView, inputs: Seq<RecvInputView>)
    requires
        in_clipboard(s.phase),
    ensures
        in_clipboard(recv_run(s, inputs).0.phase),
        forall|j: int|
            #![trigger recv_run(s, inputs).1[j]]
            0 <= j < recv_run(s, inputs).1.len() ==> !prompts(recv_run(s, inputs).1[j])
                && !touches_disk(recv_run(s, inputs).1[j]),
    decreases inputs.len(),
{
    if inputs.len() > 0 {
        let (s1, a) = receiver::recv_step(s, inputs[0]);
        assert(in_clipboard(s1.phase));
        assert(forall|j: int|
            0 <= j < a.len() ==> !prompts(#[trigger] a[j]) && !touches_disk(a[j]));
        law_clipboard_is_silent(s1, inputs.skip(1));
    }
}

/// An offer beyond the caps, of a clipboard too, is answered by a refusal and nothing else: the
/// user never sees it.
pub proof fn law_oversize_offer_refused(
    s: RecvView,
    xfer_id: u64,
    root: Seq<char>,
    entries: u32,
    total_bytes: u64,
    clipboard: bool,
)
    requires
        s.phase == Phase::Offer,
        total_bytes > s.limits.max_bytes || entries > s.limits.max_entries,
    ensures
        receiver::recv_step(
            s,
            RecvInputView::Ctrl(
                FileCtrlView::Offer { xfer_id, root, entries, total_bytes, clipboard },
            ),
        ).1 == seq![
            RecvActionView::SendCtrl(
                FileCtrlView::Decline {
                    xfer_id: s.xfer_id,
                    reason: "offer exceeds configured transfer limits"@,
                },
            ),
            RecvActionView::FinishCtrl,
            RecvActionView::Done(RecvOutcomeView::Cancelled),
        ],
{
}

/// A refusal by the user leaves the disk as it was: the peer is told, and the transfer ends as
/// cancelled.
pub proof fn law_decline_is_clean(s: RecvView, d: Option<DecisionView>, now: u64)
    requires
        s.phase == Phase::Decision,
        !(d matches Some(DecisionView::Accept { .. })),
    ensures
        receiver::recv_step(s, RecvInputView::Decided(d, now)).0.phase == Phase::Closed,
        receiver::recv_step(s, RecvInputView::Decided(d, now)).1 == seq![
            RecvActionView::SendCtrl(
                FileCtrlView::Decline { xfer_id: s.xfer_id, reason: "user declined"@ },
            ),
            RecvActionView::FinishCtrl,
            RecvActionView::Done(RecvOutcomeView::Cancelled),
        ],
{
}

// ----- invariants -----------------------------------------------------------

/// Every step keeps the invariant.
pub proof fn law_invariant_kept(s: RecvView, i: RecvInputView)
    requires
        receiver::recv_inv(s),
    ensures
        receiver::recv_inv(receiver::recv_step(s, i).0),
{
}

/// What a receiver does to the disk stays inside the directory that the user chose: whatever
/// root and paths the peer sends, every directory that is created lies there or is that
/// directory, and every file that is created, moved or removed lies there. Files are only the
/// target, or the partial file of the target, of a path that was joined safely below the root of
/// the transfer; permission bits are never more than `rwxrwxrwx`.
pub proof fn law_paths_inside_root(s: RecvView, i: RecvInputView, j: int)
    requires
        receiver::recv_inv(s),
        0 <= j < receiver::recv_step(s, i).1.len(),
    ensures
        ({
            let s2 = receiver::recv_step(s, i).0;
            let dir = s2.dest_dir;
            match receiver::recv_step(s, i).1[j] {
                RecvActionView::CreateDirs(p) => {
                    ||| paths::lies_inside(dir, p)
                    ||| p == paths::trimmed_path(dir)
                },
                RecvActionView::CreateFile(p) => {
                    &&& paths::joined_safely(s2.root_dst, s2.rel_path) == Some(s2.final_path)
                    &&& p == paths::part_path_of(s2.final_path)
                    &&& paths::lies_inside(dir, p)
                },
                RecvActionView::Store { from, to } => {
                    &&& paths::joined_safely(s.root_dst, s.rel_path) == Some(to)
                    &&& from == paths::part_path_of(to)
                    &&& paths::lies_inside(dir, from)
                    &&& paths::lies_inside(dir, to)
                },
                RecvActionView::RemoveFile(p) => {
                    &&& paths::joined_safely(s.root_dst, s.rel_path) == Some(s.final_path)
                    &&& p == paths::part_path_of(s.final_path)
                    &&& paths::lies_inside(dir, p)
                },
                RecvActionView::SetMode(p, m) => {
                    &&& paths::joined_safely(s.root_dst, s.rel_path) == Some(p)
                    &&& m <= 0o777
                    &&& paths::lies_inside(dir, p)
                },
                _ => true,
            }
        }),
{
    let (s2, a) = receiver::recv_step(s, i);
    paths::law_root_below_dest_dir(s2.dest_dir, s.root_name);
    if receiver::entry_owed(s.phase) {
        assert(s2.dest_dir == s.dest_dir);
        let names = paths::received_components(s.root_name)->0;
        if paths::joined_safely(s.root_dst, s.rel_path) is Some {
            paths::lemma_entry_inside(s.dest_dir, names, s.rel_path);
        }
        if let RecvInputView::Frame(FileFrameView::Entry { rel_path, .. }) = i {
            if paths::joined_safely(s.root_dst, rel_path) is Some {
                paths::lemma_entry_inside(s.dest_dir, names, rel_path);
            }
        }
    }
}

/// Whether what an action does to the disk stays inside a directory.
pub open spec fn stays_inside(dir: Seq<char>, a: RecvActionView) -> bool {
    match a {
        RecvActionView::CreateDirs(p) => paths::lies_inside(dir, p) || p == paths::trimmed_path(
            dir,
        ),
        RecvActionView::CreateFile(p) => paths::lies_inside(dir, p),
        RecvActionView::Store { from, to } => paths::lies_inside(dir, from) && paths::lies_inside(
            dir,
            to,
        ),
        RecvActionView::RemoveFile(p) => paths::lies_inside(dir, p),
        RecvActionView::SetMode(p, _) => paths::lies_inside(dir, p),
        _ => true,
    }
}

/// Over a whole transfer nothing outside the directory that the user accepts into is touched,
/// whatever the peer sends.
pub proof fn law_transfer_stays_inside(s: RecvView, inputs: Seq<RecvInputView>, dir: Seq<char>)
    requires
        receiver::recv_inv(s),
        receiver::entry_owed(s.phase) ==> s.dest_dir == dir,
        forall|k: int|
            0 <= k < inputs.len() ==> ((#[trigger] inputs[k]) matches RecvInputView::Decided(
                Some(DecisionView::Accept { dest_dir }),
                _,
            ) ==> dest_dir == dir),
    ensures
        forall|j: int|
            0 <= j < recv_run(s, inputs).1.len() ==> stays_inside(
                dir,
                #[trigger] recv_run(s, inputs).1[j],
            ),
    decreases inputs.len(),
{
    if inputs.len() > 0 {
        let i = inputs[0];
        let (s1, a) = receiver::recv_step(s, i);
        let rest = inputs.skip(1);
        assert forall|j: int| 0 <= j < a.len() implies stays_inside(dir, #[trigger] a[j]) by {
            law_paths_inside_root(s, i, j);
        }
        law_invariant_kept(s, i);
        assert(forall|k: int| 0 <= k < rest.len() ==> (#[trigger] rest[k]) == inputs[k + 1]);
        law_transfer_stays_inside(s1, rest, dir);
        let (s2, b) = recv_run(s1, rest);
        let all = recv_run(s, inputs).1;
        assert(all == a + b);
        assert forall|j: int| 0 <= j < all.len() implies stays_inside(dir, #[trigger] all[j]) by {
            if j < a.len() {
                assert(all[j] == a[j]);
            } else {
                assert(all[j] == b[j - a.len()]);
                assert(stays_inside(dir, recv_run(s1, rest).1[j - a.len()]));
            }
        }
    }
}

/// An offer whose root, once sanitized, is absolute, leaves the directory that it is received in,
/// or names that directory itself, is given up before the user is asked and before anything is
/// created.
pub proof fn law_unsafe_root_refused(
    s: RecvView,
    xfer_id: u64,
    root: Seq<char>,
    entries: u32,
    total_bytes: u64,
)
    requires
        s.phase == Phase::Offer,
        total_bytes <= s.limits.max_bytes && entries <= s.limits.max_entries,
        paths::received_components(root) is None,
    ensures
        ({
            let offer = FileCtrlView::Offer {
                xfer_id,
                root,
                entries,
                total_bytes,
                clipboard: false,
            };
            receiver::recv_step(s, RecvInputView::Ctrl(offer)).1 == seq![
                RecvActionView::Fail(
                    receiver::RecvErrorView::Protocol(wire::ProtocolErrorView::UnsafeRoot(root)),
                ),
            ]
        }),
{
    assert(receiver::cleanup(s) =~= Seq::empty());
    let fail = RecvActionView::Fail(
        receiver::RecvErrorView::Protocol(wire::ProtocolErrorView::UnsafeRoot(root)),
    );
    assert(Seq::<RecvActionView>::empty().push(fail) =~= seq![fail]);
}

/// A partial file never stays behind: while one is on disk, a step either keeps it in flight,
/// or follows its move into place, or removes it.
pub proof fn law_partial_file_never_left(s: RecvView, i: RecvInputView)
    requires
        receiver::part_on_disk(s.phase),
    ensures
        ({
            let (s2, a) = receiver::recv_step(s, i);
            ||| receiver::part_on_disk(s2.phase) && s2.part_path == s.part_path
            ||| s.phase == Phase::Storing && i == RecvInputView::Stored
            ||| a.contains(RecvActionView::RemoveFile(s.part_path))
        }),
{
    let (s2, a) = receiver::recv_step(s, i);
    if s2.phase == Phase::Closed && !(s.phase == Phase::Storing && i == RecvInputView::Stored) {
        assert(a[0] == RecvActionView::RemoveFile(s.part_path));
    }
}

/// A file is moved into place only when the peer's hash is the hash of what was received.
pub proof fn law_store_needs_matching_hash(s: RecvView, i: RecvInputView, j: int)
    requires
        0 <= j < receiver::recv_step(s, i).1.len(),
        receiver::recv_step(s, i).1[j] is Store,
    ensures
        i == RecvInputView::Frame(
            FileFrameView::EntryDone { blake3: codec::blake3_digest(s.hashed) },
        ),
{
}

/// Contents with another hash than announced are never stored: the partial file is removed and
/// the transfer fails.
pub proof fn law_hash_mismatch_fails(s: RecvView, blake3: Seq<u8>)
    requires
        s.phase == Phase::Chunks,
        codec::blake3_digest(s.hashed) != blake3,
    ensures
        ({
            let (s2, a) = receiver::recv_step(
                s,
                RecvInputView::Frame(FileFrameView::EntryDone { blake3 }),
            );
            &&& s2.phase == Phase::Closed
            &&& a.len() == 2
            &&& a[0] == RecvActionView::RemoveFile(s.part_path)
            &&& a[1] is Fail
        }),
{
}

// ----- round trips ----------------------------------------------------------

/// What actions write to the current file, in order.
pub open spec fn written(actions: Seq<RecvActionView>) -> Seq<u8>
    decreases actions.len(),
{
    if actions.len() == 0 {
        Seq::empty()
    } else {
        (match actions[0] {
            RecvActionView::Write(b) => b,
            _ => Seq::empty(),
        }) + written(actions.skip(1))
    }
}

/// Whether an action gives the transfer up.
pub open spec fn gives_up(a: RecvActionView) -> bool {
    a is Fail
}

/// Whether an action neither starts nor ends a file, nor gives the transfer up.
pub open spec fn keeps_file(a: RecvActionView) -> bool {
    !(a is CreateFile) && !(a is Store) && !gives_up(a)
}

/// What is stored by actions, in order, as paths with contents; `buf` has been written to the
/// current file before.
pub open spec fn stored_from(buf: Seq<u8>, actions: Seq<RecvActionView>) -> Seq<
    (Seq<char>, Seq<u8>),
>
    decreases actions.len(),
{
    if actions.len() == 0 {
        Seq::empty()
    } else {
        let rest = actions.skip(1);
        match actions[0] {
            RecvActionView::CreateFile(_) => stored_from(Seq::empty(), rest),
            RecvActionView::Write(b) => stored_from(buf + b, rest),
            RecvActionView::Store { from: _, to } => seq![(to, buf)] + stored_from(
                Seq::empty(),
                rest,
            ),
            _ => stored_from(buf, rest),
        }
    }
}

/// What is in the current file after actions.
pub open spec fn buffered(buf: Seq<u8>, actions: Seq<RecvActionView>) -> Seq<u8>
    decreases actions.len(),
{
    if actions.len() == 0 {
        buf
    } else {
        let rest = actions.skip(1);
        match actions[0] {
            RecvActionView::CreateFile(_) => buffered(Seq::empty(), rest),
            RecvActionView::Write(b) => buffered(buf + b, rest),
            RecvActionView::Store { from: _, to: _ } => buffered(Seq::empty(), rest),
            _ => buffered(buf, rest),
        }
    }
}

proof fn lemma_stored_append(buf: Seq<u8>, x: Seq<RecvActionView>, y: Seq<RecvActionView>)
    ensures
        stored_from(buf, x + y) == stored_from(buf, x) + stored_from(buffered(buf, x), y),
        buffered(buf, x + y) == buffered(buffered(buf, x), y),
    decreases x.len(),
{
    if x.len() == 0 {
        assert(x + y =~= y);
        assert(stored_from(buf, x) + stored_from(buf, y) =~= stored_from(buf, y));
    } else {
        assert((x + y).skip(1) =~= x.skip(1) + y);
        let rest = x.skip(1);
        match x[0] {
            RecvActionView::CreateFile(_) => lemma_stored_append(Seq::empty(), rest, y),
            RecvActionView::Write(b) => lemma_stored_append(buf + b, rest, y),
            RecvActionView::Store { from: _, to } => {
                let e = Seq::<u8>::empty();
                lemma_stored_append(e, rest, y);
                assert(seq![(to, buf)] + (stored_from(e, rest) + stored_from(buffered(e, rest), y))
                    =~= seq![(to, buf)] + stored_from(e, rest) + stored_from(
                    buffered(e, rest),
                    y,
                ));
            },
            _ => lemma_stored_append(buf, rest, y),
        }
    }
}

proof fn lemma_kept_file(buf: Seq<u8>, a: Seq<RecvActionView>)
    requires
        forall|j: int| 0 <= j < a.len() ==> keeps_file(#[trigger] a[j]),
    ensures
        stored_from(buf, a) == Seq::<(Seq<char>, Seq<u8>)>::empty(),
        buffered(buf, a) == buf + written(a),
    decreases a.len(),
{
    if a.len() == 0 {
        assert(buf + written(a) =~= buf);
    } else {
        let rest = a.skip(1);
        assert(keeps_file(a[0]));
        assert(forall|j: int| 0 <= j < rest.len() ==> (#[trigger] rest[j]) == a[j + 1]);
        match a[0] {
            RecvActionView::Write(b) => {
                lemma_kept_file(buf + b, rest);
                assert(buf + b + written(rest) =~= buf + (b + written(rest)));
            },
            _ => {
                lemma_kept_file(buf, rest);
                assert(Seq::<u8>::empty() + written(rest) =~= written(rest));
            },
        }
    }
}

proof fn lemma_written_append(x: Seq<RecvActionView>, y: Seq<RecvActionView>)
    ensures
        written(x + y) == written(x) + written(y),
    decreases x.len(),
{
    if x.len() == 0 {
        assert(x + y =~= y);
        assert(written(x) + written(y) =~= written(y));
    } else {
        lemma_written_append(x.skip(1), y);
        assert((x + y).skip(1) =~= x.skip(1) + y);
        let w = match x[0] {
            RecvActionView::Write(b) => b,
            _ => Seq::empty(),
        };
        assert(w + (written(x.skip(1)) + written(y)) =~= w + written(x.skip(1)) + written(y));
    }
}

/// All pieces put together.
pub open spec fn whole(pieces: Seq<Seq<u8>>) -> Seq<u8>
    decreases pieces.len(),
{
    if pieces.len() == 0 {
        Seq::empty()
    } else {
        pieces[0] + whole(pieces.skip(1))
    }
}

/// Each piece arrives as a chunk and is then written, at time `now`.
pub open spec fn chunk_inputs(pieces: Seq<Seq<u8>>, compressed: bool, now: u64) -> Seq<RecvInputView>
    decreases pieces.len(),
{
    if pieces.len() == 0 {
        Seq::empty()
    } else {
        seq![
            RecvInputView::Frame(sender::chunk_of(pieces[0], compressed)),
            RecvInputView::Written(now),
        ] + chunk_inputs(pieces.skip(1), compressed, now)
    }
}

/// Whether reading a chunk gives the piece back that went into it. It does for every piece that
/// the sender's compression succeeded on.
pub open spec fn carried(piece: Seq<u8>, compressed: bool) -> bool {
    codec::chunk_contents(codec::chunk_data(piece, compressed), compressed) == Some(piece)
}

/// Pieces that arrive in a file's stream are written in order, and hashed in order.
pub proof fn lemma_chunks_written(
    s: RecvView,
    pieces: Seq<Seq<u8>>,
    now: u64,
)
    requires
        s.phase == Phase::Chunks,
        forall|k: int| 0 <= k < pieces.len() ==> carried(#[trigger] pieces[k], s.compressed),
    ensures
        ({
            let (s2, a) = recv_run(s, chunk_inputs(pieces, s.compressed, now));
            &&& s2.phase == Phase::Chunks
            &&& s2.hashed == s.hashed + whole(pieces)
            &&& s2.part_path == s.part_path
            &&& s2.final_path == s.final_path
            &&& s2.compressed == s.compressed
            &&& s2.root_dst == s.root_dst
            &&& s2.entries_done == s.entries_done
            &&& s2.entries_total == s.entries_total
            &&& written(a) == whole(pieces)
            &&& forall|j: int| 0 <= j < a.len() ==> keeps_file(#[trigger] a[j])
        }),
    decreases pieces.len(),
{
    if pieces.len() == 0 {
        assert(s.hashed + whole(pieces) =~= s.hashed);
    } else {
        let p = pieces[0];
        let rest = pieces.skip(1);
        let i0 = RecvInputView::Frame(sender::chunk_of(p, s.compressed));
        let i1 = RecvInputView::Written(now);
        let later = chunk_inputs(rest, s.compressed, now);
        assert(carried(p, s.compressed));
        let (s1, a1) = receiver::recv_step(s, i0);
        let (s2, a2) = receiver::recv_step(s1, i1);
        assert(s1.phase == Phase::Writing && a1 =~= seq![RecvActionView::Write(p)]);
        assert(s2.phase == Phase::Chunks);
        assert(forall|k: int| 0 <= k < rest.len() ==> (#[trigger] rest[k]) == pieces[k + 1]);
        lemma_chunks_written(s2, rest, now);
        let (s3, a3) = recv_run(s2, later);
        let both = seq![i0, i1];
        assert(both =~= seq![i0] + seq![i1]);
        lemma_run_one(s, i0);
        lemma_run_one(s1, i1);
        lemma_run_append(s, seq![i0], seq![i1]);
        lemma_run_append(s, both, later);
        assert(written(a1) == p) by {
            assert(a1.skip(1) =~= Seq::empty());
            assert(written(Seq::<RecvActionView>::empty()) =~= Seq::empty());
            assert(p + Seq::<u8>::empty() =~= p);
        }
        assert(written(a2) =~= Seq::<u8>::empty()) by {
            reveal_with_fuel(written, 3);
            assert(a2.len() <= 2);
            if a2.len() == 2 {
                assert(a2.skip(1).skip(1) =~= Seq::empty());
            } else {
                assert(a2.skip(1) =~= Seq::empty());
            }
        }
        lemma_written_append(a1, a2);
        lemma_written_append(a1 + a2, a3);
        assert(p + Seq::<u8>::empty() + whole(rest) =~= p + whole(rest));
        assert(s.hashed + p + whole(rest) =~= s.hashed + (p + whole(rest)));
    }
}

/// All inputs that carry one file: its entry frame, its pieces, and its end with the hash.
pub open spec fn file_inputs(
    entry: LocalEntryView,
    head: Seq<u8>,
    pieces: Seq<Seq<u8>>,
    now: u64,
) -> Seq<RecvInputView> {
    let compressed = !codec::already_compressed(head);
    let all = if head.len() == 0 {
        pieces
    } else {
        seq![head] + pieces
    };
    seq![RecvInputView::Frame(sender::file_entry_of(entry, head))] + chunk_inputs(
        all,
        compressed,
        now,
    ) + seq![
        RecvInputView::Frame(FileFrameView::EntryDone { blake3: codec::blake3_digest(whole(all)) }),
    ]
}

/// A file round trip: whatever pieces the sender reads a file in, a receiver that gets their
/// frames writes exactly the file's contents into the partial file, accepts the hash, and moves
/// the partial file to the target; it never gives up.
pub proof fn law_file_roundtrip(
    s: RecvView,
    entry: LocalEntryView,
    head: Seq<u8>,
    pieces: Seq<Seq<u8>>,
    now: u64,
)
    requires
        s.phase == Phase::Entry,
        paths::joined_safely(s.root_dst, entry.rel_path) is Some,
        head.len() > 0 ==> carried(head, !codec::already_compressed(head)),
        forall|k: int|
            0 <= k < pieces.len() ==> carried(
                #[trigger] pieces[k],
                !codec::already_compressed(head),
            ),
    ensures
        ({
            let target = paths::joined_safely(s.root_dst, entry.rel_path)->0;
            let (s2, a) = recv_run(s, file_inputs(entry, head, pieces, now));
            &&& s2.phase == Phase::Storing
            &&& s2.root_dst == s.root_dst
            &&& s2.entries_done == s.entries_done
            &&& s2.entries_total == s.entries_total
            &&& a.last() == RecvActionView::Store { from: paths::part_path_of(target), to: target }
            &&& forall|buf: Seq<u8>| #[trigger]
                stored_from(buf, a) == seq![(target, head + whole(pieces))]
            &&& forall|j: int| 0 <= j < a.len() ==> !gives_up(#[trigger] a[j])
        }),
{
    let compressed = !codec::already_compressed(head);
    let all = if head.len() == 0 {
        pieces
    } else {
        seq![head] + pieces
    };
    assert forall|k: int| 0 <= k < all.len() implies carried(#[trigger] all[k], compressed) by {
        if head.len() > 0 && k > 0 {
            assert(all[k] == pieces[k - 1]);
        }
    }
    assert(whole(all) == head + whole(pieces)) by {
        if head.len() == 0 {
            assert(head + whole(pieces) =~= whole(pieces));
        } else {
            assert(all.skip(1) =~= pieces);
        }
    }
    let i0 = RecvInputView::Frame(sender::file_entry_of(entry, head));
    let mid = chunk_inputs(all, compressed, now);
    let i2 = RecvInputView::Frame(
        FileFrameView::EntryDone { blake3: codec::blake3_digest(whole(all)) },
    );
    let (s1, a1) = receiver::recv_step(s, i0);
    lemma_run_one(s, i0);
    lemma_chunks_written(s1, all, now);
    let (s2, a2) = recv_run(s1, mid);
    assert(s1.hashed + whole(all) =~= whole(all));
    lemma_run_one(s2, i2);
    let (s3, a3) = receiver::recv_step(s2, i2);
    lemma_run_append(s, seq![i0], mid);
    lemma_run_append(s, seq![i0] + mid, seq![i2]);
    let target = paths::joined_safely(s.root_dst, entry.rel_path)->0;
    let e = Seq::<u8>::empty();
    assert forall|buf: Seq<u8>| #[trigger]
        stored_from(buf, a1 + a2 + a3) == seq![(target, whole(all))] by {
        lemma_stored_append(buf, a1, a2);
        lemma_stored_append(buf, a1 + a2, a3);
        lemma_opening(buf, a1);
        lemma_kept_file(e, a2);
        assert(e + whole(all) =~= whole(all));
        let st = a3[0];
        assert(a3 =~= seq![st]);
        assert(a3.skip(1) =~= Seq::empty());
        let none = Seq::<(Seq<char>, Seq<u8>)>::empty();
        assert(stored_from(whole(all), a3) =~= seq![(target, whole(all))]) by {
            assert(stored_from(e, Seq::empty()) =~= none);
        }
        assert(none + none + seq![(target, whole(all))] =~= seq![(target, whole(all))]);
    }
    assert((a1 + a2 + a3).last() == a3.last());
}

/// The actions that open a file store nothing and leave an empty current file.
proof fn lemma_opening(buf: Seq<u8>, a: Seq<RecvActionView>)
    requires
        a.len() >= 2,
        a[a.len() - 2] is CreateFile,
        a[a.len() - 1] == RecvActionView::ReadFrame,
        forall|j: int| 0 <= j < a.len() - 2 ==> #[trigger] a[j] is CreateDirs,
    ensures
        stored_from(buf, a) == Seq::<(Seq<char>, Seq<u8>)>::empty(),
        buffered(buf, a) == Seq::<u8>::empty(),
    decreases a.len(),
{
    let rest = a.skip(1);
    if a.len() == 2 {
        reveal_with_fuel(stored_from, 3);
        reveal_with_fuel(buffered, 3);
        assert(rest.skip(1) =~= Seq::empty());
    } else {
        assert(a[0] is CreateDirs);
        assert(forall|j: int| 0 <= j < rest.len() ==> (#[trigger] rest[j]) == a[j + 1]);
        lemma_opening(buf, rest);
    }
}

/// An entry with what the sender reads of it: its first bytes and the pieces after them.
#[verifier::ext_equal]
pub struct SentEntry {
    /// The entry.
    pub entry: LocalEntryView,
    /// First bytes; empty for a directory.
    pub head: Seq<u8>,
    /// Later pieces; none for a directory.
    pub pieces: Seq<Seq<u8>>,
}

/// Whether an entry can be received below `root_dst`.
pub open spec fn receivable(e: SentEntry, root_dst: Seq<char>) -> bool {
    let compressed = !codec::already_compressed(e.head);
    &&& paths::joined_safely(root_dst, e.entry.rel_path) is Some
    &&& e.head.len() > 0 ==> carried(e.head, compressed)
    &&& forall|k: int| 0 <= k < e.pieces.len() ==> carried(#[trigger] e.pieces[k], compressed)
}

/// All inputs that carry one entry on its own stream.
pub open spec fn entry_inputs(e: SentEntry, now: u64) -> Seq<RecvInputView> {
    if e.entry.is_dir {
        let frames = sender::dir_frames_of(e.entry);
        seq![
            RecvInputView::StreamOpened,
            RecvInputView::Frame(frames[0]),
            RecvInputView::Frame(frames[1]),
        ]
    } else {
        seq![RecvInputView::StreamOpened] + file_inputs(e.entry, e.head, e.pieces, now) + seq![
            RecvInputView::Stored,
        ]
    }
}

/// All inputs that carry a list of entries.
pub open spec fn tree_inputs(es: Seq<SentEntry>, now: u64) -> Seq<RecvInputView>
    decreases es.len(),
{
    if es.len() == 0 {
        Seq::empty()
    } else {
        entry_inputs(es[0], now) + tree_inputs(es.skip(1), now)
    }
}

/// The files among entries, as target paths below `root_dst` with contents.
pub open spec fn files_of(es: Seq<SentEntry>, root_dst: Seq<char>) -> Seq<(Seq<char>, Seq<u8>)>
    decreases es.len(),
{
    if es.len() == 0 {
        Seq::empty()
    } else {
        (if es[0].entry.is_dir {
            Seq::empty()
        } else {
            seq![
                (
                    paths::joined_safely(root_dst, es[0].entry.rel_path)->0,
                    es[0].head + whole(es[0].pieces),
                ),
            ]
        }) + files_of(es.skip(1), root_dst)
    }
}

/// Steps over actions that keep the current file.
proof fn lemma_prefix_kept(buf: Seq<u8>, x: Seq<RecvActionView>, y: Seq<RecvActionView>)
    requires
        forall|j: int| 0 <= j < x.len() ==> keeps_file(#[trigger] x[j]) && !(x[j] is Write),
    ensures
        stored_from(buf, x + y) == stored_from(buf, y),
    decreases x.len(),
{
    lemma_stored_append(buf, x, y);
    lemma_kept_file(buf, x);
    lemma_nothing_written(x);
    assert(buf + Seq::<u8>::empty() =~= buf);
    assert(Seq::<(Seq<char>, Seq<u8>)>::empty() + stored_from(buf, y) =~= stored_from(buf, y));
}

proof fn lemma_nothing_written(a: Seq<RecvActionView>)
    requires
        forall|j: int| 0 <= j < a.len() ==> !(#[trigger] a[j] is Write),
    ensures
        written(a) == Seq::<u8>::empty(),
    decreases a.len(),
{
    if a.len() > 0 {
        assert(!(a[0] is Write));
        let rest = a.skip(1);
        assert(forall|j: int| 0 <= j < rest.len() ==> (#[trigger] rest[j]) == a[j + 1]);
        lemma_nothing_written(rest);
        assert(Seq::<u8>::empty() + written(rest) =~= Seq::empty());
    }
}

/// What one entry leaves behind at the receiver.
proof fn lemma_entry_received(s: RecvView, e: SentEntry, now: u64)
    requires
        s.phase == Phase::Stream,
        s.entries_done < s.entries_total,
        receivable(e, s.root_dst),
    ensures
        ({
            let (s2, a) = recv_run(s, entry_inputs(e, now));
            &&& s2 == receiver::next_entry(s2).0
            &&& s2.entries_done == s.entries_done + 1
            &&& s2.entries_total == s.entries_total
            &&& s2.root_dst == s.root_dst
            &&& s2.entries_done == s2.entries_total ==> a.last() == RecvActionView::Done(
                RecvOutcomeView::File(s.root_dst),
            )
            &&& forall|buf: Seq<u8>| #[trigger]
                stored_from(buf, a) == files_of(seq![e], s.root_dst)
            &&& forall|j: int| 0 <= j < a.len() ==> !gives_up(#[trigger] a[j])
        }),
{
    let ins = entry_inputs(e, now);
    let i0 = RecvInputView::StreamOpened;
    let (s1, a1) = receiver::recv_step(s, i0);
    lemma_run_one(s, i0);
    let none = Seq::<(Seq<char>, Seq<u8>)>::empty();
    assert(seq![e].skip(1) =~= Seq::empty());
    assert(files_of(Seq::empty(), s.root_dst) =~= none);
    if e.entry.is_dir {
        let frames = sender::dir_frames_of(e.entry);
        let i1 = RecvInputView::Frame(frames[0]);
        let i2 = RecvInputView::Frame(frames[1]);
        let (s2, a2) = receiver::recv_step(s1, i1);
        let (s3, a3) = receiver::recv_step(s2, i2);
        lemma_run_one(s1, i1);
        lemma_run_one(s2, i2);
        lemma_run_append(s, seq![i0], seq![i1]);
        lemma_run_append(s, seq![i0] + seq![i1], seq![i2]);
        assert(ins =~= seq![i0] + seq![i1] + seq![i2]);
        let a = a1 + a2 + a3;
        assert(forall|j: int| 0 <= j < a.len() ==> keeps_file(#[trigger] a[j]));
        assert forall|buf: Seq<u8>| #[trigger] stored_from(buf, a) == files_of(
            seq![e],
            s.root_dst,
        ) by {
            lemma_kept_file(buf, a);
            assert(none + none =~= none);
        }
        assert(a.last() == a3.last());
    } else {
        let mid = file_inputs(e.entry, e.head, e.pieces, now);
        law_file_roundtrip(s1, e.entry, e.head, e.pieces, now);
        let (s2, a2) = recv_run(s1, mid);
        let i2 = RecvInputView::Stored;
        let (s3, a3) = receiver::recv_step(s2, i2);
        lemma_run_one(s2, i2);
        lemma_run_append(s, seq![i0], mid);
        lemma_run_append(s, seq![i0] + mid, seq![i2]);
        let a = a1 + a2 + a3;
        let file = seq![
            (
                paths::joined_safely(s.root_dst, e.entry.rel_path)->0,
                e.head + whole(e.pieces),
            ),
        ];
        assert forall|buf: Seq<u8>| #[trigger] stored_from(buf, a) == files_of(
            seq![e],
            s.root_dst,
        ) by {
            assert(a =~= a1 + (a2 + a3));
            lemma_prefix_kept(buf, a1, a2 + a3);
            lemma_stored_append(buf, a2, a3);
            assert(stored_from(buf, a2) == file);
            lemma_kept_file(buffered(buf, a2), a3);
            assert(file + none =~= file);
        }
        assert(a.last() == a3.last());
    }
}

/// A tree round trip: a receiver whose remaining entries all arrive as the sender makes them
/// stores exactly the files among them, each under its own path below the root with its own
/// contents, and ends with the root as its destination; it never gives up.
pub proof fn law_tree_roundtrip(s: RecvView, es: Seq<SentEntry>, now: u64)
    requires
        s.phase == Phase::Stream,
        es.len() > 0,
        s.entries_done + es.len() == s.entries_total,
        forall|k: int| 0 <= k < es.len() ==> receivable(#[trigger] es[k], s.root_dst),
    ensures
        ({
            let (s2, a) = recv_run(s, tree_inputs(es, now));
            &&& s2.phase == Phase::Closed
            &&& a.last() == RecvActionView::Done(RecvOutcomeView::File(s.root_dst))
            &&& forall|buf: Seq<u8>| #[trigger] stored_from(buf, a) == files_of(es, s.root_dst)
            &&& forall|j: int| 0 <= j < a.len() ==> !gives_up(#[trigger] a[j])
        }),
    decreases es.len(),
{
    let e = es[0];
    let rest = es.skip(1);
    assert(receivable(e, s.root_dst));
    lemma_entry_received(s, e, now);
    let (s1, a1) = recv_run(s, entry_inputs(e, now));
    lemma_run_append(s, entry_inputs(e, now), tree_inputs(rest, now));
    assert(forall|k: int| 0 <= k < rest.len() ==> (#[trigger] rest[k]) == es[k + 1]);
    let one = files_of(seq![e], s.root_dst);
    let none = Seq::<(Seq<char>, Seq<u8>)>::empty();
    assert(seq![e].skip(1) =~= Seq::empty());
    assert(files_of(Seq::empty(), s.root_dst) =~= none);
    let (s2, a2) = recv_run(s1, tree_inputs(rest, now));
    if rest.len() == 0 {
        assert(a1 + a2 =~= a1);
        assert(files_of(rest, s.root_dst) =~= none);
        assert(a1.len() > 0) by {
            if a1.len() == 0 {
                lemma_run_nonempty(s, e, now);
            }
        }
    } else {
        law_tree_roundtrip(s1, rest, now);
        assert(a2.len() > 0) by {
            if a2.len() == 0 {
                lemma_run_nonempty(s1, rest[0], now);
                lemma_run_append(s1, entry_inputs(rest[0], now), tree_inputs(rest.skip(1), now));
            }
        }
        assert((a1 + a2).last() == a2.last());
    }
    assert forall|buf: Seq<u8>| #[trigger] stored_from(buf, a1 + a2) == files_of(
        es,
        s.root_dst,
    ) by {
        lemma_stored_append(buf, a1, a2);
        assert(stored_from(buf, a1) == one);
        assert(one =~= (if e.entry.is_dir {
            none
        } else {
            seq![
                (
                    paths::joined_safely(s.root_dst, e.entry.rel_path)->0,
                    e.head + whole(e.pieces),
                ),
            ]
        }));
        if rest.len() == 0 {
            assert(stored_from(buffered(buf, a1), a2) =~= none);
        }
    }
}

/// Opening a stream always leads to an action.
proof fn lemma_run_nonempty(s: RecvView, e: SentEntry, now: u64)
    requires
        s.phase == Phase::Stream,
    ensures
        recv_run(s, entry_inputs(e, now)).1.len() > 0,
{
    let ins = entry_inputs(e, now);
    assert(ins[0] == RecvInputView::StreamOpened);
    let (s1, a) = receiver::recv_step(s, ins[0]);
    assert(a.len() == 1);
}

// ----- the sender's paths ---------------------------------------------------

/// Names as a file system has them: not empty, neither `.` nor `..`, no separator.
pub open spec fn file_system_name(n: Seq<char>) -> bool {
    n.len() > 0 && n != seq!['.'] && n != seq!['.', '.'] && !n.contains('/')
}

/// Whether all names in a tree are file-system names.
pub open spec fn names_valid(node: FsNode) -> bool
    decreases node,
{
    match node {
        FsNode::Dir { name: _, mode: _, children } => forall|k: int|
            #![trigger children@[k]]
            0 <= k < children@.len() ==> names_valid(children@[k]) && (children@[k] is Other
                || file_system_name(sender::node_name(children@[k]))),
        _ => true,
    }
}

/// A path made of file-system names.
pub open spec fn name_path(p: Seq<char>) -> bool {
    exists|names: Seq<Seq<char>>| #[trigger]
        paths::slash_joined(names) == p && names_ok(names)
}

/// At least one name, and all of them file-system names.
pub open spec fn names_ok(names: Seq<Seq<char>>) -> bool {
    names.len() > 0 && forall|k: int| 0 <= k < names.len() ==> file_system_name(#[trigger] names[k])
}

proof fn lemma_slash_joined_ends(names: Seq<Seq<char>>)
    requires
        names_ok(names),
    ensures
        paths::slash_joined(names).len() > 0,
        paths::slash_joined(names)[0] != '/',
        paths::slash_joined(names).last() != '/',
    decreases names.len(),
{
    let n = names[0];
    assert(file_system_name(n));
    assert(n.contains(n[0]) && n.contains(n.last()));
    if names.len() > 1 {
        let rest = names.skip(1);
        assert(forall|k: int| 0 <= k < rest.len() ==> (#[trigger] rest[k]) == names[k + 1]);
        lemma_slash_joined_ends(rest);
    }
}

proof fn lemma_slash_joined_push(names: Seq<Seq<char>>, n: Seq<char>)
    requires
        names_ok(names),
        file_system_name(n),
    ensures
        paths::joined(paths::slash_joined(names), n) == paths::slash_joined(names.push(n)),
        names_ok(names.push(n)),
    decreases names.len(),
{
    lemma_slash_joined_ends(names);
    assert(n.contains(n[0]));
    let p = paths::slash_joined(names);
    assert(paths::joined(p, n) == p + seq!['/'] + n);
    assert(names.push(n).skip(1) =~= names.skip(1).push(n));
    if names.len() == 1 {
        assert(names.skip(1).push(n) =~= seq![n]);
        assert(names.push(n)[0] == names[0]);
        assert(paths::slash_joined(seq![n]) == n);
    } else {
        let rest = names.skip(1);
        assert(forall|k: int| 0 <= k < rest.len() ==> (#[trigger] rest[k]) == names[k + 1]);
        lemma_slash_joined_ends(rest);
        lemma_slash_joined_push(rest, n);
        let r = paths::slash_joined(rest);
        assert(names[0] + seq!['/'] + (r + seq!['/'] + n) =~= names[0] + seq!['/'] + r + seq!['/']
            + n);
    }
}

proof fn lemma_name_path_joins(root: Seq<char>, p: Seq<char>)
    requires
        name_path(p),
    ensures
        paths::joined_safely(root, p) is Some,
{
    let names = choose|names: Seq<Seq<char>>| #[trigger]
        paths::slash_joined(names) == p && names_ok(names);
    lemma_slash_joined_ends(names);
    assert forall|k: int| 0 <= k < names.len() implies !(#[trigger] names[k]).contains('/') by {
        assert(file_system_name(names[k]));
    }
    paths::lemma_split_slash_joined(names);
    lemma_names_resolve(names, Seq::empty());
}

proof fn lemma_names_resolve(names: Seq<Seq<char>>, stack: Seq<Seq<char>>)
    requires
        forall|k: int| 0 <= k < names.len() ==> file_system_name(#[trigger] names[k]),
    ensures
        paths::resolved(names, stack) is Some,
    decreases names.len(),
{
    if names.len() > 0 {
        let rest = names.skip(1);
        assert(file_system_name(names[0]));
        assert(forall|k: int| 0 <= k < rest.len() ==> (#[trigger] rest[k]) == names[k + 1]);
        lemma_names_resolve(rest, stack.push(paths::sanitized(names[0])));
    }
}

proof fn lemma_walked_paths(node: FsNode, abs: Seq<char>, rel: Seq<char>)
    requires
        names_valid(node),
        name_path(rel),
    ensures
        forall|k: int|
            0 <= k < sender::walked(node, abs, rel).len() ==> name_path(
                (#[trigger] sender::walked(node, abs, rel)[k]).rel_path,
            ),
    decreases node, 1nat, 0nat,
{
    match node {
        FsNode::Dir { name: _, mode: _, children } => {
            lemma_walked_children_paths(node, children@.len(), abs, rel);
            let w = sender::walked(node, abs, rel);
            let below = sender::walked_children(node, children@.len(), abs, rel);
            assert forall|k: int| 0 <= k < w.len() implies name_path(
                (#[trigger] w[k]).rel_path,
            ) by {
                if k > 0 {
                    assert(w[k] == below[k - 1]);
                }
            }
        },
        _ => {},
    }
}

proof fn lemma_walked_children_paths(node: FsNode, k: nat, abs: Seq<char>, rel: Seq<char>)
    requires
        names_valid(node),
        name_path(rel),
    ensures
        forall|j: int|
            0 <= j < sender::walked_children(node, k, abs, rel).len() ==> name_path(
                (#[trigger] sender::walked_children(node, k, abs, rel)[j]).rel_path,
            ),
    decreases node, 0nat, k,
{
    match node {
        FsNode::Dir { name: _, mode: _, children } => {
            if k > 0 && k <= children@.len() {
                let child = children@[k - 1];
                lemma_walked_children_paths(node, (k - 1) as nat, abs, rel);
                let n = sender::node_name(child);
                if !(child is Other) {
                    let names = choose|names: Seq<Seq<char>>| #[trigger]
                        paths::slash_joined(names) == rel && names_ok(names);
                    lemma_slash_joined_push(names, n);
                    assert(name_path(paths::joined(rel, n)));
                    lemma_walked_paths(child, paths::joined(abs, n), paths::joined(rel, n));
                }
                let w = sender::walked_children(node, k, abs, rel);
                let before = sender::walked_children(node, (k - 1) as nat, abs, rel);
                let own = sender::walked(child, paths::joined(abs, n), paths::joined(rel, n));
                assert forall|j: int| 0 <= j < w.len() implies name_path(
                    (#[trigger] w[j]).rel_path,
                ) by {
                    if j < before.len() {
                        assert(w[j] == before[j]);
                    } else {
                        assert(w[j] == own[j - before.len()]);
                    }
                }
            }
        },
        _ => {},
    }
}

/// Everything that a sender enumerates can be joined below any root at the receiver: no entry of
/// an honest sender is ever rejected for its path.
pub proof fn law_enumerated_paths_are_accepted(node: FsNode, root: Seq<char>, root_dst: Seq<char>)
    requires
        names_valid(node),
    ensures
        forall|k: int|
            0 <= k < sender::walked(node, root, paths::offered_name(root)).len()
                ==> paths::joined_safely(
                root_dst,
                (#[trigger] sender::walked(node, root, paths::offered_name(root))[k]).rel_path,
            ) is Some,
{
    let n = paths::offered_name(root);
    reveal_strlit("drop");
    assert(file_system_name(n)) by {
        if paths::last_name(root) is None {
            assert(n[0] == 'd' && n[1] == 'r' && n[2] == 'o' && n[3] == 'p');
            assert(seq!['.'].len() == 1 && seq!['.', '.'].len() == 2);
        } else {
            paths::lemma_last_name_has_no_separator(root);
        }
    }
    assert(names_ok(seq![n]));
    assert(paths::slash_joined(seq![n]) == n);
    assert(name_path(n));
    lemma_walked_paths(node, root, n);
    assert forall|k: int| 0 <= k < sender::walked(node, root, n).len() implies paths::joined_safely(
        root_dst,
        (#[trigger] sender::walked(node, root, n)[k]).rel_path,
    ) is Some by {
        lemma_name_path_joins(root_dst, sender::walked(node, root, n)[k].rel_path);
    }
}

/// All inputs that carry one clipboard.
pub open spec fn clipboard_inputs(xfer_id: u64, content: Seq<u8>) -> Seq<RecvInputView> {
    let frames = sender::clipboard_frames_of(content);
    seq![
        RecvInputView::Ctrl(sender::clipboard_offer_of(xfer_id, content.len() as u64)),
        RecvInputView::StreamOpened,
    ] + Seq::new(frames.len(), |k: int| RecvInputView::Frame(frames[k]))
}

/// A clipboard round trip: a clipboard within the caps arrives unchanged, without a prompt.
pub proof fn law_clipboard_roundtrip(
    xfer_id: u64,
    limits: Limits,
    peer_addr: SocketAddr,
    peer_fingerprint: Seq<char>,
    sender_id: u64,
    content: Seq<u8>,
)
    requires
        content.len() <= limits.max_bytes,
        1 <= limits.max_entries,
    ensures
        recv_run(
            receiver::fresh_receiver(xfer_id, limits, peer_addr, peer_fingerprint),
            clipboard_inputs(sender_id, content),
        ).1.contains(
            RecvActionView::Emit(EventView::ClipboardReceived { peer_addr, content }),
        ),
        recv_run(
            receiver::fresh_receiver(xfer_id, limits, peer_addr, peer_fingerprint),
            clipboard_inputs(sender_id, content),
        ).1.last() == RecvActionView::Done(RecvOutcomeView::Clipboard),
{
    let s0 = receiver::fresh_receiver(xfer_id, limits, peer_addr, peer_fingerprint);
    let ins = clipboard_inputs(sender_id, content);
    let frames = sender::clipboard_frames_of(content);
    let i0 = ins[0];
    let i1 = ins[1];
    let i2 = ins[2];
    let (s1, a1) = receiver::recv_step(s0, i0);
    let (s2, a2) = receiver::recv_step(s1, i1);
    let (s3, a3) = receiver::recv_step(s2, i2);
    let last = RecvInputView::Frame(
        FileFrameView::EntryDone { blake3: codec::blake3_digest(content) },
    );
    lemma_run_one(s0, i0);
    lemma_run_one(s1, i1);
    lemma_run_one(s2, i2);
    let head = seq![i0] + seq![i1] + seq![i2];
    lemma_run_append(s0, seq![i0], seq![i1]);
    lemma_run_append(s0, seq![i0] + seq![i1], seq![i2]);
    let (s4, a4) = if content.len() == 0 {
        (s3, Seq::<RecvActionView>::empty())
    } else {
        receiver::recv_step(s3, ins[3])
    };
    if content.len() == 0 {
        assert(ins =~= head + seq![last]);
        assert(content =~= Seq::empty());
        lemma_run_append(s0, head, seq![last]);
    } else {
        lemma_run_one(s3, ins[3]);
        lemma_run_append(s0, head, seq![ins[3]]);
        assert(ins =~= head + seq![ins[3]] + seq![last]);
        lemma_run_append(s0, head + seq![ins[3]], seq![last]);
        assert(s4.hashed =~= content);
        assert(s4.clipboard =~= content);
    }
    let (s5, a5) = receiver::recv_step(s4, last);
    lemma_run_one(s4, last);
    let before = recv_run(s0, ins).1.len() - a5.len();
    let emit = RecvActionView::Emit(EventView::ClipboardReceived { peer_addr, content });
    assert(a5[2] == emit);
    assert(recv_run(s0, ins).1[before + 2] == emit);
}

// ----- what a sender sends --------------------------------------------------

/// What a sender does over a list of inputs.
pub open spec fn send_run(s: SendView, inputs: Seq<SendInputView>) -> (SendView, Seq<SendActionView>)
    decreases inputs.len(),
{
    if inputs.len() == 0 {
        (s, Seq::empty())
    } else {
        let (s1, a) = outgoing::send_step(s, inputs[0]);
        let (s2, b) = send_run(s1, inputs.skip(1));
        (s2, a + b)
    }
}

proof fn lemma_send_run_append(s: SendView, x: Seq<SendInputView>, y: Seq<SendInputView>)
    ensures
        send_run(s, x + y).0 == send_run(send_run(s, x).0, y).0,
        send_run(s, x + y).1 == send_run(s, x).1 + send_run(send_run(s, x).0, y).1,
    decreases x.len(),
{
    if x.len() == 0 {
        assert(x + y =~= y);
        assert(Seq::<SendActionView>::empty() + send_run(s, y).1 =~= send_run(s, y).1);
    } else {
        let (s1, a) = outgoing::send_step(s, x[0]);
        assert((x + y).skip(1) =~= x.skip(1) + y);
        lemma_send_run_append(s1, x.skip(1), y);
        let (s2, b) = send_run(s1, x.skip(1));
        assert(a + (b + send_run(s2, y).1) =~= a + b + send_run(s2, y).1);
    }
}

proof fn lemma_send_run_one(s: SendView, i: SendInputView)
    ensures
        send_run(s, seq![i]) == outgoing::send_step(s, i),
{
    let (s1, a) = outgoing::send_step(s, i);
    assert(seq![i].skip(1) =~= Seq::empty());
    assert(send_run(s1, Seq::empty()) == (s1, Seq::<SendActionView>::empty()));
    assert(a + Seq::<SendActionView>::empty() =~= a);
}

/// The data frames among what a sender does, in order.
pub open spec fn frames_sent(actions: Seq<SendActionView>) -> Seq<FileFrameView>
    decreases actions.len(),
{
    if actions.len() == 0 {
        Seq::empty()
    } else {
        (match actions[0] {
            SendActionView::SendFrame(f) => seq![f],
            _ => Seq::empty(),
        }) + frames_sent(actions.skip(1))
    }
}

proof fn lemma_frames_sent_append(x: Seq<SendActionView>, y: Seq<SendActionView>)
    ensures
        frames_sent(x + y) == frames_sent(x) + frames_sent(y),
    decreases x.len(),
{
    if x.len() == 0 {
        assert(x + y =~= y);
        assert(frames_sent(x) + frames_sent(y) =~= frames_sent(y));
    } else {
        assert((x + y).skip(1) =~= x.skip(1) + y);
        lemma_frames_sent_append(x.skip(1), y);
        assert(frames_sent(x + y) =~= frames_sent(x) + frames_sent(y));
    }
}

proof fn lemma_frames_sent_all(frames: Seq<FileFrameView>)
    ensures
        frames_sent(outgoing::sent(frames)) == frames,
    decreases frames.len(),
{
    if frames.len() > 0 {
        assert(outgoing::sent(frames).skip(1) =~= outgoing::sent(frames.skip(1)));
        lemma_frames_sent_all(frames.skip(1));
        assert(seq![frames[0]] + frames.skip(1) =~= frames);
    }
}

proof fn lemma_no_frames_sent(a: Seq<SendActionView>)
    requires
        forall|j: int| 0 <= j < a.len() ==> !(#[trigger] a[j] is SendFrame),
    ensures
        frames_sent(a) == Seq::<FileFrameView>::empty(),
    decreases a.len(),
{
    if a.len() > 0 {
        assert(!(a[0] is SendFrame));
        let rest = a.skip(1);
        assert(forall|j: int| 0 <= j < rest.len() ==> (#[trigger] rest[j]) == a[j + 1]);
        lemma_no_frames_sent(rest);
        assert(Seq::<FileFrameView>::empty() + frames_sent(rest) =~= Seq::empty());
    }
}

/// The data frames among what a receiver gets, in order.
pub open spec fn frames_received(inputs: Seq<RecvInputView>) -> Seq<FileFrameView>
    decreases inputs.len(),
{
    if inputs.len() == 0 {
        Seq::empty()
    } else {
        (match inputs[0] {
            RecvInputView::Frame(f) => seq![f],
            _ => Seq::empty(),
        }) + frames_received(inputs.skip(1))
    }
}

proof fn lemma_frames_received_append(x: Seq<RecvInputView>, y: Seq<RecvInputView>)
    ensures
        frames_received(x + y) == frames_received(x) + frames_received(y),
    decreases x.len(),
{
    if x.len() == 0 {
        assert(x + y =~= y);
        assert(frames_received(x) + frames_received(y) =~= frames_received(y));
    } else {
        assert((x + y).skip(1) =~= x.skip(1) + y);
        lemma_frames_received_append(x.skip(1), y);
        assert(frames_received(x + y) =~= frames_received(x) + frames_received(y));
    }
}

proof fn lemma_frames_received_one(i: RecvInputView)
    ensures
        i matches RecvInputView::Frame(f) ==> frames_received(seq![i]) == seq![f],
        !(i is Frame) ==> frames_received(seq![i]) == Seq::<FileFrameView>::empty(),
{
    assert(seq![i].skip(1) =~= Seq::empty());
    assert(frames_received(Seq::empty()) =~= Seq::empty());
    assert(frames_received(seq![i]) =~= (match i {
        RecvInputView::Frame(f) => seq![f],
        _ => Seq::empty(),
    }));
}

/// The chunks that carry the pieces.
pub open spec fn chunks_of(pieces: Seq<Seq<u8>>, compressed: bool) -> Seq<FileFrameView> {
    Seq::new(pieces.len(), |k: int| sender::chunk_of(pieces[k], compressed))
}

proof fn lemma_chunk_frames(pieces: Seq<Seq<u8>>, compressed: bool, now: u64)
    ensures
        frames_received(chunk_inputs(pieces, compressed, now)) == chunks_of(pieces, compressed),
    decreases pieces.len(),
{
    if pieces.len() == 0 {
        assert(chunks_of(pieces, compressed) =~= Seq::empty());
    } else {
        let i0 = RecvInputView::Frame(sender::chunk_of(pieces[0], compressed));
        let i1 = RecvInputView::Written(now);
        let rest = chunk_inputs(pieces.skip(1), compressed, now);
        assert(seq![i0, i1] =~= seq![i0] + seq![i1]);
        lemma_frames_received_one(i0);
        lemma_frames_received_one(i1);
        lemma_frames_received_append(seq![i0], seq![i1]);
        lemma_frames_received_append(seq![i0, i1], rest);
        lemma_chunk_frames(pieces.skip(1), compressed, now);
        assert(frames_received(chunk_inputs(pieces, compressed, now)) =~= chunks_of(
            pieces,
            compressed,
        ));
    }
}

/// The reads of one entry.
#[verifier::ext_equal]
pub struct EntryReads {
    /// The entry.
    pub entry: LocalEntryView,
    /// What each read of the first bytes gave, up to the one that completed or ended them.
    pub head: Seq<Seq<u8>>,
    /// What each later read gave, up to the end of the file.
    pub pieces: Seq<Seq<u8>>,
}

/// Whether reads give something, and of the first bytes no more than are asked for.
pub open spec fn reads_valid(r: EntryReads) -> bool {
    &&& forall|k: int| 0 <= k < r.head.len() ==> (#[trigger] r.head[k]).len() > 0
    &&& whole(r.head).len() <= sender::HEAD_BYTES
    &&& forall|k: int| 0 <= k < r.pieces.len() ==> (#[trigger] r.pieces[k]).len() > 0
}

/// The entry with its contents as the reads gave them.
pub open spec fn as_sent(r: EntryReads) -> SentEntry {
    SentEntry { entry: r.entry, head: whole(r.head), pieces: r.pieces }
}

/// All entries with their contents as the reads gave them.
pub open spec fn all_as_sent(rs: Seq<EntryReads>) -> Seq<SentEntry> {
    Seq::new(rs.len(), |k: int| as_sent(rs[k]))
}

/// The reads as inputs.
pub open spec fn data_inputs(reads: Seq<Seq<u8>>) -> Seq<SendInputView> {
    Seq::new(reads.len(), |k: int| SendInputView::Data(reads[k]))
}

/// A read that finds the end of the file, where the first bytes are not complete without it.
pub open spec fn head_end(head: Seq<u8>) -> Seq<SendInputView> {
    if head.len() < sender::HEAD_BYTES {
        seq![SendInputView::Data(Seq::empty())]
    } else {
        Seq::empty()
    }
}

/// All inputs of a sender over one entry.
pub open spec fn read_inputs(r: EntryReads) -> Seq<SendInputView> {
    if r.entry.is_dir {
        seq![SendInputView::StreamOpened]
    } else {
        seq![SendInputView::StreamOpened, SendInputView::FileOpened] + (data_inputs(r.head)
            + head_end(whole(r.head))) + (data_inputs(r.pieces) + seq![
            SendInputView::Data(Seq::empty()),
        ])
    }
}

/// All inputs of a sender over a list of entries.
pub open spec fn tree_reads(rs: Seq<EntryReads>) -> Seq<SendInputView>
    decreases rs.len(),
{
    if rs.len() == 0 {
        Seq::empty()
    } else {
        read_inputs(rs[0]) + tree_reads(rs.skip(1))
    }
}

/// However the first bytes are read, the frames that open the file are the same.
proof fn lemma_head_sent(s: SendView, reads: Seq<Seq<u8>>)
    requires
        s.phase == SendPhase::Head,
        s.head.len() < sender::HEAD_BYTES,
        forall|k: int| 0 <= k < reads.len() ==> (#[trigger] reads[k]).len() > 0,
        (s.head + whole(reads)).len() <= sender::HEAD_BYTES,
    ensures
        ({
            let head = s.head + whole(reads);
            let (s2, a) = send_run(s, data_inputs(reads) + head_end(head));
            &&& s2 == SendView {
                phase: SendPhase::Body,
                head: Seq::empty(),
                file: Some(
                    EntrySenderView { compressed: !codec::already_compressed(head), sent: head },
                ),
                ..s
            }
            &&& frames_sent(a) == sender::opening_of(s.entries[s.next as int], head)
        }),
    decreases reads.len(),
{
    let head = s.head + whole(reads);
    let ins = data_inputs(reads) + head_end(head);
    let entry = s.entries[s.next as int];
    let frames = sender::opening_of(entry, head);
    let reading = seq![SendActionView::Read(codec::CHUNK_SIZE)];
    lemma_frames_sent_all(frames);
    lemma_no_frames_sent(reading);
    lemma_frames_sent_append(outgoing::sent(frames), reading);
    assert(frames + Seq::<FileFrameView>::empty() =~= frames);
    if reads.len() == 0 {
        assert(head =~= s.head);
        let i = SendInputView::Data(Seq::empty());
        assert(ins =~= seq![i]);
        assert(s.head + Seq::<u8>::empty() =~= s.head);
        lemma_send_run_one(s, i);
    } else {
        let d = reads[0];
        let rest = reads.skip(1);
        let i = SendInputView::Data(d);
        assert(d.len() > 0);
        let (s1, a1) = outgoing::send_step(s, i);
        assert(s.head + d + whole(rest) =~= head);
        if (s.head + d).len() >= sender::HEAD_BYTES {
            if rest.len() > 0 {
                assert(rest[0] == reads[1]);
                assert(whole(rest).len() > 0);
                assert(false);
            }
            assert(whole(rest) =~= Seq::empty());
            assert(s.head + d =~= head);
            assert(ins =~= seq![i]);
            lemma_send_run_one(s, i);
        } else {
            assert(forall|k: int| 0 <= k < rest.len() ==> (#[trigger] rest[k]) == reads[k + 1]);
            lemma_head_sent(s1, rest);
            assert(s1.head + whole(rest) =~= head);
            assert(ins.skip(1) =~= data_inputs(rest) + head_end(head));
            lemma_no_frames_sent(a1);
            let (s2, a2) = send_run(s1, data_inputs(rest) + head_end(head));
            lemma_frames_sent_append(a1, a2);
            assert(Seq::<FileFrameView>::empty() + frames =~= frames);
        }
    }
}

/// The pieces of a file go out in order, followed by the hash of all of it.
proof fn lemma_body_sent(s: SendView, pieces: Seq<Seq<u8>>)
    requires
        s.phase == SendPhase::Body,
        s.file is Some,
        forall|k: int| 0 <= k < pieces.len() ==> (#[trigger] pieces[k]).len() > 0,
    ensures
        ({
            let f = s.file->0;
            let (s2, a) = send_run(
                s,
                data_inputs(pieces) + seq![SendInputView::Data(Seq::empty())],
            );
            &&& s2 == outgoing::entry_over(s).0
            &&& frames_sent(a) == chunks_of(pieces, f.compressed) + seq![
                FileFrameView::EntryDone { blake3: codec::blake3_digest(f.sent + whole(pieces)) },
            ]
        }),
    decreases pieces.len(),
{
    let f = s.file->0;
    let end = SendInputView::Data(Seq::empty());
    let ins = data_inputs(pieces) + seq![end];
    if pieces.len() == 0 {
        assert(ins =~= seq![end]);
        lemma_send_run_one(s, end);
        let (s2, a) = outgoing::send_step(s, end);
        let done = FileFrameView::EntryDone { blake3: codec::blake3_digest(f.sent) };
        let over = outgoing::entry_over(s).1;
        let first = seq![SendActionView::SendFrame(done)];
        assert(first =~= outgoing::sent(seq![done]));
        lemma_frames_sent_all(seq![done]);
        lemma_no_frames_sent(over);
        lemma_frames_sent_append(first, over);
        assert(f.sent + whole(pieces) =~= f.sent);
        assert(frames_sent(a) =~= chunks_of(pieces, f.compressed) + seq![done]);
    } else {
        let d = pieces[0];
        let rest = pieces.skip(1);
        let i = SendInputView::Data(d);
        assert(d.len() > 0);
        let (s1, a1) = outgoing::send_step(s, i);
        assert(forall|k: int| 0 <= k < rest.len() ==> (#[trigger] rest[k]) == pieces[k + 1]);
        lemma_body_sent(s1, rest);
        assert(ins.skip(1) =~= data_inputs(rest) + seq![end]);
        let chunk = sender::chunk_of(d, f.compressed);
        let reading = seq![SendActionView::Read(codec::CHUNK_SIZE)];
        assert(a1 =~= outgoing::sent(seq![chunk]) + reading);
        lemma_frames_sent_all(seq![chunk]);
        lemma_no_frames_sent(reading);
        lemma_frames_sent_append(outgoing::sent(seq![chunk]), reading);
        let (s2, a2) = send_run(s1, data_inputs(rest) + seq![end]);
        lemma_frames_sent_append(a1, a2);
        assert(f.sent + d + whole(rest) =~= f.sent + whole(pieces));
        assert(frames_sent(a1) =~= seq![chunk]);
        assert(frames_sent(a1 + a2) =~= chunks_of(pieces, f.compressed) + seq![
            FileFrameView::EntryDone { blake3: codec::blake3_digest(f.sent + whole(pieces)) },
        ]);
        assert(outgoing::entry_over(s1).0 =~= outgoing::entry_over(s).0);
    }
}

/// The frames of one entry, from either end.
#[verifier::rlimit(60)]
#[verifier::spinoff_prover]
proof fn lemma_entry_sent(s: SendView, r: EntryReads, now: u64)
    requires
        s.phase == SendPhase::Stream,
        s.clipboard is None,
        s.next < s.entries.len(),
        s.entries[s.next as int] == r.entry,
        reads_valid(r),
    ensures
        send_run(s, read_inputs(r)).0 == outgoing::entry_over(s).0,
        frames_sent(send_run(s, read_inputs(r)).1) == frames_received(
            entry_inputs(as_sent(r), now),
        ),
{
    let e = as_sent(r);
    let opened = RecvInputView::StreamOpened;
    lemma_frames_received_one(opened);
    let i0 = SendInputView::StreamOpened;
    let (s1, a1) = outgoing::send_step(s, i0);
    lemma_send_run_one(s, i0);
    if r.entry.is_dir {
        let frames = sender::dir_frames_of(r.entry);
        let over = outgoing::entry_over(s).1;
        lemma_frames_sent_all(frames);
        lemma_no_frames_sent(over);
        lemma_frames_sent_append(outgoing::sent(frames), over);
        let r1 = RecvInputView::Frame(frames[0]);
        let r2 = RecvInputView::Frame(frames[1]);
        lemma_frames_received_one(r1);
        lemma_frames_received_one(r2);
        lemma_frames_received_append(seq![opened], seq![r1]);
        lemma_frames_received_append(seq![opened] + seq![r1], seq![r2]);
        assert(entry_inputs(e, now) =~= seq![opened] + seq![r1] + seq![r2]);
        assert(frames_sent(a1) =~= frames_received(entry_inputs(e, now)));
    } else {
        let head = whole(r.head);
        let compressed = !codec::already_compressed(head);
        let i1 = SendInputView::FileOpened;
        let (s2, a2) = outgoing::send_step(s1, i1);
        lemma_send_run_one(s1, i1);
        lemma_send_run_append(s, seq![i0], seq![i1]);
        assert(seq![i0, i1] =~= seq![i0] + seq![i1]);
        let first = data_inputs(r.head) + head_end(head);
        let later = data_inputs(r.pieces) + seq![SendInputView::Data(Seq::empty())];
        assert(s2.head + head =~= head);
        lemma_head_sent(s2, r.head);
        let (s3, a3) = send_run(s2, first);
        lemma_body_sent(s3, r.pieces);
        let (s4, a4) = send_run(s3, later);
        lemma_send_run_append(s, seq![i0, i1], first);
        lemma_send_run_append(s, seq![i0, i1] + first, later);
        assert(outgoing::entry_over(s3).0 =~= outgoing::entry_over(s).0);
        lemma_no_frames_sent(a1);
        lemma_no_frames_sent(a2);
        lemma_frames_sent_append(a1, a2);
        lemma_frames_sent_append(a1 + a2, a3);
        lemma_frames_sent_append(a1 + a2 + a3, a4);
        let all = if head.len() == 0 {
            r.pieces
        } else {
            seq![head] + r.pieces
        };
        let entry_frame = RecvInputView::Frame(sender::file_entry_of(r.entry, head));
        let done = FileFrameView::EntryDone { blake3: codec::blake3_digest(whole(all)) };
        let chunks = chunk_inputs(all, compressed, now);
        let last = RecvInputView::Frame(done);
        let stored = RecvInputView::Stored;
        lemma_frames_received_one(entry_frame);
        lemma_frames_received_one(last);
        lemma_frames_received_one(stored);
        lemma_chunk_frames(all, compressed, now);
        lemma_frames_received_append(seq![entry_frame], chunks);
        lemma_frames_received_append(seq![entry_frame] + chunks, seq![last]);
        let mid = file_inputs(e.entry, e.head, e.pieces, now);
        assert(mid =~= seq![entry_frame] + chunks + seq![last]);
        lemma_frames_received_append(seq![opened], mid);
        lemma_frames_received_append(seq![opened] + mid, seq![stored]);
        assert(whole(all) =~= head + whole(r.pieces)) by {
            if head.len() > 0 {
                assert(all.skip(1) =~= r.pieces);
            }
        }
        assert(frames_sent(a1 + a2 + a3 + a4) =~= sender::opening_of(r.entry, head) + (chunks_of(
            r.pieces,
            compressed,
        ) + seq![done]));
        assert(frames_received(entry_inputs(e, now)) =~= seq![
            sender::file_entry_of(r.entry, head),
        ] + chunks_of(all, compressed) + seq![done]);
        assert(sender::opening_of(r.entry, head) + (chunks_of(r.pieces, compressed) + seq![done])
            =~= seq![sender::file_entry_of(r.entry, head)] + chunks_of(all, compressed) + seq![
            done,
        ]);
    }
}

/// Whatever pieces the files are read in, the frames that a sender puts on its streams for the
/// entries that are left are those of [`tree_inputs`]; after the last one it waits for the peer.
pub proof fn law_tree_is_sent(s: SendView, rs: Seq<EntryReads>, now: u64)
    requires
        s.phase == SendPhase::Stream,
        s.clipboard is None,
        rs.len() > 0,
        s.next + rs.len() == s.entries.len(),
        forall|k: int|
            0 <= k < rs.len() ==> (#[trigger] rs[k]).entry == s.entries[s.next + k] && reads_valid(
                rs[k],
            ),
    ensures
        send_run(s, tree_reads(rs)).0.phase == SendPhase::Close,
        frames_sent(send_run(s, tree_reads(rs)).1) == frames_received(
            tree_inputs(all_as_sent(rs), now),
        ),
    decreases rs.len(),
{
    let rest = rs.skip(1);
    assert(rs[0].entry == s.entries[s.next as int] && reads_valid(rs[0]));
    lemma_entry_sent(s, rs[0], now);
    let (s1, a1) = send_run(s, read_inputs(rs[0]));
    lemma_send_run_append(s, read_inputs(rs[0]), tree_reads(rest));
    let (s2, a2) = send_run(s1, tree_reads(rest));
    lemma_frames_sent_append(a1, a2);
    assert(all_as_sent(rs).skip(1) =~= all_as_sent(rest));
    assert(all_as_sent(rs)[0] == as_sent(rs[0]));
    lemma_frames_received_append(
        entry_inputs(as_sent(rs[0]), now),
        tree_inputs(all_as_sent(rest), now),
    );
    if rest.len() > 0 {
        assert forall|k: int| 0 <= k < rest.len() implies (#[trigger] rest[k]).entry
            == s1.entries[s1.next + k] && reads_valid(rest[k]) by {
            assert(rest[k] == rs[k + 1]);
        }
        law_tree_is_sent(s1, rest, now);
    } else {
        assert(tree_reads(rest) =~= Seq::empty());
        assert(tree_inputs(all_as_sent(rest), now) =~= Seq::empty());
    }
}

/// A transfer from end to end: the frames that a sender makes of a tree, whatever pieces it
/// reads the files in, are frames over which a receiver stores exactly the files of that tree
/// and ends well.
pub proof fn law_transfer_roundtrip(s: SendView, r: RecvView, rs: Seq<EntryReads>, now: u64)
    requires
        s.phase == SendPhase::Stream,
        s.clipboard is None,
        rs.len() > 0,
        s.next + rs.len() == s.entries.len(),
        forall|k: int|
            0 <= k < rs.len() ==> (#[trigger] rs[k]).entry == s.entries[s.next + k] && reads_valid(
                rs[k],
            ),
        r.phase == Phase::Stream,
        r.entries_done + rs.len() == r.entries_total,
        forall|k: int| 0 <= k < rs.len() ==> receivable(as_sent(#[trigger] rs[k]), r.root_dst),
    ensures
        ({
            let received = tree_inputs(all_as_sent(rs), now);
            let (r2, a) = recv_run(r, received);
            &&& frames_received(received) == frames_sent(send_run(s, tree_reads(rs)).1)
            &&& a.last() == RecvActionView::Done(RecvOutcomeView::File(r.root_dst))
            &&& forall|buf: Seq<u8>| #[trigger]
                stored_from(buf, a) == files_of(all_as_sent(rs), r.root_dst)
            &&& forall|j: int| 0 <= j < a.len() ==> !gives_up(#[trigger] a[j])
        }),
{
    let es = all_as_sent(rs);
    assert forall|k: int| 0 <= k < es.len() implies receivable(#[trigger] es[k], r.root_dst) by {
        assert(receivable(as_sent(rs[k]), r.root_dst));
    }
    law_tree_is_sent(s, rs, now);
    law_tree_roundtrip(r, es, now);
}

} // verus!

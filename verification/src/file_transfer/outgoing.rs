//! The sending side of one transfer, as a machine from what happened to what is to be done.
use crate::file_transfer::codec::{CodecError, CHUNK_SIZE};
use crate::file_transfer::sender::{
    check_reply, clipboard_frames, dir_frames, make_clipboard_offer, make_offer, total_bytes,
    EntrySender, EntrySenderView, LocalEntry, LocalEntryView, HEAD_BYTES,
};
use crate::file_transfer::wire::{
    FileCtrl, FileCtrlView, FileFrame, FileFrameView, ProtocolError, ProtocolErrorView,
};
use crate::file_transfer::{codec, sender, wire};
use vstd::prelude::*;

verus! {

/// What a sender waits for.
#[derive(Clone, Copy, PartialEq, Eq, Structural, Debug)]
pub enum SendPhase {
    /// The answer to the offer.
    Reply,
    /// The data stream of the next entry, or of the clipboard.
    Stream,
    /// The file of the entry.
    Open,
    /// The first bytes of the file.
    Head,
    /// The next piece of the file, or its end.
    Body,
    /// The peer to close the connection.
    Close,
    /// Nothing more.
    Closed,
}

/// What happened on the connection or the disk.
#[derive(Debug)]
pub enum SendInput {
    /// A control frame arrived.
    Ctrl(FileCtrl),
    /// A data stream is open.
    StreamOpened,
    /// The file is open.
    FileOpened,
    /// A read of the file gave these bytes; none at its end.
    Data(Vec<u8>),
    /// The peer closed the connection.
    PeerClosed,
}

/// Contents of a [`SendInput`].
#[verifier::ext_equal]
pub enum SendInputView {
    /// See [`SendInput::Ctrl`].
    Ctrl(FileCtrlView),
    /// See [`SendInput::StreamOpened`].
    StreamOpened,
    /// See [`SendInput::FileOpened`].
    FileOpened,
    /// See [`SendInput::Data`].
    Data(Seq<u8>),
    /// See [`SendInput::PeerClosed`].
    PeerClosed,
}

impl View for SendInput {
    type V = SendInputView;

    open spec fn view(&self) -> SendInputView {
        match self {
            SendInput::Ctrl(c) => SendInputView::Ctrl(c@),
            SendInput::StreamOpened => SendInputView::StreamOpened,
            SendInput::FileOpened => SendInputView::FileOpened,
            SendInput::Data(d) => SendInputView::Data(d@),
            SendInput::PeerClosed => SendInputView::PeerClosed,
        }
    }
}

/// Why a transfer was given up.
#[derive(Debug)]
pub enum SendError {
    /// The peer refused, or did not keep to the protocol.
    Protocol(ProtocolError),
    /// A chunk could not be compressed.
    Codec(CodecError),
}

/// Contents of a [`SendError`].
#[verifier::ext_equal]
pub enum SendErrorView {
    /// See [`SendError::Protocol`].
    Protocol(ProtocolErrorView),
    /// See [`SendError::Codec`].
    Codec,
}

impl View for SendError {
    type V = SendErrorView;

    open spec fn view(&self) -> SendErrorView {
        match self {
            SendError::Protocol(e) => SendErrorView::Protocol(e@),
            SendError::Codec(_) => SendErrorView::Codec,
        }
    }
}

/// What is to be done, in order.
#[derive(Debug)]
pub enum SendAction {
    /// Send a control frame.
    SendCtrl(FileCtrl),
    /// Read the next control frame.
    AwaitReply,
    /// Open a data stream.
    OpenStream,
    /// Open the file that is read next.
    OpenFile(String),
    /// Read up to this many bytes of that file.
    Read(usize),
    /// Send a frame on the data stream.
    SendFrame(FileFrame),
    /// Finish the data stream.
    FinishStream,
    /// Finish the control stream.
    FinishCtrl,
    /// Wait for the peer to close the connection.
    AwaitClose,
    /// The transfer is over.
    Done,
    /// The transfer failed.
    Fail(SendError),
}

/// Contents of a [`SendAction`].
#[verifier::ext_equal]
pub enum SendActionView {
    /// See [`SendAction::SendCtrl`].
    SendCtrl(FileCtrlView),
    /// See [`SendAction::AwaitReply`].
    AwaitReply,
    /// See [`SendAction::OpenStream`].
    OpenStream,
    /// See [`SendAction::OpenFile`].
    OpenFile(Seq<char>),
    /// See [`SendAction::Read`].
    Read(usize),
    /// See [`SendAction::SendFrame`].
    SendFrame(FileFrameView),
    /// See [`SendAction::FinishStream`].
    FinishStream,
    /// See [`SendAction::FinishCtrl`].
    FinishCtrl,
    /// See [`SendAction::AwaitClose`].
    AwaitClose,
    /// See [`SendAction::Done`].
    Done,
    /// See [`SendAction::Fail`].
    Fail(SendErrorView),
}

impl View for SendAction {
    type V = SendActionView;

    open spec fn view(&self) -> SendActionView {
        match self {
            SendAction::SendCtrl(c) => SendActionView::SendCtrl(c@),
            SendAction::AwaitReply => SendActionView::AwaitReply,
            SendAction::OpenStream => SendActionView::OpenStream,
            SendAction::OpenFile(p) => SendActionView::OpenFile(p@),
            SendAction::Read(n) => SendActionView::Read(*n),
            SendAction::SendFrame(f) => SendActionView::SendFrame(f@),
            SendAction::FinishStream => SendActionView::FinishStream,
            SendAction::FinishCtrl => SendActionView::FinishCtrl,
            SendAction::AwaitClose => SendActionView::AwaitClose,
            SendAction::Done => SendActionView::Done,
            SendAction::Fail(e) => SendActionView::Fail(e@),
        }
    }
}

/// The contents of a list of actions.
pub open spec fn action_views(v: Seq<SendAction>) -> Seq<SendActionView> {
    Seq::new(v.len(), |i: int| v[i]@)
}

/// State of a sender.
#[verifier::ext_equal]
pub struct SendView {
    /// What is waited for.
    pub phase: SendPhase,
    /// Contents of a clipboard hand-off; `None` for a tree.
    pub clipboard: Option<Seq<u8>>,
    /// Entries of the tree.
    pub entries: Seq<LocalEntryView>,
    /// Entries sent.
    pub next: nat,
    /// First bytes read of the current file, until its entry frame is out.
    pub head: Seq<u8>,
    /// The current file, once its entry frame is out.
    pub file: Option<EntrySenderView>,
}

// ----- transitions ----------------------------------------------------------

/// A sender whose offer of a tree is out.
pub open spec fn fresh_tree(entries: Seq<LocalEntryView>) -> SendView {
    SendView {
        phase: SendPhase::Reply,
        clipboard: None,
        entries,
        next: 0,
        head: Seq::empty(),
        file: None,
    }
}

/// A sender whose offer of a clipboard is out.
pub open spec fn fresh_clipboard(content: Seq<u8>) -> SendView {
    SendView {
        phase: SendPhase::Reply,
        clipboard: Some(content),
        entries: Seq::empty(),
        next: 0,
        head: Seq::empty(),
        file: None,
    }
}

/// The frames as actions.
pub open spec fn sent(frames: Seq<FileFrameView>) -> Seq<SendActionView> {
    Seq::new(frames.len(), |i: int| SendActionView::SendFrame(frames[i]))
}

/// The next entry, or the wait for the peer after the last one.
pub open spec fn onward(s: SendView) -> (SendView, Seq<SendActionView>) {
    if s.next < s.entries.len() {
        (SendView { phase: SendPhase::Stream, ..s }, seq![SendActionView::OpenStream])
    } else {
        (
            SendView { phase: SendPhase::Close, ..s },
            seq![SendActionView::FinishCtrl, SendActionView::AwaitClose],
        )
    }
}

/// The end of the current entry: its stream is finished, and the next entry follows.
pub open spec fn entry_over(s: SendView) -> (SendView, Seq<SendActionView>) {
    let (s2, a) = onward(SendView { next: s.next + 1, head: Seq::empty(), file: None, ..s });
    (s2, seq![SendActionView::FinishStream] + a)
}

/// After the answer to the offer.
pub open spec fn after_reply(s: SendView, c: FileCtrlView) -> (SendView, Seq<SendActionView>) {
    match sender::reply_of(c, s.clipboard is Some) {
        Ok(()) => if s.clipboard is Some {
            (SendView { phase: SendPhase::Stream, ..s }, seq![SendActionView::OpenStream])
        } else {
            onward(s)
        },
        Err(e) => (
            SendView { phase: SendPhase::Closed, ..s },
            seq![SendActionView::Fail(SendErrorView::Protocol(e))],
        ),
    }
}

/// With a data stream open: a clipboard and a directory go out whole, a file is opened.
pub open spec fn on_stream(s: SendView) -> (SendView, Seq<SendActionView>) {
    match s.clipboard {
        Some(content) => (
            SendView { phase: SendPhase::Close, ..s },
            sent(sender::clipboard_frames_of(content)) + seq![
                SendActionView::FinishStream,
                SendActionView::FinishCtrl,
                SendActionView::AwaitClose,
            ],
        ),
        None => {
            let entry = s.entries[s.next as int];
            if entry.is_dir {
                let (s2, a) = entry_over(s);
                (s2, sent(sender::dir_frames_of(entry)) + a)
            } else {
                (
                    SendView { phase: SendPhase::Open, ..s },
                    seq![SendActionView::OpenFile(entry.absolute)],
                )
            }
        },
    }
}

/// Whether these first bytes are all that is probed: there are [`HEAD_BYTES`] of them, or the
/// last read found the end of the file.
pub open spec fn head_complete(head: Seq<u8>, last: Seq<u8>) -> bool {
    last.len() == 0 || head.len() >= HEAD_BYTES
}

/// With more of the first bytes of a file.
pub open spec fn on_head(s: SendView, d: Seq<u8>) -> (SendView, Seq<SendActionView>) {
    let head = s.head + d;
    if head_complete(head, d) {
        (
            SendView {
                phase: SendPhase::Body,
                head: Seq::empty(),
                file: Some(
                    EntrySenderView { compressed: !codec::already_compressed(head), sent: head },
                ),
                ..s
            },
            sent(sender::opening_of(s.entries[s.next as int], head)) + seq![
                SendActionView::Read(CHUNK_SIZE),
            ],
        )
    } else {
        (
            SendView { head, ..s },
            seq![SendActionView::Read((HEAD_BYTES - head.len()) as usize)],
        )
    }
}

/// With the next piece of a file, or its end.
pub open spec fn on_body(s: SendView, d: Seq<u8>) -> (SendView, Seq<SendActionView>) {
    let f = s.file->0;
    if d.len() == 0 {
        let (s2, a) = entry_over(s);
        let done = FileFrameView::EntryDone { blake3: codec::blake3_digest(f.sent) };
        (s2, seq![SendActionView::SendFrame(done)] + a)
    } else {
        (
            SendView { file: Some(EntrySenderView { sent: f.sent + d, ..f }), ..s },
            seq![
                SendActionView::SendFrame(sender::chunk_of(d, f.compressed)),
                SendActionView::Read(CHUNK_SIZE),
            ],
        )
    }
}

/// The next state and what is to be done; what is not waited for changes nothing.
pub open spec fn send_step(s: SendView, i: SendInputView) -> (SendView, Seq<SendActionView>) {
    match (s.phase, i) {
        (SendPhase::Reply, SendInputView::Ctrl(c)) => after_reply(s, c),
        (SendPhase::Stream, SendInputView::StreamOpened) => on_stream(s),
        (SendPhase::Open, SendInputView::FileOpened) => (
            SendView { phase: SendPhase::Head, head: Seq::empty(), ..s },
            seq![SendActionView::Read(HEAD_BYTES)],
        ),
        (SendPhase::Head, SendInputView::Data(d)) => on_head(s, d),
        (SendPhase::Body, SendInputView::Data(d)) => on_body(s, d),
        (SendPhase::Close, SendInputView::PeerClosed) => (
            SendView { phase: SendPhase::Closed, ..s },
            seq![SendActionView::Done],
        ),
        _ => (s, Seq::empty()),
    }
}

/// The state and the action after a chunk could not be compressed.
pub open spec fn send_failed(s: SendView) -> (SendView, Seq<SendActionView>) {
    (
        SendView { phase: SendPhase::Closed, head: Seq::empty(), file: None, ..s },
        seq![SendActionView::Fail(SendErrorView::Codec)],
    )
}

/// The piece of a file that goes out as a chunk in a step, and whether it is compressed.
pub open spec fn piece_sent(s: SendView, i: SendInputView) -> Option<(Seq<u8>, bool)> {
    match (s.phase, i) {
        (SendPhase::Head, SendInputView::Data(d)) => {
            let head = s.head + d;
            if head_complete(head, d) && head.len() > 0 {
                Some((head, !codec::already_compressed(head)))
            } else {
                None
            }
        },
        (SendPhase::Body, SendInputView::Data(d)) => if d.len() > 0 {
            Some((d, (s.file->0).compressed))
        } else {
            None
        },
        _ => None,
    }
}

/// One step from `s` to `s2`: the step that the input calls for, with a chunk that reads back as
/// the piece that it carries; or the end, where a piece had to be compressed and was not.
pub open spec fn stepped(
    s: SendView,
    i: SendInputView,
    s2: SendView,
    actions: Seq<SendActionView>,
) -> bool {
    ||| {
        &&& (s2, actions) == send_step(s, i)
        &&& piece_sent(s, i) matches Some((piece, compressed)) ==> codec::chunk_contents(
            codec::chunk_data(piece, compressed),
            compressed,
        ) == Some(piece)
    }
    ||| {
        &&& (s2, actions) == send_failed(s)
        &&& piece_sent(s, i) matches Some((_, compressed)) && compressed
    }
}

/// How many bytes the last read was allowed to give.
pub open spec fn wanted(s: SendView) -> int {
    match s.phase {
        SendPhase::Head => HEAD_BYTES - s.head.len(),
        SendPhase::Body => CHUNK_SIZE as int,
        _ => usize::MAX as int,
    }
}

/// What holds of every sender between two steps.
pub open spec fn send_inv(s: SendView) -> bool {
    &&& s.next <= s.entries.len()
    &&& (s.phase == SendPhase::Stream || s.phase == SendPhase::Open || s.phase == SendPhase::Head
        || s.phase == SendPhase::Body) && s.clipboard is None ==> s.next < s.entries.len()
    &&& s.phase == SendPhase::Open || s.phase == SendPhase::Head || s.phase == SendPhase::Body
        ==> s.clipboard is None && !s.entries[s.next as int].is_dir
    &&& s.phase == SendPhase::Head ==> s.head.len() < HEAD_BYTES
    &&& s.phase == SendPhase::Body <==> s.file is Some
    &&& s.phase != SendPhase::Head ==> s.head.len() == 0
}

// ----- the machine ----------------------------------------------------------

/// One outgoing transfer.
#[derive(Debug)]
pub struct Sender {
    phase: SendPhase,
    clipboard: Option<Vec<u8>>,
    entries: Vec<LocalEntry>,
    next: usize,
    head: Vec<u8>,
    file: Option<EntrySender>,
}

impl View for Sender {
    type V = SendView;

    closed spec fn view(&self) -> SendView {
        SendView {
            phase: self.phase,
            clipboard: match self.clipboard {
                Some(c) => Some(c@),
                None => None,
            },
            entries: sender::entry_views(self.entries@),
            next: self.next as nat,
            head: self.head@,
            file: match self.file {
                Some(f) => Some(f@),
                None => None,
            },
        }
    }
}

fn push_frames(frames: Vec<FileFrame>, out: &mut Vec<SendAction>)
    ensures
        action_views(final(out)@) == action_views(old(out)@) + sent(wire::frame_views(frames@)),
{
    let ghost all = wire::frame_views(frames@);
    let ghost before = action_views(out@);
    let mut rest: Vec<FileFrame> = frames;
    assert(action_views(out@) =~= before + sent(all.take(0)));
    while rest.len() > 0
        invariant
            rest@.len() <= all.len(),
            forall|k: int|
                0 <= k < rest@.len() ==> (#[trigger] rest@[k])@ == all[all.len() - rest@.len() + k],
            action_views(out@) == before + sent(all.take(all.len() - rest@.len())),
        decreases rest@.len(),
    {
        let ghost n = all.len() - rest@.len();
        let ghost so_far = action_views(out@);
        let f: FileFrame = rest.remove(0);
        assert(f@ == all[n]);
        out.push(SendAction::SendFrame(f));
        assert(action_views(out@) =~= so_far.push(SendActionView::SendFrame(all[n])));
        assert(sent(all.take(n + 1)) =~= sent(all.take(n)).push(SendActionView::SendFrame(all[n])));
    }
    assert(all.take(all.len() as int) =~= all);
}

impl Sender {
    /// Whether the sender came from one of the constructors.
    pub closed spec fn wf(&self) -> bool {
        &&& send_inv(self@)
        &&& self.file matches Some(f) ==> f.wf()
    }

    /// What is waited for.
    pub fn phase(&self) -> (r: SendPhase)
        ensures
            r == self@.phase,
    {
        self.phase
    }

    /// Offers the entries of a tree; `None` where their size does not fit 64 bits.
    pub fn tree(xfer_id: u64, root: &str, entries: Vec<LocalEntry>) -> (r: Option<
        (Sender, Vec<SendAction>),
    >)
        ensures
            match r {
                Some((s, actions)) => {
                    &&& s.wf()
                    &&& s@ == fresh_tree(sender::entry_views(entries@))
                    &&& sender::total_size(sender::entry_views(entries@)) <= u64::MAX
                    &&& action_views(actions@) == seq![
                        SendActionView::SendCtrl(
                            sender::offer_of(xfer_id, root@, sender::entry_views(entries@)),
                        ),
                        SendActionView::AwaitReply,
                    ]
                },
                None => sender::total_size(sender::entry_views(entries@)) > u64::MAX,
            },
    {
        match total_bytes(&entries) {
            Some(total) => {
                let mut actions: Vec<SendAction> = Vec::new();
                actions.push(SendAction::SendCtrl(make_offer(xfer_id, root, &entries, total)));
                actions.push(SendAction::AwaitReply);
                let s: Sender = Sender {
                    phase: SendPhase::Reply,
                    clipboard: None,
                    entries,
                    next: 0,
                    head: Vec::new(),
                    file: None,
                };
                proof {
                    assert(s@ =~= fresh_tree(sender::entry_views(entries@)));
                    assert(action_views(actions@) =~= seq![
                        SendActionView::SendCtrl(
                            sender::offer_of(xfer_id, root@, sender::entry_views(entries@)),
                        ),
                        SendActionView::AwaitReply,
                    ]);
                }
                Some((s, actions))
            },
            None => None,
        }
    }

    /// Offers a clipboard.
    pub fn clipboard(xfer_id: u64, content: Vec<u8>) -> (r: (Sender, Vec<SendAction>))
        ensures
            r.0.wf(),
            r.0@ == fresh_clipboard(content@),
            action_views(r.1@) == seq![
                SendActionView::SendCtrl(
                    sender::clipboard_offer_of(xfer_id, content@.len() as u64),
                ),
                SendActionView::AwaitReply,
            ],
    {
        let mut actions: Vec<SendAction> = Vec::new();
        actions.push(SendAction::SendCtrl(make_clipboard_offer(xfer_id, &content)));
        actions.push(SendAction::AwaitReply);
        let s: Sender = Sender {
            phase: SendPhase::Reply,
            clipboard: Some(content),
            entries: Vec::new(),
            next: 0,
            head: Vec::new(),
            file: None,
        };
        proof {
            assert(s@ =~= fresh_clipboard(content@));
            assert(action_views(actions@) =~= seq![
                SendActionView::SendCtrl(
                    sender::clipboard_offer_of(xfer_id, content@.len() as u64),
                ),
                SendActionView::AwaitReply,
            ]);
        }
        (s, actions)
    }

    /// Appends what starts the next entry, or what follows the last one.
    fn onward(&mut self, out: &mut Vec<SendAction>)
        requires
            old(self)@.next <= old(self)@.entries.len(),
        ensures
            final(self)@ == onward(old(self)@).0,
            final(self).file == old(self).file,
            action_views(final(out)@) == action_views(old(out)@) + onward(old(self)@).1,
    {
        if self.next < self.entries.len() {
            self.phase = SendPhase::Stream;
            out.push(SendAction::OpenStream);
        } else {
            self.phase = SendPhase::Close;
            out.push(SendAction::FinishCtrl);
            out.push(SendAction::AwaitClose);
        }
        proof {
            assert(self@ =~= onward(old(self)@).0);
            assert(action_views(out@) =~= action_views(old(out)@) + onward(old(self)@).1);
        }
    }

    /// Appends what ends the current entry.
    fn entry_over(&mut self, out: &mut Vec<SendAction>)
        requires
            old(self)@.next < old(self)@.entries.len(),
        ensures
            final(self)@ == entry_over(old(self)@).0,
            final(self).file is None,
            action_views(final(out)@) == action_views(old(out)@) + entry_over(old(self)@).1,
    {
        assert(self.next < self.entries.len());
        self.next = self.next + 1;
        self.head = Vec::new();
        self.file = None;
        out.push(SendAction::FinishStream);
        let ghost s1 = self@;
        let ghost before = action_views(out@);
        proof {
            assert(s1 =~= SendView {
                next: old(self)@.next + 1,
                head: Seq::empty(),
                file: None,
                ..old(self)@
            });
            assert(before =~= action_views(old(out)@) + seq![SendActionView::FinishStream]);
        }
        self.onward(out);
        assert(action_views(out@) =~= action_views(old(out)@) + entry_over(old(self)@).1);
    }

    fn fail(&mut self, e: SendError) -> (r: Vec<SendAction>)
        requires
            e@ == SendErrorView::Codec,
            old(self)@.next <= old(self)@.entries.len(),
        ensures
            final(self).wf(),
            (final(self)@, action_views(r@)) == send_failed(old(self)@),
    {
        self.phase = SendPhase::Closed;
        self.head = Vec::new();
        self.file = None;
        let r: Vec<SendAction> = vec![SendAction::Fail(e)];
        proof {
            assert(self@ =~= send_failed(old(self)@).0);
            assert(action_views(r@) =~= send_failed(old(self)@).1);
        }
        r
    }

    fn on_reply(&mut self, c: FileCtrl) -> (r: Vec<SendAction>)
        requires
            old(self).wf(),
            old(self)@.phase == SendPhase::Reply,
        ensures
            final(self).wf(),
            (final(self)@, action_views(r@)) == after_reply(old(self)@, c@),
    {
        let mut r: Vec<SendAction> = Vec::new();
        match check_reply(c, self.clipboard.is_some()) {
            Ok(()) => {
                if self.clipboard.is_some() {
                    self.phase = SendPhase::Stream;
                    r.push(SendAction::OpenStream);
                } else {
                    self.onward(&mut r);
                }
            },
            Err(e) => {
                self.phase = SendPhase::Closed;
                r.push(SendAction::Fail(SendError::Protocol(e)));
            },
        }
        proof {
            assert(self@ =~= after_reply(old(self)@, c@).0);
            assert(action_views(r@) =~= after_reply(old(self)@, c@).1);
        }
        r
    }

    fn on_stream(&mut self) -> (r: Vec<SendAction>)
        requires
            old(self).wf(),
            old(self)@.phase == SendPhase::Stream,
        ensures
            final(self).wf(),
            (final(self)@, action_views(r@)) == on_stream(old(self)@),
    {
        let mut r: Vec<SendAction> = Vec::new();
        match &self.clipboard {
            Some(content) => {
                push_frames(clipboard_frames(content), &mut r);
                self.phase = SendPhase::Close;
                r.push(SendAction::FinishStream);
                r.push(SendAction::FinishCtrl);
                r.push(SendAction::AwaitClose);
            },
            None => {
                let entry: &LocalEntry = &self.entries[self.next];
                if entry.is_dir {
                    push_frames(dir_frames(entry), &mut r);
                    self.entry_over(&mut r);
                } else {
                    r.push(SendAction::OpenFile(entry.absolute.clone()));
                    self.phase = SendPhase::Open;
                }
            },
        }
        proof {
            assert(self@ =~= on_stream(old(self)@).0);
            assert(action_views(r@) =~= on_stream(old(self)@).1);
        }
        r
    }

    fn on_open(&mut self) -> (r: Vec<SendAction>)
        requires
            old(self).wf(),
            old(self)@.phase == SendPhase::Open,
        ensures
            final(self).wf(),
            (final(self)@, action_views(r@)) == send_step(old(self)@, SendInputView::FileOpened),
    {
        self.phase = SendPhase::Head;
        let r: Vec<SendAction> = vec![SendAction::Read(HEAD_BYTES)];
        proof {
            assert(self@ =~= send_step(old(self)@, SendInputView::FileOpened).0);
            assert(action_views(r@) =~= send_step(old(self)@, SendInputView::FileOpened).1);
        }
        r
    }

    fn on_head(&mut self, d: Vec<u8>) -> (r: Vec<SendAction>)
        requires
            old(self).wf(),
            old(self)@.phase == SendPhase::Head,
            d@.len() <= wanted(old(self)@),
        ensures
            final(self).wf(),
            stepped(old(self)@, SendInputView::Data(d@), final(self)@, action_views(r@)),
    {
        let ended: bool = d.len() == 0;
        let mut data: Vec<u8> = d;
        self.head.append(&mut data);
        let ghost head = old(self)@.head + d@;
        assert(self.head@ =~= head);
        let mut r: Vec<SendAction> = Vec::new();
        if ended || self.head.len() >= HEAD_BYTES {
            match EntrySender::begin(&self.entries[self.next], self.head.as_slice()) {
                Ok((file, frames)) => {
                    push_frames(frames, &mut r);
                    r.push(SendAction::Read(CHUNK_SIZE));
                    self.phase = SendPhase::Body;
                    self.head = Vec::new();
                    self.file = Some(file);
                },
                Err(e) => {
                    let failed: Vec<SendAction> = self.fail(SendError::Codec(e));
                    assert(self@ =~= send_failed(old(self)@).0);
                    return failed;
                },
            }
        } else {
            r.push(SendAction::Read(HEAD_BYTES - self.head.len()));
        }
        proof {
            assert(self@ =~= on_head(old(self)@, d@).0);
            assert(action_views(r@) =~= on_head(old(self)@, d@).1);
        }
        r
    }

    fn on_body(&mut self, d: Vec<u8>) -> (r: Vec<SendAction>)
        requires
            old(self).wf(),
            old(self)@.phase == SendPhase::Body,
            d@.len() <= wanted(old(self)@),
        ensures
            final(self).wf(),
            stepped(old(self)@, SendInputView::Data(d@), final(self)@, action_views(r@)),
    {
        let mut r: Vec<SendAction> = Vec::new();
        if let Some(current) = self.file.take() {
            let mut file: EntrySender = current;
            if d.len() == 0 {
                r.push(SendAction::SendFrame(file.finish()));
                self.entry_over(&mut r);
            } else {
                match file.chunk(d.as_slice()) {
                    Ok(frame) => {
                        r.push(SendAction::SendFrame(frame));
                        r.push(SendAction::Read(CHUNK_SIZE));
                        self.file = Some(file);
                    },
                    Err(e) => {
                        let failed: Vec<SendAction> = self.fail(SendError::Codec(e));
                        assert(self@ =~= send_failed(old(self)@).0);
                        return failed;
                    },
                }
            }
        }
        proof {
            assert(self@ =~= on_body(old(self)@, d@).0);
            assert(action_views(r@) =~= on_body(old(self)@, d@).1);
        }
        r
    }

    /// Takes in what happened and says what is to be done. Only a chunk that zstd cannot
    /// compress, for want of memory, ends a transfer out of turn.
    pub fn step(&mut self, input: SendInput) -> (r: Vec<SendAction>)
        requires
            old(self).wf(),
            input@ matches SendInputView::Data(d) ==> d.len() <= wanted(old(self)@),
        ensures
            final(self).wf(),
            stepped(old(self)@, input@, final(self)@, action_views(r@)),
    {
        let nothing: Vec<SendAction> = Vec::new();
        assert(action_views(nothing@) =~= Seq::empty());
        match (self.phase, input) {
            (SendPhase::Reply, SendInput::Ctrl(c)) => self.on_reply(c),
            (SendPhase::Stream, SendInput::StreamOpened) => self.on_stream(),
            (SendPhase::Open, SendInput::FileOpened) => self.on_open(),
            (SendPhase::Head, SendInput::Data(d)) => self.on_head(d),
            (SendPhase::Body, SendInput::Data(d)) => self.on_body(d),
            (SendPhase::Close, SendInput::PeerClosed) => {
                self.phase = SendPhase::Closed;
                let r: Vec<SendAction> = vec![SendAction::Done];
                proof {
                    assert(self@ =~= send_step(old(self)@, input@).0);
                    assert(action_views(r@) =~= send_step(old(self)@, input@).1);
                }
                r
            },
            _ => nothing,
        }
    }
}

} // verus!

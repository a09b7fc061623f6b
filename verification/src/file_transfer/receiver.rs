//! The receiving side of one transfer, as a machine from what happened to what is to be done.
use crate::file_transfer::codec::{
    hasher_finalize, hasher_new, hasher_update, maybe_decompress, CodecError,
};
use crate::file_transfer::wire::{
    EntryKind, FileCtrl, FileCtrlView, FileFrame, FileFrameView, ProtocolError, ProtocolErrorView,
};
use crate::file_transfer::{codec, paths};
use crate::file_transfer::{Decision, DecisionView, Event, EventView, Limits};
use crate::net::SocketAddr;
use crate::text;
use vstd::prelude::*;

verus! {

/// Longest time between two progress reports while bytes arrive, in nanoseconds.
pub const PROGRESS_INTERVAL: u64 = 100_000_000;

/// Most bytes between two progress reports.
pub const PROGRESS_BYTES: u64 = 1024 * 1024;

/// What a receiver waits for.
#[derive(Clone, Copy, PartialEq, Eq, Structural, Debug)]
pub enum Phase {
    /// The first control frame.
    Offer,
    /// The user's decision.
    Decision,
    /// The data stream of a clipboard.
    ClipboardStream,
    /// The entry of a clipboard.
    ClipboardEntry,
    /// Chunks of a clipboard, or their end.
    ClipboardChunks,
    /// The data stream of the next entry.
    Stream,
    /// The entry frame of the stream.
    Entry,
    /// The end of a directory entry.
    DirDone,
    /// Chunks of a file, or their end.
    Chunks,
    /// A chunk being written.
    Writing,
    /// A whole file being moved into place.
    Storing,
    /// Nothing more.
    Closed,
}

/// What happened on the connection, the disk, or at the user.
#[derive(Debug)]
pub enum RecvInput {
    /// A control frame arrived.
    Ctrl(FileCtrl),
    /// The user decided; `None` when the prompt went away. Carries the time in nanoseconds.
    Decided(Option<Decision>, u64),
    /// The peer opened a data stream.
    StreamOpened,
    /// A data frame arrived.
    Frame(FileFrame),
    /// The last chunk is on disk. Carries the time in nanoseconds.
    Written(u64),
    /// The file is in its final place.
    Stored,
    /// The connection or the disk failed, or the transfer was cancelled.
    Failed,
}

/// Contents of a [`RecvInput`].
#[verifier::ext_equal]
pub enum RecvInputView {
    /// See [`RecvInput::Ctrl`].
    Ctrl(FileCtrlView),
    /// See [`RecvInput::Decided`].
    Decided(Option<DecisionView>, u64),
    /// See [`RecvInput::StreamOpened`].
    StreamOpened,
    /// See [`RecvInput::Frame`].
    Frame(FileFrameView),
    /// See [`RecvInput::Written`].
    Written(u64),
    /// See [`RecvInput::Stored`].
    Stored,
    /// See [`RecvInput::Failed`].
    Failed,
}

impl View for RecvInput {
    type V = RecvInputView;

    open spec fn view(&self) -> RecvInputView {
        match self {
            RecvInput::Ctrl(c) => RecvInputView::Ctrl(c@),
            RecvInput::Decided(Some(d), now) => RecvInputView::Decided(Some(d@), *now),
            RecvInput::Decided(None, now) => RecvInputView::Decided(None, *now),
            RecvInput::StreamOpened => RecvInputView::StreamOpened,
            RecvInput::Frame(f) => RecvInputView::Frame(f@),
            RecvInput::Written(now) => RecvInputView::Written(*now),
            RecvInput::Stored => RecvInputView::Stored,
            RecvInput::Failed => RecvInputView::Failed,
        }
    }
}

/// What `recv` resolved to.
#[derive(Debug)]
pub enum RecvOutcome {
    /// Everything is below this path.
    File(String),
    /// Refused by the caps or by the user.
    Cancelled,
    /// A clipboard was handed over.
    Clipboard,
}

/// Contents of a [`RecvOutcome`].
#[verifier::ext_equal]
pub enum RecvOutcomeView {
    /// See [`RecvOutcome::File`].
    File(Seq<char>),
    /// See [`RecvOutcome::Cancelled`].
    Cancelled,
    /// See [`RecvOutcome::Clipboard`].
    Clipboard,
}

impl View for RecvOutcome {
    type V = RecvOutcomeView;

    open spec fn view(&self) -> RecvOutcomeView {
        match self {
            RecvOutcome::File(p) => RecvOutcomeView::File(p@),
            RecvOutcome::Cancelled => RecvOutcomeView::Cancelled,
            RecvOutcome::Clipboard => RecvOutcomeView::Clipboard,
        }
    }
}

/// Why a transfer was given up.
#[derive(Debug)]
pub enum RecvError {
    /// The peer did not keep to the protocol.
    Protocol(ProtocolError),
    /// A chunk could not be decompressed.
    Codec(CodecError),
}

/// Contents of a [`RecvError`].
#[verifier::ext_equal]
pub enum RecvErrorView {
    /// See [`RecvError::Protocol`].
    Protocol(ProtocolErrorView),
    /// See [`RecvError::Codec`].
    Codec,
}

impl View for RecvError {
    type V = RecvErrorView;

    open spec fn view(&self) -> RecvErrorView {
        match self {
            RecvError::Protocol(e) => RecvErrorView::Protocol(e@),
            RecvError::Codec(_) => RecvErrorView::Codec,
        }
    }
}

/// What is to be done, in order.
#[derive(Debug)]
pub enum RecvAction {
    /// Send a control frame.
    SendCtrl(FileCtrl),
    /// Finish the control stream.
    FinishCtrl,
    /// Close the connection as done.
    CloseConnection,
    /// Report an event.
    Emit(Event),
    /// Wait for the user's decision.
    AwaitDecision,
    /// Accept the next data stream.
    AcceptStream,
    /// Read the next data frame.
    ReadFrame,
    /// Create a directory and its parents; a failure is ignored.
    CreateDirs(String),
    /// Set the permission bits of a directory; a failure is ignored.
    SetMode(String, u32),
    /// Create the file that takes the next chunks.
    CreateFile(String),
    /// Append to that file.
    Write(Vec<u8>),
    /// Flush and close that file, then rename it.
    Store {
        /// Current path.
        from: String,
        /// Final path.
        to: String,
    },
    /// Remove a file; a failure is ignored.
    RemoveFile(String),
    /// The transfer is over.
    Done(RecvOutcome),
    /// The transfer failed.
    Fail(RecvError),
}

/// Contents of a [`RecvAction`].
#[verifier::ext_equal]
pub enum RecvActionView {
    /// See [`RecvAction::SendCtrl`].
    SendCtrl(FileCtrlView),
    /// See [`RecvAction::FinishCtrl`].
    FinishCtrl,
    /// See [`RecvAction::CloseConnection`].
    CloseConnection,
    /// See [`RecvAction::Emit`].
    Emit(EventView),
    /// See [`RecvAction::AwaitDecision`].
    AwaitDecision,
    /// See [`RecvAction::AcceptStream`].
    AcceptStream,
    /// See [`RecvAction::ReadFrame`].
    ReadFrame,
    /// See [`RecvAction::CreateDirs`].
    CreateDirs(Seq<char>),
    /// See [`RecvAction::SetMode`].
    SetMode(Seq<char>, u32),
    /// See [`RecvAction::CreateFile`].
    CreateFile(Seq<char>),
    /// See [`RecvAction::Write`].
    Write(Seq<u8>),
    /// See [`RecvAction::Store`].
    Store { from: Seq<char>, to: Seq<char> },
    /// See [`RecvAction::RemoveFile`].
    RemoveFile(Seq<char>),
    /// See [`RecvAction::Done`].
    Done(RecvOutcomeView),
    /// See [`RecvAction::Fail`].
    Fail(RecvErrorView),
}

impl View for RecvAction {
    type V = RecvActionView;

    open spec fn view(&self) -> RecvActionView {
        match self {
            RecvAction::SendCtrl(c) => RecvActionView::SendCtrl(c@),
            RecvAction::FinishCtrl => RecvActionView::FinishCtrl,
            RecvAction::CloseConnection => RecvActionView::CloseConnection,
            RecvAction::Emit(e) => RecvActionView::Emit(e@),
            RecvAction::AwaitDecision => RecvActionView::AwaitDecision,
            RecvAction::AcceptStream => RecvActionView::AcceptStream,
            RecvAction::ReadFrame => RecvActionView::ReadFrame,
            RecvAction::CreateDirs(p) => RecvActionView::CreateDirs(p@),
            RecvAction::SetMode(p, m) => RecvActionView::SetMode(p@, *m),
            RecvAction::CreateFile(p) => RecvActionView::CreateFile(p@),
            RecvAction::Write(b) => RecvActionView::Write(b@),
            RecvAction::Store { from, to } => RecvActionView::Store { from: from@, to: to@ },
            RecvAction::RemoveFile(p) => RecvActionView::RemoveFile(p@),
            RecvAction::Done(o) => RecvActionView::Done(o@),
            RecvAction::Fail(e) => RecvActionView::Fail(e@),
        }
    }
}

/// The contents of a list of actions.
pub open spec fn action_views(v: Seq<RecvAction>) -> Seq<RecvActionView> {
    Seq::new(v.len(), |i: int| v[i]@)
}

/// State of a receiver.
#[verifier::ext_equal]
pub struct RecvView {
    /// Local number of the transfer.
    pub xfer_id: u64,
    /// Caps on the offer.
    pub limits: Limits,
    /// Address of the peer.
    pub peer_addr: SocketAddr,
    /// Certificate fingerprint of the peer.
    pub peer_fingerprint: Seq<char>,
    /// What is waited for.
    pub phase: Phase,
    /// Name of the offered tree.
    pub root_name: Seq<char>,
    /// Number of offered entries.
    pub entries_total: u32,
    /// Number of offered bytes.
    pub total_bytes: u64,
    /// Directory that the user chose.
    pub dest_dir: Seq<char>,
    /// Where the tree goes.
    pub root_dst: Seq<char>,
    /// Entries stored.
    pub entries_done: u32,
    /// Bytes received.
    pub bytes_done: u64,
    /// Time of the last progress report.
    pub last_progress: u64,
    /// Bytes received at the last progress report.
    pub last_progress_bytes: u64,
    /// Path of the current entry as the peer gave it.
    pub rel_path: Seq<char>,
    /// Where the current entry goes.
    pub final_path: Seq<char>,
    /// Where the current file is written until it is whole.
    pub part_path: Seq<char>,
    /// Mode of the current directory.
    pub mode: u32,
    /// Whether the chunks of the current entry are compressed.
    pub compressed: bool,
    /// Contents received of a clipboard.
    pub clipboard: Seq<u8>,
    /// Contents hashed so far of the current entry.
    pub hashed: Seq<u8>,
}

// ----- transitions ----------------------------------------------------------

/// The offer with this number is refused.
pub open spec fn refusal(s: RecvView, reason: Seq<char>) -> (RecvView, Seq<RecvActionView>) {
    (
        RecvView { phase: Phase::Closed, ..s },
        seq![
            RecvActionView::SendCtrl(FileCtrlView::Decline { xfer_id: s.xfer_id, reason }),
            RecvActionView::FinishCtrl,
            RecvActionView::Done(RecvOutcomeView::Cancelled),
        ],
    )
}

/// Whether a file or a chunk of it is in flight, so that a partial file may be on disk.
pub open spec fn part_on_disk(phase: Phase) -> bool {
    phase == Phase::Chunks || phase == Phase::Writing || phase == Phase::Storing
}

/// What is removed when the transfer ends early: the partial file, where there is one.
pub open spec fn cleanup(s: RecvView) -> Seq<RecvActionView> {
    if part_on_disk(s.phase) {
        seq![RecvActionView::RemoveFile(s.part_path)]
    } else {
        Seq::empty()
    }
}

/// The transfer ends early with an error.
pub open spec fn failure(s: RecvView, e: RecvErrorView) -> (RecvView, Seq<RecvActionView>) {
    (RecvView { phase: Phase::Closed, ..s }, cleanup(s).push(RecvActionView::Fail(e)))
}

/// The transfer ends early with a protocol error.
pub open spec fn protocol_failure(s: RecvView, e: ProtocolErrorView) -> (
    RecvView,
    Seq<RecvActionView>,
) {
    failure(s, RecvErrorView::Protocol(e))
}

/// After an entry: the stream of the next one, or the end of the transfer.
pub open spec fn next_entry(s: RecvView) -> (RecvView, Seq<RecvActionView>) {
    if s.entries_done < s.entries_total {
        (RecvView { phase: Phase::Stream, ..s }, seq![RecvActionView::AcceptStream])
    } else {
        (
            RecvView { phase: Phase::Closed, ..s },
            seq![
                RecvActionView::FinishCtrl,
                RecvActionView::CloseConnection,
                RecvActionView::Done(RecvOutcomeView::File(s.root_dst)),
            ],
        )
    }
}

/// A control frame arrives.
pub open spec fn on_ctrl(s: RecvView, c: FileCtrlView) -> (RecvView, Seq<RecvActionView>) {
    if s.phase != Phase::Offer {
        (s, Seq::empty())
    } else {
        match c {
            FileCtrlView::Offer { xfer_id: _, root, entries, total_bytes, clipboard } => {
                if total_bytes > s.limits.max_bytes || entries > s.limits.max_entries {
                    refusal(s, "offer exceeds configured transfer limits"@)
                } else if clipboard {
                    (
                        RecvView { phase: Phase::ClipboardStream, ..s },
                        seq![
                            RecvActionView::SendCtrl(FileCtrlView::Accept { xfer_id: s.xfer_id }),
                            RecvActionView::AcceptStream,
                        ],
                    )
                } else if paths::received_components(root) is None {
                    protocol_failure(s, ProtocolErrorView::UnsafeRoot(root))
                } else {
                    (
                        RecvView {
                            phase: Phase::Decision,
                            root_name: root,
                            entries_total: entries,
                            total_bytes,
                            ..s
                        },
                        seq![
                            RecvActionView::Emit(
                                EventView::IncomingOffer {
                                    xfer_id: s.xfer_id,
                                    peer_addr: s.peer_addr,
                                    peer_fingerprint: s.peer_fingerprint,
                                    root_name: root,
                                    entries,
                                    total_bytes,
                                },
                            ),
                            RecvActionView::AwaitDecision,
                        ],
                    )
                }
            },
            _ => protocol_failure(s, ProtocolErrorView::FirstCtrlNotOffer(c)),
        }
    }
}

/// The user decides.
pub open spec fn on_decided(s: RecvView, d: Option<DecisionView>, now: u64) -> (
    RecvView,
    Seq<RecvActionView>,
) {
    if s.phase != Phase::Decision {
        (s, Seq::empty())
    } else {
        match d {
            Some(DecisionView::Accept { dest_dir }) => {
                let root_dst = paths::received_root(dest_dir, s.root_name)->0;
                let (s2, actions) = next_entry(
                    RecvView {
                        dest_dir,
                        root_dst,
                        entries_done: 0,
                        bytes_done: 0,
                        last_progress: now,
                        last_progress_bytes: 0,
                        ..s
                    },
                );
                (
                    s2,
                    seq![
                        RecvActionView::SendCtrl(FileCtrlView::Accept { xfer_id: s.xfer_id }),
                        RecvActionView::CreateDirs(root_dst),
                    ] + actions,
                )
            },
            _ => refusal(s, "user declined"@),
        }
    }
}

/// The peer opens a data stream.
pub open spec fn on_stream(s: RecvView) -> (RecvView, Seq<RecvActionView>) {
    match s.phase {
        Phase::ClipboardStream => (
            RecvView { phase: Phase::ClipboardEntry, ..s },
            seq![RecvActionView::ReadFrame],
        ),
        Phase::Stream => (
            RecvView { phase: Phase::Entry, ..s },
            seq![RecvActionView::ReadFrame],
        ),
        _ => (s, Seq::empty()),
    }
}

/// The first frame of a clipboard stream arrives.
pub open spec fn on_clipboard_entry(s: RecvView, f: FileFrameView) -> (
    RecvView,
    Seq<RecvActionView>,
) {
    match f {
        FileFrameView::Entry {
            rel_path: _,
            size: _,
            mode: _,
            kind: EntryKind::File,
            compressed,
        } => (
            RecvView {
                phase: Phase::ClipboardChunks,
                compressed,
                clipboard: Seq::empty(),
                hashed: Seq::empty(),
                ..s
            },
            seq![RecvActionView::ReadFrame],
        ),
        _ => protocol_failure(s, ProtocolErrorView::ClipboardNotFileEntry(f)),
    }
}

/// A later frame of a clipboard stream arrives.
pub open spec fn on_clipboard_frame(s: RecvView, f: FileFrameView) -> (
    RecvView,
    Seq<RecvActionView>,
) {
    match f {
        FileFrameView::Chunk { data } => match codec::chunk_contents(data, s.compressed) {
            Some(raw) => (
                RecvView { clipboard: s.clipboard + raw, hashed: s.hashed + raw, ..s },
                seq![RecvActionView::ReadFrame],
            ),
            None => failure(s, RecvErrorView::Codec),
        },
        FileFrameView::EntryDone { blake3 } => {
            if codec::blake3_digest(s.hashed) == blake3 {
                (
                    RecvView { phase: Phase::Closed, ..s },
                    seq![
                        RecvActionView::FinishCtrl,
                        RecvActionView::CloseConnection,
                        RecvActionView::Emit(
                            EventView::ClipboardReceived {
                                peer_addr: s.peer_addr,
                                content: s.clipboard,
                            },
                        ),
                        RecvActionView::Done(RecvOutcomeView::Clipboard),
                    ],
                )
            } else {
                protocol_failure(s, ProtocolErrorView::ClipboardHashMismatch)
            }
        },
        _ => protocol_failure(s, ProtocolErrorView::ClipboardUnexpectedFrame(f)),
    }
}

/// The directories that a file needs.
pub open spec fn parent_dirs(final_path: Seq<char>) -> Seq<RecvActionView> {
    match paths::parent(final_path) {
        Some(dir) => seq![RecvActionView::CreateDirs(dir)],
        None => Seq::empty(),
    }
}

/// The first frame of an entry's stream arrives.
pub open spec fn on_entry(s: RecvView, f: FileFrameView) -> (RecvView, Seq<RecvActionView>) {
    match f {
        FileFrameView::Entry { rel_path, size: _, mode, kind, compressed } => {
            match paths::joined_safely(s.root_dst, rel_path) {
                None => protocol_failure(s, ProtocolErrorView::UnsafeRelPath(rel_path)),
                Some(final_path) => match kind {
                    EntryKind::Dir => (
                        RecvView { phase: Phase::DirDone, rel_path, final_path, mode, ..s },
                        seq![RecvActionView::CreateDirs(final_path), RecvActionView::ReadFrame],
                    ),
                    EntryKind::File => {
                        let part_path = paths::part_path_of(final_path);
                        (
                            RecvView {
                                phase: Phase::Chunks,
                                rel_path,
                                final_path,
                                part_path,
                                compressed,
                                hashed: Seq::empty(),
                                ..s
                            },
                            parent_dirs(final_path) + seq![
                                RecvActionView::CreateFile(part_path),
                                RecvActionView::ReadFrame,
                            ],
                        )
                    },
                },
            }
        },
        _ => protocol_failure(s, ProtocolErrorView::NotEntry(f)),
    }
}

/// The end of a directory entry arrives.
pub open spec fn on_dir_done(s: RecvView, f: FileFrameView) -> (RecvView, Seq<RecvActionView>) {
    match f {
        FileFrameView::EntryDone { blake3: _ } => {
            let (s2, actions) = next_entry(
                RecvView { entries_done: (s.entries_done + 1) as u32, ..s },
            );
            (
                s2,
                seq![RecvActionView::SetMode(s.final_path, (s.mode % 0o1000) as u32)] + actions,
            )
        },
        _ => protocol_failure(s, ProtocolErrorView::NotDirDone(f)),
    }
}

/// `a + b`, or the largest number where that is smaller.
pub open spec fn saturated(a: u64, b: int) -> u64 {
    if a + b > u64::MAX {
        u64::MAX
    } else {
        (a + b) as u64
    }
}

/// A chunk of a file, or its end, arrives.
pub open spec fn on_file_frame(s: RecvView, f: FileFrameView) -> (RecvView, Seq<RecvActionView>) {
    match f {
        FileFrameView::Chunk { data } => match codec::chunk_contents(data, s.compressed) {
            Some(raw) => (
                RecvView {
                    phase: Phase::Writing,
                    hashed: s.hashed + raw,
                    bytes_done: saturated(s.bytes_done, raw.len() as int),
                    ..s
                },
                seq![RecvActionView::Write(raw)],
            ),
            None => failure(s, RecvErrorView::Codec),
        },
        FileFrameView::EntryDone { blake3 } => {
            if codec::blake3_digest(s.hashed) == blake3 {
                (
                    RecvView { phase: Phase::Storing, ..s },
                    seq![RecvActionView::Store { from: s.part_path, to: s.final_path }],
                )
            } else {
                protocol_failure(s, ProtocolErrorView::HashMismatch(s.rel_path))
            }
        },
        _ => protocol_failure(s, ProtocolErrorView::UnexpectedFrame(f)),
    }
}

/// A data frame arrives.
pub open spec fn on_frame(s: RecvView, f: FileFrameView) -> (RecvView, Seq<RecvActionView>) {
    match s.phase {
        Phase::ClipboardEntry => on_clipboard_entry(s, f),
        Phase::ClipboardChunks => on_clipboard_frame(s, f),
        Phase::Entry => on_entry(s, f),
        Phase::DirDone => on_dir_done(s, f),
        Phase::Chunks => on_file_frame(s, f),
        _ => (s, Seq::empty()),
    }
}

/// Whether a progress report is due.
pub open spec fn progress_due(s: RecvView, now: u64) -> bool {
    now - s.last_progress >= PROGRESS_INTERVAL || s.bytes_done - s.last_progress_bytes
        >= PROGRESS_BYTES
}

/// A chunk is on disk.
pub open spec fn on_written(s: RecvView, now: u64) -> (RecvView, Seq<RecvActionView>) {
    if s.phase != Phase::Writing {
        (s, Seq::empty())
    } else if progress_due(s, now) {
        (
            RecvView {
                phase: Phase::Chunks,
                last_progress: now,
                last_progress_bytes: s.bytes_done,
                ..s
            },
            seq![
                RecvActionView::Emit(
                    EventView::Progress {
                        xfer_id: s.xfer_id,
                        bytes: s.bytes_done,
                        total: s.total_bytes,
                        entries_done: s.entries_done,
                        entries_total: s.entries_total,
                        current_entry: Some(s.rel_path),
                    },
                ),
                RecvActionView::ReadFrame,
            ],
        )
    } else {
        (RecvView { phase: Phase::Chunks, ..s }, seq![RecvActionView::ReadFrame])
    }
}

/// A file is in its final place.
pub open spec fn on_stored(s: RecvView) -> (RecvView, Seq<RecvActionView>) {
    if s.phase != Phase::Storing {
        (s, Seq::empty())
    } else {
        next_entry(RecvView { entries_done: (s.entries_done + 1) as u32, ..s })
    }
}

/// The receiver's reaction to an input.
pub open spec fn recv_step(s: RecvView, input: RecvInputView) -> (RecvView, Seq<RecvActionView>) {
    match input {
        RecvInputView::Ctrl(c) => on_ctrl(s, c),
        RecvInputView::Decided(d, now) => on_decided(s, d, now),
        RecvInputView::StreamOpened => on_stream(s),
        RecvInputView::Frame(f) => on_frame(s, f),
        RecvInputView::Written(now) => on_written(s, now),
        RecvInputView::Stored => on_stored(s),
        RecvInputView::Failed => (RecvView { phase: Phase::Closed, ..s }, cleanup(s)),
    }
}

/// Whether an entry is owed in this phase.
pub open spec fn entry_owed(phase: Phase) -> bool {
    phase == Phase::Stream || phase == Phase::Entry || phase == Phase::DirDone || part_on_disk(
        phase,
    )
}

/// The tree goes below the directory that the user chose.
pub open spec fn root_chosen(s: RecvView) -> bool {
    paths::received_root(s.dest_dir, s.root_name) == Some(s.root_dst)
}

/// What holds of every receiver: among other things, the tree goes below the directory that the
/// user chose.
pub open spec fn recv_inv(s: RecvView) -> bool {
    &&& s.phase == Phase::Decision ==> paths::received_components(s.root_name) is Some
    &&& entry_owed(s.phase) ==> root_chosen(s)
    &&& s.last_progress_bytes <= s.bytes_done
    &&& s.entries_done <= s.entries_total
    &&& entry_owed(s.phase) ==> s.entries_done < s.entries_total
    &&& s.phase == Phase::Offer ==> s.entries_done == 0 && s.bytes_done == 0
    &&& s.phase == Phase::Decision ==> s.entries_done == 0 && s.bytes_done == 0
    &&& s.phase == Phase::DirDone || part_on_disk(s.phase) ==> paths::joined_safely(
        s.root_dst,
        s.rel_path,
    ) == Some(s.final_path)
    &&& part_on_disk(s.phase) ==> s.part_path == paths::part_path_of(s.final_path)
}

// ----- the machine ----------------------------------------------------------

/// The receiving side of one transfer.
#[derive(Debug)]
pub struct Receiver {
    xfer_id: u64,
    limits: Limits,
    peer_addr: SocketAddr,
    peer_fingerprint: String,
    phase: Phase,
    root_name: String,
    entries_total: u32,
    total_bytes: u64,
    dest_dir: String,
    root_dst: String,
    entries_done: u32,
    bytes_done: u64,
    last_progress: u64,
    last_progress_bytes: u64,
    rel_path: String,
    final_path: String,
    part_path: String,
    mode: u32,
    compressed: bool,
    clipboard: Vec<u8>,
    hasher: blake3::Hasher,
}

impl View for Receiver {
    type V = RecvView;

    closed spec fn view(&self) -> RecvView {
        RecvView {
            xfer_id: self.xfer_id,
            limits: self.limits,
            peer_addr: self.peer_addr,
            peer_fingerprint: self.peer_fingerprint@,
            phase: self.phase,
            root_name: self.root_name@,
            entries_total: self.entries_total,
            total_bytes: self.total_bytes,
            dest_dir: self.dest_dir@,
            root_dst: self.root_dst@,
            entries_done: self.entries_done,
            bytes_done: self.bytes_done,
            last_progress: self.last_progress,
            last_progress_bytes: self.last_progress_bytes,
            rel_path: self.rel_path@,
            final_path: self.final_path@,
            part_path: self.part_path@,
            mode: self.mode,
            compressed: self.compressed,
            clipboard: self.clipboard@,
            hashed: codec::blake3_absorbed(self.hasher)->0,
        }
    }
}

/// A receiver that waits for the offer.
pub open spec fn fresh_receiver(
    xfer_id: u64,
    limits: Limits,
    peer_addr: SocketAddr,
    peer_fingerprint: Seq<char>,
) -> RecvView {
    RecvView {
        xfer_id,
        limits,
        peer_addr,
        peer_fingerprint,
        phase: Phase::Offer,
        root_name: Seq::empty(),
        entries_total: 0,
        total_bytes: 0,
        dest_dir: Seq::empty(),
        root_dst: Seq::empty(),
        entries_done: 0,
        bytes_done: 0,
        last_progress: 0,
        last_progress_bytes: 0,
        rel_path: Seq::empty(),
        final_path: Seq::empty(),
        part_path: Seq::empty(),
        mode: 0,
        compressed: false,
        clipboard: Seq::empty(),
        hashed: Seq::empty(),
    }
}

impl Receiver {
    /// Whether the receiver is in a state that its own steps lead to.
    pub closed spec fn wf(&self) -> bool {
        &&& codec::blake3_absorbed(self.hasher) is Some
        &&& recv_inv(self@)
    }

    /// A receiver for a connection that has just been accepted.
    pub fn new(
        xfer_id: u64,
        limits: Limits,
        peer_addr: SocketAddr,
        peer_fingerprint: String,
    ) -> (r: Receiver)
        ensures
            r.wf(),
            r@ == fresh_receiver(xfer_id, limits, peer_addr, peer_fingerprint@),
    {
        let r: Receiver = Receiver {
            xfer_id,
            limits,
            peer_addr,
            peer_fingerprint,
            phase: Phase::Offer,
            root_name: String::new(),
            entries_total: 0,
            total_bytes: 0,
            dest_dir: String::new(),
            root_dst: String::new(),
            entries_done: 0,
            bytes_done: 0,
            last_progress: 0,
            last_progress_bytes: 0,
            rel_path: String::new(),
            final_path: String::new(),
            part_path: String::new(),
            mode: 0,
            compressed: false,
            clipboard: Vec::new(),
            hasher: hasher_new(),
        };
        assert(r@ =~= fresh_receiver(xfer_id, limits, peer_addr, peer_fingerprint@));
        r
    }

    /// What the receiver waits for.
    pub fn phase(&self) -> (r: Phase)
        ensures
            r == self@.phase,
    {
        self.phase
    }

    fn refuse(&mut self, reason: &str) -> (r: Vec<RecvAction>)
        requires
            old(self).wf(),
        ensures
            final(self).wf(),
            (final(self)@, action_views(r@)) == refusal(old(self)@, reason@),
    {
        self.phase = Phase::Closed;
        let mut r: Vec<RecvAction> = Vec::new();
        r.push(
            RecvAction::SendCtrl(
                FileCtrl::Decline { xfer_id: self.xfer_id, reason: reason.to_owned() },
            ),
        );
        r.push(RecvAction::FinishCtrl);
        r.push(RecvAction::Done(RecvOutcome::Cancelled));
        proof {
            assert(action_views(r@) =~= refusal(old(self)@, reason@).1);
            assert(self@ =~= refusal(old(self)@, reason@).0);
        }
        r
    }

    fn clean_up(&self) -> (r: Vec<RecvAction>)
        ensures
            action_views(r@) == cleanup(self@),
    {
        let mut r: Vec<RecvAction> = Vec::new();
        if self.phase == Phase::Chunks || self.phase == Phase::Writing || self.phase
            == Phase::Storing {
            r.push(RecvAction::RemoveFile(self.part_path.clone()));
        }
        assert(action_views(r@) =~= cleanup(self@));
        r
    }

    fn fail(&mut self, e: RecvError) -> (r: Vec<RecvAction>)
        requires
            old(self).wf(),
        ensures
            final(self).wf(),
            (final(self)@, action_views(r@)) == failure(old(self)@, e@),
    {
        let mut r: Vec<RecvAction> = self.clean_up();
        let ghost before = action_views(r@);
        r.push(RecvAction::Fail(e));
        self.phase = Phase::Closed;
        proof {
            assert(action_views(r@) =~= before.push(RecvActionView::Fail(e@)));
            assert(self@ =~= failure(old(self)@, e@).0);
        }
        r
    }

    fn fail_protocol(&mut self, e: ProtocolError) -> (r: Vec<RecvAction>)
        requires
            old(self).wf(),
        ensures
            final(self).wf(),
            (final(self)@, action_views(r@)) == protocol_failure(old(self)@, e@),
    {
        self.fail(RecvError::Protocol(e))
    }

    /// Appends what follows an entry.
    fn advance(&mut self, actions: &mut Vec<RecvAction>)
        requires
            codec::blake3_absorbed(old(self).hasher) is Some,
            old(self)@.last_progress_bytes <= old(self)@.bytes_done,
            old(self)@.entries_done <= old(self)@.entries_total,
            root_chosen(old(self)@),
        ensures
            final(self).wf(),
            final(self)@ == next_entry(old(self)@).0,
            action_views(final(actions)@) == action_views(old(actions)@) + next_entry(
                old(self)@,
            ).1,
    {
        if self.entries_done < self.entries_total {
            self.phase = Phase::Stream;
            actions.push(RecvAction::AcceptStream);
        } else {
            self.phase = Phase::Closed;
            actions.push(RecvAction::FinishCtrl);
            actions.push(RecvAction::CloseConnection);
            actions.push(RecvAction::Done(RecvOutcome::File(self.root_dst.clone())));
        }
        proof {
            assert(self@ =~= next_entry(old(self)@).0);
            assert(action_views(actions@) =~= action_views(old(actions)@) + next_entry(
                old(self)@,
            ).1);
        }
    }

    fn ctrl(&mut self, c: FileCtrl) -> (r: Vec<RecvAction>)
        requires
            old(self).wf(),
        ensures
            final(self).wf(),
            (final(self)@, action_views(r@)) == on_ctrl(old(self)@, c@),
    {
        let mut r: Vec<RecvAction> = Vec::new();
        if self.phase != Phase::Offer {
            assert(action_views(r@) =~= Seq::empty());
            return r;
        }
        match c {
            FileCtrl::Offer { xfer_id: _, root, entries, total_bytes, clipboard } => {
                if total_bytes > self.limits.max_bytes || entries > self.limits.max_entries {
                    return self.refuse("offer exceeds configured transfer limits");
                }
                if clipboard {
                    self.phase = Phase::ClipboardStream;
                    r.push(RecvAction::SendCtrl(FileCtrl::Accept { xfer_id: self.xfer_id }));
                    r.push(RecvAction::AcceptStream);
                } else {
                    if paths::safe_root("", root.as_str()).is_none() {
                        return self.fail_protocol(ProtocolError::UnsafeRoot(root));
                    }
                    self.phase = Phase::Decision;
                    self.root_name = root.clone();
                    self.entries_total = entries;
                    self.total_bytes = total_bytes;
                    r.push(
                        RecvAction::Emit(
                            Event::IncomingOffer {
                                xfer_id: self.xfer_id,
                                peer_addr: self.peer_addr,
                                peer_fingerprint: self.peer_fingerprint.clone(),
                                root_name: root,
                                entries,
                                total_bytes,
                            },
                        ),
                    );
                    r.push(RecvAction::AwaitDecision);
                }
                proof {
                    assert(self@ =~= on_ctrl(old(self)@, c@).0);
                    assert(action_views(r@) =~= on_ctrl(old(self)@, c@).1);
                }
                r
            },
            other => self.fail_protocol(ProtocolError::FirstCtrlNotOffer(other)),
        }
    }

    fn decided(&mut self, d: Option<Decision>, now: u64) -> (r: Vec<RecvAction>)
        requires
            old(self).wf(),
        ensures
            final(self).wf(),
            (final(self)@, action_views(r@)) == on_decided(
                old(self)@,
                match d {
                    Some(d) => Some(d@),
                    None => None,
                },
                now,
            ),
    {
        let mut r: Vec<RecvAction> = Vec::new();
        if self.phase != Phase::Decision {
            assert(action_views(r@) =~= Seq::empty());
            return r;
        }
        match d {
            Some(Decision::Accept { dest_dir }) => {
                let root_dst: String = match paths::safe_root(
                    dest_dir.as_str(),
                    self.root_name.as_str(),
                ) {
                    Some(p) => p,
                    None => {
                        assert(false);
                        return r;
                    },
                };
                r.push(RecvAction::SendCtrl(FileCtrl::Accept { xfer_id: self.xfer_id }));
                r.push(RecvAction::CreateDirs(root_dst.clone()));
                self.dest_dir = dest_dir;
                self.root_dst = root_dst;
                self.entries_done = 0;
                self.bytes_done = 0;
                self.last_progress = now;
                self.last_progress_bytes = 0;
                let ghost s1 = self@;
                let ghost head = action_views(r@);
                self.advance(&mut r);
                proof {
                    let s = old(self)@;
                    let spec_dst = paths::received_root(dest_dir@, s.root_name)->0;
                    assert(s1 =~= RecvView {
                        dest_dir: dest_dir@,
                        root_dst: spec_dst,
                        entries_done: 0,
                        bytes_done: 0,
                        last_progress: now,
                        last_progress_bytes: 0,
                        ..s
                    });
                    assert(head =~= seq![
                        RecvActionView::SendCtrl(FileCtrlView::Accept { xfer_id: s.xfer_id }),
                        RecvActionView::CreateDirs(spec_dst),
                    ]);
                }
                r
            },
            _ => self.refuse("user declined"),
        }
    }

    fn stream_opened(&mut self) -> (r: Vec<RecvAction>)
        requires
            old(self).wf(),
        ensures
            final(self).wf(),
            (final(self)@, action_views(r@)) == on_stream(old(self)@),
    {
        let mut r: Vec<RecvAction> = Vec::new();
        if self.phase == Phase::ClipboardStream {
            self.phase = Phase::ClipboardEntry;
            r.push(RecvAction::ReadFrame);
        } else if self.phase == Phase::Stream {
            self.phase = Phase::Entry;
            r.push(RecvAction::ReadFrame);
        }
        proof {
            assert(self@ =~= on_stream(old(self)@).0);
            assert(action_views(r@) =~= on_stream(old(self)@).1);
        }
        r
    }

    fn clipboard_entry(&mut self, f: FileFrame) -> (r: Vec<RecvAction>)
        requires
            old(self).wf(),
            old(self)@.phase == Phase::ClipboardEntry,
        ensures
            final(self).wf(),
            (final(self)@, action_views(r@)) == on_clipboard_entry(old(self)@, f@),
    {
        match f {
            FileFrame::Entry { rel_path: _, size: _, mode: _, kind: EntryKind::File, compressed } => {
                self.phase = Phase::ClipboardChunks;
                self.compressed = compressed;
                self.clipboard = Vec::new();
                self.hasher = hasher_new();
                let mut r: Vec<RecvAction> = Vec::new();
                r.push(RecvAction::ReadFrame);
                proof {
                    assert(self@ =~= on_clipboard_entry(old(self)@, f@).0);
                    assert(action_views(r@) =~= on_clipboard_entry(old(self)@, f@).1);
                }
                r
            },
            other => self.fail_protocol(ProtocolError::ClipboardNotFileEntry(other)),
        }
    }

    fn hash_matches(&self, expected: [u8; 32]) -> (r: bool)
        requires
            self.wf(),
        ensures
            r == (codec::blake3_digest(self@.hashed) == expected@),
    {
        let actual: [u8; 32] = hasher_finalize(&self.hasher);
        text::bytes_eq(actual.as_slice(), expected.as_slice())
    }

    fn clipboard_frame(&mut self, f: FileFrame) -> (r: Vec<RecvAction>)
        requires
            old(self).wf(),
            old(self)@.phase == Phase::ClipboardChunks,
        ensures
            final(self).wf(),
            (final(self)@, action_views(r@)) == on_clipboard_frame(old(self)@, f@),
    {
        match f {
            FileFrame::Chunk { data } => match maybe_decompress(data, self.compressed) {
                Ok(raw) => {
                    hasher_update(&mut self.hasher, raw.as_slice());
                    self.clipboard.extend_from_slice(raw.as_slice());
                    let mut r: Vec<RecvAction> = Vec::new();
                    r.push(RecvAction::ReadFrame);
                    proof {
                        assert(self@ =~= on_clipboard_frame(old(self)@, f@).0);
                        assert(action_views(r@) =~= on_clipboard_frame(old(self)@, f@).1);
                    }
                    r
                },
                Err(e) => self.fail(RecvError::Codec(e)),
            },
            FileFrame::EntryDone { blake3 } => {
                if !self.hash_matches(blake3) {
                    return self.fail_protocol(ProtocolError::ClipboardHashMismatch);
                }
                self.phase = Phase::Closed;
                let mut r: Vec<RecvAction> = Vec::new();
                r.push(RecvAction::FinishCtrl);
                r.push(RecvAction::CloseConnection);
                r.push(
                    RecvAction::Emit(
                        Event::ClipboardReceived {
                            peer_addr: self.peer_addr,
                            content: codec::copy_bytes(self.clipboard.as_slice()),
                        },
                    ),
                );
                r.push(RecvAction::Done(RecvOutcome::Clipboard));
                proof {
                    assert(self@ =~= on_clipboard_frame(old(self)@, f@).0);
                    assert(action_views(r@) =~= on_clipboard_frame(old(self)@, f@).1);
                }
                r
            },
            other => self.fail_protocol(ProtocolError::ClipboardUnexpectedFrame(other)),
        }
    }

    fn entry(&mut self, f: FileFrame) -> (r: Vec<RecvAction>)
        requires
            old(self).wf(),
            old(self)@.phase == Phase::Entry,
        ensures
            final(self).wf(),
            (final(self)@, action_views(r@)) == on_entry(old(self)@, f@),
    {
        match f {
            FileFrame::Entry { rel_path, size: _, mode, kind, compressed } => {
                let final_path: String = match paths::safe_join(
                    self.root_dst.as_str(),
                    rel_path.as_str(),
                ) {
                    Some(p) => p,
                    None => return self.fail_protocol(ProtocolError::UnsafeRelPath(rel_path)),
                };
                let mut r: Vec<RecvAction> = Vec::new();
                if kind == EntryKind::Dir {
                    self.phase = Phase::DirDone;
                    self.rel_path = rel_path;
                    self.final_path = final_path.clone();
                    self.mode = mode;
                    r.push(RecvAction::CreateDirs(final_path));
                    r.push(RecvAction::ReadFrame);
                } else {
                    let part_path: String = paths::part_path(final_path.as_str());
                    match paths::parent_path(final_path.as_str()) {
                        Some(dir) => r.push(RecvAction::CreateDirs(dir)),
                        None => {},
                    }
                    self.phase = Phase::Chunks;
                    self.rel_path = rel_path;
                    self.final_path = final_path;
                    self.part_path = part_path.clone();
                    self.compressed = compressed;
                    self.hasher = hasher_new();
                    r.push(RecvAction::CreateFile(part_path));
                    r.push(RecvAction::ReadFrame);
                }
                proof {
                    assert(self@ =~= on_entry(old(self)@, f@).0);
                    assert(action_views(r@) =~= on_entry(old(self)@, f@).1);
                }
                r
            },
            other => self.fail_protocol(ProtocolError::NotEntry(other)),
        }
    }

    fn dir_done(&mut self, f: FileFrame) -> (r: Vec<RecvAction>)
        requires
            old(self).wf(),
            old(self)@.phase == Phase::DirDone,
        ensures
            final(self).wf(),
            (final(self)@, action_views(r@)) == on_dir_done(old(self)@, f@),
    {
        match f {
            FileFrame::EntryDone { blake3: _ } => {
                let mut r: Vec<RecvAction> = Vec::new();
                let mode: u32 = self.mode;
                let bits: u32 = mode & 0o777;
                assert(bits == mode % 0o1000) by (bit_vector)
                    requires
                        bits == mode & 0o777u32,
                ;
                r.push(RecvAction::SetMode(self.final_path.clone(), bits));
                self.entries_done = self.entries_done + 1;
                let ghost s1 = self@;
                let ghost head = action_views(r@);
                self.advance(&mut r);
                proof {
                    let s = old(self)@;
                    assert(s1 =~= RecvView { entries_done: (s.entries_done + 1) as u32, ..s });
                    assert(head =~= seq![
                        RecvActionView::SetMode(s.final_path, (s.mode % 0o1000) as u32),
                    ]);
                }
                r
            },
            other => self.fail_protocol(ProtocolError::NotDirDone(other)),
        }
    }

    fn file_frame(&mut self, f: FileFrame) -> (r: Vec<RecvAction>)
        requires
            old(self).wf(),
            old(self)@.phase == Phase::Chunks,
        ensures
            final(self).wf(),
            (final(self)@, action_views(r@)) == on_file_frame(old(self)@, f@),
    {
        match f {
            FileFrame::Chunk { data } => match maybe_decompress(data, self.compressed) {
                Ok(raw) => {
                    hasher_update(&mut self.hasher, raw.as_slice());
                    self.phase = Phase::Writing;
                    self.bytes_done = self.bytes_done.saturating_add(raw.len() as u64);
                    let mut r: Vec<RecvAction> = Vec::new();
                    r.push(RecvAction::Write(raw));
                    proof {
                        assert(self@ =~= on_file_frame(old(self)@, f@).0);
                        assert(action_views(r@) =~= on_file_frame(old(self)@, f@).1);
                    }
                    r
                },
                Err(e) => self.fail(RecvError::Codec(e)),
            },
            FileFrame::EntryDone { blake3 } => {
                if !self.hash_matches(blake3) {
                    return self.fail_protocol(ProtocolError::HashMismatch(self.rel_path.clone()));
                }
                self.phase = Phase::Storing;
                let mut r: Vec<RecvAction> = Vec::new();
                r.push(
                    RecvAction::Store {
                        from: self.part_path.clone(),
                        to: self.final_path.clone(),
                    },
                );
                proof {
                    assert(self@ =~= on_file_frame(old(self)@, f@).0);
                    assert(action_views(r@) =~= on_file_frame(old(self)@, f@).1);
                }
                r
            },
            other => self.fail_protocol(ProtocolError::UnexpectedFrame(other)),
        }
    }

    fn frame(&mut self, f: FileFrame) -> (r: Vec<RecvAction>)
        requires
            old(self).wf(),
        ensures
            final(self).wf(),
            (final(self)@, action_views(r@)) == on_frame(old(self)@, f@),
    {
        match self.phase {
            Phase::ClipboardEntry => self.clipboard_entry(f),
            Phase::ClipboardChunks => self.clipboard_frame(f),
            Phase::Entry => self.entry(f),
            Phase::DirDone => self.dir_done(f),
            Phase::Chunks => self.file_frame(f),
            _ => {
                let r: Vec<RecvAction> = Vec::new();
                assert(action_views(r@) =~= Seq::empty());
                r
            },
        }
    }

    fn written(&mut self, now: u64) -> (r: Vec<RecvAction>)
        requires
            old(self).wf(),
        ensures
            final(self).wf(),
            (final(self)@, action_views(r@)) == on_written(old(self)@, now),
    {
        let mut r: Vec<RecvAction> = Vec::new();
        if self.phase == Phase::Writing {
            let due: bool = now.saturating_sub(self.last_progress) >= PROGRESS_INTERVAL
                || self.bytes_done - self.last_progress_bytes >= PROGRESS_BYTES;
            if due {
                r.push(
                    RecvAction::Emit(
                        Event::Progress {
                            xfer_id: self.xfer_id,
                            bytes: self.bytes_done,
                            total: self.total_bytes,
                            entries_done: self.entries_done,
                            entries_total: self.entries_total,
                            current_entry: Some(self.rel_path.clone()),
                        },
                    ),
                );
                self.last_progress = now;
                self.last_progress_bytes = self.bytes_done;
            }
            self.phase = Phase::Chunks;
            r.push(RecvAction::ReadFrame);
        }
        proof {
            assert(self@ =~= on_written(old(self)@, now).0);
            assert(action_views(r@) =~= on_written(old(self)@, now).1);
        }
        r
    }

    fn stored(&mut self) -> (r: Vec<RecvAction>)
        requires
            old(self).wf(),
        ensures
            final(self).wf(),
            (final(self)@, action_views(r@)) == on_stored(old(self)@),
    {
        let mut r: Vec<RecvAction> = Vec::new();
        if self.phase == Phase::Storing {
            self.entries_done = self.entries_done + 1;
            let ghost s1 = self@;
            self.advance(&mut r);
            proof {
                let s = old(self)@;
                assert(s1 =~= RecvView { entries_done: (s.entries_done + 1) as u32, ..s });
            }
        }
        assert(action_views(r@) =~= on_stored(old(self)@).1);
        r
    }

    /// Takes what happened and says what is to be done next.
    pub fn step(&mut self, input: RecvInput) -> (r: Vec<RecvAction>)
        requires
            old(self).wf(),
        ensures
            final(self).wf(),
            (final(self)@, action_views(r@)) == recv_step(old(self)@, input@),
    {
        match input {
            RecvInput::Ctrl(c) => self.ctrl(c),
            RecvInput::Decided(d, now) => self.decided(d, now),
            RecvInput::StreamOpened => self.stream_opened(),
            RecvInput::Frame(f) => self.frame(f),
            RecvInput::Written(now) => self.written(now),
            RecvInput::Stored => self.stored(),
            RecvInput::Failed => {
                let r: Vec<RecvAction> = self.clean_up();
                self.phase = Phase::Closed;
                assert(self@ =~= recv_step(old(self)@, input@).0);
                r
            },
        }
    }
}

} // verus!

//! Frames of the control and data streams, and their length-prefixed form.
use crate::file_transfer::codec::CHUNK_SIZE;
use crate::text;
use vstd::prelude::*;

verus! {

/// Hard cap on the body of a frame, so that a length prefix cannot ask for unbounded memory.
pub const MAX_FRAME_BYTES: usize = CHUNK_SIZE * 2;

/// Messages of the control stream.
#[derive(Debug)]
pub enum FileCtrl {
    /// Opens a transfer.
    Offer {
        /// Number of the transfer at the sender.
        xfer_id: u64,
        /// Name of the tree.
        root: String,
        /// Number of entries.
        entries: u32,
        /// Sum of the file sizes.
        total_bytes: u64,
        /// Whether this is a silent clipboard hand-off.
        clipboard: bool,
    },
    /// The offer is accepted.
    Accept {
        /// Number of the transfer at the receiver.
        xfer_id: u64,
    },
    /// The offer is refused.
    Decline {
        /// Number of the transfer at the receiver.
        xfer_id: u64,
        /// Why.
        reason: String,
    },
    /// The transfer is given up.
    Abort {
        /// Number of the transfer.
        xfer_id: u64,
    },
    /// Progress report.
    Progress {
        /// Number of the transfer.
        xfer_id: u64,
        /// Bytes done.
        bytes: u64,
        /// Entries done.
        entries_done: u32,
    },
}

/// Contents of a [`FileCtrl`].
#[verifier::ext_equal]
pub enum FileCtrlView {
    /// See [`FileCtrl::Offer`].
    Offer { xfer_id: u64, root: Seq<char>, entries: u32, total_bytes: u64, clipboard: bool },
    /// See [`FileCtrl::Accept`].
    Accept { xfer_id: u64 },
    /// See [`FileCtrl::Decline`].
    Decline { xfer_id: u64, reason: Seq<char> },
    /// See [`FileCtrl::Abort`].
    Abort { xfer_id: u64 },
    /// See [`FileCtrl::Progress`].
    Progress { xfer_id: u64, bytes: u64, entries_done: u32 },
}

impl View for FileCtrl {
    type V = FileCtrlView;

    open spec fn view(&self) -> FileCtrlView {
        match self {
            FileCtrl::Offer { xfer_id, root, entries, total_bytes, clipboard } => {
                FileCtrlView::Offer {
                    xfer_id: *xfer_id,
                    root: root@,
                    entries: *entries,
                    total_bytes: *total_bytes,
                    clipboard: *clipboard,
                }
            },
            FileCtrl::Accept { xfer_id } => FileCtrlView::Accept { xfer_id: *xfer_id },
            FileCtrl::Decline { xfer_id, reason } => FileCtrlView::Decline {
                xfer_id: *xfer_id,
                reason: reason@,
            },
            FileCtrl::Abort { xfer_id } => FileCtrlView::Abort { xfer_id: *xfer_id },
            FileCtrl::Progress { xfer_id, bytes, entries_done } => FileCtrlView::Progress {
                xfer_id: *xfer_id,
                bytes: *bytes,
                entries_done: *entries_done,
            },
        }
    }
}

/// Whether the `clipboard` mark of an offer is left off the wire.
pub fn is_false(b: &bool) -> (r: bool)
    ensures
        r == !*b,
{
    !*b
}

/// Kind of a filesystem entry.
#[derive(Clone, Copy, PartialEq, Eq, Structural, Debug)]
pub enum EntryKind {
    /// Regular file.
    File,
    /// Directory.
    Dir,
}

/// Messages of a data stream: an entry, its chunks, and the hash of its contents.
#[derive(Debug)]
pub enum FileFrame {
    /// Starts an entry.
    Entry {
        /// Path below the root of the transfer.
        rel_path: String,
        /// Size; informational, the hash decides.
        size: u64,
        /// Unix mode bits.
        mode: u32,
        /// File or directory.
        kind: EntryKind,
        /// Whether the data of each chunk is zstd-compressed.
        compressed: bool,
    },
    /// Contents, or a compressed form of them.
    Chunk {
        /// The bytes.
        data: Vec<u8>,
    },
    /// Ends an entry.
    EntryDone {
        /// BLAKE3 hash of the raw contents.
        blake3: [u8; 32],
    },
}

/// Contents of a [`FileFrame`].
#[verifier::ext_equal]
pub enum FileFrameView {
    /// See [`FileFrame::Entry`].
    Entry { rel_path: Seq<char>, size: u64, mode: u32, kind: EntryKind, compressed: bool },
    /// See [`FileFrame::Chunk`].
    Chunk { data: Seq<u8> },
    /// See [`FileFrame::EntryDone`].
    EntryDone { blake3: Seq<u8> },
}

impl View for FileFrame {
    type V = FileFrameView;

    open spec fn view(&self) -> FileFrameView {
        match self {
            FileFrame::Entry { rel_path, size, mode, kind, compressed } => FileFrameView::Entry {
                rel_path: rel_path@,
                size: *size,
                mode: *mode,
                kind: *kind,
                compressed: *compressed,
            },
            FileFrame::Chunk { data } => FileFrameView::Chunk { data: data@ },
            FileFrame::EntryDone { blake3 } => FileFrameView::EntryDone { blake3: blake3@ },
        }
    }
}

/// The contents of a list of frames.
pub open spec fn frame_views(v: Seq<FileFrame>) -> Seq<FileFrameView> {
    Seq::new(v.len(), |i: int| v[i]@)
}

// ----- errors ---------------------------------------------------------------

/// A peer that does not keep to the protocol, or refuses.
#[derive(Debug)]
pub enum ProtocolError {
    /// The transfer was cancelled.
    Cancelled,
    /// A length prefix beyond [`MAX_FRAME_BYTES`].
    FrameTooLarge(u64),
    /// The first control frame was no offer.
    FirstCtrlNotOffer(FileCtrl),
    /// Neither an acceptance nor a refusal came back.
    UnexpectedPreAccept(FileCtrl),
    /// The offer was refused.
    Declined(String),
    /// The clipboard offer was refused.
    ClipboardDeclined(String),
    /// The clipboard stream did not start with a file entry.
    ClipboardNotFileEntry(FileFrame),
    /// The clipboard stream held something else than chunks and the end.
    ClipboardUnexpectedFrame(FileFrame),
    /// The clipboard bytes do not have the announced hash.
    ClipboardHashMismatch,
    /// A data stream did not start with an entry.
    NotEntry(FileFrame),
    /// The name of the offered tree is no name in a directory.
    UnsafeRoot(String),
    /// The path of an entry leaves the root.
    UnsafeRelPath(String),
    /// A directory entry was followed by something else than its end.
    NotDirDone(FileFrame),
    /// A file stream held something else than chunks and the end.
    UnexpectedFrame(FileFrame),
    /// The contents of a file do not have the announced hash.
    HashMismatch(String),
}

/// Contents of a [`ProtocolError`].
#[verifier::ext_equal]
pub enum ProtocolErrorView {
    /// See [`ProtocolError::Cancelled`].
    Cancelled,
    /// See [`ProtocolError::FrameTooLarge`].
    FrameTooLarge(u64),
    /// See [`ProtocolError::FirstCtrlNotOffer`].
    FirstCtrlNotOffer(FileCtrlView),
    /// See [`ProtocolError::UnexpectedPreAccept`].
    UnexpectedPreAccept(FileCtrlView),
    /// See [`ProtocolError::Declined`].
    Declined(Seq<char>),
    /// See [`ProtocolError::ClipboardDeclined`].
    ClipboardDeclined(Seq<char>),
    /// See [`ProtocolError::ClipboardNotFileEntry`].
    ClipboardNotFileEntry(FileFrameView),
    /// See [`ProtocolError::ClipboardUnexpectedFrame`].
    ClipboardUnexpectedFrame(FileFrameView),
    /// See [`ProtocolError::ClipboardHashMismatch`].
    ClipboardHashMismatch,
    /// See [`ProtocolError::NotEntry`].
    NotEntry(FileFrameView),
    /// See [`ProtocolError::UnsafeRoot`].
    UnsafeRoot(Seq<char>),
    /// See [`ProtocolError::UnsafeRelPath`].
    UnsafeRelPath(Seq<char>),
    /// See [`ProtocolError::NotDirDone`].
    NotDirDone(FileFrameView),
    /// See [`ProtocolError::UnexpectedFrame`].
    UnexpectedFrame(FileFrameView),
    /// See [`ProtocolError::HashMismatch`].
    HashMismatch(Seq<char>),
}

impl View for ProtocolError {
    type V = ProtocolErrorView;

    open spec fn view(&self) -> ProtocolErrorView {
        match self {
            ProtocolError::Cancelled => ProtocolErrorView::Cancelled,
            ProtocolError::FrameTooLarge(n) => ProtocolErrorView::FrameTooLarge(*n),
            ProtocolError::FirstCtrlNotOffer(c) => ProtocolErrorView::FirstCtrlNotOffer(c@),
            ProtocolError::UnexpectedPreAccept(c) => ProtocolErrorView::UnexpectedPreAccept(c@),
            ProtocolError::Declined(r) => ProtocolErrorView::Declined(r@),
            ProtocolError::ClipboardDeclined(r) => ProtocolErrorView::ClipboardDeclined(r@),
            ProtocolError::ClipboardNotFileEntry(f) => ProtocolErrorView::ClipboardNotFileEntry(
                f@,
            ),
            ProtocolError::ClipboardUnexpectedFrame(f) => {
                ProtocolErrorView::ClipboardUnexpectedFrame(f@)
            },
            ProtocolError::ClipboardHashMismatch => ProtocolErrorView::ClipboardHashMismatch,
            ProtocolError::NotEntry(f) => ProtocolErrorView::NotEntry(f@),
            ProtocolError::UnsafeRoot(n) => ProtocolErrorView::UnsafeRoot(n@),
            ProtocolError::UnsafeRelPath(p) => ProtocolErrorView::UnsafeRelPath(p@),
            ProtocolError::NotDirDone(f) => ProtocolErrorView::NotDirDone(f@),
            ProtocolError::UnexpectedFrame(f) => ProtocolErrorView::UnexpectedFrame(f@),
            ProtocolError::HashMismatch(p) => ProtocolErrorView::HashMismatch(p@),
        }
    }
}

/// The text of a protocol error; `shown` is how the offending frame or path is displayed.
pub open spec fn protocol_message(e: ProtocolErrorView, shown: Seq<char>) -> Seq<char> {
    match e {
        ProtocolErrorView::Cancelled => "cancelled"@,
        ProtocolErrorView::FrameTooLarge(n) => "frame too large ("@ + text::dec(n as nat)
            + " > 131072)"@,
        ProtocolErrorView::FirstCtrlNotOffer(_) => "first ctrl frame was not Offer: "@ + shown,
        ProtocolErrorView::UnexpectedPreAccept(_) => "unexpected pre-accept frame: "@ + shown,
        ProtocolErrorView::Declined(r) => "declined: "@ + r,
        ProtocolErrorView::ClipboardDeclined(r) => "clipboard declined: "@ + r,
        ProtocolErrorView::ClipboardNotFileEntry(_) => {
            "clipboard: first data frame was not File Entry: "@ + shown
        },
        ProtocolErrorView::ClipboardUnexpectedFrame(_) => {
            "clipboard: expected Chunk/EntryDone, got: "@ + shown
        },
        ProtocolErrorView::ClipboardHashMismatch => "clipboard: blake3 mismatch"@,
        ProtocolErrorView::NotEntry(_) => "first data frame was not Entry: "@ + shown,
        ProtocolErrorView::UnsafeRoot(_) => "rejecting unsafe root: "@ + shown,
        ProtocolErrorView::UnsafeRelPath(_) => "rejecting unsafe rel_path: "@ + shown,
        ProtocolErrorView::NotDirDone(_) => "expected EntryDone after Dir Entry, got: "@ + shown,
        ProtocolErrorView::UnexpectedFrame(_) => "expected Chunk/EntryDone, got: "@ + shown,
        ProtocolErrorView::HashMismatch(p) => "blake3 mismatch on "@ + p,
    }
}

impl ProtocolError {
    /// The text of the error; `shown` is how the offending frame or path is displayed.
    pub fn message(&self, shown: &str) -> (r: String)
        ensures
            r@ == protocol_message(self@, shown@),
    {
        match self {
            ProtocolError::Cancelled => "cancelled".to_owned(),
            ProtocolError::FrameTooLarge(n) => {
                let digits: String = text::dec_string(*n);
                text::concat3("frame too large (", digits.as_str(), " > 131072)")
            },
            ProtocolError::FirstCtrlNotOffer(_) => {
                text::concat2("first ctrl frame was not Offer: ", shown)
            },
            ProtocolError::UnexpectedPreAccept(_) => {
                text::concat2("unexpected pre-accept frame: ", shown)
            },
            ProtocolError::Declined(reason) => text::concat2("declined: ", reason.as_str()),
            ProtocolError::ClipboardDeclined(reason) => {
                text::concat2("clipboard declined: ", reason.as_str())
            },
            ProtocolError::ClipboardNotFileEntry(_) => {
                text::concat2("clipboard: first data frame was not File Entry: ", shown)
            },
            ProtocolError::ClipboardUnexpectedFrame(_) => {
                text::concat2("clipboard: expected Chunk/EntryDone, got: ", shown)
            },
            ProtocolError::ClipboardHashMismatch => "clipboard: blake3 mismatch".to_owned(),
            ProtocolError::NotEntry(_) => {
                text::concat2("first data frame was not Entry: ", shown)
            },
            ProtocolError::UnsafeRoot(_) => text::concat2("rejecting unsafe root: ", shown),
            ProtocolError::UnsafeRelPath(_) => text::concat2("rejecting unsafe rel_path: ", shown),
            ProtocolError::NotDirDone(_) => {
                text::concat2("expected EntryDone after Dir Entry, got: ", shown)
            },
            ProtocolError::UnexpectedFrame(_) => {
                text::concat2("expected Chunk/EntryDone, got: ", shown)
            },
            ProtocolError::HashMismatch(rel_path) => {
                text::concat2("blake3 mismatch on ", rel_path.as_str())
            },
        }
    }
}

// ----- framing --------------------------------------------------------------

/// The four bytes of a number below 2^32, most significant first.
pub open spec fn be32(n: int) -> Seq<u8> {
    seq![
        (n / 0x100_0000 % 256) as u8,
        (n / 0x1_0000 % 256) as u8,
        (n / 0x100 % 256) as u8,
        (n % 256) as u8,
    ]
}

/// The number that four bytes denote, most significant first.
pub open spec fn be32_value(b: Seq<u8>) -> int {
    b[0] * 0x100_0000 + b[1] * 0x1_0000 + b[2] * 0x100 + b[3]
}

/// A frame on the wire: the length of its body modulo 2^32, then the body.
pub open spec fn frame_bytes(body: Seq<u8>) -> Seq<u8> {
    be32(body.len() as int % 0x1_0000_0000) + body
}

/// Writes a 32-bit number, most significant byte first.
pub fn push_be32(out: &mut Vec<u8>, n: u32)
    ensures
        final(out)@ == old(out)@ + be32(n as int),
{
    out.push((n / 0x100_0000) as u8);
    out.push((n / 0x1_0000 % 256) as u8);
    out.push((n / 0x100 % 256) as u8);
    out.push((n % 256) as u8);
    assert(out@ =~= old(out)@ + be32(n as int));
}

/// Reads a 32-bit number, most significant byte first.
pub fn read_be32(b: &[u8], at: usize) -> (r: u32)
    requires
        at + 4 <= b@.len(),
    ensures
        r == be32_value(b@.subrange(at as int, at + 4)),
{
    let ghost s = b@.subrange(at as int, at + 4);
    assert(s[0] == b@[at as int] && s[1] == b@[at + 1] && s[2] == b@[at + 2] && s[3] == b@[at + 3]);
    b[at] as u32 * 0x100_0000 + b[at + 1] as u32 * 0x1_0000 + b[at + 2] as u32 * 0x100 + b[at
        + 3] as u32
}

/// Reading the bytes of a number gives the number back.
pub proof fn lemma_be32_inverse(n: int)
    requires
        0 <= n < 0x1_0000_0000,
    ensures
        be32_value(be32(n)) == n,
        be32(n).len() == 4,
{
}

/// The frame that carries a body.
pub fn write_frame(body: &Vec<u8>) -> (r: Vec<u8>)
    ensures
        r@ == frame_bytes(body@),
{
    let mut out: Vec<u8> = Vec::new();
    let len: u32 = (body.len() as u64 % 0x1_0000_0000) as u32;
    push_be32(&mut out, len);
    out.extend_from_slice(body.as_slice());
    assert(out@ =~= frame_bytes(body@));
    out
}

/// The length that a frame's first four bytes announce, unless it is beyond the cap.
pub fn frame_len(header: [u8; 4]) -> (r: Result<usize, ProtocolError>)
    ensures
        match r {
            Ok(n) => n == be32_value(header@) && n <= MAX_FRAME_BYTES,
            Err(e) => be32_value(header@) > MAX_FRAME_BYTES && e@
                == ProtocolErrorView::FrameTooLarge(be32_value(header@) as u64),
        },
{
    assert(header@.subrange(0, 4) =~= header@);
    let len: u32 = read_be32(header.as_slice(), 0);
    if len as usize > MAX_FRAME_BYTES {
        return Err(ProtocolError::FrameTooLarge(len as u64));
    }
    Ok(len as usize)
}

/// What the bytes received so far of a stream hold at their start.
#[derive(Debug)]
pub enum FrameRead {
    /// A whole frame: its body, and how many bytes it took.
    Body(Vec<u8>, usize),
    /// More bytes are needed.
    Incomplete,
    /// The announced length is beyond the cap.
    TooLarge(ProtocolError),
}

/// Reads the frame at the start of `bytes`.
pub fn read_frame(bytes: &[u8]) -> (r: FrameRead)
    ensures
        match r {
            FrameRead::Body(body, used) => {
                &&& bytes@.len() >= 4
                &&& body@.len() == be32_value(bytes@.take(4)) <= MAX_FRAME_BYTES
                &&& used == body@.len() + 4 <= bytes@.len()
                &&& body@ == bytes@.subrange(4, used as int)
            },
            FrameRead::Incomplete => {
                ||| bytes@.len() < 4
                ||| be32_value(bytes@.take(4)) <= MAX_FRAME_BYTES && bytes@.len() < 4 + be32_value(
                    bytes@.take(4),
                )
            },
            FrameRead::TooLarge(e) => {
                &&& bytes@.len() >= 4
                &&& be32_value(bytes@.take(4)) > MAX_FRAME_BYTES
                &&& e@ == ProtocolErrorView::FrameTooLarge(be32_value(bytes@.take(4)) as u64)
            },
        },
{
    if bytes.len() < 4 {
        return FrameRead::Incomplete;
    }
    let header: [u8; 4] = [bytes[0], bytes[1], bytes[2], bytes[3]];
    assert(header@ =~= bytes@.take(4));
    match frame_len(header) {
        Err(e) => FrameRead::TooLarge(e),
        Ok(len) => {
            if bytes.len() - 4 < len {
                return FrameRead::Incomplete;
            }
            let end: usize = 4 + len;
            let mut body: Vec<u8> = Vec::new();
            let mut i: usize = 4;
            while i < end
                invariant
                    4 <= i <= end <= bytes@.len(),
                    body@ == bytes@.subrange(4, i as int),
                decreases end - i,
            {
                body.push(bytes[i]);
                i += 1;
                assert(body@ =~= bytes@.subrange(4, i as int));
            }
            FrameRead::Body(body, end)
        },
    }
}

/// What reading the start of a byte string gives, over byte strings.
pub open spec fn frame_at_start(bytes: Seq<u8>, body: Seq<u8>) -> bool {
    &&& bytes.len() >= 4
    &&& body.len() == be32_value(bytes.take(4)) <= MAX_FRAME_BYTES
    &&& body.len() + 4 <= bytes.len()
    &&& body == bytes.subrange(4, body.len() as int + 4)
}

/// A frame that was written is read back, whatever follows it on the stream, when its body is
/// within the cap.
pub proof fn law_read_frame_inverts_write_frame(body: Seq<u8>, rest: Seq<u8>)
    requires
        body.len() <= MAX_FRAME_BYTES,
    ensures
        frame_at_start(frame_bytes(body) + rest, body),
{
    let bytes = frame_bytes(body) + rest;
    lemma_be32_inverse(body.len() as int);
    assert(bytes.take(4) =~= be32(body.len() as int));
    assert(bytes.subrange(4, body.len() as int + 4) =~= body);
}

/// A body beyond the cap (and below 2^32 bytes) is always refused.
pub proof fn law_oversize_frame_refused(body: Seq<u8>, rest: Seq<u8>)
    requires
        MAX_FRAME_BYTES < body.len() < 0x1_0000_0000,
    ensures
        be32_value((frame_bytes(body) + rest).take(4)) > MAX_FRAME_BYTES,
{
    lemma_be32_inverse(body.len() as int);
    assert((frame_bytes(body) + rest).take(4) =~= be32(body.len() as int));
}

/// A number is written highest byte first, and four bytes are read so.
pub proof fn law_big_endian(n: int, a: u8, b: u8, c: u8, d: u8)
    requires
        0 <= n < 0x1_0000_0000,
    ensures
        be32(n).len() == 4,
        be32(n)[0] * 16777216 + be32(n)[1] * 65536 + be32(n)[2] * 256 + be32(n)[3] == n,
        be32_value(seq![a, b, c, d]) == a * 16777216 + b * 65536 + c * 256 + d,
{
}

/// A frame is four bytes with the length of the body, and then the body.
pub proof fn law_frame(body: Seq<u8>)
    requires
        body.len() < 0x1_0000_0000,
    ensures
        frame_bytes(body).len() == body.len() + 4,
        frame_bytes(body).skip(4) == body,
        frame_bytes(body)[0] * 16777216 + frame_bytes(body)[1] * 65536 + frame_bytes(body)[2] * 256
            + frame_bytes(body)[3] == body.len(),
{
    assert(frame_bytes(body).skip(4) =~= body);
}

/// What is told of a peer that does not keep to the protocol ends in what it did: the frame or path
/// as it is shown, the reason it gave, or the path of the file.
pub proof fn law_protocol_message(e: ProtocolErrorView, shown: Seq<char>, r: Seq<char>)
    ensures
        e is FirstCtrlNotOffer || e is UnexpectedPreAccept || e is ClipboardNotFileEntry
            || e is ClipboardUnexpectedFrame || e is NotEntry || e is UnsafeRoot
            || e is UnsafeRelPath || e is NotDirDone || e is UnexpectedFrame ==> shown.is_suffix_of(
            protocol_message(e, shown),
        ),
        r.is_suffix_of(protocol_message(ProtocolErrorView::Declined(r), shown)),
        r.is_suffix_of(protocol_message(ProtocolErrorView::ClipboardDeclined(r), shown)),
        r.is_suffix_of(protocol_message(ProtocolErrorView::HashMismatch(r), shown)),
        protocol_message(ProtocolErrorView::Cancelled, shown) == "cancelled"@,
{
    let m = protocol_message(e, shown);
    if m.len() >= shown.len() {
        if e is FirstCtrlNotOffer || e is UnexpectedPreAccept || e is ClipboardNotFileEntry
            || e is ClipboardUnexpectedFrame || e is NotEntry || e is UnsafeRoot
            || e is UnsafeRelPath || e is NotDirDone || e is UnexpectedFrame {
            assert(m.subrange(m.len() - shown.len(), m.len() as int) =~= shown);
        }
    }
    let a = protocol_message(ProtocolErrorView::Declined(r), shown);
    assert(a.subrange(a.len() - r.len(), a.len() as int) =~= r);
    let b = protocol_message(ProtocolErrorView::ClipboardDeclined(r), shown);
    assert(b.subrange(b.len() - r.len(), b.len() as int) =~= r);
    let c = protocol_message(ProtocolErrorView::HashMismatch(r), shown);
    assert(c.subrange(c.len() - r.len(), c.len() as int) =~= r);
}

} // verus!

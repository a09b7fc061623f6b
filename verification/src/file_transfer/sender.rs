//! The sending side: the tree as a list of entries, the offer, and the frames of each entry.
use crate::file_transfer::codec::{
    blake3_hash, copy_bytes, hasher_finalize, hasher_new, hasher_update, is_already_compressed,
    maybe_compress, CodecError,
};
use crate::file_transfer::wire::{
    EntryKind, FileCtrl, FileCtrlView, FileFrame, FileFrameView, ProtocolError, ProtocolErrorView,
};
use crate::file_transfer::{codec, paths, wire};
use vstd::prelude::*;

verus! {

// ----- the tree -------------------------------------------------------------

/// A file or directory as it was found on disk.
#[derive(Debug)]
pub enum FsNode {
    /// Regular file.
    File {
        /// Name in its directory.
        name: String,
        /// Size.
        size: u64,
        /// Unix mode.
        mode: u32,
    },
    /// Directory with its entries in the order in which they were read.
    Dir {
        /// Name in its directory.
        name: String,
        /// Unix mode.
        mode: u32,
        /// Entries.
        children: Vec<FsNode>,
    },
    /// Symlink or special file; never sent.
    Other,
}

/// An entry of a tree that is sent.
#[derive(Debug)]
pub struct LocalEntry {
    /// Path below the root of the transfer.
    pub rel_path: String,
    /// Path on disk.
    pub absolute: String,
    /// Size; 0 for a directory.
    pub size: u64,
    /// Unix mode.
    pub mode: u32,
    /// Whether this is a directory.
    pub is_dir: bool,
}

/// Contents of a [`LocalEntry`].
#[verifier::ext_equal]
pub struct LocalEntryView {
    /// See [`LocalEntry::rel_path`].
    pub rel_path: Seq<char>,
    /// See [`LocalEntry::absolute`].
    pub absolute: Seq<char>,
    /// See [`LocalEntry::size`].
    pub size: u64,
    /// See [`LocalEntry::mode`].
    pub mode: u32,
    /// See [`LocalEntry::is_dir`].
    pub is_dir: bool,
}

impl View for LocalEntry {
    type V = LocalEntryView;

    open spec fn view(&self) -> LocalEntryView {
        LocalEntryView {
            rel_path: self.rel_path@,
            absolute: self.absolute@,
            size: self.size,
            mode: self.mode,
            is_dir: self.is_dir,
        }
    }
}

/// The contents of a list of entries.
pub open spec fn entry_views(v: Seq<LocalEntry>) -> Seq<LocalEntryView> {
    Seq::new(v.len(), |i: int| v[i]@)
}

/// The name of a node in its directory.
pub open spec fn node_name(node: FsNode) -> Seq<char> {
    match node {
        FsNode::File { name, .. } => name@,
        FsNode::Dir { name, .. } => name@,
        FsNode::Other => Seq::empty(),
    }
}

/// The entries of a node: a file itself, a directory before everything in it, nothing for
/// symlinks and special files.
pub open spec fn walked(node: FsNode, abs: Seq<char>, rel: Seq<char>) -> Seq<LocalEntryView>
    decreases node, 1nat, 0nat,
{
    match node {
        FsNode::File { name: _, size, mode } => seq![
            LocalEntryView { rel_path: rel, absolute: abs, size, mode, is_dir: false },
        ],
        FsNode::Dir { name: _, mode, children } => seq![
            LocalEntryView { rel_path: rel, absolute: abs, size: 0, mode, is_dir: true },
        ] + walked_children(node, children@.len(), abs, rel),
        FsNode::Other => Seq::empty(),
    }
}

/// The entries of the first `k` children of a directory.
pub open spec fn walked_children(node: FsNode, k: nat, abs: Seq<char>, rel: Seq<char>) -> Seq<
    LocalEntryView,
>
    decreases node, 0nat, k,
{
    match node {
        FsNode::Dir { name: _, mode: _, children } => {
            if k == 0 || k > children@.len() {
                Seq::empty()
            } else {
                let child = children@[k - 1];
                walked_children(node, (k - 1) as nat, abs, rel) + walked(
                    child,
                    paths::joined(abs, node_name(child)),
                    paths::joined(rel, node_name(child)),
                )
            }
        },
        _ => Seq::empty(),
    }
}

fn name_of(node: &FsNode) -> (r: String)
    ensures
        r@ == node_name(*node),
{
    match node {
        FsNode::File { name, .. } => name.clone(),
        FsNode::Dir { name, .. } => name.clone(),
        FsNode::Other => String::new(),
    }
}

/// Appends the entries of a node.
pub fn walk_dir(node: &FsNode, abs: &str, rel: &str, out: &mut Vec<LocalEntry>)
    ensures
        entry_views(final(out)@) == entry_views(old(out)@) + walked(*node, abs@, rel@),
    decreases *node,
{
    let ghost before = entry_views(out@);
    match node {
        FsNode::File { name: _, size, mode } => {
            out.push(
                LocalEntry {
                    rel_path: rel.to_owned(),
                    absolute: abs.to_owned(),
                    size: *size,
                    mode: *mode,
                    is_dir: false,
                },
            );
            assert(entry_views(out@) =~= before + walked(*node, abs@, rel@));
        },
        FsNode::Dir { name: _, mode, children } => {
            out.push(
                LocalEntry {
                    rel_path: rel.to_owned(),
                    absolute: abs.to_owned(),
                    size: 0,
                    mode: *mode,
                    is_dir: true,
                },
            );
            let ghost head = seq![
                LocalEntryView {
                    rel_path: rel@,
                    absolute: abs@,
                    size: 0,
                    mode: *mode,
                    is_dir: true,
                },
            ];
            let n: usize = children.len();
            let mut i: usize = 0;
            assert(entry_views(out@) =~= before + head + walked_children(*node, 0, abs@, rel@));
            while i < n
                invariant
                    *node matches FsNode::Dir { name: _, mode: _, children: cs } && cs == *children,
                    n == children@.len(),
                    i <= n,
                    entry_views(out@) == before + head + walked_children(
                        *node,
                        i as nat,
                        abs@,
                        rel@,
                    ),
                decreases n - i,
            {
                let child: &FsNode = &children[i];
                let name: String = name_of(child);
                let child_abs: String = paths::join_path(abs, name.as_str());
                let child_rel: String = paths::join_path(rel, name.as_str());
                let ghost mid = entry_views(out@);
                assert(decreases_to!(*node => children@[i as int]));
                walk_dir(child, child_abs.as_str(), child_rel.as_str(), out);
                i += 1;
                proof {
                    let w = walked(*child, child_abs@, child_rel@);
                    let k = walked_children(*node, (i - 1) as nat, abs@, rel@);
                    assert(walked_children(*node, i as nat, abs@, rel@) == k + w);
                    assert(before + head + k + w =~= before + head + (k + w));
                }
            }
            assert(before + head + walked_children(*node, n as nat, abs@, rel@) =~= before + (head
                + walked_children(*node, n as nat, abs@, rel@)));
        },
        FsNode::Other => {
            assert(before + walked(*node, abs@, rel@) =~= before);
        },
    }
}

/// The entries of a tree that is sent: `node` is what was found at `root`.
pub fn enumerate_entries(root: &str, node: &FsNode) -> (r: Vec<LocalEntry>)
    ensures
        entry_views(r@) == walked(*node, root@, paths::offered_name(root@)),
{
    let mut out: Vec<LocalEntry> = Vec::new();
    let name: String = paths::root_name(root);
    walk_dir(node, root, name.as_str(), &mut out);
    assert(entry_views(out@) =~= walked(*node, root@, paths::offered_name(root@)));
    out
}

// ----- the offer ------------------------------------------------------------

/// The sum of the sizes of the entries.
pub open spec fn total_size(entries: Seq<LocalEntryView>) -> nat
    decreases entries.len(),
{
    if entries.len() == 0 {
        0
    } else {
        total_size(entries.drop_last()) + entries.last().size as nat
    }
}

proof fn lemma_total_size_grows(entries: Seq<LocalEntryView>, k: int)
    requires
        0 <= k <= entries.len(),
    ensures
        total_size(entries.take(k)) <= total_size(entries),
    decreases entries.len() - k,
{
    if k == entries.len() {
        assert(entries.take(k) =~= entries);
    } else {
        lemma_total_size_grows(entries, k + 1);
        assert(entries.take(k + 1).drop_last() =~= entries.take(k));
    }
}

/// The sum of the sizes of the entries; `None` where it does not fit 64 bits.
pub fn total_bytes(entries: &Vec<LocalEntry>) -> (r: Option<u64>)
    ensures
        match r {
            Some(n) => n == total_size(entry_views(entries@)),
            None => total_size(entry_views(entries@)) > u64::MAX,
        },
{
    let mut sum: u64 = 0;
    let n: usize = entries.len();
    let ghost all = entry_views(entries@);
    let mut i: usize = 0;
    while i < n
        invariant
            n == entries@.len(),
            i <= n,
            all == entry_views(entries@),
            sum == total_size(all.take(i as int)),
        decreases n - i,
    {
        proof {
            assert(all.take(i + 1).drop_last() =~= all.take(i as int));
            lemma_total_size_grows(all, i + 1);
        }
        match sum.checked_add(entries[i].size) {
            Some(next) => {
                sum = next;
            },
            None => {
                return None;
            },
        }
        i += 1;
    }
    assert(all.take(n as int) =~= all);
    Some(sum)
}

/// The offer for a tree: its name, the number of its entries modulo 2^32, and their size.
pub open spec fn offer_of(xfer_id: u64, root: Seq<char>, entries: Seq<LocalEntryView>) -> FileCtrlView {
    FileCtrlView::Offer {
        xfer_id,
        root: paths::offered_name(root),
        entries: (entries.len() as int % 0x1_0000_0000) as u32,
        total_bytes: total_size(entries) as u64,
        clipboard: false,
    }
}

/// The offer that opens a transfer of the entries below `root`.
pub fn make_offer(xfer_id: u64, root: &str, entries: &Vec<LocalEntry>, total_bytes: u64) -> (r:
    FileCtrl)
    requires
        total_bytes == total_size(entry_views(entries@)),
    ensures
        r@ == offer_of(xfer_id, root@, entry_views(entries@)),
{
    FileCtrl::Offer {
        xfer_id,
        root: paths::root_name(root),
        entries: (entries.len() as u64 % 0x1_0000_0000) as u32,
        total_bytes,
        clipboard: false,
    }
}

/// The offer that opens a clipboard hand-off of `len` bytes.
pub open spec fn clipboard_offer_of(xfer_id: u64, len: u64) -> FileCtrlView {
    FileCtrlView::Offer {
        xfer_id,
        root: "clipboard"@,
        entries: 1,
        total_bytes: len,
        clipboard: true,
    }
}

/// The offer that opens a clipboard hand-off.
pub fn make_clipboard_offer(xfer_id: u64, content: &Vec<u8>) -> (r: FileCtrl)
    ensures
        r@ == clipboard_offer_of(xfer_id, content@.len() as u64),
{
    FileCtrl::Offer {
        xfer_id,
        root: "clipboard".to_owned(),
        entries: 1,
        total_bytes: content.len() as u64,
        clipboard: true,
    }
}

/// What the answer to an offer means.
pub open spec fn reply_of(reply: FileCtrlView, clipboard: bool) -> Result<(), ProtocolErrorView> {
    match reply {
        FileCtrlView::Accept { xfer_id: _ } => Ok(()),
        FileCtrlView::Decline { xfer_id: _, reason } => if clipboard {
            Err(ProtocolErrorView::ClipboardDeclined(reason))
        } else {
            Err(ProtocolErrorView::Declined(reason))
        },
        _ => Err(ProtocolErrorView::UnexpectedPreAccept(reply)),
    }
}

/// Whether the answer to an offer lets the entries go out.
pub fn check_reply(reply: FileCtrl, clipboard: bool) -> (r: Result<(), ProtocolError>)
    ensures
        match r {
            Ok(()) => reply_of(reply@, clipboard) == Ok::<(), ProtocolErrorView>(()),
            Err(e) => reply_of(reply@, clipboard) == Err::<(), ProtocolErrorView>(e@),
        },
{
    match reply {
        FileCtrl::Accept { xfer_id: _ } => Ok(()),
        FileCtrl::Decline { xfer_id: _, reason } => if clipboard {
            Err(ProtocolError::ClipboardDeclined(reason))
        } else {
            Err(ProtocolError::Declined(reason))
        },
        other => Err(ProtocolError::UnexpectedPreAccept(other)),
    }
}

// ----- the frames of an entry -----------------------------------------------

/// Bytes read of a file before its entry frame is sent, to probe its format.
pub const HEAD_BYTES: usize = 16;

/// The frames of a directory.
pub open spec fn dir_frames_of(entry: LocalEntryView) -> Seq<FileFrameView> {
    seq![
        FileFrameView::Entry {
            rel_path: entry.rel_path,
            size: 0,
            mode: entry.mode,
            kind: EntryKind::Dir,
            compressed: false,
        },
        FileFrameView::EntryDone { blake3: codec::blake3_digest(Seq::empty()) },
    ]
}

/// The entry frame of a file whose first bytes are `head`.
pub open spec fn file_entry_of(entry: LocalEntryView, head: Seq<u8>) -> FileFrameView {
    FileFrameView::Entry {
        rel_path: entry.rel_path,
        size: entry.size,
        mode: entry.mode,
        kind: EntryKind::File,
        compressed: !codec::already_compressed(head),
    }
}

/// The frame that carries a piece of a file.
pub open spec fn chunk_of(piece: Seq<u8>, compressed: bool) -> FileFrameView {
    FileFrameView::Chunk { data: codec::chunk_data(piece, compressed) }
}

/// The frames that open a file whose first bytes are `head`.
pub open spec fn opening_of(entry: LocalEntryView, head: Seq<u8>) -> Seq<FileFrameView> {
    if head.len() == 0 {
        seq![file_entry_of(entry, head)]
    } else {
        seq![
            file_entry_of(entry, head),
            chunk_of(head, !codec::already_compressed(head)),
        ]
    }
}

/// The frames of a directory entry.
pub fn dir_frames(entry: &LocalEntry) -> (r: Vec<FileFrame>)
    ensures
        wire::frame_views(r@) == dir_frames_of(entry@),
{
    let mut r: Vec<FileFrame> = Vec::new();
    r.push(
        FileFrame::Entry {
            rel_path: entry.rel_path.clone(),
            size: 0,
            mode: entry.mode,
            kind: EntryKind::Dir,
            compressed: false,
        },
    );
    let hasher: blake3::Hasher = hasher_new();
    r.push(FileFrame::EntryDone { blake3: hasher_finalize(&hasher) });
    assert(wire::frame_views(r@) =~= dir_frames_of(entry@));
    r
}

/// Whether a file goes out compressed, and what has gone out of it.
#[verifier::ext_equal]
pub struct EntrySenderView {
    /// Whether the chunks are compressed.
    pub compressed: bool,
    /// Contents sent so far.
    pub sent: Seq<u8>,
}

/// Turns the contents of a file, piece by piece, into frames.
#[derive(Debug)]
pub struct EntrySender {
    compressed: bool,
    hasher: blake3::Hasher,
}

impl View for EntrySender {
    type V = EntrySenderView;

    closed spec fn view(&self) -> EntrySenderView {
        EntrySenderView {
            compressed: self.compressed,
            sent: codec::blake3_absorbed(self.hasher)->0,
        }
    }
}

impl EntrySender {
    /// Whether the sender came from [`EntrySender::begin`].
    pub closed spec fn wf(&self) -> bool {
        codec::blake3_absorbed(self.hasher) is Some
    }

    /// Starts a file: the entry frame and, unless the file is empty, its first chunk. `head` is
    /// what the first [`HEAD_BYTES`] bytes of the file hold, or all of a shorter file.
    pub fn begin(entry: &LocalEntry, head: &[u8]) -> (r: Result<
        (EntrySender, Vec<FileFrame>),
        CodecError,
    >)
        requires
            head@.len() <= HEAD_BYTES,
        ensures
            match r {
                Ok((sender, frames)) => {
                    &&& sender.wf()
                    &&& wire::frame_views(frames@) == opening_of(entry@, head@)
                    &&& sender@ == (EntrySenderView {
                        compressed: !codec::already_compressed(head@),
                        sent: head@,
                    })
                    &&& head@.len() > 0 ==> codec::chunk_contents(
                        codec::chunk_data(head@, sender@.compressed),
                        sender@.compressed,
                    ) == Some(head@)
                },
                Err(e) => {
                    &&& e is Compress
                    &&& head@.len() > 0
                    &&& !codec::already_compressed(head@)
                },
            },
    {
        let compressed: bool = !is_already_compressed(head);
        let mut frames: Vec<FileFrame> = Vec::new();
        frames.push(
            FileFrame::Entry {
                rel_path: entry.rel_path.clone(),
                size: entry.size,
                mode: entry.mode,
                kind: EntryKind::File,
                compressed,
            },
        );
        let mut hasher: blake3::Hasher = hasher_new();
        if head.len() > 0 {
            hasher_update(&mut hasher, head);
            match maybe_compress(head, compressed) {
                Ok(data) => frames.push(FileFrame::Chunk { data }),
                Err(e) => return Err(e),
            }
        }
        let sender: EntrySender = EntrySender { compressed, hasher };
        proof {
            assert(wire::frame_views(frames@) =~= opening_of(entry@, head@));
            assert(sender@.sent =~= head@);
        }
        Ok((sender, frames))
    }

    /// The frame that carries the next piece of the file.
    pub fn chunk(&mut self, piece: &[u8]) -> (r: Result<FileFrame, CodecError>)
        requires
            old(self).wf(),
            piece@.len() <= codec::CHUNK_SIZE,
        ensures
            final(self).wf(),
            final(self)@ == (EntrySenderView {
                compressed: old(self)@.compressed,
                sent: old(self)@.sent + piece@,
            }),
            match r {
                Ok(frame) => {
                    &&& frame@ == chunk_of(piece@, old(self)@.compressed)
                    &&& codec::chunk_contents(
                        codec::chunk_data(piece@, old(self)@.compressed),
                        old(self)@.compressed,
                    ) == Some(piece@)
                },
                Err(e) => e is Compress && old(self)@.compressed,
            },
    {
        hasher_update(&mut self.hasher, piece);
        match maybe_compress(piece, self.compressed) {
            Ok(data) => Ok(FileFrame::Chunk { data }),
            Err(e) => Err(e),
        }
    }

    /// The frame that ends the file, with the hash of everything sent.
    pub fn finish(&self) -> (r: FileFrame)
        requires
            self.wf(),
        ensures
            r@ == (FileFrameView::EntryDone { blake3: codec::blake3_digest(self@.sent) }),
    {
        FileFrame::EntryDone { blake3: hasher_finalize(&self.hasher) }
    }
}

// ----- the frames of a clipboard --------------------------------------------

/// The frames of a clipboard: one uncompressed chunk, none where it is empty.
pub open spec fn clipboard_frames_of(content: Seq<u8>) -> Seq<FileFrameView> {
    let entry = FileFrameView::Entry {
        rel_path: "clipboard"@,
        size: content.len() as u64,
        mode: 0,
        kind: EntryKind::File,
        compressed: false,
    };
    let done = FileFrameView::EntryDone { blake3: codec::blake3_digest(content) };
    if content.len() == 0 {
        seq![entry, done]
    } else {
        seq![entry, FileFrameView::Chunk { data: content }, done]
    }
}

/// The frames of a clipboard.
pub fn clipboard_frames(content: &Vec<u8>) -> (r: Vec<FileFrame>)
    ensures
        wire::frame_views(r@) == clipboard_frames_of(content@),
{
    let mut r: Vec<FileFrame> = Vec::new();
    r.push(
        FileFrame::Entry {
            rel_path: "clipboard".to_owned(),
            size: content.len() as u64,
            mode: 0,
            kind: EntryKind::File,
            compressed: false,
        },
    );
    if content.len() > 0 {
        r.push(FileFrame::Chunk { data: copy_bytes(content.as_slice()) });
    }
    r.push(FileFrame::EntryDone { blake3: blake3_hash(content.as_slice()) });
    assert(wire::frame_views(r@) =~= clipboard_frames_of(content@));
    r
}

} // verus!

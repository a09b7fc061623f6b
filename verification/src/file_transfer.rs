//! The file-transfer side channel.
//!
//! Each transfer is one connection with a control stream that carries [`wire::FileCtrl`]
//! frames and one data stream per filesystem entry that carries [`wire::FileFrame`] frames.
//! Clipboards that do not fit the input channel travel the same way. The modules decide and
//! compute; the caller moves the bytes. [`laws`] states what holds over whole transfers, and
//! [`promises`] what is sent of a tree and what either side does at each step.
pub mod codec;
pub mod laws;
pub mod outgoing;
pub mod paths;
pub mod promises;
pub mod receiver;
pub mod sender;
pub mod service;
pub mod trust;
pub mod wire;

use crate::net::SocketAddr;
use crate::text;
use vstd::prelude::*;

verus! {

/// Commands sent into the file-transfer service.
#[derive(Debug)]
pub enum Command {
    /// Initiate an outgoing transfer of a file or, recursively, of a directory.
    SendPath {
        /// Listener of the peer.
        target_addr: SocketAddr,
        /// Certificate fingerprint that the peer must show.
        target_fingerprint: String,
        /// File or directory to send.
        root: String,
    },
    /// Hand a clipboard over in memory; the receiver accepts it without a prompt.
    SendClipboard {
        /// Listener of the peer.
        target_addr: SocketAddr,
        /// Certificate fingerprint that the peer must show.
        target_fingerprint: String,
        /// Clipboard bytes.
        content: Vec<u8>,
    },
    /// Response to an [`Event::IncomingOffer`].
    RespondOffer {
        /// Transfer that is answered.
        xfer_id: u64,
        /// The answer.
        decision: Decision,
    },
    /// Cancel a transfer in either direction.
    Cancel {
        /// Transfer to cancel.
        xfer_id: u64,
    },
}

/// Contents of a [`Command`].
#[verifier::ext_equal]
pub enum CommandView {
    /// See [`Command::SendPath`].
    SendPath { target_addr: SocketAddr, target_fingerprint: Seq<char>, root: Seq<char> },
    /// See [`Command::SendClipboard`].
    SendClipboard { target_addr: SocketAddr, target_fingerprint: Seq<char>, content: Seq<u8> },
    /// See [`Command::RespondOffer`].
    RespondOffer { xfer_id: u64, decision: DecisionView },
    /// See [`Command::Cancel`].
    Cancel { xfer_id: u64 },
}

impl View for Command {
    type V = CommandView;

    open spec fn view(&self) -> CommandView {
        match self {
            Command::SendPath { target_addr, target_fingerprint, root } => CommandView::SendPath {
                target_addr: *target_addr,
                target_fingerprint: target_fingerprint@,
                root: root@,
            },
            Command::SendClipboard { target_addr, target_fingerprint, content } => {
                CommandView::SendClipboard {
                    target_addr: *target_addr,
                    target_fingerprint: target_fingerprint@,
                    content: content@,
                }
            },
            Command::RespondOffer { xfer_id, decision } => CommandView::RespondOffer {
                xfer_id: *xfer_id,
                decision: decision@,
            },
            Command::Cancel { xfer_id } => CommandView::Cancel { xfer_id: *xfer_id },
        }
    }
}

/// Events emitted by the file-transfer service.
#[derive(Debug)]
pub enum Event {
    /// A peer offers a transfer; the user decides.
    IncomingOffer {
        /// Local number of the transfer.
        xfer_id: u64,
        /// Address of the peer.
        peer_addr: SocketAddr,
        /// Certificate fingerprint of the peer.
        peer_fingerprint: String,
        /// Name of the file or directory.
        root_name: String,
        /// Number of entries.
        entries: u32,
        /// Sum of the file sizes.
        total_bytes: u64,
    },
    /// Bytes have arrived.
    Progress {
        /// Local number of the transfer.
        xfer_id: u64,
        /// Bytes written so far.
        bytes: u64,
        /// Bytes offered.
        total: u64,
        /// Entries stored so far.
        entries_done: u32,
        /// Entries offered.
        entries_total: u32,
        /// Entry being received.
        current_entry: Option<String>,
    },
    /// The transfer is over.
    Finished {
        /// Local number of the transfer.
        xfer_id: u64,
        /// How it ended.
        result: TransferResult,
    },
    /// A clipboard has arrived and goes into the local clipboard, without a prompt.
    ClipboardReceived {
        /// Address of the peer.
        peer_addr: SocketAddr,
        /// Clipboard bytes.
        content: Vec<u8>,
    },
}

/// Contents of an [`Event`].
#[verifier::ext_equal]
pub enum EventView {
    /// See [`Event::IncomingOffer`].
    IncomingOffer {
        xfer_id: u64,
        peer_addr: SocketAddr,
        peer_fingerprint: Seq<char>,
        root_name: Seq<char>,
        entries: u32,
        total_bytes: u64,
    },
    /// See [`Event::Progress`].
    Progress {
        xfer_id: u64,
        bytes: u64,
        total: u64,
        entries_done: u32,
        entries_total: u32,
        current_entry: Option<Seq<char>>,
    },
    /// See [`Event::Finished`].
    Finished { xfer_id: u64, result: TransferResultView },
    /// See [`Event::ClipboardReceived`].
    ClipboardReceived { peer_addr: SocketAddr, content: Seq<u8> },
}

impl View for Event {
    type V = EventView;

    open spec fn view(&self) -> EventView {
        match self {
            Event::IncomingOffer {
                xfer_id,
                peer_addr,
                peer_fingerprint,
                root_name,
                entries,
                total_bytes,
            } => EventView::IncomingOffer {
                xfer_id: *xfer_id,
                peer_addr: *peer_addr,
                peer_fingerprint: peer_fingerprint@,
                root_name: root_name@,
                entries: *entries,
                total_bytes: *total_bytes,
            },
            Event::Progress {
                xfer_id,
                bytes,
                total,
                entries_done,
                entries_total,
                current_entry,
            } => EventView::Progress {
                xfer_id: *xfer_id,
                bytes: *bytes,
                total: *total,
                entries_done: *entries_done,
                entries_total: *entries_total,
                current_entry: text::opt_view(*current_entry),
            },
            Event::Finished { xfer_id, result } => EventView::Finished {
                xfer_id: *xfer_id,
                result: result@,
            },
            Event::ClipboardReceived { peer_addr, content } => EventView::ClipboardReceived {
                peer_addr: *peer_addr,
                content: content@,
            },
        }
    }
}

/// The user's answer to an offer.
#[derive(Debug)]
pub enum Decision {
    /// Receive into a directory.
    Accept {
        /// Directory that takes the tree.
        dest_dir: String,
    },
    /// Refuse.
    Decline,
}

/// Contents of a [`Decision`].
#[verifier::ext_equal]
pub enum DecisionView {
    /// See [`Decision::Accept`].
    Accept { dest_dir: Seq<char> },
    /// See [`Decision::Decline`].
    Decline,
}

impl View for Decision {
    type V = DecisionView;

    open spec fn view(&self) -> DecisionView {
        match self {
            Decision::Accept { dest_dir } => DecisionView::Accept { dest_dir: dest_dir@ },
            Decision::Decline => DecisionView::Decline,
        }
    }
}

/// How a transfer ended.
#[derive(Debug)]
pub enum TransferResult {
    /// Everything arrived.
    Done {
        /// Where it is.
        destination: String,
    },
    /// Refused or cancelled.
    Cancelled,
    /// Failed, with the reason.
    Error(String),
}

/// Contents of a [`TransferResult`].
#[verifier::ext_equal]
pub enum TransferResultView {
    /// See [`TransferResult::Done`].
    Done { destination: Seq<char> },
    /// See [`TransferResult::Cancelled`].
    Cancelled,
    /// See [`TransferResult::Error`].
    Error(Seq<char>),
}

impl View for TransferResult {
    type V = TransferResultView;

    open spec fn view(&self) -> TransferResultView {
        match self {
            TransferResult::Done { destination } => TransferResultView::Done {
                destination: destination@,
            },
            TransferResult::Cancelled => TransferResultView::Cancelled,
            TransferResult::Error(e) => TransferResultView::Error(e@),
        }
    }
}

/// Per-transfer caps that the receiver applies before the user sees the offer.
#[derive(Clone, Copy, PartialEq, Eq, Structural, Debug)]
pub struct Limits {
    /// Largest sum of file sizes.
    pub max_bytes: u64,
    /// Largest number of entries.
    pub max_entries: u32,
}

} // verus!

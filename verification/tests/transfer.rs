use lan_mouse::file_transfer::codec::{
    is_already_compressed, maybe_compress, maybe_decompress, CodecError, CHUNK_SIZE,
};
use lan_mouse::file_transfer::outgoing::{
    SendAction, SendError, SendInput, SendPhase, Sender,
};
use lan_mouse::file_transfer::paths::{
    file_name, join_path, parent_path, part_path, peer_path, root_name, safe_join, safe_root,
    sanitize_component, wire_path,
};
use lan_mouse::file_transfer::receiver::{
    Phase, Receiver, RecvAction, RecvError, RecvInput, RecvOutcome,
};
use lan_mouse::file_transfer::sender::{
    check_reply, clipboard_frames, dir_frames, enumerate_entries, make_clipboard_offer,
    make_offer, total_bytes, EntrySender, FsNode, LocalEntry, HEAD_BYTES,
};
use lan_mouse::file_transfer::service::{
    clipboard_finished, recv_finished, send_finished, DispatchAction, DispatchInput, Dispatcher,
    RecvEnd, SendEnd,
};
use lan_mouse::file_transfer::trust::{
    peer_fingerprint, verify_client_cert, verify_client_fingerprint, verify_server_cert,
    verify_server_fingerprint,
};
use lan_mouse::file_transfer::wire::{
    frame_len, is_false, read_frame, write_frame, EntryKind, FileCtrl, FileFrame, FrameRead,
    ProtocolError, MAX_FRAME_BYTES,
};
use lan_mouse::file_transfer::{Command, Decision, Event, Limits, TransferResult};
use lan_mouse::collections::StrMap;
use lan_mouse::crypto::generate_fingerprint;
use lan_mouse::net::{IpAddr, SocketAddr};
use std::collections::BTreeMap;

// ----- paths ----------------------------------------------------------------

#[test]
fn sanitize_component_strips_nuls() {
    assert_eq!(sanitize_component("foo\0bar"), "foobar");
    assert_eq!(sanitize_component(""), "_");
    assert_eq!(sanitize_component(".."), "_");
}

#[test]
fn is_already_compressed_detects_png() {
    assert!(is_already_compressed(b"\x89PNG\r\n\x1a\nextra"));
    assert!(!is_already_compressed(b"#!/bin/bash"));
}

#[test]
fn safe_join_accepts_nested() {
    let root = "/tmp/lm-test";
    assert_eq!(safe_join(root, "a/b/c").unwrap(), "/tmp/lm-test/a/b/c");
}

#[test]
fn safe_join_rejects_parent_escape() {
    let root = "/tmp/lm-test";
    assert!(safe_join(root, "../outside").is_none());
    assert!(safe_join(root, "a/../../outside").is_none());
}

#[test]
fn safe_join_rejects_absolute() {
    let root = "/tmp/lm-test";
    assert!(safe_join(root, "/etc/passwd").is_none());
}

#[test]
fn safe_join_collapses_self() {
    let root = "/tmp/lm-test";
    assert_eq!(safe_join(root, "a/./b").unwrap(), "/tmp/lm-test/a/b");
}

#[test]
fn safe_join_keeps_inner_parent() {
    assert_eq!(safe_join("/r", "a/../b").unwrap(), "/r/b");
    assert_eq!(safe_join("/r", "a//b").unwrap(), "/r/a/b");
}

#[test]
fn sanitize_component_is_idempotent() {
    for raw in ["a", ".", "..", "a\0", "\0", " x "] {
        let once = sanitize_component(raw);
        assert_eq!(sanitize_component(&once), once);
    }
}

#[test]
fn path_parts() {
    assert_eq!(file_name("/a/b.txt").unwrap(), "b.txt");
    assert_eq!(file_name("/a/b/").unwrap(), "b");
    assert!(file_name("/").is_none());
    assert!(file_name("a/..").is_none());
    assert_eq!(parent_path("/a/b.txt").unwrap(), "/a");
    assert_eq!(join_path("/a", "b"), "/a/b");
    assert_eq!(join_path("/a/", "b"), "/a/b");
    assert_eq!(join_path("/a", "/b"), "/b");
}

#[test]
fn part_file_lies_beside_target() {
    assert_eq!(part_path("/in/x/hello.txt"), "/in/x/hello.txt.lanmouse.part");
}

#[test]
fn offered_root_names() {
    assert_eq!(root_name("/home/u/pics"), "pics");
    assert_eq!(root_name("/home/u/a.txt"), "a.txt");
}

#[test]
fn received_roots() {
    let root = |name: &str| safe_root("/in", name);
    assert_eq!(root("pics").unwrap(), "/in/pics");
    assert_eq!(root(" a\0b ").unwrap(), "/in/ab");
    assert_eq!(root("..").unwrap(), "/in/_");
    assert_eq!(root("").unwrap(), "/in/_");
    assert_eq!(root("a/b").unwrap(), "/in/a/b");
    assert_eq!(root("a/../b").unwrap(), "/in/b");
    assert!(root("/etc").is_none());
    assert!(root("../x").is_none());
    assert!(root("a/../../x").is_none());
    assert!(root("a/..").is_none());
}

#[test]
fn windows_paths() {
    assert_eq!(wire_path("C:\\dir\\f.txt", true), "C:/dir/f.txt");
    assert_eq!(root_name(&wire_path("C:\\dir\\f.txt", true)), "f.txt");
    assert_eq!(wire_path("a\\b", false), "a\\b");
    assert_eq!(peer_path("a\\b", false), "a\\b");
    let joined = |path: &str| safe_join("dst", &peer_path(path, true));
    assert_eq!(joined("dir\\f.txt").unwrap(), "dst/dir/f.txt");
    assert_eq!(joined("12:30.txt").unwrap(), "dst/12:30.txt");
    for path in ["..\\x", "C:\\x", "C:x", "a\\C:x", "a/ d:\\x", "\\\\host\\share", "\\x", "/x"] {
        assert!(joined(path).is_none(), "{path}");
        assert!(safe_root("dst", &peer_path(path, true)).is_none(), "{path}");
    }
}

// ----- chunks and frames ----------------------------------------------------

#[test]
fn compressed_chunks_come_back() {
    let raw: Vec<u8> = b"hello from quic land\n".repeat(1000);
    let data = maybe_compress(&raw, true).unwrap();
    assert!(data.len() < raw.len());
    assert_eq!(maybe_decompress(data, true).unwrap(), raw);
    let plain = maybe_compress(&raw, false).unwrap();
    assert_eq!(plain, raw);
    assert_eq!(maybe_decompress(plain, false).unwrap(), raw);
}

#[test]
fn damaged_chunk_is_refused() {
    assert!(matches!(
        maybe_decompress(vec![1, 2, 3, 4], true),
        Err(CodecError::Decompress(_))
    ));
}

#[test]
fn frames_roundtrip() {
    let body: Vec<u8> = vec![7; 300];
    let bytes = write_frame(&body);
    assert_eq!(&bytes[..4], &[0, 0, 1, 44]);
    match read_frame(&bytes) {
        FrameRead::Body(b, used) => {
            assert_eq!(b, body);
            assert_eq!(used, bytes.len());
        }
        _ => panic!("no frame"),
    }
    assert!(matches!(read_frame(&bytes[..10]), FrameRead::Incomplete));
    assert!(matches!(read_frame(&[0, 0]), FrameRead::Incomplete));
}

#[test]
fn oversize_frame_is_refused() {
    let n = (MAX_FRAME_BYTES + 1) as u32;
    let r = read_frame(&n.to_be_bytes());
    assert!(matches!(r, FrameRead::TooLarge(ProtocolError::FrameTooLarge(131073))));
    assert!(matches!(frame_len(n.to_be_bytes()), Err(ProtocolError::FrameTooLarge(131073))));
    assert_eq!(frame_len((MAX_FRAME_BYTES as u32).to_be_bytes()).unwrap(), MAX_FRAME_BYTES);
}

#[test]
fn false_flags_are_left_out() {
    assert!(is_false(&false));
    assert!(!is_false(&true));
}

#[test]
fn protocol_messages() {
    assert_eq!(ProtocolError::Cancelled.message(""), "cancelled");
    assert_eq!(
        ProtocolError::Declined("user declined".to_string()).message(""),
        "declined: user declined"
    );
    assert_eq!(
        ProtocolError::HashMismatch("a/b".to_string()).message(""),
        "blake3 mismatch on a/b"
    );
    assert_eq!(
        ProtocolError::UnsafeRoot("/etc".to_string()).message("\"/etc\""),
        "rejecting unsafe root: \"/etc\""
    );
}

#[test]
fn is_already_compressed_detects_mp3() {
    assert!(is_already_compressed(&[0xFF, 0xFB, 0x90, 0x64]));
    assert!(!is_already_compressed(&[0xFF, 0xF1, 0x90, 0x64]));
}

// ----- a loopback without a network -----------------------------------------

fn peer() -> SocketAddr {
    SocketAddr::new(IpAddr::V4(0x7f00_0001), 4243)
}

/// Carries out the receiver's actions on a file system in memory.
struct Loopback {
    receiver: Receiver,
    files: BTreeMap<String, Vec<u8>>,
    dirs: Vec<String>,
    open: Option<String>,
    events: Vec<Event>,
    replies: Vec<FileCtrl>,
    outcome: Option<RecvOutcome>,
    error: Option<RecvError>,
}

impl Loopback {
    fn new(limits: Limits) -> Loopback {
        Loopback {
            receiver: Receiver::new(7, limits, peer(), "fp".to_string()),
            files: BTreeMap::new(),
            dirs: Vec::new(),
            open: None,
            events: Vec::new(),
            replies: Vec::new(),
            outcome: None,
            error: None,
        }
    }

    fn feed(&mut self, input: RecvInput) {
        let mut inputs = vec![input];
        while !inputs.is_empty() {
            let next = inputs.remove(0);
            for action in self.receiver.step(next) {
                match action {
                    RecvAction::SendCtrl(c) => self.replies.push(c),
                    RecvAction::Emit(e) => self.events.push(e),
                    RecvAction::AcceptStream => inputs.push(RecvInput::StreamOpened),
                    RecvAction::CreateDirs(d) => self.dirs.push(d),
                    RecvAction::CreateFile(p) => {
                        self.files.insert(p.clone(), Vec::new());
                        self.open = Some(p);
                    }
                    RecvAction::Write(data) => {
                        let p = self.open.clone().unwrap();
                        self.files.get_mut(&p).unwrap().extend(data);
                        inputs.push(RecvInput::Written(0));
                    }
                    RecvAction::Store { from, to } => {
                        let data = self.files.remove(&from).unwrap();
                        self.files.insert(to, data);
                        inputs.push(RecvInput::Stored);
                    }
                    RecvAction::RemoveFile(p) => {
                        self.files.remove(&p);
                    }
                    RecvAction::Done(o) => self.outcome = Some(o),
                    RecvAction::Fail(e) => self.error = Some(e),
                    _ => {}
                }
            }
        }
    }
}

fn entry_frames(entry: &LocalEntry, data: &[u8]) -> Vec<FileFrame> {
    if entry.is_dir {
        return dir_frames(entry);
    }
    let head = data.len().min(HEAD_BYTES);
    let (mut sender, mut frames) = EntrySender::begin(entry, &data[..head]).unwrap();
    for piece in data[head..].chunks(CHUNK_SIZE) {
        frames.push(sender.chunk(piece).unwrap());
    }
    frames.push(sender.finish());
    frames
}

#[test]
fn loopback_roundtrip_small_file() {
    let payload = b"hello from quic land\n".repeat(1000);
    let node = FsNode::File {
        name: "hello.txt".to_string(),
        size: payload.len() as u64,
        mode: 0o644,
    };
    let entries = enumerate_entries("/scratch/hello.txt", &node);
    let total = total_bytes(&entries).unwrap();
    assert_eq!(total, 21000);
    let offer = make_offer(1, "/scratch/hello.txt", &entries, total);

    let limits = Limits { max_bytes: 10 * 1024 * 1024, max_entries: 100 };
    let mut lo = Loopback::new(limits);
    lo.feed(RecvInput::Ctrl(offer));
    match &lo.events[0] {
        Event::IncomingOffer { xfer_id, root_name, entries, total_bytes, .. } => {
            assert_eq!(*xfer_id, 7);
            assert_eq!(root_name, "hello.txt");
            assert_eq!(*entries, 1);
            assert_eq!(*total_bytes, 21000);
        }
        other => panic!("unexpected first event: {other:?}"),
    }
    assert!(lo.files.is_empty());
    lo.feed(RecvInput::Decided(
        Some(Decision::Accept { dest_dir: "/scratch/inbox".to_string() }),
        0,
    ));
    assert!(matches!(lo.replies[0], FileCtrl::Accept { .. }));
    for frame in entry_frames(&entries[0], &payload) {
        lo.feed(RecvInput::Frame(frame));
    }
    match lo.outcome.as_ref().unwrap() {
        RecvOutcome::File(dst) => assert_eq!(dst, "/scratch/inbox/hello.txt"),
        _ => panic!("no file"),
    }
    let got = &lo.files["/scratch/inbox/hello.txt/hello.txt"];
    assert_eq!(*got, payload, "payload mismatch");
    assert_eq!(lo.files.len(), 1);
}

#[test]
fn loopback_decline_rejects_cleanly() {
    let node = FsNode::File { name: "decline-me.txt".to_string(), size: 16, mode: 0o644 };
    let entries = enumerate_entries("/scratch/decline-me.txt", &node);
    let offer = make_offer(1, "/scratch/decline-me.txt", &entries, 16);
    let mut lo = Loopback::new(Limits { max_bytes: 1024 * 1024, max_entries: 100 });
    lo.feed(RecvInput::Ctrl(offer));
    assert!(matches!(lo.events[0], Event::IncomingOffer { .. }));
    lo.feed(RecvInput::Decided(Some(Decision::Decline), 0));
    let outcome = lo.outcome.unwrap();
    assert!(matches!(outcome, RecvOutcome::Cancelled));
    assert!(lo.files.is_empty());
    assert!(lo.dirs.is_empty());
    match &lo.replies[0] {
        FileCtrl::Decline { reason, .. } => assert_eq!(reason, "user declined"),
        other => panic!("unexpected reply: {other:?}"),
    }
    match recv_finished(7, RecvEnd::Ended(outcome)).unwrap() {
        Event::Finished { xfer_id, result } => {
            assert_eq!(xfer_id, 7);
            assert!(matches!(result, TransferResult::Cancelled));
        }
        other => panic!("unexpected event: {other:?}"),
    }
}

#[test]
fn loopback_silent_clipboard_roundtrip() {
    let payload: Vec<u8> = (0..9000).map(|i| (i % 251) as u8).collect();
    let mut lo = Loopback::new(Limits { max_bytes: 1024 * 1024, max_entries: 100 });
    lo.feed(RecvInput::Ctrl(make_clipboard_offer(1, &payload)));
    assert!(lo.events.is_empty(), "silent clipboard must not surface a prompt");
    for frame in clipboard_frames(&payload) {
        lo.feed(RecvInput::Frame(frame));
    }
    match &lo.events[0] {
        Event::ClipboardReceived { content, .. } => assert_eq!(*content, payload),
        other => panic!("unexpected event: {other:?}"),
    }
    assert_eq!(lo.events.len(), 1);
    assert!(lo.files.is_empty());
    assert!(recv_finished(7, RecvEnd::Ended(lo.outcome.unwrap())).is_none());
}

#[test]
fn loopback_folder_roundtrip() {
    let node = FsNode::Dir {
        name: "pics".to_string(),
        mode: 0o755,
        children: vec![
            FsNode::File { name: "a.txt".to_string(), size: 3, mode: 0o600 },
            FsNode::Other,
            FsNode::Dir {
                name: "sub".to_string(),
                mode: 0o700,
                children: vec![FsNode::File { name: "b".to_string(), size: 0, mode: 0o600 }],
            },
        ],
    };
    let entries = enumerate_entries("/home/u/pics", &node);
    let rels: Vec<&str> = entries.iter().map(|e| e.rel_path.as_str()).collect();
    assert_eq!(rels, vec!["pics", "pics/a.txt", "pics/sub", "pics/sub/b"]);
    let offer = make_offer(1, "/home/u/pics", &entries, total_bytes(&entries).unwrap());
    let mut lo = Loopback::new(Limits { max_bytes: 100, max_entries: 100 });
    lo.feed(RecvInput::Ctrl(offer));
    lo.feed(RecvInput::Decided(Some(Decision::Accept { dest_dir: "/in".to_string() }), 0));
    for entry in &entries {
        let data: &[u8] = if entry.rel_path == "pics/a.txt" { b"abc" } else { b"" };
        for frame in entry_frames(entry, data) {
            lo.feed(RecvInput::Frame(frame));
        }
    }
    assert!(matches!(lo.outcome, Some(RecvOutcome::File(_))));
    assert_eq!(lo.files["/in/pics/pics/a.txt"], b"abc");
    assert_eq!(lo.files["/in/pics/pics/sub/b"], b"");
    assert!(lo.dirs.contains(&"/in/pics/pics/sub".to_string()));
}

#[test]
fn oversize_offer_is_declined() {
    let mut lo = Loopback::new(Limits { max_bytes: 10, max_entries: 100 });
    lo.feed(RecvInput::Ctrl(FileCtrl::Offer {
        xfer_id: 1,
        root: "x".to_string(),
        entries: 1,
        total_bytes: 11,
        clipboard: false,
    }));
    assert!(matches!(lo.outcome, Some(RecvOutcome::Cancelled)));
    assert!(lo.events.is_empty());
    match &lo.replies[0] {
        FileCtrl::Decline { reason, .. } => {
            assert_eq!(reason, "offer exceeds configured transfer limits")
        }
        other => panic!("unexpected reply: {other:?}"),
    }
}

fn receiving() -> Loopback {
    let mut lo = Loopback::new(Limits { max_bytes: 100, max_entries: 100 });
    lo.feed(RecvInput::Ctrl(FileCtrl::Offer {
        xfer_id: 1,
        root: "x".to_string(),
        entries: 1,
        total_bytes: 4,
        clipboard: false,
    }));
    lo.feed(RecvInput::Decided(Some(Decision::Accept { dest_dir: "/in".to_string() }), 0));
    lo
}

fn file_entry(rel_path: &str) -> FileFrame {
    FileFrame::Entry {
        rel_path: rel_path.to_string(),
        size: 4,
        mode: 0o644,
        kind: EntryKind::File,
        compressed: false,
    }
}

#[test]
fn wrong_hash_removes_the_partial_file() {
    let mut lo = receiving();
    lo.feed(RecvInput::Frame(file_entry("f")));
    lo.feed(RecvInput::Frame(FileFrame::Chunk { data: b"data".to_vec() }));
    assert_eq!(lo.files.len(), 1);
    lo.feed(RecvInput::Frame(FileFrame::EntryDone { blake3: [0; 32] }));
    assert!(matches!(lo.error, Some(RecvError::Protocol(ProtocolError::HashMismatch(_)))));
    assert!(lo.files.is_empty());
}

#[test]
fn cancelled_transfer_removes_the_partial_file() {
    let mut lo = receiving();
    lo.feed(RecvInput::Frame(file_entry("f")));
    lo.feed(RecvInput::Frame(FileFrame::Chunk { data: b"da".to_vec() }));
    assert_eq!(lo.files.len(), 1);
    lo.feed(RecvInput::Failed);
    assert!(lo.files.is_empty());
    assert!(lo.receiver.phase() == Phase::Closed);
}

#[test]
fn escaping_path_is_refused() {
    let mut lo = receiving();
    lo.feed(RecvInput::Frame(file_entry("../evil")));
    assert!(matches!(lo.error, Some(RecvError::Protocol(ProtocolError::UnsafeRelPath(_)))));
    assert!(lo.files.is_empty());
}

#[test]
fn escaping_root_is_refused() {
    for root in ["/etc", "../x", "a/../../b", "/home/u/.ssh"] {
        let mut lo = Loopback::new(Limits { max_bytes: 100, max_entries: 100 });
        lo.feed(RecvInput::Ctrl(FileCtrl::Offer {
            xfer_id: 1,
            root: root.to_string(),
            entries: 1,
            total_bytes: 5,
            clipboard: false,
        }));
        match &lo.error {
            Some(RecvError::Protocol(ProtocolError::UnsafeRoot(r))) => assert_eq!(r, root),
            other => panic!("unexpected end: {other:?}"),
        }
        assert!(lo.events.is_empty());
        lo.feed(RecvInput::Decided(
            Some(Decision::Accept { dest_dir: "/in".to_string() }),
            0,
        ));
        assert!(lo.dirs.is_empty());
        assert!(lo.files.is_empty());
    }
}

#[test]
fn nested_root_is_received() {
    let mut lo = Loopback::new(Limits { max_bytes: 100, max_entries: 100 });
    lo.feed(RecvInput::Ctrl(FileCtrl::Offer {
        xfer_id: 1,
        root: "a/b".to_string(),
        entries: 1,
        total_bytes: 5,
        clipboard: false,
    }));
    assert!(matches!(&lo.events[0], Event::IncomingOffer { root_name, .. } if root_name == "a/b"));
    lo.feed(RecvInput::Decided(
        Some(Decision::Accept { dest_dir: "/in".to_string() }),
        0,
    ));
    assert_eq!(lo.dirs[0], "/in/a/b");
    let entry = LocalEntry {
        rel_path: "f".to_string(),
        absolute: "/f".to_string(),
        size: 5,
        mode: 0o644,
        is_dir: false,
    };
    for frame in entry_frames(&entry, b"hello") {
        lo.feed(RecvInput::Frame(frame));
    }
    assert_eq!(lo.files["/in/a/b/f"], b"hello");
    assert!(matches!(&lo.outcome, Some(RecvOutcome::File(p)) if p == "/in/a/b"));
}

#[test]
fn odd_root_lands_in_the_destination() {
    let mut lo = Loopback::new(Limits { max_bytes: 100, max_entries: 100 });
    lo.feed(RecvInput::Ctrl(FileCtrl::Offer {
        xfer_id: 1,
        root: "..".to_string(),
        entries: 1,
        total_bytes: 5,
        clipboard: false,
    }));
    lo.feed(RecvInput::Decided(
        Some(Decision::Accept { dest_dir: "/in".to_string() }),
        0,
    ));
    assert!(!lo.dirs.is_empty());
    assert!(lo.dirs.iter().all(|d| d == "/in/_" || d.starts_with("/in/_/")));
}

#[test]
fn first_frame_must_be_an_offer() {
    let mut lo = Loopback::new(Limits { max_bytes: 100, max_entries: 100 });
    lo.feed(RecvInput::Ctrl(FileCtrl::Accept { xfer_id: 1 }));
    assert!(matches!(lo.error, Some(RecvError::Protocol(ProtocolError::FirstCtrlNotOffer(_)))));
}

#[test]
fn chunk_without_entry_is_refused() {
    let mut lo = receiving();
    lo.feed(RecvInput::Frame(FileFrame::Chunk { data: Vec::new() }));
    assert!(matches!(lo.error, Some(RecvError::Protocol(ProtocolError::NotEntry(_)))));
}

#[test]
fn damaged_chunk_fails_the_transfer() {
    let mut lo = receiving();
    lo.feed(RecvInput::Frame(FileFrame::Entry {
        rel_path: "f".to_string(),
        size: 4,
        mode: 0o644,
        kind: EntryKind::File,
        compressed: true,
    }));
    lo.feed(RecvInput::Frame(FileFrame::Chunk { data: vec![1, 2, 3] }));
    assert!(matches!(lo.error, Some(RecvError::Codec(_))));
    assert!(lo.files.is_empty());
}

#[test]
fn clipboard_hash_is_checked() {
    let mut lo = Loopback::new(Limits { max_bytes: 100, max_entries: 100 });
    lo.feed(RecvInput::Ctrl(make_clipboard_offer(1, &b"text".to_vec())));
    let mut frames = clipboard_frames(&b"text".to_vec());
    let n = frames.len();
    frames[n - 1] = FileFrame::EntryDone { blake3: [9; 32] };
    for frame in frames {
        lo.feed(RecvInput::Frame(frame));
    }
    assert!(lo.events.is_empty());
    assert!(matches!(
        lo.error,
        Some(RecvError::Protocol(ProtocolError::ClipboardHashMismatch))
    ));
}

#[test]
fn progress_is_reported_by_time() {
    let mut lo = receiving();
    lo.feed(RecvInput::Frame(file_entry("f")));
    let actions = lo.receiver.step(RecvInput::Frame(FileFrame::Chunk { data: b"da".to_vec() }));
    assert!(matches!(actions[0], RecvAction::Write(_)));
    let actions = lo.receiver.step(RecvInput::Written(200_000_000));
    match &actions[0] {
        RecvAction::Emit(Event::Progress { bytes, total, .. }) => {
            assert_eq!(*bytes, 2);
            assert_eq!(*total, 4);
        }
        other => panic!("unexpected action: {other:?}"),
    }
}

#[test]
fn blake3_of_the_empty_file() {
    let entry = LocalEntry {
        rel_path: "e".to_string(),
        absolute: "/e".to_string(),
        size: 0,
        mode: 0,
        is_dir: false,
    };
    let frames = entry_frames(&entry, b"");
    match frames.last().unwrap() {
        FileFrame::EntryDone { blake3 } => {
            assert_eq!(&blake3[..4], &[0xaf, 0x13, 0x49, 0xb9]);
        }
        other => panic!("unexpected frame: {other:?}"),
    }
}

#[test]
fn compressed_formats_are_sent_as_they_are() {
    let mut png = b"\x89PNG\r\n\x1a\n".to_vec();
    png.extend([0; 100]);
    let entry = LocalEntry {
        rel_path: "p.png".to_string(),
        absolute: "/p.png".to_string(),
        size: 108,
        mode: 0o644,
        is_dir: false,
    };
    let frames = entry_frames(&entry, &png);
    assert!(matches!(frames[0], FileFrame::Entry { compressed: false, .. }));
    let text = entry_frames(&entry, &b"plain text ".repeat(20));
    assert!(matches!(text[0], FileFrame::Entry { compressed: true, .. }));
}

#[test]
fn replies_to_an_offer() {
    assert!(check_reply(FileCtrl::Accept { xfer_id: 1 }, false).is_ok());
    let declined = FileCtrl::Decline { xfer_id: 1, reason: "no".to_string() };
    assert!(matches!(check_reply(declined, false), Err(ProtocolError::Declined(r)) if r == "no"));
    let declined = FileCtrl::Decline { xfer_id: 1, reason: "no".to_string() };
    assert!(matches!(
        check_reply(declined, true),
        Err(ProtocolError::ClipboardDeclined(r)) if r == "no"
    ));
    assert!(matches!(
        check_reply(FileCtrl::Abort { xfer_id: 1 }, false),
        Err(ProtocolError::UnexpectedPreAccept(_))
    ));
    assert!(matches!(
        check_reply(FileCtrl::Progress { xfer_id: 1, bytes: 0, entries_done: 0 }, false),
        Err(ProtocolError::UnexpectedPreAccept(_))
    ));
}

/// Runs a sender against a receiver. `files` holds what is on the sender's disk, and a read
/// gives at most `piece` bytes of it.
fn transfer(
    (mut sender, start): (Sender, Vec<SendAction>),
    lo: &mut Loopback,
    files: &BTreeMap<String, Vec<u8>>,
    piece: usize,
) -> (Vec<String>, Option<SendError>) {
    let mut trace = Vec::new();
    let mut rest: Vec<u8> = Vec::new();
    let mut actions = start;
    while !actions.is_empty() {
        let input = match actions.remove(0) {
            SendAction::SendCtrl(c) => {
                trace.push("ctrl".to_string());
                lo.feed(RecvInput::Ctrl(c));
                continue;
            }
            SendAction::AwaitReply => {
                if lo.replies.is_empty() {
                    let dest_dir = "/in".to_string();
                    lo.feed(RecvInput::Decided(Some(Decision::Accept { dest_dir }), 0));
                }
                SendInput::Ctrl(lo.replies.remove(0))
            }
            SendAction::OpenStream => {
                trace.push("stream".to_string());
                SendInput::StreamOpened
            }
            SendAction::OpenFile(path) => {
                trace.push(path.clone());
                rest = files[&path].clone();
                SendInput::FileOpened
            }
            SendAction::Read(most) => {
                let n = rest.len().min(most).min(piece);
                let later = rest.split_off(n);
                SendInput::Data(std::mem::replace(&mut rest, later))
            }
            SendAction::SendFrame(frame) => {
                lo.feed(RecvInput::Frame(frame));
                continue;
            }
            SendAction::FinishStream => {
                trace.push("end".to_string());
                continue;
            }
            SendAction::FinishCtrl => continue,
            SendAction::AwaitClose => {
                assert!(lo.outcome.is_some());
                SendInput::PeerClosed
            }
            SendAction::Done => {
                trace.push("done".to_string());
                return (trace, None);
            }
            SendAction::Fail(e) => return (trace, Some(e)),
        };
        actions.extend(sender.step(input));
    }
    panic!("stalled in {:?}", sender.phase());
}

#[test]
fn sender_and_receiver_move_a_tree() {
    let node = FsNode::Dir {
        name: "d".to_string(),
        mode: 0o755,
        children: vec![
            FsNode::File { name: "long".to_string(), size: 200_000, mode: 0o600 },
            FsNode::File { name: "short".to_string(), size: 5, mode: 0o600 },
            FsNode::File { name: "empty".to_string(), size: 0, mode: 0o600 },
        ],
    };
    let long: Vec<u8> = (0..200_000u32).map(|i| (i % 247) as u8).collect();
    let mut files = BTreeMap::new();
    files.insert("/d/long".to_string(), long.clone());
    files.insert("/d/short".to_string(), b"short".to_vec());
    files.insert("/d/empty".to_string(), Vec::new());
    for piece in [7, 16, 1000, CHUNK_SIZE] {
        let start = Sender::tree(1, "/d", enumerate_entries("/d", &node)).unwrap();
        let mut lo = Loopback::new(Limits { max_bytes: 1_000_000, max_entries: 10 });
        let (trace, error) = transfer(start, &mut lo, &files, piece);
        assert!(error.is_none());
        assert_eq!(
            trace,
            vec![
                "ctrl", "stream", "end", "stream", "/d/long", "end", "stream", "/d/short", "end",
                "stream", "/d/empty", "end", "done",
            ]
        );
        assert_eq!(lo.files["/in/d/d/long"], long);
        assert_eq!(lo.files["/in/d/d/short"], b"short");
        assert_eq!(lo.files["/in/d/d/empty"], b"");
        assert_eq!(lo.files.len(), 3);
    }
}

#[test]
fn sender_hands_a_clipboard_over() {
    let start = Sender::clipboard(3, b"copied".to_vec());
    let mut lo = Loopback::new(Limits { max_bytes: 1000, max_entries: 10 });
    let (trace, error) = transfer(start, &mut lo, &BTreeMap::new(), 1);
    assert!(error.is_none());
    assert_eq!(trace, vec!["ctrl", "stream", "end", "done"]);
    match &lo.events[0] {
        Event::ClipboardReceived { content, .. } => assert_eq!(content, b"copied"),
        other => panic!("unexpected event: {other:?}"),
    }
}

#[test]
fn sender_gives_up_when_refused() {
    let node = FsNode::File { name: "f".to_string(), size: 50, mode: 0o600 };
    let start = Sender::tree(1, "/f", enumerate_entries("/f", &node)).unwrap();
    let mut lo = Loopback::new(Limits { max_bytes: 10, max_entries: 10 });
    let (trace, error) = transfer(start, &mut lo, &BTreeMap::new(), 1);
    assert_eq!(trace, vec!["ctrl"]);
    match error {
        Some(SendError::Protocol(ProtocolError::Declined(reason))) => {
            assert_eq!(reason, "offer exceeds configured transfer limits");
        }
        other => panic!("unexpected end: {other:?}"),
    }
}

#[test]
fn sender_ignores_what_it_does_not_wait_for() {
    let node = FsNode::File { name: "f".to_string(), size: 1, mode: 0o600 };
    let (mut sender, _) = Sender::tree(1, "/f", enumerate_entries("/f", &node)).unwrap();
    assert!(sender.step(SendInput::StreamOpened).is_empty());
    assert!(sender.step(SendInput::PeerClosed).is_empty());
    assert_eq!(sender.phase(), SendPhase::Reply);
    let huge = FsNode::Dir {
        name: "h".to_string(),
        mode: 0o755,
        children: vec![
            FsNode::File { name: "a".to_string(), size: u64::MAX, mode: 0 },
            FsNode::File { name: "b".to_string(), size: 1, mode: 0 },
        ],
    };
    assert!(Sender::tree(1, "/h", enumerate_entries("/h", &huge)).is_none());
}

// ----- dispatching ----------------------------------------------------------

#[test]
fn transfers_get_their_own_numbers() {
    let mut d = Dispatcher::new();
    let a = d.step(DispatchInput::Command(Some(Command::SendPath {
        target_addr: peer(),
        target_fingerprint: "fp".to_string(),
        root: "/a".to_string(),
    })));
    let b = d.step(DispatchInput::Incoming(true));
    let first = match &a[0] {
        DispatchAction::StartSend { xfer_id, .. } => *xfer_id,
        other => panic!("unexpected action: {other:?}"),
    };
    let second = match &b[0] {
        DispatchAction::StartReceive { xfer_id } => *xfer_id,
        other => panic!("unexpected action: {other:?}"),
    };
    assert_ne!(first, second);
}

#[test]
fn an_offer_is_answered_once() {
    let mut d = Dispatcher::new();
    let id = match &d.step(DispatchInput::Incoming(true))[0] {
        DispatchAction::StartReceive { xfer_id } => *xfer_id,
        other => panic!("unexpected action: {other:?}"),
    };
    let answer = |d: &mut Dispatcher| {
        d.step(DispatchInput::Command(Some(Command::RespondOffer {
            xfer_id: id,
            decision: Decision::Decline,
        })))
    };
    assert!(matches!(answer(&mut d)[0], DispatchAction::Decide { .. }));
    assert!(answer(&mut d).is_empty());
}

#[test]
fn cancel_stops_the_transfer() {
    let mut d = Dispatcher::new();
    let id = match &d.step(DispatchInput::Incoming(true))[0] {
        DispatchAction::StartReceive { xfer_id } => *xfer_id,
        other => panic!("unexpected action: {other:?}"),
    };
    let r = d.step(DispatchInput::Command(Some(Command::Cancel { xfer_id: id })));
    assert!(r.iter().any(|a| matches!(a, DispatchAction::AbortTask { .. })));
    assert!(matches!(d.step(DispatchInput::Command(None))[0], DispatchAction::Stop));
}

fn results(actions: &[DispatchAction]) -> Vec<&TransferResult> {
    actions
        .iter()
        .filter_map(|a| match a {
            DispatchAction::Emit(Event::Finished { result, .. }) => Some(result),
            _ => None,
        })
        .collect()
}

fn send_path(d: &mut Dispatcher) -> u64 {
    let started = d.step(DispatchInput::Command(Some(Command::SendPath {
        target_addr: peer(),
        target_fingerprint: "fp".to_string(),
        root: "/a".to_string(),
    })));
    match &started[0] {
        DispatchAction::StartSend { xfer_id, .. } => *xfer_id,
        other => panic!("unexpected action: {other:?}"),
    }
}

#[test]
fn cancel_is_reported_once() {
    let mut d = Dispatcher::new();
    let sending = send_path(&mut d);
    let receiving = match &d.step(DispatchInput::Incoming(true))[0] {
        DispatchAction::StartReceive { xfer_id } => *xfer_id,
        other => panic!("unexpected action: {other:?}"),
    };
    for id in [sending, receiving] {
        let r = d.step(DispatchInput::Command(Some(Command::Cancel { xfer_id: id })));
        assert!(matches!(results(&r)[..], [TransferResult::Cancelled]));
        let r = d.step(DispatchInput::Command(Some(Command::Cancel { xfer_id: id })));
        assert!(results(&r).is_empty());
    }
    let r = d.step(DispatchInput::Sent { xfer_id: sending, end: SendEnd::Cancelled });
    assert!(results(&r).is_empty());
    let r = d.step(DispatchInput::Received {
        xfer_id: receiving,
        outcome: RecvEnd::Ended(RecvOutcome::Cancelled),
    });
    assert!(results(&r).is_empty());
}

#[test]
fn transfers_are_numbered_from_one() {
    let mut d = Dispatcher::new();
    for n in 1..=3 {
        assert_eq!(send_path(&mut d), 2 * n - 1);
        match d.step(DispatchInput::Incoming(true))[..] {
            [DispatchAction::StartReceive { xfer_id }] => assert_eq!(xfer_id, 2 * n),
            _ => panic!("no start"),
        }
    }
}

#[test]
fn received_transfers_are_reported_once() {
    let mut d = Dispatcher::new();
    for _ in 0..3 {
        d.step(DispatchInput::Incoming(true));
    }
    let end = |d: &mut Dispatcher, xfer_id, outcome| {
        let r = d.step(DispatchInput::Received { xfer_id, outcome });
        r.iter()
            .map(|a| match a {
                DispatchAction::Emit(Event::Finished { xfer_id, .. }) => *xfer_id,
                other => panic!("unexpected action: {other:?}"),
            })
            .collect::<Vec<u64>>()
    };
    assert_eq!(end(&mut d, 2, RecvEnd::Failed("x".to_string())), vec![2]);
    assert_eq!(end(&mut d, 1, RecvEnd::Ended(RecvOutcome::Clipboard)), vec![]);
    assert_eq!(end(&mut d, 3, RecvEnd::Ended(RecvOutcome::File("/in/x".to_string()))), vec![3]);
    assert_eq!(end(&mut d, 3, RecvEnd::Ended(RecvOutcome::Cancelled)), vec![]);
}

#[test]
fn stray_answers_change_nothing() {
    let mut d = Dispatcher::new();
    d.step(DispatchInput::Incoming(true));
    let answer = |d: &mut Dispatcher, xfer_id| {
        let decision = Decision::Decline;
        d.step(DispatchInput::Command(Some(Command::RespondOffer { xfer_id, decision }))).len()
    };
    assert_eq!(answer(&mut d, 7), 0);
    assert_eq!(answer(&mut d, 1), 1);
    d.step(DispatchInput::Incoming(true));
    assert_eq!(answer(&mut d, 1), 0);
}

#[test]
fn dispatcher_reports_ends() {
    let mut d = Dispatcher::new();
    let id = send_path(&mut d);
    let other = send_path(&mut d);
    let r = d.step(DispatchInput::Sent { xfer_id: id, end: SendEnd::Sent("/a".to_string()) });
    match results(&r)[..] {
        [TransferResult::Done { destination }] => assert_eq!(destination, "/a"),
        _ => panic!("no result"),
    }
    let r = d.step(DispatchInput::Command(Some(Command::Cancel { xfer_id: id })));
    assert!(r.is_empty());
    let failed = SendEnd::Failed("x".to_string());
    let r = d.step(DispatchInput::Sent { xfer_id: other, end: failed });
    assert!(matches!(results(&r)[..], [TransferResult::Error(e)] if e == "x"));
    let started = d.step(DispatchInput::Command(Some(Command::SendClipboard {
        target_addr: peer(),
        target_fingerprint: "fp".to_string(),
        content: vec![1],
    })));
    let id = match &started[0] {
        DispatchAction::StartSendClipboard { xfer_id, .. } => *xfer_id,
        other => panic!("unexpected action: {other:?}"),
    };
    let r = d.step(DispatchInput::ClipboardSent { xfer_id: id, error: None });
    assert!(results(&r).is_empty());
}

#[test]
fn ends_of_transfers_are_reported() {
    assert!(matches!(
        send_finished(3, SendEnd::Cancelled),
        Event::Finished { xfer_id: 3, result: TransferResult::Cancelled }
    ));
    assert!(matches!(
        send_finished(3, SendEnd::Failed("x".to_string())),
        Event::Finished { result: TransferResult::Error(e), .. } if e == "x"
    ));
    assert!(matches!(
        send_finished(3, SendEnd::Sent("/a".to_string())),
        Event::Finished { result: TransferResult::Done { destination }, .. } if destination == "/a"
    ));
    assert!(clipboard_finished(3, None).is_none());
    assert!(matches!(
        recv_finished(3, RecvEnd::Failed("x".to_string())),
        Some(Event::Finished { result: TransferResult::Error(_), .. })
    ));
}

// ----- trust ----------------------------------------------------------------

#[test]
fn only_authorized_fingerprints_connect() {
    let cert = b"certificate";
    let fp = generate_fingerprint(cert);
    let mut authorized = StrMap::new();
    assert_eq!(
        verify_client_cert(cert, Some(&authorized)).unwrap_err(),
        format!("client fingerprint {fp} not authorized")
    );
    authorized.insert(fp.clone(), "loopback".to_string());
    assert!(verify_client_cert(cert, Some(&authorized)).is_ok());
    assert!(verify_client_cert(cert, None).is_err());
    assert!(verify_client_fingerprint("other", Some(&authorized)).is_err());
    assert!(verify_server_cert(cert, &fp).is_ok());
    assert_eq!(
        verify_server_fingerprint("aa", "bb").unwrap_err(),
        "server fingerprint aa does not match expected bb"
    );
    assert_eq!(peer_fingerprint(&Some(vec![cert.to_vec()])), fp);
    assert_eq!(peer_fingerprint(&None), "");
}

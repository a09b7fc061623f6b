//! Clipboard sharing: change detection, the wire message, and images.
use crate::crypto::sha256_digest;
use crate::file_transfer::wire::{push_be32, read_be32};
use crate::file_transfer::{paths, wire};
use crate::{crypto, text};
use vstd::prelude::*;
use vstd::utf8::*;

verus! {

/// Maximum clipboard text size in bytes. Larger text goes through the file-transfer channel.
pub const MAX_CLIPBOARD_SIZE: usize = 65536;

/// First byte of a clipboard message on the wire.
pub const CLIPBOARD_MSG_TYPE: u8 = 0xFF;

// ----- change events --------------------------------------------------------

/// What the clipboard monitor reports on a change.
#[derive(Debug)]
pub enum ClipboardChange {
    /// Text within the inline size cap.
    Text(String),
    /// Text beyond the inline size cap.
    OversizeText {
        /// The text.
        content: String,
    },
    /// An image.
    ImagePng {
        /// PNG file.
        png: Vec<u8>,
        /// Width in pixels.
        width: u32,
        /// Height in pixels.
        height: u32,
    },
}

/// Contents of a [`ClipboardChange`].
#[verifier::ext_equal]
pub enum ClipboardChangeView {
    /// See [`ClipboardChange::Text`].
    Text(Seq<char>),
    /// See [`ClipboardChange::OversizeText`].
    OversizeText { content: Seq<char> },
    /// See [`ClipboardChange::ImagePng`].
    ImagePng { png: Seq<u8>, width: u32, height: u32 },
}

impl View for ClipboardChange {
    type V = ClipboardChangeView;

    open spec fn view(&self) -> ClipboardChangeView {
        match self {
            ClipboardChange::Text(t) => ClipboardChangeView::Text(t@),
            ClipboardChange::OversizeText { content } => ClipboardChangeView::OversizeText {
                content: content@,
            },
            ClipboardChange::ImagePng { png, width, height } => ClipboardChangeView::ImagePng {
                png: png@,
                width: *width,
                height: *height,
            },
        }
    }
}

/// The contents of an optional change.
pub open spec fn change_view(c: Option<ClipboardChange>) -> Option<ClipboardChangeView> {
    match c {
        Some(c) => Some(c@),
        None => None,
    }
}

// ----- temporary files ------------------------------------------------------

/// The directory of the temporary files: below the runtime directory of the session, else below
/// the system's temporary directory.
pub open spec fn temp_dir_of(runtime_dir: Option<Seq<char>>, temp_dir: Seq<char>) -> Seq<char> {
    paths::joined(
        match runtime_dir {
            Some(d) => d,
            None => temp_dir,
        },
        "lan-mouse"@,
    )
}

/// The directory of the temporary files.
pub fn clipboard_temp_dir(runtime_dir: Option<&str>, temp_dir: &str) -> (r: String)
    ensures
        r@ == temp_dir_of(
            match runtime_dir {
                Some(d) => Some(d@),
                None => None,
            },
            temp_dir@,
        ),
{
    let base: &str = match runtime_dir {
        Some(d) => d,
        None => temp_dir,
    };
    paths::join_path(base, "lan-mouse")
}

/// The file that holds clipboard contents with an extension until they are sent, at a time in
/// nanoseconds.
pub fn clipboard_temp_file(dir: &str, nanos: u128, ext: &str) -> (r: String)
    ensures
        r@ == paths::joined(
            dir@,
            "clipboard-"@ + text::dec(nanos as nat) + "."@ + ext@,
        ),
{
    let number: String = text::dec_string_wide(nanos);
    let head: String = text::concat3("clipboard-", number.as_str(), ".");
    let name: String = text::concat2(head.as_str(), ext);
    paths::join_path(dir, name.as_str())
}

// ----- backend --------------------------------------------------------------

/// How the system clipboard is reached.
#[derive(Clone, Copy, PartialEq, Eq, Structural, Debug)]
pub enum Backend {
    /// Through `wl-copy` and `wl-paste`.
    WlClipboard,
    /// Through the `arboard` crate.
    Arboard,
}

/// Chooses the backend: the Wayland tools where there is a Wayland session and they are
/// installed.
pub fn detect_backend(wayland: bool, wl_clipboard: bool) -> (r: Backend)
    ensures
        r == (if wayland && wl_clipboard {
            Backend::WlClipboard
        } else {
            Backend::Arboard
        }),
{
    if wayland && wl_clipboard {
        Backend::WlClipboard
    } else {
        Backend::Arboard
    }
}

/// What the output of a text read is worth: an unsuccessful exit means an empty clipboard, bytes
/// that are no UTF-8 mean no text.
pub fn pasted_text(success: bool, stdout: Vec<u8>) -> (r: Option<String>)
    ensures
        text::opt_view(r) == (if success {
            text::utf8_text(stdout@)
        } else {
            Some(Seq::empty())
        }),
{
    if !success {
        return Some(String::new());
    }
    text::text_of_bytes(stdout)
}

/// Whether a list of types, one per line, offers a PNG image.
pub open spec fn lists_png(types: Seq<char>) -> bool {
    exists|i: int|
        0 <= i < text::split(types, '\n').len() && text::trim(
            #[trigger] text::split(types, '\n')[i],
        ) == "image/png"@
}

/// Whether a list of types, one per line, offers a PNG image.
pub fn offers_png(types: &str) -> (r: bool)
    ensures
        r == lists_png(types@),
{
    let chars: Vec<char> = text::chars_of(types);
    let lines: Vec<String> = text::split_chars(chars.as_slice(), '\n');
    let ghost all = text::split(types@, '\n');
    let n: usize = lines.len();
    let mut i: usize = 0;
    while i < n
        invariant
            n == lines@.len(),
            i <= n,
            all == text::views(lines@),
            all == text::split(types@, '\n'),
            forall|j: int| 0 <= j < i ==> text::trim(#[trigger] all[j]) != "image/png"@,
        decreases n - i,
    {
        let line: String = text::trimmed(lines[i].as_str());
        assert(all[i as int] == lines@[i as int]@);
        if text::str_eq(line.as_str(), "image/png") {
            return true;
        }
        i += 1;
    }
    false
}

/// What the output of an image read is worth: only a successful exit with bytes is an image.
pub fn pasted_png(success: bool, stdout: Vec<u8>) -> (r: Option<Vec<u8>>)
    ensures
        match r {
            Some(png) => success && png@ == stdout@ && png@.len() > 0,
            None => !success || stdout@.len() == 0,
        },
{
    if !success || stdout.len() == 0 {
        None
    } else {
        Some(stdout)
    }
}

// ----- images ---------------------------------------------------------------

/// The eight bytes that every PNG file starts with.
pub open spec fn png_signature() -> Seq<u8> {
    seq![0x89u8, 0x50, 0x4e, 0x47, 0x0d, 0x0a, 0x1a, 0x0a]
}

/// The size that a PNG file's header gives; `None` for anything that is not a PNG file.
pub open spec fn png_size(png: Seq<u8>) -> Option<(u32, u32)> {
    if png.len() < 24 || !png_signature().is_prefix_of(png) {
        None
    } else {
        Some(
            (
                wire::be32_value(png.subrange(16, 20)) as u32,
                wire::be32_value(png.subrange(20, 24)) as u32,
            ),
        )
    }
}

/// Reads width and height from the header of a PNG file.
pub fn png_dimensions(png: &[u8]) -> (r: Option<(u32, u32)>)
    ensures
        r == png_size(png@),
{
    if png.len() < 24 {
        return None;
    }
    let ghost head = png@.subrange(0, 8);
    if !(png[0] == 0x89 && png[1] == 0x50 && png[2] == 0x4e && png[3] == 0x47 && png[4] == 0x0d
        && png[5] == 0x0a && png[6] == 0x1a && png[7] == 0x0a) {
        proof {
            if png_signature().is_prefix_of(png@) {
                assert(head == png_signature());
                assert(forall|i: int| 0 <= i < 8 ==> #[trigger] head[i] == png@[i]);
                assert(head[0] == 0x89 && head[1] == 0x50 && head[2] == 0x4e && head[3] == 0x47
                    && head[4] == 0x0d && head[5] == 0x0a && head[6] == 0x1a && head[7] == 0x0a);
            }
        }
        return None;
    }
    assert(head =~= png_signature());
    Some((read_be32(png, 16), read_be32(png, 20)))
}

/// The PNG file of an 8-bit RGBA image.
pub uninterp spec fn png_file(rgba: Seq<u8>, width: u32, height: u32) -> Seq<u8>;

/// `png::Encoder` with 8-bit RGBA, from `new` to `write_image_data`: a PNG file with the given
/// size in its header, if and only if the buffer holds four bytes for each pixel.
#[verifier::external_body]
fn png_encode(rgba: &[u8], width: u32, height: u32) -> (r: Option<Vec<u8>>)
    requires
        width > 0,
        height > 0,
        width * height * 4 <= usize::MAX,
    ensures
        match r {
            Some(png) => {
                &&& rgba@.len() == width * height * 4
                &&& png@ == png_file(rgba@, width, height)
                &&& png_size(png@) == Some((width, height))
            },
            None => rgba@.len() != width * height * 4,
        },
{
    let mut out = Vec::new();
    let mut encoder = png::Encoder::new(&mut out, width, height);
    encoder.set_color(png::ColorType::Rgba);
    encoder.set_depth(png::BitDepth::Eight);
    let mut writer = encoder.write_header().ok()?;
    writer.write_image_data(rgba).ok()?;
    drop(writer);
    Some(out)
}

/// Encodes an RGBA buffer as PNG. Fails for an empty image and for a buffer of another size than
/// four bytes for each pixel.
pub fn rgba_to_png(rgba: &[u8], width: u32, height: u32) -> (r: Option<Vec<u8>>)
    ensures
        match r {
            Some(png) => {
                &&& width > 0 && height > 0
                &&& rgba@.len() == width * height * 4
                &&& png@ == png_file(rgba@, width, height)
                &&& png_size(png@) == Some((width, height))
            },
            None => width == 0 || height == 0 || rgba@.len() != width * height * 4,
        },
{
    if width == 0 || height == 0 {
        return None;
    }
    assert(width * height <= 0xffff_ffff * 0xffff_ffff) by (nonlinear_arith)
        requires
            width <= 0xffff_ffff,
            height <= 0xffff_ffff,
    ;
    let pixels: u128 = width as u128 * height as u128;
    if pixels * 4 > usize::MAX as u128 {
        // no buffer is that long
        assert(rgba@.len() == rgba.len() <= usize::MAX);
        return None;
    }
    png_encode(rgba, width, height)
}

// ----- wire message ---------------------------------------------------------

/// A clipboard message: its type byte, the length of the text in bytes modulo 2^32, the text.
pub open spec fn clipboard_msg(t: Seq<char>) -> Seq<u8> {
    seq![CLIPBOARD_MSG_TYPE] + wire::be32(encode_utf8(t).len() as int % 0x1_0000_0000) + encode_utf8(
        t,
    )
}

/// The text in a clipboard message; bytes behind it are ignored. `None` where the type byte is
/// another, bytes are missing, or the text is no UTF-8.
pub open spec fn clipboard_text(buf: Seq<u8>) -> Option<Seq<char>> {
    if buf.len() < 5 || buf[0] != CLIPBOARD_MSG_TYPE {
        None
    } else {
        let len = wire::be32_value(buf.subrange(1, 5));
        if buf.len() < 5 + len {
            None
        } else {
            text::utf8_text(buf.subrange(5, 5 + len))
        }
    }
}

/// Encodes a clipboard message: `[0xFF][length:u32 BE][text bytes]`.
pub fn encode_clipboard_msg(text: &str) -> (r: Vec<u8>)
    ensures
        r@ == clipboard_msg(text@),
{
    let bytes: &[u8] = text.as_bytes();
    let len: u32 = (bytes.len() as u64 % 0x1_0000_0000) as u32;
    let mut buf: Vec<u8> = Vec::new();
    buf.push(CLIPBOARD_MSG_TYPE);
    push_be32(&mut buf, len);
    buf.extend_from_slice(bytes);
    assert(buf@ =~= clipboard_msg(text@));
    buf
}

/// Decodes a clipboard message from a buffer.
pub fn decode_clipboard_msg(buf: &[u8]) -> (r: Option<String>)
    ensures
        text::opt_view(r) == clipboard_text(buf@),
{
    if buf.len() < 5 || buf[0] != CLIPBOARD_MSG_TYPE {
        return None;
    }
    let len: usize = read_be32(buf, 1) as usize;
    if buf.len() - 5 < len {
        return None;
    }
    let end: usize = 5 + len;
    let mut body: Vec<u8> = Vec::new();
    let mut i: usize = 5;
    while i < end
        invariant
            5 <= i <= end <= buf@.len(),
            body@ == buf@.subrange(5, i as int),
        decreases end - i,
    {
        body.push(buf[i]);
        i += 1;
        assert(body@ =~= buf@.subrange(5, i as int));
    }
    text::text_of_bytes(body)
}

/// Decoding gives back what was encoded, whatever follows it, for every text whose length fits
/// the length field.
pub proof fn law_decode_inverts_encode(t: Seq<char>, rest: Seq<u8>)
    requires
        encode_utf8(t).len() < 0x1_0000_0000,
    ensures
        clipboard_text(clipboard_msg(t) + rest) == Some(t),
{
    encode_utf8_valid_utf8(t);
    encode_utf8_decode_utf8(t);
    lemma_message_parts(encode_utf8(t), rest);
}

/// Where the parts of a message are.
proof fn lemma_message_parts(b: Seq<u8>, rest: Seq<u8>)
    requires
        b.len() < 0x1_0000_0000,
    ensures
        ({
            let n = b.len() as int;
            let buf = seq![CLIPBOARD_MSG_TYPE] + wire::be32(n % 0x1_0000_0000) + b + rest;
            &&& buf.len() >= 5 + n
            &&& buf[0] == CLIPBOARD_MSG_TYPE
            &&& wire::be32_value(buf.subrange(1, 5)) == n
            &&& buf.subrange(5, 5 + n) == b
        }),
{
    let n = b.len() as int;
    wire::lemma_be32_inverse(n);
    let buf = seq![CLIPBOARD_MSG_TYPE] + wire::be32(n) + b + rest;
    assert(buf.subrange(1, 5) =~= wire::be32(n));
    assert(buf.subrange(5, 5 + n) =~= b);
}

// ----- change detection -----------------------------------------------------

/// What has been seen of the clipboard.
#[verifier::ext_equal]
pub struct ClipboardCacheView {
    /// Last text seen or set.
    pub last_text: Seq<char>,
    /// Hash of the last image seen.
    pub last_image: Option<Seq<u8>>,
}

/// A text read from the clipboard: the change it means, and what is remembered.
pub open spec fn text_polled(s: ClipboardCacheView, current: Seq<char>) -> (
    ClipboardCacheView,
    Option<ClipboardChangeView>,
) {
    if current == s.last_text || current.len() == 0 {
        (s, None)
    } else {
        (
            ClipboardCacheView { last_text: current, ..s },
            Some(
                if text::utf8_len(current) > MAX_CLIPBOARD_SIZE {
                    ClipboardChangeView::OversizeText { content: current }
                } else {
                    ClipboardChangeView::Text(current)
                },
            ),
        )
    }
}

/// An image read from the clipboard: the change it means, and what is remembered.
pub open spec fn image_polled(s: ClipboardCacheView, png: Option<Seq<u8>>) -> (
    ClipboardCacheView,
    Option<ClipboardChangeView>,
) {
    match png {
        Some(png) if s.last_image != Some(crypto::sha256(png)) => {
            let (width, height) = match png_size(png) {
                Some(size) => size,
                None => (0u32, 0u32),
            };
            (
                ClipboardCacheView { last_image: Some(crypto::sha256(png)), ..s },
                Some(ClipboardChangeView::ImagePng { png, width, height }),
            )
        },
        _ => (s, None),
    }
}

/// Remembers what has been seen of the clipboard, so that every change is reported once and
/// what came from a peer is not sent back.
#[derive(Debug)]
pub struct ClipboardCache {
    last_text: String,
    last_image: Option<[u8; 32]>,
}

impl View for ClipboardCache {
    type V = ClipboardCacheView;

    closed spec fn view(&self) -> ClipboardCacheView {
        ClipboardCacheView {
            last_text: self.last_text@,
            last_image: match self.last_image {
                Some(h) => Some(h@),
                None => None,
            },
        }
    }
}

impl ClipboardCache {
    /// A cache that knows the text on the clipboard at start, and no image.
    pub fn new(initial: String) -> (r: ClipboardCache)
        ensures
            r@ == (ClipboardCacheView { last_text: initial@, last_image: None }),
    {
        ClipboardCache { last_text: initial, last_image: None }
    }

    /// The last known clipboard text.
    pub fn get_current_text(&self) -> (r: String)
        ensures
            r@ == self@.last_text,
    {
        self.last_text.clone()
    }

    /// Remembers a text without touching the clipboard.
    pub fn note_text(&mut self, text: &str)
        ensures
            final(self)@ == (ClipboardCacheView { last_text: text@, ..old(self)@ }),
    {
        self.last_text = text.to_owned();
        assert(self@ =~= ClipboardCacheView { last_text: text@, ..old(self)@ });
    }

    /// Whether a text from a peer is to be put on the clipboard: not where it is the text that
    /// is already known. The text is remembered before it is set, so that reading it back is no
    /// change.
    pub fn set_text(&mut self, text: &str) -> (r: bool)
        ensures
            r == (old(self)@.last_text != text@),
            final(self)@ == (ClipboardCacheView { last_text: text@, ..old(self)@ }),
    {
        if text::str_eq(self.last_text.as_str(), text) {
            assert(self@ =~= ClipboardCacheView { last_text: text@, ..old(self)@ });
            return false;
        }
        self.note_text(text);
        true
    }

    /// Takes the text that is on the clipboard now; says what changed.
    pub fn poll_text(&mut self, current: String) -> (r: Option<ClipboardChange>)
        ensures
            (final(self)@, change_view(r)) == text_polled(old(self)@, current@),
    {
        if text::str_eq(self.last_text.as_str(), current.as_str()) || text::chars_of(
            current.as_str(),
        ).len() == 0 {
            return None;
        }
        self.last_text = current.clone();
        assert(self@ =~= ClipboardCacheView { last_text: current@, ..old(self)@ });
        if text::byte_len(current.as_str()) > MAX_CLIPBOARD_SIZE {
            Some(ClipboardChange::OversizeText { content: current })
        } else {
            Some(ClipboardChange::Text(current))
        }
    }

    /// Takes the image that is on the clipboard now; says what changed.
    pub fn poll_image(&mut self, png: Option<Vec<u8>>) -> (r: Option<ClipboardChange>)
        ensures
            (final(self)@, change_view(r)) == image_polled(
                old(self)@,
                match png {
                    Some(p) => Some(p@),
                    None => None,
                },
            ),
    {
        let png: Vec<u8> = match png {
            Some(png) => png,
            None => return None,
        };
        let hash: [u8; 32] = sha256_digest(png.as_slice());
        let known: bool = match self.last_image {
            Some(h) => text::bytes_eq(h.as_slice(), hash.as_slice()),
            None => false,
        };
        if known {
            return None;
        }
        self.last_image = Some(hash);
        assert(self@ =~= ClipboardCacheView {
            last_image: Some(crypto::sha256(png@)),
            ..old(self)@
        });
        let (width, height): (u32, u32) = match png_dimensions(png.as_slice()) {
            Some(size) => size,
            None => (0, 0),
        };
        Some(ClipboardChange::ImagePng { png, width, height })
    }

    /// One round of polling: the image counts only where the text has not changed.
    pub fn poll(&mut self, current: String, png: Option<Vec<u8>>) -> (r: Option<ClipboardChange>)
        ensures
            ({
                let (s1, text_change) = text_polled(old(self)@, current@);
                let image = image_polled(
                    s1,
                    match png {
                        Some(p) => Some(p@),
                        None => None,
                    },
                );
                (final(self)@, change_view(r)) == (if text_change is Some {
                    (s1, text_change)
                } else {
                    image
                })
            }),
    {
        match self.poll_text(current) {
            Some(change) => Some(change),
            None => self.poll_image(png),
        }
    }
}

/// What a peer sent is not sent back: a text that was just set or noted is no change when it is
/// read from the clipboard.
pub proof fn law_set_text_is_not_echoed(s: ClipboardCacheView, t: Seq<char>)
    ensures
        text_polled(ClipboardCacheView { last_text: t, ..s }, t).1 is None,
{
}

/// Every change is reported once: the same text, or the same image, read again is no change.
pub proof fn law_change_reported_once(s: ClipboardCacheView, t: Seq<char>, png: Seq<u8>)
    ensures
        text_polled(text_polled(s, t).0, t).1 is None,
        image_polled(image_polled(s, Some(png)).0, Some(png)).1 is None,
{
}

/// A text is sent inline only where its encoding is within the cap.
pub proof fn law_inline_text_fits(s: ClipboardCacheView, t: Seq<char>)
    ensures
        text_polled(s, t).1 matches Some(ClipboardChangeView::Text(u)) ==> u == t && text::utf8_len(
            u,
        ) <= MAX_CLIPBOARD_SIZE,
        text_polled(s, t).1 matches Some(ClipboardChangeView::OversizeText { content })
            ==> content == t && text::utf8_len(content) > MAX_CLIPBOARD_SIZE,
{
}

/// A text on the clipboard that is not empty and not the last one known is reported, as it is: to
/// be sent inline up to 64 KiB, as too long beyond. It is the last one known from then on.
pub proof fn law_new_text_is_reported(s: ClipboardCacheView, t: Seq<char>)
    requires
        t.len() > 0,
        t != s.last_text,
    ensures
        text_polled(s, t).0 == (ClipboardCacheView { last_text: t, last_image: s.last_image }),
        encode_utf8(t).len() <= 65536 ==> text_polled(s, t).1 == Some(ClipboardChangeView::Text(t)),
        encode_utf8(t).len() > 65536 ==> text_polled(s, t).1 == Some(
            ClipboardChangeView::OversizeText { content: t },
        ),
{
}

/// An empty clipboard, and one that could not be read, is no change, and nothing is forgotten.
pub proof fn law_nothing_is_no_change(s: ClipboardCacheView)
    ensures
        text_polled(s, Seq::empty()) == (s, None::<ClipboardChangeView>),
        text_polled(s, s.last_text) == (s, None::<ClipboardChangeView>),
        image_polled(s, None) == (s, None::<ClipboardChangeView>),
{
}

/// An image with another hash than the last one is reported with all of its bytes and with the
/// size that its header gives, where it has one.
pub proof fn law_new_image_is_reported(s: ClipboardCacheView, png: Seq<u8>)
    requires
        s.last_image != Some(crypto::sha256(png)),
    ensures
        image_polled(s, Some(png)).0 == (ClipboardCacheView {
            last_text: s.last_text,
            last_image: Some(crypto::sha256(png)),
        }),
        image_polled(s, Some(png)).1 matches Some(ClipboardChangeView::ImagePng {
            png: p,
            width,
            height,
        }) && p == png && (png_size(png) is Some ==> png_size(png) == Some((width, height))) && (
        png_size(png) is None ==> width == 0 && height == 0),
{
}

/// The size of a PNG file stands in its header, after the signature and the start of the first
/// chunk: four bytes for the width and four for the height, highest first.
pub proof fn law_png_size(
    skipped: Seq<u8>,
    w: (u8, u8, u8, u8),
    h: (u8, u8, u8, u8),
    rest: Seq<u8>,
    other: Seq<u8>,
)
    requires
        skipped.len() == 8,
        other.len() < 24 || exists|k: int|
            0 <= k < 8 && #[trigger] other[k] != seq![
                0x89u8,
                0x50,
                0x4e,
                0x47,
                0x0d,
                0x0a,
                0x1a,
                0x0a,
            ][k],
    ensures
        png_size(
            seq![0x89u8, 0x50, 0x4e, 0x47, 0x0d, 0x0a, 0x1a, 0x0a] + skipped + seq![
                w.0,
                w.1,
                w.2,
                w.3,
                h.0,
                h.1,
                h.2,
                h.3,
            ] + rest,
        ) == Some(
            (
                (w.0 * 0x100_0000 + w.1 * 0x1_0000 + w.2 * 0x100 + w.3) as u32,
                (h.0 * 0x100_0000 + h.1 * 0x1_0000 + h.2 * 0x100 + h.3) as u32,
            ),
        ),
        png_size(other) is None,
{
    let sig = seq![0x89u8, 0x50, 0x4e, 0x47, 0x0d, 0x0a, 0x1a, 0x0a];
    let size = seq![w.0, w.1, w.2, w.3, h.0, h.1, h.2, h.3];
    let png = sig + skipped + size + rest;
    assert(png.subrange(0, 8) =~= sig);
    assert(png.subrange(16, 20) =~= seq![w.0, w.1, w.2, w.3]);
    assert(png.subrange(20, 24) =~= seq![h.0, h.1, h.2, h.3]);
    if other.len() >= 24 {
        let k = choose|k: int| 0 <= k < 8 && #[trigger] other[k] != sig[k];
        assert(other.subrange(0, 8)[k] == other[k]);
    }
}

/// Temporary files lie in a directory of this program below the runtime directory of the session,
/// else below the temporary directory of the system.
pub proof fn law_temp_dir(runtime: Seq<char>, temp: Seq<char>)
    ensures
        temp_dir_of(Some(runtime), temp) == paths::joined(runtime, "lan-mouse"@),
        temp_dir_of(None, temp) == paths::joined(temp, "lan-mouse"@),
{
}

/// A list of types offers a PNG image exactly where one of its lines is that type, with white space
/// around it or not.
pub proof fn law_lists_png(types: Seq<char>, i: int)
    ensures
        0 <= i < text::split(types, '\n').len() && text::trim(text::split(types, '\n')[i])
            == "image/png"@ ==> lists_png(types),
        (forall|k: int|
            0 <= k < text::split(types, '\n').len() ==> text::trim(
                #[trigger] text::split(types, '\n')[k],
            ) != "image/png"@) ==> !lists_png(types),
{
}

} // verus!

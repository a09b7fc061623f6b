//! Percent escapes and lists of URIs.
use crate::file_transfer::codec::copy_bytes;
use crate::text;
use vstd::prelude::*;
use vstd::utf8::*;

verus! {

// ----- encoding -------------------------------------------------------------

/// Whether a byte stands for itself in a query.
pub open spec fn is_unreserved(b: u8) -> bool {
    (65 <= b <= 90) || (97 <= b <= 122) || (48 <= b <= 57) || b == 45 || b == 95 || b == 46 || b
        == 126
}

/// The upper-case hexadecimal digit of a value below 16.
pub open spec fn upper_hex(d: int) -> char {
    if d < 10 {
        (48 + d) as char
    } else {
        (55 + d) as char
    }
}

/// What a byte is written as.
pub open spec fn escaped(b: u8) -> Seq<char> {
    if is_unreserved(b) {
        seq![b as char]
    } else {
        seq!['%', upper_hex(b as int / 16), upper_hex(b as int % 16)]
    }
}

/// What bytes are written as, one after the other.
pub open spec fn all_escaped(bytes: Seq<u8>) -> Seq<char>
    decreases bytes.len(),
{
    if bytes.len() == 0 {
        Seq::empty()
    } else {
        all_escaped(bytes.drop_last()) + escaped(bytes.last())
    }
}

fn upper_hex_char(d: u8) -> (r: char)
    requires
        d < 16,
    ensures
        r == upper_hex(d as int),
{
    let c: u8 = if d < 10 {
        48 + d
    } else {
        55 + d
    };
    c as char
}

/// Writes a value for a query: letters, digits and `-_.~` stand for themselves, every other
/// byte is escaped.
pub fn urlencode(s: &str) -> (r: String)
    ensures
        r@ == all_escaped(encode_utf8(s@)),
{
    let bytes: &[u8] = s.as_bytes();
    let ghost all = encode_utf8(s@);
    let n: usize = bytes.len();
    let mut out: String = String::new();
    let mut i: usize = 0;
    assert(out@ =~= all_escaped(all.take(0)));
    while i < n
        invariant
            bytes@ == all,
            n == all.len(),
            i <= n,
            out@ == all_escaped(all.take(i as int)),
        decreases n - i,
    {
        let b: u8 = bytes[i];
        let ghost before = out@;
        if (b >= 65 && b <= 90) || (b >= 97 && b <= 122) || (b >= 48 && b <= 57) || b == 45 || b
            == 95 || b == 46 || b == 126 {
            out.push(b as char);
        } else {
            out.push('%');
            out.push(upper_hex_char(b / 16));
            out.push(upper_hex_char(b % 16));
        }
        proof {
            let t = all.take(i + 1);
            assert(t.drop_last() =~= all.take(i as int));
            assert(t.last() == b);
            assert(out@ =~= before + escaped(b));
        }
        i += 1;
    }
    assert(all.take(n as int) =~= all);
    out
}

// ----- decoding -------------------------------------------------------------

/// The value of a hexadecimal digit.
pub open spec fn hex_value(b: u8) -> Option<int> {
    if 48 <= b <= 57 {
        Some(b - 48)
    } else if 97 <= b <= 102 {
        Some(b - 87)
    } else if 65 <= b <= 70 {
        Some(b - 55)
    } else {
        None
    }
}

/// Whether bytes start with an escape.
pub open spec fn starts_escape(bytes: Seq<u8>) -> bool {
    bytes.len() >= 3 && bytes[0] == 37 && hex_value(bytes[1]) is Some && hex_value(
        bytes[2],
    ) is Some
}

/// The bytes with every escape replaced by the byte it stands for.
pub open spec fn unescaped(bytes: Seq<u8>) -> Seq<u8>
    decreases bytes.len(),
{
    if bytes.len() == 0 {
        Seq::empty()
    } else if starts_escape(bytes) {
        seq![(16 * hex_value(bytes[1])->0 + hex_value(bytes[2])->0) as u8] + unescaped(
            bytes.skip(3),
        )
    } else {
        seq![bytes[0]] + unescaped(bytes.skip(1))
    }
}

/// The text with every escape replaced; the empty text where the outcome is no text.
pub open spec fn percent_decoded(s: Seq<char>) -> Seq<char> {
    match text::utf8_text(unescaped(encode_utf8(s))) {
        Some(t) => t,
        None => Seq::empty(),
    }
}

fn hex_val(b: u8) -> (r: Option<u8>)
    ensures
        match r {
            Some(v) => hex_value(b) == Some(v as int) && v < 16,
            None => hex_value(b) is None,
        },
{
    if b >= 48 && b <= 57 {
        Some(b - 48)
    } else if b >= 97 && b <= 102 {
        Some(b - 87)
    } else if b >= 65 && b <= 70 {
        Some(b - 55)
    } else {
        None
    }
}

/// Replaces every escape by the byte it stands for; what is no escape is kept.
pub fn percent_decode(s: &str) -> (r: String)
    ensures
        r@ == percent_decoded(s@),
{
    let bytes: &[u8] = s.as_bytes();
    let ghost all = encode_utf8(s@);
    let n: usize = bytes.len();
    let mut out: Vec<u8> = Vec::new();
    let mut i: usize = 0;
    assert(all.skip(0) =~= all);
    assert(out@ + unescaped(all) =~= unescaped(all));
    while i < n
        invariant
            bytes@ == all,
            n == all.len(),
            i <= n,
            out@ + unescaped(all.skip(i as int)) == unescaped(all),
        decreases n - i,
    {
        let ghost rest = all.skip(i as int);
        let ghost before = out@;
        let mut step: usize = 1;
        let mut byte: u8 = bytes[i];
        if byte == 37 && n - i > 2 {
            match hex_val(bytes[i + 1]) {
                Some(h) => match hex_val(bytes[i + 2]) {
                    Some(l) => {
                        byte = h * 16 + l;
                        step = 3;
                    },
                    None => {},
                },
                None => {},
            }
        }
        out.push(byte);
        proof {
            assert(rest[0] == all[i as int]);
            assert(rest.skip(step as int) =~= all.skip(i + step));
            assert(before.push(byte) + unescaped(all.skip(i + step)) =~= before + (seq![byte]
                + unescaped(all.skip(i + step))));
            if rest.len() >= 3 {
                assert(rest[1] == all[i + 1]);
                assert(rest[2] == all[i + 2]);
            }
            assert(unescaped(rest) == seq![byte] + unescaped(rest.skip(step as int)));
        }
        i += step;
    }
    assert(all.skip(n as int) =~= Seq::empty());
    assert(out@ =~= unescaped(all));
    match text::text_of_bytes(out) {
        Some(t) => t,
        None => {
            let empty: String = String::new();
            assert(empty@ =~= Seq::empty());
            empty
        },
    }
}

// ----- lists ----------------------------------------------------------------

/// The file that a line of a list of URIs names; comments, blank lines and other schemes name
/// none.
pub open spec fn line_path(line: Seq<char>) -> Option<Seq<char>> {
    let t = text::trim(line);
    if t.len() == 0 || t[0] == '#' {
        None
    } else {
        match text::without_prefix(t, "file://"@) {
            Some(p) => Some(percent_decoded(p)),
            None => None,
        }
    }
}

/// The files that lines name, in order.
pub open spec fn line_paths(lines: Seq<Seq<char>>) -> Seq<Seq<char>>
    decreases lines.len(),
{
    if lines.len() == 0 {
        Seq::empty()
    } else {
        match line_path(lines.last()) {
            Some(p) => line_paths(lines.drop_last()).push(p),
            None => line_paths(lines.drop_last()),
        }
    }
}

/// The files that a list of URIs names; none where it is no text.
pub open spec fn uri_list_paths(raw: Seq<u8>) -> Seq<Seq<char>> {
    match text::utf8_text(raw) {
        Some(t) => uri_text_paths(t),
        None => Seq::empty(),
    }
}

fn path_of_line(line: &str) -> (r: Option<String>)
    ensures
        text::opt_view(r) == line_path(line@),
{
    let t: String = text::trimmed(line);
    let chars: Vec<char> = text::chars_of(t.as_str());
    if chars.len() == 0 || chars[0] == '#' {
        return None;
    }
    match text::strip_prefix(t.as_str(), "file://") {
        Some(p) => Some(percent_decode(p.as_str())),
        None => None,
    }
}

/// The files that the text of a list of URIs names.
pub open spec fn uri_text_paths(t: Seq<char>) -> Seq<Seq<char>> {
    line_paths(text::split(t, '\n'))
}

/// The files that the text of a list of URIs names: one line each, comments and other schemes
/// left out.
pub fn parse_uri_text(list: &str) -> (r: Vec<String>)
    ensures
        text::views(r@) == uri_text_paths(list@),
{
    let mut out: Vec<String> = Vec::new();
    assert(text::views(out@) =~= Seq::empty());
    let chars: Vec<char> = text::chars_of(list);
    let lines: Vec<String> = text::split_chars(chars.as_slice(), '\n');
    let ghost all = text::views(lines@);
    let n: usize = lines.len();
    let mut i: usize = 0;
    assert(all.take(0) =~= Seq::empty());
    while i < n
        invariant
            n == lines@.len() == all.len(),
            all == text::views(lines@),
            i <= n,
            text::views(out@) == line_paths(all.take(i as int)),
        decreases n - i,
    {
        let ghost before = out@;
        proof {
            let t = all.take(i + 1);
            assert(t.drop_last() =~= all.take(i as int));
            assert(t.last() == lines@[i as int]@);
        }
        match path_of_line(lines[i].as_str()) {
            Some(p) => {
                proof {
                    text::lemma_views_push(before, p);
                }
                out.push(p);
            },
            None => {},
        }
        i += 1;
    }
    assert(all.take(n as int) =~= all);
    out
}

/// The files that a list of URIs names; none where it is no text.
pub fn parse_uri_list(raw: &[u8]) -> (r: Vec<String>)
    ensures
        text::views(r@) == uri_list_paths(raw@),
{
    match text::text_of_bytes(copy_bytes(raw)) {
        Some(t) => parse_uri_text(t.as_str()),
        None => {
            let none: Vec<String> = Vec::new();
            assert(text::views(none@) =~= Seq::empty());
            none
        },
    }
}

// ----- laws -----------------------------------------------------------------

proof fn lemma_escaped_ascii(b: u8)
    ensures
        is_ascii_chars(escaped(b)),
{
}

proof fn lemma_all_escaped_ascii(bytes: Seq<u8>)
    ensures
        is_ascii_chars(all_escaped(bytes)),
    decreases bytes.len(),
{
    if bytes.len() > 0 {
        lemma_all_escaped_ascii(bytes.drop_last());
        lemma_escaped_ascii(bytes.last());
    }
}

proof fn lemma_all_escaped_first(bytes: Seq<u8>)
    requires
        bytes.len() > 0,
    ensures
        all_escaped(bytes) == escaped(bytes[0]) + all_escaped(bytes.skip(1)),
    decreases bytes.len(),
{
    let rest = bytes.skip(1);
    if bytes.len() == 1 {
        assert(bytes.drop_last() =~= Seq::empty());
        assert(rest =~= Seq::empty());
        assert(all_escaped(bytes) =~= escaped(bytes[0]) + all_escaped(rest));
    } else {
        lemma_all_escaped_first(bytes.drop_last());
        assert(bytes.drop_last().skip(1) =~= rest.drop_last());
        assert(rest.last() == bytes.last());
        assert(all_escaped(bytes) =~= escaped(bytes[0]) + all_escaped(rest));
    }
}

proof fn lemma_unescape_escaped(bytes: Seq<u8>)
    ensures
        unescaped(encode_utf8(all_escaped(bytes))) == bytes,
    decreases bytes.len(),
{
    let chars = all_escaped(bytes);
    lemma_all_escaped_ascii(bytes);
    is_ascii_chars_encode_utf8(chars);
    if bytes.len() == 0 {
        assert(encode_utf8(chars) =~= Seq::empty());
        assert(bytes =~= Seq::empty());
    } else {
        let b = bytes[0];
        let rest = bytes.skip(1);
        lemma_all_escaped_first(bytes);
        lemma_unescape_escaped(rest);
        lemma_all_escaped_ascii(rest);
        is_ascii_chars_encode_utf8(all_escaped(rest));
        lemma_escaped_ascii(b);
        is_ascii_chars_encode_utf8(escaped(b));
        text::lemma_encode_concat(escaped(b), all_escaped(rest));
        let enc = encode_utf8(chars);
        if is_unreserved(b) {
            assert(enc[0] == b);
            assert(enc.skip(1) =~= encode_utf8(all_escaped(rest)));
        } else {
            assert(enc[0] == 37);
            assert(enc[1] == upper_hex(b as int / 16) as u8);
            assert(enc[2] == upper_hex(b as int % 16) as u8);
            assert(hex_value(enc[1]) == Some(b as int / 16));
            assert(hex_value(enc[2]) == Some(b as int % 16));
            assert(enc.skip(3) =~= encode_utf8(all_escaped(rest)));
        }
        assert(seq![b] + rest =~= bytes);
    }
}

/// Decoding undoes encoding, for every text.
pub proof fn law_decode_inverts_encode(s: Seq<char>)
    ensures
        percent_decoded(all_escaped(encode_utf8(s))) == s,
{
    lemma_unescape_escaped(encode_utf8(s));
    encode_utf8_valid_utf8(s);
    encode_utf8_decode_utf8(s);
}

/// An encoded text holds only letters, digits, `-_.~` and `%`: nothing in it ends a value or
/// starts another parameter of a query.
pub proof fn law_encoded_is_safe(bytes: Seq<u8>, i: int)
    requires
        0 <= i < all_escaped(bytes).len(),
    ensures
        ({
            let c = all_escaped(bytes)[i];
            c == '%' || (c as u32 <= 127 && is_unreserved(c as u8))
        }),
    decreases bytes.len(),
{
    let front = all_escaped(bytes.drop_last());
    if i < front.len() {
        law_encoded_is_safe(bytes.drop_last(), i);
    } else {
        assert(all_escaped(bytes)[i] == escaped(bytes.last())[i - front.len()]);
    }
}

/// A comment or a URI of another scheme adds no file, wherever it stands in a list.
pub proof fn law_other_lines_skipped(lines: Seq<Seq<char>>, line: Seq<char>)
    requires
        text::trim(line).len() == 0 || text::trim(line)[0] == '#' || !"file://"@.is_prefix_of(
            text::trim(line),
        ),
    ensures
        line_paths(lines.push(line)) == line_paths(lines),
{
    assert(lines.push(line).drop_last() =~= lines);
}

/// A line that names a file adds that file, whatever its name holds and with white space around the
/// line or not: the path behind the scheme with its escapes replaced.
pub proof fn law_file_line_is_taken(lines: Seq<Seq<char>>, line: Seq<char>, rest: Seq<char>)
    requires
        text::trim(line) == "file://"@ + rest,
    ensures
        line_paths(lines.push(line)) == line_paths(lines).push(percent_decoded(rest)),
{
    let t = text::trim(line);
    reveal_strlit("file://");
    assert(lines.push(line).drop_last() =~= lines);
    assert(t[0] == 'f');
    assert(t.subrange(0, "file://"@.len() as int) =~= "file://"@);
    assert(t.skip("file://"@.len() as int) =~= rest);
}

/// A path without a `%` is decoded to itself, and an encoded one to what was encoded; a path whose
/// escapes make no text is decoded to nothing.
pub proof fn law_decoded_path(p: Seq<char>)
    ensures
        !encode_utf8(p).contains(37u8) ==> percent_decoded(p) == p,
        percent_decoded(all_escaped(encode_utf8(p))) == p,
        valid_utf8(unescaped(encode_utf8(p))) ==> encode_utf8(percent_decoded(p)) == unescaped(
            encode_utf8(p),
        ),
        !valid_utf8(unescaped(encode_utf8(p))) ==> percent_decoded(p).len() == 0,
{
    law_decode_inverts_encode(p);
    encode_utf8_valid_utf8(p);
    encode_utf8_decode_utf8(p);
    if !encode_utf8(p).contains(37u8) {
        lemma_nothing_escaped(encode_utf8(p));
    }
    if valid_utf8(unescaped(encode_utf8(p))) {
        decode_utf8_encode_utf8(unescaped(encode_utf8(p)));
    }
}

proof fn lemma_nothing_escaped(bytes: Seq<u8>)
    requires
        !bytes.contains(37u8),
    ensures
        unescaped(bytes) == bytes,
    decreases bytes.len(),
{
    if bytes.len() > 0 {
        let rest = bytes.skip(1);
        assert(bytes.contains(bytes[0]));
        assert(!rest.contains(37u8)) by {
            if rest.contains(37u8) {
                let k = choose|k: int| 0 <= k < rest.len() && rest[k] == 37u8;
                assert(bytes[k + 1] == 37u8);
            }
        }
        lemma_nothing_escaped(rest);
        assert(seq![bytes[0]] + rest =~= bytes);
    } else {
        assert(unescaped(bytes) =~= bytes);
    }
}

/// The files of a list are those of its lines, in order; bytes that are no text name none.
pub proof fn law_list_is_its_lines(t: Seq<char>, raw: Seq<u8>)
    ensures
        uri_list_paths(encode_utf8(t)) == line_paths(text::split(t, '\n')),
        uri_text_paths(t) == line_paths(text::split(t, '\n')),
        !valid_utf8(raw) ==> uri_list_paths(raw).len() == 0,
        line_paths(Seq::empty()).len() == 0,
{
    encode_utf8_valid_utf8(t);
    encode_utf8_decode_utf8(t);
}

/// Letters, digits and `-_.~` stand for themselves, every other byte is written as `%` and two
/// upper-case digits; bytes are written one after the other.
pub proof fn law_escaped(bytes: Seq<u8>, b: u8)
    ensures
        all_escaped(Seq::empty()).len() == 0,
        is_unreserved(b) ==> all_escaped(bytes.push(b)) == all_escaped(bytes).push(b as char),
        !is_unreserved(b) ==> ({
            let e = all_escaped(bytes.push(b));
            let n = all_escaped(bytes).len() as int;
            &&& e.len() == n + 3
            &&& e.take(n) == all_escaped(bytes)
            &&& e[n] == '%'
            &&& hex_value(e[n + 1] as u8) == Some(b as int / 16)
            &&& hex_value(e[n + 2] as u8) == Some(b as int % 16)
        }),
        is_unreserved(b) == ('a' <= b as char <= 'z' || 'A' <= b as char <= 'Z' || '0' <= b as char
            <= '9' || b as char == '-' || b as char == '_' || b as char == '.' || b as char == '~'),
{
    assert(bytes.push(b).drop_last() =~= bytes);
    let e = all_escaped(bytes.push(b));
    let n = all_escaped(bytes).len() as int;
    assert(e.take(n) =~= all_escaped(bytes));
}

/// An escape stands for its byte in whatever case its digits are written; what is no escape stays
/// as it is.
pub proof fn law_unescaped(a: u8, b: u8, c: u8, rest: Seq<u8>)
    ensures
        hex_value(a) is Some && hex_value(b) is Some ==> unescaped(seq![37u8, a, b] + rest) == seq![
            (16 * hex_value(a)->0 + hex_value(b)->0) as u8,
        ] + unescaped(rest),
        c != 37 ==> unescaped(seq![c] + rest) == seq![c] + unescaped(rest),
        hex_value(a) is None || hex_value(b) is None ==> unescaped(seq![37u8, a, b] + rest)
            == seq![37u8] + unescaped(seq![a, b] + rest),
{
    let e = seq![37u8, a, b] + rest;
    assert(e.skip(3) =~= rest);
    assert(e.skip(1) =~= seq![a, b] + rest);
    let d = seq![c] + rest;
    assert(d.skip(1) =~= rest);
}

} // verus!

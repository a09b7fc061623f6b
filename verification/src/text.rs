//! Strings as sequences of characters: conversion, comparison, trimming, splitting, joining
//! and replacing.
use vstd::prelude::*;
use vstd::utf8::*;

verus! {

/// Appends one character (`String::push`).
pub assume_specification[ String::push ](s: &mut String, c: char)
    ensures
        final(s)@ == old(s)@.push(c),
;

/// The contents of a list of strings.
pub open spec fn views(v: Seq<String>) -> Seq<Seq<char>> {
    Seq::new(v.len(), |i: int| v[i]@)
}

/// The contents of an optional string.
pub open spec fn opt_view(o: Option<String>) -> Option<Seq<char>> {
    match o {
        Some(s) => Some(s@),
        None => None,
    }
}

/// Pushing a string pushes its contents.
pub proof fn lemma_views_push(v: Seq<String>, s: String)
    ensures
        views(v.push(s)) == views(v).push(s@),
{
    assert(views(v.push(s)) =~= views(v).push(s@));
}

// ----- conversion and comparison -------------------------------------------

/// The characters of a string, in order.
pub fn chars_of(s: &str) -> (r: Vec<char>)
    ensures
        r@ == s@,
{
    let mut r: Vec<char> = Vec::new();
    for c in it: s.chars()
        invariant
            it.seq() == s@,
            r@ == s@.take(it.index() as int),
    {
        r.push(c);
    }
    r
}

/// Appends `chars[from..to]` to `out`.
pub fn push_range(out: &mut String, chars: &[char], from: usize, to: usize)
    requires
        from <= to <= chars@.len(),
    ensures
        final(out)@ == old(out)@ + chars@.subrange(from as int, to as int),
{
    let mut i: usize = from;
    while i < to
        invariant
            from <= i <= to <= chars@.len(),
            out@ == old(out)@ + chars@.subrange(from as int, i as int),
        decreases to - i,
    {
        out.push(chars[i]);
        i += 1;
        assert(out@ =~= old(out)@ + chars@.subrange(from as int, i as int));
    }
    assert(out@ =~= old(out)@ + chars@.subrange(from as int, to as int));
}

/// The string `chars[from..to]`.
pub fn slice_string(chars: &[char], from: usize, to: usize) -> (r: String)
    requires
        from <= to <= chars@.len(),
    ensures
        r@ == chars@.subrange(from as int, to as int),
{
    let mut r: String = String::new();
    push_range(&mut r, chars, from, to);
    assert(r@ =~= chars@.subrange(from as int, to as int));
    r
}

/// Two strings are equal when their bytes are.
pub proof fn lemma_bytes_determine_chars(a: Seq<char>, b: Seq<char>)
    ensures
        encode_utf8(a) == encode_utf8(b) <==> a == b,
{
    encode_utf8_decode_utf8(a);
    encode_utf8_decode_utf8(b);
}

/// Whether two byte slices hold the same bytes.
pub fn bytes_eq(a: &[u8], b: &[u8]) -> (r: bool)
    ensures
        r == (a@ == b@),
{
    if a.len() != b.len() {
        return false;
    }
    let n: usize = a.len();
    let mut i: usize = 0;
    while i < n
        invariant
            n == a@.len() == b@.len(),
            i <= n,
            forall|j: int| 0 <= j < i ==> a@[j] == b@[j],
        decreases n - i,
    {
        if a[i] != b[i] {
            return false;
        }
        i += 1;
    }
    assert(a@ =~= b@);
    true
}

/// Whether two strings hold the same characters.
pub fn str_eq(a: &str, b: &str) -> (r: bool)
    ensures
        r == (a@ == b@),
{
    proof {
        lemma_bytes_determine_chars(a@, b@);
    }
    bytes_eq(a.as_bytes(), b.as_bytes())
}

/// Whether two optional strings hold the same characters.
pub fn opt_str_eq(a: &Option<String>, b: &Option<String>) -> (r: bool)
    ensures
        r == (opt_view(*a) == opt_view(*b)),
{
    match (a, b) {
        (Some(x), Some(y)) => str_eq(x.as_str(), y.as_str()),
        (None, None) => true,
        _ => false,
    }
}

/// A copy of an optional string.
pub fn opt_clone(o: &Option<String>) -> (r: Option<String>)
    ensures
        opt_view(r) == opt_view(*o),
{
    match o {
        Some(s) => Some(s.clone()),
        None => None,
    }
}

/// A copy of a list of strings.
pub fn clone_strings(v: &Vec<String>) -> (r: Vec<String>)
    ensures
        views(r@) == views(v@),
{
    let mut r: Vec<String> = Vec::new();
    let n: usize = v.len();
    let mut i: usize = 0;
    while i < n
        invariant
            n == v@.len(),
            i <= n,
            r@.len() == i,
            forall|j: int| 0 <= j < i ==> r@[j]@ == v@[j]@,
        decreases n - i,
    {
        r.push(v[i].clone());
        i += 1;
    }
    assert(views(r@) =~= views(v@));
    r
}

/// The concatenation of two strings.
pub fn concat2(a: &str, b: &str) -> (r: String)
    ensures
        r@ == a@ + b@,
{
    let mut r: String = a.to_owned();
    r.append(b);
    r
}

/// The concatenation of three strings.
pub fn concat3(a: &str, b: &str, c: &str) -> (r: String)
    ensures
        r@ == a@ + b@ + c@,
{
    let mut r: String = a.to_owned();
    r.append(b);
    r.append(c);
    r
}

// ----- white space ----------------------------------------------------------

/// The characters with the Unicode `White_Space` property.
pub open spec fn is_white(c: char) -> bool {
    let u = c as u32;
    ||| 0x9 <= u <= 0xd
    ||| u == 0x20
    ||| u == 0x85
    ||| u == 0xa0
    ||| u == 0x1680
    ||| 0x2000 <= u <= 0x200a
    ||| u == 0x2028
    ||| u == 0x2029
    ||| u == 0x202f
    ||| u == 0x205f
    ||| u == 0x3000
}

/// Decides [`is_white`].
pub fn white(c: char) -> (r: bool)
    ensures
        r == is_white(c),
{
    let u: u32 = c as u32;
    (0x9 <= u && u <= 0xd) || u == 0x20 || u == 0x85 || u == 0xa0 || u == 0x1680 || (0x2000 <= u
        && u <= 0x200a) || u == 0x2028 || u == 0x2029 || u == 0x202f || u == 0x205f || u == 0x3000
}

/// `s` without its leading white space.
pub open spec fn trim_start(s: Seq<char>) -> Seq<char>
    decreases s.len(),
{
    if s.len() > 0 && is_white(s[0]) {
        trim_start(s.skip(1))
    } else {
        s
    }
}

/// `s` without its trailing white space.
pub open spec fn trim_end(s: Seq<char>) -> Seq<char>
    decreases s.len(),
{
    if s.len() > 0 && is_white(s.last()) {
        trim_end(s.drop_last())
    } else {
        s
    }
}

/// `s` without leading and trailing white space.
pub open spec fn trim(s: Seq<char>) -> Seq<char> {
    trim_end(trim_start(s))
}

/// The range of `chars` that [`trim`] keeps.
pub fn trim_range(chars: &[char]) -> (r: (usize, usize))
    ensures
        r.0 <= r.1 <= chars@.len(),
        chars@.subrange(r.0 as int, r.1 as int) == trim(chars@),
{
    let n: usize = chars.len();
    let mut lo: usize = 0;
    assert(chars@.skip(0) =~= chars@);
    while lo < n && white(chars[lo])
        invariant
            n == chars@.len(),
            lo <= n,
            trim_start(chars@) == trim_start(chars@.skip(lo as int)),
        decreases n - lo,
    {
        assert(chars@.skip(lo as int).skip(1) =~= chars@.skip(lo as int + 1));
        lo += 1;
    }
    assert(trim_start(chars@) == chars@.skip(lo as int));
    let mut hi: usize = n;
    assert(chars@.skip(lo as int) =~= chars@.subrange(lo as int, n as int));
    while lo < hi && white(chars[hi - 1])
        invariant
            n == chars@.len(),
            lo <= hi <= n,
            trim_end(chars@.subrange(lo as int, n as int)) == trim_end(
                chars@.subrange(lo as int, hi as int),
            ),
        decreases hi - lo,
    {
        assert(chars@.subrange(lo as int, hi as int).drop_last() =~= chars@.subrange(
            lo as int,
            hi - 1,
        ));
        hi -= 1;
    }
    (lo, hi)
}

/// A copy of `s` without leading and trailing white space.
pub fn trimmed(s: &str) -> (r: String)
    ensures
        r@ == trim(s@),
{
    let c: Vec<char> = chars_of(s);
    let (lo, hi): (usize, usize) = trim_range(c.as_slice());
    slice_string(c.as_slice(), lo, hi)
}

/// Trimming is idempotent: nothing is left to trim at either end.
pub proof fn lemma_trim_clean(s: Seq<char>)
    ensures
        trim(s).len() > 0 ==> !is_white(trim(s)[0]) && !is_white(trim(s).last()),
        trim(trim(s)) == trim(s),
{
    lemma_trim_start_first(s);
    lemma_trim_end_last(trim_start(s));
}

proof fn lemma_trim_start_first(s: Seq<char>)
    ensures
        trim_start(s).len() > 0 ==> !is_white(trim_start(s)[0]),
    decreases s.len(),
{
    if s.len() > 0 && is_white(s[0]) {
        lemma_trim_start_first(s.skip(1));
    }
}

proof fn lemma_trim_end_last(s: Seq<char>)
    ensures
        trim_end(s).len() > 0 ==> !is_white(trim_end(s).last()) && trim_end(s)[0] == s[0],
    decreases s.len(),
{
    if s.len() > 0 && is_white(s.last()) {
        lemma_trim_end_last(s.drop_last());
    }
}

/// Trimming keeps a first character that is no white space.
pub proof fn lemma_trim_keeps_first(s: Seq<char>)
    requires
        s.len() > 0,
        !is_white(s[0]),
    ensures
        trim(s).len() > 0,
        trim(s)[0] == s[0],
    decreases s.len(),
{
    if is_white(s.last()) {
        let t = s.drop_last();
        lemma_trim_keeps_first(t);
        assert(trim_start(t) == t);
    }
}

/// Every character that trimming keeps was there before, in the same order.
pub proof fn lemma_trim_within(s: Seq<char>)
    ensures
        exists|i: int, j: int|
            0 <= i <= j <= s.len() && trim(s) == #[trigger] s.subrange(i, j),
{
    let i = lemma_trim_start_within(s);
    let j = lemma_trim_end_within(trim_start(s));
    assert(s.skip(i).take(j) =~= s.subrange(i, i + j));
}

proof fn lemma_trim_start_within(s: Seq<char>) -> (i: int)
    ensures
        0 <= i <= s.len(),
        trim_start(s) == s.skip(i),
    decreases s.len(),
{
    if s.len() > 0 && is_white(s[0]) {
        let j = lemma_trim_start_within(s.skip(1));
        assert(s.skip(1).skip(j) =~= s.skip(j + 1));
        j + 1
    } else {
        assert(s.skip(0) =~= s);
        0
    }
}

proof fn lemma_trim_end_within(s: Seq<char>) -> (j: int)
    ensures
        0 <= j <= s.len(),
        trim_end(s) == s.take(j),
    decreases s.len(),
{
    if s.len() > 0 && is_white(s.last()) {
        let j = lemma_trim_end_within(s.drop_last());
        assert(s.drop_last().take(j) =~= s.take(j));
        j
    } else {
        assert(s.take(s.len() as int) =~= s);
        s.len() as int
    }
}

// ----- splitting and filtering ----------------------------------------------

/// `s` without the character `c`.
pub open spec fn without(s: Seq<char>, c: char) -> Seq<char>
    decreases s.len(),
{
    if s.len() == 0 {
        s
    } else if s.last() == c {
        without(s.drop_last(), c)
    } else {
        without(s.drop_last(), c).push(s.last())
    }
}

/// The characters of `chars` other than `c`.
pub fn remove_char(chars: &[char], c: char) -> (r: Vec<char>)
    ensures
        r@ == without(chars@, c),
{
    let mut r: Vec<char> = Vec::new();
    let n: usize = chars.len();
    let mut i: usize = 0;
    while i < n
        invariant
            n == chars@.len(),
            i <= n,
            r@ == without(chars@.take(i as int), c),
        decreases n - i,
    {
        assert(chars@.take(i + 1).drop_last() =~= chars@.take(i as int));
        if chars[i] != c {
            r.push(chars[i]);
        }
        i += 1;
    }
    assert(chars@.take(n as int) =~= chars@);
    r
}

/// Filtering out `c` leaves no `c`, and keeps every other character that occurs.
pub proof fn lemma_without(s: Seq<char>, c: char, d: char)
    ensures
        !without(s, c).contains(c),
        d != c ==> (without(s, c).contains(d) <==> s.contains(d)),
        !s.contains(c) ==> without(s, c) == s,
    decreases s.len(),
{
    if s.len() > 0 {
        let t = s.drop_last();
        lemma_without(t, c, d);
        let w = without(t, c);
        assert(s =~= t.push(s.last()));
        assert(s[s.len() - 1] == s.last());
        if !s.contains(c) {
            assert(!t.contains(c)) by {
                if t.contains(c) {
                    let i = choose|i: int| 0 <= i < t.len() && t[i] == c;
                    assert(s[i] == c);
                }
            }
        }
        if d != c {
            if s.contains(d) {
                let i = choose|i: int| 0 <= i < s.len() && s[i] == d;
                if i < t.len() {
                    assert(t[i] == d);
                    let j = choose|j: int| 0 <= j < w.len() && w[j] == d;
                    assert(without(s, c)[j] == d);
                } else {
                    assert(without(s, c)[w.len() as int] == d);
                }
            }
            if without(s, c).contains(d) {
                let j = choose|j: int| 0 <= j < without(s, c).len() && without(s, c)[j] == d;
                if j < w.len() {
                    assert(w[j] == d);
                    let i = choose|i: int| 0 <= i < t.len() && t[i] == d;
                    assert(s[i] == d);
                }
            }
        }
        if without(s, c).contains(c) {
            let j = choose|j: int| 0 <= j < without(s, c).len() && without(s, c)[j] == c;
            assert(w[j] == c);
        }
    }
}

/// The pieces between the separators, where `cur` has been read of the current piece.
pub open spec fn split_from(cur: Seq<char>, rest: Seq<char>, sep: char) -> Seq<Seq<char>>
    decreases rest.len(),
{
    if rest.len() == 0 {
        seq![cur]
    } else if rest[0] == sep {
        seq![cur] + split_from(Seq::empty(), rest.skip(1), sep)
    } else {
        split_from(cur.push(rest[0]), rest.skip(1), sep)
    }
}

/// The pieces of `s` between the occurrences of `sep`; always at least one.
pub open spec fn split(s: Seq<char>, sep: char) -> Seq<Seq<char>> {
    split_from(Seq::empty(), s, sep)
}

/// The pieces of `s` between the occurrences of `sep`.
pub fn split_chars(s: &[char], sep: char) -> (r: Vec<String>)
    ensures
        views(r@) == split(s@, sep),
{
    let mut r: Vec<String> = Vec::new();
    let n: usize = s.len();
    let mut start: usize = 0;
    let mut i: usize = 0;
    assert(s@.skip(0) =~= s@);
    assert(s@.subrange(0, 0) =~= Seq::<char>::empty());
    assert(views(r@) + split(s@, sep) =~= split(s@, sep));
    while i < n
        invariant
            n == s@.len(),
            start <= i <= n,
            views(r@) + split_from(
                s@.subrange(start as int, i as int),
                s@.skip(i as int),
                sep,
            ) == split(s@, sep),
        decreases n - i,
    {
        let ghost cur = s@.subrange(start as int, i as int);
        let ghost rest = s@.skip(i as int);
        assert(rest.skip(1) =~= s@.skip(i + 1));
        if s[i] == sep {
            let piece: String = slice_string(s, start, i);
            proof {
                lemma_views_push(r@, piece);
            }
            let ghost before = views(r@);
            r.push(piece);
            i += 1;
            start = i;
            assert(s@.subrange(start as int, i as int) =~= Seq::<char>::empty());
            assert(before + (seq![cur] + split_from(Seq::empty(), rest.skip(1), sep)) =~= before.push(
                cur,
            ) + split_from(Seq::empty(), rest.skip(1), sep));
        } else {
            assert(cur.push(rest[0]) =~= s@.subrange(start as int, i + 1));
            i += 1;
        }
    }
    let piece: String = slice_string(s, start, n);
    proof {
        lemma_views_push(r@, piece);
        let cur = s@.subrange(start as int, n as int);
        assert(views(r@) + seq![cur] =~= views(r@).push(cur));
    }
    r.push(piece);
    r
}

/// No piece holds the separator.
pub proof fn lemma_split_from_clean(cur: Seq<char>, rest: Seq<char>, sep: char)
    requires
        !cur.contains(sep),
    ensures
        forall|i: int|
            0 <= i < split_from(cur, rest, sep).len() ==> !(#[trigger] split_from(
                cur,
                rest,
                sep,
            )[i]).contains(sep),
        split_from(cur, rest, sep).len() >= 1,
    decreases rest.len(),
{
    if rest.len() > 0 {
        if rest[0] == sep {
            lemma_split_from_clean(Seq::empty(), rest.skip(1), sep);
        } else {
            let next = cur.push(rest[0]);
            assert(!next.contains(sep)) by {
                if next.contains(sep) {
                    let i = choose|i: int| 0 <= i < next.len() && next[i] == sep;
                    if i < cur.len() {
                        assert(cur[i] == sep);
                    }
                }
            }
            lemma_split_from_clean(next, rest.skip(1), sep);
        }
    }
}

/// Splitting at the first separator: the text before it is the first piece.
pub proof fn lemma_split_from_step(cur: Seq<char>, piece: Seq<char>, rest: Seq<char>, sep: char)
    requires
        !piece.contains(sep),
    ensures
        split_from(cur, piece + seq![sep] + rest, sep) == seq![cur + piece] + split(rest, sep),
        split_from(cur, piece, sep) == seq![cur + piece],
    decreases piece.len(),
{
    let whole = piece + seq![sep] + rest;
    if piece.len() == 0 {
        assert(whole[0] == sep);
        assert(whole.skip(1) =~= rest);
        assert(cur + piece =~= cur);
    } else {
        let p2 = piece.skip(1);
        assert(piece[0] == piece.first());
        assert(!p2.contains(sep)) by {
            if p2.contains(sep) {
                let i = choose|i: int| 0 <= i < p2.len() && p2[i] == sep;
                assert(piece[i + 1] == sep);
            }
        }
        assert(piece.contains(piece[0]));
        lemma_split_from_step(cur.push(piece[0]), p2, rest, sep);
        assert(whole.skip(1) =~= p2 + seq![sep] + rest);
        assert(whole[0] == piece[0]);
        assert(cur.push(piece[0]) + p2 =~= cur + piece);
    }
}

/// `s` without `suffix`, where it ends in it.
pub open spec fn without_suffix(s: Seq<char>, suffix: Seq<char>) -> Option<Seq<char>> {
    if suffix.is_suffix_of(s) {
        Some(s.take(s.len() - suffix.len()))
    } else {
        None
    }
}

/// `s` without `prefix`, where it starts with it.
pub open spec fn without_prefix(s: Seq<char>, prefix: Seq<char>) -> Option<Seq<char>> {
    if prefix.is_prefix_of(s) {
        Some(s.skip(prefix.len() as int))
    } else {
        None
    }
}

/// Whether `part` stands in `chars` at a place.
pub fn matches_at(chars: &[char], at: usize, part: &[char]) -> (r: bool)
    requires
        at <= chars@.len(),
    ensures
        r == (at + part@.len() <= chars@.len() && chars@.subrange(at as int, at + part@.len())
            == part@),
{
    let n: usize = part.len();
    if chars.len() - at < n {
        return false;
    }
    let mut i: usize = 0;
    while i < n
        invariant
            n == part@.len(),
            at + n <= chars@.len() <= usize::MAX,
            i <= n,
            forall|j: int| 0 <= j < i ==> chars@[at + j] == part@[j],
        decreases n - i,
    {
        if chars[at + i] != part[i] {
            assert(chars@.subrange(at as int, at + n)[i as int] != part@[i as int]);
            return false;
        }
        i += 1;
    }
    assert(chars@.subrange(at as int, at + n) =~= part@);
    true
}

/// `s` without `suffix`, where it ends in it.
pub fn strip_suffix(s: &str, suffix: &str) -> (r: Option<String>)
    ensures
        opt_view(r) == without_suffix(s@, suffix@),
{
    let c: Vec<char> = chars_of(s);
    let x: Vec<char> = chars_of(suffix);
    if c.len() < x.len() {
        return None;
    }
    let at: usize = c.len() - x.len();
    if matches_at(c.as_slice(), at, x.as_slice()) {
        assert(c@.subrange(at as int, c@.len() as int) == x@);
        let r: String = slice_string(c.as_slice(), 0, at);
        assert(r@ =~= s@.take(at as int));
        Some(r)
    } else {
        None
    }
}

/// `s` without `prefix`, where it starts with it.
pub fn strip_prefix(s: &str, prefix: &str) -> (r: Option<String>)
    ensures
        opt_view(r) == without_prefix(s@, prefix@),
{
    let c: Vec<char> = chars_of(s);
    let x: Vec<char> = chars_of(prefix);
    if matches_at(c.as_slice(), 0, x.as_slice()) {
        let r: String = slice_string(c.as_slice(), x.len(), c.len());
        assert(r@ =~= s@.skip(x@.len() as int));
        Some(r)
    } else {
        None
    }
}

/// `s` with every occurrence of `from`, found from the left, replaced.
pub open spec fn replaced(s: Seq<char>, from: Seq<char>, to: Seq<char>) -> Seq<char>
    decreases s.len(),
{
    if s.len() == 0 || from.len() == 0 {
        s
    } else if from.is_prefix_of(s) {
        to + replaced(s.skip(from.len() as int), from, to)
    } else {
        seq![s[0]] + replaced(s.skip(1), from, to)
    }
}

/// Replaces every occurrence of `from`.
pub fn replace_all(s: &str, from: &str, to: &str) -> (r: String)
    requires
        from@.len() > 0,
    ensures
        r@ == replaced(s@, from@, to@),
{
    let chars: Vec<char> = chars_of(s);
    let part: Vec<char> = chars_of(from);
    let n: usize = chars.len();
    let mut out: String = String::new();
    let mut i: usize = 0;
    assert(s@.skip(0) =~= s@);
    assert(out@ + replaced(s@, from@, to@) =~= replaced(s@, from@, to@));
    while i < n
        invariant
            chars@ == s@,
            part@ == from@,
            from@.len() > 0,
            n == s@.len(),
            i <= n,
            out@ + replaced(s@.skip(i as int), from@, to@) == replaced(s@, from@, to@),
        decreases n - i,
    {
        let ghost rest = s@.skip(i as int);
        let ghost before = out@;
        if matches_at(chars.as_slice(), i, part.as_slice()) {
            out.append(to);
            proof {
                assert(rest.subrange(0, from@.len() as int) =~= s@.subrange(
                    i as int,
                    i + from@.len(),
                ));
                assert(rest.skip(from@.len() as int) =~= s@.skip(i + from@.len()));
                assert(before + to@ + replaced(s@.skip(i + from@.len()), from@, to@) =~= before
                    + (to@ + replaced(s@.skip(i + from@.len()), from@, to@)));
            }
            i += part.len();
        } else {
            out.push(chars[i]);
            proof {
                if from@.is_prefix_of(rest) {
                    assert(s@.subrange(i as int, i + from@.len()) =~= rest.subrange(
                        0,
                        from@.len() as int,
                    ));
                }
                assert(rest.skip(1) =~= s@.skip(i + 1));
                assert(before.push(s@[i as int]) + replaced(s@.skip(i + 1), from@, to@) =~= before
                    + (seq![s@[i as int]] + replaced(s@.skip(i + 1), from@, to@)));
            }
            i += 1;
        }
    }
    assert(s@.skip(n as int) =~= Seq::empty());
    assert(out@ =~= replaced(s@, from@, to@));
    out
}

/// The first word of a text: what comes before the first white space after the leading one.
pub open spec fn first_word(s: Seq<char>) -> Option<Seq<char>> {
    let t = trim_start(s);
    if t.len() == 0 {
        None
    } else {
        Some(until_white(t))
    }
}

/// The text before the first white space.
pub open spec fn until_white(s: Seq<char>) -> Seq<char>
    decreases s.len(),
{
    if s.len() == 0 || is_white(s[0]) {
        Seq::empty()
    } else {
        seq![s[0]] + until_white(s.skip(1))
    }
}

/// The first word of a text.
pub fn first_word_of(s: &str) -> (r: Option<String>)
    ensures
        opt_view(r) == first_word(s@),
{
    let chars: Vec<char> = chars_of(s);
    let n: usize = chars.len();
    let mut lo: usize = 0;
    assert(chars@.skip(0) =~= chars@);
    while lo < n && white(chars[lo])
        invariant
            n == chars@.len(),
            lo <= n,
            trim_start(chars@) == trim_start(chars@.skip(lo as int)),
        decreases n - lo,
    {
        assert(chars@.skip(lo as int).skip(1) =~= chars@.skip(lo as int + 1));
        lo += 1;
    }
    assert(trim_start(chars@) == chars@.skip(lo as int));
    if lo == n {
        return None;
    }
    let mut hi: usize = lo;
    assert(chars@.subrange(lo as int, lo as int) + until_white(chars@.skip(lo as int))
        =~= until_white(chars@.skip(lo as int)));
    while hi < n && !white(chars[hi])
        invariant
            n == chars@.len(),
            lo <= hi <= n,
            chars@.subrange(lo as int, hi as int) + until_white(chars@.skip(hi as int))
                == until_white(chars@.skip(lo as int)),
        decreases n - hi,
    {
        proof {
            let rest = chars@.skip(hi as int);
            assert(rest.skip(1) =~= chars@.skip(hi + 1));
            assert(chars@.subrange(lo as int, hi + 1) =~= chars@.subrange(
                lo as int,
                hi as int,
            ).push(chars@[hi as int]));
            assert(chars@.subrange(lo as int, hi + 1) + until_white(chars@.skip(hi + 1))
                =~= chars@.subrange(lo as int, hi as int) + (seq![chars@[hi as int]]
                + until_white(chars@.skip(hi + 1))));
        }
        hi += 1;
    }
    let r: String = slice_string(chars.as_slice(), lo, hi);
    assert(r@ =~= until_white(chars@.skip(lo as int)));
    Some(r)
}

// ----- joining --------------------------------------------------------------

/// The parts with `sep` between each two neighbours.
pub open spec fn join(parts: Seq<Seq<char>>, sep: Seq<char>) -> Seq<char>
    decreases parts.len(),
{
    if parts.len() == 0 {
        Seq::empty()
    } else if parts.len() == 1 {
        parts[0]
    } else {
        join(parts.drop_last(), sep) + sep + parts.last()
    }
}

/// Joins strings with `sep` between them.
pub fn join_strings(parts: &Vec<String>, sep: &str) -> (r: String)
    ensures
        r@ == join(views(parts@), sep@),
{
    let mut r: String = String::new();
    let n: usize = parts.len();
    let ghost all = views(parts@);
    let mut i: usize = 0;
    while i < n
        invariant
            n == parts@.len(),
            i <= n,
            all == views(parts@),
            r@ == join(all.take(i as int), sep@),
        decreases n - i,
    {
        assert(all.take(i + 1).drop_last() =~= all.take(i as int));
        assert(all.take(i + 1).last() == parts@[i as int]@);
        if i > 0 {
            r.append(sep);
        }
        r.append(parts[i].as_str());
        i += 1;
        assert(i == 1 ==> r@ =~= all.take(1)[0]);
    }
    assert(all.take(n as int) =~= all);
    r
}

// ----- columns and lines ----------------------------------------------------

/// A text filled up with spaces to a number of characters.
pub open spec fn padded(s: Seq<char>, width: nat) -> Seq<char> {
    if s.len() >= width {
        s
    } else {
        s + Seq::new((width - s.len()) as nat, |i: int| ' ')
    }
}

/// Fills a text up with spaces to a number of characters.
pub fn pad_right(s: &str, width: usize) -> (r: String)
    ensures
        r@ == padded(s@, width as nat),
{
    let mut r: String = s.to_owned();
    let mut n: usize = chars_of(s).len();
    let ghost len = s@.len();
    while n < width
        invariant
            s@.len() == len,
            r@.len() == n,
            len <= n,
            n <= width || n == len,
            r@ == s@ + Seq::new((n - len) as nat, |i: int| ' '),
        decreases width - n,
    {
        let ghost before = r@;
        r.push(' ');
        n += 1;
        assert(r@ =~= s@ + Seq::new((n - len) as nat, |i: int| ' '));
    }
    assert(r@ =~= padded(s@, width as nat));
    r
}

/// The last of the pieces between line feeds that is not blank; the carriage return before a
/// line feed does not belong to it.
pub open spec fn last_piece(pieces: Seq<Seq<char>>, terminated: bool) -> Option<Seq<char>>
    decreases pieces.len(),
{
    if pieces.len() == 0 {
        None
    } else {
        let p = pieces.last();
        if trim(p).len() == 0 {
            last_piece(pieces.drop_last(), true)
        } else if terminated && p.last() == '\r' {
            Some(p.drop_last())
        } else {
            Some(p)
        }
    }
}

/// The last line of a text that is not blank.
pub open spec fn last_line(s: Seq<char>) -> Option<Seq<char>> {
    last_piece(split(s, '\n'), false)
}

/// The last line of a text that is not blank.
pub fn last_nonblank_line(s: &str) -> (r: Option<String>)
    ensures
        opt_view(r) == last_line(s@),
{
    let chars: Vec<char> = chars_of(s);
    let pieces: Vec<String> = split_chars(chars.as_slice(), '\n');
    let ghost all = views(pieces@);
    let mut i: usize = pieces.len();
    let mut terminated: bool = false;
    assert(all.take(all.len() as int) =~= all);
    while i > 0
        invariant
            i <= pieces@.len(),
            all == views(pieces@),
            all.len() == pieces@.len(),
            last_line(s@) == last_piece(all.take(i as int), terminated),
        decreases i,
    {
        proof {
            let t = all.take(i as int);
            assert(t.last() == all[i - 1]);
            assert(t.drop_last() =~= all.take(i - 1));
        }
        i -= 1;
        let piece: &String = &pieces[i];
        let c: Vec<char> = chars_of(piece.as_str());
        let (from, to): (usize, usize) = trim_range(c.as_slice());
        if from < to {
            proof {
                assert(trim(piece@).len() > 0);
                lemma_trim_within(piece@);
            }
            let n: usize = c.len();
            if terminated && c[n - 1] == '\r' {
                let r: String = slice_string(c.as_slice(), 0, n - 1);
                assert(r@ =~= piece@.drop_last());
                return Some(r);
            }
            return Some(piece.clone());
        }
        terminated = true;
    }
    assert(all.take(0) =~= Seq::empty());
    None
}

// ----- numbers --------------------------------------------------------------

/// The lower-case hexadecimal digit of a value below 16.
pub open spec fn hex_digit(d: int) -> char {
    if d < 10 {
        (48 + d) as char
    } else {
        (87 + d) as char
    }
}

/// Two lower-case hexadecimal digits.
pub open spec fn hex_pair(b: u8) -> Seq<char> {
    seq![hex_digit(b as int / 16), hex_digit(b as int % 16)]
}

/// The lower-case hexadecimal digit of a value below 16.
pub fn hex_char(d: u8) -> (r: char)
    requires
        d < 16,
    ensures
        r == hex_digit(d as int),
{
    let c: u8 = if d < 10 {
        48 + d
    } else {
        87 + d
    };
    c as char
}

/// Two lower-case hexadecimal digits.
pub fn hex_byte(b: u8) -> (r: String)
    ensures
        r@ == hex_pair(b),
{
    let mut r: String = String::new();
    r.push(hex_char(b / 16));
    r.push(hex_char(b % 16));
    assert(r@ =~= hex_pair(b));
    r
}

/// The decimal digits of a number.
pub open spec fn dec(n: nat) -> Seq<char>
    decreases n,
{
    if n < 10 {
        seq![(48 + n) as char]
    } else {
        dec(n / 10).push((48 + n % 10) as char)
    }
}

/// Appends the decimal digits of `n`.
pub fn push_dec(out: &mut String, n: u64)
    ensures
        final(out)@ == old(out)@ + dec(n as nat),
    decreases n,
{
    if n >= 10 {
        push_dec(out, n / 10);
    }
    let d: u8 = 48 + (n % 10) as u8;
    out.push(d as char);
    assert(out@ =~= old(out)@ + dec(n as nat));
}

/// The decimal digits of `n`.
pub fn dec_string_wide(n: u128) -> (r: String)
    ensures
        r@ == dec(n as nat),
    decreases n,
{
    let mut r: String = if n >= 10 {
        dec_string_wide(n / 10)
    } else {
        String::new()
    };
    let d: u8 = 48 + (n % 10) as u8;
    r.push(d as char);
    assert(r@ =~= dec(n as nat));
    r
}

/// The decimal digits of `n`.
pub fn dec_string(n: u64) -> (r: String)
    ensures
        r@ == dec(n as nat),
{
    let mut r: String = String::new();
    push_dec(&mut r, n);
    assert(r@ =~= dec(n as nat));
    r
}

/// Whether every character is an ASCII digit.
pub open spec fn all_digits(s: Seq<char>) -> bool {
    forall|i: int| 0 <= i < s.len() ==> '0' <= #[trigger] s[i] <= '9'
}

/// The number that decimal digits denote.
pub open spec fn dec_value(s: Seq<char>) -> nat
    decreases s.len(),
{
    if s.len() == 0 {
        0
    } else {
        dec_value(s.drop_last()) * 10 + (s.last() as nat - 48) as nat
    }
}

/// What a decimal numeral with an optional leading `+` denotes, up to `max`.
pub open spec fn parsed_decimal(s: Seq<char>, max: nat) -> Option<nat> {
    let d = if s.len() > 0 && s[0] == '+' {
        s.skip(1)
    } else {
        s
    };
    if d.len() > 0 && all_digits(d) && dec_value(d) <= max {
        Some(dec_value(d))
    } else {
        None
    }
}

proof fn lemma_dec_value_grows(s: Seq<char>, i: int)
    requires
        0 <= i <= s.len(),
        all_digits(s),
    ensures
        dec_value(s.take(i)) <= dec_value(s),
    decreases s.len() - i,
{
    if i == s.len() {
        assert(s.take(i) =~= s);
    } else {
        lemma_dec_value_grows(s, i + 1);
        assert(s.take(i + 1).drop_last() =~= s.take(i));
        assert('0' <= s[i]);
    }
}

/// Parses a decimal numeral with an optional leading `+` into a number of at most `max`.
pub fn parse_decimal(s: &str, max: u64) -> (r: Option<u64>)
    ensures
        match r {
            Some(n) => parsed_decimal(s@, max as nat) == Some(n as nat),
            None => parsed_decimal(s@, max as nat) is None,
        },
{
    let chars: Vec<char> = chars_of(s);
    let n: usize = chars.len();
    let start: usize = if n > 0 && chars[0] == '+' {
        1
    } else {
        0
    };
    let ghost d = if s@.len() > 0 && s@[0] == '+' {
        s@.skip(1)
    } else {
        s@
    };
    assert(d =~= s@.skip(start as int));
    if start == n {
        return None;
    }
    let mut value: u64 = 0;
    let mut i: usize = start;
    assert(dec_value(d.take(0)) == 0);
    while i < n
        invariant
            n == chars@.len(),
            chars@ == s@,
            start <= i <= n,
            start < n,
            d == s@.skip(start as int),
            d == (if s@.len() > 0 && s@[0] == '+' {
                s@.skip(1)
            } else {
                s@
            }),
            all_digits(d.take(i - start)),
            value == dec_value(d.take(i - start)),
            value <= max,
        decreases n - i,
    {
        let c: char = chars[i];
        assert(d[i - start] == c);
        if c < '0' || c > '9' {
            assert(!all_digits(d));
            return None;
        }
        let ghost t = d.take(i + 1 - start);
        assert(t.drop_last() =~= d.take(i - start));
        assert(t.last() == c);
        let digit: u64 = (c as u32 - 48) as u64;
        proof {
            if all_digits(d) {
                lemma_dec_value_grows(d, i + 1 - start);
            }
        }
        let next: u128 = value as u128 * 10 + digit as u128;
        assert(dec_value(t) == next);
        if next > max as u128 {
            return None;
        }
        value = next as u64;
        assert(all_digits(t)) by {
            assert forall|k: int| 0 <= k < t.len() implies '0' <= #[trigger] t[k] <= '9' by {
                if k < t.len() - 1 {
                    assert(t[k] == d.take(i - start)[k]);
                }
            }
        }
        i += 1;
    }
    assert(d.take(n - start) =~= d);
    Some(value)
}

/// Parsing the decimal digits of a number gives the number back.
pub proof fn law_parse_decimal_inverts_dec(n: nat, max: nat)
    requires
        n <= max,
    ensures
        parsed_decimal(dec(n), max) == Some(n),
{
    lemma_dec_digits(n);
    assert('0' <= dec(n)[0] <= '9');
}

proof fn lemma_dec_digits(n: nat)
    ensures
        dec(n).len() > 0,
        all_digits(dec(n)),
        dec_value(dec(n)) == n,
    decreases n,
{
    if n < 10 {
        reveal_with_fuel(dec_value, 2);
        assert(dec(n).drop_last() =~= Seq::empty());
    } else {
        lemma_dec_digits(n / 10);
        assert(dec(n).drop_last() =~= dec(n / 10));
        assert forall|k: int| 0 <= k < dec(n).len() implies '0' <= #[trigger] dec(n)[k] <= '9' by {
            if k < dec(n).len() - 1 {
                assert(dec(n)[k] == dec(n / 10)[k]);
            }
        }
    }
}

// ----- UTF-8 ----------------------------------------------------------------

/// The error of `String::from_utf8`.
#[verifier::external_type_specification]
#[verifier::external_body]
pub struct ExFromUtf8Error(std::string::FromUtf8Error);

/// `String::from_utf8`: the characters that the bytes encode, if and only if they are valid
/// UTF-8.
pub assume_specification[ String::from_utf8 ](bytes: Vec<u8>) -> (r: Result<
    String,
    std::string::FromUtf8Error,
>)
    ensures
        match r {
            Ok(s) => valid_utf8(bytes@) && s@ == decode_utf8(bytes@),
            Err(_) => !valid_utf8(bytes@),
        },
;

/// The text that bytes encode, where they are valid UTF-8.
pub open spec fn utf8_text(bytes: Seq<u8>) -> Option<Seq<char>> {
    if valid_utf8(bytes) {
        Some(decode_utf8(bytes))
    } else {
        None
    }
}

/// The text that bytes encode, where they are valid UTF-8.
pub fn text_of_bytes(bytes: Vec<u8>) -> (r: Option<String>)
    ensures
        opt_view(r) == utf8_text(bytes@),
{
    match String::from_utf8(bytes) {
        Ok(s) => Some(s),
        Err(_) => None,
    }
}

/// The number of bytes that encode a text.
pub open spec fn utf8_len(s: Seq<char>) -> nat {
    encode_utf8(s).len()
}

/// The number of bytes that encode a string.
pub fn byte_len(s: &str) -> (r: usize)
    ensures
        r == utf8_len(s@),
{
    s.as_bytes().len()
}

/// Encoding is done character by character.
pub proof fn lemma_encode_concat(a: Seq<char>, b: Seq<char>)
    ensures
        encode_utf8(a + b) == encode_utf8(a) + encode_utf8(b),
    decreases a.len(),
{
    if a.len() == 0 {
        assert(a + b =~= b);
        assert(encode_utf8(a) + encode_utf8(b) =~= encode_utf8(b));
    } else {
        assert((a + b).drop_first() =~= a.drop_first() + b);
        lemma_encode_concat(a.drop_first(), b);
        let f = encode_scalar(a[0] as u32);
        assert(f + (encode_utf8(a.drop_first()) + encode_utf8(b)) =~= f + encode_utf8(
            a.drop_first(),
        ) + encode_utf8(b));
    }
}

/// The number of bytes that encode one character.
pub open spec fn char_width(c: char) -> nat {
    encode_scalar(c as u32).len()
}

proof fn lemma_encode_push(s: Seq<char>, c: char)
    ensures
        utf8_len(s.push(c)) == utf8_len(s) + char_width(c),
        1 <= char_width(c) <= 4,
{
    assert(s.push(c) =~= s + seq![c]);
    lemma_encode_concat(s, seq![c]);
    reveal_with_fuel(encode_utf8, 2);
    assert(seq![c].drop_first() =~= Seq::empty());
    assert(encode_utf8(seq![c]) =~= encode_scalar(c as u32));
    char_is_scalar(c);
}

fn width_of(c: char) -> (r: usize)
    ensures
        r == char_width(c),
{
    let u: u32 = c as u32;
    proof {
        char_is_scalar(c);
    }
    if u <= 0x7f {
        1
    } else if u <= 0x7ff {
        2
    } else if u <= 0xffff {
        3
    } else {
        4
    }
}

/// The longest prefix of a text whose encoding has at most `max` bytes.
pub open spec fn fitting_prefix(s: Seq<char>, max: nat) -> Seq<char>
    decreases s.len(),
{
    if s.len() == 0 || utf8_len(s) <= max {
        s
    } else {
        fitting_prefix(s.drop_last(), max)
    }
}

/// A prefix that fits, and beyond which no prefix fits, is the longest fitting one.
pub proof fn lemma_fitting_from(s: Seq<char>, k: int, j: int, max: nat)
    requires
        0 <= k <= j <= s.len(),
        utf8_len(s.take(k)) <= max,
        k < s.len() ==> utf8_len(s.take(k + 1)) > max,
    ensures
        k < j ==> utf8_len(s.take(j)) > max,
        fitting_prefix(s.take(j), max) == s.take(k),
    decreases j - k,
{
    if k < j {
        lemma_fitting_from(s, k, j - 1, max);
        assert(s.take(j).drop_last() =~= s.take(j - 1));
        assert(s.take(j) =~= s.take(j - 1).push(s[j - 1]));
        lemma_encode_push(s.take(j - 1), s[j - 1]);
    }
}

/// The longest prefix of a string whose encoding has at most `max` bytes.
pub fn take_fitting(s: &str, max: usize) -> (r: String)
    ensures
        r@ == fitting_prefix(s@, max as nat),
{
    let chars: Vec<char> = chars_of(s);
    let n: usize = chars.len();
    let mut used: usize = 0;
    let mut i: usize = 0;
    let mut out: String = String::new();
    while i < n
        invariant
            chars@ == s@,
            n == chars@.len(),
            i <= n,
            used == utf8_len(s@.take(i as int)),
            used <= max,
            out@ == s@.take(i as int),
        decreases n - i,
    {
        let c: char = chars[i];
        let w: usize = width_of(c);
        proof {
            assert(s@.take(i + 1) =~= s@.take(i as int).push(c));
            lemma_encode_push(s@.take(i as int), c);
        }
        if w > max - used {
            proof {
                lemma_fitting_from(s@, i as int, n as int, max as nat);
                assert(s@.take(n as int) =~= s@);
            }
            return out;
        }
        out.push(c);
        used += w;
        i += 1;
    }
    assert(s@.take(n as int) =~= s@);
    out
}

/// The longest fitting prefix is a prefix, fits, and no longer prefix does.
pub proof fn law_fitting_prefix(s: Seq<char>, max: nat)
    ensures
        fitting_prefix(s, max).is_prefix_of(s),
        utf8_len(fitting_prefix(s, max)) <= max,
        forall|k: int|
            fitting_prefix(s, max).len() < k <= s.len() ==> utf8_len(#[trigger] s.take(k)) > max,
    decreases s.len(),
{
    if s.len() == 0 {
    } else if utf8_len(s) > max {
        let t = s.drop_last();
        law_fitting_prefix(t, max);
        let p = fitting_prefix(t, max);
        assert(p =~= s.take(p.len() as int)) by {
            assert(p =~= t.take(p.len() as int));
        }
        assert forall|k: int| p.len() < k <= s.len() implies utf8_len(#[trigger] s.take(k)) > max by {
            if k == s.len() {
                assert(s.take(k) =~= s);
            } else {
                assert(s.take(k) =~= t.take(k));
            }
        }
    }
}

// ----- what the pieces have to do with the whole ----------------------------

/// Trimming takes white space off both ends and nothing else: what is left is a stretch of the
/// text that neither starts nor ends in white space, and all that was taken is white.
pub proof fn law_trim(s: Seq<char>) -> (r: (int, int))
    ensures
        0 <= r.0 <= r.1 <= s.len(),
        trim(s) == s.subrange(r.0, r.1),
        forall|k: int| 0 <= k < r.0 ==> is_white(#[trigger] s[k]),
        forall|k: int| r.1 <= k < s.len() ==> is_white(#[trigger] s[k]),
        r.0 < r.1 ==> !is_white(s[r.0]) && !is_white(s[r.1 - 1]),
{
    let i = lemma_leading(s);
    let t = trim_start(s);
    let j = lemma_trailing(t);
    assert(t.take(j) =~= s.subrange(i, i + j));
    assert forall|k: int| i + j <= k < s.len() implies is_white(#[trigger] s[k]) by {
        assert(t[k - i] == s[k]);
    }
    if j > 0 {
        assert(t[0] == s[i]);
        assert(t[j - 1] == s[i + j - 1]);
    }
    (i, i + j)
}

proof fn lemma_leading(s: Seq<char>) -> (i: int)
    ensures
        0 <= i <= s.len(),
        trim_start(s) == s.skip(i),
        forall|k: int| 0 <= k < i ==> is_white(#[trigger] s[k]),
        i < s.len() ==> !is_white(s[i]),
    decreases s.len(),
{
    if s.len() > 0 && is_white(s[0]) {
        let t = s.skip(1);
        let i = lemma_leading(t);
        assert(t.skip(i) =~= s.skip(i + 1));
        assert forall|k: int| 0 <= k < i + 1 implies is_white(#[trigger] s[k]) by {
            if k > 0 {
                assert(is_white(t[k - 1]));
            }
        }
        i + 1
    } else {
        assert(s.skip(0) =~= s);
        0
    }
}

proof fn lemma_trailing(s: Seq<char>) -> (j: int)
    ensures
        0 <= j <= s.len(),
        trim_end(s) == s.take(j),
        forall|k: int| j <= k < s.len() ==> is_white(#[trigger] s[k]),
        j > 0 ==> !is_white(s[j - 1]),
    decreases s.len(),
{
    if s.len() > 0 && is_white(s.last()) {
        let t = s.drop_last();
        let j = lemma_trailing(t);
        assert(t.take(j) =~= s.take(j));
        assert forall|k: int| j <= k < s.len() implies is_white(#[trigger] s[k]) by {
            if k < t.len() {
                assert(is_white(t[k]));
            }
        }
        j
    } else {
        assert(s.take(s.len() as int) =~= s);
        s.len() as int
    }
}

/// White space behind a text counts for nothing when it is trimmed.
pub proof fn lemma_trim_pushed(s: Seq<char>, c: char)
    requires
        is_white(c),
    ensures
        trim(s.push(c)) == trim(s),
{
    let t = s.push(c);
    let i = lemma_leading(s);
    let k = lemma_leading(t);
    if i < s.len() {
        assert(t[i] == s[i]);
        if k < i {
            assert(t[k] == s[k]);
        }
        assert(k == i);
        assert(t.skip(i) =~= s.skip(i).push(c));
        assert(t.skip(i).drop_last() =~= s.skip(i));
    } else {
        if k < s.len() {
            assert(t[k] == s[k]);
        }
        assert(k == t.len());
        assert(t.skip(k) =~= s.skip(i));
    }
}

/// White space is what Unicode says it is: the space and the five controls from tab to carriage return,
/// and beyond ASCII the next line, the spaces of typography, and the separators of lines and
/// paragraphs.
pub proof fn law_white(c: char)
    ensures
        is_white(c) == (c == ' ' || c == '\t' || c == '\n' || c == '\u{b}' || c == '\u{c}' || c
            == '\r' || c == '\u{85}' || c == '\u{a0}' || c == '\u{1680}' || '\u{2000}' <= c
            <= '\u{200a}' || c == '\u{2028}' || c == '\u{2029}' || c == '\u{202f}' || c
            == '\u{205f}' || c == '\u{3000}'),
{
}

/// Taking a character out leaves the others in order.
pub proof fn law_without(s: Seq<char>, c: char)
    ensures
        without(s, c) == s.filter(|d: char| d != c),
    decreases s.len(),
{
    reveal(Seq::filter);
    if s.len() > 0 {
        law_without(s.drop_last(), c);
    }
}

/// The pieces of a text hold no separator and, put together with a separator between each two,
/// are the text.
pub proof fn law_split(s: Seq<char>, sep: char)
    ensures
        split(s, sep).len() >= 1,
        join(split(s, sep), seq![sep]) == s,
        forall|i: int| 0 <= i < split(s, sep).len() ==> !(#[trigger] split(s, sep)[i]).contains(sep),
{
    lemma_split_whole(Seq::empty(), s, sep);
    assert(Seq::<char>::empty() + s =~= s);
}

proof fn lemma_split_whole(cur: Seq<char>, rest: Seq<char>, sep: char)
    requires
        !cur.contains(sep),
    ensures
        split_from(cur, rest, sep).len() >= 1,
        join(split_from(cur, rest, sep), seq![sep]) == cur + rest,
        forall|i: int|
            0 <= i < split_from(cur, rest, sep).len() ==> !(#[trigger] split_from(
                cur,
                rest,
                sep,
            )[i]).contains(sep),
    decreases rest.len(),
{
    let all = split_from(cur, rest, sep);
    if rest.len() == 0 {
        assert(cur + rest =~= cur);
    } else if rest[0] == sep {
        let t = split_from(Seq::empty(), rest.skip(1), sep);
        lemma_split_whole(Seq::empty(), rest.skip(1), sep);
        lemma_join_front(cur, t, seq![sep]);
        assert(cur + seq![sep] + (Seq::<char>::empty() + rest.skip(1)) =~= cur + rest);
        assert forall|i: int| 0 <= i < all.len() implies !(#[trigger] all[i]).contains(sep) by {
            if i > 0 {
                assert(all[i] == t[i - 1]);
            }
        }
    } else {
        let longer = cur.push(rest[0]);
        assert(!longer.contains(sep)) by {
            if longer.contains(sep) {
                let k = choose|k: int| 0 <= k < longer.len() && longer[k] == sep;
                if k < cur.len() {
                    assert(cur[k] == sep);
                }
            }
        }
        lemma_split_whole(longer, rest.skip(1), sep);
        assert(longer + rest.skip(1) =~= cur + rest);
    }
}

proof fn lemma_join_front(first: Seq<char>, parts: Seq<Seq<char>>, sep: Seq<char>)
    requires
        parts.len() >= 1,
    ensures
        join(seq![first] + parts, sep) == first + sep + join(parts, sep),
    decreases parts.len(),
{
    let all = seq![first] + parts;
    assert(all.drop_last() =~= seq![first] + parts.drop_last());
    assert(all.last() == parts.last());
    if parts.len() == 1 {
        assert(all.drop_last() =~= seq![first]);
        assert(join(all.drop_last(), sep) == first);
    } else {
        lemma_join_front(first, parts.drop_last(), sep);
        let j = join(parts.drop_last(), sep);
        assert(first + sep + j + sep + parts.last() =~= first + sep + (j + sep + parts.last()));
    }
}

/// What a piece holds, the text holds.
pub proof fn lemma_split_chars(cur: Seq<char>, rest: Seq<char>, sep: char, k: int, c: char)
    requires
        0 <= k < split_from(cur, rest, sep).len(),
        split_from(cur, rest, sep)[k].contains(c),
    ensures
        cur.contains(c) || rest.contains(c),
    decreases rest.len(),
{
    if rest.len() > 0 {
        let t = rest.skip(1);
        let next = if rest[0] == sep {
            Seq::empty()
        } else {
            cur.push(rest[0])
        };
        if rest[0] == sep {
            if k > 0 {
                lemma_split_chars(next, t, sep, k - 1, c);
            }
        } else {
            lemma_split_chars(next, t, sep, k, c);
            if next.contains(c) {
                let j = choose|j: int| 0 <= j < next.len() && next[j] == c;
                if j < cur.len() {
                    assert(cur[j] == c);
                } else {
                    assert(rest[0] == c);
                }
            }
        }
        if t.contains(c) {
            let j = choose|j: int| 0 <= j < t.len() && t[j] == c;
            assert(rest[j + 1] == c);
        }
    }
}

/// Joining puts the separator between the parts, and nothing before the first or behind the last.
pub proof fn law_join(parts: Seq<Seq<char>>, part: Seq<char>, sep: Seq<char>)
    ensures
        join(Seq::empty(), sep) == Seq::<char>::empty(),
        join(seq![part], sep) == part,
        parts.len() > 0 ==> join(parts.push(part), sep) == join(parts, sep) + sep + part,
{
    assert(parts.push(part).drop_last() =~= parts);
}

/// A suffix, and a prefix, is taken off exactly where it is there.
pub proof fn law_affixes(a: Seq<char>, b: Seq<char>, s: Seq<char>)
    ensures
        without_suffix(a + b, b) == Some(a),
        without_prefix(a + b, a) == Some(b),
        without_suffix(s, b) matches Some(t) ==> t + b == s,
        without_prefix(s, a) matches Some(t) ==> a + t == s,
{
    let ab = a + b;
    assert(ab.subrange(ab.len() - b.len(), ab.len() as int) =~= b);
    assert(ab.subrange(0, a.len() as int) =~= a);
    assert(ab.take(ab.len() - b.len()) =~= a);
    assert(ab.skip(a.len() as int) =~= b);
    if let Some(t) = without_suffix(s, b) {
        assert(t + b =~= s);
    }
    if let Some(t) = without_prefix(s, a) {
        assert(a + t =~= s);
    }
}

/// The first occurrence of a text is replaced, what comes before it stays, and what comes behind it
/// is treated alike; a text without an occurrence stays as it is.
pub proof fn law_replaced(head: Seq<char>, rest: Seq<char>, from: Seq<char>, to: Seq<char>)
    requires
        from.len() > 0,
        forall|k: int|
            0 <= k < head.len() ==> !from.is_prefix_of(#[trigger] (head + from + rest).skip(k)),
    ensures
        replaced(head + from + rest, from, to) == head + to + replaced(rest, from, to),
    decreases head.len(),
{
    let s = head + from + rest;
    if head.len() == 0 {
        assert(s.subrange(0, from.len() as int) =~= from);
        assert(s.skip(from.len() as int) =~= rest);
        assert(head + to + replaced(rest, from, to) =~= to + replaced(rest, from, to));
    } else {
        let t = head.skip(1);
        assert(s.skip(0) =~= s);
        assert(!from.is_prefix_of(s.skip(0)));
        assert(s.skip(1) =~= t + from + rest);
        assert forall|k: int| 0 <= k < t.len() implies !from.is_prefix_of(
            #[trigger] (t + from + rest).skip(k),
        ) by {
            assert((t + from + rest).skip(k) =~= s.skip(k + 1));
            assert(!from.is_prefix_of(s.skip(k + 1)));
        }
        law_replaced(t, rest, from, to);
        let r = replaced(rest, from, to);
        assert(seq![s[0]] + (t + to + r) =~= head + to + r);
    }
}

/// A text in which another does not occur is not changed by replacing that.
pub proof fn law_nothing_to_replace(s: Seq<char>, from: Seq<char>, to: Seq<char>)
    requires
        forall|k: int| 0 <= k < s.len() ==> !from.is_prefix_of(#[trigger] s.skip(k)),
    ensures
        replaced(s, from, to) == s,
    decreases s.len(),
{
    if s.len() > 0 && from.len() > 0 {
        let t = s.skip(1);
        assert(s.skip(0) =~= s);
        assert(!from.is_prefix_of(s.skip(0)));
        assert forall|k: int| 0 <= k < t.len() implies !from.is_prefix_of(
            #[trigger] t.skip(k),
        ) by {
            assert(t.skip(k) =~= s.skip(k + 1));
            assert(!from.is_prefix_of(s.skip(k + 1)));
        }
        law_nothing_to_replace(t, from, to);
        assert(seq![s[0]] + t =~= s);
    }
}

/// The first word comes after leading white space, holds none, and ends where the next begins; a
/// text has none only where it is blank.
pub proof fn law_first_word(lead: Seq<char>, word: Seq<char>, rest: Seq<char>)
    requires
        forall|k: int| 0 <= k < lead.len() ==> is_white(#[trigger] lead[k]),
        forall|k: int| 0 <= k < word.len() ==> !is_white(#[trigger] word[k]),
        rest.len() > 0 ==> is_white(rest[0]),
    ensures
        word.len() > 0 ==> first_word(lead + word + rest) == Some(word),
        first_word(lead) is None,
{
    let s = lead + word + rest;
    let i = lemma_leading(s);
    if word.len() > 0 {
        assert(!is_white(s[lead.len() as int])) by {
            assert(s[lead.len() as int] == word[0]);
        }
        if i < lead.len() {
            assert(s[i] == lead[i]);
        }
        assert(i == lead.len());
        assert(s.skip(i) =~= word + rest);
        lemma_until_white(word, rest);
    }
    let j = lemma_leading(lead);
    if j < lead.len() {
        assert(is_white(lead[j]));
    }
}

proof fn lemma_until_white(word: Seq<char>, rest: Seq<char>)
    requires
        forall|k: int| 0 <= k < word.len() ==> !is_white(#[trigger] word[k]),
        rest.len() > 0 ==> is_white(rest[0]),
    ensures
        until_white(word + rest) == word,
    decreases word.len(),
{
    let s = word + rest;
    if word.len() == 0 {
        assert(s =~= rest);
        assert(until_white(s) =~= word);
    } else {
        let t = word.skip(1);
        assert(s.skip(1) =~= t + rest);
        assert forall|k: int| 0 <= k < t.len() implies !is_white(#[trigger] t[k]) by {
            assert(!is_white(word[k + 1]));
        }
        lemma_until_white(t, rest);
        assert(!is_white(word[0]));
        assert(seq![s[0]] + t =~= word);
    }
}

/// A padded text is the text, and then spaces up to the width.
pub proof fn law_padded(s: Seq<char>, width: nat)
    ensures
        s.is_prefix_of(padded(s, width)),
        padded(s, width).len() == if s.len() >= width {
            s.len()
        } else {
            width
        },
        forall|k: int| s.len() <= k < padded(s, width).len() ==> padded(s, width)[k] == ' ',
{
    assert(padded(s, width).subrange(0, s.len() as int) =~= s);
}

/// The last line that is not blank, of the pieces between line feeds: the pieces behind it are
/// blank, and of a piece that a line feed ends a carriage return does not count.
pub proof fn law_last_line(s: Seq<char>, i: int)
    requires
        0 <= i < split(s, '\n').len(),
        trim(split(s, '\n')[i]).len() > 0,
        forall|k: int|
            i < k < split(s, '\n').len() ==> trim(#[trigger] split(s, '\n')[k]).len() == 0,
    ensures
        ({
            let p = split(s, '\n')[i];
            last_line(s) == Some(
                if i < split(s, '\n').len() - 1 && p.last() == '\r' {
                    p.drop_last()
                } else {
                    p
                },
            )
        }),
{
    lemma_last_piece(split(s, '\n'), i, false);
}

proof fn lemma_last_piece(pieces: Seq<Seq<char>>, i: int, terminated: bool)
    requires
        0 <= i < pieces.len(),
        trim(pieces[i]).len() > 0,
        forall|k: int| i < k < pieces.len() ==> trim(#[trigger] pieces[k]).len() == 0,
    ensures
        last_piece(pieces, terminated) == Some(
            if (terminated || i < pieces.len() - 1) && pieces[i].last() == '\r' {
                pieces[i].drop_last()
            } else {
                pieces[i]
            },
        ),
    decreases pieces.len(),
{
    if i < pieces.len() - 1 {
        assert(trim(pieces[pieces.len() - 1]).len() == 0);
        let t = pieces.drop_last();
        assert forall|k: int| i < k < t.len() implies trim(#[trigger] t[k]).len() == 0 by {
            assert(trim(pieces[k]).len() == 0);
        }
        lemma_last_piece(t, i, true);
    }
}

/// A text of blank lines has no last line.
pub proof fn law_no_last_line(s: Seq<char>)
    requires
        forall|k: int| 0 <= k < split(s, '\n').len() ==> trim(#[trigger] split(s, '\n')[k]).len() == 0,
    ensures
        last_line(s) is None,
{
    lemma_no_last_piece(split(s, '\n'), false);
}

proof fn lemma_no_last_piece(pieces: Seq<Seq<char>>, terminated: bool)
    requires
        forall|k: int| 0 <= k < pieces.len() ==> trim(#[trigger] pieces[k]).len() == 0,
    ensures
        last_piece(pieces, terminated) is None,
    decreases pieces.len(),
{
    if pieces.len() > 0 {
        assert(trim(pieces[pieces.len() - 1]).len() == 0);
        let t = pieces.drop_last();
        assert forall|k: int| 0 <= k < t.len() implies trim(#[trigger] t[k]).len() == 0 by {
            assert(trim(pieces[k]).len() == 0);
        }
        lemma_no_last_piece(t, true);
    }
}

/// The value of a lower-case hexadecimal digit.
pub open spec fn hex_value(c: char) -> int {
    if c <= '9' {
        c as int - 48
    } else {
        c as int - 87
    }
}

/// Two hexadecimal digits, of which only the lower-case ones are used, denote the byte.
pub proof fn law_hex_pair(b: u8)
    ensures
        hex_pair(b).len() == 2,
        hex_value(hex_pair(b)[0]) * 16 + hex_value(hex_pair(b)[1]) == b,
        forall|i: int|
            0 <= i < 2 ==> ('0' <= #[trigger] hex_pair(b)[i] <= '9' || 'a' <= hex_pair(b)[i]
                <= 'f'),
{
}

/// A numeral is read digit by digit: a digit more means ten times the number and the digit.
pub proof fn law_numeral_grows(s: Seq<char>, d: char, n: nat, max: nat)
    requires
        '0' <= d <= '9',
        parsed_decimal(s, max) == Some(n),
    ensures
        parsed_decimal(s.push(d), 10 * max + 9) == Some((10 * n + (d as int - 48)) as nat),
        10 * n + (d as int - 48) > max ==> parsed_decimal(s.push(d), max) is None,
{
    let t = s.push(d);
    let a = if s[0] == '+' {
        s.skip(1)
    } else {
        s
    };
    let b = if t[0] == '+' {
        t.skip(1)
    } else {
        t
    };
    assert(b =~= a.push(d));
    assert(b.drop_last() =~= a);
    assert(all_digits(b));
}

/// A text with a character that is no digit is no numeral; only a plus sign may stand before the
/// digits. One without digits is none either.
pub proof fn law_no_numeral(s: Seq<char>, i: int, max: nat)
    requires
        s.len() == 0 || (0 <= i < s.len() && !('0' <= s[i] <= '9') && (i > 0 || s[i] != '+' || s.len()
            == 1)),
    ensures
        parsed_decimal(s, max) is None,
{
    if s.len() > 0 {
        let d = if s[0] == '+' {
            s.skip(1)
        } else {
            s
        };
        if s[0] == '+' {
            if i > 0 {
                assert(d[i - 1] == s[i]);
            }
        }
    }
}

/// The digits of a number are digits, without a leading zero but for zero itself; ten times a number
/// and a digit have the digits of the number and that digit.
pub proof fn law_dec(n: nat, d: nat)
    requires
        d < 10,
    ensures
        dec(n).len() > 0,
        forall|i: int| 0 <= i < dec(n).len() ==> '0' <= #[trigger] dec(n)[i] <= '9',
        n > 0 ==> dec(n)[0] != '0',
        n > 0 ==> dec(10 * n + d) == dec(n).push((48 + d) as char),
        dec(d) == seq![(48 + d) as char],
    decreases n,
{
    if n >= 10 {
        law_dec(n / 10, n % 10);
        let front = dec(n / 10);
        assert forall|i: int| 0 <= i < dec(n).len() implies '0' <= #[trigger] dec(n)[i] <= '9' by {
            if i < front.len() {
                assert(dec(n)[i] == front[i]);
            }
        }
        assert(dec(n)[0] == front[0]);
    }
    assert((10 * n + d) / 10 == n);
    assert((10 * n + d) % 10 == d);
}

} // verus!

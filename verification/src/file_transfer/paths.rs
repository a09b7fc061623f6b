//! Destination paths: component hygiene and joins that stay inside a root.
//!
//! A path is text with `/` between its components.
use crate::text;
use vstd::prelude::*;

verus! {

/// Suffix of a file that is still being received.
pub open spec fn part_suffix() -> Seq<char> {
    ".lanmouse.part"@
}

// ----- single components ----------------------------------------------------

/// A component that names something below its parent, and nothing else.
pub open spec fn clean_component(c: Seq<char>) -> bool {
    &&& c.len() > 0
    &&& c != seq!['.']
    &&& c != seq!['.', '.']
    &&& !c.contains('/')
    &&& !c.contains('\0')
}

/// Nul characters stripped, white space trimmed, and `_` for what is then empty or reserved.
pub open spec fn sanitized(raw: Seq<char>) -> Seq<char> {
    let s = text::trim(text::without(raw, '\0'));
    if s.len() == 0 || s == seq!['.'] || s == seq!['.', '.'] {
        seq!['_']
    } else {
        s
    }
}

/// Strips nul bytes, trims white space, and replaces empty and reserved names by `_`.
pub fn sanitize_component(raw: &str) -> (r: String)
    ensures
        r@ == sanitized(raw@),
{
    let chars: Vec<char> = text::chars_of(raw);
    let kept: Vec<char> = text::remove_char(chars.as_slice(), '\0');
    let (lo, hi): (usize, usize) = text::trim_range(kept.as_slice());
    let n: usize = hi - lo;
    let ghost s = text::trim(text::without(raw@, '\0'));
    assert(s.len() == n);
    if n == 0 || (n == 1 && kept[lo] == '.') || (n == 2 && kept[lo] == '.' && kept[lo + 1] == '.') {
        proof {
            if n == 1 {
                assert(s =~= seq!['.']);
            } else if n == 2 {
                assert(s =~= seq!['.', '.']);
            }
        }
        let mut r: String = String::new();
        r.push('_');
        assert(r@ =~= seq!['_']);
        r
    } else {
        proof {
            if n == 1 {
                assert(s[0] != '.');
            } else if n == 2 {
                assert(s[0] == kept@[lo as int] && s[1] == kept@[lo + 1]);
            }
        }
        text::slice_string(kept.as_slice(), lo, hi)
    }
}

/// A sanitized name is never empty, never `.` or `..`, holds no nul, and holds no `/` unless
/// the raw name did.
pub proof fn law_sanitized_is_clean(raw: Seq<char>)
    ensures
        sanitized(raw).len() > 0,
        sanitized(raw) != seq!['.'],
        sanitized(raw) != seq!['.', '.'],
        !sanitized(raw).contains('\0'),
        !raw.contains('/') ==> clean_component(sanitized(raw)),
{
    let w = text::without(raw, '\0');
    text::lemma_without(raw, '\0', '/');
    text::lemma_trim_within(w);
    let (i, j) = choose|i: int, j: int|
        0 <= i <= j <= w.len() && text::trim(w) == #[trigger] w.subrange(i, j);
    let s = w.subrange(i, j);
    assert forall|c: char| s.contains(c) implies w.contains(c) by {
        let k = choose|k: int| 0 <= k < s.len() && s[k] == c;
        assert(w[i + k] == c);
    }
    let u = seq!['_'];
    assert(u[0] == '_');
    assert(seq!['.'][0] == '.');
    assert(seq!['.', '.'].len() == 2);
    assert(u.len() == 1);
}

/// A sanitized name has no outer white space.
pub proof fn lemma_sanitized_trimmed(raw: Seq<char>)
    ensures
        text::trim(sanitized(raw)) == sanitized(raw),
{
    let r = sanitized(raw);
    text::lemma_trim_clean(text::without(raw, '\0'));
    if r == seq!['_'] {
        assert(r[0] == '_');
        assert(!text::is_white('_'));
        assert(text::trim_start(r) == r);
        assert(text::trim_end(r) == r);
    }
}

/// Sanitizing twice changes nothing more.
pub proof fn law_sanitize_idempotent(raw: Seq<char>)
    ensures
        sanitized(sanitized(raw)) == sanitized(raw),
{
    let r = sanitized(raw);
    law_sanitized_is_clean(raw);
    text::lemma_without(r, '\0', '/');
    lemma_sanitized_trimmed(raw);
}

// ----- joining --------------------------------------------------------------

/// `base` extended by `name`: an absolute `name` replaces `base`, and no second separator is
/// put behind one.
pub open spec fn joined(base: Seq<char>, name: Seq<char>) -> Seq<char> {
    if name.len() > 0 && name[0] == '/' {
        name
    } else if base.len() == 0 || base.last() == '/' {
        base + name
    } else {
        base + seq!['/'] + name
    }
}

/// Joins two paths.
pub fn join_path(base: &str, name: &str) -> (r: String)
    ensures
        r@ == joined(base@, name@),
{
    let b: Vec<char> = text::chars_of(base);
    let n: Vec<char> = text::chars_of(name);
    if n.len() > 0 && n[0] == '/' {
        return name.to_owned();
    }
    let mut r: String = base.to_owned();
    if b.len() > 0 && b[b.len() - 1] != '/' {
        r.push('/');
    }
    r.append(name);
    r
}

/// `root` extended by each component in turn.
pub open spec fn below(root: Seq<char>, comps: Seq<Seq<char>>) -> Seq<char>
    decreases comps.len(),
{
    if comps.len() == 0 {
        root
    } else {
        joined(below(root, comps.drop_last()), comps.last())
    }
}

/// Resolves the pieces of a relative path against the components in `stack`: empty pieces and
/// `.` are dropped, `..` takes the last component away, everything else is sanitized and
/// added. `None` when a `..` has nothing to take away.
pub open spec fn resolved(pieces: Seq<Seq<char>>, stack: Seq<Seq<char>>) -> Option<Seq<Seq<char>>>
    decreases pieces.len(),
{
    if pieces.len() == 0 {
        Some(stack)
    } else {
        let p = pieces[0];
        let rest = pieces.skip(1);
        if p.len() == 0 || p == seq!['.'] {
            resolved(rest, stack)
        } else if p == seq!['.', '.'] {
            if stack.len() == 0 {
                None
            } else {
                resolved(rest, stack.drop_last())
            }
        } else {
            resolved(rest, stack.push(sanitized(p)))
        }
    }
}

/// The components that a relative path adds; `None` for an absolute path and for one whose
/// `..` would leave the root.
pub open spec fn relative_components(rel: Seq<char>) -> Option<Seq<Seq<char>>> {
    if rel.len() > 0 && rel[0] == '/' {
        None
    } else {
        resolved(text::split(rel, '/'), Seq::empty())
    }
}

/// The path that `rel` names below `root`, where it names one.
pub open spec fn joined_safely(root: Seq<char>, rel: Seq<char>) -> Option<Seq<char>> {
    match relative_components(rel) {
        Some(comps) => Some(below(root, comps)),
        None => None,
    }
}

fn is_dot(piece: &str) -> (r: bool)
    ensures
        r == (piece@ == seq!['.']),
{
    let c: Vec<char> = text::chars_of(piece);
    let r: bool = c.len() == 1 && c[0] == '.';
    assert(r ==> piece@ =~= seq!['.']);
    r
}

fn is_dot_dot(piece: &str) -> (r: bool)
    ensures
        r == (piece@ == seq!['.', '.']),
{
    let c: Vec<char> = text::chars_of(piece);
    let r: bool = c.len() == 2 && c[0] == '.' && c[1] == '.';
    assert(r ==> piece@ =~= seq!['.', '.']);
    r
}

fn components_of(rel: &str) -> (r: Option<Vec<String>>)
    ensures
        match r {
            Some(comps) => relative_components(rel@) == Some(text::views(comps@)),
            None => relative_components(rel@) is None,
        },
{
    let chars: Vec<char> = text::chars_of(rel);
    if chars.len() > 0 && chars[0] == '/' {
        return None;
    }
    let pieces: Vec<String> = text::split_chars(chars.as_slice(), '/');
    let ghost all = text::views(pieces@);
    let mut stack: Vec<String> = Vec::new();
    let n: usize = pieces.len();
    let mut i: usize = 0;
    assert(all.skip(0) =~= all);
    assert(text::views(stack@) =~= Seq::empty());
    while i < n
        invariant
            n == pieces@.len(),
            i <= n,
            all == text::views(pieces@),
            relative_components(rel@) == resolved(all.skip(i as int), text::views(stack@)),
        decreases n - i,
    {
        assert(all.skip(i as int).skip(1) =~= all.skip(i + 1));
        assert(all.skip(i as int)[0] == pieces@[i as int]@);
        let piece: &str = pieces[i].as_str();
        if text::chars_of(piece).len() == 0 || is_dot(piece) {
        } else if is_dot_dot(piece) {
            if stack.len() == 0 {
                assert(text::views(stack@).len() == 0);
                return None;
            }
            let ghost before = text::views(stack@);
            stack.pop();
            assert(text::views(stack@) =~= before.drop_last());
        } else {
            let s: String = sanitize_component(piece);
            proof {
                text::lemma_views_push(stack@, s);
            }
            stack.push(s);
        }
        i += 1;
    }
    Some(stack)
}

fn extend(root: &str, stack: &Vec<String>) -> (r: String)
    ensures
        r@ == below(root@, text::views(stack@)),
{
    let ghost comps = text::views(stack@);
    let mut out: String = root.to_owned();
    let m: usize = stack.len();
    let mut k: usize = 0;
    assert(comps.take(0) =~= Seq::empty());
    while k < m
        invariant
            m == stack@.len(),
            k <= m,
            comps == text::views(stack@),
            out@ == below(root@, comps.take(k as int)),
        decreases m - k,
    {
        assert(comps.take(k + 1).drop_last() =~= comps.take(k as int));
        assert(comps.take(k + 1).last() == stack@[k as int]@);
        out = join_path(out.as_str(), stack[k].as_str());
        k += 1;
    }
    assert(comps.take(m as int) =~= comps);
    out
}

/// Joins `root` with `rel` only if the result stays inside `root`. Rejects absolute paths and
/// any `..` that escapes.
pub fn safe_join(root: &str, rel: &str) -> (r: Option<String>)
    ensures
        text::opt_view(r) == joined_safely(root@, rel@),
{
    match components_of(rel) {
        Some(stack) => Some(extend(root, &stack)),
        None => None,
    }
}

/// The components below the chosen directory under which an offered tree is received; `None` where
/// the name, once sanitized, is absolute, leaves that directory, or names the directory itself.
pub open spec fn received_components(root_name: Seq<char>) -> Option<Seq<Seq<char>>> {
    match relative_components(sanitized(root_name)) {
        Some(comps) => if comps.len() > 0 {
            Some(comps)
        } else {
            None
        },
        None => None,
    }
}

/// Where a tree goes that is offered under a name and received in `dest_dir`.
pub open spec fn received_root(dest_dir: Seq<char>, root_name: Seq<char>) -> Option<Seq<char>> {
    match received_components(root_name) {
        Some(comps) => Some(below(dest_dir, comps)),
        None => None,
    }
}

/// Where a tree goes that is offered under a name (see [`received_root`]).
pub fn safe_root(dest_dir: &str, root_name: &str) -> (r: Option<String>)
    ensures
        text::opt_view(r) == received_root(dest_dir@, root_name@),
{
    let name: String = sanitize_component(root_name);
    match components_of(name.as_str()) {
        Some(stack) => if stack.len() > 0 {
            Some(extend(dest_dir, &stack))
        } else {
            None
        },
        None => None,
    }
}

// ----- last component and parent --------------------------------------------

/// `p` without trailing separators and trailing `.` components.
pub open spec fn trimmed_path(p: Seq<char>) -> Seq<char>
    decreases p.len(),
{
    if p.len() > 1 && (p.last() == '/' || (p.last() == '.' && p[p.len() - 2] == '/')) {
        trimmed_path(p.drop_last())
    } else {
        p
    }
}

/// The position behind the last separator; 0 where there is none.
pub open spec fn name_start(p: Seq<char>) -> int
    decreases p.len(),
{
    if p.len() == 0 {
        0
    } else if p.last() == '/' {
        p.len() as int
    } else {
        name_start(p.drop_last())
    }
}

/// The last component, unless the path ends in `..` or is a root or a lone `.`.
pub open spec fn last_name(p: Seq<char>) -> Option<Seq<char>> {
    let t = trimmed_path(p);
    let name = t.skip(name_start(t));
    if name.len() == 0 || name == seq!['.'] || name == seq!['.', '.'] {
        None
    } else {
        Some(name)
    }
}

/// The path without its last component; `None` for the empty path and the root.
pub open spec fn parent(p: Seq<char>) -> Option<Seq<char>> {
    let t = trimmed_path(p);
    if t.len() == 0 || t == seq!['/'] {
        None
    } else {
        Some(trimmed_path(t.take(name_start(t))))
    }
}

/// Where the contents of `p` are written until they are known to be whole.
pub open spec fn part_path_of(p: Seq<char>) -> Seq<char> {
    match last_name(p) {
        Some(name) => joined(parent(p)->0, name + part_suffix()),
        None => joined(p, "drop"@ + part_suffix()),
    }
}

/// The name under which a tree rooted at `root` is offered.
pub open spec fn offered_name(root: Seq<char>) -> Seq<char> {
    match last_name(root) {
        Some(name) => name,
        None => "drop"@,
    }
}

proof fn lemma_name_start_bounds(p: Seq<char>)
    ensures
        0 <= name_start(p) <= p.len(),
    decreases p.len(),
{
    if p.len() > 0 && p.last() != '/' {
        lemma_name_start_bounds(p.drop_last());
    }
}

proof fn lemma_no_separator_behind(p: Seq<char>)
    ensures
        !p.skip(name_start(p)).contains('/'),
    decreases p.len(),
{
    lemma_name_start_bounds(p);
    if p.len() > 0 && p.last() != '/' {
        let q = p.drop_last();
        lemma_no_separator_behind(q);
        lemma_name_start_bounds(q);
        let t = p.skip(name_start(p));
        if t.contains('/') {
            let i = choose|i: int| 0 <= i < t.len() && t[i] == '/';
            assert(p[name_start(p) + i] == '/');
            assert(name_start(p) + i < p.len() - 1);
            assert(q.skip(name_start(q))[i] == '/');
        }
    }
}

/// The last component holds no separator.
pub proof fn lemma_last_name_has_no_separator(p: Seq<char>)
    ensures
        last_name(p) matches Some(n) ==> !n.contains('/'),
{
    lemma_no_separator_behind(trimmed_path(p));
}

fn trim_path_len(chars: &[char], len: usize) -> (r: usize)
    requires
        len <= chars@.len(),
    ensures
        r <= len,
        chars@.take(r as int) == trimmed_path(chars@.take(len as int)),
{
    let mut n: usize = len;
    while n > 1 && (chars[n - 1] == '/' || (chars[n - 1] == '.' && chars[n - 2] == '/'))
        invariant
            n <= len <= chars@.len(),
            trimmed_path(chars@.take(n as int)) == trimmed_path(chars@.take(len as int)),
        decreases n,
    {
        assert(chars@.take(n as int).drop_last() =~= chars@.take(n - 1));
        n -= 1;
    }
    n
}

fn name_start_of(chars: &[char], len: usize) -> (r: usize)
    requires
        len <= chars@.len(),
    ensures
        r <= len,
        r == name_start(chars@.take(len as int)),
{
    let mut n: usize = len;
    while n > 0 && chars[n - 1] != '/'
        invariant
            n <= len <= chars@.len(),
            name_start(chars@.take(n as int)) == name_start(chars@.take(len as int)),
        decreases n,
    {
        assert(chars@.take(n as int).drop_last() =~= chars@.take(n - 1));
        n -= 1;
    }
    n
}

/// The last component of a path (see [`last_name`]).
pub fn file_name(p: &str) -> (r: Option<String>)
    ensures
        text::opt_view(r) == last_name(p@),
{
    let chars: Vec<char> = text::chars_of(p);
    assert(chars@.take(chars@.len() as int) =~= chars@);
    let n: usize = trim_path_len(chars.as_slice(), chars.len());
    let start: usize = name_start_of(chars.as_slice(), n);
    let name: String = text::slice_string(chars.as_slice(), start, n);
    assert(name@ =~= chars@.take(n as int).skip(start as int));
    if n == start || is_dot(name.as_str()) || is_dot_dot(name.as_str()) {
        None
    } else {
        Some(name)
    }
}

/// The path without its last component (see [`parent`]).
pub fn parent_path(p: &str) -> (r: Option<String>)
    ensures
        text::opt_view(r) == parent(p@),
{
    let chars: Vec<char> = text::chars_of(p);
    assert(chars@.take(chars@.len() as int) =~= chars@);
    let n: usize = trim_path_len(chars.as_slice(), chars.len());
    let ghost t = chars@.take(n as int);
    if n == 0 || (n == 1 && chars[0] == '/') {
        assert(n == 1 ==> t =~= seq!['/']);
        return None;
    }
    assert(t != seq!['/']) by {
        if t == seq!['/'] {
            assert(t.len() == 1);
            assert(chars@[0] == t[0]);
        }
    }
    let start: usize = name_start_of(chars.as_slice(), n);
    let m: usize = trim_path_len(chars.as_slice(), start);
    assert(t.take(start as int) =~= chars@.take(start as int));
    let r: String = text::slice_string(chars.as_slice(), 0, m);
    assert(r@ =~= chars@.take(m as int));
    Some(r)
}

/// Where the contents of `p` are written until they are known to be whole.
pub fn part_path(p: &str) -> (r: String)
    ensures
        r@ == part_path_of(p@),
{
    match file_name(p) {
        Some(name) => {
            let part: String = text::concat2(name.as_str(), ".lanmouse.part");
            match parent_path(p) {
                Some(dir) => join_path(dir.as_str(), part.as_str()),
                None => {
                    proof {
                        // a path with a last component has a parent
                        let t = trimmed_path(p@);
                        lemma_name_start_bounds(t);
                        if t == seq!['/'] {
                            assert(t.last() == '/');
                            assert(t.skip(1).len() == 0);
                        }
                        assert(false);
                    }
                    part
                },
            }
        },
        None => {
            let part: String = text::concat2("drop", ".lanmouse.part");
            join_path(p, part.as_str())
        },
    }
}

/// The name under which a tree rooted at `root` is offered.
pub fn root_name(root: &str) -> (r: String)
    ensures
        r@ == offered_name(root@),
{
    match file_name(root) {
        Some(name) => name,
        None => "drop".to_owned(),
    }
}

// ----- laws of the safe join ------------------------------------------------

/// Components that each name something below their parent and have no outer white space.
pub open spec fn clean_components(comps: Seq<Seq<char>>) -> bool {
    forall|i: int|
        0 <= i < comps.len() ==> clean_component(#[trigger] comps[i]) && text::trim(comps[i])
            == comps[i]
}

proof fn lemma_resolved_clean(pieces: Seq<Seq<char>>, stack: Seq<Seq<char>>)
    requires
        forall|i: int| 0 <= i < pieces.len() ==> !(#[trigger] pieces[i]).contains('/'),
        clean_components(stack),
    ensures
        resolved(pieces, stack) matches Some(comps) ==> clean_components(comps),
    decreases pieces.len(),
{
    if pieces.len() > 0 {
        let p = pieces[0];
        let rest = pieces.skip(1);
        assert(forall|i: int| 0 <= i < rest.len() ==> (#[trigger] rest[i]) == pieces[i + 1]);
        if p.len() == 0 || p == seq!['.'] {
            lemma_resolved_clean(rest, stack);
        } else if p == seq!['.', '.'] {
            if stack.len() > 0 {
                lemma_resolved_clean(rest, stack.drop_last());
            }
        } else {
            law_sanitized_is_clean(p);
            lemma_sanitized_trimmed(p);
            lemma_resolved_clean(rest, stack.push(sanitized(p)));
        }
    }
}

proof fn lemma_below_prefix(root: Seq<char>, comps: Seq<Seq<char>>)
    requires
        forall|i: int| 0 <= i < comps.len() ==> clean_component(#[trigger] comps[i]),
    ensures
        root.is_prefix_of(below(root, comps)),
    decreases comps.len(),
{
    if comps.len() > 0 {
        lemma_below_prefix(root, comps.drop_last());
        let b = below(root, comps.drop_last());
        let c = comps.last();
        assert(c == comps[comps.len() - 1]);
        assert(c[0] != '/') by {
            assert(c.contains(c[0]));
        }
        assert(joined(b, c).take(root.len() as int) =~= b.take(root.len() as int));
    }
}

/// A joined path stays inside the root: it is the root followed by components none of which is
/// empty, `.`, `..`, holds a separator or a nul, or has outer white space.
pub proof fn law_safe_join_inside_root(root: Seq<char>, rel: Seq<char>)
    ensures
        joined_safely(root, rel) matches Some(p) ==> {
            &&& root.is_prefix_of(p)
            &&& exists|comps: Seq<Seq<char>>|
                p == #[trigger] below(root, comps) && clean_components(comps)
        },
{
    if joined_safely(root, rel) is Some {
        text::lemma_split_from_clean(Seq::empty(), rel, '/');
        lemma_resolved_clean(text::split(rel, '/'), Seq::empty());
        let comps = relative_components(rel)->0;
        lemma_below_prefix(root, comps);
        assert(joined_safely(root, rel)->0 == below(root, comps));
    }
}

/// Absolute paths and paths that start with `..` are never joined.
pub proof fn law_safe_join_rejects_escapes(root: Seq<char>, rest: Seq<char>)
    ensures
        joined_safely(root, seq!['/'] + rest) is None,
        joined_safely(root, seq!['.', '.']) is None,
        joined_safely(root, seq!['.', '.', '/'] + rest) is None,
{
    let up = seq!['.', '.'];
    assert(!up.contains('/')) by {
        assert(up[0] == '.' && up[1] == '.');
    }
    text::lemma_split_from_step(Seq::empty(), up, rest, '/');
    assert(Seq::<char>::empty() + up =~= up);
    assert((seq!['/'] + rest)[0] == '/');
    assert(seq!['.', '.', '/'] + rest =~= up + seq!['/'] + rest);
    let whole = up + seq!['/'] + rest;
    assert(whole[0] == '.');
    let pieces = text::split(whole, '/');
    assert(pieces[0] == up);
    assert(up.len() == 2 && up != seq!['.']) by {
        assert(seq!['.'].len() == 1);
    }
    let single = text::split(up, '/');
    assert(single[0] == up);
}

/// Components put together with single separators.
pub open spec fn slash_joined(comps: Seq<Seq<char>>) -> Seq<char>
    decreases comps.len(),
{
    if comps.len() == 0 {
        Seq::empty()
    } else if comps.len() == 1 {
        comps[0]
    } else {
        comps[0] + seq!['/'] + slash_joined(comps.skip(1))
    }
}

/// A relative path of clean components that hold no outer white space is joined as it is.
pub proof fn law_safe_join_keeps_clean_paths(root: Seq<char>, comps: Seq<Seq<char>>)
    requires
        comps.len() > 0,
        forall|i: int|
            0 <= i < comps.len() ==> clean_component(#[trigger] comps[i]) && text::trim(comps[i])
                == comps[i],
    ensures
        joined_safely(root, slash_joined(comps)) == Some(below(root, comps)),
{
    lemma_split_slash_joined(comps);
    lemma_resolved_keeps(comps, Seq::empty());
    assert(Seq::<Seq<char>>::empty() + comps =~= comps);
    let c = comps[0];
    assert(c.contains(c[0]));
    assert(slash_joined(comps)[0] == c[0]);
}

/// Splitting inverts joining with single separators.
pub proof fn lemma_split_slash_joined(comps: Seq<Seq<char>>)
    requires
        comps.len() > 0,
        forall|i: int| 0 <= i < comps.len() ==> !(#[trigger] comps[i]).contains('/'),
    ensures
        text::split(slash_joined(comps), '/') == comps,
    decreases comps.len(),
{
    let e = Seq::<char>::empty();
    if comps.len() == 1 {
        text::lemma_split_from_step(e, comps[0], e, '/');
        assert(e + comps[0] =~= comps[0]);
        assert(comps =~= seq![comps[0]]);
    } else {
        let rest = comps.skip(1);
        assert(forall|i: int| 0 <= i < rest.len() ==> (#[trigger] rest[i]) == comps[i + 1]);
        lemma_split_slash_joined(rest);
        text::lemma_split_from_step(e, comps[0], slash_joined(rest), '/');
        assert(e + comps[0] =~= comps[0]);
        assert(comps =~= seq![comps[0]] + rest);
    }
}

proof fn lemma_resolved_keeps(comps: Seq<Seq<char>>, stack: Seq<Seq<char>>)
    requires
        forall|i: int|
            0 <= i < comps.len() ==> clean_component(#[trigger] comps[i]) && text::trim(comps[i])
                == comps[i],
    ensures
        resolved(comps, stack) == Some(stack + comps),
    decreases comps.len(),
{
    if comps.len() == 0 {
        assert(stack + comps =~= stack);
    } else {
        let c = comps[0];
        let rest = comps.skip(1);
        assert(forall|i: int| 0 <= i < rest.len() ==> (#[trigger] rest[i]) == comps[i + 1]);
        text::lemma_without(c, '\0', '/');
        lemma_resolved_keeps(rest, stack.push(c));
        assert(stack.push(c) + rest =~= stack + comps);
    }
}

// ----- laws of destinations -------------------------------------------------

proof fn lemma_below_shape(root: Seq<char>, comps: Seq<Seq<char>>)
    requires
        root.len() > 0,
        trimmed_path(root) == root,
        comps.len() > 0,
        forall|i: int| 0 <= i < comps.len() ==> clean_component(#[trigger] comps[i]),
    ensures
        below(root, comps).len() > 1,
        trimmed_path(below(root, comps)) == below(root, comps),
        below(root, comps).skip(name_start(below(root, comps))) == comps.last(),
        trimmed_path(below(root, comps).take(name_start(below(root, comps)))) == below(
            root,
            comps.drop_last(),
        ),
    decreases comps.len(),
{
    let front = comps.drop_last();
    let b = below(root, front);
    let c = comps.last();
    assert(c == comps[comps.len() - 1]);
    if front.len() > 0 {
        lemma_below_shape(root, front);
    }
    assert(b.len() > 0 && trimmed_path(b) == b);
    assert(c.contains(c[0]) && c.contains(c.last()));
    let sep = if b.last() == '/' {
        b
    } else {
        b + seq!['/']
    };
    let p = joined(b, c);
    assert(p =~= sep + c);
    lemma_name_start_of(sep, c);
    assert(p.take(sep.len() as int) =~= sep);
    assert(p.skip(sep.len() as int) =~= c);
    assert(trimmed_path(sep) == b) by {
        if b.last() != '/' {
            assert(sep.drop_last() =~= b);
        }
    }
    assert(p.last() == c.last());
    if c.last() == '.' {
        if c.len() == 1 {
            assert(c =~= seq!['.']);
        } else {
            assert(p[p.len() - 2] == c[c.len() - 2]);
            assert(c.contains(c[c.len() - 2]));
        }
    }
}

proof fn lemma_name_start_of(sep: Seq<char>, c: Seq<char>)
    requires
        sep.len() > 0,
        sep.last() == '/',
        !c.contains('/'),
    ensures
        name_start(sep + c) == sep.len(),
    decreases c.len(),
{
    let p = sep + c;
    if c.len() == 0 {
        assert(p =~= sep);
    } else {
        let d = c.drop_last();
        assert(c.contains(c.last()));
        assert(!d.contains('/')) by {
            if d.contains('/') {
                let i = choose|i: int| 0 <= i < d.len() && d[i] == '/';
                assert(c[i] == '/');
            }
        }
        lemma_name_start_of(sep, d);
        assert(p.drop_last() =~= sep + d);
    }
}

/// The partial file stands beside its target: same directory, the target's name with the
/// suffix of partial files.
pub proof fn law_part_file_beside_target(root: Seq<char>, comps: Seq<Seq<char>>)
    requires
        root.len() > 0,
        trimmed_path(root) == root,
        comps.len() > 0,
        forall|i: int| 0 <= i < comps.len() ==> clean_component(#[trigger] comps[i]),
    ensures
        part_path_of(below(root, comps)) == below(
            root,
            comps.drop_last().push(comps.last() + part_suffix()),
        ),
{
    lemma_below_shape(root, comps);
    let p = below(root, comps);
    let c = comps.last();
    assert(c == comps[comps.len() - 1]);
    assert(p != seq!['/']) by {
        assert(seq!['/'].len() == 1);
    }
    let next = comps.drop_last().push(c + part_suffix());
    assert(next.drop_last() =~= comps.drop_last());
    assert(last_name(p) == Some(c));
}

/// Whether a path is a directory followed by clean components, at least one.
pub open spec fn strictly_below(dir: Seq<char>, p: Seq<char>) -> bool {
    exists|comps: Seq<Seq<char>>|
        {
            &&& p == #[trigger] below(dir, comps)
            &&& comps.len() > 0
            &&& forall|i: int| 0 <= i < comps.len() ==> clean_component(#[trigger] comps[i])
        }
}

/// Whether a path lies inside a directory, which may be written with trailing separators and
/// trailing `.` components or without them.
pub open spec fn lies_inside(dir: Seq<char>, p: Seq<char>) -> bool {
    strictly_below(dir, p) || strictly_below(trimmed_path(dir), p)
}

proof fn lemma_below_append(root: Seq<char>, a: Seq<Seq<char>>, b: Seq<Seq<char>>)
    ensures
        below(root, a + b) == below(below(root, a), b),
    decreases b.len(),
{
    if b.len() == 0 {
        assert(a + b =~= a);
    } else {
        assert((a + b).drop_last() =~= a + b.drop_last());
        lemma_below_append(root, a, b.drop_last());
    }
}

/// One clean component behind a directory: the shape of the path that it makes.
proof fn lemma_child_shape(dir: Seq<char>, c: Seq<char>)
    requires
        clean_component(c),
    ensures
        joined(dir, c).len() > 0,
        trimmed_path(joined(dir, c)) == joined(dir, c),
        last_name(joined(dir, c)) == Some(c),
        parent(joined(dir, c)) == Some(trimmed_path(dir)),
{
    let p = joined(dir, c);
    assert(c.contains(c[0]) && c.contains(c.last()));
    let sep = if dir.len() == 0 || dir.last() == '/' {
        dir
    } else {
        dir + seq!['/']
    };
    assert(p =~= sep + c);
    assert(p.last() == c.last());
    if c.last() == '.' {
        if c.len() == 1 {
            assert(c =~= seq!['.']);
        } else {
            assert(p[p.len() - 2] == c[c.len() - 2]);
            assert(c.contains(c[c.len() - 2]));
        }
    }
    assert(trimmed_path(p) == p);
    if sep.len() == 0 {
        assert(p =~= c);
        lemma_name_start_plain(c);
    } else {
        lemma_name_start_of(sep, c);
    }
    assert(p.take(sep.len() as int) =~= sep);
    assert(p.skip(sep.len() as int) =~= c);
    assert(trimmed_path(sep) == trimmed_path(dir)) by {
        if dir.len() > 0 && dir.last() != '/' {
            assert(sep.drop_last() =~= dir);
        }
    }
    assert(p != seq!['/']) by {
        if p == seq!['/'] {
            assert(p.last() == '/');
        }
    }
}

proof fn lemma_name_start_plain(c: Seq<char>)
    requires
        !c.contains('/'),
    ensures
        name_start(c) == 0,
    decreases c.len(),
{
    if c.len() > 0 {
        let d = c.drop_last();
        assert(c.contains(c.last()));
        assert(!d.contains('/')) by {
            if d.contains('/') {
                let i = choose|i: int| 0 <= i < d.len() && d[i] == '/';
                assert(c[i] == '/');
            }
        }
        lemma_name_start_plain(d);
    }
}

proof fn lemma_relative_clean(rel: Seq<char>)
    ensures
        relative_components(rel) matches Some(comps) ==> clean_components(comps),
{
    text::lemma_split_from_clean(Seq::empty(), rel, '/');
    lemma_resolved_clean(text::split(rel, '/'), Seq::empty());
}

/// A tree is received below the chosen directory: what is offered under any name is either
/// refused, or goes to a path that is that directory followed by clean components, at least one.
pub proof fn law_root_below_dest_dir(dest_dir: Seq<char>, root_name: Seq<char>)
    ensures
        received_root(dest_dir, root_name) matches Some(root) ==> {
            &&& clean_components(received_components(root_name)->0)
            &&& root == below(dest_dir, received_components(root_name)->0)
            &&& lies_inside(dest_dir, root)
            &&& dest_dir.is_prefix_of(root)
        },
{
    if let Some(comps) = received_components(root_name) {
        lemma_relative_clean(sanitized(root_name));
        lemma_below_prefix(dest_dir, comps);
    }
}

/// A name is refused only where joining it below the chosen directory is refused, or where it
/// names that directory itself.
pub proof fn law_refused_roots(dest_dir: Seq<char>, root_name: Seq<char>)
    ensures
        received_root(dest_dir, root_name) is Some <==> joined_safely(
            dest_dir,
            sanitized(root_name),
        ) is Some && relative_components(sanitized(root_name)) != Some(Seq::<Seq<char>>::empty()),
        received_root(dest_dir, root_name) is Some ==> received_root(dest_dir, root_name)
            == joined_safely(dest_dir, sanitized(root_name)),
{
    if let Some(comps) = relative_components(sanitized(root_name)) {
        if comps.len() == 0 {
            assert(comps =~= Seq::empty());
        }
    }
}

/// A name without separators is received as one entry of the chosen directory, under its
/// sanitized form.
pub proof fn law_plain_name_is_received(dest_dir: Seq<char>, root_name: Seq<char>)
    requires
        !root_name.contains('/'),
    ensures
        received_components(root_name) == Some(seq![sanitized(root_name)]),
        received_root(dest_dir, root_name) == Some(joined(dest_dir, sanitized(root_name))),
{
    let name = sanitized(root_name);
    law_sanitized_is_clean(root_name);
    lemma_sanitized_trimmed(root_name);
    let one = seq![name];
    assert(forall|i: int|
        0 <= i < one.len() ==> clean_component(#[trigger] one[i]) && text::trim(one[i]) == one[i]);
    lemma_split_slash_joined(one);
    lemma_resolved_keeps(one, Seq::empty());
    assert(Seq::<Seq<char>>::empty() + one =~= one);
    assert(slash_joined(one) == name);
    assert(name.contains(name[0]));
    assert(one.drop_last() =~= Seq::empty());
    assert(below(dest_dir, Seq::<Seq<char>>::empty()) == dest_dir);
    assert(below(dest_dir, one) == joined(dest_dir, name));
}

/// The name under which a sender offers a tree is never refused.
pub proof fn law_offered_name_is_received(root: Seq<char>)
    ensures
        received_components(offered_name(root)) == Some(seq![sanitized(offered_name(root))]),
{
    let n = offered_name(root);
    lemma_last_name_has_no_separator(root);
    reveal_strlit("drop");
    assert(!n.contains('/')) by {
        if last_name(root) is None {
            assert(n[0] == 'd' && n[1] == 'r' && n[2] == 'o' && n[3] == 'p');
        }
    }
    law_plain_name_is_received(Seq::empty(), n);
}

/// What a receiver touches for an entry lies inside the chosen directory, and the directory that
/// the entry needs lies there too or is the chosen one.
pub proof fn lemma_entry_inside(dest_dir: Seq<char>, names: Seq<Seq<char>>, rel: Seq<char>)
    requires
        names.len() > 0,
        clean_components(names),
        joined_safely(below(dest_dir, names), rel) is Some,
    ensures
        ({
            let p = joined_safely(below(dest_dir, names), rel)->0;
            &&& lies_inside(dest_dir, p)
            &&& lies_inside(dest_dir, part_path_of(p))
            &&& parent(p) matches Some(d) ==> lies_inside(dest_dir, d) || d == trimmed_path(
                dest_dir,
            )
        }),
{
    let root = below(dest_dir, names);
    let p = joined_safely(root, rel)->0;
    let comps = relative_components(rel)->0;
    lemma_relative_clean(rel);
    let outer = names.drop_last();
    let name = names.last();
    assert(name == names[names.len() - 1]);
    assert(forall|i: int| 0 <= i < outer.len() ==> (#[trigger] outer[i]) == names[i]);
    assert(below(dest_dir, Seq::<Seq<char>>::empty()) == dest_dir);
    lemma_child_shape(below(dest_dir, outer), name);
    lemma_below_append(dest_dir, names, comps);
    let all = names + comps;
    assert(forall|i: int| 0 <= i < all.len() ==> clean_component(#[trigger] all[i]));
    assert(p == below(dest_dir, all));
    if comps.len() == 0 {
        let part = name + part_suffix();
        lemma_part_clean(name);
        if outer.len() == 0 {
            assert(outer =~= Seq::empty());
            let d = trimmed_path(dest_dir);
            let beside = seq![part];
            assert(beside.drop_last() =~= Seq::empty());
            assert(below(d, Seq::<Seq<char>>::empty()) == d);
            assert(below(d, beside) == joined(d, part));
            assert(forall|i: int|
                0 <= i < beside.len() ==> clean_component(#[trigger] beside[i]));
            assert(part_path_of(p) == below(d, beside));
        } else {
            let last = outer.last();
            assert(last == outer[outer.len() - 1]);
            lemma_child_shape(below(dest_dir, outer.drop_last()), last);
            assert(trimmed_path(below(dest_dir, outer)) == below(dest_dir, outer));
            let beside = outer.push(part);
            assert(beside.drop_last() =~= outer);
            assert(forall|i: int|
                0 <= i < beside.len() ==> clean_component(#[trigger] beside[i]));
            assert(part_path_of(p) == below(dest_dir, beside));
        }
    } else {
        law_part_file_beside_target(root, comps);
        lemma_below_shape(root, comps);
        let front = comps.drop_last();
        let last = comps.last();
        assert(last == comps[comps.len() - 1]);
        let beside = front.push(last + part_suffix());
        lemma_part_clean(last);
        lemma_below_append(dest_dir, names, beside);
        let all_beside = names + beside;
        assert(forall|i: int| 0 <= i < front.len() ==> (#[trigger] front[i]) == comps[i]);
        assert(forall|i: int|
            0 <= i < all_beside.len() ==> clean_component(#[trigger] all_beside[i]));
        assert(part_path_of(p) == below(dest_dir, all_beside));
        lemma_below_append(dest_dir, names, front);
        let all_front = names + front;
        assert(forall|i: int|
            0 <= i < all_front.len() ==> clean_component(#[trigger] all_front[i]));
        assert(p != seq!['/']) by {
            assert(seq!['/'].len() == 1);
        }
        assert(parent(p) == Some(below(dest_dir, all_front)));
    }
}

proof fn lemma_part_clean(c: Seq<char>)
    requires
        clean_component(c),
    ensures
        clean_component(c + part_suffix()),
{
    reveal_strlit(".lanmouse.part");
    let p = c + part_suffix();
    let s = part_suffix();
    assert(s.len() == 14);
    assert(forall|i: int| 0 <= i < 14 ==> #[trigger] s[i] != '/' && s[i] != '\0');
    if p.contains('/') {
        let i = choose|i: int| 0 <= i < p.len() && p[i] == '/';
        if i < c.len() {
            assert(c[i] == '/');
        } else {
            assert(s[i - c.len()] == '/');
        }
    }
    if p.contains('\0') {
        let i = choose|i: int| 0 <= i < p.len() && p[i] == '\0';
        if i < c.len() {
            assert(c[i] == '\0');
        } else {
            assert(s[i - c.len()] == '\0');
        }
    }
    assert(seq!['.'].len() == 1 && seq!['.', '.'].len() == 2);
}

// ----- paths of this system -------------------------------------------------

/// A path of this system with `/` between its components: on Windows each `\` becomes `/`.
pub open spec fn slashed(path: Seq<char>, windows: bool) -> Seq<char> {
    if windows {
        Seq::new(
            path.len(),
            |i: int|
                if path[i] == '\\' {
                    '/'
                } else {
                    path[i]
                },
        )
    } else {
        path
    }
}

/// A path of this system with `/` between its components (see [`slashed`]).
pub fn wire_path(path: &str, windows: bool) -> (r: String)
    ensures
        r@ == slashed(path@, windows),
{
    if !windows {
        return path.to_owned();
    }
    let chars: Vec<char> = text::chars_of(path);
    let n: usize = chars.len();
    let mut r: String = String::new();
    let mut i: usize = 0;
    assert(r@ =~= slashed(path@, true).take(0));
    while i < n
        invariant
            chars@ == path@,
            n == chars@.len(),
            i <= n,
            r@ == slashed(path@, true).take(i as int),
        decreases n - i,
    {
        let c: char = if chars[i] == '\\' {
            '/'
        } else {
            chars[i]
        };
        r.push(c);
        i += 1;
        assert(r@ =~= slashed(path@, true).take(i as int));
    }
    assert(slashed(path@, true).take(n as int) =~= slashed(path@, true));
    r
}

/// Whether a component starts with a drive of Windows, such as `C:`.
pub open spec fn names_drive(comp: Seq<char>) -> bool {
    &&& comp.len() >= 2
    &&& comp[1] == ':'
    &&& ('a' <= comp[0] && comp[0] <= 'z') || ('A' <= comp[0] && comp[0] <= 'Z')
}

/// Whether some component of a path starts with a drive, once sanitized.
pub open spec fn holds_drive(path: Seq<char>) -> bool {
    exists|i: int|
        0 <= i < text::split(path, '/').len() && names_drive(
            sanitized(#[trigger] text::split(path, '/')[i]),
        )
}

/// A path that a peer has sent, as it is taken here. On Windows both separators count, and a path
/// that holds a drive becomes absolute, so that it is refused.
pub open spec fn from_peer(path: Seq<char>, windows: bool) -> Seq<char> {
    if windows && holds_drive(slashed(path, true)) {
        seq!['/'] + slashed(path, true)
    } else {
        slashed(path, windows)
    }
}

/// A path that a peer has sent, as it is taken here (see [`from_peer`]).
pub fn peer_path(path: &str, windows: bool) -> (r: String)
    ensures
        r@ == from_peer(path@, windows),
{
    let plain: String = wire_path(path, windows);
    if !windows {
        return plain;
    }
    let chars: Vec<char> = text::chars_of(plain.as_str());
    let pieces: Vec<String> = text::split_chars(chars.as_slice(), '/');
    let ghost all = text::views(pieces@);
    let n: usize = pieces.len();
    let mut i: usize = 0;
    while i < n
        invariant
            plain@ == slashed(path@, true),
            windows,
            all == text::views(pieces@),
            all == text::split(plain@, '/'),
            n == pieces@.len(),
            i <= n,
            forall|j: int| 0 <= j < i ==> !names_drive(sanitized(#[trigger] all[j])),
        decreases n - i,
    {
        let name: String = sanitize_component(pieces[i].as_str());
        let c: Vec<char> = text::chars_of(name.as_str());
        assert(all[i as int] == pieces@[i as int]@);
        if c.len() >= 2 && c[1] == ':' && (('a' <= c[0] && c[0] <= 'z') || ('A' <= c[0] && c[0]
            <= 'Z')) {
            let mut r: String = String::new();
            r.push('/');
            r.append(plain.as_str());
            assert(names_drive(sanitized(text::split(plain@, '/')[i as int])));
            assert(r@ =~= seq!['/'] + plain@);
            return r;
        }
        i += 1;
    }
    plain
}

/// Sanitizing adds no character but `_`.
proof fn lemma_sanitized_chars(raw: Seq<char>, c: char)
    requires
        c != '_',
        !raw.contains(c),
    ensures
        !sanitized(raw).contains(c),
{
    let w = text::without(raw, '\0');
    text::lemma_without(raw, '\0', c);
    text::lemma_trim_within(w);
    let (i, j) = choose|i: int, j: int|
        0 <= i <= j <= w.len() && text::trim(w) == #[trigger] w.subrange(i, j);
    let s = w.subrange(i, j);
    if s.contains(c) {
        let k = choose|k: int| 0 <= k < s.len() && s[k] == c;
        assert(w[i + k] == c);
    }
    assert(seq!['_'][0] == '_');
}

/// Splitting adds no character.
proof fn lemma_split_chars(cur: Seq<char>, rest: Seq<char>, sep: char, c: char)
    requires
        !cur.contains(c),
        !rest.contains(c),
    ensures
        forall|i: int|
            0 <= i < text::split_from(cur, rest, sep).len() ==> !(#[trigger] text::split_from(
                cur,
                rest,
                sep,
            )[i]).contains(c),
    decreases rest.len(),
{
    if rest.len() > 0 {
        let tail = rest.skip(1);
        assert(rest.contains(rest[0]));
        assert(!tail.contains(c)) by {
            if tail.contains(c) {
                let i = choose|i: int| 0 <= i < tail.len() && tail[i] == c;
                assert(rest[i + 1] == c);
            }
        }
        if rest[0] == sep {
            lemma_split_chars(Seq::empty(), tail, sep, c);
            let later = text::split_from(Seq::empty(), tail, sep);
            let all = text::split_from(cur, rest, sep);
            assert forall|i: int| 0 <= i < all.len() implies !(#[trigger] all[i]).contains(c) by {
                if i > 0 {
                    assert(all[i] == later[i - 1]);
                }
            }
        } else {
            let next = cur.push(rest[0]);
            assert(!next.contains(c)) by {
                if next.contains(c) {
                    let i = choose|i: int| 0 <= i < next.len() && next[i] == c;
                    if i < cur.len() {
                        assert(cur[i] == c);
                    }
                }
            }
            lemma_split_chars(next, tail, sep, c);
            assert(text::split_from(cur, rest, sep) == text::split_from(next, tail, sep));
        }
    } else {
        let all = text::split_from(cur, rest, sep);
        assert(all == seq![cur]);
        assert forall|i: int| 0 <= i < all.len() implies !(#[trigger] all[i]).contains(c) by {}
    }
}

/// What resolving leaves are sanitized pieces.
proof fn lemma_resolved_from(
    pieces: Seq<Seq<char>>,
    stack: Seq<Seq<char>>,
    p: spec_fn(Seq<char>) -> bool,
)
    requires
        forall|i: int| 0 <= i < pieces.len() ==> p(sanitized(#[trigger] pieces[i])),
        forall|i: int| 0 <= i < stack.len() ==> p(#[trigger] stack[i]),
    ensures
        resolved(pieces, stack) matches Some(comps) ==> forall|i: int|
            0 <= i < comps.len() ==> p(#[trigger] comps[i]),
    decreases pieces.len(),
{
    if pieces.len() > 0 {
        let q = pieces[0];
        let rest = pieces.skip(1);
        assert(forall|i: int| 0 <= i < rest.len() ==> (#[trigger] rest[i]) == pieces[i + 1]);
        if q.len() == 0 || q == seq!['.'] {
            lemma_resolved_from(rest, stack, p);
        } else if q == seq!['.', '.'] {
            if stack.len() > 0 {
                lemma_resolved_from(rest, stack.drop_last(), p);
            }
        } else {
            lemma_resolved_from(rest, stack.push(sanitized(q)), p);
        }
    }
}

/// On Windows a path that a peer sends is refused where it holds a drive, and where it starts with
/// a separator of either kind or with a `..` before one; as the name of a tree it is refused then
/// too.
pub proof fn law_peer_path_refused(root: Seq<char>, path: Seq<char>)
    ensures
        holds_drive(slashed(path, true)) ==> joined_safely(root, from_peer(path, true)) is None
            && received_components(from_peer(path, true)) is None,
        path.len() > 0 && (path[0] == '/' || path[0] == '\\') ==> joined_safely(
            root,
            from_peer(path, true),
        ) is None,
        path.len() > 2 && path[0] == '.' && path[1] == '.' && (path[2] == '/' || path[2] == '\\')
            ==> joined_safely(root, from_peer(path, true)) is None,
{
    let plain = slashed(path, true);
    let taken = from_peer(path, true);
    if holds_drive(plain) {
        assert(taken[0] == '/');
        lemma_absolute_sanitized(taken);
    }
    if path.len() > 2 && path[0] == '.' && path[1] == '.' && !holds_drive(plain) {
        let rest = plain.skip(3);
        if plain[2] == '/' {
            assert(plain =~= seq!['.', '.', '/'] + rest);
            law_safe_join_rejects_escapes(root, rest);
        }
    }
}

/// An absolute path stays absolute when it is sanitized.
proof fn lemma_absolute_sanitized(path: Seq<char>)
    requires
        path.len() > 0,
        path[0] == '/',
    ensures
        sanitized(path).len() > 0,
        sanitized(path)[0] == '/',
{
    let w = text::without(path, '\0');
    lemma_without_first(path, '\0');
    text::lemma_trim_keeps_first(w);
    let t = text::trim(w);
    assert(t[0] == '/');
    assert(seq!['.'][0] == '.' && seq!['.', '.'][0] == '.');
}

proof fn lemma_without_first(s: Seq<char>, c: char)
    requires
        s.len() > 0,
        s[0] != c,
    ensures
        text::without(s, c).len() > 0,
        text::without(s, c)[0] == s[0],
    decreases s.len(),
{
    if s.len() > 1 {
        lemma_without_first(s.drop_last(), c);
    } else {
        assert(s.drop_last() =~= Seq::empty());
        assert(text::without(s.drop_last(), c) =~= Seq::empty());
    }
}

/// On Windows a path that a peer sends and that is accepted stays inside the root: it is the root
/// followed by clean components, and none of them holds a `\` or starts with a drive.
pub proof fn law_peer_path_inside_root(root: Seq<char>, path: Seq<char>)
    ensures
        joined_safely(root, from_peer(path, true)) matches Some(p) ==> {
            &&& root.is_prefix_of(p)
            &&& exists|comps: Seq<Seq<char>>|
                {
                    &&& p == #[trigger] below(root, comps)
                    &&& clean_components(comps)
                    &&& forall|i: int|
                        0 <= i < comps.len() ==> !(#[trigger] comps[i]).contains('\\')
                            && !names_drive(comps[i])
                }
        },
{
    let taken = from_peer(path, true);
    if let Some(comps) = relative_components(taken) {
        let plain = slashed(path, true);
        if holds_drive(plain) {
            assert(taken[0] == '/');
        }
        assert(taken == plain);
        assert(!plain.contains('\\')) by {
            if plain.contains('\\') {
                let i = choose|i: int| 0 <= i < plain.len() && plain[i] == '\\';
                assert(plain[i] != '\\');
            }
        }
        let pieces = text::split(plain, '/');
        lemma_split_chars(Seq::empty(), plain, '/', '\\');
        let p = |c: Seq<char>| !c.contains('\\') && !names_drive(c);
        assert forall|i: int| 0 <= i < pieces.len() implies p(sanitized(#[trigger] pieces[i])) by {
            lemma_sanitized_chars(pieces[i], '\\');
        }
        lemma_resolved_from(pieces, Seq::empty(), p);
        law_safe_join_inside_root(root, taken);
        lemma_relative_clean(taken);
        lemma_below_prefix(root, comps);
        assert(forall|i: int| 0 <= i < comps.len() ==> p(#[trigger] comps[i]));
        assert(joined_safely(root, taken) == Some(below(root, comps)));
    }
}

/// A path of Windows keeps its last component when it is taken over: the name behind the last
/// separator of either kind.
pub proof fn law_wire_path_keeps_name(dir: Seq<char>, name: Seq<char>)
    requires
        clean_component(name),
        !name.contains('\\'),
    ensures
        last_name(slashed(dir + seq!['\\'] + name, true)) == Some(name),
        offered_name(slashed(dir + seq!['\\'] + name, true)) == name,
{
    let whole = slashed(dir + seq!['\\'] + name, true);
    let d = slashed(dir, true);
    let sep = d + seq!['/'];
    assert forall|i: int| 0 <= i < name.len() implies name[i] != '\\' by {
        assert(name.contains(name[i]));
    }
    assert(whole =~= sep + name);
    assert(name.contains(name[0]));
    assert(joined(sep, name) =~= whole);
    lemma_child_shape(sep, name);
}

// ----- what paths are made of -----------------------------------------------

/// A name without nul and outer white space that is not reserved stays as it is; a nul is dropped
/// wherever it stands, and white space around a name counts for nothing.
pub proof fn law_sanitized(name: Seq<char>, a: Seq<char>, b: Seq<char>, c: char)
    ensures
        !name.contains('\0') && text::trim(name) == name && name.len() > 0 && name != seq!['.']
            && name != seq!['.', '.'] ==> sanitized(name) == name,
        sanitized(a + seq!['\0'] + b) == sanitized(a + b),
        text::is_white(c) ==> sanitized(seq![c] + name) == sanitized(name) && sanitized(
            name.push(c),
        ) == sanitized(name),
        sanitized(Seq::empty()) == seq!['_'],
        sanitized(seq!['.']) == seq!['_'],
        sanitized(seq!['.', '.']) == seq!['_'],
{
    text::lemma_without(name, '\0', c);
    text::law_without(a + seq!['\0'] + b, '\0');
    text::law_without(a + b, '\0');
    let p = |d: char| d != '\0';
    Seq::filter_distributes_over_add(a + seq!['\0'], b, p);
    Seq::filter_distributes_over_add(a, seq!['\0'], p);
    Seq::filter_distributes_over_add(a, b, p);
    assert(seq!['\0'].filter(p) =~= Seq::empty()) by {
        reveal_with_fuel(Seq::filter, 2);
        assert(seq!['\0'].drop_last() =~= Seq::empty());
        assert(!p(seq!['\0'].last()));
    }
    assert(a.filter(p) + Seq::empty() + b.filter(p) =~= a.filter(p) + b.filter(p));
    let w = text::without(name, '\0');
    if text::is_white(c) {
        assert(c != '\0');
        let x = seq![c] + name;
        let y = name.push(c);
        text::law_without(x, '\0');
        text::law_without(name, '\0');
        Seq::filter_distributes_over_add(seq![c], name, p);
        assert(seq![c].filter(p) =~= seq![c]) by {
            reveal_with_fuel(Seq::filter, 2);
            assert(seq![c].drop_last() =~= Seq::empty());
        }
        assert(text::without(x, '\0') == seq![c] + w);
        assert(y.drop_last() =~= name);
        assert(text::without(y, '\0') == w.push(c));
        assert((seq![c] + w).skip(1) =~= w);
        assert(text::trim(seq![c] + w) == text::trim(w));
        text::lemma_trim_pushed(w, c);
    }
    let none = Seq::<char>::empty();
    assert(text::without(none, '\0') == none);
    assert(text::trim(none) == none);
    let dot = seq!['.'];
    let dots = seq!['.', '.'];
    assert(dot.drop_last() =~= none);
    assert(dots.drop_last() =~= dot);
    assert(text::without(dot, '\0') =~= dot);
    assert(text::without(dots, '\0') =~= dots);
    assert(text::trim(dot) == dot);
    assert(text::trim(dots) == dots);
}

/// The name of what lies in a directory is its last component, and the directory is its parent;
/// separators behind a path count for nothing.
pub proof fn law_last_name(dir: Seq<char>, name: Seq<char>, p: Seq<char>)
    requires
        clean_component(name),
    ensures
        last_name(dir.push('/') + name) == Some(name),
        offered_name(dir.push('/') + name) == name,
        last_name(name) == Some(name),
        p.len() > 0 ==> last_name(p.push('/')) == last_name(p) && parent(p.push('/')) == parent(p),
        p.len() > 0 ==> last_name(p.push('/').push('.')) == last_name(p),
        last_name(p.push('/') + seq!['.', '.']) is None,
        last_name(Seq::empty()) is None && parent(Seq::empty()) is None,
        last_name(seq!['/']) is None && parent(seq!['/']) is None,
        parent(dir.push('/') + name) == Some(trimmed_path(dir.push('/'))),
{
    let d = dir.push('/');
    assert(name.contains(name[0]));
    assert(d.last() == '/');
    lemma_child_shape(d, name);
    assert(joined(d, name) == d + name);
    lemma_child_shape(Seq::empty(), name);
    assert(joined(Seq::empty(), name) =~= name);
    if p.len() > 0 {
        assert(p.push('/').drop_last() =~= p);
        assert(trimmed_path(p.push('/')) == trimmed_path(p));
        let q = p.push('/').push('.');
        assert(q.drop_last() =~= p.push('/'));
        assert(trimmed_path(q) == trimmed_path(p.push('/')));
    }
    let up = p.push('/') + seq!['.', '.'];
    assert(up.last() == '.' && up[up.len() - 2] == '.');
    assert(trimmed_path(up) == up);
    let dots = seq!['.', '.'];
    assert(!dots.contains('/')) by {
        assert(dots[0] == '.' && dots[1] == '.');
    }
    assert(p.push('/').last() == '/');
    lemma_name_start_of(p.push('/'), dots);
    assert(up.skip(p.len() as int + 1) =~= dots);
    let root = seq!['/'];
    assert(trimmed_path(root) == root);
    assert(name_start(root) == 1);
    assert(root.skip(1) =~= Seq::empty());
}

/// A directory without separators behind it is the parent of what lies in it, and its partial file
/// lies beside it under its name and the suffix of partial files.
pub proof fn law_part_path(dir: Seq<char>, name: Seq<char>)
    requires
        clean_component(name),
        dir.len() > 0,
        dir.last() != '/',
        trimmed_path(dir) == dir,
    ensures
        parent(dir.push('/') + name) == Some(dir),
        part_path_of(dir.push('/') + name) == dir.push('/') + name + ".lanmouse.part"@,
{
    assert(name.contains(name[0]));
    lemma_child_shape(dir, name);
    let p = dir.push('/') + name;
    assert(joined(dir, name) =~= p);
    let whole = name + ".lanmouse.part"@;
    assert(whole[0] == name[0]);
    assert(joined(dir, whole) =~= p + ".lanmouse.part"@);
}

/// A path is resolved piece by piece: resolving pieces in two parts is resolving them at once.
pub proof fn law_resolved_in_parts(
    a: Seq<Seq<char>>,
    b: Seq<Seq<char>>,
    stack: Seq<Seq<char>>,
)
    ensures
        resolved(a + b, stack) == match resolved(a, stack) {
            Some(t) => resolved(b, t),
            None => None,
        },
    decreases a.len(),
{
    if a.len() == 0 {
        assert(a + b =~= b);
    } else {
        let p = a[0];
        assert((a + b).skip(1) =~= a.skip(1) + b);
        if p.len() == 0 || p == seq!['.'] {
            law_resolved_in_parts(a.skip(1), b, stack);
        } else if p == seq!['.', '.'] {
            if stack.len() > 0 {
                law_resolved_in_parts(a.skip(1), b, stack.drop_last());
            }
        } else {
            law_resolved_in_parts(a.skip(1), b, stack.push(sanitized(p)));
        }
    }
}

/// An empty piece and `.` name the directory itself, `..` the one above, anything else what lies in
/// the directory under the sanitized name; above the root there is nothing.
pub proof fn law_resolved_piece(p: Seq<char>, stack: Seq<Seq<char>>, c: Seq<char>)
    ensures
        resolved(seq![Seq::empty()], stack) == Some(stack),
        resolved(seq![seq!['.']], stack) == Some(stack),
        resolved(seq![seq!['.', '.']], stack.push(c)) == Some(stack),
        resolved(seq![seq!['.', '.']], Seq::empty()) is None,
        p.len() > 0 && p != seq!['.'] && p != seq!['.', '.'] ==> resolved(seq![p], stack) == Some(
            stack.push(sanitized(p)),
        ),
{
    reveal_with_fuel(resolved, 2);
    assert(stack.push(c).drop_last() =~= stack);
    assert(seq!['.', '.'].len() == 2 && seq!['.'].len() == 1);
}

/// A path below a root is the root with one component after the other joined to it.
pub proof fn law_below(root: Seq<char>, comps: Seq<Seq<char>>, c: Seq<char>)
    ensures
        below(root, Seq::empty()) == root,
        below(root, comps.push(c)) == joined(below(root, comps), c),
{
    assert(comps.push(c).drop_last() =~= comps);
}

/// On Windows each backslash of a path becomes a slash and every other character stays; elsewhere a
/// path is taken as it is, also one that a peer has sent.
pub proof fn law_slashed(path: Seq<char>, i: int)
    ensures
        slashed(path, false) == path,
        from_peer(path, false) == path,
        slashed(path, true).len() == path.len(),
        0 <= i < path.len() ==> slashed(path, true)[i] == if path[i] == '\\' {
            '/'
        } else {
            path[i]
        },
        !holds_drive(slashed(path, true)) ==> from_peer(path, true) == slashed(path, true),
{
}

/// A path holds a drive where one of its components does, that is, where it starts with a letter and
/// a colon once sanitized; a path without a colon holds none.
pub proof fn law_drives(path: Seq<char>, i: int)
    ensures
        ({
            let pieces = text::split(path, '/');
            let c = sanitized(pieces[i]);
            0 <= i < pieces.len() && c.len() >= 2 && c[1] == ':' && ('a' <= c[0] <= 'z' || 'A'
                <= c[0] <= 'Z') ==> holds_drive(path)
        }),
        !path.contains(':') ==> !holds_drive(path),
{
    if !path.contains(':') && holds_drive(path) {
        let pieces = text::split(path, '/');
        let k = choose|k: int|
            0 <= k < pieces.len() && names_drive(sanitized(#[trigger] pieces[k]));
        let piece = pieces[k];
        let w = text::without(piece, '\0');
        text::lemma_without(piece, '\0', ':');
        text::lemma_trim_within(w);
        let (a, b) = choose|a: int, b: int|
            0 <= a <= b <= w.len() && text::trim(w) == #[trigger] w.subrange(a, b);
        let c = sanitized(piece);
        assert(c == w.subrange(a, b));
        assert(w[a + 1] == ':');
        assert(w.contains(':'));
        text::lemma_split_chars(Seq::empty(), path, '/', k, ':');
    }
}

} // verus!

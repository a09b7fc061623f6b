//! Small collections kept in vectors.
use crate::net::SocketAddr;
use crate::text;
use vstd::prelude::*;

verus! {

/// The first element of a sequence for which `p` holds.
pub open spec fn first_where<A>(s: Seq<A>, p: spec_fn(A) -> bool) -> Option<A>
    decreases s.len(),
{
    if s.len() == 0 {
        None
    } else if p(s[0]) {
        Some(s[0])
    } else {
        first_where(s.skip(1), p)
    }
}

/// The first element for which `p` holds is the one that no such element comes before.
pub proof fn lemma_first_at<A>(s: Seq<A>, p: spec_fn(A) -> bool, i: int)
    requires
        0 <= i < s.len(),
        p(s[i]),
        forall|j: int| 0 <= j < i ==> !p(#[trigger] s[j]),
    ensures
        first_where(s, p) == Some(s[i]),
    decreases s.len(),
{
    if i > 0 {
        assert(!p(s[0]));
        let t = s.skip(1);
        assert forall|j: int| 0 <= j < i - 1 implies !p(#[trigger] t[j]) by {
            assert(!p(s[j + 1]));
        }
        lemma_first_at(t, p, i - 1);
    }
}

/// Where `p` holds of no element there is no first one.
pub proof fn lemma_first_none<A>(s: Seq<A>, p: spec_fn(A) -> bool)
    requires
        forall|j: int| 0 <= j < s.len() ==> !p(#[trigger] s[j]),
    ensures
        first_where(s, p) is None,
    decreases s.len(),
{
    if s.len() > 0 {
        assert(!p(s[0]));
        let t = s.skip(1);
        assert forall|j: int| 0 <= j < t.len() implies !p(#[trigger] t[j]) by {
            assert(!p(s[j + 1]));
        }
        lemma_first_none(t, p);
    }
}

/// The first element, where there is one, is an element for which `p` holds; where there is
/// none, `p` holds of no element.
pub proof fn lemma_first_is<A>(s: Seq<A>, p: spec_fn(A) -> bool)
    ensures
        match first_where(s, p) {
            Some(x) => p(x) && s.contains(x),
            None => forall|j: int| 0 <= j < s.len() ==> !p(#[trigger] s[j]),
        },
    decreases s.len(),
{
    if s.len() > 0 {
        if p(s[0]) {
            assert(s.contains(s[0]));
        } else {
            let t = s.skip(1);
            lemma_first_is(t, p);
            match first_where(t, p) {
                Some(x) => {
                    let k = choose|k: int| 0 <= k < t.len() && t[k] == x;
                    assert(s[k + 1] == x);
                },
                None => {
                    assert forall|j: int| 0 <= j < s.len() implies !p(#[trigger] s[j]) by {
                        if j > 0 {
                            assert(!p(t[j - 1]));
                        }
                    }
                },
            }
        }
    }
}

/// The position of the first element for which `p` holds; the length where there is none.
pub open spec fn index_where<A>(s: Seq<A>, p: spec_fn(A) -> bool) -> int
    decreases s.len(),
{
    if s.len() == 0 || p(s[0]) {
        0
    } else {
        1 + index_where(s.skip(1), p)
    }
}

/// What a position says.
pub proof fn lemma_index_at<A>(s: Seq<A>, p: spec_fn(A) -> bool, i: int)
    requires
        0 <= i <= s.len(),
        i < s.len() ==> p(s[i]),
        forall|j: int| 0 <= j < i ==> !p(#[trigger] s[j]),
    ensures
        index_where(s, p) == i,
    decreases s.len(),
{
    if i > 0 {
        assert(!p(s[0]));
        let t = s.skip(1);
        assert forall|j: int| 0 <= j < i - 1 implies !p(#[trigger] t[j]) by {
            assert(!p(s[j + 1]));
        }
        lemma_index_at(t, p, i - 1);
    }
}

/// The position of the first element for which `p` holds, with that element.
pub proof fn lemma_first_index<A>(s: Seq<A>, p: spec_fn(A) -> bool) -> (i: int)
    ensures
        0 <= i <= s.len(),
        i == index_where(s, p),
        forall|j: int| 0 <= j < i ==> !p(#[trigger] s[j]),
        i < s.len() ==> p(s[i]) && first_where(s, p) == Some(s[i]),
        i == s.len() ==> first_where(s, p) is None,
    decreases s.len(),
{
    if s.len() == 0 || p(s[0]) {
        0
    } else {
        let t = s.skip(1);
        let i = lemma_first_index(t, p);
        assert forall|j: int| 0 <= j < i + 1 implies !p(#[trigger] s[j]) by {
            if j > 0 {
                assert(!p(t[j - 1]));
            }
        }
        i + 1
    }
}

/// The elements for which `p` holds, in order.
pub open spec fn all_where<A>(s: Seq<A>, p: spec_fn(A) -> bool) -> Seq<A>
    decreases s.len(),
{
    if s.len() == 0 {
        Seq::empty()
    } else if p(s.last()) {
        all_where(s.drop_last(), p).push(s.last())
    } else {
        all_where(s.drop_last(), p)
    }
}

/// The sequence without the first element for which `p` holds.
pub open spec fn without_first<A>(s: Seq<A>, p: spec_fn(A) -> bool) -> Seq<A> {
    let i = index_where(s, p);
    if i < s.len() {
        s.remove(i)
    } else {
        s
    }
}

/// Values that can be told apart.
pub trait Same: Copy {
    /// Whether two values are the same.
    fn same(&self, other: &Self) -> (r: bool)
        ensures
            r == (*self == *other),
    ;
}

impl Same for u64 {
    fn same(&self, other: &Self) -> (r: bool) {
        *self == *other
    }
}

impl Same for SocketAddr {
    fn same(&self, other: &Self) -> (r: bool) {
        *self == *other
    }
}

/// A small set.
#[derive(Debug)]
pub struct SmallSet<T> {
    ids: Vec<T>,
}

/// A set of numbers.
pub type IdSet = SmallSet<u64>;

/// A set of socket addresses.
pub type AddrSet = SmallSet<SocketAddr>;

impl<T> View for SmallSet<T> {
    type V = Set<T>;

    closed spec fn view(&self) -> Set<T> {
        self.ids@.to_set()
    }
}

impl<T: Same> SmallSet<T> {
    /// Whether no element is held twice.
    pub closed spec fn wf(&self) -> bool {
        self.ids@.no_duplicates()
    }

    /// The empty set.
    pub fn new() -> (r: SmallSet<T>)
        ensures
            r.wf(),
            r@ == Set::<T>::empty(),
    {
        let r: SmallSet<T> = SmallSet { ids: Vec::new() };
        assert(r@ =~= Set::<T>::empty());
        r
    }

    fn position(&self, id: T) -> (r: Option<usize>)
        ensures
            match r {
                Some(i) => i < self.ids@.len() && self.ids@[i as int] == id,
                None => !self@.contains(id),
            },
    {
        let n: usize = self.ids.len();
        let mut i: usize = 0;
        while i < n
            invariant
                n == self.ids@.len(),
                i <= n,
                forall|j: int| 0 <= j < i ==> self.ids@[j] != id,
            decreases n - i,
        {
            if self.ids[i].same(&id) {
                return Some(i);
            }
            i += 1;
        }
        None
    }

    /// Whether an element is in the set.
    pub fn contains(&self, id: T) -> (r: bool)
        ensures
            r == self@.contains(id),
    {
        match self.position(id) {
            Some(i) => {
                assert(self.ids@.contains(self.ids@[i as int]));
                true
            },
            None => false,
        }
    }

    /// Adds an element; says whether it was new.
    pub fn insert(&mut self, id: T) -> (r: bool)
        ensures
            old(self).wf() ==> final(self).wf(),
            final(self)@ == old(self)@.insert(id),
            r == !old(self)@.contains(id),
    {
        if self.contains(id) {
            assert(self@ =~= old(self)@.insert(id));
            return false;
        }
        self.ids.push(id);
        proof {
            let o = old(self).ids@;
            assert forall|x: T| self.ids@.to_set().contains(x) <==> o.to_set().insert(
                id,
            ).contains(x) by {
                if o.contains(x) {
                    let i = choose|i: int| 0 <= i < o.len() && o[i] == x;
                    assert(self.ids@[i] == x);
                }
                if x == id {
                    assert(self.ids@[o.len() as int] == x);
                }
                if self.ids@.contains(x) && x != id {
                    let i = choose|i: int| 0 <= i < self.ids@.len() && self.ids@[i] == x;
                    assert(o[i] == x);
                }
            }
            assert(self@ =~= old(self)@.insert(id));
            assert forall|i: int, j: int|
                o.no_duplicates() && 0 <= i < self.ids@.len() && 0 <= j < self.ids@.len() && i
                    != j implies self.ids@[i] != self.ids@[j] by {
                if i == o.len() {
                    assert(o.contains(o[j]));
                } else if j == o.len() {
                    assert(o.contains(o[i]));
                }
            }
        }
        true
    }

    /// Takes an element out; says whether it was there.
    pub fn remove(&mut self, id: T) -> (r: bool)
        ensures
            old(self).wf() ==> final(self).wf(),
            final(self)@ == old(self)@.remove(id),
            r == old(self)@.contains(id),
    {
        let found: bool = self.contains(id);
        let ghost o = self.ids@;
        let mut kept: Vec<T> = Vec::new();
        let n: usize = self.ids.len();
        let mut i: usize = 0;
        while i < n
            invariant
                o == self.ids@,
                n == o.len(),
                i <= n,
                forall|x: T| #[trigger] kept@.contains(x) ==> x != id && o.take(i as int).contains(x),
                forall|k: int| 0 <= k < i && o[k] != id ==> kept@.contains(#[trigger] o[k]),
                o.no_duplicates() ==> kept@.no_duplicates(),
            decreases n - i,
        {
            let x: T = self.ids[i];
            let ghost before = kept@;
            if !x.same(&id) {
                kept.push(x);
                proof {
                    assert(kept@[before.len() as int] == x);
                    assert forall|y: T| before.contains(y) implies kept@.contains(y) by {
                        let k = choose|k: int| 0 <= k < before.len() && before[k] == y;
                        assert(kept@[k] == y);
                    }
                    assert forall|y: T| kept@.contains(y) implies y == x || before.contains(
                        y,
                    ) by {
                        let k = choose|k: int| 0 <= k < kept@.len() && kept@[k] == y;
                        if k < before.len() {
                            assert(before[k] == y);
                        }
                    }
                    if o.no_duplicates() {
                        assert forall|a: int, b: int|
                            0 <= a < kept@.len() && 0 <= b < kept@.len() && a
                                != b implies kept@[a] != kept@[b] by {
                            if a == before.len() || b == before.len() {
                                let c = if a == before.len() {
                                    b
                                } else {
                                    a
                                };
                                assert(before.contains(before[c]));
                                assert(o.take(i as int).contains(before[c]));
                            }
                        }
                    }
                }
            }
            proof {
                let t = o.take(i as int);
                let u = o.take(i + 1);
                assert(u[i as int] == x);
                assert forall|y: T| t.contains(y) implies u.contains(y) by {
                    let k = choose|k: int| 0 <= k < t.len() && t[k] == y;
                    assert(u[k] == y);
                }
                assert forall|y: T| #[trigger] kept@.contains(y) implies y != id && u.contains(
                    y,
                ) by {
                    if before.contains(y) {
                        assert(t.contains(y));
                    } else {
                        assert(y == x);
                    }
                }
            }
            i += 1;
        }
        proof {
            assert(o.take(n as int) =~= o);
            assert forall|x: T| kept@.to_set().contains(x) <==> o.to_set().remove(id).contains(
                x,
            ) by {
                if o.contains(x) && x != id {
                    let k = choose|k: int| 0 <= k < o.len() && o[k] == x;
                    assert(kept@.contains(o[k]));
                }
            }
            assert(kept@.to_set() =~= o.to_set().remove(id));
        }
        self.ids = kept;
        found
    }
}

/// A text under a textual key.
#[derive(Debug)]
pub struct StrEntry {
    /// Key.
    pub key: String,
    /// Value.
    pub value: String,
}

/// The map that a list of entries makes; a later entry wins.
pub open spec fn map_of(entries: Seq<StrEntry>) -> Map<Seq<char>, Seq<char>>
    decreases entries.len(),
{
    if entries.len() == 0 {
        Map::empty()
    } else {
        map_of(entries.drop_last()).insert(entries.last().key@, entries.last().value@)
    }
}

/// Whether no key occurs twice.
pub open spec fn keys_unique(entries: Seq<StrEntry>) -> bool {
    forall|i: int, j: int|
        0 <= i < j < entries.len() ==> (#[trigger] entries[i]).key@ != (#[trigger] entries[j]).key@
}

proof fn lemma_map_of_dom(entries: Seq<StrEntry>, k: Seq<char>)
    ensures
        map_of(entries).dom().contains(k) <==> exists|i: int|
            0 <= i < entries.len() && (#[trigger] entries[i]).key@ == k,
    decreases entries.len(),
{
    if entries.len() > 0 {
        let t = entries.drop_last();
        lemma_map_of_dom(t, k);
        if map_of(t).dom().contains(k) {
            let i = choose|i: int| 0 <= i < t.len() && (#[trigger] t[i]).key@ == k;
            assert(entries[i].key@ == k);
        }
        if entries.last().key@ == k {
            assert(entries[entries.len() - 1].key@ == k);
        }
        if exists|i: int| 0 <= i < entries.len() && (#[trigger] entries[i]).key@ == k {
            let i = choose|i: int| 0 <= i < entries.len() && (#[trigger] entries[i]).key@ == k;
            if i < t.len() {
                assert(t[i].key@ == k);
            }
        }
    }
}

proof fn lemma_map_of_value(entries: Seq<StrEntry>, i: int)
    requires
        keys_unique(entries),
        0 <= i < entries.len(),
    ensures
        map_of(entries)[entries[i].key@] == entries[i].value@,
    decreases entries.len(),
{
    if i < entries.len() - 1 {
        let t = entries.drop_last();
        assert forall|a: int, b: int| 0 <= a < b < t.len() implies (#[trigger] t[a]).key@ != (
        #[trigger] t[b]).key@ by {
            assert(entries[a].key@ != entries[b].key@);
        }
        lemma_map_of_value(t, i);
        assert(t[i] == entries[i]);
        assert(entries[i].key@ != entries[entries.len() - 1].key@);
    }
}

proof fn lemma_map_of_remove(entries: Seq<StrEntry>, i: int)
    requires
        keys_unique(entries),
        0 <= i < entries.len(),
    ensures
        map_of(entries.remove(i)) == map_of(entries).remove(entries[i].key@),
        keys_unique(entries.remove(i)),
    decreases entries.len(),
{
    let k = entries[i].key@;
    let t = entries.drop_last();
    let r = entries.remove(i);
    assert forall|a: int, b: int| 0 <= a < b < r.len() implies (#[trigger] r[a]).key@ != (
    #[trigger] r[b]).key@ by {
        let a2 = if a < i {
            a
        } else {
            a + 1
        };
        let b2 = if b < i {
            b
        } else {
            b + 1
        };
        assert(entries[a2].key@ != entries[b2].key@);
    }
    assert forall|a: int, b: int| 0 <= a < b < t.len() implies (#[trigger] t[a]).key@ != (
    #[trigger] t[b]).key@ by {
        assert(entries[a].key@ != entries[b].key@);
    }
    if i == entries.len() - 1 {
        assert(r =~= t);
        lemma_map_of_dom(t, k);
        assert(!map_of(t).dom().contains(k)) by {
            if map_of(t).dom().contains(k) {
                let j = choose|j: int| 0 <= j < t.len() && (#[trigger] t[j]).key@ == k;
                assert(entries[j].key@ != entries[i].key@);
            }
        }
        assert(map_of(t) =~= map_of(entries).remove(k));
    } else {
        lemma_map_of_remove(t, i);
        assert(t[i] == entries[i]);
        assert(r.drop_last() =~= t.remove(i));
        assert(r.last() == entries.last());
        assert(entries[i].key@ != entries[entries.len() - 1].key@);
        assert(map_of(r) =~= map_of(entries).remove(k));
    }
}

/// A map from texts to texts.
#[derive(Debug)]
pub struct StrMap {
    entries: Vec<StrEntry>,
}

impl View for StrMap {
    type V = Map<Seq<char>, Seq<char>>;

    closed spec fn view(&self) -> Map<Seq<char>, Seq<char>> {
        map_of(self.entries@)
    }
}

impl StrMap {
    /// Whether no key is held twice.
    pub closed spec fn wf(&self) -> bool {
        keys_unique(self.entries@)
    }

    /// The empty map.
    pub fn new() -> (r: StrMap)
        ensures
            r.wf(),
            r@ == Map::<Seq<char>, Seq<char>>::empty(),
    {
        StrMap { entries: Vec::new() }
    }

    /// The entries, in the order of their last insertion.
    pub fn entries(&self) -> (r: &Vec<StrEntry>)
        requires
            self.wf(),
        ensures
            map_of(r@) == self@,
            keys_unique(r@),
    {
        &self.entries
    }

    fn position(&self, key: &str) -> (r: Option<usize>)
        ensures
            match r {
                Some(i) => i < self.entries@.len() && self.entries@[i as int].key@ == key@,
                None => forall|j: int|
                    0 <= j < self.entries@.len() ==> (#[trigger] self.entries@[j]).key@ != key@,
            },
    {
        let n: usize = self.entries.len();
        let mut i: usize = 0;
        while i < n
            invariant
                n == self.entries@.len(),
                i <= n,
                forall|j: int| 0 <= j < i ==> (#[trigger] self.entries@[j]).key@ != key@,
            decreases n - i,
        {
            if text::str_eq(self.entries[i].key.as_str(), key) {
                return Some(i);
            }
            i += 1;
        }
        None
    }

    /// Whether the map has a key.
    pub fn contains_key(&self, key: &str) -> (r: bool)
        ensures
            r == self@.dom().contains(key@),
    {
        proof {
            lemma_map_of_dom(self.entries@, key@);
        }
        match self.position(key) {
            Some(i) => {
                assert(self.entries@[i as int].key@ == key@);
                true
            },
            None => false,
        }
    }

    /// The value under a key.
    pub fn get(&self, key: &str) -> (r: Option<String>)
        requires
            self.wf(),
        ensures
            match r {
                Some(v) => self@.dom().contains(key@) && self@[key@] == v@,
                None => !self@.dom().contains(key@),
            },
    {
        proof {
            lemma_map_of_dom(self.entries@, key@);
        }
        match self.position(key) {
            Some(i) => {
                proof {
                    lemma_map_of_value(self.entries@, i as int);
                }
                Some(self.entries[i].value.clone())
            },
            None => None,
        }
    }

    /// Puts a value under a key, in place of the one that was there.
    pub fn insert(&mut self, key: String, value: String)
        requires
            old(self).wf(),
        ensures
            final(self).wf(),
            final(self)@ == old(self)@.insert(key@, value@),
    {
        self.remove(key.as_str());
        proof {
            lemma_map_of_dom(self.entries@, key@);
        }
        let ghost before = self.entries@;
        let ghost m = self@;
        self.entries.push(StrEntry { key, value });
        proof {
            assert(self.entries@.drop_last() =~= before);
            assert(self@ =~= m.insert(key@, value@));
            assert(self@ =~= old(self)@.insert(key@, value@));
        }
    }

    /// Takes a key out; says whether it was there.
    pub fn remove(&mut self, key: &str) -> (r: bool)
        requires
            old(self).wf(),
        ensures
            final(self).wf(),
            final(self)@ == old(self)@.remove(key@),
            r == old(self)@.dom().contains(key@),
    {
        proof {
            lemma_map_of_dom(self.entries@, key@);
        }
        match self.position(key) {
            Some(i) => {
                proof {
                    lemma_map_of_remove(self.entries@, i as int);
                    assert(self.entries@[i as int].key@ == key@);
                }
                self.entries.remove(i);
                assert(self.entries@ =~= old(self).entries@.remove(i as int));
                true
            },
            None => {
                assert(self@ =~= old(self)@.remove(key@));
                false
            },
        }
    }

    /// A copy of the map.
    pub fn copy(&self) -> (r: StrMap)
        requires
            self.wf(),
        ensures
            r.wf(),
            r@ == self@,
    {
        let mut entries: Vec<StrEntry> = Vec::new();
        let n: usize = self.entries.len();
        let mut i: usize = 0;
        while i < n
            invariant
                n == self.entries@.len(),
                i <= n,
                entries@.len() == i,
                forall|j: int|
                    0 <= j < i ==> (#[trigger] entries@[j]).key@ == self.entries@[j].key@
                        && entries@[j].value@ == self.entries@[j].value@,
            decreases n - i,
        {
            entries.push(
                StrEntry {
                    key: self.entries[i].key.clone(),
                    value: self.entries[i].value.clone(),
                },
            );
            i += 1;
        }
        proof {
            lemma_map_of_same(entries@, self.entries@);
            assert forall|a: int, b: int| 0 <= a < b < entries@.len() implies (
            #[trigger] entries@[a]).key@ != (#[trigger] entries@[b]).key@ by {
                assert(self.entries@[a].key@ != self.entries@[b].key@);
            }
        }
        StrMap { entries }
    }
}

proof fn lemma_map_of_same(x: Seq<StrEntry>, y: Seq<StrEntry>)
    requires
        x.len() == y.len(),
        forall|j: int|
            0 <= j < x.len() ==> (#[trigger] x[j]).key@ == y[j].key@ && x[j].value@ == y[j].value@,
    ensures
        map_of(x) == map_of(y),
    decreases x.len(),
{
    if x.len() > 0 {
        let a = x.drop_last();
        let b = y.drop_last();
        assert forall|j: int| 0 <= j < a.len() implies (#[trigger] a[j]).key@ == b[j].key@
            && a[j].value@ == b[j].value@ by {
            assert(x[j].key@ == y[j].key@);
        }
        lemma_map_of_same(a, b);
        assert(x[x.len() - 1].key@ == y[x.len() - 1].key@);
    }
}

/// A map holds a key exactly where an entry has it, with the value of that entry.
pub proof fn law_map_of(entries: Seq<StrEntry>, k: Seq<char>, i: int)
    requires
        keys_unique(entries),
    ensures
        map_of(entries).dom().contains(k) <==> exists|j: int|
            0 <= j < entries.len() && (#[trigger] entries[j]).key@ == k,
        0 <= i < entries.len() ==> map_of(entries)[entries[i].key@] == entries[i].value@,
{
    lemma_map_of_dom(entries, k);
    if 0 <= i < entries.len() {
        lemma_map_of_value(entries, i);
    }
}

/// The first element for which something holds is found where there is one, and it is the first; the
/// sequence without it holds all others in order.
pub proof fn law_first_where<A>(s: Seq<A>, p: spec_fn(A) -> bool, i: int)
    requires
        0 <= i < s.len(),
        p(s[i]),
        forall|j: int| 0 <= j < i ==> !p(#[trigger] s[j]),
    ensures
        first_where(s, p) == Some(s[i]),
        index_where(s, p) == i,
        without_first(s, p) == s.remove(i),
{
    lemma_first_at(s, p, i);
    lemma_index_at(s, p, i);
}

/// The elements for which something holds are all of them, in order.
pub proof fn law_all_where<A>(s: Seq<A>, p: spec_fn(A) -> bool)
    ensures
        all_where(s, p) == s.filter(p),
    decreases s.len(),
{
    reveal(Seq::filter);
    if s.len() > 0 {
        law_all_where(s.drop_last(), p);
    }
}

} // verus!

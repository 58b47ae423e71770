//! A map from string keys to values that lists its entries in the byte
//! order of the keys, as contract storage does.

use vstd::prelude::*;
use vstd::utf8::*;

verus! {

/// Strict lexicographic order on byte strings.
pub open spec fn bytes_lt(a: Seq<u8>, b: Seq<u8>) -> bool
    decreases a.len(),
{
    if b.len() == 0 {
        false
    } else if a.len() == 0 {
        true
    } else if a[0] < b[0] {
        true
    } else if a[0] > b[0] {
        false
    } else {
        bytes_lt(a.drop_first(), b.drop_first())
    }
}

/// Order of keys: the byte order of their UTF-8 encodings.
pub open spec fn key_lt(a: Seq<char>, b: Seq<char>) -> bool {
    bytes_lt(encode_utf8(a), encode_utf8(b))
}

pub proof fn lemma_bytes_lt_irreflexive(a: Seq<u8>)
    ensures
        !bytes_lt(a, a),
    decreases a.len(),
{
    if a.len() > 0 {
        lemma_bytes_lt_irreflexive(a.drop_first());
    }
}

pub proof fn lemma_bytes_lt_transitive(a: Seq<u8>, b: Seq<u8>, c: Seq<u8>)
    requires
        bytes_lt(a, b),
        bytes_lt(b, c),
    ensures
        bytes_lt(a, c),
    decreases a.len(),
{
    if a.len() > 0 && b.len() > 0 && c.len() > 0 && a[0] == b[0] && b[0] == c[0] {
        lemma_bytes_lt_transitive(a.drop_first(), b.drop_first(), c.drop_first());
    }
}

pub proof fn lemma_bytes_lt_total(a: Seq<u8>, b: Seq<u8>)
    requires
        a != b,
    ensures
        bytes_lt(a, b) || bytes_lt(b, a),
    decreases a.len(),
{
    if a.len() > 0 && b.len() > 0 && a[0] == b[0] {
        if a.drop_first() == b.drop_first() {
            assert(a =~= seq![a[0]] + a.drop_first());
            assert(b =~= seq![b[0]] + b.drop_first());
        }
        lemma_bytes_lt_total(a.drop_first(), b.drop_first());
    } else if a.len() == 0 && b.len() == 0 {
        assert(a =~= b);
    }
}

pub proof fn lemma_bytes_lt_asymmetric(a: Seq<u8>, b: Seq<u8>)
    requires
        bytes_lt(a, b),
    ensures
        !bytes_lt(b, a),
{
    if bytes_lt(b, a) {
        lemma_bytes_lt_transitive(a, b, a);
        lemma_bytes_lt_irreflexive(a);
    }
}

/// Comparing after a common prefix of length `i` is comparing the rests.
proof fn lemma_bytes_lt_skip(a: Seq<u8>, b: Seq<u8>, i: int)
    requires
        0 <= i <= a.len(),
        i <= b.len(),
        a.subrange(0, i) == b.subrange(0, i),
    ensures
        bytes_lt(a, b) == bytes_lt(a.skip(i), b.skip(i)),
    decreases i,
{
    if i > 0 {
        assert(a[0] == a.subrange(0, i)[0]);
        assert(b[0] == b.subrange(0, i)[0]);
        assert(a.drop_first().subrange(0, i - 1) =~= a.subrange(0, i).drop_first());
        assert(b.drop_first().subrange(0, i - 1) =~= b.subrange(0, i).drop_first());
        lemma_bytes_lt_skip(a.drop_first(), b.drop_first(), i - 1);
        assert(a.drop_first().skip(i - 1) =~= a.skip(i));
        assert(b.drop_first().skip(i - 1) =~= b.skip(i));
    } else {
        assert(a.skip(0) =~= a);
        assert(b.skip(0) =~= b);
    }
}

pub proof fn lemma_key_lt_irreflexive(a: Seq<char>)
    ensures
        !key_lt(a, a),
{
    lemma_bytes_lt_irreflexive(encode_utf8(a));
}

pub proof fn lemma_key_lt_transitive(a: Seq<char>, b: Seq<char>, c: Seq<char>)
    requires
        key_lt(a, b),
        key_lt(b, c),
    ensures
        key_lt(a, c),
{
    lemma_bytes_lt_transitive(encode_utf8(a), encode_utf8(b), encode_utf8(c));
}

pub proof fn lemma_key_lt_asymmetric(a: Seq<char>, b: Seq<char>)
    requires
        key_lt(a, b),
    ensures
        !key_lt(b, a),
{
    lemma_bytes_lt_asymmetric(encode_utf8(a), encode_utf8(b));
}

pub proof fn lemma_key_lt_total(a: Seq<char>, b: Seq<char>)
    requires
        a != b,
    ensures
        key_lt(a, b) || key_lt(b, a),
{
    if encode_utf8(a) == encode_utf8(b) {
        encode_utf8_decode_utf8(a);
        encode_utf8_decode_utf8(b);
    }
    lemma_bytes_lt_total(encode_utf8(a), encode_utf8(b));
}

/// Compares two keys in storage order.
pub fn key_less(a: &str, b: &str) -> (r: bool)
    ensures
        r == key_lt(a@, b@),
{
    let x = a.as_bytes();
    let y = b.as_bytes();
    let n = x.len();
    let m = y.len();
    let mut i: usize = 0;
    while i < n && i < m
        invariant
            x@ == encode_utf8(a@),
            y@ == encode_utf8(b@),
            n == x@.len(),
            m == y@.len(),
            i <= n,
            i <= m,
            x@.subrange(0, i as int) == y@.subrange(0, i as int),
        decreases n - i,
    {
        if x[i] < y[i] {
            proof {
                lemma_bytes_lt_skip(x@, y@, i as int);
            }
            return true;
        }
        if x[i] > y[i] {
            proof {
                lemma_bytes_lt_skip(x@, y@, i as int);
            }
            return false;
        }
        assert(x@.subrange(0, i + 1) =~= x@.subrange(0, i as int).push(x@[i as int]));
        assert(y@.subrange(0, i + 1) =~= y@.subrange(0, i as int).push(y@[i as int]));
        i = i + 1;
    }
    proof {
        lemma_bytes_lt_skip(x@, y@, i as int);
    }
    i < m
}

/// Whether two texts are the same.
pub fn same_text(a: &str, b: &str) -> (r: bool)
    ensures
        r == (a@ == b@),
{
    let lt = key_less(a, b);
    let gt = key_less(b, a);
    proof {
        if a@ != b@ {
            lemma_key_lt_total(a@, b@);
        } else {
            lemma_key_lt_irreflexive(a@);
        }
    }
    !lt && !gt
}

/// Values that can be copied exactly.
pub trait Duplicate: Sized {
    fn duplicate(&self) -> (r: Self)
        ensures
            r == *self,
    ;
}

impl Duplicate for String {
    fn duplicate(&self) -> (r: Self) {
        self.clone()
    }
}

impl Duplicate for u64 {
    fn duplicate(&self) -> (r: Self) {
        *self
    }
}

impl Duplicate for u128 {
    fn duplicate(&self) -> (r: Self) {
        *self
    }
}

/// The entries of a sequence of pairs viewed by their key's characters.
pub open spec fn entry_view<V>(e: (String, V)) -> (Seq<char>, V) {
    (e.0@, e.1)
}

/// Keys strictly increase along the sequence.
pub open spec fn sorted_keys<V>(s: Seq<(Seq<char>, V)>) -> bool {
    forall|i: int, j: int| 0 <= i < j < s.len() ==> key_lt(#[trigger] s[i].0, #[trigger] s[j].0)
}

/// The value stored under `k`, if any.
pub open spec fn lookup<V>(s: Seq<(Seq<char>, V)>, k: Seq<char>) -> Option<V>
    decreases s.len(),
{
    if s.len() == 0 {
        None
    } else if s[0].0 == k {
        Some(s[0].1)
    } else {
        lookup(s.drop_first(), k)
    }
}

/// `k` lies after the bound (every key does when there is no bound).
pub open spec fn after_bound(k: Seq<char>, bound: Option<Seq<char>>) -> bool {
    match bound {
        None => true,
        Some(b) => key_lt(b, k),
    }
}

/// `k` lies before the bound (every key does when there is no bound).
pub open spec fn before_bound(k: Seq<char>, bound: Option<Seq<char>>) -> bool {
    match bound {
        None => true,
        Some(b) => key_lt(k, b),
    }
}

/// Entries whose key lies after the bound, in the order of `s`.
pub open spec fn entries_after<V>(s: Seq<(Seq<char>, V)>, bound: Option<Seq<char>>) -> Seq<
    (Seq<char>, V),
>
    decreases s.len(),
{
    if s.len() == 0 {
        seq![]
    } else {
        let rest = entries_after(s.drop_last(), bound);
        if after_bound(s.last().0, bound) {
            rest.push(s.last())
        } else {
            rest
        }
    }
}

/// Entries whose key lies before the bound, in the reverse order of `s`.
pub open spec fn entries_before_reversed<V>(
    s: Seq<(Seq<char>, V)>,
    bound: Option<Seq<char>>,
) -> Seq<(Seq<char>, V)>
    decreases s.len(),
{
    if s.len() == 0 {
        seq![]
    } else {
        let rest = entries_before_reversed(s.drop_first(), bound);
        if before_bound(s[0].0, bound) {
            rest.push(s[0])
        } else {
            rest
        }
    }
}

/// The characters of an optional bound.
pub open spec fn bound_view(b: Option<&str>) -> Option<Seq<char>> {
    match b {
        None => None,
        Some(s) => Some(s@),
    }
}

/// An optional limit as a natural number.
pub open spec fn limit_view(l: Option<usize>) -> Option<nat> {
    match l {
        None => None,
        Some(n) => Some(n as nat),
    }
}

/// Without a bound every entry lies after it.
pub proof fn lemma_entries_after_none<V>(s: Seq<(Seq<char>, V)>)
    ensures
        entries_after(s, None) == s,
    decreases s.len(),
{
    if s.len() > 0 {
        lemma_entries_after_none(s.drop_last());
        assert(s.drop_last().push(s.last()) =~= s);
    }
}

/// At most `limit` leading elements (all of them when there is no limit).
pub open spec fn capped<A>(s: Seq<A>, limit: Option<nat>) -> Seq<A> {
    match limit {
        None => s,
        Some(l) => if s.len() <= l {
            s
        } else {
            s.take(l as int)
        },
    }
}

pub proof fn lemma_lookup_found<V>(s: Seq<(Seq<char>, V)>, i: int)
    requires
        sorted_keys(s),
        0 <= i < s.len(),
    ensures
        lookup(s, s[i].0) == Some(s[i].1),
    decreases i,
{
    if i > 0 {
        lemma_key_lt_irreflexive(s[i].0);
        assert(key_lt(s[0].0, s[i].0));
        let t = s.drop_first();
        assert(sorted_keys(t)) by {
            assert forall|a: int, b: int| 0 <= a < b < t.len() implies key_lt(
                #[trigger] t[a].0,
                #[trigger] t[b].0,
            ) by {
                assert(t[a] == s[a + 1]);
                assert(t[b] == s[b + 1]);
            }
        }
        lemma_lookup_found(t, i - 1);
    }
}

pub proof fn lemma_lookup_absent<V>(s: Seq<(Seq<char>, V)>, k: Seq<char>)
    requires
        forall|i: int| 0 <= i < s.len() ==> #[trigger] s[i].0 != k,
    ensures
        lookup(s, k) is None,
    decreases s.len(),
{
    if s.len() > 0 {
        let t = s.drop_first();
        assert forall|i: int| 0 <= i < t.len() implies #[trigger] t[i].0 != k by {
            assert(t[i] == s[i + 1]);
        }
        lemma_lookup_absent(t, k);
    }
}

/// The value under `k` in a sorted sequence, by position.
pub proof fn lemma_lookup<V>(s: Seq<(Seq<char>, V)>, k: Seq<char>)
    requires
        sorted_keys(s),
    ensures
        (exists|i: int| 0 <= i < s.len() && #[trigger] s[i].0 == k) ==> {
            let i = choose|i: int| 0 <= i < s.len() && #[trigger] s[i].0 == k;
            lookup(s, k) == Some(s[i].1)
        },
        (forall|i: int| 0 <= i < s.len() ==> #[trigger] s[i].0 != k) ==> lookup(s, k) is None,
{
    if exists|i: int| 0 <= i < s.len() && #[trigger] s[i].0 == k {
        let i = choose|i: int| 0 <= i < s.len() && #[trigger] s[i].0 == k;
        lemma_lookup_found(s, i);
    } else {
        lemma_lookup_absent(s, k);
    }
}

/// `new` is `old` with the entry under `key` set to `v` (removed when `v` is `None`).
pub open spec fn map_updated<V>(
    old: Seq<(Seq<char>, V)>,
    new: Seq<(Seq<char>, V)>,
    key: Seq<char>,
    v: Option<V>,
) -> bool {
    &&& sorted_keys(new)
    &&& forall|k: Seq<char>|
        #![trigger lookup(new, k)]
        lookup(new, k) == if k == key {
            v
        } else {
            lookup(old, k)
        }
    &&& new.len() == match v {
        Some(_) => if lookup(old, key) is Some {
            old.len() as int
        } else {
            old.len() + 1int
        },
        None => if lookup(old, key) is Some {
            old.len() - 1
        } else {
            old.len() as int
        },
    }
}

/// The entries as a map from key to value.
pub open spec fn as_map<V>(s: Seq<(Seq<char>, V)>) -> Map<Seq<char>, V> {
    Map::new(|k: Seq<char>| lookup(s, k) is Some, |k: Seq<char>| lookup(s, k).unwrap())
}

/// Entries stored under string keys, kept in ascending key order.
pub struct KeyMap<V> {
    entries: Vec<(String, V)>,
}

impl<V> KeyMap<V> {
    /// The entries in ascending key order.
    pub closed spec fn view(&self) -> Seq<(Seq<char>, V)> {
        self.entries@.map_values(|e: (String, V)| entry_view(e))
    }

    /// Keys are kept strictly increasing.
    pub open spec fn wf(&self) -> bool {
        sorted_keys(self.view())
    }

    pub fn new() -> (m: Self)
        ensures
            m.wf(),
            m.view() == Seq::<(Seq<char>, V)>::empty(),
    {
        let m = KeyMap { entries: Vec::new() };
        assert(m.view() =~= Seq::<(Seq<char>, V)>::empty());
        m
    }

    pub fn len(&self) -> (n: usize)
        ensures
            n == self.view().len(),
    {
        self.entries.len()
    }

    /// The keys in ascending order.
    pub fn keys(&self) -> (r: Vec<String>)
        ensures
            r@.map_values(|k: String| k@) == self.view().map_values(|e: (Seq<char>, V)| e.0),
    {
        let mut out: Vec<String> = Vec::new();
        let mut i: usize = 0;
        while i < self.entries.len()
            invariant
                i <= self.entries@.len(),
                out@.map_values(|k: String| k@) == self.view().take(i as int).map_values(
                    |e: (Seq<char>, V)| e.0,
                ),
            decreases self.entries.len() - i,
        {
            let ghost prior = out@;
            let k = self.entries[i].0.clone();
            out.push(k);
            proof {
                assert(self.view()[i as int].0 == k@);
                assert(out@.map_values(|k: String| k@) =~= prior.map_values(|k: String| k@).push(k@));
                assert(self.view().take(i + 1).map_values(|e: (Seq<char>, V)| e.0) =~= self.view().take(
                    i as int,
                ).map_values(|e: (Seq<char>, V)| e.0).push(k@));
            }
            i = i + 1;
        }
        assert(self.view().take(self.view().len() as int) =~= self.view());
        out
    }

    /// Position of `key`, or the position where it would be inserted.
    fn find(&self, key: &str) -> (r: (usize, bool))
        requires
            self.wf(),
        ensures
            r.0 <= self.view().len(),
            r.1 ==> r.0 < self.view().len() && self.view()[r.0 as int].0 == key@,
            !r.1 ==> forall|i: int| 0 <= i < self.view().len() ==> #[trigger] self.view()[i].0 != key@,
            forall|i: int| 0 <= i < r.0 ==> key_lt(#[trigger] self.view()[i].0, key@),
            forall|i: int| r.0 < i < self.view().len() ==> key_lt(key@, #[trigger] self.view()[i].0),
            !r.1 ==> forall|i: int| r.0 <= i < self.view().len() ==> key_lt(key@, #[trigger] self.view()[i].0),
    {
        let n = self.entries.len();
        let mut i: usize = 0;
        while i < n
            invariant
                self.wf(),
                n == self.view().len(),
                i <= n,
                forall|j: int| 0 <= j < i ==> key_lt(#[trigger] self.view()[j].0, key@),
            decreases n - i,
        {
            let k: &str = self.entries[i].0.as_str();
            assert(self.view()[i as int].0 == k@);
            if !key_less(k, key) {
                let eq = !key_less(key, k);
                if eq {
                    proof {
                        if k@ != key@ {
                            lemma_key_lt_total(k@, key@);
                        }
                    }
                }
                proof {
                    assert forall|j: int| i < j < self.view().len() implies key_lt(
                        key@,
                        #[trigger] self.view()[j].0,
                    ) by {
                        assert(key_lt(self.view()[i as int].0, self.view()[j].0));
                        if eq {
                        } else {
                            lemma_key_lt_transitive(key@, k@, self.view()[j].0);
                        }
                    }
                    if !eq {
                        assert forall|j: int| 0 <= j < self.view().len() implies #[trigger] self.view()[j].0 != key@ by {
                            if j < i {
                                lemma_key_lt_irreflexive(key@);
                            } else if j > i {
                                lemma_key_lt_irreflexive(key@);
                            } else {
                                lemma_key_lt_irreflexive(key@);
                            }
                        }
                    }
                }
                return (i, eq);
            }
            i = i + 1;
        }
        proof {
            assert forall|j: int| 0 <= j < self.view().len() implies #[trigger] self.view()[j].0 != key@ by {
                lemma_key_lt_irreflexive(key@);
            }
        }
        (n, false)
    }

    /// The value stored under `key`.
    pub fn get(&self, key: &str) -> (r: Option<&V>)
        requires
            self.wf(),
        ensures
            r is Some <==> lookup(self.view(), key@) is Some,
            r matches Some(v) ==> lookup(self.view(), key@) == Some(*v),
    {
        proof {
            lemma_lookup(self.view(), key@);
        }
        let (i, found) = self.find(key);
        if found {
            proof {
                lemma_lookup_found(self.view(), i as int);
            }
            Some(&self.entries[i].1)
        } else {
            None
        }
    }

    /// Whether a value is stored under `key`.
    pub fn contains_key(&self, key: &str) -> (r: bool)
        requires
            self.wf(),
        ensures
            r == lookup(self.view(), key@) is Some,
    {
        proof {
            lemma_lookup(self.view(), key@);
        }
        let (_i, found) = self.find(key);
        found
    }

    /// Stores `value` under `key`, replacing what was stored there.
    pub fn insert(&mut self, key: String, value: V)
        requires
            old(self).wf(),
        ensures
            final(self).wf(),
            forall|k: Seq<char>|
                #![trigger lookup(final(self).view(), k)]
                lookup(final(self).view(), k) == if k == key@ {
                    Some(value)
                } else {
                    lookup(old(self).view(), k)
                },
            lookup(old(self).view(), key@) is Some ==> final(self).view().len() == old(self).view().len(),
            lookup(old(self).view(), key@) is None ==> final(self).view().len() == old(self).view().len() + 1,
    {
        let ghost old_view = self.view();
        proof {
            lemma_lookup(old_view, key@);
        }
        let (i, found) = self.find(key.as_str());
        let ghost e = (key@, value);
        if found {
            self.entries.set(i, (key, value));
            proof {
                assert(self.view() =~= old_view.update(i as int, e));
            }
        } else {
            self.entries.insert(i, (key, value));
            proof {
                assert(self.view() =~= old_view.insert(i as int, e));
            }
        }
        proof {
            let nv = self.view();
            assert(sorted_keys(nv)) by {
                assert forall|a: int, b: int| 0 <= a < b < nv.len() implies key_lt(
                    #[trigger] nv[a].0,
                    #[trigger] nv[b].0,
                ) by {
                    if found {
                        if a != i && b != i {
                        }
                    } else {
                        if a < i && b > i {
                            assert(nv[b] == old_view[b - 1]);
                            assert(key_lt(old_view[a].0, old_view[b - 1].0));
                        } else if a > i {
                            assert(nv[a] == old_view[a - 1]);
                            assert(nv[b] == old_view[b - 1]);
                        } else if b < i {
                        } else if a == i {
                            assert(nv[b] == old_view[b - 1]);
                        } else {
                        }
                    }
                }
            }
            lemma_lookup(nv, key@);
            assert forall|k: Seq<char>|
                #![trigger lookup(nv, k)]
                lookup(nv, k) == if k == key@ {
                    Some(value)
                } else {
                    lookup(old_view, k)
                } by {
                lemma_lookup(nv, k);
                lemma_lookup(old_view, k);
                assert(nv[i as int] == e);
                lemma_lookup_found(nv, i as int);
                if k != key@ {
                    if exists|j: int| 0 <= j < old_view.len() && #[trigger] old_view[j].0 == k {
                        let j = choose|j: int| 0 <= j < old_view.len() && #[trigger] old_view[j].0 == k;
                        let j2 = if found || j < i {
                            j
                        } else {
                            j + 1
                        };
                        assert(nv[j2] == old_view[j]);
                        lemma_lookup_found(nv, j2);
                        lemma_lookup_found(old_view, j);
                    } else {
                        assert forall|j: int| 0 <= j < nv.len() implies #[trigger] nv[j].0 != k by {
                            if j != i {
                                let j0 = if found || j < i {
                                    j
                                } else {
                                    j - 1
                                };
                                assert(nv[j] == old_view[j0]);
                            }
                        }
                        lemma_lookup_absent(nv, k);
                    }
                }
            }
        }
    }

    /// Removes what is stored under `key` and hands it back.
    pub fn remove(&mut self, key: &str) -> (r: Option<V>)
        requires
            old(self).wf(),
        ensures
            final(self).wf(),
            r == lookup(old(self).view(), key@),
            forall|k: Seq<char>|
                #![trigger lookup(final(self).view(), k)]
                lookup(final(self).view(), k) == if k == key@ {
                    None
                } else {
                    lookup(old(self).view(), k)
                },
            r is Some ==> final(self).view().len() == old(self).view().len() - 1,
            r is None ==> final(self).view().len() == old(self).view().len(),
    {
        let ghost old_view = self.view();
        proof {
            lemma_lookup(old_view, key@);
        }
        let (i, found) = self.find(key);
        if !found {
            proof {
                assert forall|k: Seq<char>|
                    #![trigger lookup(self.view(), k)]
                    lookup(self.view(), k) == if k == key@ {
                        None
                    } else {
                        lookup(old_view, k)
                    } by {}
            }
            return None;
        }
        proof {
            lemma_lookup_found(old_view, i as int);
        }
        let (_k, v) = self.entries.remove(i);
        proof {
            let nv = self.view();
            assert(nv =~= old_view.remove(i as int));
            assert(sorted_keys(nv)) by {
                assert forall|a: int, b: int| 0 <= a < b < nv.len() implies key_lt(
                    #[trigger] nv[a].0,
                    #[trigger] nv[b].0,
                ) by {
                    let a0 = if a < i {
                        a
                    } else {
                        a + 1
                    };
                    let b0 = if b < i {
                        b
                    } else {
                        b + 1
                    };
                    assert(nv[a] == old_view[a0]);
                    assert(nv[b] == old_view[b0]);
                }
            }
            assert forall|k: Seq<char>|
                #![trigger lookup(nv, k)]
                lookup(nv, k) == if k == key@ {
                    None
                } else {
                    lookup(old_view, k)
                } by {
                lemma_lookup(nv, k);
                lemma_lookup(old_view, k);
                if k == key@ {
                    assert forall|j: int| 0 <= j < nv.len() implies #[trigger] nv[j].0 != k by {
                        let j0 = if j < i {
                            j
                        } else {
                            j + 1
                        };
                        assert(nv[j] == old_view[j0]);
                        lemma_key_lt_irreflexive(k);
                    }
                    lemma_lookup_absent(nv, k);
                } else if exists|j: int| 0 <= j < old_view.len() && #[trigger] old_view[j].0 == k {
                    let j = choose|j: int| 0 <= j < old_view.len() && #[trigger] old_view[j].0 == k;
                    let j2 = if j < i {
                        j
                    } else {
                        j - 1
                    };
                    assert(j != i);
                    assert(nv[j2] == old_view[j]);
                    lemma_lookup_found(nv, j2);
                    lemma_lookup_found(old_view, j);
                } else {
                    assert forall|j: int| 0 <= j < nv.len() implies #[trigger] nv[j].0 != k by {
                        let j0 = if j < i {
                            j
                        } else {
                            j + 1
                        };
                        assert(nv[j] == old_view[j0]);
                    }
                    lemma_lookup_absent(nv, k);
                }
            }
        }
        Some(v)
    }
}

impl<V: Duplicate> KeyMap<V> {
    /// An exact copy of the map.
    pub fn copy(&self) -> (r: Self)
        ensures
            r.view() == self.view(),
    {
        let mut entries: Vec<(String, V)> = Vec::new();
        let mut i: usize = 0;
        while i < self.entries.len()
            invariant
                i <= self.entries@.len(),
                entries@.map_values(|e: (String, V)| entry_view(e)) == self.view().take(i as int),
            decreases self.entries.len() - i,
        {
            let ghost prior = entries@;
            let e = &self.entries[i];
            let item = (e.0.clone(), e.1.duplicate());
            entries.push(item);
            proof {
                assert(entries@ == prior.push(item));
                assert(entry_view(item) == self.view()[i as int]);
                assert(entries@.map_values(|e: (String, V)| entry_view(e)) =~= prior.map_values(
                    |e: (String, V)| entry_view(e),
                ).push(entry_view(item)));
                assert(self.view().take(i + 1) =~= self.view().take(i as int).push(self.view()[i as int]));
            }
            i = i + 1;
        }
        let r = KeyMap { entries };
        assert(r.view() =~= self.view());
        r
    }

    /// Entries after `start_after` in ascending key order, at most `limit` of them.
    pub fn range_ascending(&self, start_after: Option<&str>, limit: Option<usize>) -> (r: Vec<
        (String, V),
    >)
        requires
            self.wf(),
        ensures
            r@.map_values(|e: (String, V)| entry_view(e)) == capped(
                entries_after(self.view(), bound_view(start_after)),
                limit_view(limit),
            ),
    {
        let ghost bound = bound_view(start_after);
        let ghost lim = limit_view(limit);
        let n = self.entries.len();
        let mut out: Vec<(String, V)> = Vec::new();
        let mut i: usize = 0;
        while i < n
            invariant
                n == self.view().len(),
                i <= n,
                bound == bound_view(start_after),
                lim == limit_view(limit),
                out@.map_values(|e: (String, V)| entry_view(e)) == capped(
                    entries_after(self.view().subrange(0, i as int), bound),
                    lim,
                ),
            decreases n - i,
        {
            let ghost sub = self.view().subrange(0, i + 1);
            let ghost prev = entries_after(self.view().subrange(0, i as int), bound);
            assert(sub.drop_last() =~= self.view().subrange(0, i as int));
            assert(sub.last() == self.view()[i as int]);
            let key: &str = self.entries[i].0.as_str();
            assert(key@ == self.view()[i as int].0);
            let keep = match start_after {
                None => true,
                Some(b) => key_less(b, key),
            };
            let room = match limit {
                None => true,
                Some(l) => out.len() < l,
            };
            if keep && room {
                let k2 = self.entries[i].0.clone();
                let v2 = self.entries[i].1.duplicate();
                out.push((k2, v2));
                proof {
                    let f = |e: (String, V)| entry_view(e);
                    assert(out@.map_values(f) =~= capped(prev, lim).push(self.view()[i as int]));
                }
            }
            proof {
                let f = |e: (String, V)| entry_view(e);
                let now = entries_after(sub, bound);
                if keep {
                    assert(now == prev.push(self.view()[i as int]));
                    match lim {
                        None => {},
                        Some(l) => {
                            if !room {
                                assert(prev.len() >= l);
                                assert(now.take(l as int) =~= prev.take(l as int));
                            } else {
                                assert(capped(prev, lim) == prev);
                            }
                        },
                    }
                } else {
                    assert(now == prev);
                }
            }
            i = i + 1;
        }
        assert(self.view().subrange(0, n as int) =~= self.view());
        out
    }

    /// Entries before `start_before` in descending key order, at most `limit` of them.
    pub fn range_descending(&self, start_before: Option<&str>, limit: Option<usize>) -> (r: Vec<
        (String, V),
    >)
        requires
            self.wf(),
        ensures
            r@.map_values(|e: (String, V)| entry_view(e)) == capped(
                entries_before_reversed(self.view(), bound_view(start_before)),
                limit_view(limit),
            ),
    {
        let ghost bound = bound_view(start_before);
        let ghost lim = limit_view(limit);
        let n = self.entries.len();
        let mut out: Vec<(String, V)> = Vec::new();
        let mut i: usize = n;
        proof {
            assert(self.view().subrange(n as int, n as int) =~= Seq::<(Seq<char>, V)>::empty());
        }
        while i > 0
            invariant
                n == self.view().len(),
                i <= n,
                bound == bound_view(start_before),
                lim == limit_view(limit),
                out@.map_values(|e: (String, V)| entry_view(e)) == capped(
                    entries_before_reversed(self.view().subrange(i as int, n as int), bound),
                    lim,
                ),
            decreases i,
        {
            i = i - 1;
            let ghost sub = self.view().subrange(i as int, n as int);
            let ghost prev = entries_before_reversed(self.view().subrange(i + 1, n as int), bound);
            assert(sub.drop_first() =~= self.view().subrange(i + 1, n as int));
            assert(sub[0] == self.view()[i as int]);
            let key: &str = self.entries[i].0.as_str();
            assert(key@ == self.view()[i as int].0);
            let keep = match start_before {
                None => true,
                Some(b) => key_less(key, b),
            };
            let room = match limit {
                None => true,
                Some(l) => out.len() < l,
            };
            if keep && room {
                let k2 = self.entries[i].0.clone();
                let v2 = self.entries[i].1.duplicate();
                out.push((k2, v2));
                proof {
                    let f = |e: (String, V)| entry_view(e);
                    assert(out@.map_values(f) =~= capped(prev, lim).push(self.view()[i as int]));
                }
            }
            proof {
                let now = entries_before_reversed(sub, bound);
                if keep {
                    assert(now == prev.push(self.view()[i as int]));
                    match lim {
                        None => {},
                        Some(l) => {
                            if !room {
                                assert(prev.len() >= l);
                                assert(now.take(l as int) =~= prev.take(l as int));
                            } else {
                                assert(capped(prev, lim) == prev);
                            }
                        },
                    }
                } else {
                    assert(now == prev);
                }
            }
        }
        assert(self.view().subrange(0, n as int) =~= self.view());
        out
    }
}

} // verus!

//! A map from strings to values, kept as a vector of entries in strictly
//! ascending key order.
//!
//! Keys are ordered as their UTF-8 encodings are ordered byte by byte, which
//! is the order of the strings themselves.

use vstd::prelude::*;
use vstd::utf8::encode_utf8;
use vstd::utf8::encode_utf8_decode_utf8;

verus! {

/// `a` and `b` agree on their first `k` bytes and `a` comes first at position
/// `k`: either `a` ends there and `b` goes on, or `a` holds the smaller byte.
pub open spec fn precedes_at(a: Seq<u8>, b: Seq<u8>, k: int) -> bool {
    &&& 0 <= k <= a.len()
    &&& k < b.len()
    &&& forall|j: int| 0 <= j < k ==> a[j] == b[j]
    &&& k < a.len() ==> a[k] < b[k]
}

/// The strict lexicographic order on byte strings.
pub open spec fn bytes_lt(a: Seq<u8>, b: Seq<u8>) -> bool {
    exists|k: int| precedes_at(a, b, k)
}

/// The strict order on keys: the lexicographic order of their UTF-8 encodings.
pub open spec fn key_lt(a: Seq<char>, b: Seq<char>) -> bool {
    bytes_lt(encode_utf8(a), encode_utf8(b))
}

/// The keys of `s` stand in strictly ascending order.
pub open spec fn ascending<V>(s: Seq<(String, V)>) -> bool {
    forall|i: int, j: int| 0 <= i < j < s.len() ==> key_lt(#[trigger] s[i].0@, #[trigger] s[j].0@)
}

/// Some entry of `s` has the key `k`.
pub open spec fn has_key<V>(s: Seq<(String, V)>, k: Seq<char>) -> bool {
    exists|i: int| 0 <= i < s.len() && (#[trigger] s[i]).0@ == k
}

/// The position of an entry of `s` with the key `k`.
pub open spec fn index_of<V>(s: Seq<(String, V)>, k: Seq<char>) -> int {
    choose|i: int| 0 <= i < s.len() && (#[trigger] s[i]).0@ == k
}

/// The map that a sequence of entries stands for.
pub open spec fn entries_map<V>(s: Seq<(String, V)>) -> Map<Seq<char>, V> {
    Map::new(|k: Seq<char>| has_key(s, k), |k: Seq<char>| s[index_of(s, k)].1)
}

/// No byte string comes before itself.
pub proof fn lemma_bytes_lt_irreflexive(a: Seq<u8>)
    ensures
        !bytes_lt(a, a),
{
}

/// The order on byte strings is transitive.
pub proof fn lemma_bytes_lt_transitive(a: Seq<u8>, b: Seq<u8>, c: Seq<u8>)
    requires
        bytes_lt(a, b),
        bytes_lt(b, c),
    ensures
        bytes_lt(a, c),
{
    let k1 = choose|k: int| precedes_at(a, b, k);
    let k2 = choose|k: int| precedes_at(b, c, k);
    let k = if k1 <= k2 { k1 } else { k2 };
    assert(precedes_at(a, c, k));
}

/// Keys are distinct where one comes before the other.
pub proof fn lemma_key_lt_distinct(a: Seq<char>, b: Seq<char>)
    requires
        key_lt(a, b),
    ensures
        a != b,
{
    lemma_bytes_lt_irreflexive(encode_utf8(a));
}

/// The order on keys is transitive.
pub proof fn lemma_key_lt_transitive(a: Seq<char>, b: Seq<char>, c: Seq<char>)
    requires
        key_lt(a, b),
        key_lt(b, c),
    ensures
        key_lt(a, c),
{
    lemma_bytes_lt_transitive(encode_utf8(a), encode_utf8(b), encode_utf8(c));
}

/// In an ascending sequence each key occurs once, so the map holds under each
/// key the value that stands beside it.
pub proof fn lemma_entry_in_map<V>(s: Seq<(String, V)>, i: int)
    requires
        ascending(s),
        0 <= i < s.len(),
    ensures
        entries_map(s).contains_key(s[i].0@),
        entries_map(s)[s[i].0@] == s[i].1,
        index_of(s, s[i].0@) == i,
{
    let k = s[i].0@;
    assert(has_key(s, k));
    let j = index_of(s, k);
    if j < i {
        lemma_key_lt_distinct(s[j].0@, s[i].0@);
    } else if i < j {
        lemma_key_lt_distinct(s[i].0@, s[j].0@);
    }
}

/// A key that lies strictly between the entries before `pos` and those from
/// `pos` on is not in the sequence.
pub proof fn lemma_gap_is_absent<V>(s: Seq<(String, V)>, pos: int, k: Seq<char>)
    requires
        ascending(s),
        0 <= pos <= s.len(),
        forall|j: int| 0 <= j < pos ==> key_lt(#[trigger] s[j].0@, k),
        pos < s.len() ==> key_lt(k, s[pos].0@),
    ensures
        !has_key(s, k),
        forall|j: int| pos <= j < s.len() ==> key_lt(k, #[trigger] s[j].0@),
{
    assert forall|j: int| pos <= j < s.len() implies key_lt(k, #[trigger] s[j].0@) by {
        if j > pos {
            lemma_key_lt_transitive(k, s[pos].0@, s[j].0@);
        }
    }
    assert forall|j: int| 0 <= j < s.len() implies (#[trigger] s[j]).0@ != k by {
        if j < pos {
            lemma_key_lt_distinct(s[j].0@, k);
        } else {
            lemma_key_lt_distinct(k, s[j].0@);
        }
    }
}

/// Putting a new key into its gap keeps the order and adds one binding.
pub proof fn lemma_insert_at<V>(s: Seq<(String, V)>, pos: int, entry: (String, V))
    requires
        ascending(s),
        0 <= pos <= s.len(),
        forall|j: int| 0 <= j < pos ==> key_lt(#[trigger] s[j].0@, entry.0@),
        pos < s.len() ==> key_lt(entry.0@, s[pos].0@),
    ensures
        ascending(s.insert(pos, entry)),
        entries_map(s.insert(pos, entry)) == entries_map(s).insert(entry.0@, entry.1),
{
    let t = s.insert(pos, entry);
    let k = entry.0@;
    lemma_gap_is_absent(s, pos, k);
    assert forall|i: int, j: int| 0 <= i < j < t.len() implies key_lt(
        #[trigger] t[i].0@,
        #[trigger] t[j].0@,
    ) by {
        if j < pos {
            assert(t[i] == s[i] && t[j] == s[j]);
        } else if j == pos {
            assert(t[i] == s[i]);
        } else if i < pos {
            assert(t[i] == s[i] && t[j] == s[j - 1]);
        } else if i == pos {
            assert(t[j] == s[j - 1]);
        } else {
            assert(t[i] == s[i - 1] && t[j] == s[j - 1]);
        }
    }
    assert forall|x: Seq<char>| has_key(t, x) <==> (x == k || has_key(s, x)) by {
        if has_key(t, x) {
            let i = index_of(t, x);
            if i < pos {
                assert(s[i].0@ == x);
            } else if i > pos {
                assert(s[i - 1].0@ == x);
            }
        }
        if x == k {
            assert(t[pos].0@ == x);
        }
        if has_key(s, x) {
            let i = index_of(s, x);
            if i < pos {
                assert(t[i].0@ == x);
            } else {
                assert(t[i + 1].0@ == x);
            }
        }
    }
    assert forall|x: Seq<char>| has_key(t, x) implies entries_map(t)[x] == entries_map(s).insert(
        k,
        entry.1,
    )[x] by {
        if x == k {
            lemma_entry_in_map(t, pos);
        } else {
            let i = index_of(s, x);
            lemma_entry_in_map(s, i);
            if i < pos {
                lemma_entry_in_map(t, i);
            } else {
                lemma_entry_in_map(t, i + 1);
            }
        }
    }
    assert(entries_map(t) =~= entries_map(s).insert(k, entry.1));
}

/// Replacing the entry at `i` by one with the same key keeps the order and
/// rebinds that key.
pub proof fn lemma_update_at<V>(s: Seq<(String, V)>, i: int, entry: (String, V))
    requires
        ascending(s),
        0 <= i < s.len(),
        s[i].0@ == entry.0@,
    ensures
        ascending(s.update(i, entry)),
        entries_map(s.update(i, entry)) == entries_map(s).insert(entry.0@, entry.1),
{
    let t = s.update(i, entry);
    let k = entry.0@;
    assert forall|a: int, b: int| 0 <= a < b < t.len() implies key_lt(
        #[trigger] t[a].0@,
        #[trigger] t[b].0@,
    ) by {
        assert(t[a].0@ == s[a].0@ && t[b].0@ == s[b].0@);
    }
    assert forall|x: Seq<char>| has_key(t, x) <==> (x == k || has_key(s, x)) by {
        if has_key(t, x) {
            let j = index_of(t, x);
            assert(s[j].0@ == x);
        }
        if x == k {
            assert(t[i].0@ == x);
        }
        if has_key(s, x) {
            let j = index_of(s, x);
            assert(t[j].0@ == x);
        }
    }
    assert forall|x: Seq<char>| has_key(t, x) implies entries_map(t)[x] == entries_map(s).insert(
        k,
        entry.1,
    )[x] by {
        if x == k {
            lemma_entry_in_map(t, i);
        } else {
            let j = index_of(s, x);
            lemma_entry_in_map(s, j);
            assert(t[j] == s[j]);
            lemma_entry_in_map(t, j);
        }
    }
    assert(entries_map(t) =~= entries_map(s).insert(k, entry.1));
}

/// Taking the entry at `i` out keeps the order and drops that key.
pub proof fn lemma_remove_at<V>(s: Seq<(String, V)>, i: int)
    requires
        ascending(s),
        0 <= i < s.len(),
    ensures
        ascending(s.remove(i)),
        entries_map(s.remove(i)) == entries_map(s).remove(s[i].0@),
{
    let t = s.remove(i);
    let k = s[i].0@;
    assert forall|a: int, b: int| 0 <= a < b < t.len() implies key_lt(
        #[trigger] t[a].0@,
        #[trigger] t[b].0@,
    ) by {
        let a0 = if a < i { a } else { a + 1 };
        let b0 = if b < i { b } else { b + 1 };
        assert(t[a] == s[a0] && t[b] == s[b0]);
    }
    assert forall|x: Seq<char>| has_key(t, x) <==> (x != k && has_key(s, x)) by {
        if has_key(t, x) {
            let j = index_of(t, x);
            let j0 = if j < i { j } else { j + 1 };
            assert(s[j0].0@ == x);
            if j0 < i {
                lemma_key_lt_distinct(s[j0].0@, s[i].0@);
            } else {
                lemma_key_lt_distinct(s[i].0@, s[j0].0@);
            }
        }
        if x != k && has_key(s, x) {
            let j = index_of(s, x);
            let j1 = if j < i { j } else { j - 1 };
            assert(t[j1].0@ == x);
        }
    }
    assert forall|x: Seq<char>| has_key(t, x) implies entries_map(t)[x] == entries_map(s).remove(
        k,
    )[x] by {
        let j = index_of(s, x);
        lemma_entry_in_map(s, j);
        let j1 = if j < i { j } else { j - 1 };
        assert(t[j1] == s[j]);
        lemma_entry_in_map(t, j1);
    }
    assert(entries_map(t) =~= entries_map(s).remove(k));
}

/// How one key stands to another in the order of keys.
#[derive(Clone, Copy, Debug, PartialEq, Eq, Structural)]
pub enum Rank {
    Before,
    Same,
    After,
}

/// Compares two byte strings byte by byte.
pub fn rank_bytes(x: &[u8], y: &[u8]) -> (r: Rank)
    ensures
        r == Rank::Before <==> bytes_lt(x@, y@),
        r == Rank::Same <==> x@ == y@,
        r == Rank::After <==> bytes_lt(y@, x@),
{
    let mut i: usize = 0;
    loop
        invariant
            i <= x@.len(),
            i <= y@.len(),
            forall|j: int| 0 <= j < i ==> x@[j] == y@[j],
        decreases x@.len() - i,
    {
        if i == x.len() {
            if i == y.len() {
                proof {
                    assert(x@ =~= y@);
                    lemma_bytes_lt_irreflexive(x@);
                }
                return Rank::Same;
            }
            assert(precedes_at(x@, y@, i as int));
            proof {
                lemma_order_excludes(x@, y@);
            }
            return Rank::Before;
        }
        if i == y.len() {
            assert(precedes_at(y@, x@, i as int));
            proof {
                lemma_order_excludes(y@, x@);
            }
            return Rank::After;
        }
        if x[i] < y[i] {
            assert(precedes_at(x@, y@, i as int));
            proof {
                lemma_order_excludes(x@, y@);
            }
            return Rank::Before;
        }
        if x[i] > y[i] {
            assert(precedes_at(y@, x@, i as int));
            proof {
                lemma_order_excludes(y@, x@);
            }
            return Rank::After;
        }
        i += 1;
    }
}

/// Compares two keys by their UTF-8 encodings.
pub fn rank_keys(a: &str, b: &str) -> (r: Rank)
    ensures
        r == Rank::Before <==> key_lt(a@, b@),
        r == Rank::Same <==> a@ == b@,
        r == Rank::After <==> key_lt(b@, a@),
{
    proof {
        encode_utf8_decode_utf8(a@);
        encode_utf8_decode_utf8(b@);
    }
    rank_bytes(a.as_bytes(), b.as_bytes())
}

/// Where one byte string comes before another, the two differ and the second
/// does not come before the first.
proof fn lemma_order_excludes(a: Seq<u8>, b: Seq<u8>)
    requires
        bytes_lt(a, b),
    ensures
        a != b,
        !bytes_lt(b, a),
{
    lemma_bytes_lt_irreflexive(a);
    if bytes_lt(b, a) {
        lemma_bytes_lt_transitive(a, b, a);
    }
}

/// A map from strings to values of type `V`.
#[derive(Debug, PartialEq, Eq)]
pub struct KeyMap<V> {
    entries: Vec<(String, V)>,
}

impl<V> View for KeyMap<V> {
    type V = Map<Seq<char>, V>;

    closed spec fn view(&self) -> Map<Seq<char>, V> {
        entries_map(self.entries@)
    }
}

impl<V> KeyMap<V> {
    #[verifier::type_invariant]
    spec fn inv(self) -> bool {
        ascending(self.entries@)
    }

    /// The entries in key order.
    pub closed spec fn pairs(self) -> Seq<(String, V)> {
        self.entries@
    }

    /// The map is what its entries stand for.
    pub proof fn lemma_view_is_entries_map(self)
        ensures
            self@ == entries_map(self.pairs()),
    {
    }

    /// A value held in the map is a part of the map.
    pub proof fn lemma_value_decreases(self, k: Seq<char>)
        requires
            self@.contains_key(k),
        ensures
            decreases_to!(self => self@[k]),
    {
        let i = index_of(self.entries@, k);
        assert(has_key(self.entries@, k));
        assert(self@[k] == self.entries@[i].1);
    }

    /// An empty map.
    pub fn new() -> (m: Self)
        ensures
            m@ == Map::<Seq<char>, V>::empty(),
            m.pairs().len() == 0,
    {
        let m = KeyMap { entries: Vec::new() };
        assert(m@ =~= Map::<Seq<char>, V>::empty());
        m
    }

    /// The number of entries.
    pub fn len(&self) -> (n: usize)
        ensures
            n == self.pairs().len(),
    {
        self.entries.len()
    }

    /// The `i`-th entry in key order.
    pub fn entry(&self, i: usize) -> (r: (&String, &V))
        requires
            i < self.pairs().len(),
        ensures
            *r.0 == self.pairs()[i as int].0,
            *r.1 == self.pairs()[i as int].1,
            self@.contains_key(r.0@),
            self@[r.0@] == *r.1,
            ascending(self.pairs()),
            decreases_to!(self => *r.1),
    {
        proof {
            use_type_invariant(self);
            lemma_entry_in_map(self.entries@, i as int);
        }
        let e = &self.entries[i];
        (&e.0, &e.1)
    }

    /// The position of `key`, if it is there, and else the position where it
    /// belongs.
    fn locate(&self, key: &str) -> (r: (usize, bool))
        ensures
            r.0 <= self.entries@.len(),
            r.1 ==> r.0 < self.entries@.len() && self.entries@[r.0 as int].0@ == key@,
            !r.1 ==> forall|j: int| 0 <= j < r.0 ==> key_lt(#[trigger] self.entries@[j].0@, key@),
            !r.1 && r.0 < self.entries@.len() ==> key_lt(key@, self.entries@[r.0 as int].0@),
    {
        let mut i: usize = 0;
        while i < self.entries.len()
            invariant
                i <= self.entries@.len(),
                forall|j: int| 0 <= j < i ==> key_lt(#[trigger] self.entries@[j].0@, key@),
            decreases self.entries@.len() - i,
        {
            match rank_keys(self.entries[i].0.as_str(), key) {
                Rank::Before => {},
                Rank::Same => {
                    return (i, true);
                },
                Rank::After => {
                    return (i, false);
                },
            }
            i += 1;
        }
        (i, false)
    }

    /// The value under `key`, if there is one.
    pub fn get(&self, key: &str) -> (r: Option<&V>)
        ensures
            match r {
                Some(v) => self@.contains_key(key@) && self@[key@] == *v && decreases_to!(self => *v),
                None => !self@.contains_key(key@),
            },
    {
        proof {
            use_type_invariant(self);
        }
        let (pos, found) = self.locate(key);
        if found {
            proof {
                lemma_entry_in_map(self.entries@, pos as int);
            }
            Some(&self.entries[pos].1)
        } else {
            proof {
                lemma_gap_is_absent(self.entries@, pos as int, key@);
            }
            None
        }
    }

    /// Whether `key` is bound.
    pub fn contains_key(&self, key: &str) -> (b: bool)
        ensures
            b == self@.contains_key(key@),
    {
        self.get(key).is_some()
    }

    /// Binds `key` to `value`, in place of what it was bound to before.
    pub fn insert(&mut self, key: String, value: V)
        ensures
            final(self)@ == old(self)@.insert(key@, value),
    {
        proof {
            use_type_invariant(&*self);
        }
        let (pos, found) = self.locate(key.as_str());
        let ghost before = self.entries@;
        let mut entries: Vec<(String, V)> = Vec::new();
        core::mem::swap(&mut self.entries, &mut entries);
        if found {
            proof {
                lemma_update_at(before, pos as int, (key, value));
            }
            entries.set(pos, (key, value));
        } else {
            proof {
                lemma_insert_at(before, pos as int, (key, value));
            }
            entries.insert(pos, (key, value));
        }
        core::mem::swap(&mut self.entries, &mut entries);
    }

    /// Takes the binding of `key` out of the map and returns its value.
    pub fn remove(&mut self, key: &str) -> (r: Option<V>)
        ensures
            final(self)@ == old(self)@.remove(key@),
            match r {
                Some(v) => old(self)@.contains_key(key@) && old(self)@[key@] == v,
                None => !old(self)@.contains_key(key@),
            },
    {
        proof {
            use_type_invariant(&*self);
        }
        let (pos, found) = self.locate(key);
        let ghost before = self.entries@;
        if found {
            proof {
                lemma_remove_at(before, pos as int);
                lemma_entry_in_map(before, pos as int);
            }
            let mut entries: Vec<(String, V)> = Vec::new();
            core::mem::swap(&mut self.entries, &mut entries);
            let entry = entries.remove(pos);
            core::mem::swap(&mut self.entries, &mut entries);
            Some(entry.1)
        } else {
            proof {
                lemma_gap_is_absent(before, pos as int, key@);
                assert(entries_map(before).remove(key@) =~= entries_map(before));
            }
            None
        }
    }
}

} // verus!

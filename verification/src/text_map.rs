//! The order of texts, and maps from text that keep their keys in that order.
use crate::text::{chars_of, same, texts};
use vstd::prelude::*;

verus! {

// ---------------------------------------------------------------------------
// Order
// ---------------------------------------------------------------------------
/// Whether `a` comes before `b`, both looked at from position `i` on.
pub open spec fn less_from(a: Seq<char>, b: Seq<char>, i: int) -> bool
    decreases b.len() - i,
{
    if i < 0 || i >= b.len() {
        false
    } else if i >= a.len() {
        true
    } else if a[i] != b[i] {
        a[i] < b[i]
    } else {
        less_from(a, b, i + 1)
    }
}

/// Whether `a` comes before `b` in the order of texts: by the first character that differs,
/// and a text before its continuations.
pub open spec fn text_less(a: Seq<char>, b: Seq<char>) -> bool {
    less_from(a, b, 0)
}

proof fn lemma_less_from_total(a: Seq<char>, b: Seq<char>, i: int)
    requires
        0 <= i <= a.len(),
        i <= b.len(),
        forall|k: int| 0 <= k < i ==> a[k] == b[k],
    ensures
        a == b || less_from(a, b, i) || less_from(b, a, i),
    decreases b.len() - i,
{
    if i < a.len() && i < b.len() && a[i] == b[i] {
        lemma_less_from_total(a, b, i + 1);
    } else if i == a.len() && i == b.len() {
        assert(a =~= b);
    }
}

proof fn lemma_less_from_transitive(a: Seq<char>, b: Seq<char>, c: Seq<char>, i: int)
    requires
        0 <= i,
        less_from(a, b, i),
        less_from(b, c, i),
    ensures
        less_from(a, c, i),
    decreases c.len() - i,
{
    if i < a.len() && i < b.len() && i < c.len() && a[i] == b[i] && b[i] == c[i] {
        lemma_less_from_transitive(a, b, c, i + 1);
    }
}

proof fn lemma_less_from_irreflexive(a: Seq<char>, i: int)
    requires
        0 <= i,
    ensures
        !less_from(a, a, i),
    decreases a.len() - i,
{
    if i < a.len() {
        lemma_less_from_irreflexive(a, i + 1);
    }
}

/// The order of texts is a strict total order.
pub proof fn texts_are_ordered(a: Seq<char>, b: Seq<char>, c: Seq<char>)
    ensures
        !text_less(a, a),
        text_less(a, b) && text_less(b, c) ==> text_less(a, c),
        a == b || text_less(a, b) || text_less(b, a),
        !(text_less(a, b) && text_less(b, a)),
{
    lemma_less_from_irreflexive(a, 0);
    lemma_less_from_total(a, b, 0);
    if text_less(a, b) && text_less(b, c) {
        lemma_less_from_transitive(a, b, c, 0);
    }
    if text_less(a, b) && text_less(b, a) {
        lemma_less_from_transitive(a, b, a, 0);
    }
}

/// Whether `a` comes before `b`.
pub fn comes_before(a: &str, b: &str) -> (r: bool)
    ensures
        r == text_less(a@, b@),
{
    let x = chars_of(a);
    let y = chars_of(b);
    let mut i: usize = 0;
    while i < y.len()
        invariant
            i <= y@.len(),
            i <= x@.len(),
            x@ == a@,
            y@ == b@,
            less_from(a@, b@, i as int) == less_from(a@, b@, 0),
        decreases y@.len() - i,
    {
        if i >= x.len() {
            return true;
        }
        if x[i] != y[i] {
            return x[i] < y[i];
        }
        i += 1;
    }
    false
}

// ---------------------------------------------------------------------------
// Maps
// ---------------------------------------------------------------------------
/// Whether `s` holds no key twice and its keys in order.
pub open spec fn keys_in_order<V>(s: Seq<(String, V)>) -> bool {
    forall|i: int, j: int|
        0 <= i < j < s.len() ==> text_less((#[trigger] s[i]).0@, (#[trigger] s[j]).0@)
}

/// Whether `s` lists the entries of `m`: each once, in the order of the keys.
pub open spec fn lists<V>(s: Seq<(String, V)>, m: Map<Seq<char>, V>) -> bool {
    &&& keys_in_order(s)
    &&& forall|i: int|
        0 <= i < s.len() ==> m.contains_key((#[trigger] s[i]).0@) && m[s[i].0@] == s[i].1
    &&& forall|k: Seq<char>|
        m.contains_key(k) ==> exists|i: int| 0 <= i < s.len() && (#[trigger] s[i]).0@ == k
}

/// A map from text. Its entries come in the order of their keys.
pub struct TextMap<V> {
    entries: Vec<(String, V)>,
}

/// Where `key` stands in `s`.
spec fn place<V>(s: Seq<(String, V)>, key: Seq<char>) -> int {
    choose|i: int| 0 <= i < s.len() && (#[trigger] s[i]).0@ == key
}

spec fn as_map<V>(s: Seq<(String, V)>) -> Map<Seq<char>, V> {
    Map::new(
        |k: Seq<char>| exists|i: int| 0 <= i < s.len() && (#[trigger] s[i]).0@ == k,
        |k: Seq<char>| s[place(s, k)].1,
    )
}

proof fn lemma_place<V>(s: Seq<(String, V)>, i: int)
    requires
        keys_in_order(s),
        0 <= i < s.len(),
    ensures
        place(s, s[i].0@) == i,
        as_map(s).contains_key(s[i].0@),
        as_map(s)[s[i].0@] == s[i].1,
{
    let p = place(s, s[i].0@);
    assert(s[i].0@ == s[i].0@);
    assert(0 <= p < s.len() && s[p].0@ == s[i].0@);
    if p < i {
        texts_are_ordered(s[p].0@, s[i].0@, s[i].0@);
    } else if i < p {
        texts_are_ordered(s[i].0@, s[p].0@, s[i].0@);
    }
}

proof fn lemma_lists<V>(s: Seq<(String, V)>)
    requires
        keys_in_order(s),
    ensures
        lists(s, as_map(s)),
{
    assert forall|i: int| 0 <= i < s.len() implies as_map(s).contains_key((#[trigger] s[i]).0@)
        && as_map(s)[s[i].0@] == s[i].1 by {
        lemma_place(s, i);
    }
}

/// Two lists of one map are the same but for how the keys are held.
proof fn lemma_map_is<V>(s: Seq<(String, V)>, m: Map<Seq<char>, V>)
    requires
        lists(s, m),
    ensures
        as_map(s) == m,
{
    assert forall|k: Seq<char>| as_map(s).contains_key(k) implies m.contains_key(k) && as_map(
        s,
    )[k] == m[k] by {
        let i = choose|i: int| 0 <= i < s.len() && (#[trigger] s[i]).0@ == k;
        lemma_place(s, i);
    }
    assert forall|k: Seq<char>| m.contains_key(k) implies as_map(s).contains_key(k) by {
        let i = choose|i: int| 0 <= i < s.len() && (#[trigger] s[i]).0@ == k;
        lemma_place(s, i);
    }
    assert(as_map(s) =~= m);
}

impl<V> View for TextMap<V> {
    type V = Map<Seq<char>, V>;

    closed spec fn view(&self) -> Map<Seq<char>, V> {
        as_map(self.entries@)
    }
}

impl<V> TextMap<V> {
    #[verifier::type_invariant]
    spec fn in_order(self) -> bool {
        keys_in_order(self.entries@)
    }

    /// An empty map.
    pub fn new() -> (r: TextMap<V>)
        ensures
            r@ == Map::<Seq<char>, V>::empty(),
    {
        let r = TextMap { entries: Vec::new() };
        assert(r@ =~= Map::<Seq<char>, V>::empty());
        r
    }

    /// The first position whose key does not come before `key`, and whether it is `key`.
    fn find(&self, key: &str) -> (r: (usize, bool))
        ensures
            r.0 <= self.entries@.len(),
            forall|i: int| 0 <= i < r.0 ==> text_less((#[trigger] self.entries@[i]).0@, key@),
            r.1 ==> r.0 < self.entries@.len() && self.entries@[r.0 as int].0@ == key@,
            !r.1 ==> forall|i: int|
                r.0 <= i < self.entries@.len() ==> text_less(
                    key@,
                    (#[trigger] self.entries@[i]).0@,
                ),
            r.1 == self@.contains_key(key@),
            r.1 ==> self@[key@] == self.entries@[r.0 as int].1,
    {
        proof {
            use_type_invariant(self);
        }
        let mut i: usize = 0;
        while i < self.entries.len()
            invariant
                i <= self.entries@.len(),
                keys_in_order(self.entries@),
                forall|k: int| 0 <= k < i ==> text_less((#[trigger] self.entries@[k]).0@, key@),
            decreases self.entries@.len() - i,
        {
            let here = self.entries[i].0.as_str();
            if same(here, key) {
                proof {
                    lemma_place(self.entries@, i as int);
                }
                return (i, true);
            }
            if !comes_before(here, key) {
                proof {
                    texts_are_ordered(here@, key@, here@);
                    assert forall|k: int| i <= k < self.entries@.len() implies text_less(
                        key@,
                        (#[trigger] self.entries@[k]).0@,
                    ) by {
                        if k > i {
                            texts_are_ordered(key@, here@, self.entries@[k].0@);
                        }
                    }
                    self.lemma_absent(key@, i as int);
                }
                return (i, false);
            }
            i += 1;
        }
        proof {
            self.lemma_absent(key@, i as int);
        }
        (i, false)
    }

    proof fn lemma_absent(&self, key: Seq<char>, p: int)
        requires
            0 <= p <= self.entries@.len(),
            forall|i: int| 0 <= i < p ==> text_less((#[trigger] self.entries@[i]).0@, key),
            forall|i: int|
                p <= i < self.entries@.len() ==> text_less(key, (#[trigger] self.entries@[i]).0@),
        ensures
            !self@.contains_key(key),
    {
        texts_are_ordered(key, key, key);
    }

    /// What stands under `key`.
    pub fn get(&self, key: &str) -> (r: Option<&V>)
        ensures
            (r is Some) == self@.contains_key(key@),
            r matches Some(v) ==> *v == self@[key@],
    {
        let (p, found) = self.find(key);
        if found {
            Some(&self.entries[p].1)
        } else {
            None
        }
    }

    pub fn contains_key(&self, key: &str) -> (r: bool)
        ensures
            r == self@.contains_key(key@),
    {
        self.find(key).1
    }

    /// Puts `value` under `key`, in the place of what stood there.
    pub fn insert(&mut self, key: String, value: V)
        ensures
            final(self)@ == old(self)@.insert(key@, value),
    {
        proof {
            use_type_invariant(&*self);
        }
        let (p, found) = self.find(key.as_str());
        let ghost before = self.entries@;
        let ghost k = key@;
        let mut entries: Vec<(String, V)> = Vec::new();
        core::mem::swap(&mut entries, &mut self.entries);
        if found {
            entries.set(p, (key, value));
        } else {
            entries.insert(p, (key, value));
        }
        proof {
            lemma_lists(before);
            if found {
                assert(keys_in_order(entries@));
            } else {
                assert forall|i: int, j: int| 0 <= i < j < entries@.len() implies text_less(
                    (#[trigger] entries@[i]).0@,
                    (#[trigger] entries@[j]).0@,
                ) by {
                    let i0 = if i <= p {
                        i
                    } else {
                        i - 1
                    };
                    let j0 = if j <= p {
                        j
                    } else {
                        j - 1
                    };
                    if i != p && j != p {
                        assert(before[i0] == entries@[i]);
                        assert(before[j0] == entries@[j]);
                    } else if i == p {
                        assert(before[j0] == entries@[j]);
                    } else {
                        assert(before[i0] == entries@[i]);
                    }
                }
            }
            let m = as_map(before).insert(k, value);
            assert(entries@[p as int].0@ == k);
            assert forall|i: int| 0 <= i < entries@.len() implies m.contains_key(
                (#[trigger] entries@[i]).0@,
            ) && m[entries@[i].0@] == entries@[i].1 by {
                if i != p {
                    let i0 = if found || i <= p {
                        i
                    } else {
                        i - 1
                    };
                    assert(before[i0] == entries@[i]);
                    lemma_place(before, i0);
                    if i < p {
                        texts_are_ordered(entries@[i].0@, k, k);
                        assert(text_less(entries@[i].0@, entries@[p as int].0@));
                    } else {
                        assert(text_less(entries@[p as int].0@, entries@[i].0@));
                    }
                    texts_are_ordered(k, k, k);
                }
            }
            assert forall|q: Seq<char>| m.contains_key(q) implies exists|i: int|
                0 <= i < entries@.len() && (#[trigger] entries@[i]).0@ == q by {
                if q == k {
                    assert(entries@[p as int].0@ == q);
                } else {
                    let i0 = choose|i: int| 0 <= i < before.len() && (#[trigger] before[i]).0@ == q;
                    let i = if found || i0 < p {
                        i0
                    } else {
                        i0 + 1
                    };
                    assert(entries@[i].0@ == q);
                }
            }
            lemma_map_is(entries@, m);
        }
        self.entries = entries;
    }

    /// Takes out what stands under `key`.
    pub fn remove(&mut self, key: &str) -> (r: Option<V>)
        ensures
            final(self)@ == old(self)@.remove(key@),
            (r is Some) == old(self)@.contains_key(key@),
            r matches Some(v) ==> v == old(self)@[key@],
    {
        proof {
            use_type_invariant(&*self);
        }
        let (p, found) = self.find(key);
        if !found {
            assert(self@.remove(key@) =~= self@);
            return None;
        }
        let ghost before = self.entries@;
        let mut entries: Vec<(String, V)> = Vec::new();
        core::mem::swap(&mut entries, &mut self.entries);
        let (_k, v) = entries.remove(p);
        proof {
            lemma_lists(before);
            let m = as_map(before).remove(key@);
            assert forall|i: int, j: int| 0 <= i < j < entries@.len() implies text_less(
                (#[trigger] entries@[i]).0@,
                (#[trigger] entries@[j]).0@,
            ) by {
                let i0 = if i < p {
                    i
                } else {
                    i + 1
                };
                let j0 = if j < p {
                    j
                } else {
                    j + 1
                };
                assert(before[i0] == entries@[i]);
                assert(before[j0] == entries@[j]);
            }
            assert forall|i: int| 0 <= i < entries@.len() implies m.contains_key(
                (#[trigger] entries@[i]).0@,
            ) && m[entries@[i].0@] == entries@[i].1 by {
                let i0 = if i < p {
                    i
                } else {
                    i + 1
                };
                assert(before[i0] == entries@[i]);
                lemma_place(before, i0);
                lemma_place(before, p as int);
            }
            assert forall|q: Seq<char>| m.contains_key(q) implies exists|i: int|
                0 <= i < entries@.len() && (#[trigger] entries@[i]).0@ == q by {
                let i0 = choose|i: int| 0 <= i < before.len() && (#[trigger] before[i]).0@ == q;
                let i = if i0 < p {
                    i0
                } else {
                    i0 - 1
                };
                assert(entries@[i].0@ == q);
            }
            lemma_map_is(entries@, m);
        }
        self.entries = entries;
        Some(v)
    }

    pub fn is_empty(&self) -> (r: bool)
        ensures
            r == (self@ == Map::<Seq<char>, V>::empty()),
    {
        proof {
            use_type_invariant(self);
            if self.entries@.len() == 0 {
                assert(self@ =~= Map::<Seq<char>, V>::empty());
            } else {
                lemma_place(self.entries@, 0);
            }
        }
        self.entries.len() == 0
    }

    /// The keys, in order.
    pub fn keys(&self) -> (r: Vec<String>)
        ensures
            forall|i: int, j: int|
                0 <= i < j < r@.len() ==> text_less((#[trigger] r@[i])@, (#[trigger] r@[j])@),
            forall|k: Seq<char>| self@.contains_key(k) <==> texts(r@).contains(k),
    {
        proof {
            use_type_invariant(self);
        }
        let mut r: Vec<String> = Vec::new();
        let mut i: usize = 0;
        while i < self.entries.len()
            invariant
                i <= self.entries@.len(),
                r@.len() == i,
                forall|k: int| 0 <= k < i ==> #[trigger] r@[k] == self.entries@[k].0,
            decreases self.entries@.len() - i,
        {
            r.push(self.entries[i].0.clone());
            i += 1;
        }
        proof {
            lemma_lists(self.entries@);
            assert forall|k: Seq<char>| self@.contains_key(k) implies texts(r@).contains(k) by {
                let n = choose|n: int|
                    0 <= n < self.entries@.len() && (#[trigger] self.entries@[n]).0@ == k;
                assert(texts(r@)[n] == k);
            }
            assert forall|k: Seq<char>| texts(r@).contains(k) implies self@.contains_key(k) by {
                let n = choose|n: int| 0 <= n < texts(r@).len() && texts(r@)[n] == k;
                lemma_place(self.entries@, n);
            }
        }
        r
    }

    /// The entries, in the order of their keys.
    pub fn entries(&self) -> (r: &Vec<(String, V)>)
        ensures
            lists(r@, self@),
    {
        proof {
            use_type_invariant(self);
            lemma_lists(self.entries@);
        }
        &self.entries
    }

    /// The entries, in the order of their keys.
    pub fn into_entries(self) -> (r: Vec<(String, V)>)
        ensures
            lists(r@, self@),
    {
        proof {
            use_type_invariant(&self);
            lemma_lists(self.entries@);
        }
        self.entries
    }
}

/// A copy of a map of texts.
pub fn copy_text_map(m: &TextMap<String>) -> (r: TextMap<String>)
    ensures
        r@ == m@,
{
    let entries = m.entries();
    let mut r: TextMap<String> = TextMap::new();
    let mut i: usize = 0;
    while i < entries.len()
        invariant
            i <= entries@.len(),
            lists(entries@, m@),
            forall|k: int|
                0 <= k < i ==> r@.contains_key((#[trigger] entries@[k]).0@) && r@[entries@[k].0@]
                    == entries@[k].1,
            forall|q: Seq<char>|
                r@.contains_key(q) ==> exists|k: int|
                    0 <= k < i && (#[trigger] entries@[k]).0@ == q,
        decreases entries@.len() - i,
    {
        let e = &entries[i];
        let ghost before = r@;
        r.insert(e.0.clone(), e.1.clone());
        proof {
            assert forall|k: int| 0 <= k < i implies r@.contains_key((#[trigger] entries@[k]).0@)
                && r@[entries@[k].0@] == entries@[k].1 by {
                texts_are_ordered(entries@[k].0@, entries@[i as int].0@, entries@[k].0@);
                assert(text_less(entries@[k].0@, entries@[i as int].0@));
            }
            assert forall|q: Seq<char>| r@.contains_key(q) implies exists|k: int|
                0 <= k < i + 1 && (#[trigger] entries@[k]).0@ == q by {
                if before.contains_key(q) {
                    let k = choose|k: int| 0 <= k < i && (#[trigger] entries@[k]).0@ == q;
                    assert(entries@[k].0@ == q);
                } else {
                    assert(entries@[i as int].0@ == q);
                }
            }
        }
        i += 1;
    }
    assert(r@ =~= m@);
    r
}

proof fn lemma_less_at(a: Seq<char>, b: Seq<char>, from: int, i: int)
    requires
        0 <= from <= i <= a.len(),
        i < b.len(),
        forall|k: int| from <= k < i ==> a[k] == b[k],
        i == a.len() || a[i] < b[i],
    ensures
        less_from(a, b, from),
    decreases i - from,
{
    if from < i {
        lemma_less_at(a, b, from + 1, i);
    }
}

/// The first character that differs decides the order of two texts, and a text comes before
/// every longer one that starts with it.
pub proof fn the_first_difference_decides(start: Seq<char>, a: Seq<char>, b: Seq<char>)
    ensures
        a.len() > 0 && b.len() > 0 && a[0] < b[0] ==> text_less(start + a, start + b),
        b.len() > 0 ==> text_less(start, start + b),
{
    let n = start.len() as int;
    if a.len() > 0 && b.len() > 0 && a[0] < b[0] {
        lemma_less_at(start + a, start + b, 0, n);
    }
    if b.len() > 0 {
        lemma_less_at(start, start + b, 0, n);
    }
}

/// A list of a map holds each of its keys, once and with what stands under it.
pub proof fn every_key_is_listed<V>(s: Seq<(String, V)>, m: Map<Seq<char>, V>, k: Seq<char>)
    requires
        lists(s, m),
    ensures
        m.contains_key(k) <==> exists|i: int| 0 <= i < s.len() && (#[trigger] s[i]).0@ == k,
        forall|i: int| 0 <= i < s.len() && (#[trigger] s[i]).0@ == k ==> s[i].1 == m[k],
        forall|i: int, j: int|
            0 <= i < j < s.len() ==> text_less((#[trigger] s[i]).0@, (#[trigger] s[j]).0@),
{
}

} // verus!

//! An ordered map from text to text.

use crate::text;
use vstd::prelude::*;

verus! {

/// Strictly increasing in the order of texts.
pub open spec fn increasing(s: Seq<Seq<char>>) -> bool {
    forall|i: int, j: int| 0 <= i < j < s.len() ==> text::text_less(#[trigger] s[i], #[trigger] s[j])
}

pub open spec fn lists_keys(s: Seq<Seq<char>>, m: Map<Seq<char>, Seq<char>>) -> bool {
    &&& increasing(s)
    &&& forall|k: Seq<char>| #[trigger] m.contains_key(k) <==> s.contains(k)
}

/// The keys of `m` in increasing order.
pub open spec fn sorted_keys(m: Map<Seq<char>, Seq<char>>) -> Seq<Seq<char>> {
    choose|s: Seq<Seq<char>>| lists_keys(s, m)
}

/// An increasing sequence is determined by its elements.
pub proof fn lemma_increasing_unique(a: Seq<Seq<char>>, b: Seq<Seq<char>>)
    requires
        increasing(a),
        increasing(b),
        forall|k: Seq<char>| a.contains(k) <==> b.contains(k),
    ensures
        a == b,
    decreases a.len(),
{
    if a.len() == 0 {
        if b.len() > 0 {
            assert(b.contains(b[0]));
        }
        assert(a =~= b);
    } else if b.len() == 0 {
        assert(a.contains(a[0]));
        assert(false);
    } else {
        let x = a.last();
        let y = b.last();
        assert(a.contains(x));
        assert(b.contains(y));
        let i = choose|i: int| 0 <= i < a.len() && a[i] == y;
        let j = choose|j: int| 0 <= j < b.len() && b[j] == x;
        text::law_text_order_total(x, y);
        assert(x == y) by {
            if x != y {
                assert(i != a.len() - 1);
                assert(j != b.len() - 1);
                assert(text::text_less(a[i], a[a.len() - 1]));
                assert(text::text_less(b[j], b[b.len() - 1]));
            }
        }
        let p = a.drop_last();
        let q = b.drop_last();
        assert forall|k: Seq<char>| p.contains(k) <==> q.contains(k) by {
            text::law_text_order_total(x, x);
            if p.contains(k) {
                let m = choose|m: int| 0 <= m < p.len() && p[m] == k;
                assert(text::text_less(a[m], a[a.len() - 1]));
                assert(a.contains(k)) by {
                    assert(a[m] == k);
                }
                let n = choose|n: int| 0 <= n < b.len() && b[n] == k;
                assert(n != b.len() - 1);
                assert(q[n] == k);
            }
            if q.contains(k) {
                let m = choose|m: int| 0 <= m < q.len() && q[m] == k;
                assert(text::text_less(b[m], b[b.len() - 1]));
                assert(b.contains(k)) by {
                    assert(b[m] == k);
                }
                let n = choose|n: int| 0 <= n < a.len() && a[n] == k;
                assert(n != a.len() - 1);
                assert(p[n] == k);
            }
        }
        lemma_increasing_unique(p, q);
        assert(a =~= p.push(x));
        assert(b =~= q.push(y));
    }
}

pub open spec fn pair_keys(entries: Seq<(String, String)>) -> Seq<Seq<char>> {
    entries.map_values(|e: (String, String)| e.0@)
}

pub open spec fn pair_map(entries: Seq<(String, String)>) -> Map<Seq<char>, Seq<char>> {
    Map::new(
        |k: Seq<char>| pair_keys(entries).contains(k),
        |k: Seq<char>| entries[pair_keys(entries).index_of(k)].1@,
    )
}

/// An increasing sequence with one more text in its place.
pub open spec fn with_text(s: Seq<Seq<char>>, k: Seq<char>) -> Seq<Seq<char>>
    decreases s.len(),
{
    if s.len() == 0 {
        seq![k]
    } else if s.last() == k {
        s
    } else if text::text_less(s.last(), k) {
        s.push(k)
    } else {
        with_text(s.drop_last(), k).push(s.last())
    }
}

proof fn lemma_with_text(s: Seq<Seq<char>>, k: Seq<char>)
    requires
        increasing(s),
    ensures
        increasing(with_text(s, k)),
        forall|x: Seq<char>| #[trigger] with_text(s, k).contains(x) <==> s.contains(x) || x == k,
    decreases s.len(),
{
    let r = with_text(s, k);
    if s.len() == 0 {
        assert(r[0] == k);
    } else if s.last() == k {
        assert(s[s.len() - 1] == k);
    } else if text::text_less(s.last(), k) {
        assert forall|i: int, j: int| 0 <= i < j < r.len() implies text::text_less(
            #[trigger] r[i],
            #[trigger] r[j],
        ) by {
            if j == s.len() && i < s.len() - 1 {
                text::law_text_order_transitive(s[i], s.last(), k);
            }
        }
        assert forall|x: Seq<char>| #[trigger] r.contains(x) <==> s.contains(x) || x == k by {
            if s.contains(x) {
                assert(r[s.index_of(x)] == x);
            }
            assert(r[s.len() as int] == k);
        }
    } else {
        let t = s.drop_last();
        let u = with_text(t, k);
        assert(increasing(t));
        lemma_with_text(t, k);
        text::law_text_order_total(s.last(), k);
        assert forall|i: int, j: int| 0 <= i < j < r.len() implies text::text_less(
            #[trigger] r[i],
            #[trigger] r[j],
        ) by {
            if j == u.len() {
                assert(u.contains(u[i]));
                if t.contains(u[i]) {
                    let n = t.index_of(u[i]);
                    assert(text::text_less(s[n], s[s.len() - 1]));
                }
            }
        }
        assert forall|x: Seq<char>| #[trigger] r.contains(x) <==> s.contains(x) || x == k by {
            assert(r[u.len() as int] == s.last());
            assert(s[s.len() - 1] == s.last());
            if r.contains(x) {
                let n = r.index_of(x);
                if n < u.len() {
                    assert(u[n] == x);
                    assert(u.contains(x));
                    if t.contains(x) {
                        assert(s[t.index_of(x)] == x);
                    }
                }
            }
            if s.contains(x) || x == k {
                if x != s.last() {
                    if s.contains(x) {
                        let n = s.index_of(x);
                        assert(s[n] == x && n < t.len());
                        assert(t[n] == x);
                        assert(t.contains(x));
                    }
                    assert(u.contains(x));
                    assert(r[u.index_of(x)] == x);
                }
            }
        }
    }
}

/// Where the keys of a map can be listed, so can those of the map with one more.
pub proof fn lemma_insert_listed(m: Map<Seq<char>, Seq<char>>, k: Seq<char>, v: Seq<char>)
    requires
        lists_keys(sorted_keys(m), m),
    ensures
        lists_keys(sorted_keys(m.insert(k, v)), m.insert(k, v)),
{
    let s = with_text(sorted_keys(m), k);
    lemma_with_text(sorted_keys(m), k);
    assert forall|x: Seq<char>| #[trigger] m.insert(k, v).contains_key(x) <==> s.contains(x) by {
        assert(m.contains_key(x) <==> sorted_keys(m).contains(x));
    }
    assert(lists_keys(s, m.insert(k, v)));
}

/// A map from text to text whose keys are kept in order.
#[derive(Debug)]
pub struct TextMap {
    entries: Vec<(String, String)>,
}

impl View for TextMap {
    type V = Map<Seq<char>, Seq<char>>;

    closed spec fn view(&self) -> Map<Seq<char>, Seq<char>> {
        pair_map(self.entries@)
    }
}

proof fn lemma_index_unique(entries: Seq<(String, String)>, i: int)
    requires
        increasing(pair_keys(entries)),
        0 <= i < entries.len(),
    ensures
        pair_keys(entries).contains(entries[i].0@),
        pair_keys(entries).index_of(entries[i].0@) == i,
{
    let keys = pair_keys(entries);
    let k = entries[i].0@;
    assert(keys[i] == k);
    let j = keys.index_of(k);
    assert(0 <= j < keys.len() && keys[j] == k);
    text::law_text_order_total(k, k);
    if j < i {
        assert(text::text_less(keys[j], keys[i]));
    } else if i < j {
        assert(text::text_less(keys[i], keys[j]));
    }
}

pub proof fn lemma_take_next(all: Seq<Seq<char>>, i: int)
    requires
        0 <= i < all.len(),
    ensures
        forall|x: Seq<char>| #[trigger]
            all.take(i + 1).contains(x) <==> all.take(i).contains(x) || x == all[i],
{
    let t = all.take(i);
    let u = all.take(i + 1);
    assert forall|x: Seq<char>| #[trigger] u.contains(x) <==> t.contains(x) || x == all[i] by {
        if u.contains(x) && x != all[i] {
            let p = u.index_of(x);
            assert(t[p] == x);
        }
        if t.contains(x) {
            let p = t.index_of(x);
            assert(u[p] == x);
        }
        assert(u[i] == all[i]);
    }
}

impl TextMap {
    #[verifier::type_invariant]
    closed spec fn wf(self) -> bool {
        increasing(pair_keys(self.entries@))
    }

    /// The empty map.
    pub fn new() -> (r: TextMap)
        ensures
            r@ == Map::<Seq<char>, Seq<char>>::empty(),
    {
        let r = TextMap { entries: Vec::new() };
        assert(r@ =~= Map::<Seq<char>, Seq<char>>::empty());
        r
    }

    /// The value at `key`.
    pub fn get(&self, key: &str) -> (r: Option<&String>)
        ensures
            match r {
                Some(v) => self@.contains_key(key@) && v@ == self@[key@],
                None => !self@.contains_key(key@),
            },
    {
        proof {
            use_type_invariant(self);
        }
        let mut i: usize = 0;
        while i < self.entries.len()
            invariant
                increasing(pair_keys(self.entries@)),
                i <= self.entries@.len(),
                forall|j: int| 0 <= j < i ==> pair_keys(self.entries@)[j] != key@,
            decreases self.entries@.len() - i,
        {
            if text::same(self.entries[i].0.as_str(), key) {
                proof {
                    lemma_index_unique(self.entries@, i as int);
                }
                return Some(&self.entries[i].1);
            }
            i += 1;
        }
        None
    }

    /// Whether `key` is present.
    pub fn contains_key(&self, key: &str) -> (r: bool)
        ensures
            r == self@.contains_key(key@),
    {
        self.get(key).is_some()
    }

    /// Binds `key` to `value`, in place of an earlier value.
    pub fn insert(&mut self, key: String, value: String)
        ensures
            final(self)@ == old(self)@.insert(key@, value@),
    {
        proof {
            use_type_invariant(&*self);
        }
        let mut entries: Vec<(String, String)> = Vec::new();
        std::mem::swap(&mut entries, &mut self.entries);
        let ghost before = entries@;
        let ghost bkeys = pair_keys(before);
        assert(old(self)@ == pair_map(before));
        let mut i: usize = 0;
        while i < entries.len() && text::is_less(entries[i].0.as_str(), key.as_str())
            invariant
                entries@ == before,
                bkeys == pair_keys(before),
                increasing(bkeys),
                i <= entries@.len(),
                forall|j: int| 0 <= j < i ==> text::text_less(bkeys[j], key@),
            decreases entries@.len() - i,
        {
            i += 1;
        }
        let ghost k = key@;
        let ghost v = value@;
        if i < entries.len() && text::same(entries[i].0.as_str(), key.as_str()) {
            entries.set(i, (key, value));
            proof {
                assert(pair_keys(entries@) =~= bkeys);
                let after = pair_map(entries@);
                lemma_index_unique(before, i as int);
                lemma_index_unique(entries@, i as int);
                assert forall|x: Seq<char>| after.contains_key(x) implies after[x] == pair_map(
                    before,
                ).insert(k, v)[x] by {
                    let p = bkeys.index_of(x);
                    assert(bkeys[p] == x);
                    if p != i {
                        text::law_text_order_total(k, k);
                        if p < i {
                            assert(text::text_less(bkeys[p], bkeys[i as int]));
                        } else {
                            assert(text::text_less(bkeys[i as int], bkeys[p]));
                        }
                        assert(x != k);
                    }
                }
                assert(after =~= pair_map(before).insert(k, v));
            }
        } else {
            proof {
                if i < before.len() {
                    text::law_text_order_total(bkeys[i as int], k);
                    assert(text::text_less(k, bkeys[i as int]));
                }
            }
            entries.insert(i, (key, value));
            proof {
                let akeys = pair_keys(entries@);
                assert(akeys =~= bkeys.insert(i as int, k));
                assert forall|a: int, b: int| 0 <= a < b < akeys.len() implies text::text_less(
                    #[trigger] akeys[a],
                    #[trigger] akeys[b],
                ) by {
                    if a < i && b > i {
                        assert(text::text_less(bkeys[a], bkeys[b - 1]));
                    } else if a > i {
                        assert(text::text_less(bkeys[a - 1], bkeys[b - 1]));
                    } else if a == i {
                        if b - 1 != i {
                            assert(text::text_less(bkeys[i as int], bkeys[b - 1]));
                            text::law_text_order_transitive(k, bkeys[i as int], bkeys[b - 1]);
                        }
                    } else if b < i {
                        assert(text::text_less(bkeys[a], bkeys[b]));
                    }
                }
                let after = pair_map(entries@);
                lemma_index_unique(entries@, i as int);
                assert forall|x: Seq<char>| after.contains_key(x) implies pair_map(before).insert(
                    k,
                    v,
                ).contains_key(x) && after[x] == pair_map(before).insert(k, v)[x] by {
                    let p = akeys.index_of(x);
                    assert(akeys[p] == x);
                    if p < i {
                        lemma_index_unique(before, p);
                        assert(text::text_less(akeys[p], akeys[i as int]));
                        text::law_text_order_total(k, k);
                    } else if p > i {
                        lemma_index_unique(before, p - 1);
                        assert(text::text_less(akeys[i as int], akeys[p]));
                        text::law_text_order_total(k, k);
                    }
                }
                assert forall|x: Seq<char>| pair_map(before).insert(k, v).contains_key(
                    x,
                ) implies after.contains_key(x) by {
                    if x == k {
                        assert(akeys[i as int] == k);
                    } else {
                        let p = bkeys.index_of(x);
                        assert(bkeys[p] == x);
                        if p < i {
                            assert(akeys[p] == x);
                        } else {
                            assert(akeys[p + 1] == x);
                        }
                    }
                }
                assert(after =~= pair_map(before).insert(k, v));
            }
        }
        self.entries = entries;
    }

    /// Removes `key`.
    pub fn remove(&mut self, key: &str)
        ensures
            final(self)@ == old(self)@.remove(key@),
    {
        let mut kept = TextMap::new();
        let n = self.len();
        let mut i: usize = 0;
        let ghost all = sorted_keys(self@);
        while i < n
            invariant
                n == all.len(),
                i <= n,
                all == sorted_keys(self@),
                lists_keys(all, self@),
                *self == *old(self),
                forall|x: Seq<char>| #[trigger]
                    kept@.contains_key(x) <==> all.take(i as int).contains(x) && x != key@,
                forall|x: Seq<char>| #[trigger] kept@.contains_key(x) ==> kept@[x] == self@[x],
            decreases n - i,
        {
            let (k, v) = self.entry(i);
            proof {
                lemma_take_next(all, i as int);
            }
            if !text::same(k.as_str(), key) {
                kept.insert(k, v);
            }
            i += 1;
        }
        proof {
            assert(all.take(n as int) =~= all);
            assert(kept@ =~= self@.remove(key@));
        }
        *self = kept;
    }

    /// Binds every key of `other` to its value there.
    pub fn extend(&mut self, other: &TextMap)
        ensures
            final(self)@ == old(self)@.union_prefer_right(other@),
    {
        let n = other.len();
        let mut i: usize = 0;
        let ghost all = sorted_keys(other@);
        let ghost before = self@;
        while i < n
            invariant
                n == all.len(),
                i <= n,
                all == sorted_keys(other@),
                lists_keys(all, other@),
                forall|x: Seq<char>| #[trigger]
                    self@.contains_key(x) <==> before.contains_key(x) || all.take(i as int).contains(x),
                forall|x: Seq<char>| #[trigger]
                    self@.contains_key(x) ==> self@[x] == (if all.take(i as int).contains(x) {
                        other@[x]
                    } else {
                        before[x]
                    }),
            decreases n - i,
        {
            let (k, v) = other.entry(i);
            proof {
                lemma_take_next(all, i as int);
            }
            self.insert(k, v);
            i += 1;
        }
        proof {
            assert(all.take(n as int) =~= all);
            assert(self@ =~= before.union_prefer_right(other@));
        }
    }

    /// How many keys there are.
    pub fn len(&self) -> (n: usize)
        ensures
            n == sorted_keys(self@).len(),
            lists_keys(sorted_keys(self@), self@),
    {
        proof {
            use_type_invariant(self);
            self.lemma_sorted();
        }
        self.entries.len()
    }

    proof fn lemma_sorted(&self)
        requires
            increasing(pair_keys(self.entries@)),
        ensures
            sorted_keys(self@) == pair_keys(self.entries@),
            lists_keys(sorted_keys(self@), self@),
    {
        let keys = pair_keys(self.entries@);
        assert(lists_keys(keys, self@));
        let s = sorted_keys(self@);
        assert(lists_keys(s, self@));
        assert forall|k: Seq<char>| s.contains(k) <==> keys.contains(k) by {
            assert(self@.contains_key(k) <==> s.contains(k));
        }
        lemma_increasing_unique(s, keys);
    }

    /// The key and value at position `i` of the key order.
    pub fn entry(&self, i: usize) -> (r: (String, String))
        requires
            i < sorted_keys(self@).len(),
        ensures
            r.0@ == sorted_keys(self@)[i as int],
            self@.contains_key(r.0@),
            r.1@ == self@[r.0@],
    {
        proof {
            use_type_invariant(self);
            self.lemma_sorted();
            lemma_index_unique(self.entries@, i as int);
        }
        (self.entries[i].0.clone(), self.entries[i].1.clone())
    }

    /// The keys in increasing order.
    pub fn keys(&self) -> (r: Vec<String>)
        ensures
            text::texts(r@) == sorted_keys(self@),
            lists_keys(sorted_keys(self@), self@),
    {
        let n = self.len();
        let mut r: Vec<String> = Vec::new();
        let mut i: usize = 0;
        proof {
            text::lemma_texts_empty(r@);
            assert(sorted_keys(self@).take(0) =~= Seq::<Seq<char>>::empty());
        }
        while i < n
            invariant
                n == sorted_keys(self@).len(),
                i <= n,
                text::texts(r@) == sorted_keys(self@).take(i as int),
            decreases n - i,
        {
            let (k, v) = self.entry(i);
            proof {
                text::lemma_texts_push(r@, k);
                assert(sorted_keys(self@).take(i + 1) =~= sorted_keys(self@).take(i as int).push(k@));
            }
            r.push(k);
            i += 1;
        }
        assert(sorted_keys(self@).take(n as int) =~= sorted_keys(self@));
        r
    }

    /// Whether there is no key.
    pub fn is_empty(&self) -> (r: bool)
        ensures
            r == (self@ == Map::<Seq<char>, Seq<char>>::empty()),
    {
        let n = self.len();
        proof {
            let s = sorted_keys(self@);
            if n == 0 {
                assert(self@ =~= Map::<Seq<char>, Seq<char>>::empty()) by {
                    assert forall|k: Seq<char>| !self@.contains_key(k) by {
                        assert(self@.contains_key(k) <==> s.contains(k));
                    }
                }
            } else {
                assert(s.contains(s[0]));
                assert(self@.contains_key(s[0]));
            }
        }
        n == 0
    }
}

impl Clone for TextMap {
    fn clone(&self) -> (r: Self)
        ensures
            r@ == self@,
    {
        let n = self.len();
        let mut r = TextMap::new();
        let mut i: usize = 0;
        let ghost all = sorted_keys(self@);
        while i < n
            invariant
                n == all.len(),
                i <= n,
                all == sorted_keys(self@),
                lists_keys(all, self@),
                forall|x: Seq<char>| #[trigger]
                    r@.contains_key(x) <==> all.take(i as int).contains(x),
                forall|x: Seq<char>| #[trigger] r@.contains_key(x) ==> r@[x] == self@[x],
            decreases n - i,
        {
            let (k, v) = self.entry(i);
            proof {
                lemma_take_next(all, i as int);
            }
            r.insert(k, v);
            i += 1;
        }
        proof {
            assert(all.take(n as int) =~= all);
            assert(r@ =~= self@);
        }
        r
    }
}

impl Default for TextMap {
    fn default() -> (r: Self)
        ensures
            r@ == Map::<Seq<char>, Seq<char>>::empty(),
    {
        TextMap::new()
    }
}

/// What the pairs map to, the last pair of a key winning.
pub open spec fn collected(pairs: Seq<(Seq<char>, Seq<char>)>) -> Map<Seq<char>, Seq<char>>
    decreases pairs.len(),
{
    if pairs.len() == 0 {
        Map::empty()
    } else {
        collected(pairs.drop_last()).insert(pairs.last().0, pairs.last().1)
    }
}

pub open spec fn pair_texts(pairs: Seq<(String, String)>) -> Seq<(Seq<char>, Seq<char>)> {
    pairs.map_values(|e: (String, String)| (e.0@, e.1@))
}

/// The map of `pairs`, the last pair of a key winning.
pub fn collect_pairs(pairs: &Vec<(String, String)>) -> (r: TextMap)
    ensures
        r@ == collected(pair_texts(pairs@)),
{
    let mut r = TextMap::new();
    let mut i: usize = 0;
    let ghost all = pair_texts(pairs@);
    assert(all.take(0).len() == 0);
    while i < pairs.len()
        invariant
            i <= pairs@.len(),
            all == pair_texts(pairs@),
            r@ == collected(all.take(i as int)),
        decreases pairs@.len() - i,
    {
        proof {
            assert(all.take(i + 1).drop_last() =~= all.take(i as int));
            assert(all.take(i + 1).last() == (pairs@[i as int].0@, pairs@[i as int].1@));
        }
        r.insert(pairs[i].0.clone(), pairs[i].1.clone());
        i += 1;
    }
    assert(all.take(all.len() as int) =~= all);
    r
}

/// The optional text at `key`.
pub open spec fn at(m: Map<Seq<char>, Seq<char>>, key: Seq<char>) -> Option<Seq<char>> {
    if m.contains_key(key) {
        Some(m[key])
    } else {
        None
    }
}

/// A copy of the value at `key`.
pub fn value_at(m: &TextMap, key: &str) -> (r: Option<String>)
    ensures
        text::opt_text(r) == at(m@, key@),
{
    match m.get(key) {
        Some(v) => Some(v.clone()),
        None => None,
    }
}

} // verus!

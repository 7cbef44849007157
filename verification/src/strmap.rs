//! An ordered string-keyed map, kept as an association list sorted strictly
//! ascending by key. It stands in for a tree map: insertion replaces the
//! value of an equal key, and iteration visits keys in ascending order.

use vstd::prelude::*;

use crate::text::{chars_lt, lemma_chars_lt_asym, lemma_chars_lt_total, lemma_chars_lt_trans,
    str_eq, str_lt};

verus! {

/// Looks a key up in an association list, front to back.
pub open spec fn spec_get<VV>(s: Seq<(Seq<char>, VV)>, k: Seq<char>) -> Option<VV>
    decreases s.len(),
{
    if s.len() == 0 {
        None
    } else if s[0].0 == k {
        Some(s[0].1)
    } else {
        spec_get(s.drop_first(), k)
    }
}

/// Inserts a pair into a sorted association list, keeping the order and
/// replacing the value of an equal key.
pub open spec fn spec_insert<VV>(s: Seq<(Seq<char>, VV)>, k: Seq<char>, v: VV) -> Seq<
    (Seq<char>, VV),
>
    decreases s.len(),
{
    if s.len() == 0 {
        seq![(k, v)]
    } else if chars_lt(s[0].0, k) {
        seq![s[0]] + spec_insert(s.drop_first(), k, v)
    } else if s[0].0 == k {
        seq![(k, v)] + s.drop_first()
    } else {
        seq![(k, v)] + s
    }
}

/// The keys of an association list are strictly ascending.
pub open spec fn sorted_keys<VV>(s: Seq<(Seq<char>, VV)>) -> bool {
    forall|i: int, j: int| 0 <= i < j < s.len() ==> chars_lt(#[trigger] s[i].0, #[trigger] s[j].0)
}

/// [`spec_insert`] in terms of the first position `i` whose key does not sort
/// before `k`: it either overwrites in place or splices the new pair in.
proof fn lemma_insert_at<VV>(s: Seq<(Seq<char>, VV)>, k: Seq<char>, v: VV, i: int)
    requires
        0 <= i <= s.len(),
        forall|j: int| 0 <= j < i ==> chars_lt(#[trigger] s[j].0, k),
        i < s.len() ==> !chars_lt(s[i].0, k),
    ensures
        i < s.len() && s[i].0 == k ==> spec_insert(s, k, v) == s.update(i, (k, v)),
        !(i < s.len() && s[i].0 == k) ==> spec_insert(s, k, v) == s.take(i) + seq![(k, v)]
            + s.skip(i),
    decreases i,
{
    if i == 0 {
        if s.len() > 0 && s[0].0 == k {
            assert(spec_insert(s, k, v) =~= s.update(0, (k, v)));
        } else {
            assert(s.take(0) + seq![(k, v)] + s.skip(0) =~= seq![(k, v)] + s);
            if s.len() > 0 {
                assert(!chars_lt(s[0].0, k));
                assert(spec_insert(s, k, v) == seq![(k, v)] + s);
            }
        }
    } else {
        assert(chars_lt(s[0].0, k));
        let t = s.drop_first();
        assert forall|j: int| 0 <= j < i - 1 implies chars_lt(#[trigger] t[j].0, k) by {
            assert(t[j] == s[j + 1]);
        }
        if i - 1 < t.len() {
            assert(t[i - 1] == s[i]);
        }
        lemma_insert_at(t, k, v, i - 1);
        if i < s.len() && s[i].0 == k {
            assert(spec_insert(s, k, v) =~= s.update(i, (k, v)));
        } else {
            assert(spec_insert(s, k, v) =~= s.take(i) + seq![(k, v)] + s.skip(i));
        }
    }
}

/// An ordered map from strings to values, with ascending iteration order.
#[derive(Clone, Debug, PartialEq)]
pub struct SortedMap<V> {
    entries: Vec<(String, V)>,
}

impl<V: DeepView> View for SortedMap<V> {
    type V = Seq<(Seq<char>, V::V)>;

    closed spec fn view(&self) -> Seq<(Seq<char>, V::V)> {
        self.entries@.map(|i: int, e: (String, V)| (e.0@, e.1.deep_view()))
    }
}

impl<V: DeepView> SortedMap<V> {
    /// The representation invariant: keys strictly ascending.
    pub open spec fn wf(&self) -> bool {
        sorted_keys(self@)
    }

    /// Creates an empty map.
    pub fn new() -> (r: SortedMap<V>)
        ensures
            r@ == Seq::<(Seq<char>, V::V)>::empty(),
            r.wf(),
    {
        let r = SortedMap { entries: Vec::new() };
        proof {
            assert(r@ =~= Seq::<(Seq<char>, V::V)>::empty());
        }
        r
    }

    /// The number of entries.
    pub fn len(&self) -> (n: usize)
        ensures
            n == self@.len(),
    {
        self.entries.len()
    }

    /// The entry at position `i` in ascending key order.
    pub fn entry_at(&self, i: usize) -> (e: &(String, V))
        requires
            i < self@.len(),
        ensures
            e.0@ == self@[i as int].0,
            e.1.deep_view() == self@[i as int].1,
    {
        &self.entries[i]
    }

    /// Inserts `key` with `value`, replacing the value of an equal key.
    pub fn insert(&mut self, key: String, value: V)
        requires
            old(self).wf(),
        ensures
            final(self).wf(),
            final(self)@ == spec_insert(old(self)@, key@, value.deep_view()),
    {
        let ghost s = self@;
        let n = self.entries.len();
        let mut i: usize = 0;
        while i < n && str_lt(&self.entries[i].0, &key)
            invariant
                n == s.len(),
                self@ == s,
                i <= n,
                forall|j: int| 0 <= j < i ==> chars_lt(#[trigger] s[j].0, key@),
            decreases n - i,
        {
            i += 1;
        }
        proof {
            lemma_insert_at(s, key@, value.deep_view(), i as int);
        }
        if i < n && str_eq(&self.entries[i].0, &key) {
            self.entries.set(i, (key, value));
            proof {
                assert(self@ =~= s.update(i as int, (key@, value.deep_view())));
                assert forall|p: int, q: int| 0 <= p < q < self@.len() implies chars_lt(
                    #[trigger] self@[p].0,
                    #[trigger] self@[q].0,
                ) by {
                    assert(self@[p].0 == s[p].0);
                    assert(self@[q].0 == s[q].0);
                }
            }
        } else {
            proof {
                if i < n {
                    // the key at `i` does not sort before `key` and differs
                    // from it, so `key` sorts strictly before it
                    lemma_chars_lt_total(s[i as int].0, key@);
                }
            }
            self.entries.insert(i, (key, value));
            proof {
                assert(self@ =~= s.take(i as int) + seq![(key@, value.deep_view())] + s.skip(i as int));
                assert forall|p: int, q: int| 0 <= p < q < self@.len() implies chars_lt(
                    #[trigger] self@[p].0,
                    #[trigger] self@[q].0,
                ) by {
                    let iv = i as int;
                    if p < iv && q == iv {
                        assert(self@[p].0 == s[p].0);
                    } else if p == iv && q > iv {
                        assert(self@[q].0 == s[q - 1].0);
                        if q - 1 > iv - 1 + 1 {
                            lemma_chars_lt_trans(key@, s[iv].0, s[q - 1].0);
                        }
                    } else if p < iv && q > iv {
                        assert(self@[p].0 == s[p].0);
                        assert(self@[q].0 == s[q - 1].0);
                    } else if p > iv && q > iv {
                        assert(self@[p].0 == s[p - 1].0);
                        assert(self@[q].0 == s[q - 1].0);
                    } else {
                        assert(self@[p].0 == s[p].0);
                        assert(self@[q].0 == s[q].0);
                    }
                }
            }
        }
    }

    /// Looks `key` up.
    pub fn get(&self, key: &str) -> (r: Option<&V>)
        ensures
            match r {
                Some(v) => spec_get(self@, key@) == Some(v.deep_view()),
                None => spec_get(self@, key@) is None,
            },
    {
        let n = self.entries.len();
        let mut i: usize = 0;
        proof {
            assert(self@.skip(0) =~= self@);
        }
        while i < n
            invariant
                n == self@.len(),
                i <= n,
                spec_get(self@, key@) == spec_get(self@.skip(i as int), key@),
            decreases n - i,
        {
            proof {
                assert(self@.skip(i as int)[0] == self@[i as int]);
                assert(self@.skip(i as int).drop_first() =~= self@.skip(i as int + 1));
            }
            if str_eq(&self.entries[i].0, key) {
                return Some(&self.entries[i].1);
            }
            i += 1;
        }
        proof {
            assert(self@.skip(n as int).len() == 0);
        }
        None
    }
}


/// Insertion order does not matter: inserting two pairs with distinct keys
/// produces the same list either way round. Since iteration order is
/// canonical (ascending by key), the whole map — and anything rendered from
/// it — is identical however its entries were added.
pub proof fn lemma_insert_commutes<VV>(
    s: Seq<(Seq<char>, VV)>,
    k1: Seq<char>,
    v1: VV,
    k2: Seq<char>,
    v2: VV,
)
    requires
        k1 != k2,
    ensures
        spec_insert(spec_insert(s, k1, v1), k2, v2) == spec_insert(spec_insert(s, k2, v2), k1, v1),
    decreases s.len(),
{
    lemma_chars_lt_total(k1, k2);
    lemma_chars_lt_asym(k1, k2);
    lemma_chars_lt_asym(k2, k1);
    let empty = Seq::<(Seq<char>, VV)>::empty();
    if s.len() == 0 {
        assert(spec_insert(s, k1, v1) == seq![(k1, v1)]);
        assert(spec_insert(s, k2, v2) == seq![(k2, v2)]);
        assert(seq![(k1, v1)].drop_first() =~= empty);
        assert(seq![(k2, v2)].drop_first() =~= empty);
        assert(seq![(k1, v1)][0] == (k1, v1));
        assert(seq![(k2, v2)][0] == (k2, v2));
        assert(spec_insert(empty, k1, v1) == seq![(k1, v1)]);
        assert(spec_insert(empty, k2, v2) == seq![(k2, v2)]);
        if chars_lt(k1, k2) {
            assert(spec_insert(seq![(k1, v1)], k2, v2) =~= seq![(k1, v1), (k2, v2)]);
            assert(spec_insert(seq![(k2, v2)], k1, v1) =~= seq![(k1, v1), (k2, v2)]);
        } else {
            assert(chars_lt(k2, k1));
            assert(spec_insert(seq![(k1, v1)], k2, v2) =~= seq![(k2, v2), (k1, v1)]);
            assert(spec_insert(seq![(k2, v2)], k1, v1) =~= seq![(k2, v2), (k1, v1)]);
        }
    } else {
        let h = s[0];
        let k0 = h.0;
        let t = s.drop_first();
        lemma_chars_lt_total(k0, k1);
        lemma_chars_lt_total(k0, k2);
        lemma_chars_lt_asym(k0, k1);
        lemma_chars_lt_asym(k0, k2);
        if chars_lt(k0, k1) && chars_lt(k0, k2) {
            // both insertions pass the head; commute in the tail
            lemma_insert_commutes(t, k1, v1, k2, v2);
            let a = spec_insert(t, k1, v1);
            let b = spec_insert(t, k2, v2);
            assert(spec_insert(s, k1, v1) == seq![h] + a);
            assert((seq![h] + a)[0] == h);
            assert((seq![h] + a).drop_first() =~= a);
            assert(spec_insert(seq![h] + a, k2, v2) == seq![h] + spec_insert(a, k2, v2));
            assert(spec_insert(s, k2, v2) == seq![h] + b);
            assert((seq![h] + b)[0] == h);
            assert((seq![h] + b).drop_first() =~= b);
            assert(spec_insert(seq![h] + b, k1, v1) == seq![h] + spec_insert(b, k1, v1));
        } else if chars_lt(k0, k1) && !chars_lt(k0, k2) && k0 != k2 {
            // the second key sorts before the head, the first after it
            assert(chars_lt(k2, k0));
            lemma_chars_lt_trans(k2, k0, k1);
            let a = spec_insert(t, k1, v1);
            assert(spec_insert(s, k1, v1) == seq![h] + a);
            assert((seq![h] + a)[0] == h);
            assert(spec_insert(seq![h] + a, k2, v2) == seq![(k2, v2)] + (seq![h] + a));
            assert(spec_insert(s, k2, v2) == seq![(k2, v2)] + s);
            assert((seq![(k2, v2)] + s)[0] == (k2, v2));
            assert((seq![(k2, v2)] + s).drop_first() =~= s);
            assert(spec_insert(seq![(k2, v2)] + s, k1, v1) == seq![(k2, v2)] + spec_insert(
                s,
                k1,
                v1,
            ));
        } else if chars_lt(k0, k2) && !chars_lt(k0, k1) && k0 != k1 {
            // mirror image of the previous case
            assert(chars_lt(k1, k0));
            lemma_chars_lt_trans(k1, k0, k2);
            let b = spec_insert(t, k2, v2);
            assert(spec_insert(s, k2, v2) == seq![h] + b);
            assert((seq![h] + b)[0] == h);
            assert(spec_insert(seq![h] + b, k1, v1) == seq![(k1, v1)] + (seq![h] + b));
            assert(spec_insert(s, k1, v1) == seq![(k1, v1)] + s);
            assert((seq![(k1, v1)] + s)[0] == (k1, v1));
            assert((seq![(k1, v1)] + s).drop_first() =~= s);
            assert(spec_insert(seq![(k1, v1)] + s, k2, v2) == seq![(k1, v1)] + spec_insert(
                s,
                k2,
                v2,
            ));
            assert(spec_insert(spec_insert(s, k1, v1), k2, v2) =~= spec_insert(
                spec_insert(s, k2, v2),
                k1,
                v1,
            ));
        } else if k0 == k1 {
            // the first insertion replaces the head
            assert(spec_insert(s, k1, v1) == seq![(k1, v1)] + t);
            assert((seq![(k1, v1)] + t)[0] == (k1, v1));
            assert((seq![(k1, v1)] + t).drop_first() =~= t);
            if chars_lt(k1, k2) {
                assert(spec_insert(seq![(k1, v1)] + t, k2, v2) == seq![(k1, v1)] + spec_insert(
                    t,
                    k2,
                    v2,
                ));
                let x = seq![h] + spec_insert(t, k2, v2);
                assert(spec_insert(s, k2, v2) == x);
                assert(x[0] == h);
                assert(x.drop_first() =~= spec_insert(t, k2, v2));
                assert(spec_insert(x, k1, v1) == seq![(k1, v1)] + spec_insert(t, k2, v2));
            } else {
                assert(chars_lt(k2, k1));
                assert(spec_insert(seq![(k1, v1)] + t, k2, v2) == seq![(k2, v2)] + (seq![(
                    k1,
                    v1,
                )] + t));
                assert(spec_insert(s, k2, v2) == seq![(k2, v2)] + s);
                assert((seq![(k2, v2)] + s)[0] == (k2, v2));
                assert((seq![(k2, v2)] + s).drop_first() =~= s);
                assert(spec_insert(seq![(k2, v2)] + s, k1, v1) == seq![(k2, v2)] + spec_insert(
                    s,
                    k1,
                    v1,
                ));
                assert(spec_insert(spec_insert(s, k1, v1), k2, v2) =~= spec_insert(
                    spec_insert(s, k2, v2),
                    k1,
                    v1,
                ));
            }
        } else if k0 == k2 {
            // the second insertion replaces the head
            assert(spec_insert(s, k2, v2) == seq![(k2, v2)] + t);
            assert((seq![(k2, v2)] + t)[0] == (k2, v2));
            assert((seq![(k2, v2)] + t).drop_first() =~= t);
            if chars_lt(k2, k1) {
                assert(spec_insert(seq![(k2, v2)] + t, k1, v1) == seq![(k2, v2)] + spec_insert(
                    t,
                    k1,
                    v1,
                ));
                let x = seq![h] + spec_insert(t, k1, v1);
                assert(spec_insert(s, k1, v1) == x);
                assert(x[0] == h);
                assert(x.drop_first() =~= spec_insert(t, k1, v1));
                assert(spec_insert(x, k2, v2) == seq![(k2, v2)] + spec_insert(t, k1, v1));
            } else {
                assert(chars_lt(k1, k2));
                assert(spec_insert(seq![(k2, v2)] + t, k1, v1) == seq![(k1, v1)] + (seq![(
                    k2,
                    v2,
                )] + t));
                assert(spec_insert(s, k1, v1) == seq![(k1, v1)] + s);
                assert((seq![(k1, v1)] + s)[0] == (k1, v1));
                assert((seq![(k1, v1)] + s).drop_first() =~= s);
                assert(spec_insert(seq![(k1, v1)] + s, k2, v2) == seq![(k1, v1)] + spec_insert(
                    s,
                    k2,
                    v2,
                ));
                assert(spec_insert(spec_insert(s, k1, v1), k2, v2) =~= spec_insert(
                    spec_insert(s, k2, v2),
                    k1,
                    v1,
                ));
            }
        } else {
            // both keys sort before the head and prepend
            assert(chars_lt(k1, k0) && chars_lt(k2, k0));
            assert(spec_insert(s, k1, v1) == seq![(k1, v1)] + s);
            assert((seq![(k1, v1)] + s)[0] == (k1, v1));
            assert((seq![(k1, v1)] + s).drop_first() =~= s);
            assert(spec_insert(s, k2, v2) == seq![(k2, v2)] + s);
            assert((seq![(k2, v2)] + s)[0] == (k2, v2));
            assert((seq![(k2, v2)] + s).drop_first() =~= s);
            if chars_lt(k1, k2) {
                assert(spec_insert(seq![(k1, v1)] + s, k2, v2) == seq![(k1, v1)] + spec_insert(
                    s,
                    k2,
                    v2,
                ));
                assert(spec_insert(seq![(k2, v2)] + s, k1, v1) == seq![(k1, v1)] + (seq![(
                    k2,
                    v2,
                )] + s));
                assert(spec_insert(spec_insert(s, k1, v1), k2, v2) =~= spec_insert(
                    spec_insert(s, k2, v2),
                    k1,
                    v1,
                ));
            } else {
                assert(chars_lt(k2, k1));
                assert(spec_insert(seq![(k2, v2)] + s, k1, v1) == seq![(k2, v2)] + spec_insert(
                    s,
                    k1,
                    v1,
                ));
                assert(spec_insert(seq![(k1, v1)] + s, k2, v2) == seq![(k2, v2)] + (seq![(
                    k1,
                    v1,
                )] + s));
                assert(spec_insert(spec_insert(s, k1, v1), k2, v2) =~= spec_insert(
                    spec_insert(s, k2, v2),
                    k1,
                    v1,
                ));
            }
        }
    }
}

} // verus!

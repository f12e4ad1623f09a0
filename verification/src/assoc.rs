//! The associative-mapping rule: an insertion-ordered map with integer keys.
//!
//! Generation builds a random sequence of key/value pairs and folds it into a
//! map, later duplicate keys overwriting earlier ones in place. Shrinking
//! converts the map back to its pair sequence, applies the sequence rule, and
//! refolds every candidate, so a candidate with a duplicated key still folds
//! into a well-formed map.
use vstd::prelude::*;

use crate::arbitrary::Arbitrary;
use crate::arbitrary::models_of;
use crate::sequence::seq_shrink;
use crate::source::Gen;

verus! {

/// No key occurs twice.
pub open spec fn distinct_keys<X>(m: Seq<(u64, X)>) -> bool {
    forall|i: int, j: int| 0 <= i < j < m.len() ==> (#[trigger] m[i]).0 != (#[trigger] m[j]).0
}

/// Some entry holds the key.
pub open spec fn has_key<X>(m: Seq<(u64, X)>, k: u64) -> bool {
    exists|i: int| 0 <= i < m.len() && (#[trigger] m[i]).0 == k
}

/// The entries with key `k` replaced by `(k, v)`, in place.
pub open spec fn upd_key<X>(m: Seq<(u64, X)>, k: u64, v: X) -> Seq<(u64, X)> {
    Seq::new(
        m.len(),
        |i: int|
            if m[i].0 == k {
                (k, v)
            } else {
                m[i]
            },
    )
}

/// A pair sequence folded into an association list: a pair whose key is
/// already present overwrites that entry in place, a new key appends.
pub open spec fn fold_pairs<X>(s: Seq<(u64, X)>) -> Seq<(u64, X)>
    decreases s.len(),
{
    if s.len() == 0 {
        Seq::empty()
    } else {
        let rest = fold_pairs(s.drop_last());
        let p = s.last();
        if has_key(rest, p.0) {
            upd_key(rest, p.0, p.1)
        } else {
            rest.push(p)
        }
    }
}

/// Folding yields distinct keys, never grows the sequence, and every entry of
/// the result is an entry of the input.
pub proof fn lemma_fold_pairs_wf<X>(s: Seq<(u64, X)>)
    ensures
        distinct_keys(fold_pairs(s)),
        fold_pairs(s).len() <= s.len(),
        forall|i: int|
            0 <= i < fold_pairs(s).len() ==> exists|j: int|
                0 <= j < s.len() && #[trigger] fold_pairs(s)[i] == s[j],
    decreases s.len(),
{
    if s.len() > 0 {
        lemma_fold_pairs_wf(s.drop_last());
        let rest = fold_pairs(s.drop_last());
        let p = s.last();
        assert forall|i: int| 0 <= i < fold_pairs(s).len() implies exists|j: int|
            0 <= j < s.len() && #[trigger] fold_pairs(s)[i] == s[j] by {
            if has_key(rest, p.0) {
                if rest[i].0 == p.0 {
                    assert(fold_pairs(s)[i] == s[s.len() - 1]);
                } else {
                    assert(fold_pairs(s)[i] == rest[i]);
                    let j = choose|j: int| 0 <= j < s.drop_last().len() && rest[i] == s.drop_last()[j];
                    assert(fold_pairs(s)[i] == s[j]);
                }
            } else {
                if i < rest.len() {
                    let j = choose|j: int| 0 <= j < s.drop_last().len() && rest[i] == s.drop_last()[j];
                    assert(fold_pairs(s)[i] == s[j]);
                } else {
                    assert(fold_pairs(s)[i] == s[s.len() - 1]);
                }
            }
        }
    }
}

/// An insertion-ordered associative mapping with `u64` keys: the replacement
/// for a hashed or trie-backed map, whose contents the contracts describe as
/// the sequence of key/value entries in first-insertion order.
pub struct AssocMap<V> {
    pairs: Vec<(u64, V)>,
}

impl<V: Arbitrary> AssocMap<V> {
    /// The empty mapping.
    pub fn new() -> (r: AssocMap<V>)
        ensures
            r.model() == Seq::<(u64, V::M)>::empty(),
            Self::valid(r.model()),
    {
        let r = AssocMap { pairs: Vec::new() };
        proof {
            assert(r.model() =~= Seq::<(u64, V::M)>::empty());
        }
        r
    }

    /// The number of entries.
    pub fn len(&self) -> (r: usize)
        ensures
            r == self.model().len(),
    {
        self.pairs.len()
    }

    /// The entries in first-insertion order.
    pub fn entries(&self) -> (r: &Vec<(u64, V)>)
        ensures
            models_of(r@) == self.model(),
    {
        &self.pairs
    }

    /// Insert a value under a key: an existing entry with the key is
    /// overwritten in place, a new key appends an entry.
    pub fn insert(&mut self, key: u64, value: V)
        requires
            Self::valid(old(self).model()),
            V::valid(value.model()),
        ensures
            Self::valid(final(self).model()),
            has_key(old(self).model(), key) ==> final(self).model() == upd_key(
                old(self).model(),
                key,
                value.model(),
            ),
            !has_key(old(self).model(), key) ==> final(self).model() == old(self).model().push(
                (key, value.model()),
            ),
    {
        let ghost m0 = self.model();
        let n = self.pairs.len();
        let mut t: usize = 0;
        while t < n && self.pairs[t].0 != key
            invariant
                n == self.pairs@.len(),
                t <= n,
                self.pairs@ == old(self).pairs@,
                forall|u: int| 0 <= u < t ==> (#[trigger] self.pairs@[u]).0 != key,
            decreases n - t,
        {
            t += 1;
        }
        proof {
            assert forall|u: int| 0 <= u < m0.len() implies (#[trigger] m0[u]).0 == self.pairs@[u].0
                by {
                assert(m0[u] == self.pairs@[u].model());
            }
        }
        if t < n {
            let ghost old_pairs = self.pairs@;
            self.pairs.push((key, value));
            let _ = self.pairs.swap_remove(t);
            proof {
                assert(self.pairs@ =~= old_pairs.update(t as int, (key, value)));
                assert(m0[t as int].0 == key);
                assert(has_key(m0, key));
                assert(self.model() =~= upd_key(m0, key, value.model()));
                assert forall|i: int, j: int| 0 <= i < j < self.model().len() implies (
                #[trigger] self.model()[i]).0 != (#[trigger] self.model()[j]).0 by {
                    assert(m0[i].0 != m0[j].0);
                }
            }
        } else {
            self.pairs.push((key, value));
            proof {
                assert(!has_key(m0, key));
                assert(self.model() =~= m0.push((key, value.model())));
            }
        }
    }

    /// The mapping a pair sequence folds into.
    pub fn from_pairs(pairs: &Vec<(u64, V)>) -> (r: AssocMap<V>)
        requires
            forall|i: int| 0 <= i < pairs@.len() ==> V::valid((#[trigger] pairs@[i]).1.model()),
        ensures
            r.model() == fold_pairs(models_of(pairs@)),
            Self::valid(r.model()),
    {
        let mut r: AssocMap<V> = AssocMap::new();
        let mut i: usize = 0;
        while i < pairs.len()
            invariant
                i <= pairs@.len(),
                forall|t: int| 0 <= t < pairs@.len() ==> V::valid((#[trigger] pairs@[t]).1.model()),
                r.model() == fold_pairs(models_of(pairs@).take(i as int)),
                Self::valid(r.model()),
            decreases pairs@.len() - i,
        {
            let ghost pre = models_of(pairs@).take(i as int);
            let key = pairs[i].0;
            let value = pairs[i].1.dup();
            r.insert(key, value);
            i += 1;
            proof {
                let cur = models_of(pairs@).take(i as int);
                assert(cur.drop_last() =~= pre);
                assert(cur.last() == (key, value.model()));
                assert(r.model() == fold_pairs(cur));
            }
        }
        proof {
            assert(models_of(pairs@).take(pairs@.len() as int) =~= models_of(pairs@));
        }
        r
    }
}

impl<V: Arbitrary> Arbitrary for AssocMap<V> {
    type M = Seq<(u64, V::M)>;

    closed spec fn model(&self) -> Seq<(u64, V::M)> {
        models_of(self.pairs@)
    }

    open spec fn valid(m: Seq<(u64, V::M)>) -> bool {
        distinct_keys(m) && forall|i: int| 0 <= i < m.len() ==> V::valid((#[trigger] m[i]).1)
    }

    open spec fn fits(m: Seq<(u64, V::M)>, size: nat) -> bool {
        &&& if size == 0 {
            m.len() == 0
        } else {
            m.len() < size
        }
        &&& forall|i: int|
            0 <= i < m.len() ==> <u64 as Arbitrary>::fits((#[trigger] m[i]).0, size) && V::fits(
                m[i].1,
                size,
            )
    }

    /// The sequence rule applied to the entry sequence, each candidate folded
    /// back into a mapping.
    closed spec fn shrink_model(&self) -> Seq<Seq<(u64, V::M)>> {
        seq_shrink::<(u64, V)>(self.pairs@).map_values(|c: Seq<(u64, V::M)>| fold_pairs(c))
    }

    /// A random pair sequence folded into a mapping.
    fn arbitrary<G: Gen>(g: &mut G) -> (r: AssocMap<V>) {
        let pairs = Vec::<(u64, V)>::arbitrary(g);
        proof {
            assert forall|i: int| 0 <= i < pairs@.len() implies V::valid(
                (#[trigger] pairs@[i]).1.model(),
            ) by {
                assert(<(u64, V) as Arbitrary>::valid(models_of(pairs@)[i]));
                assert(models_of(pairs@)[i] == pairs@[i].model());
            }
        }
        let r = Self::from_pairs(&pairs);
        proof {
            let ms = models_of(pairs@);
            lemma_fold_pairs_wf(ms);
            assert forall|i: int| 0 <= i < r.model().len() implies <u64 as Arbitrary>::fits(
                (#[trigger] r.model()[i]).0,
                old(g).spec_size() as nat,
            ) && V::fits(r.model()[i].1, old(g).spec_size() as nat) by {
                let j = choose|j: int| 0 <= j < ms.len() && r.model()[i] == ms[j];
                assert(<(u64, V) as Arbitrary>::fits(ms[j], old(g).spec_size() as nat));
            }
        }
        r
    }

    fn shrink(&self) -> (r: Vec<AssocMap<V>>) {
        proof {
            assert forall|i: int| 0 <= i < self.pairs@.len() implies <(u64, V) as Arbitrary>::valid(
                (#[trigger] self.pairs@[i]).model(),
            ) by {
                assert(self.model()[i] == self.pairs@[i].model());
                assert(V::valid(self.model()[i].1));
            }
        }
        let cands = self.pairs.shrink();
        let mut out: Vec<AssocMap<V>> = Vec::new();
        let mut j: usize = 0;
        while j < cands.len()
            invariant
                j <= cands@.len(),
                out@.len() == j,
                cands@.len() == seq_shrink::<(u64, V)>(self.pairs@).len(),
                self.shrink_model() == seq_shrink::<(u64, V)>(self.pairs@).map_values(
                    |c: Seq<(u64, V::M)>| fold_pairs(c),
                ),
                forall|t: int|
                    0 <= t < cands@.len() ==> (#[trigger] cands@[t]).model() == seq_shrink::<
                        (u64, V),
                    >(self.pairs@)[t],
                forall|t: int|
                    0 <= t < cands@.len() ==> <Vec<(u64, V)> as Arbitrary>::valid(
                        (#[trigger] cands@[t]).model(),
                    ),
                forall|t: int|
                    0 <= t < out@.len() ==> (#[trigger] out@[t]).model() == self.shrink_model()[t],
                forall|t: int|
                    0 <= t < out@.len() ==> Self::valid((#[trigger] out@[t]).model()),
            decreases cands@.len() - j,
        {
            let ghost j0 = j as int;
            let cand = &cands[j];
            proof {
                assert forall|i: int| 0 <= i < cand@.len() implies V::valid(
                    (#[trigger] cand@[i]).1.model(),
                ) by {
                    assert(<(u64, V) as Arbitrary>::valid(cand.model()[i]));
                    assert(cand.model()[i] == cand@[i].model());
                }
            }
            let folded = AssocMap::from_pairs(cand);
            proof {
                assert(self.shrink_model()[j0] == fold_pairs(
                    seq_shrink::<(u64, V)>(self.pairs@)[j0],
                ));
                assert(folded.model() == self.shrink_model()[j0]);
            }
            out.push(folded);
            j += 1;
        }
        out
    }

    fn dup(&self) -> (r: AssocMap<V>) {
        AssocMap { pairs: self.pairs.dup() }
    }
}

/// An empty mapping never shrinks.
pub proof fn lemma_floor_mapping<V: Arbitrary>(m: &AssocMap<V>)
    requires
        m.model().len() == 0,
    ensures
        m.shrink_model() == Seq::<Seq<(u64, V::M)>>::empty(),
{
    assert(m.pairs@.len() == 0);
    assert(m.shrink_model() =~= Seq::<Seq<(u64, V::M)>>::empty());
}

} // verus!

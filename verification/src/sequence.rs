//! The variable-length sequence rule.
//!
//! Shrinking a sequence runs in three phases: the empty sequence first, then
//! deletions of one contiguous run for successively halved run lengths (every
//! starting offset for each length), then per-element shrinks with the rest
//! of the sequence held fixed. The first two phases collapse long sequences
//! quickly; the third minimizes the surviving elements.
use vstd::prelude::*;

use crate::arbitrary::Arbitrary;
use crate::arbitrary::models_of;
use crate::numbers::draw_unsigned;
use crate::source::Gen;

verus! {

/// Every deletion of one contiguous run of exactly `k` elements, one
/// candidate per starting offset, in offset order.
pub open spec fn run_removals<A: Arbitrary>(s: Seq<A>, k: int) -> Seq<Seq<A::M>> {
    if 1 <= k <= s.len() {
        Seq::new(
            (s.len() + 1 - k) as nat,
            |o: int| models_of(s.subrange(0, o) + s.subrange(o + k, s.len() as int)),
        )
    } else {
        Seq::empty()
    }
}

/// The run-removal candidates for run lengths `k`, `k/2`, ..., `1`.
pub open spec fn removal_rounds<A: Arbitrary>(s: Seq<A>, k: int) -> Seq<Seq<A::M>>
    decreases k,
{
    if k <= 0 {
        Seq::empty()
    } else {
        run_removals(s, k) + removal_rounds(s, k / 2)
    }
}

/// The per-element candidates from position `i` onward: for each position and
/// each shrink of the element there, a copy of the sequence with only that
/// position replaced.
pub open spec fn elem_rounds<A: Arbitrary>(s: Seq<A>, i: int) -> Seq<Seq<A::M>>
    decreases s.len() - i,
{
    if i < 0 || i >= s.len() {
        Seq::empty()
    } else {
        s[i].shrink_model().map_values(|c: A::M| models_of(s).update(i, c)) + elem_rounds(s, i + 1)
    }
}

/// The full candidate sequence for a sequence of values.
pub open spec fn seq_shrink<A: Arbitrary>(s: Seq<A>) -> Seq<Seq<A::M>> {
    if s.len() == 0 {
        Seq::empty()
    } else {
        seq![Seq::<A::M>::empty()] + removal_rounds(s, s.len() as int / 2) + elem_rounds(s, 0)
    }
}

/// A copy of `xs` with the run of `k` elements starting at `o` deleted.
fn remove_run<A: Arbitrary>(xs: &Vec<A>, o: usize, k: usize) -> (r: Vec<A>)
    requires
        o + k <= xs@.len(),
        1 <= k <= xs@.len(),
    ensures
        models_of(r@) == run_removals(xs@, k as int)[o as int],
        (forall|u: int| 0 <= u < xs@.len() ==> A::valid((#[trigger] xs@[u]).model()))
            ==> forall|t: int| 0 <= t < r@.len() ==> A::valid((#[trigger] r@[t]).model()),
{
    let n = xs.len();
    let mut r: Vec<A> = Vec::new();
    let mut t: usize = 0;
    while t < o
        invariant
            n == xs@.len(),
            o + k <= n,
            1 <= k,
            t <= o,
            r@.len() == t,
            forall|u: int| 0 <= u < t ==> (#[trigger] r@[u]).model() == xs@[u].model(),
        decreases o - t,
    {
        r.push(xs[t].dup());
        t += 1;
    }
    let mut t2: usize = o + k;
    while t2 < xs.len()
        invariant
            n == xs@.len(),
            o + k <= t2 <= xs@.len(),
            r@.len() == o + t2 - (o + k),
            forall|u: int| 0 <= u < o ==> (#[trigger] r@[u]).model() == xs@[u].model(),
            forall|u: int|
                o <= u < r@.len() ==> (#[trigger] r@[u]).model() == xs@[u + k].model(),
        decreases xs@.len() - t2,
    {
        r.push(xs[t2].dup());
        t2 += 1;
    }
    proof {
        let want = run_removals(xs@, k as int)[o as int];
        assert(want == models_of(
            xs@.subrange(0, o as int) + xs@.subrange(o as int + k as int, xs@.len() as int),
        ));
        assert(models_of(r@) =~= want);
        if forall|u: int| 0 <= u < xs@.len() ==> A::valid((#[trigger] xs@[u]).model()) {
            assert forall|t: int| 0 <= t < r@.len() implies A::valid(
                (#[trigger] r@[t]).model(),
            ) by {
                if t < o {
                    assert(r@[t].model() == xs@[t].model());
                } else {
                    assert(r@[t].model() == xs@[t + k].model());
                }
            }
        }
    }
    r
}

/// A copy of `xs` with only position `i` replaced by `v`.
fn replace_at<A: Arbitrary>(xs: &Vec<A>, i: usize, v: &A) -> (r: Vec<A>)
    requires
        i < xs@.len(),
    ensures
        models_of(r@) == models_of(xs@).update(i as int, v.model()),
        r@.len() == xs@.len(),
        forall|t: int|
            0 <= t < xs@.len() && t != i ==> (#[trigger] r@[t]).model() == xs@[t].model(),
        r@[i as int].model() == v.model(),
{
    let mut r: Vec<A> = Vec::new();
    let mut t: usize = 0;
    while t < xs.len()
        invariant
            i < xs@.len(),
            t <= xs@.len(),
            r@.len() == t,
            forall|u: int|
                0 <= u < t && u != i ==> (#[trigger] r@[u]).model() == xs@[u].model(),
            t > i ==> r@[i as int].model() == v.model(),
        decreases xs@.len() - t,
    {
        if t == i {
            r.push(v.dup());
        } else {
            r.push(xs[t].dup());
        }
        t += 1;
    }
    proof {
        assert(models_of(r@) =~= models_of(xs@).update(i as int, v.model()));
    }
    r
}

impl<A: Arbitrary> Arbitrary for Vec<A> {
    type M = Seq<A::M>;

    open spec fn model(&self) -> Seq<A::M> {
        models_of(self@)
    }

    open spec fn valid(m: Seq<A::M>) -> bool {
        forall|i: int| 0 <= i < m.len() ==> A::valid(#[trigger] m[i])
    }

    open spec fn fits(m: Seq<A::M>, size: nat) -> bool {
        &&& if size == 0 {
            m.len() == 0
        } else {
            m.len() < size
        }
        &&& forall|i: int| 0 <= i < m.len() ==> A::fits(#[trigger] m[i], size)
    }

    open spec fn shrink_model(&self) -> Seq<Seq<A::M>> {
        seq_shrink(self@)
    }

    /// A length drawn below the size bound, then that many independent draws.
    fn arbitrary<G: Gen>(g: &mut G) -> (r: Vec<A>) {
        let s = g.size();
        let len = draw_unsigned(g, s as u64) as usize;
        let mut out: Vec<A> = Vec::new();
        let mut i: usize = 0;
        while i < len
            invariant
                i <= len,
                out@.len() == i,
                g.spec_size() == old(g).spec_size(),
                forall|t: int| 0 <= t < i ==> A::valid((#[trigger] out@[t]).model()),
                forall|t: int|
                    0 <= t < i ==> A::fits((#[trigger] out@[t]).model(), old(g).spec_size() as nat),
            decreases len - i,
        {
            let v = A::arbitrary(g);
            out.push(v);
            i += 1;
        }
        out
    }

    fn shrink(&self) -> (r: Vec<Vec<A>>) {
        let mut out: Vec<Vec<A>> = Vec::new();
        if self.len() == 0 {
            return out;
        }
        let ghost s = self@;
        let ghost ktop: int = s.len() as int / 2;
        out.push(Vec::new());
        let mut k: usize = self.len() / 2;
        let ghost mut done: Seq<Seq<A::M>> = Seq::empty();
        proof {
            assert(removal_rounds(s, ktop) =~= done + removal_rounds(s, k as int));
            assert(out@[0].model() =~= seq_shrink(s)[0]);
        }
        while k > 0
            invariant
                self@ == s,
                s.len() >= 1,
                Self::valid(self.model()),
                ktop == s.len() as int / 2,
                k <= s.len() as int / 2,
                removal_rounds(s, ktop) == done + removal_rounds(s, k as int),
                out@.len() == 1 + done.len(),
                forall|t: int|
                    0 <= t < out@.len() ==> (#[trigger] out@[t]).model() == seq_shrink(s)[t],
                forall|t: int| 0 <= t < out@.len() ==> Self::valid((#[trigger] out@[t]).model()),
            decreases k,
        {
            let ghost base = out@.len() as int;
            let ghost round = run_removals(s, k as int);
            proof {
                assert(removal_rounds(s, k as int) == run_removals(s, k as int) + removal_rounds(
                    s,
                    k as int / 2,
                ));
                assert forall|u: int| 0 <= u < round.len() implies round[u] == seq_shrink(s)[base
                    + u] by {
                    assert(removal_rounds(s, ktop)[done.len() + u] == round[u]);
                    assert(seq_shrink(s)[1 + (done.len() + u)] == removal_rounds(s, ktop)[done.len()
                        + u]);
                }
            }
            let mut o: usize = 0;
            while o <= self.len() - k
                invariant
                    self@ == s,
                    s.len() >= 1,
                    Self::valid(self.model()),
                    1 <= k <= s.len(),
                    o <= s.len() + 1 - k,
                    round == run_removals(s, k as int),
                    round.len() == s.len() + 1 - k,
                    out@.len() == base + o,
                    forall|u: int| 0 <= u < round.len() ==> round[u] == seq_shrink(s)[base + u],
                    forall|t: int|
                        0 <= t < out@.len() ==> (#[trigger] out@[t]).model() == seq_shrink(s)[t],
                    forall|t: int| 0 <= t < out@.len() ==> Self::valid((#[trigger] out@[t]).model()),
                decreases s.len() + 1 - k - o,
            {
                let cand = remove_run(self, o, k);
                proof {
                    assert forall|u: int| 0 <= u < s.len() implies A::valid(
                        (#[trigger] s[u]).model(),
                    ) by {
                        assert(A::valid(models_of(s)[u]));
                    }
                    assert forall|t: int| 0 <= t < cand.model().len() implies A::valid(
                        #[trigger] cand.model()[t],
                    ) by {
                        assert(cand.model()[t] == cand@[t].model());
                    }
                }
                out.push(cand);
                o += 1;
            }
            proof {
                done = done + round;
                assert(done + (removal_rounds(s, k as int / 2)) =~= removal_rounds(s, ktop));
            }
            k = k / 2;
        }
        proof {
            assert(removal_rounds(s, 0) =~= Seq::<Seq<A::M>>::empty());
            assert(done =~= removal_rounds(s, ktop));
            assert(out@.len() == 1 + removal_rounds(s, ktop).len());
        }
        // phase 3: shrink each element in turn, holding the rest fixed
        let ghost rlen: int = removal_rounds(s, ktop).len() as int;
        let ghost mut edone: Seq<Seq<A::M>> = Seq::empty();
        proof {
            assert(elem_rounds(s, 0) =~= edone + elem_rounds(s, 0));
        }
        let mut i: usize = 0;
        while i < self.len()
            invariant
                self@ == s,
                s.len() >= 1,
                Self::valid(self.model()),
                ktop == s.len() as int / 2,
                rlen == removal_rounds(s, ktop).len() as int,
                i <= s.len(),
                elem_rounds(s, 0) == edone + elem_rounds(s, i as int),
                out@.len() == 1 + rlen + edone.len(),
                forall|t: int|
                    0 <= t < out@.len() ==> (#[trigger] out@[t]).model() == seq_shrink(s)[t],
                forall|t: int| 0 <= t < out@.len() ==> Self::valid((#[trigger] out@[t]).model()),
            decreases s.len() - i,
        {
            let ghost base = out@.len() as int;
            let ghost emap = s[i as int].shrink_model().map_values(
                |c: A::M| models_of(s).update(i as int, c),
            );
            proof {
                assert(A::valid(models_of(s)[i as int]));
                assert(elem_rounds(s, i as int) == emap + elem_rounds(s, i as int + 1));
                assert forall|u: int| 0 <= u < emap.len() implies emap[u] == seq_shrink(s)[base
                    + u] by {
                    assert(elem_rounds(s, 0)[edone.len() + u] == emap[u]);
                    assert(seq_shrink(s)[1 + rlen + (edone.len() + u)] == elem_rounds(s, 0)[
                        edone.len() + u]);
                }
            }
            let elem = &self[i];
            let cs = elem.shrink();
            let mut j: usize = 0;
            while j < cs.len()
                invariant
                    self@ == s,
                    s.len() >= 1,
                    Self::valid(self.model()),
                    i < s.len(),
                    j <= cs@.len(),
                    cs@.len() == s[i as int].shrink_model().len(),
                    forall|t: int|
                        0 <= t < cs@.len() ==> (#[trigger] cs@[t]).model() == s[i as int].shrink_model()[t],
                    forall|t: int| 0 <= t < cs@.len() ==> A::valid((#[trigger] cs@[t]).model()),
                    emap == s[i as int].shrink_model().map_values(
                        |c: A::M| models_of(s).update(i as int, c),
                    ),
                    out@.len() == base + j,
                    forall|u: int| 0 <= u < emap.len() ==> emap[u] == seq_shrink(s)[base + u],
                    forall|t: int|
                        0 <= t < out@.len() ==> (#[trigger] out@[t]).model() == seq_shrink(s)[t],
                    forall|t: int| 0 <= t < out@.len() ==> Self::valid((#[trigger] out@[t]).model()),
                decreases cs@.len() - j,
            {
                let cand = replace_at(self, i, &cs[j]);
                proof {
                    assert(cand.model() == emap[j as int]);
                    assert forall|t: int| 0 <= t < cand@.len() implies A::valid(
                        (#[trigger] cand@[t]).model(),
                    ) by {
                        if t != i {
                            assert(cand@[t].model() == s[t].model());
                            assert(A::valid(models_of(s)[t]));
                        }
                    }
                }
                out.push(cand);
                j += 1;
            }
            proof {
                edone = edone + emap;
                assert(edone + elem_rounds(s, i as int + 1) =~= elem_rounds(s, 0));
            }
            i += 1;
        }
        proof {
            assert(elem_rounds(s, s.len() as int) =~= Seq::<Seq<A::M>>::empty());
            assert(edone =~= elem_rounds(s, 0));
            assert(out@.len() == seq_shrink(s).len());
        }
        out
    }

    fn dup(&self) -> (r: Vec<A>) {
        let mut r: Vec<A> = Vec::new();
        let mut t: usize = 0;
        while t < self.len()
            invariant
                t <= self@.len(),
                r@.len() == t,
                forall|u: int| 0 <= u < t ==> (#[trigger] r@[u]).model() == self@[u].model(),
            decreases self@.len() - t,
        {
            r.push(self[t].dup());
            t += 1;
        }
        proof {
            assert(models_of(r@) =~= models_of(self@));
        }
        r
    }
}

} // verus!

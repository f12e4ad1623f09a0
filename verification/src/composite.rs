//! Composite rules: optional values and two-armed unions, built structurally
//! over the rules of their payload types.
use vstd::prelude::*;

use crate::arbitrary::Arbitrary;
use crate::arbitrary::empty_shrinker;
use crate::arbitrary::single_shrinker;
use crate::source::Gen;

verus! {

impl<A: Arbitrary> Arbitrary for Option<A> {
    type M = Option<A::M>;

    open spec fn model(&self) -> Option<A::M> {
        match self {
            None => None,
            Some(x) => Some(x.model()),
        }
    }

    open spec fn valid(m: Option<A::M>) -> bool {
        match m {
            None => true,
            Some(v) => A::valid(v),
        }
    }

    open spec fn fits(m: Option<A::M>, size: nat) -> bool {
        match m {
            None => true,
            Some(v) => A::fits(v, size),
        }
    }

    /// An absent value is minimal; a present value first offers absence, then
    /// every shrink of its payload, still wrapped as present.
    open spec fn shrink_model(&self) -> Seq<Option<A::M>> {
        match self {
            None => Seq::empty(),
            Some(x) => seq![None] + x.shrink_model().map_values(|c: A::M| Some(c)),
        }
    }

    /// A fair coin decides between absent and a freshly generated payload.
    fn arbitrary<G: Gen>(g: &mut G) -> (r: Option<A>) {
        if g.coin() {
            None
        } else {
            Some(A::arbitrary(g))
        }
    }

    fn shrink(&self) -> (r: Vec<Option<A>>) {
        match self {
            None => empty_shrinker(),
            Some(x) => {
                let mut out: Vec<Option<A>> = single_shrinker(None);
                let cs = x.shrink();
                let mut j: usize = 0;
                while j < cs.len()
                    invariant
                        j <= cs@.len(),
                        out@.len() == 1 + j,
                        self is Some && *x == self->0,
                        A::valid(x.model()),
                        cs@.len() == x.shrink_model().len(),
                        forall|t: int|
                            0 <= t < cs@.len() ==> (#[trigger] cs@[t]).model()
                                == x.shrink_model()[t],
                        forall|t: int| 0 <= t < cs@.len() ==> A::valid((#[trigger] cs@[t]).model()),
                        forall|t: int|
                            0 <= t < out@.len() ==> (#[trigger] out@[t]).model()
                                == self.shrink_model()[t],
                        forall|t: int|
                            0 <= t < out@.len() ==> Self::valid((#[trigger] out@[t]).model()),
                    decreases cs@.len() - j,
                {
                    let ghost j0 = j as int;
                    out.push(Some(cs[j].dup()));
                    j += 1;
                    proof {
                        assert(self.shrink_model()[1 + j0] == x.shrink_model().map_values(
                            |c: A::M| Some(c),
                        )[j0]);
                    }
                }
                out
            },
        }
    }

    fn dup(&self) -> (r: Option<A>) {
        match self {
            None => None,
            Some(x) => Some(x.dup()),
        }
    }
}

impl<A: Arbitrary, B: Arbitrary> Arbitrary for Result<A, B> {
    type M = Result<A::M, B::M>;

    open spec fn model(&self) -> Result<A::M, B::M> {
        match self {
            Ok(x) => Ok(x.model()),
            Err(x) => Err(x.model()),
        }
    }

    open spec fn valid(m: Result<A::M, B::M>) -> bool {
        match m {
            Ok(v) => A::valid(v),
            Err(v) => B::valid(v),
        }
    }

    open spec fn fits(m: Result<A::M, B::M>, size: nat) -> bool {
        match m {
            Ok(v) => A::fits(v, size),
            Err(v) => B::fits(v, size),
        }
    }

    /// Shrinking never crosses arms: a success shrinks over its payload's
    /// candidates re-tagged as success, a failure over its payload's
    /// candidates re-tagged as failure.
    open spec fn shrink_model(&self) -> Seq<Result<A::M, B::M>> {
        match self {
            Ok(x) => x.shrink_model().map_values(|c: A::M| Ok(c)),
            Err(x) => x.shrink_model().map_values(|c: B::M| Err(c)),
        }
    }

    /// A fair coin picks the arm; the arm's payload is generated by its own
    /// rule.
    fn arbitrary<G: Gen>(g: &mut G) -> (r: Result<A, B>) {
        if g.coin() {
            Ok(A::arbitrary(g))
        } else {
            Err(B::arbitrary(g))
        }
    }

    fn shrink(&self) -> (r: Vec<Result<A, B>>) {
        match self {
            Ok(x) => {
                let mut out: Vec<Result<A, B>> = Vec::new();
                let cs = x.shrink();
                let mut j: usize = 0;
                while j < cs.len()
                    invariant
                        j <= cs@.len(),
                        out@.len() == j,
                        self is Ok && *x == self->Ok_0,
                        A::valid(x.model()),
                        cs@.len() == x.shrink_model().len(),
                        forall|t: int|
                            0 <= t < cs@.len() ==> (#[trigger] cs@[t]).model()
                                == x.shrink_model()[t],
                        forall|t: int| 0 <= t < cs@.len() ==> A::valid((#[trigger] cs@[t]).model()),
                        forall|t: int|
                            0 <= t < out@.len() ==> (#[trigger] out@[t]).model()
                                == self.shrink_model()[t],
                        forall|t: int|
                            0 <= t < out@.len() ==> Self::valid((#[trigger] out@[t]).model()),
                    decreases cs@.len() - j,
                {
                    let ghost j0 = j as int;
                    out.push(Ok(cs[j].dup()));
                    j += 1;
                    proof {
                        assert(self.shrink_model()[j0] == x.shrink_model().map_values(
                            |c: A::M| Ok::<A::M, B::M>(c),
                        )[j0]);
                    }
                }
                out
            },
            Err(x) => {
                let mut out: Vec<Result<A, B>> = Vec::new();
                let cs = x.shrink();
                let mut j: usize = 0;
                while j < cs.len()
                    invariant
                        j <= cs@.len(),
                        out@.len() == j,
                        self is Err && *x == self->Err_0,
                        B::valid(x.model()),
                        cs@.len() == x.shrink_model().len(),
                        forall|t: int|
                            0 <= t < cs@.len() ==> (#[trigger] cs@[t]).model()
                                == x.shrink_model()[t],
                        forall|t: int| 0 <= t < cs@.len() ==> B::valid((#[trigger] cs@[t]).model()),
                        forall|t: int|
                            0 <= t < out@.len() ==> (#[trigger] out@[t]).model()
                                == self.shrink_model()[t],
                        forall|t: int|
                            0 <= t < out@.len() ==> Self::valid((#[trigger] out@[t]).model()),
                    decreases cs@.len() - j,
                {
                    let ghost j0 = j as int;
                    out.push(Err(cs[j].dup()));
                    j += 1;
                    proof {
                        assert(self.shrink_model()[j0] == x.shrink_model().map_values(
                            |c: B::M| Err::<A::M, B::M>(c),
                        )[j0]);
                    }
                }
                out
            },
        }
    }

    fn dup(&self) -> (r: Result<A, B>) {
        match self {
            Ok(x) => Ok(x.dup()),
            Err(x) => Err(x.dup()),
        }
    }
}


impl<A: Arbitrary, B: Arbitrary> Arbitrary for (A, B) {
    type M = (A::M, B::M);

    open spec fn model(&self) -> (A::M, B::M) {
        (self.0.model(), self.1.model())
    }

    open spec fn valid(m: (A::M, B::M)) -> bool {
        A::valid(m.0) && B::valid(m.1)
    }

    open spec fn fits(m: (A::M, B::M), size: nat) -> bool {
        A::fits(m.0, size) && B::fits(m.1, size)
    }

    /// Positional shrinking: vary the first element while the rest stay
    /// fixed, then each later position in turn; this is the flattened form of
    /// shrinking the head and then the remaining sub-tuple, and deliberately
    /// not the full cross product.
    open spec fn shrink_model(&self) -> Seq<(A::M, B::M)> {
        self.0.shrink_model().map_values(|c: A::M| (c, self.1.model()))
            + self.1.shrink_model().map_values(|c: B::M| (self.0.model(), c))
    }

    /// Elements are drawn in positional order from the same source.
    fn arbitrary<G: Gen>(g: &mut G) -> (r: (A, B)) {
        let v0 = A::arbitrary(g);
        let v1 = B::arbitrary(g);
        (v0, v1)
    }

    fn shrink(&self) -> (r: Vec<(A, B)>) {
        let mut out: Vec<(A, B)> = Vec::new();
        let cs0 = self.0.shrink();
        let mut j0: usize = 0;
        while j0 < cs0.len()
            invariant
                j0 <= cs0@.len(),
                out@.len() == j0,
                A::valid(self.0.model()) && B::valid(self.1.model()),
                cs0@.len() == self.0.shrink_model().len(),
                forall|t: int|
                    0 <= t < cs0@.len() ==> (#[trigger] cs0@[t]).model()
                        == self.0.shrink_model()[t],
                forall|t: int|
                    0 <= t < cs0@.len() ==> A::valid((#[trigger] cs0@[t]).model()),
                forall|t: int|
                    0 <= t < out@.len() ==> (#[trigger] out@[t]).model() == self.shrink_model()[t],
                forall|t: int|
                    0 <= t < out@.len() ==> Self::valid((#[trigger] out@[t]).model()),
            decreases cs0@.len() - j0,
        {
            let ghost t0 = out@.len() as int;
            let ghost gj = j0 as int;
            out.push((cs0[j0].dup(), self.1.dup()));
            j0 += 1;
            proof {
                assert(self.shrink_model()[t0] == self.0.shrink_model().map_values(|c: A::M| (c, self.1.model()))[gj]);
            }
        }
        let cs1 = self.1.shrink();
        let mut j1: usize = 0;
        while j1 < cs1.len()
            invariant
                j1 <= cs1@.len(),
                out@.len() == self.0.shrink_model().len() + j1,
                A::valid(self.0.model()) && B::valid(self.1.model()),
                cs1@.len() == self.1.shrink_model().len(),
                forall|t: int|
                    0 <= t < cs1@.len() ==> (#[trigger] cs1@[t]).model()
                        == self.1.shrink_model()[t],
                forall|t: int|
                    0 <= t < cs1@.len() ==> B::valid((#[trigger] cs1@[t]).model()),
                forall|t: int|
                    0 <= t < out@.len() ==> (#[trigger] out@[t]).model() == self.shrink_model()[t],
                forall|t: int|
                    0 <= t < out@.len() ==> Self::valid((#[trigger] out@[t]).model()),
            decreases cs1@.len() - j1,
        {
            let ghost t0 = out@.len() as int;
            let ghost gj = j1 as int;
            out.push((self.0.dup(), cs1[j1].dup()));
            j1 += 1;
            proof {
                assert(self.shrink_model()[t0] == self.1.shrink_model().map_values(|c: B::M| (self.0.model(), c))[gj]);
            }
        }
        out
    }

    fn dup(&self) -> (r: (A, B)) {
        (self.0.dup(), self.1.dup())
    }
}

impl<A: Arbitrary, B: Arbitrary, C: Arbitrary> Arbitrary for (A, B, C) {
    type M = (A::M, B::M, C::M);

    open spec fn model(&self) -> (A::M, B::M, C::M) {
        (self.0.model(), self.1.model(), self.2.model())
    }

    open spec fn valid(m: (A::M, B::M, C::M)) -> bool {
        A::valid(m.0) && B::valid(m.1) && C::valid(m.2)
    }

    open spec fn fits(m: (A::M, B::M, C::M), size: nat) -> bool {
        A::fits(m.0, size) && B::fits(m.1, size) && C::fits(m.2, size)
    }

    /// Positional shrinking: vary the first element while the rest stay
    /// fixed, then each later position in turn; this is the flattened form of
    /// shrinking the head and then the remaining sub-tuple, and deliberately
    /// not the full cross product.
    open spec fn shrink_model(&self) -> Seq<(A::M, B::M, C::M)> {
        self.0.shrink_model().map_values(|c: A::M| (c, self.1.model(), self.2.model()))
            + self.1.shrink_model().map_values(|c: B::M| (self.0.model(), c, self.2.model()))
            + self.2.shrink_model().map_values(|c: C::M| (self.0.model(), self.1.model(), c))
    }

    /// Elements are drawn in positional order from the same source.
    fn arbitrary<G: Gen>(g: &mut G) -> (r: (A, B, C)) {
        let v0 = A::arbitrary(g);
        let v1 = B::arbitrary(g);
        let v2 = C::arbitrary(g);
        (v0, v1, v2)
    }

    fn shrink(&self) -> (r: Vec<(A, B, C)>) {
        let mut out: Vec<(A, B, C)> = Vec::new();
        let cs0 = self.0.shrink();
        let mut j0: usize = 0;
        while j0 < cs0.len()
            invariant
                j0 <= cs0@.len(),
                out@.len() == j0,
                A::valid(self.0.model()) && B::valid(self.1.model()) && C::valid(self.2.model()),
                cs0@.len() == self.0.shrink_model().len(),
                forall|t: int|
                    0 <= t < cs0@.len() ==> (#[trigger] cs0@[t]).model()
                        == self.0.shrink_model()[t],
                forall|t: int|
                    0 <= t < cs0@.len() ==> A::valid((#[trigger] cs0@[t]).model()),
                forall|t: int|
                    0 <= t < out@.len() ==> (#[trigger] out@[t]).model() == self.shrink_model()[t],
                forall|t: int|
                    0 <= t < out@.len() ==> Self::valid((#[trigger] out@[t]).model()),
            decreases cs0@.len() - j0,
        {
            let ghost t0 = out@.len() as int;
            let ghost gj = j0 as int;
            out.push((cs0[j0].dup(), self.1.dup(), self.2.dup()));
            j0 += 1;
            proof {
                assert(self.shrink_model()[t0] == self.0.shrink_model().map_values(|c: A::M| (c, self.1.model(), self.2.model()))[gj]);
            }
        }
        let cs1 = self.1.shrink();
        let mut j1: usize = 0;
        while j1 < cs1.len()
            invariant
                j1 <= cs1@.len(),
                out@.len() == self.0.shrink_model().len() + j1,
                A::valid(self.0.model()) && B::valid(self.1.model()) && C::valid(self.2.model()),
                cs1@.len() == self.1.shrink_model().len(),
                forall|t: int|
                    0 <= t < cs1@.len() ==> (#[trigger] cs1@[t]).model()
                        == self.1.shrink_model()[t],
                forall|t: int|
                    0 <= t < cs1@.len() ==> B::valid((#[trigger] cs1@[t]).model()),
                forall|t: int|
                    0 <= t < out@.len() ==> (#[trigger] out@[t]).model() == self.shrink_model()[t],
                forall|t: int|
                    0 <= t < out@.len() ==> Self::valid((#[trigger] out@[t]).model()),
            decreases cs1@.len() - j1,
        {
            let ghost t0 = out@.len() as int;
            let ghost gj = j1 as int;
            out.push((self.0.dup(), cs1[j1].dup(), self.2.dup()));
            j1 += 1;
            proof {
                assert(self.shrink_model()[t0] == self.1.shrink_model().map_values(|c: B::M| (self.0.model(), c, self.2.model()))[gj]);
            }
        }
        let cs2 = self.2.shrink();
        let mut j2: usize = 0;
        while j2 < cs2.len()
            invariant
                j2 <= cs2@.len(),
                out@.len() == self.0.shrink_model().len() + self.1.shrink_model().len() + j2,
                A::valid(self.0.model()) && B::valid(self.1.model()) && C::valid(self.2.model()),
                cs2@.len() == self.2.shrink_model().len(),
                forall|t: int|
                    0 <= t < cs2@.len() ==> (#[trigger] cs2@[t]).model()
                        == self.2.shrink_model()[t],
                forall|t: int|
                    0 <= t < cs2@.len() ==> C::valid((#[trigger] cs2@[t]).model()),
                forall|t: int|
                    0 <= t < out@.len() ==> (#[trigger] out@[t]).model() == self.shrink_model()[t],
                forall|t: int|
                    0 <= t < out@.len() ==> Self::valid((#[trigger] out@[t]).model()),
            decreases cs2@.len() - j2,
        {
            let ghost t0 = out@.len() as int;
            let ghost gj = j2 as int;
            out.push((self.0.dup(), self.1.dup(), cs2[j2].dup()));
            j2 += 1;
            proof {
                assert(self.shrink_model()[t0] == self.2.shrink_model().map_values(|c: C::M| (self.0.model(), self.1.model(), c))[gj]);
            }
        }
        out
    }

    fn dup(&self) -> (r: (A, B, C)) {
        (self.0.dup(), self.1.dup(), self.2.dup())
    }
}

impl<A: Arbitrary, B: Arbitrary, C: Arbitrary, D: Arbitrary> Arbitrary for (A, B, C, D) {
    type M = (A::M, B::M, C::M, D::M);

    open spec fn model(&self) -> (A::M, B::M, C::M, D::M) {
        (self.0.model(), self.1.model(), self.2.model(), self.3.model())
    }

    open spec fn valid(m: (A::M, B::M, C::M, D::M)) -> bool {
        A::valid(m.0) && B::valid(m.1) && C::valid(m.2) && D::valid(m.3)
    }

    open spec fn fits(m: (A::M, B::M, C::M, D::M), size: nat) -> bool {
        A::fits(m.0, size) && B::fits(m.1, size) && C::fits(m.2, size) && D::fits(m.3, size)
    }

    /// Positional shrinking: vary the first element while the rest stay
    /// fixed, then each later position in turn; this is the flattened form of
    /// shrinking the head and then the remaining sub-tuple, and deliberately
    /// not the full cross product.
    open spec fn shrink_model(&self) -> Seq<(A::M, B::M, C::M, D::M)> {
        self.0.shrink_model().map_values(|c: A::M| (c, self.1.model(), self.2.model(), self.3.model()))
            + self.1.shrink_model().map_values(|c: B::M| (self.0.model(), c, self.2.model(), self.3.model()))
            + self.2.shrink_model().map_values(|c: C::M| (self.0.model(), self.1.model(), c, self.3.model()))
            + self.3.shrink_model().map_values(|c: D::M| (self.0.model(), self.1.model(), self.2.model(), c))
    }

    /// Elements are drawn in positional order from the same source.
    fn arbitrary<G: Gen>(g: &mut G) -> (r: (A, B, C, D)) {
        let v0 = A::arbitrary(g);
        let v1 = B::arbitrary(g);
        let v2 = C::arbitrary(g);
        let v3 = D::arbitrary(g);
        (v0, v1, v2, v3)
    }

    fn shrink(&self) -> (r: Vec<(A, B, C, D)>) {
        let mut out: Vec<(A, B, C, D)> = Vec::new();
        let cs0 = self.0.shrink();
        let mut j0: usize = 0;
        while j0 < cs0.len()
            invariant
                j0 <= cs0@.len(),
                out@.len() == j0,
                A::valid(self.0.model()) && B::valid(self.1.model()) && C::valid(self.2.model()) && D::valid(self.3.model()),
                cs0@.len() == self.0.shrink_model().len(),
                forall|t: int|
                    0 <= t < cs0@.len() ==> (#[trigger] cs0@[t]).model()
                        == self.0.shrink_model()[t],
                forall|t: int|
                    0 <= t < cs0@.len() ==> A::valid((#[trigger] cs0@[t]).model()),
                forall|t: int|
                    0 <= t < out@.len() ==> (#[trigger] out@[t]).model() == self.shrink_model()[t],
                forall|t: int|
                    0 <= t < out@.len() ==> Self::valid((#[trigger] out@[t]).model()),
            decreases cs0@.len() - j0,
        {
            let ghost t0 = out@.len() as int;
            let ghost gj = j0 as int;
            out.push((cs0[j0].dup(), self.1.dup(), self.2.dup(), self.3.dup()));
            j0 += 1;
            proof {
                assert(self.shrink_model()[t0] == self.0.shrink_model().map_values(|c: A::M| (c, self.1.model(), self.2.model(), self.3.model()))[gj]);
            }
        }
        let cs1 = self.1.shrink();
        let mut j1: usize = 0;
        while j1 < cs1.len()
            invariant
                j1 <= cs1@.len(),
                out@.len() == self.0.shrink_model().len() + j1,
                A::valid(self.0.model()) && B::valid(self.1.model()) && C::valid(self.2.model()) && D::valid(self.3.model()),
                cs1@.len() == self.1.shrink_model().len(),
                forall|t: int|
                    0 <= t < cs1@.len() ==> (#[trigger] cs1@[t]).model()
                        == self.1.shrink_model()[t],
                forall|t: int|
                    0 <= t < cs1@.len() ==> B::valid((#[trigger] cs1@[t]).model()),
                forall|t: int|
                    0 <= t < out@.len() ==> (#[trigger] out@[t]).model() == self.shrink_model()[t],
                forall|t: int|
                    0 <= t < out@.len() ==> Self::valid((#[trigger] out@[t]).model()),
            decreases cs1@.len() - j1,
        {
            let ghost t0 = out@.len() as int;
            let ghost gj = j1 as int;
            out.push((self.0.dup(), cs1[j1].dup(), self.2.dup(), self.3.dup()));
            j1 += 1;
            proof {
                assert(self.shrink_model()[t0] == self.1.shrink_model().map_values(|c: B::M| (self.0.model(), c, self.2.model(), self.3.model()))[gj]);
            }
        }
        let cs2 = self.2.shrink();
        let mut j2: usize = 0;
        while j2 < cs2.len()
            invariant
                j2 <= cs2@.len(),
                out@.len() == self.0.shrink_model().len() + self.1.shrink_model().len() + j2,
                A::valid(self.0.model()) && B::valid(self.1.model()) && C::valid(self.2.model()) && D::valid(self.3.model()),
                cs2@.len() == self.2.shrink_model().len(),
                forall|t: int|
                    0 <= t < cs2@.len() ==> (#[trigger] cs2@[t]).model()
                        == self.2.shrink_model()[t],
                forall|t: int|
                    0 <= t < cs2@.len() ==> C::valid((#[trigger] cs2@[t]).model()),
                forall|t: int|
                    0 <= t < out@.len() ==> (#[trigger] out@[t]).model() == self.shrink_model()[t],
                forall|t: int|
                    0 <= t < out@.len() ==> Self::valid((#[trigger] out@[t]).model()),
            decreases cs2@.len() - j2,
        {
            let ghost t0 = out@.len() as int;
            let ghost gj = j2 as int;
            out.push((self.0.dup(), self.1.dup(), cs2[j2].dup(), self.3.dup()));
            j2 += 1;
            proof {
                assert(self.shrink_model()[t0] == self.2.shrink_model().map_values(|c: C::M| (self.0.model(), self.1.model(), c, self.3.model()))[gj]);
            }
        }
        let cs3 = self.3.shrink();
        let mut j3: usize = 0;
        while j3 < cs3.len()
            invariant
                j3 <= cs3@.len(),
                out@.len() == self.0.shrink_model().len() + self.1.shrink_model().len() + self.2.shrink_model().len() + j3,
                A::valid(self.0.model()) && B::valid(self.1.model()) && C::valid(self.2.model()) && D::valid(self.3.model()),
                cs3@.len() == self.3.shrink_model().len(),
                forall|t: int|
                    0 <= t < cs3@.len() ==> (#[trigger] cs3@[t]).model()
                        == self.3.shrink_model()[t],
                forall|t: int|
                    0 <= t < cs3@.len() ==> D::valid((#[trigger] cs3@[t]).model()),
                forall|t: int|
                    0 <= t < out@.len() ==> (#[trigger] out@[t]).model() == self.shrink_model()[t],
                forall|t: int|
                    0 <= t < out@.len() ==> Self::valid((#[trigger] out@[t]).model()),
            decreases cs3@.len() - j3,
        {
            let ghost t0 = out@.len() as int;
            let ghost gj = j3 as int;
            out.push((self.0.dup(), self.1.dup(), self.2.dup(), cs3[j3].dup()));
            j3 += 1;
            proof {
                assert(self.shrink_model()[t0] == self.3.shrink_model().map_values(|c: D::M| (self.0.model(), self.1.model(), self.2.model(), c))[gj]);
            }
        }
        out
    }

    fn dup(&self) -> (r: (A, B, C, D)) {
        (self.0.dup(), self.1.dup(), self.2.dup(), self.3.dup())
    }
}


impl<A: Arbitrary> Arbitrary for (A,) {
    type M = (A::M,);

    open spec fn model(&self) -> (A::M,) {
        (self.0.model(),)
    }

    open spec fn valid(m: (A::M,)) -> bool {
        A::valid(m.0)
    }

    open spec fn fits(m: (A::M,), size: nat) -> bool {
        A::fits(m.0, size)
    }

    /// A one-element tuple shrinks as its element does.
    open spec fn shrink_model(&self) -> Seq<(A::M,)> {
        self.0.shrink_model().map_values(|c: A::M| (c,))
    }

    /// Elements are drawn in positional order from the same source.
    fn arbitrary<G: Gen>(g: &mut G) -> (r: (A,)) {
        let v0 = A::arbitrary(g);
        (v0,)
    }

    fn shrink(&self) -> (r: Vec<(A,)>) {
        let mut out: Vec<(A,)> = Vec::new();
        let cs0 = self.0.shrink();
        let mut j0: usize = 0;
        while j0 < cs0.len()
            invariant
                j0 <= cs0@.len(),
                out@.len() == j0,
                A::valid(self.0.model()),
                cs0@.len() == self.0.shrink_model().len(),
                forall|t: int|
                    0 <= t < cs0@.len() ==> (#[trigger] cs0@[t]).model()
                        == self.0.shrink_model()[t],
                forall|t: int|
                    0 <= t < cs0@.len() ==> A::valid((#[trigger] cs0@[t]).model()),
                forall|t: int|
                    0 <= t < out@.len() ==> (#[trigger] out@[t]).model() == self.shrink_model()[t],
                forall|t: int|
                    0 <= t < out@.len() ==> Self::valid((#[trigger] out@[t]).model()),
            decreases cs0@.len() - j0,
        {
            let ghost t0 = out@.len() as int;
            let ghost gj = j0 as int;
            out.push((cs0[j0].dup(),));
            j0 += 1;
            proof {
                assert(self.shrink_model()[t0] == self.0.shrink_model().map_values(|c: A::M| (c,))[gj]);
            }
        }
        out
    }

    fn dup(&self) -> (r: (A,)) {
        (self.0.dup(),)
    }
}

impl<A: Arbitrary, B: Arbitrary, C: Arbitrary, D: Arbitrary, E: Arbitrary> Arbitrary for (A, B, C, D, E) {
    type M = (A::M, B::M, C::M, D::M, E::M);

    open spec fn model(&self) -> (A::M, B::M, C::M, D::M, E::M) {
        (self.0.model(), self.1.model(), self.2.model(), self.3.model(), self.4.model())
    }

    open spec fn valid(m: (A::M, B::M, C::M, D::M, E::M)) -> bool {
        A::valid(m.0) && B::valid(m.1) && C::valid(m.2) && D::valid(m.3) && E::valid(m.4)
    }

    open spec fn fits(m: (A::M, B::M, C::M, D::M, E::M), size: nat) -> bool {
        A::fits(m.0, size) && B::fits(m.1, size) && C::fits(m.2, size) && D::fits(m.3, size) && E::fits(m.4, size)
    }

    /// Positional shrinking: vary the first element while the rest stay
    /// fixed, then each later position in turn; this is the flattened form of
    /// shrinking the head and then the remaining sub-tuple, and deliberately
    /// not the full cross product.
    open spec fn shrink_model(&self) -> Seq<(A::M, B::M, C::M, D::M, E::M)> {
        self.0.shrink_model().map_values(|c: A::M| (c, self.1.model(), self.2.model(), self.3.model(), self.4.model()))
            + self.1.shrink_model().map_values(|c: B::M| (self.0.model(), c, self.2.model(), self.3.model(), self.4.model()))
            + self.2.shrink_model().map_values(|c: C::M| (self.0.model(), self.1.model(), c, self.3.model(), self.4.model()))
            + self.3.shrink_model().map_values(|c: D::M| (self.0.model(), self.1.model(), self.2.model(), c, self.4.model()))
            + self.4.shrink_model().map_values(|c: E::M| (self.0.model(), self.1.model(), self.2.model(), self.3.model(), c))
    }

    /// Elements are drawn in positional order from the same source.
    fn arbitrary<G: Gen>(g: &mut G) -> (r: (A, B, C, D, E)) {
        let v0 = A::arbitrary(g);
        let v1 = B::arbitrary(g);
        let v2 = C::arbitrary(g);
        let v3 = D::arbitrary(g);
        let v4 = E::arbitrary(g);
        (v0, v1, v2, v3, v4)
    }

    fn shrink(&self) -> (r: Vec<(A, B, C, D, E)>) {
        let mut out: Vec<(A, B, C, D, E)> = Vec::new();
        let cs0 = self.0.shrink();
        let mut j0: usize = 0;
        while j0 < cs0.len()
            invariant
                j0 <= cs0@.len(),
                out@.len() == j0,
                A::valid(self.0.model()) && B::valid(self.1.model()) && C::valid(self.2.model()) && D::valid(self.3.model()) && E::valid(self.4.model()),
                cs0@.len() == self.0.shrink_model().len(),
                forall|t: int|
                    0 <= t < cs0@.len() ==> (#[trigger] cs0@[t]).model()
                        == self.0.shrink_model()[t],
                forall|t: int|
                    0 <= t < cs0@.len() ==> A::valid((#[trigger] cs0@[t]).model()),
                forall|t: int|
                    0 <= t < out@.len() ==> (#[trigger] out@[t]).model() == self.shrink_model()[t],
                forall|t: int|
                    0 <= t < out@.len() ==> Self::valid((#[trigger] out@[t]).model()),
            decreases cs0@.len() - j0,
        {
            let ghost t0 = out@.len() as int;
            let ghost gj = j0 as int;
            out.push((cs0[j0].dup(), self.1.dup(), self.2.dup(), self.3.dup(), self.4.dup()));
            j0 += 1;
            proof {
                assert(self.shrink_model()[t0] == self.0.shrink_model().map_values(|c: A::M| (c, self.1.model(), self.2.model(), self.3.model(), self.4.model()))[gj]);
            }
        }
        let cs1 = self.1.shrink();
        let mut j1: usize = 0;
        while j1 < cs1.len()
            invariant
                j1 <= cs1@.len(),
                out@.len() == self.0.shrink_model().len() + j1,
                A::valid(self.0.model()) && B::valid(self.1.model()) && C::valid(self.2.model()) && D::valid(self.3.model()) && E::valid(self.4.model()),
                cs1@.len() == self.1.shrink_model().len(),
                forall|t: int|
                    0 <= t < cs1@.len() ==> (#[trigger] cs1@[t]).model()
                        == self.1.shrink_model()[t],
                forall|t: int|
                    0 <= t < cs1@.len() ==> B::valid((#[trigger] cs1@[t]).model()),
                forall|t: int|
                    0 <= t < out@.len() ==> (#[trigger] out@[t]).model() == self.shrink_model()[t],
                forall|t: int|
                    0 <= t < out@.len() ==> Self::valid((#[trigger] out@[t]).model()),
            decreases cs1@.len() - j1,
        {
            let ghost t0 = out@.len() as int;
            let ghost gj = j1 as int;
            out.push((self.0.dup(), cs1[j1].dup(), self.2.dup(), self.3.dup(), self.4.dup()));
            j1 += 1;
            proof {
                assert(self.shrink_model()[t0] == self.1.shrink_model().map_values(|c: B::M| (self.0.model(), c, self.2.model(), self.3.model(), self.4.model()))[gj]);
            }
        }
        let cs2 = self.2.shrink();
        let mut j2: usize = 0;
        while j2 < cs2.len()
            invariant
                j2 <= cs2@.len(),
                out@.len() == self.0.shrink_model().len() + self.1.shrink_model().len() + j2,
                A::valid(self.0.model()) && B::valid(self.1.model()) && C::valid(self.2.model()) && D::valid(self.3.model()) && E::valid(self.4.model()),
                cs2@.len() == self.2.shrink_model().len(),
                forall|t: int|
                    0 <= t < cs2@.len() ==> (#[trigger] cs2@[t]).model()
                        == self.2.shrink_model()[t],
                forall|t: int|
                    0 <= t < cs2@.len() ==> C::valid((#[trigger] cs2@[t]).model()),
                forall|t: int|
                    0 <= t < out@.len() ==> (#[trigger] out@[t]).model() == self.shrink_model()[t],
                forall|t: int|
                    0 <= t < out@.len() ==> Self::valid((#[trigger] out@[t]).model()),
            decreases cs2@.len() - j2,
        {
            let ghost t0 = out@.len() as int;
            let ghost gj = j2 as int;
            out.push((self.0.dup(), self.1.dup(), cs2[j2].dup(), self.3.dup(), self.4.dup()));
            j2 += 1;
            proof {
                assert(self.shrink_model()[t0] == self.2.shrink_model().map_values(|c: C::M| (self.0.model(), self.1.model(), c, self.3.model(), self.4.model()))[gj]);
            }
        }
        let cs3 = self.3.shrink();
        let mut j3: usize = 0;
        while j3 < cs3.len()
            invariant
                j3 <= cs3@.len(),
                out@.len() == self.0.shrink_model().len() + self.1.shrink_model().len() + self.2.shrink_model().len() + j3,
                A::valid(self.0.model()) && B::valid(self.1.model()) && C::valid(self.2.model()) && D::valid(self.3.model()) && E::valid(self.4.model()),
                cs3@.len() == self.3.shrink_model().len(),
                forall|t: int|
                    0 <= t < cs3@.len() ==> (#[trigger] cs3@[t]).model()
                        == self.3.shrink_model()[t],
                forall|t: int|
                    0 <= t < cs3@.len() ==> D::valid((#[trigger] cs3@[t]).model()),
                forall|t: int|
                    0 <= t < out@.len() ==> (#[trigger] out@[t]).model() == self.shrink_model()[t],
                forall|t: int|
                    0 <= t < out@.len() ==> Self::valid((#[trigger] out@[t]).model()),
            decreases cs3@.len() - j3,
        {
            let ghost t0 = out@.len() as int;
            let ghost gj = j3 as int;
            out.push((self.0.dup(), self.1.dup(), self.2.dup(), cs3[j3].dup(), self.4.dup()));
            j3 += 1;
            proof {
                assert(self.shrink_model()[t0] == self.3.shrink_model().map_values(|c: D::M| (self.0.model(), self.1.model(), self.2.model(), c, self.4.model()))[gj]);
            }
        }
        let cs4 = self.4.shrink();
        let mut j4: usize = 0;
        while j4 < cs4.len()
            invariant
                j4 <= cs4@.len(),
                out@.len() == self.0.shrink_model().len() + self.1.shrink_model().len() + self.2.shrink_model().len() + self.3.shrink_model().len() + j4,
                A::valid(self.0.model()) && B::valid(self.1.model()) && C::valid(self.2.model()) && D::valid(self.3.model()) && E::valid(self.4.model()),
                cs4@.len() == self.4.shrink_model().len(),
                forall|t: int|
                    0 <= t < cs4@.len() ==> (#[trigger] cs4@[t]).model()
                        == self.4.shrink_model()[t],
                forall|t: int|
                    0 <= t < cs4@.len() ==> E::valid((#[trigger] cs4@[t]).model()),
                forall|t: int|
                    0 <= t < out@.len() ==> (#[trigger] out@[t]).model() == self.shrink_model()[t],
                forall|t: int|
                    0 <= t < out@.len() ==> Self::valid((#[trigger] out@[t]).model()),
            decreases cs4@.len() - j4,
        {
            let ghost t0 = out@.len() as int;
            let ghost gj = j4 as int;
            out.push((self.0.dup(), self.1.dup(), self.2.dup(), self.3.dup(), cs4[j4].dup()));
            j4 += 1;
            proof {
                assert(self.shrink_model()[t0] == self.4.shrink_model().map_values(|c: E::M| (self.0.model(), self.1.model(), self.2.model(), self.3.model(), c))[gj]);
            }
        }
        out
    }

    fn dup(&self) -> (r: (A, B, C, D, E)) {
        (self.0.dup(), self.1.dup(), self.2.dup(), self.3.dup(), self.4.dup())
    }
}

impl<A: Arbitrary, B: Arbitrary, C: Arbitrary, D: Arbitrary, E: Arbitrary, F: Arbitrary> Arbitrary for (A, B, C, D, E, F) {
    type M = (A::M, B::M, C::M, D::M, E::M, F::M);

    open spec fn model(&self) -> (A::M, B::M, C::M, D::M, E::M, F::M) {
        (self.0.model(), self.1.model(), self.2.model(), self.3.model(), self.4.model(), self.5.model())
    }

    open spec fn valid(m: (A::M, B::M, C::M, D::M, E::M, F::M)) -> bool {
        A::valid(m.0) && B::valid(m.1) && C::valid(m.2) && D::valid(m.3) && E::valid(m.4) && F::valid(m.5)
    }

    open spec fn fits(m: (A::M, B::M, C::M, D::M, E::M, F::M), size: nat) -> bool {
        A::fits(m.0, size) && B::fits(m.1, size) && C::fits(m.2, size) && D::fits(m.3, size) && E::fits(m.4, size) && F::fits(m.5, size)
    }

    /// Positional shrinking: vary the first element while the rest stay
    /// fixed, then each later position in turn; this is the flattened form of
    /// shrinking the head and then the remaining sub-tuple, and deliberately
    /// not the full cross product.
    open spec fn shrink_model(&self) -> Seq<(A::M, B::M, C::M, D::M, E::M, F::M)> {
        self.0.shrink_model().map_values(|c: A::M| (c, self.1.model(), self.2.model(), self.3.model(), self.4.model(), self.5.model()))
            + self.1.shrink_model().map_values(|c: B::M| (self.0.model(), c, self.2.model(), self.3.model(), self.4.model(), self.5.model()))
            + self.2.shrink_model().map_values(|c: C::M| (self.0.model(), self.1.model(), c, self.3.model(), self.4.model(), self.5.model()))
            + self.3.shrink_model().map_values(|c: D::M| (self.0.model(), self.1.model(), self.2.model(), c, self.4.model(), self.5.model()))
            + self.4.shrink_model().map_values(|c: E::M| (self.0.model(), self.1.model(), self.2.model(), self.3.model(), c, self.5.model()))
            + self.5.shrink_model().map_values(|c: F::M| (self.0.model(), self.1.model(), self.2.model(), self.3.model(), self.4.model(), c))
    }

    /// Elements are drawn in positional order from the same source.
    fn arbitrary<G: Gen>(g: &mut G) -> (r: (A, B, C, D, E, F)) {
        let v0 = A::arbitrary(g);
        let v1 = B::arbitrary(g);
        let v2 = C::arbitrary(g);
        let v3 = D::arbitrary(g);
        let v4 = E::arbitrary(g);
        let v5 = F::arbitrary(g);
        (v0, v1, v2, v3, v4, v5)
    }

    fn shrink(&self) -> (r: Vec<(A, B, C, D, E, F)>) {
        let mut out: Vec<(A, B, C, D, E, F)> = Vec::new();
        let cs0 = self.0.shrink();
        let mut j0: usize = 0;
        while j0 < cs0.len()
            invariant
                j0 <= cs0@.len(),
                out@.len() == j0,
                A::valid(self.0.model()) && B::valid(self.1.model()) && C::valid(self.2.model()) && D::valid(self.3.model()) && E::valid(self.4.model()) && F::valid(self.5.model()),
                cs0@.len() == self.0.shrink_model().len(),
                forall|t: int|
                    0 <= t < cs0@.len() ==> (#[trigger] cs0@[t]).model()
                        == self.0.shrink_model()[t],
                forall|t: int|
                    0 <= t < cs0@.len() ==> A::valid((#[trigger] cs0@[t]).model()),
                forall|t: int|
                    0 <= t < out@.len() ==> (#[trigger] out@[t]).model() == self.shrink_model()[t],
                forall|t: int|
                    0 <= t < out@.len() ==> Self::valid((#[trigger] out@[t]).model()),
            decreases cs0@.len() - j0,
        {
            let ghost t0 = out@.len() as int;
            let ghost gj = j0 as int;
            out.push((cs0[j0].dup(), self.1.dup(), self.2.dup(), self.3.dup(), self.4.dup(), self.5.dup()));
            j0 += 1;
            proof {
                assert(self.shrink_model()[t0] == self.0.shrink_model().map_values(|c: A::M| (c, self.1.model(), self.2.model(), self.3.model(), self.4.model(), self.5.model()))[gj]);
            }
        }
        let cs1 = self.1.shrink();
        let mut j1: usize = 0;
        while j1 < cs1.len()
            invariant
                j1 <= cs1@.len(),
                out@.len() == self.0.shrink_model().len() + j1,
                A::valid(self.0.model()) && B::valid(self.1.model()) && C::valid(self.2.model()) && D::valid(self.3.model()) && E::valid(self.4.model()) && F::valid(self.5.model()),
                cs1@.len() == self.1.shrink_model().len(),
                forall|t: int|
                    0 <= t < cs1@.len() ==> (#[trigger] cs1@[t]).model()
                        == self.1.shrink_model()[t],
                forall|t: int|
                    0 <= t < cs1@.len() ==> B::valid((#[trigger] cs1@[t]).model()),
                forall|t: int|
                    0 <= t < out@.len() ==> (#[trigger] out@[t]).model() == self.shrink_model()[t],
                forall|t: int|
                    0 <= t < out@.len() ==> Self::valid((#[trigger] out@[t]).model()),
            decreases cs1@.len() - j1,
        {
            let ghost t0 = out@.len() as int;
            let ghost gj = j1 as int;
            out.push((self.0.dup(), cs1[j1].dup(), self.2.dup(), self.3.dup(), self.4.dup(), self.5.dup()));
            j1 += 1;
            proof {
                assert(self.shrink_model()[t0] == self.1.shrink_model().map_values(|c: B::M| (self.0.model(), c, self.2.model(), self.3.model(), self.4.model(), self.5.model()))[gj]);
            }
        }
        let cs2 = self.2.shrink();
        let mut j2: usize = 0;
        while j2 < cs2.len()
            invariant
                j2 <= cs2@.len(),
                out@.len() == self.0.shrink_model().len() + self.1.shrink_model().len() + j2,
                A::valid(self.0.model()) && B::valid(self.1.model()) && C::valid(self.2.model()) && D::valid(self.3.model()) && E::valid(self.4.model()) && F::valid(self.5.model()),
                cs2@.len() == self.2.shrink_model().len(),
                forall|t: int|
                    0 <= t < cs2@.len() ==> (#[trigger] cs2@[t]).model()
                        == self.2.shrink_model()[t],
                forall|t: int|
                    0 <= t < cs2@.len() ==> C::valid((#[trigger] cs2@[t]).model()),
                forall|t: int|
                    0 <= t < out@.len() ==> (#[trigger] out@[t]).model() == self.shrink_model()[t],
                forall|t: int|
                    0 <= t < out@.len() ==> Self::valid((#[trigger] out@[t]).model()),
            decreases cs2@.len() - j2,
        {
            let ghost t0 = out@.len() as int;
            let ghost gj = j2 as int;
            out.push((self.0.dup(), self.1.dup(), cs2[j2].dup(), self.3.dup(), self.4.dup(), self.5.dup()));
            j2 += 1;
            proof {
                assert(self.shrink_model()[t0] == self.2.shrink_model().map_values(|c: C::M| (self.0.model(), self.1.model(), c, self.3.model(), self.4.model(), self.5.model()))[gj]);
            }
        }
        let cs3 = self.3.shrink();
        let mut j3: usize = 0;
        while j3 < cs3.len()
            invariant
                j3 <= cs3@.len(),
                out@.len() == self.0.shrink_model().len() + self.1.shrink_model().len() + self.2.shrink_model().len() + j3,
                A::valid(self.0.model()) && B::valid(self.1.model()) && C::valid(self.2.model()) && D::valid(self.3.model()) && E::valid(self.4.model()) && F::valid(self.5.model()),
                cs3@.len() == self.3.shrink_model().len(),
                forall|t: int|
                    0 <= t < cs3@.len() ==> (#[trigger] cs3@[t]).model()
                        == self.3.shrink_model()[t],
                forall|t: int|
                    0 <= t < cs3@.len() ==> D::valid((#[trigger] cs3@[t]).model()),
                forall|t: int|
                    0 <= t < out@.len() ==> (#[trigger] out@[t]).model() == self.shrink_model()[t],
                forall|t: int|
                    0 <= t < out@.len() ==> Self::valid((#[trigger] out@[t]).model()),
            decreases cs3@.len() - j3,
        {
            let ghost t0 = out@.len() as int;
            let ghost gj = j3 as int;
            out.push((self.0.dup(), self.1.dup(), self.2.dup(), cs3[j3].dup(), self.4.dup(), self.5.dup()));
            j3 += 1;
            proof {
                assert(self.shrink_model()[t0] == self.3.shrink_model().map_values(|c: D::M| (self.0.model(), self.1.model(), self.2.model(), c, self.4.model(), self.5.model()))[gj]);
            }
        }
        let cs4 = self.4.shrink();
        let mut j4: usize = 0;
        while j4 < cs4.len()
            invariant
                j4 <= cs4@.len(),
                out@.len() == self.0.shrink_model().len() + self.1.shrink_model().len() + self.2.shrink_model().len() + self.3.shrink_model().len() + j4,
                A::valid(self.0.model()) && B::valid(self.1.model()) && C::valid(self.2.model()) && D::valid(self.3.model()) && E::valid(self.4.model()) && F::valid(self.5.model()),
                cs4@.len() == self.4.shrink_model().len(),
                forall|t: int|
                    0 <= t < cs4@.len() ==> (#[trigger] cs4@[t]).model()
                        == self.4.shrink_model()[t],
                forall|t: int|
                    0 <= t < cs4@.len() ==> E::valid((#[trigger] cs4@[t]).model()),
                forall|t: int|
                    0 <= t < out@.len() ==> (#[trigger] out@[t]).model() == self.shrink_model()[t],
                forall|t: int|
                    0 <= t < out@.len() ==> Self::valid((#[trigger] out@[t]).model()),
            decreases cs4@.len() - j4,
        {
            let ghost t0 = out@.len() as int;
            let ghost gj = j4 as int;
            out.push((self.0.dup(), self.1.dup(), self.2.dup(), self.3.dup(), cs4[j4].dup(), self.5.dup()));
            j4 += 1;
            proof {
                assert(self.shrink_model()[t0] == self.4.shrink_model().map_values(|c: E::M| (self.0.model(), self.1.model(), self.2.model(), self.3.model(), c, self.5.model()))[gj]);
            }
        }
        let cs5 = self.5.shrink();
        let mut j5: usize = 0;
        while j5 < cs5.len()
            invariant
                j5 <= cs5@.len(),
                out@.len() == self.0.shrink_model().len() + self.1.shrink_model().len() + self.2.shrink_model().len() + self.3.shrink_model().len() + self.4.shrink_model().len() + j5,
                A::valid(self.0.model()) && B::valid(self.1.model()) && C::valid(self.2.model()) && D::valid(self.3.model()) && E::valid(self.4.model()) && F::valid(self.5.model()),
                cs5@.len() == self.5.shrink_model().len(),
                forall|t: int|
                    0 <= t < cs5@.len() ==> (#[trigger] cs5@[t]).model()
                        == self.5.shrink_model()[t],
                forall|t: int|
                    0 <= t < cs5@.len() ==> F::valid((#[trigger] cs5@[t]).model()),
                forall|t: int|
                    0 <= t < out@.len() ==> (#[trigger] out@[t]).model() == self.shrink_model()[t],
                forall|t: int|
                    0 <= t < out@.len() ==> Self::valid((#[trigger] out@[t]).model()),
            decreases cs5@.len() - j5,
        {
            let ghost t0 = out@.len() as int;
            let ghost gj = j5 as int;
            out.push((self.0.dup(), self.1.dup(), self.2.dup(), self.3.dup(), self.4.dup(), cs5[j5].dup()));
            j5 += 1;
            proof {
                assert(self.shrink_model()[t0] == self.5.shrink_model().map_values(|c: F::M| (self.0.model(), self.1.model(), self.2.model(), self.3.model(), self.4.model(), c))[gj]);
            }
        }
        out
    }

    fn dup(&self) -> (r: (A, B, C, D, E, F)) {
        (self.0.dup(), self.1.dup(), self.2.dup(), self.3.dup(), self.4.dup(), self.5.dup())
    }
}

} // verus!

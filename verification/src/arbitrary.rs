//! The per-type capability at the heart of the engine: random generation of
//! values under a size bound, and a finite, deterministic sequence of
//! simplification candidates for an existing value.
use vstd::prelude::*;

use crate::source::Gen;

verus! {

/// The mathematical images of a sequence of values.
pub open spec fn models_of<T: Arbitrary>(s: Seq<T>) -> Seq<T::M> {
    s.map_values(|x: T| x.model())
}

/// Values of a type that can be randomly generated and shrunk.
///
/// Each type carries a mathematical model `M` of its values. Generation
/// promises that the result is a valid value whose model respects the
/// source's size bound, and that it leaves the bound itself unchanged.
/// Shrinking promises the exact, finite candidate sequence `shrink_model`,
/// every entry of which is again a valid value of the type, so a search
/// driver may re-enter `shrink` on any candidate.
pub trait Arbitrary: Sized {
    /// The mathematical model of a value.
    type M;

    /// The model of this value.
    spec fn model(&self) -> Self::M;

    /// The valid models: every generated value and every shrink candidate
    /// lies in this set, and `shrink` asks for it of its input.
    spec fn valid(m: Self::M) -> bool;

    /// What it means for a generated value to respect a size bound.
    spec fn fits(m: Self::M, size: nat) -> bool;

    /// The exact sequence of shrink candidates for this value, at the model
    /// level. It is finite and depends on the value alone, so shrinking is
    /// deterministic and restartable.
    spec fn shrink_model(&self) -> Seq<Self::M>;

    /// Generate a random value, bounded by the source's size.
    fn arbitrary<G: Gen>(g: &mut G) -> (r: Self)
        ensures
            Self::valid(r.model()),
            Self::fits(r.model(), old(g).spec_size() as nat),
            final(g).spec_size() == old(g).spec_size(),
    ;

    /// The shrink candidates for this value, one phase at a time, the most
    /// aggressive simplifications first within each phase.
    fn shrink(&self) -> (r: Vec<Self>)
        requires
            Self::valid(self.model()),
        ensures
            r@.len() == self.shrink_model().len(),
            forall|i: int| 0 <= i < r@.len() ==> (#[trigger] r@[i]).model() == self.shrink_model()[i],
            forall|i: int| 0 <= i < r@.len() ==> Self::valid((#[trigger] r@[i]).model()),
    ;

    /// An independent copy with the same model, so candidates can be built
    /// around elements of an existing value.
    fn dup(&self) -> (r: Self)
        ensures
            r.model() == self.model(),
    ;
}

/// A shrink result with zero candidates: the base case for values that are
/// already minimal and for types with no shrink strategy.
pub fn empty_shrinker<A>() -> (r: Vec<A>)
    ensures
        r@ == Seq::<A>::empty(),
{
    let r: Vec<A> = Vec::new();
    proof {
        assert(r@ =~= Seq::<A>::empty());
    }
    r
}

/// A shrink result with exactly one candidate.
pub fn single_shrinker<A>(value: A) -> (r: Vec<A>)
    ensures
        r@ == seq![value],
{
    let mut r: Vec<A> = Vec::new();
    r.push(value);
    proof {
        assert(r@ =~= seq![value]);
    }
    r
}

impl Arbitrary for () {
    type M = ();

    open spec fn model(&self) -> () {
        ()
    }

    open spec fn valid(m: ()) -> bool {
        true
    }

    open spec fn fits(m: (), size: nat) -> bool {
        true
    }

    open spec fn shrink_model(&self) -> Seq<()> {
        Seq::empty()
    }

    fn arbitrary<G: Gen>(g: &mut G) -> () {
        ()
    }

    fn shrink(&self) -> (r: Vec<()>)
    {
        empty_shrinker()
    }

    fn dup(&self) -> () {
        ()
    }
}

impl Arbitrary for bool {
    type M = bool;

    open spec fn model(&self) -> bool {
        *self
    }

    open spec fn valid(m: bool) -> bool {
        true
    }

    open spec fn fits(m: bool, size: nat) -> bool {
        true
    }

    /// `true` steps down to `false`; `false` is the minimality floor.
    open spec fn shrink_model(&self) -> Seq<bool> {
        if *self {
            seq![false]
        } else {
            Seq::empty()
        }
    }

    fn arbitrary<G: Gen>(g: &mut G) -> bool {
        g.coin()
    }

    fn shrink(&self) -> (r: Vec<bool>)
    {
        if *self {
            single_shrinker(false)
        } else {
            empty_shrinker()
        }
    }

    fn dup(&self) -> bool {
        *self
    }
}

} // verus!

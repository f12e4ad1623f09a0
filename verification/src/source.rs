//! The random source behind generation: a pseudo-random bit source paired
//! with a single `size` bound that callers read to limit the magnitude of
//! generated numbers and the length of generated containers.
use vstd::prelude::*;

verus! {

/// A source of uniform random draws together with a fixed size bound.
///
/// The size bound is set when the source is built and never changes during
/// generation: every draw leaves it as it was, so all constituent draws of a
/// composite value see the same bound.
pub trait Gen: Sized {
    /// The size bound carried by this source.
    spec fn spec_size(&self) -> usize;

    /// Read the size bound.
    fn size(&self) -> (r: usize)
        ensures
            r == self.spec_size(),
    ;

    /// Draw a uniform value in `[0, bound)`, advancing the source's state.
    fn below(&mut self, bound: u64) -> (r: u64)
        requires
            bound > 0,
        ensures
            r < bound,
            final(self).spec_size() == old(self).spec_size(),
    ;

    /// Draw a fair boolean, advancing the source's state.
    fn coin(&mut self) -> (r: bool)
        ensures
            final(self).spec_size() == old(self).spec_size(),
    ;
}

/// The default random source: any random number generator from the `rand`
/// crate, paired with a size bound.
pub struct StdGen<R> {
    rng: R,
    size: usize,
}

impl<R: rand::Rng> StdGen<R> {
    /// The size bound this source was built with.
    pub closed spec fn spec_bound(&self) -> usize {
        self.size
    }

    /// Build a source from a random number generator and a size bound.
    pub fn new(rng: R, size: usize) -> (g: StdGen<R>)
        ensures
            g.spec_bound() == size,
    {
        StdGen { rng, size }
    }

    /// Relies on `rand::Rng::gen_range` over `0..bound`: for a non-empty
    /// range it returns a uniform value inside the range and only mutates
    /// the generator's internal state.
    #[verifier::external_body]
    fn draw_below(&mut self, bound: u64) -> (r: u64)
        requires
            bound > 0,
        ensures
            r < bound,
            final(self).spec_bound() == old(self).spec_bound(),
    {
        self.rng.gen_range(0..bound)
    }
}

/// The generator that `rand::thread_rng` hands out, declared so that
/// `StdGen` of it can carry the `Gen` capability.
#[verifier::external_type_specification]
#[verifier::external_body]
pub struct ExThreadRng(rand::rngs::ThreadRng);

/// The seedable standard generator of `rand`, declared so that a `StdGen`
/// built over it (for reproducible runs) can carry the `Gen` capability.
#[verifier::external_type_specification]
#[verifier::external_body]
pub struct ExStdRng(rand::rngs::StdRng);

impl Gen for StdGen<rand::rngs::StdRng> {
    open spec fn spec_size(&self) -> usize {
        self.spec_bound()
    }

    fn size(&self) -> usize {
        self.size
    }

    fn below(&mut self, bound: u64) -> u64 {
        self.draw_below(bound)
    }

    fn coin(&mut self) -> bool {
        self.below(2) == 1
    }
}

impl Gen for StdGen<rand::rngs::ThreadRng> {
    open spec fn spec_size(&self) -> usize {
        self.spec_bound()
    }

    fn size(&self) -> usize {
        self.size
    }

    fn below(&mut self, bound: u64) -> u64 {
        self.draw_below(bound)
    }

    fn coin(&mut self) -> bool {
        self.below(2) == 1
    }
}

} // verus!

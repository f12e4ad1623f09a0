//! Engine-wide laws, stated once and proved by the verifier.
//!
//! Two laws hold by the `Arbitrary` contract itself and need no lemma here:
//! every generated value and every shrink candidate is a valid value of its
//! type (the `valid` clauses of `arbitrary` and `shrink`), and every generated
//! value respects the size bound it was drawn under (the `fits` clause of
//! `arbitrary`). The lemmas below state the minimality floor: a value already
//! at its minimal representation has no shrink candidates.
//!
//! Finiteness of every shrink sequence holds by construction: `shrink`
//! returns a fully materialized vector, and every loop and recursion behind
//! it carries a termination measure that the verifier checks.
use vstd::prelude::*;

use crate::arbitrary::Arbitrary;
use crate::numbers::int_shrink;

verus! {

/// A value at the numeric floor, the unit value, a minimal boolean, or a
/// character never shrinks: zero and `false` offer no candidates, and unit
/// and characters have no shrink strategy at all.
pub proof fn lemma_floor_scalars()
    ensures
        int_shrink(0) == Seq::<int>::empty(),
        (0u8).shrink_model() == Seq::<u8>::empty(),
        (0u16).shrink_model() == Seq::<u16>::empty(),
        (0u32).shrink_model() == Seq::<u32>::empty(),
        (0u64).shrink_model() == Seq::<u64>::empty(),
        (0usize).shrink_model() == Seq::<usize>::empty(),
        (0i8).shrink_model() == Seq::<i8>::empty(),
        (0i16).shrink_model() == Seq::<i16>::empty(),
        (0i32).shrink_model() == Seq::<i32>::empty(),
        (0i64).shrink_model() == Seq::<i64>::empty(),
        (0isize).shrink_model() == Seq::<isize>::empty(),
        false.shrink_model() == Seq::<bool>::empty(),
        ().shrink_model() == Seq::<()>::empty(),
        forall|c: char| (#[trigger] c.shrink_model()) == Seq::<char>::empty(),
{
    assert(int_shrink(0).map_values(|v: int| v as u8) =~= Seq::<u8>::empty());
    assert(int_shrink(0).map_values(|v: int| v as u16) =~= Seq::<u16>::empty());
    assert(int_shrink(0).map_values(|v: int| v as u32) =~= Seq::<u32>::empty());
    assert(int_shrink(0).map_values(|v: int| v as u64) =~= Seq::<u64>::empty());
    assert(int_shrink(0).map_values(|v: int| v as usize) =~= Seq::<usize>::empty());
    assert(int_shrink(0).map_values(|v: int| v as i8) =~= Seq::<i8>::empty());
    assert(int_shrink(0).map_values(|v: int| v as i16) =~= Seq::<i16>::empty());
    assert(int_shrink(0).map_values(|v: int| v as i32) =~= Seq::<i32>::empty());
    assert(int_shrink(0).map_values(|v: int| v as i64) =~= Seq::<i64>::empty());
    assert(int_shrink(0).map_values(|v: int| v as isize) =~= Seq::<isize>::empty());
}

/// An absent optional value never shrinks.
pub proof fn lemma_floor_optional<A: Arbitrary>()
    ensures
        (None::<A>).shrink_model() == Seq::<Option<A::M>>::empty(),
{
}

/// An empty sequence never shrinks.
pub proof fn lemma_floor_sequence<A: Arbitrary>(v: &Vec<A>)
    requires
        v@.len() == 0,
    ensures
        v.shrink_model() == Seq::<Seq<A::M>>::empty(),
{
}

/// Empty text never shrinks.
pub proof fn lemma_floor_text(s: &String)
    requires
        s@.len() == 0,
    ensures
        s.shrink_model() == Seq::<Seq<char>>::empty(),
{
}

} // verus!

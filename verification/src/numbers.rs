//! Numeric generation and the binary shrink rule.
//!
//! All integer widths share one candidate rule, stated over `int`: a nonzero
//! value first offers `0`; a negative value whose first halved probe is
//! negative then offers its positive mirror; after that come the halving
//! probes `x - i` for `i = x/2, x/4, ...` while they stay strictly closer to
//! zero than `x`. The sequence is logarithmic in the magnitude of `x`.
use vstd::prelude::*;

use crate::arbitrary::Arbitrary;
use crate::source::Gen;

verus! {

/// The absolute value, on mathematical integers.
pub open spec fn iabs(x: int) -> int {
    if x >= 0 {
        x
    } else {
        -x
    }
}

/// Halving that rounds toward zero, as machine division does on both signs.
pub open spec fn half_to_zero(i: int) -> int {
    if i >= 0 {
        i / 2
    } else {
        -((-i) / 2)
    }
}

/// The halving probes: `x - i` is a candidate while it is strictly closer to
/// zero than `x`; then the probe distance `i` halves, until it reaches zero.
pub open spec fn shrink_probes(x: int, i: int) -> Seq<int>
    decreases iabs(i),
{
    if i != 0 && iabs(x - i) < iabs(x) {
        seq![x - i] + shrink_probes(x, half_to_zero(i))
    } else {
        Seq::empty()
    }
}

/// The full candidate sequence for an integer: zero has none; a nonzero value
/// offers `0`, then (when the first probe is negative) its positive mirror,
/// then the halving probes.
pub open spec fn int_shrink(x: int) -> Seq<int> {
    if x == 0 {
        Seq::empty()
    } else if half_to_zero(x) < 0 {
        seq![0, iabs(x)] + shrink_probes(x, half_to_zero(x))
    } else {
        seq![0] + shrink_probes(x, half_to_zero(x))
    }
}

/// Every halving probe is strictly closer to zero than the value it shrinks.
pub proof fn lemma_probes_closer(x: int, i: int)
    ensures
        forall|j: int|
            0 <= j < shrink_probes(x, i).len() ==> iabs(#[trigger] shrink_probes(x, i)[j])
                < iabs(x),
    decreases iabs(i),
{
    if i != 0 && iabs(x - i) < iabs(x) {
        lemma_probes_closer(x, half_to_zero(i));
        assert forall|j: int| 0 <= j < shrink_probes(x, i).len() implies iabs(
            #[trigger] shrink_probes(x, i)[j],
        ) < iabs(x) by {
            if j > 0 {
                assert(shrink_probes(x, i)[j] == shrink_probes(x, half_to_zero(i))[j - 1]);
            }
        }
    }
}

/// No candidate of an integer is farther from zero than the integer itself.
pub proof fn lemma_int_shrink_closer(x: int)
    ensures
        forall|j: int|
            0 <= j < int_shrink(x).len() ==> iabs(#[trigger] int_shrink(x)[j]) <= iabs(x),
{
    lemma_probes_closer(x, half_to_zero(x));
    if x != 0 {
        let pre: Seq<int> = if half_to_zero(x) < 0 {
            seq![0, iabs(x)]
        } else {
            seq![0]
        };
        assert forall|j: int| 0 <= j < int_shrink(x).len() implies iabs(
            #[trigger] int_shrink(x)[j],
        ) <= iabs(x) by {
            if j >= pre.len() {
                assert(int_shrink(x)[j] == shrink_probes(x, half_to_zero(x))[j - pre.len()]);
            }
        }
    }
}

/// An integer never appears among its own candidates: the halving probes are
/// strictly closer to zero, zero itself differs from any nonzero input, and
/// the positive mirror of a negative input differs in sign.
pub proof fn lemma_int_shrink_progress(x: int)
    ensures
        forall|j: int| 0 <= j < int_shrink(x).len() ==> #[trigger] int_shrink(x)[j] != x,
{
    lemma_probes_closer(x, half_to_zero(x));
    if x != 0 {
        let pre: Seq<int> = if half_to_zero(x) < 0 {
            seq![0, iabs(x)]
        } else {
            seq![0]
        };
        assert forall|j: int| 0 <= j < int_shrink(x).len() implies #[trigger] int_shrink(x)[j]
            != x by {
            if j >= pre.len() {
                assert(int_shrink(x)[j] == shrink_probes(x, half_to_zero(x))[j - pre.len()]);
                assert(iabs(int_shrink(x)[j]) < iabs(x));
            }
        }
    }
}

/// Draw below `bound`, treating an empty range as the single value zero.
pub fn draw_unsigned<G: Gen>(g: &mut G, bound: u64) -> (r: u64)
    ensures
        bound > 0 ==> r < bound,
        bound == 0 ==> r == 0,
        final(g).spec_size() == old(g).spec_size(),
{
    if bound == 0 {
        0
    } else {
        g.below(bound)
    }
}

/// Draw in `[-cap, cap)`, treating an empty range as the single value zero.
pub fn draw_signed<G: Gen>(g: &mut G, cap: u64) -> (r: i64)
    requires
        cap <= i64::MAX as u64,
    ensures
        cap > 0 ==> -(cap as int) <= (r as int) && (r as int) < cap as int,
        cap == 0 ==> r == 0,
        final(g).spec_size() == old(g).spec_size(),
{
    if cap == 0 {
        0
    } else {
        let u = g.below(2 * cap);
        if u >= cap {
            (u - cap) as i64
        } else {
            -((cap - u) as i64)
        }
    }
}

/// The probe distance as a signed integer: the magnitude `im`, negated when
/// the value being shrunk is negative.
spec fn signed_probe(neg: bool, im: u64) -> int {
    if neg {
        -(im as int)
    } else {
        im as int
    }
}

/// The candidate sequence for a `u64`, pointwise equal to the shared rule.
pub fn shrink_u64(x: u64) -> (r: Vec<u64>)
    ensures
        r@.len() == int_shrink(x as int).len(),
        forall|j: int| 0 <= j < r@.len() ==> #[trigger] r@[j] as int == int_shrink(x as int)[j],
        forall|j: int| 0 <= j < r@.len() ==> #[trigger] r@[j] < x,
{
    let mut out: Vec<u64> = Vec::new();
    if x == 0 {
        return out;
    }
    out.push(0);
    let mut i: u64 = x / 2;
    while i > 0
        invariant
            x > 0,
            i <= x / 2,
            out@.len() >= 1,
            out@.len() + shrink_probes(x as int, i as int).len() == int_shrink(x as int).len(),
            forall|j: int|
                0 <= j < out@.len() ==> #[trigger] out@[j] as int == int_shrink(x as int)[j],
            forall|j: int|
                0 <= j < shrink_probes(x as int, i as int).len() ==> #[trigger] shrink_probes(
                    x as int,
                    i as int,
                )[j] == int_shrink(x as int)[out@.len() + j],
            forall|j: int| 0 <= j < out@.len() ==> #[trigger] out@[j] < x,
        decreases i,
    {
        let ghost out0 = out@;
        let ghost i0 = i as int;
        proof {
            assert(shrink_probes(x as int, i0) == seq![x as int - i0] + shrink_probes(
                x as int,
                half_to_zero(i0),
            ));
        }
        out.push(x - i);
        i = i / 2;
        proof {
            assert(i as int == half_to_zero(i0));
            assert(out@ == out0.push((x as int - i0) as u64));
            assert forall|j: int| 0 <= j < out@.len() implies #[trigger] out@[j] as int
                == int_shrink(x as int)[j] by {
                if j == out0.len() {
                    assert(shrink_probes(x as int, i0)[0] == x as int - i0);
                }
            }
            assert forall|j: int|
                0 <= j < shrink_probes(x as int, i as int).len() implies #[trigger] shrink_probes(
                x as int,
                i as int,
            )[j] == int_shrink(x as int)[out@.len() + j] by {
                assert(shrink_probes(x as int, i0)[j + 1] == shrink_probes(
                    x as int,
                    half_to_zero(i0),
                )[j]);
            }
        }
    }
    out
}

/// The candidate sequence for an `i64`, pointwise equal to the shared rule.
/// The minimum value is excluded: its positive mirror has no representation.
pub fn shrink_i64(x: i64) -> (r: Vec<i64>)
    requires
        x != i64::MIN,
    ensures
        r@.len() == int_shrink(x as int).len(),
        forall|j: int| 0 <= j < r@.len() ==> #[trigger] r@[j] as int == int_shrink(x as int)[j],
        forall|j: int| 0 <= j < r@.len() ==> iabs(#[trigger] r@[j] as int) <= iabs(x as int),
{
    let mut out: Vec<i64> = Vec::new();
    if x == 0 {
        return out;
    }
    out.push(0);
    let neg = x < 0;
    let m: u64 = if neg {
        (-x) as u64
    } else {
        x as u64
    };
    let mut im: u64 = m / 2;
    proof {
        assert(m == iabs(x as int));
        assert(half_to_zero(x as int) == signed_probe(neg, im));
    }
    if neg && im > 0 {
        out.push(-x);
    }
    while im > 0
        invariant
            x != 0,
            x != i64::MIN,
            neg == (x < 0),
            m == iabs(x as int),
            im <= m / 2,
            out@.len() >= 1,
            out@.len() + shrink_probes(x as int, signed_probe(neg, im)).len() == int_shrink(
                x as int,
            ).len(),
            forall|j: int|
                0 <= j < out@.len() ==> #[trigger] out@[j] as int == int_shrink(x as int)[j],
            forall|j: int|
                0 <= j < shrink_probes(x as int, signed_probe(neg, im)).len()
                    ==> #[trigger] shrink_probes(x as int, signed_probe(neg, im))[j] == int_shrink(
                    x as int,
                )[out@.len() + j],
            forall|j: int| 0 <= j < out@.len() ==> iabs(#[trigger] out@[j] as int) <= iabs(
                x as int,
            ),
        decreases im,
    {
        let ghost i: int = signed_probe(neg, im);
        let ghost out0 = out@;
        proof {
            assert(iabs(x as int - i) < iabs(x as int));
            assert(half_to_zero(i) == signed_probe(neg, (im / 2) as u64));
            assert(shrink_probes(x as int, i) == seq![x as int - i] + shrink_probes(
                x as int,
                half_to_zero(i),
            ));
        }
        let cand: i64 = if neg {
            x + (im as i64)
        } else {
            x - (im as i64)
        };
        out.push(cand);
        im = im / 2;
        proof {
            assert(signed_probe(neg, im) == half_to_zero(i));
            assert(cand as int == x as int - i);
            assert(out@ == out0.push(cand));
            assert forall|j: int| 0 <= j < out@.len() implies #[trigger] out@[j] as int
                == int_shrink(x as int)[j] by {
                if j == out0.len() {
                    assert(shrink_probes(x as int, i)[0] == x as int - i);
                }
            }
            assert forall|j: int|
                0 <= j < shrink_probes(x as int, signed_probe(neg, im)).len()
                implies #[trigger] shrink_probes(x as int, signed_probe(neg, im))[j] == int_shrink(
                x as int,
            )[out@.len() + j] by {
                assert(shrink_probes(x as int, i)[j + 1] == shrink_probes(
                    x as int,
                    half_to_zero(i),
                )[j]);
            }
        }
    }
    out
}


/// Narrow candidates that fit in `u8`.
fn narrow_u8(cs: Vec<u64>) -> (r: Vec<u8>)
    requires
        forall|j: int| 0 <= j < cs@.len() ==> #[trigger] cs@[j] <= u8::MAX as u64,
    ensures
        r@.len() == cs@.len(),
        forall|j: int| 0 <= j < r@.len() ==> #[trigger] r@[j] == cs@[j] as u8,
{
    let mut r: Vec<u8> = Vec::new();
    let mut j: usize = 0;
    while j < cs.len()
        invariant
            j <= cs@.len(),
            r@.len() == j,
            forall|t: int| 0 <= t < cs@.len() ==> #[trigger] cs@[t] <= u8::MAX as u64,
            forall|t: int| 0 <= t < j ==> #[trigger] r@[t] == cs@[t] as u8,
        decreases cs@.len() - j,
    {
        r.push(cs[j] as u8);
        j += 1;
    }
    r
}

/// Narrow candidates that fit in `u16`.
fn narrow_u16(cs: Vec<u64>) -> (r: Vec<u16>)
    requires
        forall|j: int| 0 <= j < cs@.len() ==> #[trigger] cs@[j] <= u16::MAX as u64,
    ensures
        r@.len() == cs@.len(),
        forall|j: int| 0 <= j < r@.len() ==> #[trigger] r@[j] == cs@[j] as u16,
{
    let mut r: Vec<u16> = Vec::new();
    let mut j: usize = 0;
    while j < cs.len()
        invariant
            j <= cs@.len(),
            r@.len() == j,
            forall|t: int| 0 <= t < cs@.len() ==> #[trigger] cs@[t] <= u16::MAX as u64,
            forall|t: int| 0 <= t < j ==> #[trigger] r@[t] == cs@[t] as u16,
        decreases cs@.len() - j,
    {
        r.push(cs[j] as u16);
        j += 1;
    }
    r
}

/// Narrow candidates that fit in `u32`.
fn narrow_u32(cs: Vec<u64>) -> (r: Vec<u32>)
    requires
        forall|j: int| 0 <= j < cs@.len() ==> #[trigger] cs@[j] <= u32::MAX as u64,
    ensures
        r@.len() == cs@.len(),
        forall|j: int| 0 <= j < r@.len() ==> #[trigger] r@[j] == cs@[j] as u32,
{
    let mut r: Vec<u32> = Vec::new();
    let mut j: usize = 0;
    while j < cs.len()
        invariant
            j <= cs@.len(),
            r@.len() == j,
            forall|t: int| 0 <= t < cs@.len() ==> #[trigger] cs@[t] <= u32::MAX as u64,
            forall|t: int| 0 <= t < j ==> #[trigger] r@[t] == cs@[t] as u32,
        decreases cs@.len() - j,
    {
        r.push(cs[j] as u32);
        j += 1;
    }
    r
}

/// Narrow candidates that fit in `usize`.
fn narrow_usize(cs: Vec<u64>) -> (r: Vec<usize>)
    requires
        forall|j: int| 0 <= j < cs@.len() ==> #[trigger] cs@[j] <= usize::MAX as u64,
    ensures
        r@.len() == cs@.len(),
        forall|j: int| 0 <= j < r@.len() ==> #[trigger] r@[j] == cs@[j] as usize,
{
    let mut r: Vec<usize> = Vec::new();
    let mut j: usize = 0;
    while j < cs.len()
        invariant
            j <= cs@.len(),
            r@.len() == j,
            forall|t: int| 0 <= t < cs@.len() ==> #[trigger] cs@[t] <= usize::MAX as u64,
            forall|t: int| 0 <= t < j ==> #[trigger] r@[t] == cs@[t] as usize,
        decreases cs@.len() - j,
    {
        r.push(cs[j] as usize);
        j += 1;
    }
    r
}

/// Narrow candidates that fit in `i8`.
fn narrow_i8(cs: Vec<i64>) -> (r: Vec<i8>)
    requires
        forall|j: int|
            0 <= j < cs@.len() ==> i8::MIN as i64 <= #[trigger] cs@[j] && cs@[j] <= i8::MAX as i64,
    ensures
        r@.len() == cs@.len(),
        forall|j: int| 0 <= j < r@.len() ==> #[trigger] r@[j] == cs@[j] as i8,
{
    let mut r: Vec<i8> = Vec::new();
    let mut j: usize = 0;
    while j < cs.len()
        invariant
            j <= cs@.len(),
            r@.len() == j,
            forall|t: int|
                0 <= t < cs@.len() ==> i8::MIN as i64 <= #[trigger] cs@[t] && cs@[t] <= i8::MAX
                    as i64,
            forall|t: int| 0 <= t < j ==> #[trigger] r@[t] == cs@[t] as i8,
        decreases cs@.len() - j,
    {
        r.push(cs[j] as i8);
        j += 1;
    }
    r
}

/// Narrow candidates that fit in `i16`.
fn narrow_i16(cs: Vec<i64>) -> (r: Vec<i16>)
    requires
        forall|j: int|
            0 <= j < cs@.len() ==> i16::MIN as i64 <= #[trigger] cs@[j] && cs@[j] <= i16::MAX
                as i64,
    ensures
        r@.len() == cs@.len(),
        forall|j: int| 0 <= j < r@.len() ==> #[trigger] r@[j] == cs@[j] as i16,
{
    let mut r: Vec<i16> = Vec::new();
    let mut j: usize = 0;
    while j < cs.len()
        invariant
            j <= cs@.len(),
            r@.len() == j,
            forall|t: int|
                0 <= t < cs@.len() ==> i16::MIN as i64 <= #[trigger] cs@[t] && cs@[t] <= i16::MAX
                    as i64,
            forall|t: int| 0 <= t < j ==> #[trigger] r@[t] == cs@[t] as i16,
        decreases cs@.len() - j,
    {
        r.push(cs[j] as i16);
        j += 1;
    }
    r
}

/// Narrow candidates that fit in `i32`.
fn narrow_i32(cs: Vec<i64>) -> (r: Vec<i32>)
    requires
        forall|j: int|
            0 <= j < cs@.len() ==> i32::MIN as i64 <= #[trigger] cs@[j] && cs@[j] <= i32::MAX
                as i64,
    ensures
        r@.len() == cs@.len(),
        forall|j: int| 0 <= j < r@.len() ==> #[trigger] r@[j] == cs@[j] as i32,
{
    let mut r: Vec<i32> = Vec::new();
    let mut j: usize = 0;
    while j < cs.len()
        invariant
            j <= cs@.len(),
            r@.len() == j,
            forall|t: int|
                0 <= t < cs@.len() ==> i32::MIN as i64 <= #[trigger] cs@[t] && cs@[t] <= i32::MAX
                    as i64,
            forall|t: int| 0 <= t < j ==> #[trigger] r@[t] == cs@[t] as i32,
        decreases cs@.len() - j,
    {
        r.push(cs[j] as i32);
        j += 1;
    }
    r
}

/// Narrow candidates that fit in `isize`.
fn narrow_isize(cs: Vec<i64>) -> (r: Vec<isize>)
    requires
        forall|j: int|
            0 <= j < cs@.len() ==> isize::MIN as i64 <= #[trigger] cs@[j] && cs@[j] <= isize::MAX
                as i64,
    ensures
        r@.len() == cs@.len(),
        forall|j: int| 0 <= j < r@.len() ==> #[trigger] r@[j] == cs@[j] as isize,
{
    let mut r: Vec<isize> = Vec::new();
    let mut j: usize = 0;
    while j < cs.len()
        invariant
            j <= cs@.len(),
            r@.len() == j,
            forall|t: int|
                0 <= t < cs@.len() ==> isize::MIN as i64 <= #[trigger] cs@[t] && cs@[t]
                    <= isize::MAX as i64,
            forall|t: int| 0 <= t < j ==> #[trigger] r@[t] == cs@[t] as isize,
        decreases cs@.len() - j,
    {
        r.push(cs[j] as isize);
        j += 1;
    }
    r
}

impl Arbitrary for u64 {
    type M = u64;

    open spec fn model(&self) -> u64 {
        *self
    }

    open spec fn valid(m: u64) -> bool {
        true
    }

    open spec fn fits(m: u64, size: nat) -> bool {
        if size == 0 {
            m == 0
        } else {
            (m as nat) < size
        }
    }

    open spec fn shrink_model(&self) -> Seq<u64> {
        int_shrink(*self as int).map_values(|v: int| v as u64)
    }

    fn arbitrary<G: Gen>(g: &mut G) -> (r: u64) {
        let s = g.size();
        draw_unsigned(g, s as u64)
    }

    fn shrink(&self) -> (r: Vec<u64>) {
        shrink_u64(*self)
    }

    fn dup(&self) -> u64 {
        *self
    }
}


impl Arbitrary for u8 {
    type M = u8;

    open spec fn model(&self) -> u8 {
        *self
    }

    open spec fn valid(m: u8) -> bool {
        true
    }

    open spec fn fits(m: u8, size: nat) -> bool {
        if size == 0 {
            m == 0
        } else {
            (m as nat) < size
        }
    }

    open spec fn shrink_model(&self) -> Seq<u8> {
        int_shrink(*self as int).map_values(|v: int| v as u8)
    }

    fn arbitrary<G: Gen>(g: &mut G) -> (r: u8) {
        let s: u64 = g.size() as u64;
        let b: u64 = if s >= 256 {
            256
        } else {
            s
        };
        let v = draw_unsigned(g, b);
        v as u8
    }

    fn shrink(&self) -> (r: Vec<u8>) {
        narrow_u8(shrink_u64(*self as u64))
    }

    fn dup(&self) -> u8 {
        *self
    }
}

impl Arbitrary for u16 {
    type M = u16;

    open spec fn model(&self) -> u16 {
        *self
    }

    open spec fn valid(m: u16) -> bool {
        true
    }

    open spec fn fits(m: u16, size: nat) -> bool {
        if size == 0 {
            m == 0
        } else {
            (m as nat) < size
        }
    }

    open spec fn shrink_model(&self) -> Seq<u16> {
        int_shrink(*self as int).map_values(|v: int| v as u16)
    }

    fn arbitrary<G: Gen>(g: &mut G) -> (r: u16) {
        let s: u64 = g.size() as u64;
        let b: u64 = if s >= 65536 {
            65536
        } else {
            s
        };
        let v = draw_unsigned(g, b);
        v as u16
    }

    fn shrink(&self) -> (r: Vec<u16>) {
        narrow_u16(shrink_u64(*self as u64))
    }

    fn dup(&self) -> u16 {
        *self
    }
}

impl Arbitrary for u32 {
    type M = u32;

    open spec fn model(&self) -> u32 {
        *self
    }

    open spec fn valid(m: u32) -> bool {
        true
    }

    open spec fn fits(m: u32, size: nat) -> bool {
        if size == 0 {
            m == 0
        } else {
            (m as nat) < size
        }
    }

    open spec fn shrink_model(&self) -> Seq<u32> {
        int_shrink(*self as int).map_values(|v: int| v as u32)
    }

    fn arbitrary<G: Gen>(g: &mut G) -> (r: u32) {
        let s: u64 = g.size() as u64;
        let b: u64 = if s >= 4294967296 {
            4294967296
        } else {
            s
        };
        let v = draw_unsigned(g, b);
        v as u32
    }

    fn shrink(&self) -> (r: Vec<u32>) {
        narrow_u32(shrink_u64(*self as u64))
    }

    fn dup(&self) -> u32 {
        *self
    }
}

impl Arbitrary for usize {
    type M = usize;

    open spec fn model(&self) -> usize {
        *self
    }

    open spec fn valid(m: usize) -> bool {
        true
    }

    open spec fn fits(m: usize, size: nat) -> bool {
        if size == 0 {
            m == 0
        } else {
            (m as nat) < size
        }
    }

    open spec fn shrink_model(&self) -> Seq<usize> {
        int_shrink(*self as int).map_values(|v: int| v as usize)
    }

    fn arbitrary<G: Gen>(g: &mut G) -> (r: usize) {
        let s: u64 = g.size() as u64;
        let v = draw_unsigned(g, s);
        v as usize
    }

    fn shrink(&self) -> (r: Vec<usize>) {
        narrow_usize(shrink_u64(*self as u64))
    }

    fn dup(&self) -> usize {
        *self
    }
}

impl Arbitrary for i8 {
    type M = i8;

    open spec fn model(&self) -> i8 {
        *self
    }

    open spec fn valid(m: i8) -> bool {
        m != i8::MIN
    }

    open spec fn fits(m: i8, size: nat) -> bool {
        if size == 0 {
            m == 0
        } else {
            -(size as int) <= (m as int) && (m as int) < size as int
        }
    }

    open spec fn shrink_model(&self) -> Seq<i8> {
        int_shrink(*self as int).map_values(|v: int| v as i8)
    }

    fn arbitrary<G: Gen>(g: &mut G) -> (r: i8) {
        let s: u64 = g.size() as u64;
        let c: u64 = if s >= 127 {
            127
        } else {
            s
        };
        let v = draw_signed(g, c);
        v as i8
    }

    fn shrink(&self) -> (r: Vec<i8>) {
        narrow_i8(shrink_i64(*self as i64))
    }

    fn dup(&self) -> i8 {
        *self
    }
}

impl Arbitrary for i16 {
    type M = i16;

    open spec fn model(&self) -> i16 {
        *self
    }

    open spec fn valid(m: i16) -> bool {
        m != i16::MIN
    }

    open spec fn fits(m: i16, size: nat) -> bool {
        if size == 0 {
            m == 0
        } else {
            -(size as int) <= (m as int) && (m as int) < size as int
        }
    }

    open spec fn shrink_model(&self) -> Seq<i16> {
        int_shrink(*self as int).map_values(|v: int| v as i16)
    }

    fn arbitrary<G: Gen>(g: &mut G) -> (r: i16) {
        let s: u64 = g.size() as u64;
        let c: u64 = if s >= 32767 {
            32767
        } else {
            s
        };
        let v = draw_signed(g, c);
        v as i16
    }

    fn shrink(&self) -> (r: Vec<i16>) {
        narrow_i16(shrink_i64(*self as i64))
    }

    fn dup(&self) -> i16 {
        *self
    }
}

impl Arbitrary for i32 {
    type M = i32;

    open spec fn model(&self) -> i32 {
        *self
    }

    open spec fn valid(m: i32) -> bool {
        m != i32::MIN
    }

    open spec fn fits(m: i32, size: nat) -> bool {
        if size == 0 {
            m == 0
        } else {
            -(size as int) <= (m as int) && (m as int) < size as int
        }
    }

    open spec fn shrink_model(&self) -> Seq<i32> {
        int_shrink(*self as int).map_values(|v: int| v as i32)
    }

    fn arbitrary<G: Gen>(g: &mut G) -> (r: i32) {
        let s: u64 = g.size() as u64;
        let c: u64 = if s >= 2147483647 {
            2147483647
        } else {
            s
        };
        let v = draw_signed(g, c);
        v as i32
    }

    fn shrink(&self) -> (r: Vec<i32>) {
        narrow_i32(shrink_i64(*self as i64))
    }

    fn dup(&self) -> i32 {
        *self
    }
}

impl Arbitrary for i64 {
    type M = i64;

    open spec fn model(&self) -> i64 {
        *self
    }

    open spec fn valid(m: i64) -> bool {
        m != i64::MIN
    }

    open spec fn fits(m: i64, size: nat) -> bool {
        if size == 0 {
            m == 0
        } else {
            -(size as int) <= (m as int) && (m as int) < size as int
        }
    }

    open spec fn shrink_model(&self) -> Seq<i64> {
        int_shrink(*self as int).map_values(|v: int| v as i64)
    }

    fn arbitrary<G: Gen>(g: &mut G) -> (r: i64) {
        let s: u64 = g.size() as u64;
        let c: u64 = if s >= (i64::MAX as u64) {
            (i64::MAX as u64)
        } else {
            s
        };
        let v = draw_signed(g, c);
        v as i64
    }

    fn shrink(&self) -> (r: Vec<i64>) {
        let cs = shrink_i64(*self);
        proof {
            assert forall|j: int| 0 <= j < cs@.len() implies Self::valid(
                (#[trigger] cs@[j]).model(),
            ) by {
                assert(iabs(cs@[j] as int) <= iabs(*self as int));
            }
        }
        cs
    }

    fn dup(&self) -> i64 {
        *self
    }
}

impl Arbitrary for isize {
    type M = isize;

    open spec fn model(&self) -> isize {
        *self
    }

    open spec fn valid(m: isize) -> bool {
        m != isize::MIN
    }

    open spec fn fits(m: isize, size: nat) -> bool {
        if size == 0 {
            m == 0
        } else {
            -(size as int) <= (m as int) && (m as int) < size as int
        }
    }

    open spec fn shrink_model(&self) -> Seq<isize> {
        int_shrink(*self as int).map_values(|v: int| v as isize)
    }

    fn arbitrary<G: Gen>(g: &mut G) -> (r: isize) {
        let s: u64 = g.size() as u64;
        let c: u64 = if s >= (isize::MAX as u64) {
            (isize::MAX as u64)
        } else {
            s
        };
        let v = draw_signed(g, c);
        v as isize
    }

    fn shrink(&self) -> (r: Vec<isize>) {
        narrow_isize(shrink_i64(*self as i64))
    }

    fn dup(&self) -> isize {
        *self
    }
}

} // verus!

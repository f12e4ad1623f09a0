use arbigen::Arbitrary;
use arbigen::StdGen;
use rand::SeedableRng;

fn arby<A: Arbitrary>() -> A {
    Arbitrary::arbitrary(&mut gen())
}

fn gen() -> StdGen<rand::rngs::ThreadRng> {
    StdGen::new(rand::thread_rng(), 5)
}

fn rep<F>(f: &mut F)
where
    F: FnMut() -> (),
{
    for _ in 0..100 {
        f()
    }
}

#[test]
fn arby_unit() {
    assert_eq!(arby::<()>(), ());
}

#[test]
fn arby_int() {
    rep(&mut || {
        let n: isize = arby();
        assert!(n >= -5 && n <= 5);
    });
}

#[test]
fn arby_uint() {
    rep(&mut || {
        let n: usize = arby();
        assert!(n <= 5);
    });
}

#[test]
fn sized_sequences() {
    rep(&mut || {
        let v: Vec<isize> = arby();
        assert!(v.len() < 5);
        for x in v {
            assert!(-5 <= x && x < 5);
        }
    });
}

#[test]
fn sized_text() {
    rep(&mut || {
        let s: String = arby();
        assert!(s.chars().count() < 5);
        for c in s.chars() {
            assert!(' ' <= c && c <= '~');
        }
    });
}

#[test]
fn sized_chars() {
    rep(&mut || {
        let c: char = arby();
        assert!(' ' <= c && c <= '~');
    });
}

#[test]
fn sized_narrow_ints() {
    rep(&mut || {
        let a: u8 = arby();
        assert!(a < 5);
        let b: i8 = arby();
        assert!(-5 <= b && b < 5);
    });
}

#[test]
fn zero_size_floor() {
    let mut g = StdGen::new(rand::thread_rng(), 0);
    let n: u64 = Arbitrary::arbitrary(&mut g);
    assert_eq!(n, 0);
    let i: i32 = Arbitrary::arbitrary(&mut g);
    assert_eq!(i, 0);
    let v: Vec<bool> = Arbitrary::arbitrary(&mut g);
    assert!(v.is_empty());
    let s: String = Arbitrary::arbitrary(&mut g);
    assert!(s.is_empty());
}

// The random draw behind generation must honor its bound: with a bound of
// one, every draw lands on zero.
#[test]
fn draw_stays_below_bound() {
    let mut g = StdGen::new(rand::thread_rng(), 1);
    for _ in 0..50 {
        let n: usize = Arbitrary::arbitrary(&mut g);
        assert_eq!(n, 0);
    }
}

// Round-trip sanity: every shrink candidate is a valid value of its type, so
// shrinking can be re-entered on any candidate.
#[test]
fn candidates_shrink_again() {
    rep(&mut || {
        let v: Vec<isize> = arby();
        for c in v.shrink() {
            for c2 in c.shrink() {
                let _ = c2.shrink();
            }
        }
        let t: (i8, bool) = arby();
        for c in t.shrink() {
            let _ = c.shrink();
        }
    });
}

// A seeded source gives reproducible draws that still honor the size bound.
#[test]
fn seeded_source() {
    let mut g1 = StdGen::new(rand::rngs::StdRng::seed_from_u64(9), 5);
    let mut g2 = StdGen::new(rand::rngs::StdRng::seed_from_u64(9), 5);
    let a: Vec<isize> = Arbitrary::arbitrary(&mut g1);
    let b: Vec<isize> = Arbitrary::arbitrary(&mut g2);
    assert_eq!(a, b);
    assert!(a.len() < 5);
}

// A size far beyond a type's range: draws cap at the representable range and
// the wider types still respect the bound.
#[test]
fn huge_size_bounds() {
    let mut g = StdGen::new(rand::thread_rng(), usize::MAX);
    for _ in 0..100 {
        let a: i8 = Arbitrary::arbitrary(&mut g);
        assert!(-127 <= a);
        let b: i64 = Arbitrary::arbitrary(&mut g);
        assert!(b != i64::MIN);
        let c: isize = Arbitrary::arbitrary(&mut g);
        assert!(c != isize::MIN);
    }
}

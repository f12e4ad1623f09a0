use std::collections::HashSet;
use std::fmt::Debug;
use std::hash::Hash;

use arbigen::Arbitrary;

// Set equality on the results of a shrinker.
fn eq<A: Arbitrary + Eq + Debug + Hash>(s: A, v: Vec<A>) {
    let (left, right) = (shrunk(s), set(v));
    assert_eq!(left, right);
}

fn shrunk<A: Arbitrary + Eq + Hash>(s: A) -> HashSet<A> {
    set(s.shrink())
}

fn set<A: Eq + Hash>(xs: Vec<A>) -> HashSet<A> {
    xs.into_iter().collect()
}

fn ordered_eq<A: Arbitrary + Eq + Debug>(s: A, v: Vec<A>) {
    let left = s.shrink();
    assert_eq!(left, v);
}

#[test]
fn unit() {
    eq((), vec![]);
}

#[test]
fn bools() {
    eq(false, vec![]);
    eq(true, vec![false]);
}

#[test]
fn options() {
    eq(None::<()>, vec![]);
    eq(Some(false), vec![None]);
    eq(Some(true), vec![None, Some(false)]);
}

#[test]
fn results() {
    ordered_eq(Ok::<bool, ()>(true), vec![Ok(false)]);
    ordered_eq(Err::<(), bool>(true), vec![Err(false)]);
}

#[test]
fn tuples() {
    eq((false, false), vec![]);
    eq((true, false), vec![(false, false)]);
    eq((true, true), vec![(false, true), (true, false)]);
}

#[test]
fn triples() {
    eq((false, false, false), vec![]);
    eq((true, false, false), vec![(false, false, false)]);
    eq((true, true, false), vec![(false, true, false), (true, false, false)]);
}

#[test]
fn quads() {
    eq((false, false, false, false), vec![]);
    eq((true, false, false, false), vec![(false, false, false, false)]);
    eq(
        (true, true, false, false),
        vec![(false, true, false, false), (true, false, false, false)],
    );
}

#[test]
fn ints() {
    eq(5isize, vec![0, 3, 4]);
    eq(-5isize, vec![5, 0, -3, -4]);
    eq(0isize, vec![]);
}

#[test]
fn ints8() {
    eq(5i8, vec![0, 3, 4]);
    eq(-5i8, vec![5, 0, -3, -4]);
    eq(0i8, vec![]);
}

#[test]
fn ints16() {
    eq(5i16, vec![0, 3, 4]);
    eq(-5i16, vec![5, 0, -3, -4]);
    eq(0i16, vec![]);
}

#[test]
fn ints32() {
    eq(5i32, vec![0, 3, 4]);
    eq(-5i32, vec![5, 0, -3, -4]);
    eq(0i32, vec![]);
}

#[test]
fn ints64() {
    eq(5i64, vec![0, 3, 4]);
    eq(-5i64, vec![5, 0, -3, -4]);
    eq(0i64, vec![]);
}

#[test]
fn uints() {
    eq(5usize, vec![0, 3, 4]);
    eq(0usize, vec![]);
}

#[test]
fn uints8() {
    eq(5u8, vec![0, 3, 4]);
    eq(0u8, vec![]);
}

#[test]
fn uints16() {
    eq(5u16, vec![0, 3, 4]);
    eq(0u16, vec![]);
}

#[test]
fn uints32() {
    eq(5u32, vec![0, 3, 4]);
    eq(0u32, vec![]);
}

#[test]
fn uints64() {
    eq(5u64, vec![0, 3, 4]);
    eq(0u64, vec![]);
}

#[test]
fn vecs() {
    eq(
        {
            let it: Vec<isize> = vec![];
            it
        },
        vec![],
    );
    eq(
        {
            let it: Vec<Vec<isize>> = vec![vec![]];
            it
        },
        vec![vec![]],
    );
    eq(vec![1isize], vec![vec![], vec![0]]);
    eq(vec![11isize], vec![vec![], vec![0], vec![6], vec![9], vec![10]]);
    eq(
        vec![3isize, 5],
        vec![
            vec![],
            vec![5],
            vec![3],
            vec![0, 5],
            vec![2, 5],
            vec![3, 0],
            vec![3, 3],
            vec![3, 4],
        ],
    );
}

#[test]
fn chars() {
    eq('a', vec![]);
}

#[test]
fn strs() {
    eq("".to_string(), vec![]);
    eq("A".to_string(), vec!["".to_string()]);
    eq(
        "ABC".to_string(),
        vec![
            "".to_string(),
            "AB".to_string(),
            "BC".to_string(),
            "AC".to_string(),
        ],
    );
}

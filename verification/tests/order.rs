use arbigen::Arbitrary;
use arbigen::empty_shrinker;
use arbigen::single_shrinker;

#[test]
fn unsigned_order() {
    assert_eq!(5u64.shrink(), vec![0, 3, 4]);
    assert_eq!(0u64.shrink(), Vec::<u64>::new());
}

// Zero leads, the positive mirror of a negative value comes right after it,
// and the halving probes follow.
#[test]
fn signed_order() {
    assert_eq!((-5i64).shrink(), vec![0, 5, -3, -4]);
    assert_eq!(5i64.shrink(), vec![0, 3, 4]);
    assert_eq!((-1i64).shrink(), vec![0]);
}

#[test]
fn boolean_order() {
    assert_eq!(true.shrink(), vec![false]);
    assert_eq!(false.shrink(), Vec::<bool>::new());
}

#[test]
fn optional_order() {
    assert_eq!(Some(true).shrink(), vec![None, Some(false)]);
}

#[test]
fn sequence_order() {
    let v: Vec<isize> = vec![3, 5];
    let expected: Vec<Vec<isize>> = vec![
        vec![],
        vec![5],
        vec![3],
        vec![0, 5],
        vec![2, 5],
        vec![3, 0],
        vec![3, 3],
        vec![3, 4],
    ];
    assert_eq!(v.shrink(), expected);
}

#[test]
fn text_order() {
    let s = "ABC".to_string();
    let expected: Vec<String> = vec![
        "".to_string(),
        "BC".to_string(),
        "AC".to_string(),
        "AB".to_string(),
    ];
    assert_eq!(s.shrink(), expected);
}

// Runs of every starting offset are deleted, longest runs first.
#[test]
fn run_removal_phases() {
    let v: Vec<u8> = vec![1, 1, 1, 1];
    let got = v.shrink();
    assert_eq!(got[0], Vec::<u8>::new());
    assert_eq!(got[1], vec![1, 1]);
    assert_eq!(got.len(), 1 + 3 + 4 + 4);
}

#[test]
fn shrinker_primitives() {
    let e: Vec<u8> = empty_shrinker();
    assert!(e.is_empty());
    let s = single_shrinker(7u8);
    assert_eq!(s, vec![7]);
}

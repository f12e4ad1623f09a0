use arbigen::Arbitrary;
use arbigen::AssocMap;
use arbigen::StdGen;

#[test]
fn assoc_maps() {
    let empty: AssocMap<i64> = AssocMap::new();
    assert_eq!(empty.shrink().len(), 0);

    let mut map: AssocMap<i64> = AssocMap::new();
    map.insert(1, 1);
    let got: Vec<Vec<(u64, i64)>> = map.shrink().iter().map(|m| m.entries().clone()).collect();
    assert_eq!(got, vec![vec![], vec![(0, 1)], vec![(1, 0)]]);
}

#[test]
fn assoc_insert_overwrites_in_place() {
    let mut map: AssocMap<i64> = AssocMap::new();
    map.insert(3, 10);
    map.insert(1, 20);
    map.insert(3, 30);
    assert_eq!(map.entries().clone(), vec![(3, 30), (1, 20)]);
    assert_eq!(map.len(), 2);
}

#[test]
fn assoc_from_pairs_folds() {
    let pairs: Vec<(u64, i64)> = vec![(2, 1), (2, 5), (0, 7)];
    let map = AssocMap::from_pairs(&pairs);
    assert_eq!(map.entries().clone(), vec![(2, 5), (0, 7)]);
}

#[test]
fn assoc_generation_respects_size() {
    for _ in 0..100 {
        let mut g = StdGen::new(rand::thread_rng(), 5);
        let m: AssocMap<i64> = Arbitrary::arbitrary(&mut g);
        assert!(m.len() < 5);
        let mut keys: Vec<u64> = Vec::new();
        for p in m.entries().iter() {
            assert!(p.0 < 5);
            assert!(-5 <= p.1 && p.1 < 5);
            keys.push(p.0);
        }
        let n = keys.len();
        keys.sort();
        keys.dedup();
        assert_eq!(keys.len(), n);
    }
}

#[test]
fn assoc_shrink_candidates_fold() {
    // a shrunk key may collide with another entry; the refold keeps keys
    // distinct in every candidate
    let mut map: AssocMap<i64> = AssocMap::new();
    map.insert(0, 1);
    map.insert(1, 2);
    for cand in map.shrink() {
        let mut keys: Vec<u64> = cand.entries().iter().map(|p| p.0).collect();
        let n = keys.len();
        keys.sort();
        keys.dedup();
        assert_eq!(keys.len(), n);
    }
}

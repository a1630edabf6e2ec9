use gridkit::containers::{combine_codes, Pair};
use gridkit::coord::Cartesian;
use std::collections::hash_map::DefaultHasher;
use std::collections::HashSet;
use std::hash::{BuildHasher, BuildHasherDefault, Hash, Hasher};

fn code_of<T: Hash>(v: &T) -> u64 {
    let mut h = DefaultHasher::new();
    v.hash(&mut h);
    h.finish()
}

#[test]
fn swapped_pairs_are_equal() {
    assert!(Pair::new(1, 2) == Pair::new(2, 1));
    assert!(Pair::new(1, 2) == Pair::new(1, 2));
    assert!(Pair::new(1, 2) != Pair::new(1, 3));
}

#[test]
fn swapped_pairs_hash_alike() {
    let p = Pair::new(Cartesian::new(0, 0), Cartesian::new(1, 0));
    let q = Pair::new(Cartesian::new(1, 0), Cartesian::new(0, 0));
    assert_eq!(code_of(&p), code_of(&q));
    assert_eq!(code_of(&p), code_of(&p));
}

#[test]
fn pair_hash_feeds_combined_member_codes() {
    let build = BuildHasherDefault::<DefaultHasher>::default();
    let a = Cartesian::new(3, 4);
    let b = Cartesian::new(-1, 9);
    let mut expected = DefaultHasher::new();
    expected.write_u64(build.hash_one(&a) ^ build.hash_one(&b));
    assert_eq!(code_of(&Pair::new(a, b)), expected.finish());
}

#[test]
fn twin_pair_differs() {
    assert!(Pair::new(1, 1) != Pair::new(1, 2));
    assert!(Pair::new(1, 2) != Pair::new(1, 1));
    assert!(Pair::new(1, 1) != Pair::new(2, 1));
    assert!(Pair::new(2, 1) != Pair::new(1, 1));
}

#[test]
fn edge_set_deduplicates() {
    let mut edges = HashSet::new();
    edges.insert(Pair::new(Cartesian::new(0, 0), Cartesian::new(1, 0)));
    edges.insert(Pair::new(Cartesian::new(1, 0), Cartesian::new(0, 0)));
    assert_eq!(edges.len(), 1);
    assert!(edges.contains(&Pair::new(Cartesian::new(0, 0), Cartesian::new(1, 0))));
}

#[test]
fn combine_codes_is_xor() {
    assert_eq!(combine_codes(0b1100, 0b1010), 0b0110);
    assert_eq!(combine_codes(7, 7), 0);
    assert_eq!(combine_codes(5, 9), combine_codes(9, 5));
}

use am4::matrix::{
    get_index, get_index_unchecked, DemandMatrix, DistanceMatrix, PaxDemand, ParseError,
    StrictlyUpperTriangularMatrix, AIRPORT_COUNT, ROUTE_COUNT,
};

#[test]
fn route_count() {
    assert_eq!(AIRPORT_COUNT, 3907);
    assert_eq!(ROUTE_COUNT, 7630371);
}

#[test]
fn index_of_four_airports() {
    type M = StrictlyUpperTriangularMatrix<4>;
    assert_eq!(M::index((0, 1)), 0);
    assert_eq!(M::index((0, 2)), 1);
    assert_eq!(M::index((0, 3)), 2);
    assert_eq!(M::index((1, 2)), 3);
    assert_eq!(M::index((1, 3)), 4);
    assert_eq!(M::index((2, 3)), 5);
}

#[test]
fn walk_follows_index_order() {
    let mut walk = StrictlyUpperTriangularMatrix::<5>::default();
    let mut k = 0;
    while let Some((i, j)) = walk.next() {
        assert!(i < j && j < 5);
        assert_eq!(StrictlyUpperTriangularMatrix::<5>::index((i, j)), k);
        k += 1;
    }
    assert_eq!(k, 10);
    assert_eq!(walk.next(), None);
}

#[test]
fn walk_of_one_airport_is_empty() {
    let mut walk = StrictlyUpperTriangularMatrix::<1>::default();
    assert_eq!(walk.next(), None);
}

#[test]
fn demand_table_length_is_checked() {
    let err = DemandMatrix::from_demands(vec![PaxDemand { y: 1, j: 2, f: 3 }; 10]).unwrap_err();
    assert_eq!(err, ParseError::InvalidDataLength { expected: ROUTE_COUNT, actual: 10 });
}

#[test]
fn demand_lookup_is_undirected() {
    let mut v = vec![PaxDemand { y: 0, j: 0, f: 0 }; ROUTE_COUNT];
    v[1] = PaxDemand { y: 7, j: 8, f: 9 };
    let m = DemandMatrix::from_demands(v).unwrap();
    assert_eq!(m.data().len(), ROUTE_COUNT);
    assert_eq!(*m.index((0, 2)), PaxDemand { y: 7, j: 8, f: 9 });
    assert_eq!(*m.index((2, 0)), PaxDemand { y: 7, j: 8, f: 9 });
    assert_eq!(m.get_unchecked(2, 0), PaxDemand { y: 7, j: 8, f: 9 });
    assert_eq!(m.get_unchecked(1, 2), PaxDemand { y: 0, j: 0, f: 0 });
}

#[test]
fn distances_from_airports() {
    let aps: Vec<u32> = (0..AIRPORT_COUNT as u32).collect();
    let m = DistanceMatrix::from_airports(&aps, |a: &u32, b: &u32| (*a as u64) * 10_000 + *b as u64);
    assert_eq!(m.data().len(), ROUTE_COUNT);
    assert_eq!(m.get_unchecked(0, 1), 1);
    assert_eq!(m.get_unchecked(3906, 3905), 3905 * 10_000 + 3906);
    assert_eq!(*m.index((17, 4)), 4 * 10_000 + 17);
    assert_eq!(m.data()[ROUTE_COUNT - 1], 3905 * 10_000 + 3906);
}

#[test]
fn distance_table_length_is_checked() {
    assert!(DistanceMatrix::from_distances(vec![1u16; 3]).is_err());
    assert!(DistanceMatrix::from_distances(vec![1u16; ROUTE_COUNT]).is_ok());
}

#[test]
fn walk_collects_every_pair_in_order() {
    let pairs = StrictlyUpperTriangularMatrix::<4>::default().collect_pairs();
    assert_eq!(pairs, vec![(0, 1), (0, 2), (0, 3), (1, 2), (1, 3), (2, 3)]);
    for (k, p) in pairs.iter().enumerate() {
        assert_eq!(StrictlyUpperTriangularMatrix::<4>::index(*p), k);
    }
    let mut w = StrictlyUpperTriangularMatrix::<4>::default();
    for _ in 0..6 {
        assert!(w.next().is_some());
    }
    assert_eq!(w.next(), None);
    assert_eq!(w.next(), None);
    assert_eq!(w.collect_pairs(), vec![]);
    assert_eq!(StrictlyUpperTriangularMatrix::<1>::default().collect_pairs(), vec![]);
}

#[test]
fn route_slots_agree_both_ways() {
    let pairs = [(0, 1), (1, 0), (5, 3906), (3906, 5), (3905, 3906), (1234, 2345)];
    for &(o, d) in pairs.iter() {
        let slot = get_index(o, d);
        assert_eq!(get_index_unchecked(o, d), slot);
        assert_eq!(get_index(d, o), slot);
        assert!(slot < ROUTE_COUNT);
    }
    assert_eq!(get_index(0, 1), 0);
    assert_eq!(get_index(AIRPORT_COUNT - 2, AIRPORT_COUNT - 1), ROUTE_COUNT - 1);
}

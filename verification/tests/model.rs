use slithergen::model::{Cell, Coord, HexMap, Region};

#[test]
fn test_iter_coords_count() {
    // Formula: 3R(R+1) + 1
    // R=2 -> 3*2*3 + 1 = 19
    let map = HexMap::new(2);
    let count = map.iter_coords().len();
    assert_eq!(count, 19);

    // R=0 -> 1
    let map = HexMap::new(0);
    let count = map.iter_coords().len();
    assert_eq!(count, 1);
}

#[test]
fn enumeration_cardinality_small_radii() {
    // |enumerate(R)| == 3R^2 + 3R + 1 for R = 0, 1, 2
    assert_eq!(HexMap::new(0).iter_coords().len(), 1);
    assert_eq!(HexMap::new(1).iter_coords().len(), 7);
    assert_eq!(HexMap::new(2).iter_coords().len(), 19);
}

#[test]
fn enumeration_is_deterministic() {
    let a = HexMap::new(3).iter_coords();
    let b = HexMap::new(3).iter_coords();
    assert_eq!(a.len(), b.len());
    for i in 0..a.len() {
        assert_eq!(a[i], b[i]);
    }
}

#[test]
fn enumeration_order_radius_one() {
    // q ascending from -R to R; r ascending over max(-R, -q-R)..=min(R, -q+R)
    let coords = HexMap::new(1).iter_coords();
    let expected = vec![
        Coord::new(-1, 0),
        Coord::new(-1, 1),
        Coord::new(0, -1),
        Coord::new(0, 0),
        Coord::new(0, 1),
        Coord::new(1, -1),
        Coord::new(1, 0),
    ];
    assert_eq!(coords, expected);
}

#[test]
fn map_insert_get_len() {
    let mut map = HexMap::new(1);
    assert_eq!(map.radius(), 1);
    assert_eq!(map.len(), 0);
    let c = Coord::new(0, 0);
    map.insert(c, Cell::new(Region::Inside, 2, false));
    assert_eq!(map.len(), 1);
    assert_eq!(map.get(&c), Some(&Cell::new(Region::Inside, 2, false)));
    assert_eq!(map.get(&Coord::new(1, 0)), None);
    // inserting the same coordinate replaces, it does not duplicate
    map.insert(c, Cell::new(Region::Outside, 5, true));
    assert_eq!(map.len(), 1);
    assert_eq!(map.get(&c), Some(&Cell::new(Region::Outside, 5, true)));
}

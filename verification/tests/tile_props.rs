use tile_cache::tile::Tile;

#[test]
fn new_rejects_out_of_range() {
    assert!(Tile::new(0, 3, 3).is_none());
    assert!(Tile::new(0, 0, 1).is_none());
    assert!(Tile::new(1, 2, 0).is_none());
    assert!(Tile::new(32, 0, 0).is_none());
    assert!(Tile::new(255, 0, 0).is_none());
}

#[test]
fn new_accepts_in_range() {
    assert_eq!(
        Tile::new(0, 0, 0),
        Some(Tile { zoom: 0, x: 0, y: 0 })
    );
    assert_eq!(
        Tile::new(10, 547, 380),
        Some(Tile { zoom: 10, x: 547, y: 380 })
    );
    assert!(Tile::new(31, (1 << 31) - 1, 0).is_some());
    assert!(Tile::new(31, 1 << 31, 0).is_none());
}

#[test]
fn parent_of_zoom_zero_is_none() {
    let t = Tile::new(0, 0, 0).unwrap();
    assert!(t.parent().is_none());
}

#[test]
fn parent_halves_coordinates() {
    let t = Tile::new(10, 547, 380).unwrap();
    assert_eq!(t.parent(), Tile::new(9, 273, 190));
    let t = Tile::new(1, 0, 0).unwrap();
    assert_eq!(t.parent(), Tile::new(0, 0, 0));
}

#[test]
fn children_are_the_four_quadrants() {
    let t = Tile::new(0, 0, 0).unwrap();
    let c = t.children().unwrap();
    assert_eq!(c[0], Tile::new(1, 0, 0).unwrap());
    assert_eq!(c[1], Tile::new(1, 1, 0).unwrap());
    assert_eq!(c[2], Tile::new(1, 0, 1).unwrap());
    assert_eq!(c[3], Tile::new(1, 1, 1).unwrap());
}

#[test]
fn children_at_deepest_zoom_is_none() {
    let t = Tile::new(31, 5, 9).unwrap();
    assert!(t.children().is_none());
}

#[test]
fn parent_of_each_child_is_the_tile() {
    let t = Tile::new(7, 81, 44).unwrap();
    for child in t.children().unwrap() {
        assert_eq!(child.parent(), Some(t));
    }
}

#[test]
fn children_of_parent_contain_the_tile() {
    for (zoom, x, y) in [(1u8, 0u32, 1u32), (5, 17, 30), (10, 547, 380)] {
        let t = Tile::new(zoom, x, y).unwrap();
        let p = t.parent().unwrap();
        assert!(p.children().unwrap().contains(&t));
    }
}

use tile_cache::precache::{ancestors, descendants, precache_adjacent_tiles, precache_plan};
use tile_cache::router::Style;
use tile_cache::tile::Tile;

fn tile(zoom: u8, x: u32, y: u32) -> Tile {
    Tile::new(zoom, x, y).unwrap()
}

#[test]
fn ancestors_climb_to_zoom_zero() {
    let t = tile(3, 5, 6);
    assert_eq!(
        ancestors(t),
        vec![tile(2, 2, 3), tile(1, 1, 1), tile(0, 0, 0)]
    );
    assert_eq!(ancestors(tile(0, 0, 0)), vec![]);
}

#[test]
fn descendants_expand_depth_first() {
    let t = tile(0, 0, 0);
    let d = descendants(t, 1);
    assert_eq!(
        d,
        vec![tile(1, 0, 0), tile(1, 1, 0), tile(1, 0, 1), tile(1, 1, 1)]
    );
    let d2 = descendants(t, 2);
    assert_eq!(d2.len(), 20);
    // Each child is followed by its own four children before the next child.
    assert_eq!(d2[0], tile(1, 0, 0));
    assert_eq!(d2[1], tile(2, 0, 0));
    assert_eq!(d2[2], tile(2, 1, 0));
    assert_eq!(d2[3], tile(2, 0, 1));
    assert_eq!(d2[4], tile(2, 1, 1));
    assert_eq!(d2[5], tile(1, 1, 0));
}

#[test]
fn descendants_stop_at_the_deepest_zoom() {
    assert_eq!(descendants(tile(31, 0, 0), 2).len(), 0);
    assert_eq!(descendants(tile(30, 0, 0), 2).len(), 4);
}

#[test]
fn adjacent_set_counts_descendants_plus_ancestors() {
    // Zoom 5: 20 descendants (two levels) and 5 ancestors.
    let t = tile(5, 11, 23);
    let plan = precache_adjacent_tiles(t);
    assert_eq!(plan.len(), 25);
    // Descendants come first, ancestors afterwards, nearest first.
    assert_eq!(plan[0], tile(6, 22, 46));
    assert_eq!(plan[20], tile(4, 5, 11));
    assert_eq!(plan[24], tile(0, 0, 0));
}

#[test]
fn full_plan_covers_every_style() {
    let t = tile(2, 1, 1);
    let per_style = precache_adjacent_tiles(t);
    let plan = precache_plan(t);
    assert_eq!(plan.len(), 3 * per_style.len());
    for (i, entry) in plan.iter().enumerate() {
        let style = match i / per_style.len() {
            0 => Style::Osm,
            1 => Style::TransportDark,
            _ => Style::Matrix,
        };
        assert_eq!(entry, &(style, per_style[i % per_style.len()]));
    }
}

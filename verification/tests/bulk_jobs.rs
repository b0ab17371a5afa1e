use tile_cache::bbox::moscow_bbox;
use tile_cache::bulk::{precache_moscow_until_zoom, precache_until_zoom, BulkJob, JobCounters};
use tile_cache::fetch::{inner_fetch_tile, Freshness, UpstreamOutcome};
use tile_cache::router::Style;
use tile_cache::store::{CacheKey, CacheStore};
use tile_cache::tile::Tile;

fn tile(zoom: u8, x: u32, y: u32) -> Tile {
    Tile::new(zoom, x, y).unwrap()
}

#[test]
fn full_sweep_counts_are_the_power_sum() {
    let mut store = CacheStore::new();
    let body = vec![1u8, 2, 3];
    let c = precache_until_zoom(&mut store, Style::Osm, 2, &body, false);
    // 4^0 + 4^1 + 4^2 tiles, all fresh on an empty store.
    assert_eq!(
        c,
        JobCounters {
            errors: 0,
            existing: 0,
            new: 21
        }
    );
    // Every tile to zoom 2 is now stored with the upstream body.
    for (z, x, y) in [(0u8, 0u32, 0u32), (1, 1, 0), (2, 3, 3)] {
        let key = CacheKey {
            style: Style::Osm,
            tile: tile(z, x, y),
        };
        assert_eq!(store.get(&key), Some(&body));
    }
}

#[test]
fn second_sweep_sees_only_existing_tiles() {
    let mut store = CacheStore::new();
    let body = vec![9u8];
    precache_until_zoom(&mut store, Style::Osm, 1, &body, false);
    let c = precache_until_zoom(&mut store, Style::Osm, 1, &body, false);
    assert_eq!(
        c,
        JobCounters {
            errors: 0,
            existing: 5,
            new: 0
        }
    );
}

#[test]
fn sweep_at_zoom_zero_then_direct_fetch_hits_cache() {
    let mut store = CacheStore::new();
    let body = vec![42u8, 43];
    let c = precache_until_zoom(&mut store, Style::Osm, 0, &body, false);
    assert_eq!(
        c,
        JobCounters {
            errors: 0,
            existing: 0,
            new: 1
        }
    );
    let r = inner_fetch_tile(
        &mut store,
        Style::Osm,
        tile(0, 0, 0),
        UpstreamOutcome::RequestFailed("must not be consulted".to_string()),
        false,
    )
    .unwrap();
    assert_eq!(r, (body, Freshness::FromCache));
}

#[test]
fn sweep_splits_existing_and_new() {
    // Seed the store with the zoom-0 tile; a sweep to zoom 1 then counts it
    // as existing and the four zoom-1 tiles as new.
    let mut store = CacheStore::new();
    let body = vec![7u8];
    precache_until_zoom(&mut store, Style::Osm, 0, &body, false);
    let c = precache_until_zoom(&mut store, Style::Osm, 1, &body, false);
    assert_eq!(
        c,
        JobCounters {
            errors: 0,
            existing: 1,
            new: 4
        }
    );
    // A different style shares nothing: everything is new again.
    let c = precache_until_zoom(&mut store, Style::Matrix, 1, &body, false);
    assert_eq!(
        c,
        JobCounters {
            errors: 0,
            existing: 0,
            new: 5
        }
    );
}

#[test]
fn moscow_sweep_counts_only_overlapping_tiles() {
    // One overlapping tile per zoom level; seeding the zoom-0 tile first
    // makes it the single existing one.
    let mut store = CacheStore::new();
    let body = vec![8u8];
    precache_until_zoom(&mut store, Style::Osm, 0, &body, false);
    let c = precache_moscow_until_zoom(&mut store, Style::Osm, 2, &body, false);
    assert_eq!(
        c,
        JobCounters {
            errors: 0,
            existing: 1,
            new: 2
        }
    );
}

#[test]
fn moscow_sweep_fetches_only_overlapping_tiles() {
    let mut store = CacheStore::new();
    let body = vec![5u8];
    let c = precache_moscow_until_zoom(&mut store, Style::Osm, 2, &body, false);
    // One tile per zoom level covers the Moscow box at zooms 0..=2.
    assert_eq!(
        c,
        JobCounters {
            errors: 0,
            existing: 0,
            new: 3
        }
    );
    for (z, x, y) in [(0u8, 0u32, 0u32), (1, 1, 0), (2, 2, 1)] {
        let key = CacheKey {
            style: Style::Osm,
            tile: tile(z, x, y),
        };
        assert_eq!(store.get(&key), Some(&body), "zoom {z} tile missing");
    }
    // A tile not overlapping the box was never fetched.
    for (z, x, y) in [(1u8, 0u32, 0u32), (1, 0, 1), (1, 1, 1), (2, 0, 0), (2, 3, 3)] {
        let key = CacheKey {
            style: Style::Osm,
            tile: tile(z, x, y),
        };
        assert!(store.get(&key).is_none(), "zoom {z}/{x}/{y} was fetched");
    }
}

#[test]
fn moscow_box_overlap_samples() {
    let b = moscow_bbox();
    assert!(b.overlaps_tile(tile(0, 0, 0)));
    assert!(b.overlaps_tile(tile(1, 1, 0)));
    assert!(!b.overlaps_tile(tile(1, 0, 0)));
    assert!(b.overlaps_tile(tile(2, 2, 1)));
    assert!(!b.overlaps_tile(tile(2, 2, 2)));
}

#[test]
fn job_walks_tiles_in_sweep_order_with_round_robin_shards() {
    let mut job = BulkJob::new(Style::Osm, 1, None);
    let mut seen: Vec<(&str, Tile)> = Vec::new();
    while let Some(req) = job.next_request() {
        seen.push(req);
    }
    let expected = [
        ("a", tile(0, 0, 0)),
        ("b", tile(1, 0, 0)),
        ("c", tile(1, 0, 1)),
        ("a", tile(1, 1, 0)),
        ("b", tile(1, 1, 1)),
    ];
    assert_eq!(seen, expected);
}

#[test]
fn recorded_results_show_up_in_the_summary() {
    let mut job = BulkJob::new(Style::Osm, 0, None);
    job.record(&Err("nope".to_string()));
    job.record(&Ok((vec![1], Freshness::FromCache)));
    job.record(&Ok((vec![2], Freshness::JustFetched)));
    job.record(&Ok((vec![3], Freshness::JustFetched)));
    assert_eq!(
        job.summary(),
        "Errors: 1, existing tiles: 1, new tiles: 2"
    );
}

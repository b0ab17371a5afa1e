use tile_cache::fetch::{inner_fetch_tile, Freshness, UpstreamOutcome};
use tile_cache::fresh::mark_fresh;
use tile_cache::router::Style;
use tile_cache::store::{CacheKey, CacheStore};
use tile_cache::tile::Tile;

fn tile(zoom: u8, x: u32, y: u32) -> Tile {
    Tile::new(zoom, x, y).unwrap()
}

#[test]
fn store_get_put() {
    let mut store = CacheStore::new();
    let key = CacheKey {
        style: Style::Osm,
        tile: tile(1, 0, 1),
    };
    assert!(store.get(&key).is_none());
    store.put(key, vec![1, 2, 3]);
    assert_eq!(store.get(&key), Some(&vec![1, 2, 3]));
    store.put(key, vec![9]);
    assert_eq!(store.get(&key), Some(&vec![9]));
    let other = CacheKey {
        style: Style::Matrix,
        tile: tile(1, 0, 1),
    };
    assert!(store.get(&other).is_none());
}

#[test]
fn first_fetch_stores_second_hits_with_identical_bytes() {
    let mut store = CacheStore::new();
    let t = tile(4, 9, 2);
    let body = vec![137u8, 80, 78, 71, 1, 2, 3];

    let first = inner_fetch_tile(
        &mut store,
        Style::Osm,
        t,
        UpstreamOutcome::Fetched(body.clone()),
        false,
    )
    .unwrap();
    assert_eq!(first, (body.clone(), Freshness::JustFetched));

    // The second fetch must not touch upstream: even a failing outcome
    // changes nothing, and the bytes come back identical, from the cache.
    let second = inner_fetch_tile(
        &mut store,
        Style::Osm,
        t,
        UpstreamOutcome::RequestFailed("connection refused".to_string()),
        false,
    )
    .unwrap();
    assert_eq!(second, (body, Freshness::FromCache));
}

#[test]
fn styles_cache_independently() {
    let mut store = CacheStore::new();
    let t = tile(2, 1, 1);
    inner_fetch_tile(
        &mut store,
        Style::Osm,
        t,
        UpstreamOutcome::Fetched(vec![1]),
        false,
    )
    .unwrap();
    let r = inner_fetch_tile(
        &mut store,
        Style::Matrix,
        t,
        UpstreamOutcome::Fetched(vec![2]),
        false,
    )
    .unwrap();
    assert_eq!(r, (vec![2], Freshness::JustFetched));
}

#[test]
fn upstream_request_failure_message() {
    let mut store = CacheStore::new();
    let r = inner_fetch_tile(
        &mut store,
        Style::Osm,
        tile(1, 0, 0),
        UpstreamOutcome::RequestFailed("boom".to_string()),
        false,
    );
    assert_eq!(r, Err("Could not fetch tile _/1/0/0\nboom".to_string()));
}

#[test]
fn upstream_status_failure_message() {
    let mut store = CacheStore::new();
    let r = inner_fetch_tile(
        &mut store,
        Style::TransportDark,
        tile(3, 4, 5),
        UpstreamOutcome::BadStatus("HTTP status server error (500 Internal Server Error)".to_string()),
        false,
    );
    assert_eq!(
        r,
        Err("Could not fetch tile transportdark/3/4/5\nHTTP status server error (500 Internal Server Error)"
            .to_string())
    );
}

#[test]
fn failed_fetch_leaves_store_empty() {
    let mut store = CacheStore::new();
    let t = tile(1, 1, 0);
    let key = CacheKey {
        style: Style::Osm,
        tile: t,
    };
    let _ = inner_fetch_tile(
        &mut store,
        Style::Osm,
        t,
        UpstreamOutcome::BodyReadFailed("eof".to_string()),
        false,
    );
    assert!(store.get(&key).is_none());
}

#[test]
fn mark_fresh_passes_bytes_through_when_off() {
    let bytes = vec![1u8, 2, 3, 4];
    assert_eq!(mark_fresh(bytes.clone(), false), (bytes, true));
}

#[test]
fn mark_fresh_flags_non_cacheable_when_on() {
    // Bytes no decoder accepts pass through, but the flag still flips.
    let garbage = vec![0u8, 1, 2, 3];
    assert_eq!(mark_fresh(garbage.clone(), true), (garbage, false));
}

#[test]
fn mark_fresh_transforms_a_real_tile() {
    // A plain gray 256x256 PNG: the marker must invert it, frame it in
    // magenta, and the result must still decode at the same size.
    let img = image::RgbaImage::from_pixel(256, 256, image::Rgba([100, 100, 100, 255]));
    let mut png: Vec<u8> = Vec::new();
    let mut writer = std::io::BufWriter::new(std::io::Cursor::new(&mut png));
    img.write_to(&mut writer, image::ImageOutputFormat::Png).unwrap();
    drop(writer);

    let (marked, cacheable) = mark_fresh(png.clone(), true);
    assert!(!cacheable);
    assert_ne!(marked, png);
    let out = image::load_from_memory(&marked).unwrap().to_rgba8();
    assert_eq!(out.dimensions(), (256, 256));
    // The frame's outermost pixels are magenta whatever the random hue was.
    assert_eq!(out.get_pixel(0, 0), &image::Rgba([255, 0, 255, 255]));
    assert_eq!(out.get_pixel(255, 128), &image::Rgba([255, 0, 255, 255]));
    // An interior pixel was hue-rotated and inverted: gray stays near gray
    // under hue rotation (up to rounding), so inversion lands near 155 —
    // far from the original 100.
    let inner = out.get_pixel(128, 128);
    for c in 0..3 {
        assert!((150..=160).contains(&inner[c]), "channel {c} was {}", inner[c]);
    }
    assert_eq!(inner[3], 255);
}

use tile_cache::endpoint::{
    cache_control_header, fetch_tile, parse_y_segment, status_code, TileResponse,
};
use tile_cache::errtile::{error_tile_pixels, error_tile_png, wrap_message};
use tile_cache::fetch::UpstreamOutcome;
use tile_cache::store::CacheStore;

#[test]
fn y_segment_parses_number_before_first_dot() {
    assert_eq!(parse_y_segment("123.png"), Ok(123));
    assert_eq!(parse_y_segment("0.png"), Ok(0));
    assert_eq!(parse_y_segment("123"), Ok(123));
    assert_eq!(parse_y_segment("7.p.n.g"), Ok(7));
}

#[test]
fn y_segment_errors_name_the_cause() {
    assert_eq!(
        parse_y_segment("123abc.png"),
        Err("Error parsing last path component into number: invalid digit found in string"
            .to_string())
    );
    assert_eq!(
        parse_y_segment(".png"),
        Err("Error parsing last path component into number: cannot parse integer from empty string"
            .to_string())
    );
    assert_eq!(
        parse_y_segment("99999999999.png"),
        Err("Error parsing last path component into number: number too large to fit in target type"
            .to_string())
    );
}

#[test]
fn malformed_y_segment_is_the_only_400() {
    let mut store = CacheStore::new();
    let (resp, plan) = fetch_tile(
        &mut store,
        "_",
        3,
        1,
        "123abc.png",
        UpstreamOutcome::Fetched(vec![1]),
        false,
    );
    assert_eq!(status_code(&resp), 400);
    assert!(plan.is_empty());
    match resp {
        TileResponse::BadRequest { message } => assert_eq!(
            message,
            "Error parsing last path component into number: invalid digit found in string"
        ),
        _ => panic!("expected BadRequest"),
    }
}

#[test]
fn valid_numeric_segment_never_yields_400() {
    let mut store = CacheStore::new();
    let (resp, plan) = fetch_tile(
        &mut store,
        "_",
        7,
        0,
        "123.png",
        UpstreamOutcome::Fetched(vec![9, 9]),
        false,
    );
    assert_eq!(status_code(&resp), 200);
    match resp {
        TileResponse::Image { bytes, cacheable } => {
            assert_eq!(bytes, vec![9, 9]);
            assert!(cacheable);
        }
        _ => panic!("expected Image"),
    }
    // A successful request triggers the three-style precache fan-out.
    assert_eq!(plan.len(), 3 * (20 + 7));
}

#[test]
fn upstream_failure_answers_200_with_an_error_tile() {
    let mut store = CacheStore::new();
    let (resp, plan) = fetch_tile(
        &mut store,
        "_",
        1,
        0,
        "0.png",
        UpstreamOutcome::BadStatus("HTTP status server error (500 Internal Server Error)".to_string()),
        false,
    );
    assert_eq!(status_code(&resp), 200);
    assert!(plan.is_empty());
    match resp {
        TileResponse::ErrorImage { message } => assert_eq!(
            message,
            "Could not fetch tile _/1/0/0\nHTTP status server error (500 Internal Server Error)"
        ),
        _ => panic!("expected ErrorImage"),
    }
}

#[test]
fn second_request_is_served_from_cache_even_if_upstream_would_fail() {
    let mut store = CacheStore::new();
    let body = vec![3u8, 1, 4];
    let (first, _) = fetch_tile(
        &mut store,
        "matrix",
        2,
        1,
        "2.png",
        UpstreamOutcome::Fetched(body.clone()),
        false,
    );
    assert!(matches!(first, TileResponse::Image { .. }));
    let (second, _) = fetch_tile(
        &mut store,
        "matrix",
        2,
        1,
        "2.png",
        UpstreamOutcome::RequestFailed("offline".to_string()),
        false,
    );
    match second {
        TileResponse::Image { bytes, cacheable } => {
            assert_eq!(bytes, body);
            assert!(cacheable);
        }
        _ => panic!("expected Image from cache"),
    }
}

#[test]
fn unknown_style_answers_200_with_an_error_tile() {
    let mut store = CacheStore::new();
    let (resp, _) = fetch_tile(
        &mut store,
        "watercolor",
        1,
        0,
        "0.png",
        UpstreamOutcome::Fetched(vec![1]),
        false,
    );
    assert_eq!(status_code(&resp), 200);
    match resp {
        TileResponse::ErrorImage { message } => {
            assert_eq!(message, "Unknown style: watercolor")
        }
        _ => panic!("expected ErrorImage"),
    }
}

#[test]
fn out_of_range_coordinates_answer_200_with_an_error_tile() {
    let mut store = CacheStore::new();
    let (resp, _) = fetch_tile(
        &mut store,
        "_",
        0,
        0,
        "3.png",
        UpstreamOutcome::Fetched(vec![1]),
        false,
    );
    match resp {
        TileResponse::ErrorImage { message } => {
            assert_eq!(message, "Could not fetch tile _/0/0/3\nInvalid tile coordinates")
        }
        _ => panic!("expected ErrorImage"),
    }
}

#[test]
fn marked_fresh_tiles_are_not_cacheable() {
    let mut store = CacheStore::new();
    let (resp, _) = fetch_tile(
        &mut store,
        "_",
        1,
        0,
        "0.png",
        UpstreamOutcome::Fetched(vec![1, 2]),
        true,
    );
    match resp {
        TileResponse::Image { cacheable, .. } => assert!(!cacheable),
        _ => panic!("expected Image"),
    }
}

#[test]
fn cache_control_values() {
    assert_eq!(cache_control_header(true), "max-age=604800, public, immutable");
    assert_eq!(cache_control_header(false), "no-cache, no-store");
}

#[test]
fn error_tile_base_pattern() {
    let px = error_tile_pixels();
    assert_eq!(px.len(), 256 * 256 * 3);
    let pixel = |x: usize, y: usize| -> (u8, u8, u8) {
        let i = (y * 256 + x) * 3;
        (px[i], px[i + 1], px[i + 2])
    };
    // Bright magenta border, four pixels thick.
    assert_eq!(pixel(0, 0), (255, 0, 255));
    assert_eq!(pixel(3, 128), (255, 0, 255));
    assert_eq!(pixel(128, 252), (255, 0, 255));
    // Checkerboard interior: dark magenta and black, 16-pixel squares.
    assert_eq!(pixel(8, 8), (127, 0, 127));
    assert_eq!(pixel(24, 8), (0, 0, 0));
    assert_eq!(pixel(24, 24), (127, 0, 127));
}

#[test]
fn error_tile_png_decodes_and_is_distinguishable() {
    let png = error_tile_png();
    let img = image::load_from_memory(&png).unwrap().to_rgb8();
    assert_eq!(img.dimensions(), (256, 256));
    assert_eq!(img.get_pixel(0, 0), &image::Rgb([255, 0, 255]));
    assert_eq!(img.get_pixel(8, 8), &image::Rgb([127, 0, 127]));
    assert_eq!(img.get_pixel(24, 8), &image::Rgb([0, 0, 0]));
}

#[test]
fn messages_wrap_like_the_wrapping_library() {
    let text = "Could not fetch tile _/1/0/0\nconnection refused by upstream host";
    let ours = wrap_message(text);
    let theirs: Vec<String> = textwrap::wrap(text, 20)
        .into_iter()
        .map(|l| l.into_owned())
        .collect();
    assert_eq!(ours, theirs);
    assert!(ours.iter().all(|l| l.chars().count() <= 20));
    assert!(ours.len() >= 3);
}

use tile_cache::digits::{parse_u32_digits, u64_to_string, ParseIntFailure};
use tile_cache::router::{cache_dir, cache_path, get_tile_url, shard_name, str_eq, Style};

#[test]
fn decimal_rendering() {
    assert_eq!(u64_to_string(0), "0");
    assert_eq!(u64_to_string(7), "7");
    assert_eq!(u64_to_string(42), "42");
    assert_eq!(u64_to_string(1234567890), "1234567890");
    assert_eq!(u64_to_string(u64::MAX), "18446744073709551615");
}

#[test]
fn digit_parsing() {
    assert_eq!(parse_u32_digits("0"), Ok(0));
    assert_eq!(parse_u32_digits("007"), Ok(7));
    assert_eq!(parse_u32_digits("4294967295"), Ok(u32::MAX));
    assert_eq!(parse_u32_digits(""), Err(ParseIntFailure::Empty));
    assert_eq!(parse_u32_digits("12a"), Err(ParseIntFailure::InvalidDigit));
    assert_eq!(parse_u32_digits("+12"), Err(ParseIntFailure::InvalidDigit));
    assert_eq!(parse_u32_digits("4294967296"), Err(ParseIntFailure::TooLarge));
    assert_eq!(
        parse_u32_digits("999999999999999999999"),
        Err(ParseIntFailure::TooLarge)
    );
}

#[test]
fn string_equality() {
    assert!(str_eq("", ""));
    assert!(str_eq("abc", "abc"));
    assert!(!str_eq("abc", "abd"));
    assert!(!str_eq("abc", "ab"));
    assert!(str_eq("тайл", "тайл"));
}

#[test]
fn style_names_round_trip() {
    for style in [Style::Osm, Style::TransportDark, Style::Matrix] {
        assert_eq!(Style::from_name(style.name()), Some(style));
    }
    assert_eq!(Style::from_name("_"), Some(Style::Osm));
    assert_eq!(Style::from_name("transportdark"), Some(Style::TransportDark));
    assert_eq!(Style::from_name("matrix"), Some(Style::Matrix));
    assert_eq!(Style::from_name("osm"), None);
    assert_eq!(Style::from_name(""), None);
}

#[test]
fn shards_cycle_through_abc() {
    assert_eq!(shard_name(0), "a");
    assert_eq!(shard_name(1), "b");
    assert_eq!(shard_name(2), "c");
    assert_eq!(shard_name(3), "a");
    assert_eq!(shard_name(7), "b");
}

#[test]
fn osm_url() {
    assert_eq!(
        get_tile_url("_", "a", 3, 4, 5),
        "https://tile.openstreetmap.org/3/4/5.png"
    );
}

#[test]
fn transport_dark_url() {
    assert_eq!(
        get_tile_url("transportdark", "b", 12, 2475, 1280),
        "https://b.tile.thunderforest.com/transport-dark/12/2475/1280.png?apikey=db5ae1f5778a448ca662554581f283c5"
    );
}

#[test]
fn matrix_url() {
    assert_eq!(
        get_tile_url("matrix", "c", 0, 0, 0),
        "https://c.tile.jawg.io/jawg-matrix/0/0/0.png?access-token=PyTJUlEU1OPJwCJlW1k0NC8JIt2CALpyuj7uc066O7XbdZCjWEL3WYJIk6dnXtps"
    );
}

#[test]
fn cache_paths() {
    assert_eq!(cache_path(Style::Osm, 3, 4, 5), "tile-cache/_/3/4/5.png");
    assert_eq!(
        cache_path(Style::TransportDark, 12, 2475, 1280),
        "tile-cache/transportdark/12/2475/1280.png"
    );
    assert_eq!(cache_dir(Style::Matrix, 3, 4), "tile-cache/matrix/3/4");
}

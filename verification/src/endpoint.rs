//! The tile endpoint's decisions: parsing the trailing `{y}.png` path
//! segment, turning a fetch-through outcome into a response, choosing the
//! cache-control policy, and computing the precache fan-out a successful
//! request triggers. A malformed `y` segment is the only thing answered with
//! status 400; every other failure is answered 200 with an error tile, so a
//! map client never sees a broken image.

use vstd::prelude::*;

verus! {

use crate::digits::{all_digits, dec_val, parse_u32_digits, ParseIntFailure};
use crate::fetch::{could_not_fetch_msg, fetch_bytes, fetch_freshness, fetch_ok, fetch_store_after,
    fetched_bytes, inner_fetch_tile, upstream_cause, Freshness, UpstreamOutcome,
    fetch_error_message};
use crate::fresh::marked_result_ok;
use crate::precache::{precache_plan, precache_plan_spec};
use crate::router::{is_known_style, style_for_name, Style};
use crate::store::{CacheKey, CacheStore};
use crate::tile::Tile;

/// The part of the trailing path segment before the first `.` (the whole
/// segment when there is no dot).
pub open spec fn prefix_before_dot(s: Seq<char>) -> Seq<char>
    decreases s.len(),
{
    if s.len() == 0 {
        s
    } else if s[0] == '.' {
        Seq::empty()
    } else {
        seq![s[0]] + prefix_before_dot(s.drop_first())
    }
}

/// Whether the `y` segment parses: a non-empty run of digits before the first
/// dot, with a value that fits in `u32`.
pub open spec fn y_segment_valid(s: Seq<char>) -> bool {
    prefix_before_dot(s).len() > 0 && all_digits(prefix_before_dot(s)) && dec_val(
        prefix_before_dot(s),
    ) <= u32::MAX
}

/// The parsed `y` value of a valid segment.
pub open spec fn y_segment_value(s: Seq<char>) -> nat {
    dec_val(prefix_before_dot(s))
}

/// Which of the three parse failures an invalid segment exhibits.
pub open spec fn y_segment_failure(s: Seq<char>) -> ParseIntFailure {
    if prefix_before_dot(s).len() == 0 {
        ParseIntFailure::Empty
    } else if !all_digits(prefix_before_dot(s)) {
        ParseIntFailure::InvalidDigit
    } else {
        ParseIntFailure::TooLarge
    }
}

/// The cause text of a parse failure.
pub open spec fn parse_failure_text(f: ParseIntFailure) -> Seq<char> {
    match f {
        ParseIntFailure::Empty => "cannot parse integer from empty string"@,
        ParseIntFailure::InvalidDigit => "invalid digit found in string"@,
        ParseIntFailure::TooLarge => "number too large to fit in target type"@,
    }
}

/// The plain-text body of the 400 answer for a malformed `y` segment.
pub open spec fn parse_error_msg(f: ParseIntFailure) -> Seq<char> {
    "Error parsing last path component into number: "@ + parse_failure_text(f)
}

/// The error-tile text for a style name outside the configured set.
pub open spec fn unknown_style_msg(style: Seq<char>) -> Seq<char> {
    "Unknown style: "@ + style
}

/// The cause text for coordinates no tile has.
pub open spec fn invalid_coords_text() -> Seq<char> {
    "Invalid tile coordinates"@
}

/// A prefix free of dots, closed by a dot or the string's end, is the prefix
/// before the first dot.
proof fn lemma_prefix_before_dot(s: Seq<char>, i: int)
    requires
        0 <= i <= s.len(),
        forall|j: int| 0 <= j < i ==> s[j] != '.',
        i < s.len() ==> s[i] == '.',
    ensures
        prefix_before_dot(s) == s.subrange(0, i),
    decreases i,
{
    if i == 0 {
        assert(prefix_before_dot(s) =~= s.subrange(0, 0));
    } else {
        lemma_prefix_before_dot(s.drop_first(), i - 1);
        assert(s.drop_first().subrange(0, i - 1) =~= s.subrange(1, i));
        assert(prefix_before_dot(s) =~= s.subrange(0, i));
    }
}

/// The cause text of a parse failure.
fn parse_failure_str(f: ParseIntFailure) -> (r: &'static str)
    ensures
        r@ == parse_failure_text(f),
{
    match f {
        ParseIntFailure::Empty => "cannot parse integer from empty string",
        ParseIntFailure::InvalidDigit => "invalid digit found in string",
        ParseIntFailure::TooLarge => "number too large to fit in target type",
    }
}

/// Parses the trailing `{y}.png` path segment: everything before the first
/// dot must be a non-empty digit string fitting a `u32`. The error carries
/// the plain-text body of the 400 answer.
pub fn parse_y_segment(s: &str) -> (r: Result<u32, String>)
    ensures
        r is Ok <==> y_segment_valid(s@),
        r is Ok ==> r->Ok_0 as nat == y_segment_value(s@),
        r is Err ==> r->Err_0@ == parse_error_msg(y_segment_failure(s@)),
{
    let n = s.unicode_len();
    let mut i: usize = 0;
    while i < n
        invariant
            n == s@.len(),
            0 <= i <= n,
            forall|j: int| 0 <= j < i ==> s@[j] != '.',
        ensures
            0 <= i <= n,
            forall|j: int| 0 <= j < i ==> s@[j] != '.',
            i < n ==> s@[i as int] == '.',
        decreases n - i,
    {
        if s.get_char(i) == '.' {
            break ;
        }
        i = i + 1;
    }
    proof {
        lemma_prefix_before_dot(s@, i as int);
    }
    let prefix = s.substring_char(0, i);
    match parse_u32_digits(prefix) {
        Ok(y) => Ok(y),
        Err(f) => {
            let mut msg = String::new();
            msg.append("Error parsing last path component into number: ");
            msg.append(parse_failure_str(f));
            Err(msg)
        },
    }
}

/// What the tile endpoint answers.
pub enum TileResponse {
    /// Status 200, `image/png`: the tile itself, with the cache-control
    /// policy the freshness dictates.
    Image { bytes: Vec<u8>, cacheable: bool },
    /// Status 200, `image/png`: the failure is shown inside the tile; the
    /// message is drawn over the placeholder image.
    ErrorImage { message: String },
    /// Status 400, plain text: the one response a malformed `y` segment gets.
    BadRequest { message: String },
}

/// The HTTP status of a response: 400 for a malformed path, 200 for
/// everything else — an upstream failure is never passed on as a 5xx.
pub open spec fn status_of(r: TileResponse) -> int {
    if r is BadRequest {
        400
    } else {
        200
    }
}

/// The HTTP status to answer with.
pub fn status_code(r: &TileResponse) -> (s: u16)
    ensures
        s as int == status_of(*r),
{
    match r {
        TileResponse::BadRequest { .. } => 400,
        _ => 200,
    }
}

/// The `Cache-Control` header for a served tile: stable tiles may be cached
/// for a week; a tile carrying the debug marker must not be cached at all.
pub fn cache_control_header(cacheable: bool) -> (r: &'static str)
    ensures
        cacheable ==> r@ == "max-age=604800, public, immutable"@,
        !cacheable ==> r@ == "no-cache, no-store"@,
{
    if cacheable {
        "max-age=604800, public, immutable"
    } else {
        "no-cache, no-store"
    }
}

/// The tile the request addresses, once the `y` segment has parsed.
pub open spec fn requested_tile(zoom: u8, x: u32, ys: Seq<char>) -> Tile {
    Tile { zoom, x, y: y_segment_value(ys) as u32 }
}

/// The tile endpoint's whole decision, run against the store model: parse the
/// `y` segment (the only 400), validate the style and the coordinates, fetch
/// through the cache, pick the cache policy, and on success hand back the
/// precache fan-out to dispatch. Every failure after parsing answers 200 with
/// an error-tile message.
pub fn fetch_tile(
    store: &mut CacheStore,
    style_name: &str,
    zoom: u8,
    x: u32,
    y_segment: &str,
    upstream: UpstreamOutcome,
    highlight: bool,
) -> (r: (TileResponse, Vec<(Style, Tile)>))
    requires
        old(store).wf(),
    ensures
        final(store).wf(),
        r.0 is BadRequest <==> !y_segment_valid(y_segment@),
        (r.0 matches TileResponse::BadRequest { message } ==> message@ == parse_error_msg(
            y_segment_failure(y_segment@),
        )),
        !y_segment_valid(y_segment@) ==> final(store)@ == old(store)@ && r.1@ == Seq::<(
            Style,
            Tile,
        )>::empty(),
        y_segment_valid(y_segment@) && !is_known_style(style_name@) ==> (r.0 matches
            TileResponse::ErrorImage { message } && message@ == unknown_style_msg(style_name@))
            && final(store)@ == old(store)@ && r.1@ == Seq::<(Style, Tile)>::empty(),
        y_segment_valid(y_segment@) && is_known_style(style_name@) && !requested_tile(
            zoom,
            x,
            y_segment@,
        ).wf() ==> (r.0 matches TileResponse::ErrorImage { message } && message@
            == could_not_fetch_msg(
            style_for_name(style_name@),
            zoom as nat,
            x as nat,
            y_segment_value(y_segment@),
            invalid_coords_text(),
        )) && final(store)@ == old(store)@ && r.1@ == Seq::<(Style, Tile)>::empty(),
        y_segment_valid(y_segment@) && is_known_style(style_name@) && requested_tile(
            zoom,
            x,
            y_segment@,
        ).wf() ==> ({
            let sty = style_for_name(style_name@);
            let tile = requested_tile(zoom, x, y_segment@);
            let key = CacheKey { style: sty, tile };
            &&& final(store)@ == fetch_store_after(old(store)@, key, upstream)
            &&& (fetch_ok(old(store)@, key, upstream) ==> (r.0 matches TileResponse::Image {
                bytes,
                cacheable,
            } && cacheable == (fetch_freshness(old(store)@, key) == Freshness::FromCache
                || !highlight) && ((!highlight || old(store)@.contains_key(key)) ==> bytes@
                == fetch_bytes(old(store)@, key, upstream)) && (!old(store)@.contains_key(key)
                ==> marked_result_ok(fetched_bytes(upstream), highlight, bytes@))) && r.1@
                == precache_plan_spec(tile))
            &&& (!fetch_ok(old(store)@, key, upstream) ==> (r.0 matches TileResponse::ErrorImage {
                message,
            } && message@ == could_not_fetch_msg(
                sty,
                zoom as nat,
                x as nat,
                y_segment_value(y_segment@),
                upstream_cause(upstream),
            )) && r.1@ == Seq::<(Style, Tile)>::empty())
        }),
{
    let y: u32 = match parse_y_segment(y_segment) {
        Ok(y) => y,
        Err(message) => {
            return (TileResponse::BadRequest { message }, Vec::new());
        },
    };
    let sty: Style = match Style::from_name(style_name) {
        Some(s) => s,
        None => {
            let mut message = String::new();
            message.append("Unknown style: ");
            message.append(style_name);
            return (TileResponse::ErrorImage { message }, Vec::new());
        },
    };
    let tile: Tile = match Tile::new(zoom, x, y) {
        Some(t) => t,
        None => {
            let message = fetch_error_message(
                sty,
                Tile { zoom, x, y },
                "Invalid tile coordinates",
            );
            return (TileResponse::ErrorImage { message }, Vec::new());
        },
    };
    match inner_fetch_tile(store, sty, tile, upstream, highlight) {
        Ok((bytes, freshness)) => {
            let cacheable = match freshness {
                Freshness::FromCache => true,
                Freshness::JustFetched => !highlight,
            };
            let plan = precache_plan(tile);
            (TileResponse::Image { bytes, cacheable }, plan)
        },
        Err(message) => (TileResponse::ErrorImage { message }, Vec::new()),
    }
}

} // verus!

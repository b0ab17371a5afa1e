//! The fetch-through cache: serve a tile from the store when present, else
//! take the upstream fetch's outcome, persist a successful body, and report
//! freshness; every failure becomes a message naming the failing tile.
//!
//! Network and disk I/O happen outside this crate; each step here is a pure
//! decision on the outcome handed in, so the whole algorithm is verified
//! against the store model.

use vstd::prelude::*;

verus! {

use crate::digits::dec_str;
use crate::fresh::{mark_fresh, marked_result_ok};
use crate::router::{Style, style_name_spec};
use crate::store::{CacheKey, CacheStore};
use crate::tile::Tile;

/// Whether a served tile came from the cache or was fetched upstream just
/// now; drives the response's cache-control policy.
#[derive(Clone, Copy, PartialEq, Eq, Structural, Debug)]
pub enum Freshness {
    FromCache,
    JustFetched,
}

/// What the upstream HTTP attempt for a missing tile came back with: the
/// body, or one of the three failure points (the request itself, a non-2xx
/// status, reading the body), each with its cause rendered as text.
pub enum UpstreamOutcome {
    Fetched(Vec<u8>),
    RequestFailed(String),
    BadStatus(String),
    BodyReadFailed(String),
}

/// The body an upstream success carried (empty for failures).
pub open spec fn fetched_bytes(up: UpstreamOutcome) -> Seq<u8> {
    match up {
        UpstreamOutcome::Fetched(b) => b@,
        _ => Seq::empty(),
    }
}

/// The failure cause an upstream outcome carried (empty for a success).
pub open spec fn upstream_cause(up: UpstreamOutcome) -> Seq<char> {
    match up {
        UpstreamOutcome::Fetched(_) => Seq::empty(),
        UpstreamOutcome::RequestFailed(w) => w@,
        UpstreamOutcome::BadStatus(w) => w@,
        UpstreamOutcome::BodyReadFailed(w) => w@,
    }
}

/// The `{style}/{zoom}/{x}/{y}` reference used in every error message.
pub open spec fn tile_ref_spec(style: Style, zoom: nat, x: nat, y: nat) -> Seq<char> {
    style_name_spec(style) + "/"@ + dec_str(zoom) + "/"@ + dec_str(x) + "/"@ + dec_str(y)
}

/// The message for a failed upstream fetch.
pub open spec fn could_not_fetch_msg(style: Style, zoom: nat, x: nat, y: nat, cause: Seq<
    char,
>) -> Seq<char> {
    "Could not fetch tile "@ + tile_ref_spec(style, zoom, x, y) + "\n"@ + cause
}

/// The message for a fetched tile that could not be persisted.
pub open spec fn could_not_save_msg(style: Style, zoom: nat, x: nat, y: nat, cause: Seq<
    char,
>) -> Seq<char> {
    "Could not save tile "@ + tile_ref_spec(style, zoom, x, y) + "\n"@ + cause
}

/// Renders the `{style}/{zoom}/{x}/{y}` tile reference.
fn tile_ref(style: Style, tile: Tile) -> (r: String)
    ensures
        r@ == tile_ref_spec(style, tile.zoom as nat, tile.x as nat, tile.y as nat),
{
    let mut s = String::new();
    s.append(style.name());
    s.append("/");
    s.append(crate::digits::u64_to_string(tile.zoom as u64).as_str());
    s.append("/");
    s.append(crate::digits::u64_to_string(tile.x as u64).as_str());
    s.append("/");
    s.append(crate::digits::u64_to_string(tile.y as u64).as_str());
    s
}

/// Renders the message for a failed upstream fetch.
pub fn fetch_error_message(style: Style, tile: Tile, cause: &str) -> (r: String)
    ensures
        r@ == could_not_fetch_msg(style, tile.zoom as nat, tile.x as nat, tile.y as nat, cause@),
{
    let mut s = String::new();
    s.append("Could not fetch tile ");
    s.append(tile_ref(style, tile).as_str());
    s.append("\n");
    s.append(cause);
    s
}

/// Renders the message for a cache write failure.
pub fn save_error_message(style: Style, tile: Tile, cause: &str) -> (r: String)
    ensures
        r@ == could_not_save_msg(style, tile.zoom as nat, tile.x as nat, tile.y as nat, cause@),
{
    let mut s = String::new();
    s.append("Could not save tile ");
    s.append(tile_ref(style, tile).as_str());
    s.append("\n");
    s.append(cause);
    s
}

/// Copies a byte vector.
pub fn clone_bytes(v: &Vec<u8>) -> (r: Vec<u8>)
    ensures
        r@ == v@,
{
    let n = v.len();
    let mut r: Vec<u8> = Vec::new();
    let mut i: usize = 0;
    while i < n
        invariant
            n == v@.len(),
            0 <= i <= n,
            r@ =~= v@.take(i as int),
        decreases n - i,
    {
        r.push(v[i]);
        proof {
            assert(r@ =~= v@.take(i + 1));
        }
        i = i + 1;
    }
    proof {
        assert(v@.take(n as int) =~= v@);
    }
    r
}

/// Whether a fetch-through for `key` succeeds: the key is already stored, or
/// the upstream attempt brought a body.
pub open spec fn fetch_ok(m: Map<CacheKey, Seq<u8>>, key: CacheKey, up: UpstreamOutcome) -> bool {
    m.contains_key(key) || up is Fetched
}

/// The freshness a successful fetch-through reports.
pub open spec fn fetch_freshness(m: Map<CacheKey, Seq<u8>>, key: CacheKey) -> Freshness {
    if m.contains_key(key) {
        Freshness::FromCache
    } else {
        Freshness::JustFetched
    }
}

/// The store after a fetch-through: unchanged but for a fresh body stored
/// under a missing key.
pub open spec fn fetch_store_after(
    m: Map<CacheKey, Seq<u8>>,
    key: CacheKey,
    up: UpstreamOutcome,
) -> Map<CacheKey, Seq<u8>> {
    if !m.contains_key(key) && up is Fetched {
        m.insert(key, fetched_bytes(up))
    } else {
        m
    }
}

/// The (unmarked) bytes a successful fetch-through serves.
pub open spec fn fetch_bytes(m: Map<CacheKey, Seq<u8>>, key: CacheKey, up: UpstreamOutcome) -> Seq<
    u8,
> {
    if m.contains_key(key) {
        m[key]
    } else {
        fetched_bytes(up)
    }
}

/// The fetch-through cache over the store model: a stored tile is served as
/// is with `FromCache`; on a miss, the upstream outcome decides — a body is
/// persisted verbatim, post-processed by `mark_fresh`, and served as
/// `JustFetched`, while any upstream failure becomes a message naming the
/// tile, with the store untouched. There are no retries.
pub fn inner_fetch_tile(
    store: &mut CacheStore,
    style: Style,
    tile: Tile,
    upstream: UpstreamOutcome,
    highlight: bool,
) -> (r: Result<(Vec<u8>, Freshness), String>)
    requires
        old(store).wf(),
        tile.wf(),
    ensures
        final(store).wf(),
        final(store)@ == fetch_store_after(old(store)@, (CacheKey { style, tile }), upstream),
        r is Ok <==> fetch_ok(old(store)@, (CacheKey { style, tile }), upstream),
        r is Ok ==> r->Ok_0.1 == fetch_freshness(old(store)@, (CacheKey { style, tile })),
        r is Ok && (!highlight || old(store)@.contains_key((CacheKey { style, tile })))
            ==> r->Ok_0.0@ == fetch_bytes(old(store)@, (CacheKey { style, tile }), upstream),
        r is Ok && !old(store)@.contains_key((CacheKey { style, tile })) ==> marked_result_ok(
            fetched_bytes(upstream),
            highlight,
            r->Ok_0.0@,
        ),
        r is Err ==> r->Err_0@ == could_not_fetch_msg(
            style,
            tile.zoom as nat,
            tile.x as nat,
            tile.y as nat,
            upstream_cause(upstream),
        ),
{
    let key = CacheKey { style, tile };
    let hit: Option<Vec<u8>> = match store.get(&key) {
        Some(b) => Some(clone_bytes(b)),
        None => None,
    };
    if let Some(contents) = hit {
        return Ok((contents, Freshness::FromCache));
    }
    match upstream {
        UpstreamOutcome::Fetched(body) => {
            store.put(key, clone_bytes(&body));
            let (bytes, _cacheable) = mark_fresh(body, highlight);
            Ok((bytes, Freshness::JustFetched))
        },
        UpstreamOutcome::RequestFailed(why) => Err(fetch_error_message(style, tile, why.as_str())),
        UpstreamOutcome::BadStatus(why) => Err(fetch_error_message(style, tile, why.as_str())),
        UpstreamOutcome::BodyReadFailed(why) => Err(
            fetch_error_message(style, tile, why.as_str()),
        ),
    }
}

/// The decision after the real disk write of a fetched body: a clean write
/// serves the marked body as `JustFetched`; a write failure is an error even
/// though the bytes sit in memory — they are deliberately not served.
pub fn after_cache_write(
    style: Style,
    tile: Tile,
    body: Vec<u8>,
    write_error: Option<String>,
    highlight: bool,
) -> (r: Result<(Vec<u8>, Freshness), String>)
    ensures
        r is Ok <==> write_error is None,
        write_error is None ==> r->Ok_0.1 == Freshness::JustFetched && marked_result_ok(
            body@,
            highlight,
            r->Ok_0.0@,
        ),
        (write_error matches Some(why) ==> r is Err && r->Err_0@ == could_not_save_msg(
            style,
            tile.zoom as nat,
            tile.x as nat,
            tile.y as nat,
            why@,
        )),
{
    match write_error {
        None => {
            let (bytes, _cacheable) = mark_fresh(body, highlight);
            Ok((bytes, Freshness::JustFetched))
        },
        Some(why) => Err(save_error_message(style, tile, why.as_str())),
    }
}

/// The cache-correctness law: once a fetch-through for `key` has succeeded,
/// an immediately repeated fetch-through serves the same (unmarked) bytes,
/// reports `FromCache`, and leaves the store as it was — whatever the second
/// upstream outcome would have been.
pub proof fn lemma_fetch_through_idempotent(
    m: Map<CacheKey, Seq<u8>>,
    key: CacheKey,
    up: UpstreamOutcome,
)
    requires
        fetch_ok(m, key, up),
    ensures
        fetch_store_after(m, key, up).contains_key(key),
        forall|up2: UpstreamOutcome| #[trigger] fetch_ok(fetch_store_after(m, key, up), key, up2),
        forall|up2: UpstreamOutcome| #[trigger] fetch_bytes(fetch_store_after(m, key, up), key, up2)
            == fetch_bytes(m, key, up),
        fetch_freshness(fetch_store_after(m, key, up), key) == Freshness::FromCache,
        forall|up2: UpstreamOutcome| #[trigger] fetch_store_after(
            fetch_store_after(m, key, up),
            key,
            up2,
        ) == fetch_store_after(m, key, up),
{
}

} // verus!

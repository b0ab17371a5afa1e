//! Bulk precache jobs: enumerate every tile from zoom 0 up to a target zoom —
//! zoom by zoom, columns west to east, rows north to south — optionally
//! filtered by a bounding box, fetch each one through the cache, and count
//! errors, cache hits and fresh fetches. The enumeration and counting are
//! verified; the caller performs one fetch per issued request and feeds the
//! result back.

use vstd::prelude::*;

verus! {

use vstd::arithmetic::power2::{pow2, lemma_pow2_adds, lemma_pow2_pos, lemma2_to64, lemma2_to64_rest,
    lemma_pow2_strictly_increases};
use vstd::arithmetic::div_mod::lemma_fundamental_div_mod_converse;
use vstd::bits::lemma_u32_shl_is_mul;
use crate::bbox::{BBox, bbox_overlaps, moscow_bbox, moscow_bbox_spec};
use crate::digits::{dec_str, u64_to_string};
use crate::fetch::{Freshness, UpstreamOutcome, inner_fetch_tile, clone_bytes};
use crate::router::{Style, shard_name, shard_spec};
use crate::store::{CacheKey, CacheStore};
use crate::tile::{Tile, MAX_ZOOM};

/// How many tiles a single zoom level holds: `4^z`.
pub open spec fn tiles_at_zoom_count(z: nat) -> nat {
    pow2(z) * pow2(z)
}

/// How many tiles all zoom levels before `z` hold together:
/// `4^0 + 4^1 + ... + 4^(z-1)`.
pub open spec fn tiles_before_zoom(z: nat) -> nat
    decreases z,
{
    if z == 0 {
        0
    } else {
        tiles_before_zoom((z - 1) as nat) + tiles_at_zoom_count((z - 1) as nat)
    }
}

/// The tile count of a full sweep to `mz`: the sum `4^0 + ... + 4^mz`.
pub open spec fn total_tiles_to_zoom(mz: nat) -> nat {
    tiles_before_zoom(mz + 1)
}

/// The `i`-th tile of a zoom level swept column by column: `x` advances once
/// per `2^z` steps of `y`.
pub open spec fn tile_at(z: nat, i: nat) -> Tile {
    Tile { zoom: z as u8, x: (i / pow2(z)) as u32, y: (i % pow2(z)) as u32 }
}

/// All tiles of zoom level `z`, in sweep order.
pub open spec fn zoom_tiles(z: nat) -> Seq<Tile> {
    Seq::new(tiles_at_zoom_count(z), |i: int| tile_at(z, i as nat))
}

/// All tiles from zoom 0 through `mz`, in sweep order.
pub open spec fn tiles_to_zoom(mz: nat) -> Seq<Tile>
    decreases mz,
{
    if mz == 0 {
        zoom_tiles(0)
    } else {
        tiles_to_zoom((mz - 1) as nat) + zoom_tiles(mz)
    }
}

/// The sweep sequence is as long as the sum says.
pub proof fn lemma_tiles_to_zoom_len(mz: nat)
    ensures
        tiles_to_zoom(mz).len() == total_tiles_to_zoom(mz),
    decreases mz,
{
    if mz == 0 {
        assert(tiles_before_zoom(1) == tiles_before_zoom(0) + tiles_at_zoom_count(0));
        assert(tiles_before_zoom(0) == 0);
    } else {
        lemma_tiles_to_zoom_len((mz - 1) as nat);
        assert(tiles_before_zoom(mz + 1) == tiles_before_zoom(mz) + tiles_at_zoom_count(mz));
    }
}

/// Sums of zoom-level sizes only grow.
proof fn lemma_tiles_before_mono(a: nat, b: nat)
    requires
        a <= b,
    ensures
        tiles_before_zoom(a) <= tiles_before_zoom(b),
    decreases b,
{
    if a < b {
        lemma_tiles_before_mono(a, (b - 1) as nat);
    }
}

/// `3 * (4^0 + ... + 4^(z-1)) == 4^z - 1`, the closed form of the sweep size.
proof fn lemma_tiles_before_value(z: nat)
    ensures
        3 * tiles_before_zoom(z) == pow2(2 * z) - 1,
    decreases z,
{
    if z == 0 {
        lemma2_to64();
    } else {
        lemma_tiles_before_value((z - 1) as nat);
        lemma_pow2_adds((2 * z - 2) as nat, 1);
        lemma_pow2_adds((2 * z - 1) as nat, 1);
        lemma_pow2_adds((z - 1) as nat, (z - 1) as nat);
        lemma2_to64();
    }
}

/// The whole sweep, even to the deepest zoom, counts fewer than `2^64 / 3`
/// tiles, so every counter fits comfortably in a `u64`.
pub proof fn lemma_total_tiles_bound(mz: nat)
    requires
        mz <= MAX_ZOOM,
    ensures
        total_tiles_to_zoom(mz) <= 0x5555_5555_5555_5555,
{
    lemma_tiles_before_value(mz + 1);
    if 2 * (mz + 1) < 64 {
        lemma_pow2_strictly_increases(2 * (mz + 1), 64);
    }
    lemma2_to64_rest();
}

/// Where a tile sits in the sweep sequence.
pub open spec fn sweep_index_of(t: Tile) -> nat {
    tiles_before_zoom(t.zoom as nat) + (t.x as nat) * pow2(t.zoom as nat) + (t.y as nat)
}

/// A well-formed tile of zoom `z <= mz` sits in the sweep sequence at
/// `sweep_index_of`, which is exactly where the column-by-column walk
/// reaches it.
pub proof fn lemma_sweep_index(mz: nat, t: Tile)
    requires
        t.wf(),
        t.zoom <= mz,
    ensures
        sweep_index_of(t) < tiles_to_zoom(mz).len(),
        tiles_to_zoom(mz)[sweep_index_of(t) as int] == t,
    decreases mz,
{
    let z = t.zoom as nat;
    let p = pow2(z);
    let local = (t.x as nat) * p + (t.y as nat);
    lemma_pow2_pos(z);
    assert(local < p * p && local + tiles_before_zoom(z) >= tiles_before_zoom(z)) by (
    nonlinear_arith)
        requires
            (t.x as nat) < p,
            (t.y as nat) < p,
            local == (t.x as nat) * p + (t.y as nat),
            p > 0,
    ;
    lemma_tiles_to_zoom_len(mz);
    if z == mz {
        if mz == 0 {
            assert(zoom_tiles(0)[local as int] == tile_at(0, local));
            lemma_fundamental_div_mod_converse(local as int, p as int, t.x as int, t.y as int);
        } else {
            lemma_tiles_to_zoom_len((mz - 1) as nat);
            assert(tiles_to_zoom(mz)[sweep_index_of(t) as int] == zoom_tiles(mz)[local as int]);
            lemma_fundamental_div_mod_converse(local as int, p as int, t.x as int, t.y as int);
        }
    } else {
        lemma_tiles_to_zoom_len((mz - 1) as nat);
        lemma_tiles_before_mono(z + 1, mz);
        lemma_sweep_index((mz - 1) as nat, t);
    }
}

/// The sweep element at `p` is well formed, no deeper than the target, and
/// knows its own position — so no tile occurs twice in the sweep.
pub proof fn lemma_sweep_elem(mz: nat, p: int)
    requires
        mz <= MAX_ZOOM,
        0 <= p < tiles_to_zoom(mz).len(),
    ensures
        tiles_to_zoom(mz)[p].wf(),
        tiles_to_zoom(mz)[p].zoom <= mz,
        sweep_index_of(tiles_to_zoom(mz)[p]) == p,
    decreases mz,
{
    lemma_tiles_to_zoom_len(mz);
    if mz > 0 {
        lemma_tiles_to_zoom_len((mz - 1) as nat);
    }
    let prev: int = if mz == 0 {
        0
    } else {
        tiles_before_zoom(mz) as int
    };
    if mz > 0 && p < prev {
        lemma_sweep_elem((mz - 1) as nat, p);
        assert(tiles_to_zoom(mz)[p] == tiles_to_zoom((mz - 1) as nat)[p]);
    } else {
        let pp = pow2(mz) as int;
        lemma_pow2_pos(mz);
        let local = p - prev;
        assert(tiles_to_zoom(mz)[p] == tile_at(mz, local as nat));
        let x = local / pp;
        let y = local % pp;
        vstd::arithmetic::div_mod::lemma_fundamental_div_mod(local, pp);
        vstd::arithmetic::div_mod::lemma_mod_bound(local, pp);
        assert(x >= 0);
        assert(x < pp) by {
            if x >= pp {
                assert(pp * x >= pp * pp) by (nonlinear_arith)
                    requires
                        x >= pp,
                        pp > 0,
                ;
            }
        }
        let t = tile_at(mz, local as nat);
        if mz < 31 {
            lemma_pow2_strictly_increases(mz, 31);
        }
        lemma2_to64();
        assert(t.zoom == mz && t.x == x && t.y == y);
        assert(sweep_index_of(t) == prev + x * pp + y) by {
            assert((t.x as nat) * pow2(t.zoom as nat) == x * pp);
        }
        assert(local == pp * x + y);
        assert(x * pp == pp * x) by (nonlinear_arith);
        assert(p == prev + local);
        assert(sweep_index_of(t) == p);
        assert(t.wf());
    }
}

/// Whether a job with this filter fetches `t`: always without a filter, else
/// exactly when `t` overlaps the box.
pub open spec fn filter_passes(f: Option<BBox>, t: Tile) -> bool {
    match f {
        None => true,
        Some(b) => bbox_overlaps(b, t),
    }
}

/// Among the first `n` sweep tiles, how many the filter admits: the fetches
/// a job that has walked `n` positions has issued.
pub open spec fn fetched_prefix_count(f: Option<BBox>, s: Seq<Tile>, n: int) -> nat
    decreases n,
{
    if n <= 0 {
        0
    } else {
        fetched_prefix_count(f, s, n - 1) + (if filter_passes(f, s[n - 1]) {
            1nat
        } else {
            0nat
        })
    }
}

/// Among the first `n` sweep tiles, how many the filter admits that store
/// `m` already held for `style`: the cache hits of a sweep over `m`.
pub open spec fn hit_prefix_count(
    m: Map<CacheKey, Seq<u8>>,
    style: Style,
    f: Option<BBox>,
    s: Seq<Tile>,
    n: int,
) -> nat
    decreases n,
{
    if n <= 0 {
        0
    } else {
        hit_prefix_count(m, style, f, s, n - 1) + (if filter_passes(f, s[n - 1])
            && m.contains_key(CacheKey { style, tile: s[n - 1] }) {
            1nat
        } else {
            0nat
        })
    }
}

/// Positions the filter rejects contribute to neither count.
proof fn lemma_prefix_counts_constant(
    m: Map<CacheKey, Seq<u8>>,
    style: Style,
    f: Option<BBox>,
    s: Seq<Tile>,
    a: int,
    b: int,
)
    requires
        0 <= a <= b,
        forall|q: int| a <= q < b ==> !filter_passes(f, #[trigger] s[q]),
    ensures
        fetched_prefix_count(f, s, b) == fetched_prefix_count(f, s, a),
        hit_prefix_count(m, style, f, s, b) == hit_prefix_count(m, style, f, s, a),
    decreases b - a,
{
    if a < b {
        lemma_prefix_counts_constant(m, style, f, s, a, b - 1);
    }
}

/// The counts never exceed the positions walked.
proof fn lemma_prefix_counts_bounded(
    m: Map<CacheKey, Seq<u8>>,
    style: Style,
    f: Option<BBox>,
    s: Seq<Tile>,
    n: int,
)
    requires
        0 <= n,
    ensures
        hit_prefix_count(m, style, f, s, n) <= fetched_prefix_count(f, s, n) <= n,
    decreases n,
{
    if n > 0 {
        lemma_prefix_counts_bounded(m, style, f, s, n - 1);
    }
}

/// Without a filter, every walked position is a fetch.
pub proof fn lemma_fetched_count_unfiltered(s: Seq<Tile>, n: int)
    requires
        0 <= n,
    ensures
        fetched_prefix_count(None, s, n) == n,
    decreases n,
{
    if n > 0 {
        lemma_fetched_count_unfiltered(s, n - 1);
    }
}

/// The walking state of a sweep: the tile the walk will yield next.
pub struct TileSweep {
    max_zoom: u8,
    zoom: u8,
    x: u32,
    y: u32,
    finished: bool,
}

impl TileSweep {
    /// The walk's internal invariant.
    pub closed spec fn wf(self) -> bool {
        self.zoom <= self.max_zoom <= MAX_ZOOM && (self.x as nat) < pow2(self.zoom as nat) && (
        self.y as nat) < pow2(self.zoom as nat)
    }

    /// The target zoom.
    pub closed spec fn max_spec(self) -> nat {
        self.max_zoom as nat
    }

    /// The sweep sequence being walked.
    pub open spec fn seq_spec(self) -> Seq<Tile> {
        tiles_to_zoom(self.max_spec())
    }

    /// The total number of tiles the walk will yield.
    pub open spec fn total(self) -> nat {
        total_tiles_to_zoom(self.max_spec())
    }

    /// How many tiles the walk has yielded.
    pub closed spec fn pos(self) -> nat {
        if self.finished {
            self.total()
        } else {
            sweep_index_of(Tile { zoom: self.zoom, x: self.x, y: self.y })
        }
    }

    /// A fresh walk of all tiles to `max_zoom`.
    pub fn new(max_zoom: u8) -> (r: TileSweep)
        requires
            max_zoom <= MAX_ZOOM,
        ensures
            r.wf(),
            r.max_spec() == max_zoom as nat,
            r.pos() == 0,
    {
        let r = TileSweep { max_zoom, zoom: 0, x: 0, y: 0, finished: false };
        proof {
            lemma_pow2_pos(0);
        }
        r
    }

    /// When the walk still stands on a tile, that position is inside the
    /// sequence.
    pub proof fn lemma_pos_in_range(self)
        requires
            self.wf(),
        ensures
            self.pos() <= self.total(),
    {
        if !self.finished {
            lemma_sweep_index(self.max_spec(), Tile { zoom: self.zoom, x: self.x, y: self.y });
            lemma_tiles_to_zoom_len(self.max_spec());
        }
    }

    /// Yields the next tile of the sweep, in order, or `None` once all tiles
    /// to the target zoom are out.
    pub fn next(&mut self) -> (r: Option<Tile>)
        requires
            old(self).wf(),
        ensures
            final(self).wf(),
            final(self).max_spec() == old(self).max_spec(),
            r is None <==> old(self).pos() == old(self).total(),
            r is None ==> final(self).pos() == old(self).pos(),
            (r matches Some(t) ==> t.wf() && t.zoom <= old(self).max_spec() && old(self).pos()
                < old(self).total() && t == old(self).seq_spec()[old(self).pos() as int]
                && final(self).pos() == old(self).pos() + 1),
    {
        proof {
            self.lemma_pos_in_range();
        }
        if self.finished {
            return None;
        }
        let t = Tile { zoom: self.zoom, x: self.x, y: self.y };
        proof {
            lemma_sweep_index(self.max_spec(), t);
            lemma_tiles_to_zoom_len(self.max_spec());
            lemma2_to64();
            if (self.zoom as nat) < 31 {
                lemma_pow2_strictly_increases(self.zoom as nat, 31);
            }
            lemma_u32_shl_is_mul(1u32, self.zoom as u32);
        }
        let edge: u32 = (1u32 << (self.zoom as u32)) - 1;
        if self.y < edge {
            self.y = self.y + 1;
            proof {
                assert(self.pos() == old(self).pos() + 1);
            }
        } else if self.x < edge {
            proof {
                let p = pow2(self.zoom as nat);
                let xn = self.x as nat;
                assert((xn + 1) * p == xn * p + p) by (nonlinear_arith);
            }
            self.x = self.x + 1;
            self.y = 0;
            proof {
                assert(self.pos() == old(self).pos() + 1);
            }
        } else if self.zoom < self.max_zoom {
            proof {
                let z = self.zoom as nat;
                let p = pow2(z);
                assert((p - 1) * p + (p - 1) + 1 == p * p) by (nonlinear_arith)
                    requires
                        p > 0,
                ;
                lemma_pow2_pos(z + 1);
                assert(tiles_before_zoom(z + 1) == tiles_before_zoom(z) + tiles_at_zoom_count(z));
            }
            self.zoom = self.zoom + 1;
            self.x = 0;
            self.y = 0;
            proof {
                assert(self.pos() == old(self).pos() + 1);
            }
        } else {
            proof {
                let z = self.zoom as nat;
                let p = pow2(z);
                assert((p - 1) * p + (p - 1) + 1 == p * p) by (nonlinear_arith)
                    requires
                        p > 0,
                ;
                assert(tiles_before_zoom(z + 1) == tiles_before_zoom(z) + tiles_at_zoom_count(z));
            }
            self.finished = true;
            proof {
                assert(self.pos() == old(self).pos() + 1);
            }
        }
        Some(t)
    }
}

/// A bulk job's three counters.
#[derive(Clone, Copy, PartialEq, Eq, Structural, Debug)]
pub struct JobCounters {
    /// Tiles whose fetch-through failed.
    pub errors: u64,
    /// Tiles already on hand.
    pub existing: u64,
    /// Tiles fetched and stored by this sweep.
    pub new: u64,
}

/// The one-line summary a bulk job answers with.
pub open spec fn summary_spec(c: JobCounters) -> Seq<char> {
    "Errors: "@ + dec_str(c.errors as nat) + ", existing tiles: "@ + dec_str(c.existing as nat)
        + ", new tiles: "@ + dec_str(c.new as nat)
}

/// A bulk precache job: walks the sweep, hands out one fetch request at a
/// time (with a round-robin shard), and tallies the results it is handed
/// back. A single tile's failure only bumps a counter; the sweep never stops
/// early.
pub struct BulkJob {
    style: Style,
    counters: JobCounters,
    sweep: TileSweep,
    shard_idx: u64,
    filter: Option<BBox>,
}

impl BulkJob {
    /// The job's internal invariant.
    pub closed spec fn wf(self) -> bool {
        self.sweep.wf() && self.shard_idx < 3
    }

    /// The style being warmed.
    pub closed spec fn style_spec(self) -> Style {
        self.style
    }

    /// The running tallies.
    pub closed spec fn counters_spec(self) -> JobCounters {
        self.counters
    }

    /// Reads the running tallies.
    pub fn counters(&self) -> (r: JobCounters)
        ensures
            r == self.counters_spec(),
    {
        self.counters
    }

    /// How many sweep positions have been consumed.
    pub closed spec fn pos(self) -> nat {
        self.sweep.pos()
    }

    /// The number of positions a full walk consumes.
    pub open spec fn total(self) -> nat {
        total_tiles_to_zoom(self.max_spec())
    }

    /// The target zoom.
    pub closed spec fn max_spec(self) -> nat {
        self.sweep.max_spec()
    }

    /// The sweep sequence.
    pub open spec fn seq_spec(self) -> Seq<Tile> {
        tiles_to_zoom(self.max_spec())
    }

    /// The bounding-box filter, if the job has one.
    pub closed spec fn filter_spec(self) -> Option<BBox> {
        self.filter
    }

    /// The round-robin position of the next shard to hand out.
    pub closed spec fn shard_pos(self) -> nat {
        self.shard_idx as nat
    }

    /// Whether the job fetches `t`: either there is no filter, or `t`
    /// overlaps the box.
    pub open spec fn passes(self, t: Tile) -> bool {
        filter_passes(self.filter_spec(), t)
    }

    /// A fresh job for `style`, sweeping to `max_zoom`, with an optional
    /// bounding-box filter.
    pub fn new(style: Style, max_zoom: u8, filter: Option<BBox>) -> (r: BulkJob)
        requires
            max_zoom <= MAX_ZOOM,
        ensures
            r.wf(),
            r.style_spec() == style,
            r.counters_spec() == (JobCounters { errors: 0, existing: 0, new: 0 }),
            r.pos() == 0,
            r.max_spec() == max_zoom as nat,
            r.filter_spec() == filter,
            r.shard_pos() == 0,
    {
        BulkJob {
            style,
            counters: JobCounters { errors: 0, existing: 0, new: 0 },
            sweep: TileSweep::new(max_zoom),
            shard_idx: 0,
            filter,
        }
    }

    /// Hands out the next fetch request: the next sweep tile that passes the
    /// filter, paired with the next round-robin shard label. Skipped tiles
    /// are exactly those failing the filter; `None` means the sweep is done.
    pub fn next_request(&mut self) -> (r: Option<(&'static str, Tile)>)
        requires
            old(self).wf(),
        ensures
            final(self).wf(),
            final(self).style_spec() == old(self).style_spec(),
            final(self).counters_spec() == old(self).counters_spec(),
            final(self).max_spec() == old(self).max_spec(),
            final(self).filter_spec() == old(self).filter_spec(),
            old(self).pos() <= final(self).pos() <= old(self).total(),
            forall|p: int| old(self).pos() <= p < (if r is Some {
                final(self).pos() - 1
            } else {
                final(self).pos() as int
            }) ==> !old(self).passes(#[trigger] old(self).seq_spec()[p]),
            (r matches Some(pair) ==> ({
                let (sh, t) = pair;
                &&& final(self).pos() >= old(self).pos() + 1
                &&& t == old(self).seq_spec()[final(self).pos() - 1]
                &&& t.wf()
                &&& t.zoom <= old(self).max_spec()
                &&& old(self).passes(t)
                &&& sh@ == shard_spec(old(self).shard_pos())
                &&& final(self).shard_pos() == (old(self).shard_pos() + 1) % 3
            })),
            r is None ==> final(self).pos() == final(self).total() && final(self).shard_pos()
                == old(self).shard_pos(),
    {
        proof {
            self.sweep.lemma_pos_in_range();
        }
        loop
            invariant
                self.wf(),
                self.style_spec() == old(self).style_spec(),
                self.counters_spec() == old(self).counters_spec(),
                self.max_spec() == old(self).max_spec(),
                self.filter_spec() == old(self).filter_spec(),
                self.shard_pos() == old(self).shard_pos(),
                old(self).pos() <= self.pos() <= self.total(),
                forall|p: int| old(self).pos() <= p < self.pos() ==> !old(self).passes(
                    #[trigger] old(self).seq_spec()[p],
                ),
            decreases self.total() - self.pos(),
        {
            match self.sweep.next() {
                None => {
                    return None;
                },
                Some(t) => {
                    let keep = match &self.filter {
                        None => true,
                        Some(b) => b.overlaps_tile(t),
                    };
                    if keep {
                        let sh = shard_name(self.shard_idx);
                        if self.shard_idx >= 2 {
                            self.shard_idx = 0;
                        } else {
                            self.shard_idx = self.shard_idx + 1;
                        }
                        return Some((sh, t));
                    }
                },
            }
        }
    }

    /// Tallies one fetch-through result: an error, a cache hit, or a fresh
    /// tile.
    pub fn record(&mut self, result: &Result<(Vec<u8>, Freshness), String>)
        requires
            old(self).wf(),
            old(self).counters_spec().errors < u64::MAX,
            old(self).counters_spec().existing < u64::MAX,
            old(self).counters_spec().new < u64::MAX,
        ensures
            final(self).wf(),
            final(self).style_spec() == old(self).style_spec(),
            final(self).pos() == old(self).pos(),
            final(self).max_spec() == old(self).max_spec(),
            final(self).filter_spec() == old(self).filter_spec(),
            final(self).shard_pos() == old(self).shard_pos(),
            result is Err ==> final(self).counters_spec() == (JobCounters {
                errors: (old(self).counters_spec().errors + 1) as u64,
                ..old(self).counters_spec()
            }),
            (result matches Ok(p) && p.1 == Freshness::FromCache ==> final(self).counters_spec()
                == (JobCounters {
                existing: (old(self).counters_spec().existing + 1) as u64,
                ..old(self).counters_spec()
            })),
            (result matches Ok(p) && p.1 == Freshness::JustFetched ==> final(self).counters_spec()
                == (JobCounters {
                new: (old(self).counters_spec().new + 1) as u64,
                ..old(self).counters_spec()
            })),
    {
        match result {
            Err(_) => {
                self.counters.errors = self.counters.errors + 1;
            },
            Ok((_, Freshness::FromCache)) => {
                self.counters.existing = self.counters.existing + 1;
            },
            Ok((_, Freshness::JustFetched)) => {
                self.counters.new = self.counters.new + 1;
            },
        }
    }

    /// Renders the job's result line:
    /// `Errors: {e}, existing tiles: {x}, new tiles: {n}`.
    pub fn summary(&self) -> (r: String)
        ensures
            r@ == summary_spec(self.counters_spec()),
    {
        let mut s = String::new();
        s.append("Errors: ");
        s.append(u64_to_string(self.counters.errors).as_str());
        s.append(", existing tiles: ");
        s.append(u64_to_string(self.counters.existing).as_str());
        s.append(", new tiles: ");
        s.append(u64_to_string(self.counters.new).as_str());
        s
    }
}

/// Runs a whole unfiltered sweep against the store model, fetching every
/// sweep tile through the cache, with an upstream that answers every request
/// with `upstream_body`. Afterwards exactly the sweep's tiles are stored for
/// `style` (on top of whatever was there); tiles already present keep their
/// bytes and are counted as existing, the rest as new; nothing errs, and the
/// two counts together make the full sum `4^0 + ... + 4^max_zoom`.
pub fn precache_until_zoom(
    store: &mut CacheStore,
    style: Style,
    max_zoom: u8,
    upstream_body: &Vec<u8>,
    highlight: bool,
) -> (r: JobCounters)
    requires
        old(store).wf(),
        max_zoom <= MAX_ZOOM,
    ensures
        final(store).wf(),
        r.errors == 0,
        r.existing as nat == hit_prefix_count(
            old(store)@,
            style,
            None,
            tiles_to_zoom(max_zoom as nat),
            total_tiles_to_zoom(max_zoom as nat) as int,
        ),
        r.existing as int + r.new as int == total_tiles_to_zoom(max_zoom as nat),
        forall|k: CacheKey| #[trigger]
            final(store)@.contains_key(k) <==> old(store)@.contains_key(k) || (k.style == style
                && tiles_to_zoom(max_zoom as nat).contains(k.tile)),
        forall|k: CacheKey| old(store)@.contains_key(k) ==> final(store)@[k] == old(store)@[k],
        forall|k: CacheKey|
            !old(store)@.contains_key(k) && #[trigger] final(store)@.contains_key(k)
                ==> final(store)@[k] == upstream_body@,
{
    let ghost sseq = tiles_to_zoom(max_zoom as nat);
    let mut job = BulkJob::new(style, max_zoom, None);
    loop
        invariant
            store.wf(),
            job.wf(),
            job.style_spec() == style,
            job.max_spec() == max_zoom as nat,
            job.filter_spec() is None,
            job.counters_spec().errors == 0,
            job.counters_spec().existing as nat == hit_prefix_count(
                old(store)@,
                style,
                None,
                sseq,
                job.pos() as int,
            ),
            job.counters_spec().existing as int + job.counters_spec().new as int
                == fetched_prefix_count(None, sseq, job.pos() as int),
            job.pos() <= job.total(),
            job.total() == total_tiles_to_zoom(max_zoom as nat),
            sseq == tiles_to_zoom(max_zoom as nat),
            forall|k: CacheKey| #[trigger]
                store@.contains_key(k) <==> old(store)@.contains_key(k) || (k.style == style && (
                exists|p: int| 0 <= p < job.pos() && #[trigger] sseq[p] == k.tile)),
            forall|k: CacheKey| old(store)@.contains_key(k) ==> store@[k] == old(store)@[k],
            forall|k: CacheKey|
                !old(store)@.contains_key(k) && #[trigger] store@.contains_key(k) ==> store@[k]
                    == upstream_body@,
        ensures
            job.pos() == job.total(),
            job.counters_spec().errors == 0,
            job.counters_spec().existing as nat == hit_prefix_count(
                old(store)@,
                style,
                None,
                sseq,
                job.pos() as int,
            ),
            job.counters_spec().existing as int + job.counters_spec().new as int
                == fetched_prefix_count(None, sseq, job.pos() as int),
            store.wf(),
            forall|k: CacheKey| #[trigger]
                store@.contains_key(k) <==> old(store)@.contains_key(k) || (k.style == style && (
                exists|p: int| 0 <= p < job.pos() && #[trigger] sseq[p] == k.tile)),
            forall|k: CacheKey| old(store)@.contains_key(k) ==> store@[k] == old(store)@[k],
            forall|k: CacheKey|
                !old(store)@.contains_key(k) && #[trigger] store@.contains_key(k) ==> store@[k]
                    == upstream_body@,
        decreases job.total() - job.pos(),
    {
        let ghost jpre = job;
        let ghost spre = *store;
        let req = job.next_request();
        match req {
            None => {
                proof {
                    if job.pos() > jpre.pos() {
                        assert(!jpre.passes(jpre.seq_spec()[jpre.pos() as int]));
                        assert(false);
                    }
                }
                break
            },
            Some((_sh, t)) => {
                proof {
                    if job.pos() > jpre.pos() + 1 {
                        assert(!jpre.passes(jpre.seq_spec()[jpre.pos() as int]));
                        assert(false);
                    }
                }
                let body = clone_bytes(upstream_body);
                let result = inner_fetch_tile(
                    store,
                    style,
                    t,
                    UpstreamOutcome::Fetched(body),
                    highlight,
                );
                proof {
                    lemma_total_tiles_bound(max_zoom as nat);
                    lemma_tiles_to_zoom_len(max_zoom as nat);
                    let key = CacheKey { style, tile: t };
                    let pidx = jpre.pos() as int;
                    // This position's tile occurs nowhere earlier in the
                    // sweep, so a hit means the key was there from the start.
                    if spre@.contains_key(key) && !old(store)@.contains_key(key) {
                        let q = choose|q: int| 0 <= q < pidx && #[trigger] sseq[q] == key.tile;
                        lemma_sweep_elem(max_zoom as nat, q);
                        lemma_sweep_elem(max_zoom as nat, pidx);
                        assert(false);
                    }
                    assert(hit_prefix_count(old(store)@, style, None, sseq, pidx + 1)
                        == hit_prefix_count(old(store)@, style, None, sseq, pidx) + (
                    if old(store)@.contains_key(key) {
                        1nat
                    } else {
                        0nat
                    }));
                    assert(fetched_prefix_count(None, sseq, pidx + 1) == fetched_prefix_count(
                        None,
                        sseq,
                        pidx,
                    ) + 1);
                    lemma_prefix_counts_bounded(old(store)@, style, None, sseq, pidx);
                    assert forall|k: CacheKey| #[trigger]
                        store@.contains_key(k) implies old(store)@.contains_key(k) || (k.style
                        == style && (exists|p: int|
                        0 <= p < job.pos() && #[trigger] sseq[p] == k.tile)) by {
                        if k == key {
                            assert(sseq[job.pos() - 1] == k.tile);
                        } else {
                            assert(spre@.contains_key(k));
                        }
                    }
                    assert forall|k: CacheKey|
                        old(store)@.contains_key(k) || (k.style == style && (exists|p: int|
                            0 <= p < job.pos() && #[trigger] sseq[p] == k.tile)) implies #[trigger]
                        store@.contains_key(k) by {
                        if !old(store)@.contains_key(k) {
                            let p = choose|p: int| 0 <= p < job.pos() && #[trigger] sseq[p]
                                == k.tile;
                            if p < jpre.pos() {
                                assert(spre@.contains_key(k));
                            } else {
                                assert(k.tile == t);
                                assert(k == key);
                            }
                        }
                    }
                }
                job.record(&result);
            },
        }
    }
    proof {
        lemma_tiles_to_zoom_len(max_zoom as nat);
        lemma_fetched_count_unfiltered(sseq, job.pos() as int);
        assert forall|k: CacheKey|
            (k.style == style && (exists|p: int| 0 <= p < job.pos() && #[trigger] sseq[p]
                == k.tile)) <==> (k.style == style && sseq.contains(k.tile)) by {}
    }
    job.counters()
}

/// Runs a whole sweep restricted to the Moscow box against the store model,
/// with an upstream that answers every request with `upstream_body`. A fetch
/// is issued only for tiles overlapping the box: afterwards the store holds
/// exactly its old keys plus the sweep's overlapping tiles for `style`, and
/// nothing else — tiles outside the box are never fetched. Nothing errs, and
/// existing and new together count exactly the sweep tiles that overlap the
/// box, existing being those the store already held.
pub fn precache_moscow_until_zoom(
    store: &mut CacheStore,
    style: Style,
    max_zoom: u8,
    upstream_body: &Vec<u8>,
    highlight: bool,
) -> (r: JobCounters)
    requires
        old(store).wf(),
        max_zoom <= MAX_ZOOM,
    ensures
        final(store).wf(),
        r.errors == 0,
        r.existing as nat == hit_prefix_count(
            old(store)@,
            style,
            Some(moscow_bbox_spec()),
            tiles_to_zoom(max_zoom as nat),
            total_tiles_to_zoom(max_zoom as nat) as int,
        ),
        r.existing as int + r.new as int == fetched_prefix_count(
            Some(moscow_bbox_spec()),
            tiles_to_zoom(max_zoom as nat),
            total_tiles_to_zoom(max_zoom as nat) as int,
        ),
        forall|k: CacheKey| #[trigger]
            final(store)@.contains_key(k) <==> old(store)@.contains_key(k) || (k.style == style
                && tiles_to_zoom(max_zoom as nat).contains(k.tile) && bbox_overlaps(
                moscow_bbox_spec(),
                k.tile,
            )),
        forall|k: CacheKey| old(store)@.contains_key(k) ==> final(store)@[k] == old(store)@[k],
        forall|k: CacheKey|
            !old(store)@.contains_key(k) && #[trigger] final(store)@.contains_key(k)
                ==> final(store)@[k] == upstream_body@,
{
    let ghost sseq = tiles_to_zoom(max_zoom as nat);
    let ghost fil = Some(moscow_bbox_spec());
    let moscow = moscow_bbox();
    let mut job = BulkJob::new(style, max_zoom, Some(moscow));
    loop
        invariant
            store.wf(),
            job.wf(),
            job.style_spec() == style,
            job.max_spec() == max_zoom as nat,
            job.filter_spec() == Some(moscow_bbox_spec()),
            job.counters_spec().errors == 0,
            job.counters_spec().existing as nat == hit_prefix_count(
                old(store)@,
                style,
                fil,
                sseq,
                job.pos() as int,
            ),
            job.counters_spec().existing as int + job.counters_spec().new as int
                == fetched_prefix_count(fil, sseq, job.pos() as int),
            job.pos() <= job.total(),
            job.total() == total_tiles_to_zoom(max_zoom as nat),
            sseq == tiles_to_zoom(max_zoom as nat),
            fil == Some(moscow_bbox_spec()),
            forall|k: CacheKey| #[trigger]
                store@.contains_key(k) <==> old(store)@.contains_key(k) || (k.style == style && (
                exists|p: int|
                    0 <= p < job.pos() && #[trigger] sseq[p] == k.tile && bbox_overlaps(
                        moscow_bbox_spec(),
                        sseq[p],
                    ))),
            forall|k: CacheKey| old(store)@.contains_key(k) ==> store@[k] == old(store)@[k],
            forall|k: CacheKey|
                !old(store)@.contains_key(k) && #[trigger] store@.contains_key(k) ==> store@[k]
                    == upstream_body@,
        ensures
            job.pos() == job.total(),
            job.counters_spec().errors == 0,
            job.counters_spec().existing as nat == hit_prefix_count(
                old(store)@,
                style,
                fil,
                sseq,
                job.pos() as int,
            ),
            job.counters_spec().existing as int + job.counters_spec().new as int
                == fetched_prefix_count(fil, sseq, job.pos() as int),
            store.wf(),
            fil == Some(moscow_bbox_spec()),
            forall|k: CacheKey| #[trigger]
                store@.contains_key(k) <==> old(store)@.contains_key(k) || (k.style == style && (
                exists|p: int|
                    0 <= p < job.pos() && #[trigger] sseq[p] == k.tile && bbox_overlaps(
                        moscow_bbox_spec(),
                        sseq[p],
                    ))),
            forall|k: CacheKey| old(store)@.contains_key(k) ==> store@[k] == old(store)@[k],
            forall|k: CacheKey|
                !old(store)@.contains_key(k) && #[trigger] store@.contains_key(k) ==> store@[k]
                    == upstream_body@,
        decreases job.total() - job.pos(),
    {
        let ghost jpre = job;
        let ghost spre = *store;
        let req = job.next_request();
        match req {
            None => {
                proof {
                    assert forall|q: int| jpre.pos() <= q < job.pos() implies !filter_passes(
                        fil,
                        #[trigger] sseq[q],
                    ) by {
                        assert(!jpre.passes(jpre.seq_spec()[q]));
                    }
                    lemma_prefix_counts_constant(
                        old(store)@,
                        style,
                        fil,
                        sseq,
                        jpre.pos() as int,
                        job.pos() as int,
                    );
                    assert forall|k: CacheKey| #[trigger]
                        store@.contains_key(k) <==> old(store)@.contains_key(k) || (k.style
                        == style && (exists|p: int|
                        0 <= p < job.pos() && #[trigger] sseq[p] == k.tile && bbox_overlaps(
                            moscow_bbox_spec(),
                            sseq[p],
                        ))) by {
                        if !old(store)@.contains_key(k) && !store@.contains_key(k) {
                            if k.style == style && (exists|p: int|
                                0 <= p < job.pos() && #[trigger] sseq[p] == k.tile && bbox_overlaps(
                                    moscow_bbox_spec(),
                                    sseq[p],
                                )) {
                                let p = choose|p: int|
                                    0 <= p < job.pos() && #[trigger] sseq[p] == k.tile
                                        && bbox_overlaps(moscow_bbox_spec(), sseq[p]);
                                if p >= jpre.pos() {
                                    assert(!jpre.passes(jpre.seq_spec()[p]));
                                    assert(false);
                                } else {
                                    assert(spre@.contains_key(k));
                                    assert(false);
                                }
                            }
                        }
                    }
                }
                break
            },
            Some((_sh, t)) => {
                let body = clone_bytes(upstream_body);
                let result = inner_fetch_tile(
                    store,
                    style,
                    t,
                    UpstreamOutcome::Fetched(body),
                    highlight,
                );
                proof {
                    lemma_total_tiles_bound(max_zoom as nat);
                    lemma_tiles_to_zoom_len(max_zoom as nat);
                    let key = CacheKey { style, tile: t };
                    let pidx = job.pos() - 1;
                    // Skipped positions fail the filter and change no count.
                    assert forall|q: int| jpre.pos() <= q < pidx implies !filter_passes(
                        fil,
                        #[trigger] sseq[q],
                    ) by {
                        assert(!jpre.passes(jpre.seq_spec()[q]));
                    }
                    lemma_prefix_counts_constant(
                        old(store)@,
                        style,
                        fil,
                        sseq,
                        jpre.pos() as int,
                        pidx as int,
                    );
                    // This position's tile occurs nowhere earlier in the
                    // sweep, so a hit means the key was there from the start.
                    if spre@.contains_key(key) && !old(store)@.contains_key(key) {
                        let q = choose|q: int|
                            0 <= q < jpre.pos() && #[trigger] sseq[q] == key.tile && bbox_overlaps(
                                moscow_bbox_spec(),
                                sseq[q],
                            );
                        lemma_sweep_elem(max_zoom as nat, q);
                        lemma_sweep_elem(max_zoom as nat, pidx as int);
                        assert(false);
                    }
                    assert(hit_prefix_count(old(store)@, style, fil, sseq, pidx as int + 1)
                        == hit_prefix_count(old(store)@, style, fil, sseq, pidx as int) + (
                    if old(store)@.contains_key(key) {
                        1nat
                    } else {
                        0nat
                    }));
                    assert(fetched_prefix_count(fil, sseq, pidx as int + 1)
                        == fetched_prefix_count(fil, sseq, pidx as int) + 1);
                    lemma_prefix_counts_bounded(old(store)@, style, fil, sseq, pidx as int);
                    assert forall|k: CacheKey| #[trigger]
                        store@.contains_key(k) implies old(store)@.contains_key(k) || (k.style
                        == style && (exists|p: int|
                        0 <= p < job.pos() && #[trigger] sseq[p] == k.tile && bbox_overlaps(
                            moscow_bbox_spec(),
                            sseq[p],
                        ))) by {
                        if k == key {
                            assert(sseq[job.pos() - 1] == k.tile && bbox_overlaps(
                                moscow_bbox_spec(),
                                sseq[job.pos() - 1],
                            ));
                        } else {
                            assert(spre@.contains_key(k));
                        }
                    }
                    assert forall|k: CacheKey|
                        old(store)@.contains_key(k) || (k.style == style && (exists|p: int|
                            0 <= p < job.pos() && #[trigger] sseq[p] == k.tile && bbox_overlaps(
                                moscow_bbox_spec(),
                                sseq[p],
                            ))) implies #[trigger] store@.contains_key(k) by {
                        if !old(store)@.contains_key(k) {
                            let p = choose|p: int|
                                0 <= p < job.pos() && #[trigger] sseq[p] == k.tile && bbox_overlaps(
                                    moscow_bbox_spec(),
                                    sseq[p],
                                );
                            if p < jpre.pos() {
                                assert(spre@.contains_key(k));
                            } else {
                                assert(k.tile == t);
                                assert(k == key);
                            }
                        }
                    }
                }
                job.record(&result);
            },
        }
    }
    proof {
        lemma_tiles_to_zoom_len(max_zoom as nat);
        assert forall|k: CacheKey| #[trigger]
            store@.contains_key(k) <==> old(store)@.contains_key(k) || (k.style == style
            && sseq.contains(k.tile) && bbox_overlaps(moscow_bbox_spec(), k.tile)) by {
            if !old(store)@.contains_key(k) {
                if store@.contains_key(k) {
                    let p = choose|p: int|
                        0 <= p < job.pos() && #[trigger] sseq[p] == k.tile && bbox_overlaps(
                            moscow_bbox_spec(),
                            sseq[p],
                        );
                    assert(sseq.contains(k.tile));
                } else {
                    if k.style == style && sseq.contains(k.tile) && bbox_overlaps(
                        moscow_bbox_spec(),
                        k.tile,
                    ) {
                        let p = choose|p: int| 0 <= p < sseq.len() && #[trigger] sseq[p] == k.tile;
                        assert(0 <= p < job.pos() && sseq[p] == k.tile && bbox_overlaps(
                            moscow_bbox_spec(),
                            sseq[p],
                        ));
                        assert(false);
                    }
                }
            }
        }
    }
    job.counters()
}

} // verus!

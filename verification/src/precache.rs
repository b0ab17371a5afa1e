//! Precache planning: after a tile is served, the cache is warmed around it —
//! every ancestor up to zoom 0 and the descendants two levels down, for every
//! configured style. This module computes that plan as data; dispatching the
//! detached fetches is the caller's business.

use vstd::prelude::*;

verus! {

use crate::router::Style;
use crate::tile::{Tile, MAX_ZOOM};

/// How many levels below a served tile the precache descends.
pub const PRECACHE_DEPTH: u8 = 2;

/// The chain of ancestors of `t`, nearest first, down to zoom 0.
pub open spec fn ancestor_chain(t: Tile) -> Seq<Tile>
    decreases t.zoom,
{
    if t.zoom == 0 {
        Seq::empty()
    } else {
        seq![t.parent_spec()] + ancestor_chain(t.parent_spec())
    }
}

/// The descendants of `t` to `depth` levels, in the order the recursive
/// expansion visits them: each child followed by its own subtree. The
/// expansion stops at the deepest zoom.
pub open spec fn descendant_chain(t: Tile, depth: nat) -> Seq<Tile>
    decreases depth,
{
    if depth == 0 || t.zoom >= MAX_ZOOM {
        Seq::empty()
    } else {
        let c = t.children_spec();
        seq![c[0]] + descendant_chain(c[0], (depth - 1) as nat) + seq![c[1]] + descendant_chain(
            c[1],
            (depth - 1) as nat,
        ) + seq![c[2]] + descendant_chain(c[2], (depth - 1) as nat) + seq![c[3]]
            + descendant_chain(c[3], (depth - 1) as nat)
    }
}

/// The size of a full descendant expansion `d` levels deep:
/// `4 + 4^2 + ... + 4^d`.
pub open spec fn descendant_count(d: nat) -> nat
    decreases d,
{
    if d == 0 {
        0
    } else {
        4 + 4 * descendant_count((d - 1) as nat)
    }
}

/// The levels actually expanded below `t`: the requested depth, cut off at
/// the deepest zoom.
pub open spec fn effective_depth(t: Tile, depth: nat) -> nat {
    if depth <= MAX_ZOOM - t.zoom {
        depth
    } else {
        (MAX_ZOOM - t.zoom) as nat
    }
}

/// Ancestors: one per zoom level above `t`, each the `i+1`-fold parent, so
/// exactly `t.zoom` of them, ending at zoom 0.
pub proof fn lemma_ancestor_chain(t: Tile)
    requires
        t.wf(),
    ensures
        ancestor_chain(t).len() == t.zoom,
        forall|i: int| 0 <= i < t.zoom ==> (#[trigger] ancestor_chain(t)[i]).wf()
            && ancestor_chain(t)[i].zoom == t.zoom - 1 - i,
    decreases t.zoom,
{
    if t.zoom > 0 {
        crate::tile::lemma_parent_wf(t);
        lemma_ancestor_chain(t.parent_spec());
    }
}

/// Descendants: every entry is well formed and strictly below `t`, and the
/// expansion has exactly `descendant_count(effective_depth(t, depth))`
/// entries.
pub proof fn lemma_descendant_chain(t: Tile, depth: nat)
    requires
        t.wf(),
    ensures
        descendant_chain(t, depth).len() == descendant_count(effective_depth(t, depth)),
        forall|i: int| 0 <= i < descendant_chain(t, depth).len() ==> (#[trigger] descendant_chain(
            t,
            depth,
        )[i]).wf() && descendant_chain(t, depth)[i].zoom > t.zoom,
    decreases depth,
{
    if depth == 0 || t.zoom >= MAX_ZOOM {
    } else {
        let c = t.children_spec();
        assert forall|j: int| 0 <= j < 4 implies (#[trigger] c[j]).wf() && c[j].zoom == t.zoom
            + 1 by {
            crate::tile::lemma_parent_of_child(t, j);
        }
        lemma_descendant_chain(c[0], (depth - 1) as nat);
        lemma_descendant_chain(c[1], (depth - 1) as nat);
        lemma_descendant_chain(c[2], (depth - 1) as nat);
        lemma_descendant_chain(c[3], (depth - 1) as nat);
    }
}

/// Builds the ancestor chain by walking `parent` until zoom 0.
pub fn ancestors(tile: Tile) -> (r: Vec<Tile>)
    requires
        tile.wf(),
    ensures
        r@ == ancestor_chain(tile),
{
    let mut r: Vec<Tile> = Vec::new();
    let mut cur = tile;
    while cur.zoom > 0
        invariant
            cur.wf(),
            ancestor_chain(tile) == r@ + ancestor_chain(cur),
        decreases cur.zoom,
    {
        let ghost prev = cur;
        let p = match cur.parent() {
            Some(p) => p,
            None => { return r },  // unreachable: cur.zoom > 0
        };
        r.push(p);
        cur = p;
        proof {
            assert(ancestor_chain(prev) =~= seq![p] + ancestor_chain(p));
            assert(ancestor_chain(tile) =~= r@ + ancestor_chain(cur));
        }
    }
    proof {
        assert(ancestor_chain(tile) =~= r@);
    }
    r
}

/// Builds the descendant expansion of `tile`, `depth` levels deep, by the
/// same recursion the spec describes.
pub fn descendants(tile: Tile, depth: u8) -> (r: Vec<Tile>)
    requires
        tile.wf(),
    ensures
        r@ == descendant_chain(tile, depth as nat),
    decreases depth,
{
    let mut r: Vec<Tile> = Vec::new();
    if depth == 0 {
        proof {
            assert(r@ =~= descendant_chain(tile, depth as nat));
        }
        return r;
    }
    let children = match tile.children() {
        Some(c) => c,
        None => {
            proof {
                assert(r@ =~= descendant_chain(tile, depth as nat));
            }
            return r;
        },
    };
    let mut j: usize = 0;
    while j < 4
        invariant
            tile.wf(),
            tile.zoom < MAX_ZOOM,
            1 <= depth,
            children@ == tile.children_spec(),
            0 <= j <= 4,
            r@ == partial_descendants(tile, depth as nat, j as int),
        decreases 4 - j,
    {
        let c = children[j];
        proof {
            crate::tile::lemma_parent_of_child(tile, j as int);
        }
        r.push(c);
        let mut sub = descendants(c, depth - 1);
        r.append(&mut sub);
        proof {
            assert(r@ =~= partial_descendants(tile, depth as nat, j + 1));
        }
        j = j + 1;
    }
    proof {
        reveal_with_fuel(partial_descendants, 5);
        assert(descendant_chain(tile, depth as nat) =~= partial_descendants(tile, depth as nat, 4));
    }
    r
}

/// The first `j` child subtrees of the expansion of `t` (a loop's worth of
/// `descendant_chain`).
pub open spec fn partial_descendants(t: Tile, depth: nat, j: int) -> Seq<Tile>
    decreases j,
{
    if j <= 0 || depth == 0 || t.zoom >= MAX_ZOOM {
        Seq::empty()
    } else {
        let c = t.children_spec();
        partial_descendants(t, depth, j - 1) + seq![c[j - 1]] + descendant_chain(
            c[j - 1],
            (depth - 1) as nat,
        )
    }
}

/// The per-style precache set for a served tile: the two-level descendant
/// expansion, then every ancestor up to zoom 0. Each entry is one detached
/// fetch-through to dispatch.
pub open spec fn adjacent_tiles_spec(t: Tile) -> Seq<Tile> {
    descendant_chain(t, PRECACHE_DEPTH as nat) + ancestor_chain(t)
}

/// Computes the per-style precache set around a served tile.
pub fn precache_adjacent_tiles(tile: Tile) -> (r: Vec<Tile>)
    requires
        tile.wf(),
    ensures
        r@ == adjacent_tiles_spec(tile),
{
    let mut r = descendants(tile, PRECACHE_DEPTH);
    let mut above = ancestors(tile);
    r.append(&mut above);
    r
}

/// The full fan-out for a served tile: the adjacent set of every configured
/// style, styles in their fixed order.
pub open spec fn precache_plan_spec(t: Tile) -> Seq<(Style, Tile)> {
    adjacent_tiles_spec(t).map_values(|x: Tile| (Style::Osm, x)) + adjacent_tiles_spec(t)
        .map_values(|x: Tile| (Style::TransportDark, x)) + adjacent_tiles_spec(t).map_values(
        |x: Tile| (Style::Matrix, x),
    )
}

/// Tags every tile of `tiles` with `style`.
fn tag_style(style: Style, tiles: &Vec<Tile>) -> (r: Vec<(Style, Tile)>)
    ensures
        r@ == tiles@.map_values(|x: Tile| (style, x)),
{
    let n = tiles.len();
    let mut r: Vec<(Style, Tile)> = Vec::new();
    let mut i: usize = 0;
    while i < n
        invariant
            n == tiles@.len(),
            0 <= i <= n,
            r@ =~= tiles@.take(i as int).map_values(|x: Tile| (style, x)),
        decreases n - i,
    {
        r.push((style, tiles[i]));
        proof {
            assert(tiles@.take(i + 1).drop_last() =~= tiles@.take(i as int));
            assert(r@ =~= tiles@.take(i + 1).map_values(|x: Tile| (style, x)));
        }
        i = i + 1;
    }
    proof {
        assert(tiles@.take(n as int) =~= tiles@);
    }
    r
}

/// Computes the whole precache fan-out for a served tile, every configured
/// style included (not only the style that was requested).
pub fn precache_plan(tile: Tile) -> (r: Vec<(Style, Tile)>)
    requires
        tile.wf(),
    ensures
        r@ == precache_plan_spec(tile),
        r@.len() == 3 * adjacent_tiles_spec(tile).len(),
{
    let adjacent = precache_adjacent_tiles(tile);
    let mut r = tag_style(Style::Osm, &adjacent);
    let mut td = tag_style(Style::TransportDark, &adjacent);
    r.append(&mut td);
    let mut mx = tag_style(Style::Matrix, &adjacent);
    r.append(&mut mx);
    r
}

/// The precache fan-out counts (the scheduler's load statement): per style,
/// exactly `t.zoom` ancestor fetches and a descendant set whose size the
/// depth constant determines — 20 fetches at depth 2, cut off only at the
/// deepest zoom levels.
pub proof fn lemma_precache_counts(t: Tile)
    requires
        t.wf(),
    ensures
        ancestor_chain(t).len() == t.zoom,
        descendant_chain(t, PRECACHE_DEPTH as nat).len() == descendant_count(
            effective_depth(t, PRECACHE_DEPTH as nat),
        ),
        t.zoom + 2 <= MAX_ZOOM ==> descendant_chain(t, PRECACHE_DEPTH as nat).len() == 20,
        precache_plan_spec(t).len() == 3 * (ancestor_chain(t).len() + descendant_chain(
            t,
            PRECACHE_DEPTH as nat,
        ).len()),
{
    lemma_ancestor_chain(t);
    lemma_descendant_chain(t, PRECACHE_DEPTH as nat);
    reveal_with_fuel(descendant_count, 3);
}

} // verus!

//! Which cached tiles stand in for one that has not arrived: the same ground at another zoom.

use crate::render::{TileId, TileKey};
use vstd::arithmetic::power2::{lemma2_to64, pow2};
use vstd::bits::lemma_u32_shr_is_div;
use vstd::prelude::*;

verus! {

/// The most tile quads one frame draws.
pub const MAX_TILE_QUADS: usize = 512;

/// Whether two tile ids name the same tile.
pub fn same_id(a: TileId, b: TileId) -> (r: bool)
    ensures
        r == (a == b),
{
    a.0 == b.0 && a.1 == b.1 && a.2 == b.2
}

/// Whether `ids` holds `id`.
pub fn has_id(ids: &[TileId], id: TileId) -> (r: bool)
    ensures
        r == ids@.contains(id),
{
    let mut i: usize = 0;
    while i < ids.len()
        invariant
            i <= ids.len(),
            forall|j: int| 0 <= j < i ==> ids@[j] != id,
        decreases ids.len() - i,
    {
        if same_id(ids[i], id) {
            assert(ids@[i as int] == id);
            return true;
        }
        i = i + 1;
    }
    false
}

/// Whether `keys` holds `key`.
pub fn has_key(keys: &[TileKey], key: TileKey) -> (r: bool)
    ensures
        r == keys@.contains(key),
{
    let mut i: usize = 0;
    while i < keys.len()
        invariant
            i <= keys.len(),
            forall|j: int| 0 <= j < i ==> keys@[j] != key,
        decreases keys.len() - i,
    {
        if keys[i].0 == key.0 && same_id(keys[i].1, key.1) {
            assert(keys@[i as int] == key);
            return true;
        }
        i = i + 1;
    }
    false
}

// ---------------------------------------------------------------------------------------------
// Vector tiles.

/// `a` is a coarser tile whose ground holds all of `v`.
pub open spec fn is_ancestor(a: TileId, v: TileId) -> bool {
    &&& a.0 < v.0
    &&& v.1 >> ((v.0 - a.0) as u32) == a.1
    &&& v.2 >> ((v.0 - a.0) as u32) == a.2
}

/// `a` is the finest of the resident ancestors of `v`.
pub open spec fn is_nearest_ancestor(resident: Seq<TileId>, a: TileId, v: TileId) -> bool {
    &&& resident.contains(a)
    &&& is_ancestor(a, v)
    &&& forall|b: TileId| resident.contains(b) && is_ancestor(b, v) ==> b.0 <= a.0
}

/// `t` stands in for the missing tile `v`: its nearest resident ancestor, or any resident tile
/// inside it.
pub open spec fn stands_in_for(resident: Seq<TileId>, t: TileId, v: TileId) -> bool {
    is_nearest_ancestor(resident, t, v) || (resident.contains(t) && is_ancestor(v, t))
}

/// `t` is drawn in place of one of the first `n` visible tiles, which is not resident itself.
pub open spec fn is_fallback(
    visible: Seq<TileId>,
    resident: Seq<TileId>,
    n: int,
    t: TileId,
) -> bool {
    exists|i: int|
        0 <= i < n && !resident.contains(visible[i]) && #[trigger] stands_in_for(
            resident,
            t,
            visible[i],
        )
}

/// The order tiles are drawn in: coarse before fine, then by column and row.
pub open spec fn drawn_before(a: TileId, b: TileId) -> bool {
    a.0 < b.0 || (a.0 == b.0 && (a.1 < b.1 || (a.1 == b.1 && a.2 < b.2)))
}

/// Every tile of `ts` is drawn before the ones behind it; so none occurs twice.
pub open spec fn in_draw_order(ts: Seq<TileId>) -> bool {
    forall|i: int, j: int| 0 <= i < j < ts.len() ==> drawn_before(#[trigger] ts[i], #[trigger] ts[j])
}

/// Zoom levels far enough apart that a 32-bit shift between them is not defined.
pub open spec fn shift_defined(a: TileId, b: TileId) -> bool {
    -32 < a.0 - b.0 < 32
}

fn ancestor_of(a: TileId, v: TileId) -> (r: bool)
    requires
        shift_defined(a, v),
    ensures
        r == is_ancestor(a, v),
{
    if a.0 < v.0 {
        let d: u32 = (v.0 - a.0) as u32;
        v.1 >> d == a.1 && v.2 >> d == a.2
    } else {
        false
    }
}

fn drawn_before_exec(a: TileId, b: TileId) -> (r: bool)
    ensures
        r == drawn_before(a, b),
{
    a.0 < b.0 || (a.0 == b.0 && (a.1 < b.1 || (a.1 == b.1 && a.2 < b.2)))
}

/// Put `t` at its place in the ordered list, unless it is there already.
fn insert_in_order(ts: &mut Vec<TileId>, t: TileId)
    requires
        in_draw_order(old(ts)@),
    ensures
        in_draw_order(final(ts)@),
        forall|u: TileId|
            #[trigger] final(ts)@.contains(u) <==> old(ts)@.contains(u) || u == t,
{
    let ghost before = ts@;
    let mut i: usize = 0;
    while i < ts.len() && drawn_before_exec(ts[i], t)
        invariant
            ts@ == before,
            i <= ts.len(),
            forall|j: int| 0 <= j < i ==> drawn_before(#[trigger] ts@[j], t),
        decreases ts.len() - i,
    {
        i = i + 1;
    }
    if i < ts.len() && same_id(ts[i], t) {
        assert(before.contains(t));
        return ;
    }
    ts.insert(i, t);
    proof {
        assert(ts@ == before.insert(i as int, t));
        assert forall|j: int, k: int| 0 <= j < k < ts@.len() implies drawn_before(
            #[trigger] ts@[j],
            #[trigger] ts@[k],
        ) by {
            if k < i {
                assert(drawn_before(before[j], before[k]));
            } else if k == i {
                assert(drawn_before(before[j], t));
            } else if j == i {
                assert(ts@[k] == before[k - 1]);
                if k - 1 > i {
                    assert(drawn_before(before[i as int], before[k - 1]));
                }
            } else if j < i {
                assert(drawn_before(before[j], before[k - 1]));
            } else {
                assert(drawn_before(before[j - 1], before[k - 1]));
            }
        }
        assert forall|u: TileId| #[trigger] ts@.contains(u) <==> before.contains(u) || u == t by {
            if before.contains(u) {
                let j = before.index_of(u);
                if j < i {
                    assert(ts@[j] == u);
                } else {
                    assert(ts@[j + 1] == u);
                }
            }
            if u == t {
                assert(ts@[i as int] == u);
            }
            if ts@.contains(u) {
                let j = ts@.index_of(u);
                if j < i {
                    assert(before[j] == u);
                } else if j > i {
                    assert(before[j - 1] == u);
                }
            }
        }
    }
}

/// The finest resident ancestor of `v`, if there is one.
fn nearest_ancestor(resident: &[TileId], v: TileId) -> (r: Option<TileId>)
    requires
        forall|j: int| 0 <= j < resident@.len() ==> shift_defined(#[trigger] resident@[j], v),
    ensures
        match r {
            Some(a) => is_nearest_ancestor(resident@, a, v),
            None => forall|b: TileId| resident@.contains(b) ==> !is_ancestor(b, v),
        },
{
    let mut best: Option<TileId> = None;
    let mut i: usize = 0;
    while i < resident.len()
        invariant
            i <= resident.len(),
            forall|j: int| 0 <= j < resident@.len() ==> shift_defined(#[trigger] resident@[j], v),
            match best {
                Some(a) => {
                    &&& resident@.contains(a)
                    &&& is_ancestor(a, v)
                    &&& forall|j: int|
                        0 <= j < i && is_ancestor(#[trigger] resident@[j], v) ==> resident@[j].0
                            <= a.0
                },
                None => forall|j: int| 0 <= j < i ==> !is_ancestor(#[trigger] resident@[j], v),
            },
        decreases resident.len() - i,
    {
        let c = resident[i];
        assert(resident@.contains(c));
        if ancestor_of(c, v) {
            match best {
                Some(a) => {
                    if a.0 <= c.0 {
                        best = Some(c);
                    }
                },
                None => {
                    best = Some(c);
                },
            }
        }
        i = i + 1;
    }
    best
}

/// Keep cached geography visible while a new zoom level loads. Coarse tiles draw first, then finer
/// fallbacks, then the requested tiles, so current detail always wins.
///
/// A missing tile is stood in for by its nearest cached ancestor, instead of a stack of every
/// cached zoom level, and by every cached tile inside it.
pub fn vector_draw_tiles(visible: &[TileId], resident: &[TileId]) -> (r: Vec<TileId>)
    requires
        forall|i: int, j: int|
            0 <= i < visible@.len() && 0 <= j < resident@.len() && !resident@.contains(visible@[i])
                ==> shift_defined(#[trigger] resident@[j], #[trigger] visible@[i]),
    ensures
        draws_vector_tiles(visible@, resident@, r@),
{
    let mut out: Vec<TileId> = Vec::new();
    let mut i: usize = 0;
    while i < visible.len()
        invariant
            i <= visible.len(),
            in_draw_order(out@),
            forall|t: TileId|
                #[trigger] out@.contains(t) <==> is_fallback(visible@, resident@, i as int, t),
            forall|i: int, j: int|
                0 <= i < visible@.len() && 0 <= j < resident@.len() && !resident@.contains(
                    visible@[i],
                ) ==> shift_defined(#[trigger] resident@[j], #[trigger] visible@[i]),
        decreases visible.len() - i,
    {
        let v = visible[i];
        let ghost before = out@;
        if has_id(resident, v) {
            assert forall|t: TileId| is_fallback(visible@, resident@, i + 1, t) implies is_fallback(
                visible@,
                resident@,
                i as int,
                t,
            ) by {
                let k = choose|k: int|
                    0 <= k < i + 1 && !resident@.contains(visible@[k]) && #[trigger] stands_in_for(
                        resident@,
                        t,
                        visible@[k],
                    );
                assert(k != i);
                assert(stands_in_for(resident@, t, visible@[k]));
            }
        } else {
            let parent = nearest_ancestor(resident, v);
            if let Some(p) = parent {
                insert_in_order(&mut out, p);
            }
            let ghost with_parent = out@;
            let mut j: usize = 0;
            while j < resident.len()
                invariant
                    i < visible.len(),
                    v == visible@[i as int],
                    !resident@.contains(v),
                    j <= resident.len(),
                    in_draw_order(out@),
                    forall|t: TileId|
                        #[trigger] out@.contains(t) <==> with_parent.contains(t) || exists|k: int|
                            0 <= k < j && #[trigger] resident@[k] == t && is_ancestor(v, t),
                    forall|i: int, j: int|
                        0 <= i < visible@.len() && 0 <= j < resident@.len() && !resident@.contains(
                            visible@[i],
                        ) ==> shift_defined(#[trigger] resident@[j], #[trigger] visible@[i]),
                decreases resident.len() - j,
            {
                let c = resident[j];
                let ghost so_far = out@;
                assert(shift_defined(resident@[j as int], visible@[i as int]));
                if ancestor_of(v, c) {
                    insert_in_order(&mut out, c);
                }
                proof {
                    assert forall|t: TileId| #[trigger] out@.contains(t) <==> with_parent.contains(
                        t,
                    ) || exists|k: int|
                        0 <= k < j + 1 && #[trigger] resident@[k] == t && is_ancestor(v, t) by {
                        if out@.contains(t) && !so_far.contains(t) {
                            assert(resident@[j as int] == t);
                        }
                        if so_far.contains(t) {
                            assert(out@.contains(t));
                        }
                        if exists|k: int|
                            0 <= k < j + 1 && #[trigger] resident@[k] == t && is_ancestor(v, t) {
                            let k = choose|k: int|
                                0 <= k < j + 1 && #[trigger] resident@[k] == t && is_ancestor(v, t);
                            if k < j {
                                assert(so_far.contains(t));
                            }
                        }
                    }
                }
                j = j + 1;
            }
            proof {
                assert forall|t: TileId|
                    #[trigger] out@.contains(t) <==> is_fallback(visible@, resident@, i + 1, t) by {
                    if is_fallback(visible@, resident@, i + 1, t) {
                        let k = choose|k: int|
                            0 <= k < i + 1 && !resident@.contains(visible@[k])
                                && #[trigger] stands_in_for(resident@, t, visible@[k]);
                        if k < i {
                            assert(is_fallback(visible@, resident@, i as int, t));
                            assert(before.contains(t));
                            assert(with_parent.contains(t));
                        } else if is_nearest_ancestor(resident@, t, v) {
                            assert(parent is Some);
                            let p = parent->0;
                            assert(p.0 == t.0);
                            assert(p == t);
                            assert(with_parent.contains(t));
                        } else {
                            let m = resident@.index_of(t);
                            assert(resident@[m] == t);
                        }
                    }
                    if out@.contains(t) {
                        if with_parent.contains(t) {
                            if before.contains(t) {
                                let k = choose|k: int|
                                    0 <= k < i && !resident@.contains(visible@[k])
                                        && #[trigger] stands_in_for(resident@, t, visible@[k]);
                                assert(stands_in_for(resident@, t, visible@[k]));
                            } else {
                                assert(stands_in_for(resident@, t, visible@[i as int]));
                            }
                        } else {
                            assert(stands_in_for(resident@, t, visible@[i as int]));
                        }
                    }
                }
            }
        }
        i = i + 1;
    }
    let ghost fallback = out@;
    let ghost keep = |id: TileId| resident@.contains(id);
    let mut i: usize = 0;
    while i < visible.len()
        invariant
            i <= visible.len(),
            keep == (|id: TileId| resident@.contains(id)),
            out@ == fallback + visible@.take(i as int).filter(keep),
        decreases visible.len() - i,
    {
        proof {
            assert(visible@.take(i + 1) =~= visible@.take(i as int).push(visible@[i as int]));
            assert(visible@.take(i + 1).drop_last() =~= visible@.take(i as int));
            reveal_with_fuel(Seq::filter, 2);
        }
        if has_id(resident, visible[i]) {
            out.push(visible[i]);
        }
        assert(out@ =~= fallback + visible@.take(i + 1).filter(keep));
        i = i + 1;
    }
    proof {
        assert(visible@.take(visible@.len() as int) =~= visible@);
        assert(fallback + visible@.filter(keep) == out@);
        assert(is_draw_list(visible@, resident@, fallback, out@));
    }
    out
}

/// `r` is the ordered list of fallbacks `fallback`, followed by the visible tiles that are
/// resident, in the order they were asked for.
pub open spec fn is_draw_list(
    visible: Seq<TileId>,
    resident: Seq<TileId>,
    fallback: Seq<TileId>,
    r: Seq<TileId>,
) -> bool {
    &&& in_draw_order(fallback)
    &&& forall|t: TileId|
        #[trigger] fallback.contains(t) <==> is_fallback(
            visible,
            resident,
            visible.len() as int,
            t,
        )
    &&& r == fallback + visible.filter(|id: TileId| resident.contains(id))
}

/// What [`vector_draw_tiles`] returns.
pub open spec fn draws_vector_tiles(
    visible: Seq<TileId>,
    resident: Seq<TileId>,
    r: Seq<TileId>,
) -> bool {
    exists|fallback: Seq<TileId>| #[trigger] is_draw_list(visible, resident, fallback, r)
}

/// Everything that is drawn is in the cache.
pub proof fn only_resident_tiles_are_drawn(
    visible: Seq<TileId>,
    resident: Seq<TileId>,
    r: Seq<TileId>,
    t: TileId,
)
    requires
        draws_vector_tiles(visible, resident, r),
        r.contains(t),
    ensures
        resident.contains(t),
{
    let fallback = choose|fallback: Seq<TileId>|
        #[trigger] is_draw_list(visible, resident, fallback, r);
    let keep = |id: TileId| resident.contains(id);
    let i = r.index_of(t);
    if i < fallback.len() {
        assert(fallback[i] == t);
        assert(fallback.contains(t));
    } else {
        let shown = visible.filter(keep);
        assert(shown[i - fallback.len()] == t);
        assert(shown.contains(t));
        visible.lemma_filter_contains_rev(keep, t);
    }
}

/// Two ordered lists of the same tiles are the same list.
proof fn ordered_lists_agree(a: Seq<TileId>, b: Seq<TileId>)
    requires
        in_draw_order(a),
        in_draw_order(b),
        forall|t: TileId| a.contains(t) <==> b.contains(t),
    ensures
        a == b,
    decreases a.len(),
{
    if a.len() == 0 {
        if b.len() > 0 {
            assert(b.contains(b[0]));
        }
        assert(a =~= b);
    } else {
        assert(a.contains(a.last()));
        let j = b.index_of(a.last());
        assert(b.contains(b.last()));
        let k = a.index_of(b.last());
        if k < a.len() - 1 {
            assert(drawn_before(a[k], a.last()));
            if j < b.len() - 1 {
                assert(drawn_before(b[j], b.last()));
            }
        }
        assert(a.last() == b.last());
        let a1 = a.drop_last();
        let b1 = b.drop_last();
        assert forall|t: TileId| a1.contains(t) <==> b1.contains(t) by {
            if a1.contains(t) {
                let m = a1.index_of(t);
                assert(a[m] == t);
                assert(a.contains(t));
                assert(drawn_before(a[m], a.last()));
                let n = b.index_of(t);
                assert(b1[n] == t);
            }
            if b1.contains(t) {
                let m = b1.index_of(t);
                assert(b[m] == t);
                assert(b.contains(t));
                assert(drawn_before(b[m], b.last()));
                let n = a.index_of(t);
                assert(a1[n] == t);
            }
        }
        ordered_lists_agree(a1, b1);
        assert(a =~= a1.push(a.last()));
        assert(b =~= b1.push(b.last()));
    }
}

/// What is drawn depends on which tiles are cached, not on the order the cache lists them in.
pub proof fn cache_order_does_not_matter(
    visible: Seq<TileId>,
    resident: Seq<TileId>,
    shuffled: Seq<TileId>,
    r: Seq<TileId>,
    s: Seq<TileId>,
)
    requires
        forall|t: TileId| resident.contains(t) <==> shuffled.contains(t),
        draws_vector_tiles(visible, resident, r),
        draws_vector_tiles(visible, shuffled, s),
    ensures
        r == s,
{
    let f = choose|f: Seq<TileId>| #[trigger] is_draw_list(visible, resident, f, r);
    let g = choose|g: Seq<TileId>| #[trigger] is_draw_list(visible, shuffled, g, s);
    assert forall|t: TileId| f.contains(t) <==> g.contains(t) by {
        if f.contains(t) {
            let k = choose|k: int|
                0 <= k < visible.len() && !resident.contains(visible[k])
                    && #[trigger] stands_in_for(resident, t, visible[k]);
            assert(stands_in_for(shuffled, t, visible[k]));
        }
        if g.contains(t) {
            let k = choose|k: int|
                0 <= k < visible.len() && !shuffled.contains(visible[k])
                    && #[trigger] stands_in_for(shuffled, t, visible[k]);
            assert(stands_in_for(resident, t, visible[k]));
        }
    }
    ordered_lists_agree(f, g);
    assert((|id: TileId| resident.contains(id)) =~= (|id: TileId| shuffled.contains(id)));
}

/// Current detail wins: where every tile asked for is cached, exactly those are drawn.
pub proof fn complete_view_draws_itself(visible: Seq<TileId>, resident: Seq<TileId>, r: Seq<TileId>)
    requires
        forall|i: int| 0 <= i < visible.len() ==> resident.contains(#[trigger] visible[i]),
        draws_vector_tiles(visible, resident, r),
    ensures
        r == visible,
{
    let f = choose|f: Seq<TileId>| #[trigger] is_draw_list(visible, resident, f, r);
    if f.len() > 0 {
        assert(f.contains(f[0]));
        assert(is_fallback(visible, resident, visible.len() as int, f[0]));
    }
    let keep = |id: TileId| resident.contains(id);
    keeping_all_keeps_the_list(visible, keep);
    assert(r =~= visible);
}

proof fn keeping_all_keeps_the_list(ts: Seq<TileId>, keep: spec_fn(TileId) -> bool)
    requires
        forall|i: int| 0 <= i < ts.len() ==> keep(#[trigger] ts[i]),
    ensures
        ts.filter(keep) == ts,
    decreases ts.len(),
{
    reveal(Seq::filter);
    if ts.len() > 0 {
        assert forall|i: int| 0 <= i < ts.drop_last().len() implies keep(
            #[trigger] ts.drop_last()[i],
        ) by {
            assert(keep(ts[i]));
        }
        keeping_all_keeps_the_list(ts.drop_last(), keep);
        assert(keep(ts[ts.len() - 1]));
        assert(ts =~= ts.drop_last().push(ts.last()));
    } else {
        assert(ts.filter(keep) =~= ts);
    }
}

// ---------------------------------------------------------------------------------------------
// Raster tiles.

/// A part of a texture, in cells of an `of` × `of` grid: from `min` up to, not including, `max`.
#[derive(Clone, Copy, Debug, PartialEq, Eq)]
pub struct UvRect {
    pub min: (u32, u32),
    pub max: (u32, u32),
    pub of: u32,
}

/// Where tile `(x, y)` sits inside the ancestor `up` levels above it, in that ancestor's texture.
/// One level up it is one of four quadrants, two levels up one of sixteen, and so on.
pub open spec fn uv_in_ancestor(x: u32, y: u32, up: u8) -> UvRect {
    let of: u32 = 1u32 << (up as u32);
    UvRect {
        min: (x % of, y % of),
        max: ((x % of + 1) as u32, (y % of + 1) as u32),
        of,
    }
}

proof fn one_shifted(up: u32)
    requires
        up < 32,
    ensures
        1u32 << up > 0,
{
    assert(1u32 << up > 0) by (bit_vector)
        requires
            up < 32,
    ;
}

/// Where tile `(x, y)` sits inside the ancestor `up` levels above it.
pub fn ancestor_uv(x: u32, y: u32, up: u8) -> (r: UvRect)
    requires
        up < 32,
    ensures
        r == uv_in_ancestor(x, y, up),
        r.max.0 <= r.of,
        r.max.1 <= r.of,
{
    proof {
        one_shifted(up as u32);
    }
    let of: u32 = 1u32 << (up as u32);
    let fx: u32 = x % of;
    let fy: u32 = y % of;
    UvRect { min: (fx, fy), max: (fx + 1, fy + 1), of }
}

/// A tile's ground is exactly the cropped part of its ancestor: the ancestor's own place, scaled
/// down to the tile's level, plus the offset of the crop.
pub proof fn crop_is_the_tiles_own_ground(x: u32, y: u32, up: u8)
    requires
        up < 32,
    ensures
        x == (x >> (up as u32)) * uv_in_ancestor(x, y, up).of + uv_in_ancestor(x, y, up).min.0,
        y == (y >> (up as u32)) * uv_in_ancestor(x, y, up).of + uv_in_ancestor(x, y, up).min.1,
{
    let d = up as u32;
    one_shifted(d);
    shift_is_division(x, d);
    shift_is_division(y, d);
    let of: u32 = 1u32 << d;
    assert(x == (x / of) * of + x % of) by (nonlinear_arith)
        requires
            of > 0,
    ;
    assert(y == (y / of) * of + y % of) by (nonlinear_arith)
        requires
            of > 0,
    ;
}

proof fn shift_is_division(x: u32, d: u32)
    requires
        d < 32,
    ensures
        x >> d == x / (1u32 << d),
{
    assert(x >> d == x / (1u32 << d)) by (bit_vector)
        requires
            d < 32,
    ;
}

/// How a quad shows its texture.
#[derive(Clone, Copy, Debug, PartialEq, Eq)]
pub enum QuadPart {
    /// The whole texture on the whole tile.
    Whole,
    /// The whole texture on one quarter of the tile: column 0 or 1, row 0 or 1.
    Quarter(u32, u32),
    /// A part of the texture on the whole tile.
    Crop(UvRect),
}

/// One textured quad drawn for a visible tile.
#[derive(Clone, Copy, Debug, PartialEq, Eq)]
pub struct TileQuad {
    pub key: TileKey,
    pub part: QuadPart,
}

/// The tile one level below `id` in column `dx`, row `dy`.
pub open spec fn child_of(id: TileId, dx: u32, dy: u32) -> TileId {
    ((id.0 + 1) as u8, (id.1 * 2 + dx) as u32, (id.2 * 2 + dy) as u32)
}

/// The tile `up` levels above `id`.
pub open spec fn ancestor_id(id: TileId, up: int) -> TileId {
    ((id.0 - up) as u8, id.1 >> (up as u32), id.2 >> (up as u32))
}

/// The quad for the child in column `dx`, row `dy`, if its texture is there.
pub open spec fn child_quad(tiles: Seq<TileKey>, style: u8, id: TileId, dx: u32, dy: u32) -> Seq<
    TileQuad,
> {
    let key = (style, child_of(id, dx, dy));
    if tiles.contains(key) {
        seq![TileQuad { key, part: QuadPart::Quarter(dx, dy) }]
    } else {
        Seq::empty()
    }
}

/// The quads of the resident children: top row left to right, then the bottom row.
pub open spec fn child_quads(tiles: Seq<TileKey>, style: u8, id: TileId) -> Seq<TileQuad> {
    child_quad(tiles, style, id, 0, 0) + child_quad(tiles, style, id, 1, 0) + child_quad(
        tiles,
        style,
        id,
        0,
        1,
    ) + child_quad(tiles, style, id, 1, 1)
}

/// The quad of the nearest resident ancestor, from `up` levels up to three.
pub open spec fn ancestor_quads(tiles: Seq<TileKey>, style: u8, id: TileId, up: int) -> Seq<TileQuad>
    decreases 4 - up,
{
    if up > 3 || up > id.0 {
        Seq::empty()
    } else if tiles.contains((style, ancestor_id(id, up))) {
        seq![
            TileQuad {
                key: (style, ancestor_id(id, up)),
                part: QuadPart::Crop(uv_in_ancestor(id.1, id.2, up as u8)),
            },
        ]
    } else {
        ancestor_quads(tiles, style, id, up + 1)
    }
}

/// What is drawn for one visible tile: its own texture; else its resident children; else its
/// nearest resident ancestor, cropped; else nothing.
pub open spec fn quads_for(tiles: Seq<TileKey>, style: u8, id: TileId) -> Seq<TileQuad> {
    if tiles.contains((style, id)) {
        seq![TileQuad { key: (style, id), part: QuadPart::Whole }]
    } else if child_quads(tiles, style, id).len() > 0 {
        child_quads(tiles, style, id)
    } else {
        ancestor_quads(tiles, style, id, 1)
    }
}

/// The children of the tile can be numbered.
pub open spec fn has_children(id: TileId) -> bool {
    id.0 < 255 && id.1 < 0x8000_0000 && id.2 < 0x8000_0000
}

/// Quads to draw for one visible tile: normally itself, but if its texture hasn't arrived,
/// whatever resident neighbours in the pyramid cover the same ground.
///
/// Children first (pinch-out: the level we came from is still resident and sharper), each covering
/// its quarter with the full texture. Otherwise the nearest resident ancestor, up to three levels
/// up, drawn once with the part this tile occupies. Without this the whole basemap blanks every
/// time the integer zoom level changes, even though the pixels to show are there.
pub fn tile_quads(tiles: &[TileKey], style: u8, id: TileId) -> (r: Vec<TileQuad>)
    requires
        tiles@.contains((style, id)) || has_children(id),
    ensures
        r@ == quads_for(tiles@, style, id),
{
    let mut out: Vec<TileQuad> = Vec::new();
    if has_key(tiles, (style, id)) {
        out.push(TileQuad { key: (style, id), part: QuadPart::Whole });
        assert(out@ =~= quads_for(tiles@, style, id));
        return out;
    }
    let mut n: u32 = 0;
    let ghost parts = seq![
        child_quad(tiles@, style, id, 0, 0),
        child_quad(tiles@, style, id, 1, 0),
        child_quad(tiles@, style, id, 0, 1),
        child_quad(tiles@, style, id, 1, 1),
    ];
    while n < 4
        invariant
            has_children(id),
            n <= 4,
            parts == seq![
                child_quad(tiles@, style, id, 0, 0),
                child_quad(tiles@, style, id, 1, 0),
                child_quad(tiles@, style, id, 0, 1),
                child_quad(tiles@, style, id, 1, 1),
            ],
            n == 0 ==> out@ == Seq::<TileQuad>::empty(),
            n == 1 ==> out@ == parts[0],
            n == 2 ==> out@ == parts[0] + parts[1],
            n == 3 ==> out@ == parts[0] + parts[1] + parts[2],
            n == 4 ==> out@ == parts[0] + parts[1] + parts[2] + parts[3],
        decreases 4 - n,
    {
        let dx: u32 = n % 2;
        let dy: u32 = n / 2;
        let key: TileKey = (style, (id.0 + 1, id.1 * 2 + dx, id.2 * 2 + dy));
        let ghost before = out@;
        if has_key(tiles, key) {
            out.push(TileQuad { key, part: QuadPart::Quarter(dx, dy) });
        }
        proof {
            assert(key.1 == child_of(id, dx, dy));
            assert(parts[n as int] == child_quad(tiles@, style, id, dx, dy));
            assert(out@ =~= before + parts[n as int]);
        }
        n = n + 1;
        assert(n == 1 ==> out@ =~= parts[0]);
    }
    assert(out@ == child_quads(tiles@, style, id));
    if out.len() > 0 {
        return out;
    }
    assert(out@ =~= Seq::<TileQuad>::empty());
    let mut up: u8 = 1;
    while up <= 3 && up <= id.0
        invariant
            1 <= up <= 4,
            out@ == Seq::<TileQuad>::empty(),
            !tiles@.contains((style, id)),
            child_quads(tiles@, style, id).len() == 0,
            quads_for(tiles@, style, id) == ancestor_quads(tiles@, style, id, up as int),
        decreases 4 - up,
    {
        let d: u32 = up as u32;
        let key: TileKey = (style, (id.0 - up, id.1 >> d, id.2 >> d));
        if has_key(tiles, key) {
            let uv = ancestor_uv(id.1, id.2, up);
            out.push(TileQuad { key, part: QuadPart::Crop(uv) });
            assert(out@ =~= quads_for(tiles@, style, id));
            return out;
        }
        up = up + 1;
    }
    out
}

/// The quads of the first `n` visible tiles, one tile after the other, each with the place of its
/// tile in the visible list.
pub open spec fn frame_quads(tiles: Seq<TileKey>, style: u8, visible: Seq<TileId>, n: nat) -> Seq<
    (usize, TileQuad),
>
    decreases n,
{
    if n == 0 {
        Seq::empty()
    } else {
        frame_quads(tiles, style, visible, (n - 1) as nat) + placed(
            (n - 1) as usize,
            quads_for(tiles, style, visible[n - 1]),
        )
    }
}

/// Each quad of `quads`, with the place `at`.
pub open spec fn placed(at: usize, quads: Seq<TileQuad>) -> Seq<(usize, TileQuad)> {
    quads.map_values(|q: TileQuad| (at, q))
}

/// The first `MAX_TILE_QUADS` of a list.
pub open spec fn capped(quads: Seq<(usize, TileQuad)>) -> Seq<(usize, TileQuad)> {
    if quads.len() <= MAX_TILE_QUADS {
        quads
    } else {
        quads.take(MAX_TILE_QUADS as int)
    }
}

/// The tile quads for a frame, in draw order: those of each visible tile in turn, cut off where
/// the vertex buffer is full. Each names the visible tile whose ground it covers by its place.
pub fn tile_verts(tiles: &[TileKey], style: u8, visible: &[TileId]) -> (r: Vec<(usize, TileQuad)>)
    requires
        forall|i: int|
            0 <= i < visible@.len() ==> tiles@.contains((style, #[trigger] visible@[i]))
                || has_children(visible@[i]),
    ensures
        r@ == capped(frame_quads(tiles@, style, visible@, visible@.len())),
{
    let mut out: Vec<(usize, TileQuad)> = Vec::new();
    let mut i: usize = 0;
    assert(out@ =~= frame_quads(tiles@, style, visible@, 0));
    while i < visible.len()
        invariant
            i <= visible.len(),
            forall|i: int|
                0 <= i < visible@.len() ==> tiles@.contains((style, #[trigger] visible@[i]))
                    || has_children(visible@[i]),
            out@ == capped(frame_quads(tiles@, style, visible@, i as nat)),
        decreases visible.len() - i,
    {
        let quads = tile_quads(tiles, style, visible[i]);
        let ghost all_before = frame_quads(tiles@, style, visible@, i as nat);
        let mut k: usize = 0;
        assert(all_before + placed(i, quads@.take(0)) =~= all_before);
        while k < quads.len()
            invariant
                k <= quads.len(),
                out@ == capped(all_before + placed(i, quads@.take(k as int))),
            decreases quads.len() - k,
        {
            proof {
                assert(all_before + placed(i, quads@.take(k + 1)) =~= (all_before + placed(
                    i,
                    quads@.take(k as int),
                )).push((i, quads@[k as int])));
            }
            if out.len() < MAX_TILE_QUADS {
                out.push((i, quads[k]));
                assert(out@ =~= capped(all_before + placed(i, quads@.take(k + 1))));
            } else {
                assert(out@ =~= capped(all_before + placed(i, quads@.take(k + 1))));
            }
            k = k + 1;
        }
        assert(quads@.take(quads.len() as int) =~= quads@);
        i = i + 1;
    }
    out
}

/// Only textures that are resident are drawn.
pub proof fn quads_use_resident_textures(tiles: Seq<TileKey>, style: u8, id: TileId, i: int)
    requires
        0 <= i < quads_for(tiles, style, id).len(),
    ensures
        tiles.contains(quads_for(tiles, style, id)[i].key),
{
    if !tiles.contains((style, id)) && child_quads(tiles, style, id).len() == 0 {
        ancestor_quads_resident(tiles, style, id, 1);
    }
}

proof fn ancestor_quads_resident(tiles: Seq<TileKey>, style: u8, id: TileId, up: int)
    requires
        1 <= up,
    ensures
        ancestor_quads(tiles, style, id, up).len() <= 1,
        forall|i: int|
            0 <= i < ancestor_quads(tiles, style, id, up).len() ==> tiles.contains(
                #[trigger] ancestor_quads(tiles, style, id, up)[i].key,
            ),
    decreases 4 - up,
{
    if up <= 3 && up <= id.0 && !tiles.contains((style, ancestor_id(id, up))) {
        ancestor_quads_resident(tiles, style, id, up + 1);
    }
}

/// A tile never blanks while something covering its ground within three levels is resident.
pub proof fn covered_ground_is_drawn(tiles: Seq<TileKey>, style: u8, id: TileId, up: int)
    requires
        1 <= up <= 3,
        up <= id.0,
        tiles.contains((style, ancestor_id(id, up))),
    ensures
        quads_for(tiles, style, id).len() > 0,
{
    ancestor_found(tiles, style, id, 1, up);
}

proof fn ancestor_found(tiles: Seq<TileKey>, style: u8, id: TileId, from: int, up: int)
    requires
        1 <= from <= up <= 3,
        up <= id.0,
        tiles.contains((style, ancestor_id(id, up))),
    ensures
        ancestor_quads(tiles, style, id, from).len() == 1,
    decreases up - from,
{
    if !tiles.contains((style, ancestor_id(id, from))) {
        ancestor_found(tiles, style, id, from + 1, up);
    }
}

// ---------------------------------------------------------------------------------------------
// What stands in for what.

/// The tile `t` lies in the ground of the coarser tile `a`, `up` levels above it.
pub open spec fn lies_in(t: TileId, a: TileId, up: nat) -> bool {
    &&& t.0 == a.0 + up
    &&& a.1 == t.1 as nat / pow2(up)
    &&& a.2 == t.2 as nat / pow2(up)
}

proof fn lemma_ancestor_is_ground(a: TileId, v: TileId)
    requires
        a.0 < v.0,
        v.0 < 32,
    ensures
        is_ancestor(a, v) <==> lies_in(v, a, (v.0 - a.0) as nat),
{
    let d: u32 = (v.0 - a.0) as u32;
    lemma_u32_shr_is_div(v.1, d);
    lemma_u32_shr_is_div(v.2, d);
}

proof fn lemma_small_shifts(x: u32, up: nat)
    requires
        1 <= up <= 3,
    ensures
        1u32 << (up as u32) == pow2(up),
        x >> (up as u32) == x as nat / pow2(up),
{
    lemma2_to64();
    lemma_u32_shr_is_div(x, up as u32);
    assert(1u32 << 1u32 == 2u32) by (bit_vector);
    assert(1u32 << 2u32 == 4u32) by (bit_vector);
    assert(1u32 << 3u32 == 8u32) by (bit_vector);
}

/// The quad shows the part of its texture that is the ground it lies on: a tile's own texture as a
/// whole; a child's texture on the quarter that the child covers; the cells of an ancestor's
/// texture, `up` levels above, that the tile covers there.
pub open spec fn shows_its_ground(q: TileQuad, id: TileId) -> bool {
    match q.part {
        QuadPart::Whole => q.key.1 == id,
        QuadPart::Quarter(c, r) => {
            &&& c <= 1
            &&& r <= 1
            &&& q.key.1.0 == id.0 + 1
            &&& q.key.1.1 == 2 * id.1 + c
            &&& q.key.1.2 == 2 * id.2 + r
        },
        QuadPart::Crop(uv) => {
            &&& 1 <= id.0 - q.key.1.0 <= 3
            &&& uv.of == pow2((id.0 - q.key.1.0) as nat)
            &&& uv.max == ((uv.min.0 + 1) as u32, (uv.min.1 + 1) as u32)
            &&& 0 <= uv.min.0 < uv.of
            &&& 0 <= uv.min.1 < uv.of
            &&& id.1 == q.key.1.1 * uv.of + uv.min.0
            &&& id.2 == q.key.1.2 * uv.of + uv.min.1
        },
    }
}

/// A texture is only drawn on its own ground, and only one of the style asked for.
pub proof fn quads_lie_on_their_own_ground(tiles: Seq<TileKey>, style: u8, id: TileId, i: int)
    requires
        id.0 < 255,
        id.1 < 0x8000_0000,
        id.2 < 0x8000_0000,
        0 <= i < quads_for(tiles, style, id).len(),
    ensures
        quads_for(tiles, style, id)[i].key.0 == style,
        shows_its_ground(quads_for(tiles, style, id)[i], id),
{
    if !tiles.contains((style, id)) && child_quads(tiles, style, id).len() == 0 {
        lemma_ancestor_quads(tiles, style, id, 1);
    }
}

/// The tile whose ground, `up` levels above, holds that of `id`.
pub open spec fn around(id: TileId, up: nat) -> TileId {
    (
        (id.0 - up) as u8,
        (id.1 as nat / pow2(up)) as u32,
        (id.2 as nat / pow2(up)) as u32,
    )
}

proof fn lemma_ancestor_quads(tiles: Seq<TileKey>, style: u8, id: TileId, up: int)
    requires
        1 <= up,
    ensures
        ancestor_quads(tiles, style, id, up).len() <= 1,
        ancestor_quads(tiles, style, id, up).len() == 1 ==> {
            let q = ancestor_quads(tiles, style, id, up)[0];
            let d = (id.0 - q.key.1.0) as nat;
            &&& q.key.0 == style
            &&& q.part is Crop
            &&& up <= d <= 3
            &&& q.key.1 == around(id, d)
            &&& shows_its_ground(q, id)
            &&& forall|u: nat| up <= u < d ==> !tiles.contains((style, #[trigger] around(id, u)))
        },
        ancestor_quads(tiles, style, id, up).len() == 0 ==> forall|u: nat|
            up <= u <= 3 && u <= id.0 ==> !tiles.contains((style, #[trigger] around(id, u))),
    decreases 4 - up,
{
    if up <= 3 && up <= id.0 {
        lemma_small_shifts(id.1, up as nat);
        lemma_small_shifts(id.2, up as nat);
        assert(around(id, up as nat) == ancestor_id(id, up));
        if tiles.contains((style, ancestor_id(id, up))) {
            crop_is_the_tiles_own_ground(id.1, id.2, up as u8);
            let q = ancestor_quads(tiles, style, id, up)[0];
            assert((id.0 - q.key.1.0) == up);
            let uv = uv_in_ancestor(id.1, id.2, up as u8);
            one_shifted(up as u32);
            assert(uv.min.0 < uv.of && uv.min.1 < uv.of);
            assert(uv.of == pow2(up as nat));
            assert(shows_its_ground(q, id));
        } else {
            lemma_ancestor_quads(tiles, style, id, up + 1);
        }
    }
}

/// A tile that is cached is drawn as itself and nothing else. Where it is not, every child that is
/// cached is drawn, and nothing but children; where no child is either, the nearest cached ancestor
/// within three levels; and nothing is drawn only where none of these is cached.
pub proof fn the_sharpest_cached_ground_is_drawn(tiles: Seq<TileKey>, style: u8, id: TileId)
    requires
        id.0 < 255,
        id.1 < 0x8000_0000,
        id.2 < 0x8000_0000,
    ensures
        ({
            let quads = quads_for(tiles, style, id);
            let child = |c: int, r: int|
                (style, ((id.0 + 1) as u8, (2 * id.1 + c) as u32, (2 * id.2 + r) as u32));
            &&& tiles.contains((style, id)) <==> quads.len() == 1 && quads[0].part is Whole
            &&& forall|c: int, r: int|
                0 <= c <= 1 && 0 <= r <= 1 && !tiles.contains((style, id)) && tiles.contains(
                    #[trigger] child(c, r),
                ) ==> (forall|i: int| 0 <= i < quads.len() ==> (#[trigger] quads[i]).part is Quarter)
                    && quads.contains(
                    TileQuad { key: child(c, r), part: QuadPart::Quarter(c as u32, r as u32) },
                )
            &&& forall|i: int, j: int|
                0 <= i < j < quads.len() ==> (#[trigger] quads[i]).key != (#[trigger] quads[j]).key
            &&& quads.len() > 0 && quads[0].part is Crop ==> quads.len() == 1 && forall|u: nat|
                1 <= u < id.0 - quads[0].key.1.0 ==> !tiles.contains((style, #[trigger] around(id, u)))
            &&& quads.len() == 0 ==> forall|u: nat|
                1 <= u <= 3 && u <= id.0 ==> !tiles.contains((style, #[trigger] around(id, u)))
        }),
{
    let quads = quads_for(tiles, style, id);
    let child = |c: int, r: int|
        (style, ((id.0 + 1) as u8, (2 * id.1 + c) as u32, (2 * id.2 + r) as u32));
    lemma_ancestor_quads(tiles, style, id, 1);
    let a = child_quad(tiles, style, id, 0, 0);
    let b = child_quad(tiles, style, id, 1, 0);
    let c = child_quad(tiles, style, id, 0, 1);
    let d = child_quad(tiles, style, id, 1, 1);
    assert(child_quads(tiles, style, id) == a + b + c + d);
    assert forall|x: int, r: int|
        0 <= x <= 1 && 0 <= r <= 1 && !tiles.contains((style, id)) && tiles.contains(
            #[trigger] child(x, r),
        ) implies (forall|i: int| 0 <= i < quads.len() ==> (#[trigger] quads[i]).part is Quarter)
        && quads.contains(
        TileQuad { key: child(x, r), part: QuadPart::Quarter(x as u32, r as u32) },
    ) by {
        let q = TileQuad { key: child(x, r), part: QuadPart::Quarter(x as u32, r as u32) };
        assert(child_quad(tiles, style, id, x as u32, r as u32) =~= seq![q]);
        if x == 0 && r == 0 {
            assert(quads[0] == q);
        } else if x == 1 && r == 0 {
            assert(quads[a.len() as int] == q);
        } else if x == 0 {
            assert(quads[(a.len() + b.len()) as int] == q);
        } else {
            assert(quads[(a.len() + b.len() + c.len()) as int] == q);
        }
    }
    if quads.len() > 0 && quads[0].part is Crop {
        assert(quads == ancestor_quads(tiles, style, id, 1));
    }
}

/// The quads of a frame come tile by tile, in the order the tiles were asked for: each names the
/// tile it was made for, none is left out, and none is made up. The vertex buffer takes the first
/// 512 of them.
pub proof fn frames_draw_every_tile(tiles: Seq<TileKey>, style: u8, visible: Seq<TileId>, n: nat)
    requires
        n <= visible.len() <= usize::MAX,
    ensures
        ({
            let all = frame_quads(tiles, style, visible, n);
            &&& forall|k: int|
                0 <= k < all.len() ==> (#[trigger] all[k]).0 < n && quads_for(
                    tiles,
                    style,
                    visible[all[k].0 as int],
                ).contains(all[k].1)
            &&& forall|i: int, q: TileQuad|
                0 <= i < n && #[trigger] quads_for(tiles, style, visible[i]).contains(q)
                    ==> all.contains((i as usize, q))
            &&& forall|k: int, l: int|
                0 <= k < l < all.len() ==> (#[trigger] all[k]).0 <= (#[trigger] all[l]).0
            &&& capped(all).len() == if all.len() < 512 {
                all.len()
            } else {
                512
            }
            &&& forall|k: int| 0 <= k < capped(all).len() ==> #[trigger] capped(all)[k] == all[k]
        }),
    decreases n,
{
    if n > 0 {
        let m = (n - 1) as nat;
        frames_draw_every_tile(tiles, style, visible, m);
        let rest = frame_quads(tiles, style, visible, m);
        let here = quads_for(tiles, style, visible[n - 1]);
        let more = placed((n - 1) as usize, here);
        let all = frame_quads(tiles, style, visible, n);
        assert(all == rest + more);
        assert forall|k: int| 0 <= k < all.len() implies (#[trigger] all[k]).0 < n && quads_for(
            tiles,
            style,
            visible[all[k].0 as int],
        ).contains(all[k].1) by {
            if k < rest.len() {
                assert(all[k] == rest[k]);
            } else {
                assert(all[k] == more[k - rest.len()]);
                assert(here[k - rest.len()] == all[k].1);
            }
        }
        assert forall|i: int, q: TileQuad|
            0 <= i < n && #[trigger] quads_for(tiles, style, visible[i]).contains(
                q,
            ) implies all.contains((i as usize, q)) by {
            if i < m {
                let k = rest.index_of((i as usize, q));
                assert(all[k] == (i as usize, q));
            } else {
                let k = here.index_of(q);
                assert(more[k] == (i as usize, q));
                assert(all[rest.len() + k] == (i as usize, q));
            }
        }
        assert forall|k: int, l: int| 0 <= k < l < all.len() implies (#[trigger] all[k]).0 <= (
        #[trigger] all[l]).0 by {
            if l < rest.len() {
                assert(all[k] == rest[k] && all[l] == rest[l]);
            } else if k < rest.len() {
                assert(all[k] == rest[k] && all[l] == more[l - rest.len()]);
            } else {
                assert(all[k] == more[k - rest.len()] && all[l] == more[l - rest.len()]);
            }
        }
    }
}

/// Zoom levels that the shifts of this module are made for.
pub open spec fn levels_fit(ts: Seq<TileId>) -> bool {
    forall|i: int| 0 <= i < ts.len() ==> (#[trigger] ts[i]).0 < 32
}

/// Ground that is asked for and missing is stood in for by all that is cached inside it.
pub proof fn cached_detail_stands_in(
    visible: Seq<TileId>,
    resident: Seq<TileId>,
    r: Seq<TileId>,
    i: int,
    t: TileId,
    up: nat,
)
    requires
        draws_vector_tiles(visible, resident, r),
        levels_fit(resident),
        0 <= i < visible.len(),
        !resident.contains(visible[i]),
        resident.contains(t),
        up >= 1,
        lies_in(t, visible[i], up),
    ensures
        r.contains(t),
{
    let f = choose|f: Seq<TileId>| #[trigger] is_draw_list(visible, resident, f, r);
    assert(resident[resident.index_of(t)].0 < 32);
    lemma_ancestor_is_ground(visible[i], t);
    assert(stands_in_for(resident, t, visible[i]));
    assert(f.contains(t));
    assert(r[f.index_of(t)] == t);
}

/// Ground that is asked for and missing is stood in for by the nearest cached tile around it.
pub proof fn the_nearest_ground_stands_in(
    visible: Seq<TileId>,
    resident: Seq<TileId>,
    r: Seq<TileId>,
    i: int,
    a: TileId,
    up: nat,
)
    requires
        draws_vector_tiles(visible, resident, r),
        levels_fit(visible),
        0 <= i < visible.len(),
        !resident.contains(visible[i]),
        resident.contains(a),
        up >= 1,
        lies_in(visible[i], a, up),
    ensures
        exists|b: TileId, down: nat|
            1 <= down <= up && r.contains(b) && resident.contains(b) && #[trigger] lies_in(
                visible[i],
                b,
                down,
            ),
{
    let f = choose|f: Seq<TileId>| #[trigger] is_draw_list(visible, resident, f, r);
    lemma_ancestor_is_ground(a, visible[i]);
    let b = lemma_some_nearest(resident, visible[i], a);
    assert(stands_in_for(resident, b, visible[i]));
    assert(f.contains(b));
    assert(r[f.index_of(b)] == b);
    lemma_ancestor_is_ground(b, visible[i]);
    assert(lies_in(visible[i], b, (visible[i].0 - b.0) as nat));
}

/// One of the two tiles lies in the ground of the other, `up` levels above it.
pub open spec fn share_ground(a: TileId, b: TileId, up: nat) -> bool {
    up >= 1 && (lies_in(a, b, up) || lies_in(b, a, up))
}

/// Nothing is drawn but the tiles asked for and tiles on ground that is asked for and missing.
pub proof fn nothing_else_is_drawn(
    visible: Seq<TileId>,
    resident: Seq<TileId>,
    r: Seq<TileId>,
    t: TileId,
)
    requires
        draws_vector_tiles(visible, resident, r),
        levels_fit(visible),
        levels_fit(resident),
        r.contains(t),
    ensures
        visible.contains(t) || exists|i: int, up: nat|
            0 <= i < visible.len() && !resident.contains(visible[i]) && #[trigger] share_ground(
                t,
                visible[i],
                up,
            ),
{
    let f = choose|f: Seq<TileId>| #[trigger] is_draw_list(visible, resident, f, r);
    let keep = |id: TileId| resident.contains(id);
    let shown = visible.filter(keep);
    assert(r == f + shown);
    let k = r.index_of(t);
    if k < f.len() {
        assert(f[k] == t);
        assert(f.contains(t));
        let i = choose|i: int|
            0 <= i < visible.len() && !resident.contains(visible[i]) && #[trigger] stands_in_for(
                resident,
                t,
                visible[i],
            );
        assert(resident[resident.index_of(t)].0 < 32);
        if is_ancestor(t, visible[i]) {
            lemma_ancestor_is_ground(t, visible[i]);
            let up = (visible[i].0 - t.0) as nat;
            assert(share_ground(t, visible[i], up));
        } else {
            lemma_ancestor_is_ground(visible[i], t);
            let up = (t.0 - visible[i].0) as nat;
            assert(share_ground(t, visible[i], up));
        }
    } else {
        assert(shown[k - f.len()] == t);
        assert(shown.contains(t));
        visible.lemma_filter_contains_rev(keep, t);
        assert(visible.contains(t));
    }
}

/// The stand-ins are drawn first, coarse before fine and each once; over them come the tiles asked
/// for that are cached, in the order they were asked for.
pub proof fn detail_is_drawn_over_stand_ins(
    visible: Seq<TileId>,
    resident: Seq<TileId>,
    r: Seq<TileId>,
) -> (n: int)
    requires
        draws_vector_tiles(visible, resident, r),
    ensures
        0 <= n <= r.len(),
        r.skip(n) == visible.filter(|t: TileId| resident.contains(t)),
        forall|i: int, j: int|
            0 <= i < j < n ==> (#[trigger] r[i]).0 <= (#[trigger] r[j]).0 && r[i] != r[j],
{
    let f = choose|f: Seq<TileId>| #[trigger] is_draw_list(visible, resident, f, r);
    let n = f.len() as int;
    assert(r.skip(n) =~= visible.filter(|t: TileId| resident.contains(t)));
    assert forall|i: int, j: int| 0 <= i < j < n implies (#[trigger] r[i]).0 <= (
    #[trigger] r[j]).0 && r[i] != r[j] by {
        assert(drawn_before(f[i], f[j]));
    }
    n
}

/// Of the cached ancestors of a tile one is the finest.
proof fn lemma_some_nearest(resident: Seq<TileId>, v: TileId, a: TileId) -> (b: TileId)
    requires
        resident.contains(a),
        is_ancestor(a, v),
    ensures
        is_nearest_ancestor(resident, b, v),
        b.0 >= a.0,
    decreases v.0 - a.0,
{
    if is_nearest_ancestor(resident, a, v) {
        a
    } else {
        let c = choose|c: TileId| resident.contains(c) && is_ancestor(c, v) && c.0 > a.0;
        lemma_some_nearest(resident, v, c)
    }
}

} // verus!

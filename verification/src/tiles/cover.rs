//! Which tiles a view, or a pack for later, needs.

use crate::render::TileId;
use vstd::arithmetic::power2::pow2;
use vstd::prelude::*;

verus! {

/// The most tiles by which a pitched view is extended on each side.
pub const MAX_EXTRA_TILES: i64 = 24;

/// Tile columns and rows: from `x0` and `y0` up to, not including, `x1` and `y1`. Columns are not
/// wrapped around the world here.
#[derive(Clone, Copy, Debug, PartialEq, Eq, Structural)]
pub struct TileBox {
    pub x0: i64,
    pub x1: i64,
    pub y0: i64,
    pub y1: i64,
}

/// A tile of a view: its id, and the column and row whose ground it covers. The column is not
/// wrapped, so tiles lie side by side across the antimeridian within one view.
#[derive(Clone, Copy, Debug, PartialEq, Eq)]
pub struct CoverTile {
    pub id: TileId,
    pub x: i64,
    pub y: i64,
}

/// How far out a column or a row may lie for the arithmetic on it to be defined.
pub const MAX_COORD: i64 = 0x1000_0000_0000_0000;

impl TileBox {
    pub open spec fn in_range(self) -> bool {
        &&& -MAX_COORD <= self.x0 <= MAX_COORD
        &&& -MAX_COORD <= self.x1 <= MAX_COORD
        &&& -MAX_COORD <= self.y0 <= MAX_COORD
        &&& -MAX_COORD <= self.y1 <= MAX_COORD
    }
}

pub open spec fn min(a: int, b: int) -> int {
    if a <= b {
        a
    } else {
        b
    }
}

pub open spec fn max(a: int, b: int) -> int {
    if a >= b {
        a
    } else {
        b
    }
}

/// A box as whole numbers.
pub struct BoxInts {
    pub x0: int,
    pub x1: int,
    pub y0: int,
    pub y1: int,
}

impl TileBox {
    pub open spec fn ints(self) -> BoxInts {
        BoxInts { x0: self.x0 as int, x1: self.x1 as int, y0: self.y0 as int, y1: self.y1 as int }
    }
}

/// `b` extended to the tile under a corner of the screen, by at most the margin around the flat
/// view `flat`.
pub open spec fn extended(b: BoxInts, flat: BoxInts, corner: (int, int)) -> BoxInts {
    BoxInts {
        x0: min(b.x0, max(corner.0, flat.x0 - MAX_EXTRA_TILES)),
        x1: max(b.x1, min(corner.0 + 1, flat.x1 + MAX_EXTRA_TILES)),
        y0: min(b.y0, max(corner.1, flat.y0 - MAX_EXTRA_TILES)),
        y1: max(b.y1, min(corner.1 + 1, flat.y1 + MAX_EXTRA_TILES)),
    }
}

/// The flat view, extended to each corner whose ray meets the ground.
pub open spec fn extended_to(flat: BoxInts, corners: Seq<(i64, i64)>) -> BoxInts
    decreases corners.len(),
{
    if corners.len() == 0 {
        flat
    } else {
        extended(
            extended_to(flat, corners.drop_last()),
            flat,
            (corners.last().0 as int, corners.last().1 as int),
        )
    }
}

/// At most one full wrap around a world of `n` columns: beyond that, tiles would simply repeat.
pub open spec fn one_wrap(b: BoxInts, n: int) -> BoxInts {
    if b.x1 - b.x0 > n {
        let sum = b.x0 + b.x1;
        let mid = if sum >= 0 {
            sum / 2
        } else {
            -((-sum) / 2)
        };
        BoxInts { x0: mid - n / 2, x1: mid - n / 2 + n, ..b }
    } else {
        b
    }
}

/// The columns and rows that are covered: the flat view, for a pitched camera extended toward the
/// horizon, and never a row beyond the world.
pub open spec fn covered(flat: BoxInts, pitched: Option<Seq<(i64, i64)>>, n: int) -> BoxInts {
    let b = match pitched {
        Some(corners) => one_wrap(extended_to(flat, corners), n),
        None => flat,
    };
    BoxInts { y0: max(b.y0, 0), y1: min(b.y1, n), ..b }
}

/// How many columns, or rows, the world has at zoom `z`.
pub open spec fn columns(z: u8) -> int {
    (1u32 << (z as u32)) as int
}

/// The tile of column `x` and row `y`.
pub open spec fn cover_tile(z: u8, x: int, y: int) -> CoverTile {
    CoverTile { id: (z, (x % columns(z)) as u32, y as u32), x: x as i64, y: y as i64 }
}

/// The tiles of row `y`, west to east.
pub open spec fn cover_row(z: u8, x0: int, x1: int, y: int) -> Seq<CoverTile> {
    Seq::new(
        (if x1 > x0 {
            x1 - x0
        } else {
            0
        }) as nat,
        |k: int| cover_tile(z, x0 + k, y),
    )
}

/// The tiles of the rows from `y0` up to, not including, `y1`, north to south.
pub open spec fn cover_rows(z: u8, x0: int, x1: int, y0: int, y1: int) -> Seq<CoverTile>
    decreases y1 - y0,
{
    if y1 <= y0 {
        Seq::empty()
    } else {
        cover_rows(z, x0, x1, y0, y1 - 1) + cover_row(z, x0, x1, y1 - 1)
    }
}

fn columns_at(z: u8) -> (n: i64)
    requires
        z < 32,
    ensures
        n == columns(z),
        1 <= n <= 0x8000_0000,
{
    let d: u32 = z as u32;
    proof {
        assert(1u32 << d >= 1 && 1u32 << d <= 0x8000_0000) by (bit_vector)
            requires
                d < 32,
        ;
    }
    (1u32 << d) as i64
}

fn push_rows(out: &mut Vec<CoverTile>, z: u8, x0: i64, x1: i64, y0: i64, y1: i64)
    requires
        z < 32,
        0 <= y0,
        y1 <= columns(z),
        x1 < i64::MAX,
    ensures
        final(out)@ == old(out)@ + cover_rows(z, x0 as int, x1 as int, y0 as int, y1 as int),
{
    let n: i64 = columns_at(z);
    let ghost before = out@;
    let mut y: i64 = y0;
    assert(out@ =~= before + cover_rows(z, x0 as int, x1 as int, y0 as int, y as int));
    while y < y1
        invariant
            z < 32,
            n == columns(z),
            1 <= n <= 0x8000_0000,
            0 <= y0 <= y,
            y <= y1 || y == y0,
            y1 <= n,
            x1 < i64::MAX,
            out@ == before + cover_rows(z, x0 as int, x1 as int, y0 as int, y as int),
        decreases y1 - y,
    {
        let ghost rows = out@;
        let mut x: i64 = x0;
        assert(out@ =~= rows + cover_row(z, x0 as int, x as int, y as int));
        while x < x1
            invariant
                z < 32,
                n == columns(z),
                1 <= n <= 0x8000_0000,
                0 <= y < n,
                x0 <= x,
                x <= x1 || x == x0,
                x1 < i64::MAX,
                out@ == rows + cover_row(z, x0 as int, x as int, y as int),
            decreases x1 - x,
        {
            let wrapped: i64 = x.checked_rem_euclid(n).unwrap();
            out.push(CoverTile { id: (z, wrapped as u32, y as u32), x, y });
            x = x + 1;
            assert(out@ =~= rows + cover_row(z, x0 as int, x as int, y as int));
        }
        assert(cover_row(z, x0 as int, x as int, y as int) =~= cover_row(
            z,
            x0 as int,
            x1 as int,
            y as int,
        ));
        y = y + 1;
        assert(out@ =~= before + cover_rows(z, x0 as int, x1 as int, y0 as int, y as int));
    }
}

fn lesser(a: i64, b: i64) -> (r: i64)
    ensures
        r == min(a as int, b as int),
{
    if a <= b {
        a
    } else {
        b
    }
}

fn greater(a: i64, b: i64) -> (r: i64)
    ensures
        r == max(a as int, b as int),
{
    if a >= b {
        a
    } else {
        b
    }
}

/// The tiles at zoom `z` that cover a view, row by row. `flat` is the box of a camera looking
/// straight down; a pitched camera's ground footprint reaches further toward the horizon, so it
/// comes with the tiles under those corners of the screen whose rays meet the ground.
///
/// The extension is bounded by a fixed number of tiles, not by scaling the view: a near-horizon
/// ray's ground distance grows without bound, and zoomed out the world itself is only a few tiles
/// wide.
pub fn tile_cover(z: u8, flat: TileBox, pitched: Option<Vec<(i64, i64)>>) -> (r: Vec<CoverTile>)
    requires
        z < 32,
        flat.in_range(),
        pitched matches Some(cs) ==> forall|i: int|
            0 <= i < cs@.len() ==> -MAX_COORD <= (#[trigger] cs@[i]).0 <= MAX_COORD && -MAX_COORD
                <= cs@[i].1 <= MAX_COORD,
    ensures
        ({
            let b = covered(
                flat.ints(),
                match pitched {
                    Some(cs) => Some(cs@),
                    None => None,
                },
                columns(z),
            );
            r@ == cover_rows(z, b.x0, b.x1, b.y0, b.y1)
        }),
{
    let n: i64 = columns_at(z);
    let mut b = flat;
    if let Some(corners) = &pitched {
        let mut i: usize = 0;
        assert(corners@.take(0) =~= Seq::<(i64, i64)>::empty());
        while i < corners.len()
            invariant
                i <= corners.len(),
                flat.in_range(),
                forall|i: int|
                    0 <= i < corners@.len() ==> -MAX_COORD <= (#[trigger] corners@[i]).0
                        <= MAX_COORD && -MAX_COORD <= corners@[i].1 <= MAX_COORD,
                b.ints() == extended_to(flat.ints(), corners@.take(i as int)),
                flat.x0 - 24 <= b.x0 <= flat.x0,
                flat.x1 <= b.x1 <= flat.x1 + 24,
                flat.y0 - 24 <= b.y0 <= flat.y0,
                flat.y1 <= b.y1 <= flat.y1 + 24,
            decreases corners.len() - i,
        {
            let (tx, ty) = corners[i];
            proof {
                assert(corners@.take(i + 1).drop_last() =~= corners@.take(i as int));
                assert(corners@.take(i + 1).last() == corners@[i as int]);
            }
            b = TileBox {
                x0: lesser(b.x0, greater(tx, flat.x0 - MAX_EXTRA_TILES)),
                x1: greater(b.x1, lesser(tx + 1, flat.x1 + MAX_EXTRA_TILES)),
                y0: lesser(b.y0, greater(ty, flat.y0 - MAX_EXTRA_TILES)),
                y1: greater(b.y1, lesser(ty + 1, flat.y1 + MAX_EXTRA_TILES)),
            };
            i = i + 1;
        }
        assert(corners@.take(corners.len() as int) =~= corners@);
        if b.x1 - b.x0 > n {
            let sum: i64 = b.x0 + b.x1;
            let mid: i64 = if sum >= 0 {
                sum / 2
            } else {
                -((-sum) / 2)
            };
            b = TileBox { x0: mid - n / 2, x1: mid - n / 2 + n, y0: b.y0, y1: b.y1 };
        }
    }
    let y0 = greater(b.y0, 0);
    let y1 = lesser(b.y1, n);
    let mut out: Vec<CoverTile> = Vec::new();
    push_rows(&mut out, z, b.x0, b.x1, y0, y1);
    assert(out@ =~= cover_rows(z, b.x0 as int, b.x1 as int, y0 as int, y1 as int));
    out
}

proof fn lemma_extended_bounds(flat: BoxInts, corners: Seq<(i64, i64)>)
    ensures
        ({
            let b = extended_to(flat, corners);
            &&& flat.x0 - 24 <= b.x0 <= flat.x0
            &&& flat.x1 <= b.x1 <= flat.x1 + 24
            &&& flat.y0 - 24 <= b.y0 <= flat.y0
            &&& flat.y1 <= b.y1 <= flat.y1 + 24
        }),
    decreases corners.len(),
{
    if corners.len() > 0 {
        lemma_extended_bounds(flat, corners.drop_last());
    }
}

proof fn lemma_rows_len(z: u8, x0: int, x1: int, y0: int, y1: int)
    requires
        x0 <= x1,
        y0 <= y1,
    ensures
        cover_rows(z, x0, x1, y0, y1).len() == (x1 - x0) * (y1 - y0),
    decreases y1 - y0,
{
    if y0 < y1 {
        lemma_rows_len(z, x0, x1, y0, y1 - 1);
        assert((x1 - x0) * (y1 - y0) == (x1 - x0) * (y1 - 1 - y0) + (x1 - x0)) by (nonlinear_arith);
    } else {
        assert((x1 - x0) * (y1 - y0) == 0) by (nonlinear_arith)
            requires
                y0 == y1,
        ;
    }
}

/// A pitched view never asks for more than the whole world once, however far its rays reach.
pub proof fn pitched_cover_is_bounded(flat: BoxInts, corners: Seq<(i64, i64)>, z: u8)
    requires
        z < 32,
        flat.x0 <= flat.x1,
        flat.y0 <= flat.y1,
    ensures
        ({
            let n = columns(z);
            let b = covered(flat, Some(corners), n);
            &&& b.x1 - b.x0 <= n
            &&& cover_rows(z, b.x0, b.x1, b.y0, b.y1).len() <= n * n
        }),
{
    let n = columns(z);
    let d = z as u32;
    assert(1u32 << d >= 1) by (bit_vector)
        requires
            d < 32,
    ;
    lemma_extended_bounds(flat, corners);
    let b = covered(flat, Some(corners), n);
    if b.y0 < b.y1 {
        lemma_rows_len(z, b.x0, b.x1, b.y0, b.y1);
        assert((b.x1 - b.x0) * (b.y1 - b.y0) <= n * n) by (nonlinear_arith)
            requires
                0 <= b.x1 - b.x0 <= n,
                0 <= b.y1 - b.y0 <= n,
        ;
    } else {
        assert(n * n >= 0) by (nonlinear_arith);
    }
}

/// A pitched view covers all that the flat view of the same camera does, where that is no wider
/// than the world.
pub proof fn pitched_cover_holds_the_flat(flat: BoxInts, corners: Seq<(i64, i64)>, n: int)
    requires
        flat.x0 <= flat.x1,
        extended_to(flat, corners).x1 - extended_to(flat, corners).x0 <= n,
    ensures
        ({
            let f = covered(flat, None, n);
            let p = covered(flat, Some(corners), n);
            &&& p.x0 <= f.x0
            &&& f.x1 <= p.x1
            &&& p.y0 <= f.y0
            &&& f.y1 <= p.y1
        }),
{
    lemma_extended_bounds(flat, corners);
}

// ---------------------------------------------------------------------------------------------
// Packs.

/// The deepest zoom a pack reaches.
pub const MAX_PACK_Z: u8 = 22;

/// The tiles of one level that cover the ground of a pack.
pub open spec fn level_box(b: TileBox, n: int) -> BoxInts {
    BoxInts { y0: max(b.y0 as int, 0), y1: min(b.y1 as int, n), ..b.ints() }
}

/// How many tiles one level of a pack has.
pub open spec fn level_count(b: TileBox, n: int) -> nat {
    let v = level_box(b, n);
    (max(v.x1 - v.x0, 0) * max(v.y1 - v.y0, 0)) as nat
}

/// How many tiles the levels of a pack from zoom `z` on have, up to the deepest that is packed.
pub open spec fn pack_count(z: int, levels: Seq<TileBox>) -> nat
    decreases levels.len(),
{
    if levels.len() == 0 {
        0
    } else {
        let top = z + levels.len() - 1;
        pack_count(z, levels.drop_last()) + if top <= MAX_PACK_Z {
            level_count(levels.last(), columns(top as u8))
        } else {
            0
        }
    }
}

/// The tiles of the levels of a pack from zoom `z` on.
pub open spec fn pack_cover(z: int, levels: Seq<TileBox>) -> Seq<CoverTile>
    decreases levels.len(),
{
    if levels.len() == 0 {
        Seq::empty()
    } else {
        let top = z + levels.len() - 1;
        pack_cover(z, levels.drop_last()) + if top <= MAX_PACK_Z {
            let v = level_box(levels.last(), columns(top as u8));
            cover_rows(top as u8, v.x0, v.x1, v.y0, v.y1)
        } else {
            Seq::empty()
        }
    }
}

/// Number of tiles a pack covers: `levels` holds the columns and rows of its ground at each zoom
/// from `z_lo` on. A junk depth counts no further than the deepest zoom that is packed.
pub fn pack_tile_count(z_lo: u8, levels: &Vec<TileBox>) -> (r: u64)
    requires
        z_lo as int + levels@.len() <= 255,
        forall|i: int| 0 <= i < levels@.len() ==> (#[trigger] levels@[i]).in_range(),
        pack_count(z_lo as int, levels@) <= u64::MAX,
    ensures
        r == pack_count(z_lo as int, levels@),
{
    let mut count: u64 = 0;
    let mut i: usize = 0;
    assert(levels@.take(0) =~= Seq::<TileBox>::empty());
    while i < levels.len()
        invariant
            i <= levels.len(),
            z_lo as int + levels@.len() <= 255,
            forall|i: int| 0 <= i < levels@.len() ==> (#[trigger] levels@[i]).in_range(),
            pack_count(z_lo as int, levels@) <= u64::MAX,
            count == pack_count(z_lo as int, levels@.take(i as int)),
        decreases levels.len() - i,
    {
        let z: u8 = z_lo + i as u8;
        let ghost next = levels@.take(i + 1);
        proof {
            assert(next.drop_last() =~= levels@.take(i as int));
            assert(next.last() == levels@[i as int]);
            lemma_pack_count_grows(z_lo as int, levels@, i + 1);
        }
        if z <= MAX_PACK_Z {
            let n: i64 = columns_at(z);
            let b = levels[i];
            let y0 = greater(b.y0, 0);
            let y1 = lesser(b.y1, n);
            let w: i64 = greater(b.x1 - b.x0, 0);
            let h: i64 = greater(y1 - y0, 0);
            proof {
                assert(level_count(b, n as int) == (w * h) as nat);
                assert(w * h >= 0) by (nonlinear_arith)
                    requires
                        w >= 0,
                        h >= 0,
                ;
            }
            count = count + w as u64 * h as u64;
        }
        i = i + 1;
    }
    assert(levels@.take(levels.len() as int) =~= levels@);
    count
}

proof fn lemma_pack_count_grows(z: int, levels: Seq<TileBox>, i: int)
    requires
        0 <= i <= levels.len(),
    ensures
        pack_count(z, levels.take(i)) <= pack_count(z, levels),
    decreases levels.len() - i,
{
    if i < levels.len() {
        lemma_pack_count_grows(z, levels, i + 1);
        assert(levels.take(i + 1).drop_last() =~= levels.take(i));
    } else {
        assert(levels.take(i) =~= levels);
    }
}

/// The tiles of a pack, level by level and row by row, with columns wrapped around the world.
pub fn pack_tile_ids(z_lo: u8, levels: &Vec<TileBox>) -> (r: Vec<CoverTile>)
    requires
        z_lo as int + levels@.len() <= 255,
        forall|i: int| 0 <= i < levels@.len() ==> (#[trigger] levels@[i]).in_range(),
    ensures
        r@ == pack_cover(z_lo as int, levels@),
{
    let mut out: Vec<CoverTile> = Vec::new();
    let mut i: usize = 0;
    assert(levels@.take(0) =~= Seq::<TileBox>::empty());
    while i < levels.len()
        invariant
            i <= levels.len(),
            z_lo as int + levels@.len() <= 255,
            forall|i: int| 0 <= i < levels@.len() ==> (#[trigger] levels@[i]).in_range(),
            out@ == pack_cover(z_lo as int, levels@.take(i as int)),
        decreases levels.len() - i,
    {
        let z: u8 = z_lo + i as u8;
        let ghost next = levels@.take(i + 1);
        proof {
            assert(next.drop_last() =~= levels@.take(i as int));
            assert(next.last() == levels@[i as int]);
        }
        let ghost before = out@;
        if z <= MAX_PACK_Z {
            let n: i64 = columns_at(z);
            let b = levels[i];
            let y0 = greater(b.y0, 0);
            let y1 = lesser(b.y1, n);
            push_rows(&mut out, z, b.x0, b.x1, y0, y1);
        }
        assert(out@ =~= pack_cover(z_lo as int, next));
        i = i + 1;
    }
    assert(levels@.take(levels.len() as int) =~= levels@);
    out
}

/// The count of a pack is the number of its tiles.
pub proof fn pack_count_is_its_tiles(z: int, levels: Seq<TileBox>)
    ensures
        pack_cover(z, levels).len() == pack_count(z, levels),
    decreases levels.len(),
{
    if levels.len() > 0 {
        pack_count_is_its_tiles(z, levels.drop_last());
        let top = z + levels.len() - 1;
        if top <= MAX_PACK_Z {
            let n = columns(top as u8);
            let v = level_box(levels.last(), n);
            lemma_level_len(top as u8, v);
        }
    }
}

proof fn lemma_level_len(z: u8, v: BoxInts)
    ensures
        cover_rows(z, v.x0, v.x1, v.y0, v.y1).len() == max(v.x1 - v.x0, 0) * max(v.y1 - v.y0, 0),
    decreases v.y1 - v.y0,
{
    if v.y1 <= v.y0 {
        assert(max(v.x1 - v.x0, 0) * 0 == 0);
    } else if v.x0 <= v.x1 {
        lemma_rows_len(z, v.x0, v.x1, v.y0, v.y1);
    } else {
        lemma_level_len(z, BoxInts { y1: v.y1 - 1, ..v });
        assert(0 * max(v.y1 - v.y0, 0) == 0);
        assert(0 * max(v.y1 - 1 - v.y0, 0) == 0);
    }
}

// ---------------------------------------------------------------------------------------------
// What a cover holds.

/// Every level has twice the columns of the one above it, and the topmost has one.
pub proof fn levels_double(z: u8)
    requires
        z < 32,
    ensures
        columns(z) == pow2(z as nat),
{
    vstd::bits::lemma_u32_pow2_no_overflow(z as nat);
    vstd::bits::lemma_u32_shl_is_mul(1, z as u32);
}

/// Every tile of the columns and rows that are covered is there once: the rows from north to south,
/// each from west to east. A column past the edge of the world is drawn where it lies and shows the
/// column that it repeats.
pub proof fn every_tile_is_covered(z: u8, x0: int, x1: int, y0: int, y1: int, x: int, y: int)
    requires
        z < 32,
        x0 <= x < x1,
        y0 <= y < y1,
        i64::MIN <= x <= i64::MAX,
        0 <= y < columns(z),
    ensures
        ({
            let r = cover_rows(z, x0, x1, y0, y1);
            let k = (y - y0) * (x1 - x0) + (x - x0);
            &&& r.len() == (x1 - x0) * (y1 - y0)
            &&& 0 <= k < r.len()
            &&& r[k].x == x && r[k].y == y
            &&& r[k].id.0 == z
            &&& r[k].id.1 == x % (pow2(z as nat) as int)
            &&& r[k].id.2 == y
        }),
    decreases y1,
{
    let w = x1 - x0;
    levels_double(z);
    vstd::bits::lemma_u32_pow2_no_overflow(z as nat);
    lemma_rows_len(z, x0, x1, y0, y1);
    lemma_rows_len(z, x0, x1, y0, y1 - 1);
    let r = cover_rows(z, x0, x1, y0, y1);
    let k = (y - y0) * w + (x - x0);
    assert(w * (y1 - y0) == w * (y1 - 1 - y0) + w) by (nonlinear_arith);
    if y == y1 - 1 {
        assert((y - y0) * w == w * (y1 - 1 - y0)) by (nonlinear_arith)
            requires
                y == y1 - 1,
        ;
        assert(r[k] == cover_row(z, x0, x1, y)[x - x0]);
        assert(r[k] == cover_tile(z, x, y));
        let n = columns(z);
        assert(0 <= x % n < n) by (nonlinear_arith)
            requires
                n > 0,
        ;
    } else {
        every_tile_is_covered(z, x0, x1, y0, y1 - 1, x, y);
        assert(r[k] == cover_rows(z, x0, x1, y0, y1 - 1)[k]);
    }
}

/// A pitched view reaches every corner that lies within twenty-four tiles of the flat one, and no
/// further; without corners, or with corners inside it, it is the flat one.
pub proof fn corners_are_reached(flat: BoxInts, corners: Seq<(i64, i64)>, i: int)
    requires
        0 <= i < corners.len(),
    ensures
        ({
            let b = extended_to(flat, corners);
            let (x, y) = corners[i];
            &&& flat.x0 - 24 <= x ==> b.x0 <= x
            &&& x + 1 <= flat.x1 + 24 ==> x + 1 <= b.x1
            &&& flat.y0 - 24 <= y ==> b.y0 <= y
            &&& y + 1 <= flat.y1 + 24 ==> y + 1 <= b.y1
            &&& flat.x0 - 24 <= b.x0 <= flat.x0 && flat.x1 <= b.x1 <= flat.x1 + 24
            &&& flat.y0 - 24 <= b.y0 <= flat.y0 && flat.y1 <= b.y1 <= flat.y1 + 24
        }),
    decreases corners.len(),
{
    lemma_extended_bounds(flat, corners);
    if i < corners.len() - 1 {
        corners_are_reached(flat, corners.drop_last(), i);
        assert(corners.drop_last()[i] == corners[i]);
    }
}

/// Corners that lie inside the flat view change nothing.
pub proof fn inner_corners_change_nothing(flat: BoxInts, corners: Seq<(i64, i64)>)
    requires
        forall|i: int|
            0 <= i < corners.len() ==> flat.x0 <= (#[trigger] corners[i]).0 < flat.x1 && flat.y0
                <= corners[i].1 < flat.y1,
    ensures
        extended_to(flat, corners) == flat,
    decreases corners.len(),
{
    if corners.len() > 0 {
        let front = corners.drop_last();
        assert forall|i: int| 0 <= i < front.len() implies flat.x0 <= (#[trigger] front[i]).0
            < flat.x1 && flat.y0 <= front[i].1 < flat.y1 by {
            assert(front[i] == corners[i]);
        }
        inner_corners_change_nothing(flat, front);
        assert(corners[corners.len() - 1] == corners.last());
    }
}

/// A view that is wider than the world is cut to one turn around its middle; any other keeps its
/// columns. No row beyond the world is covered, and every row within it stays.
pub proof fn the_world_is_covered_once(flat: BoxInts, corners: Seq<(i64, i64)>, n: int, y: int)
    requires
        n > 0,
        n % 2 == 0 || n == 1,
    ensures
        ({
            let e = extended_to(flat, corners);
            let b = covered(flat, Some(corners), n);
            &&& e.x1 - e.x0 <= n ==> b.x0 == e.x0 && b.x1 == e.x1
            &&& e.x1 - e.x0 > n ==> b.x1 - b.x0 == n && -2 <= (b.x0 + b.x1) - (e.x0 + e.x1) <= 2
            &&& (b.y0 <= y < b.y1) <==> (e.y0 <= y < e.y1 && 0 <= y < n)
        }),
        covered(flat, None, n).x0 == flat.x0,
        covered(flat, None, n).x1 == flat.x1,
        (covered(flat, None, n).y0 <= y < covered(flat, None, n).y1) <==> (flat.y0 <= y < flat.y1
            && 0 <= y < n),
{
}

/// A pack is its levels from the first on, each as deep as the next; what is deeper than the
/// twenty-second is left out.
pub proof fn packs_are_their_levels(z: int, a: Seq<TileBox>, b: Seq<TileBox>)
    requires
        z >= 0,
    ensures
        a.len() == 0 ==> pack_cover(z, a).len() == 0,
        a.len() == 1 && z > 22 ==> pack_cover(z, a).len() == 0,
        a.len() == 1 && z <= 22 ==> pack_cover(z, a) == cover_rows(
            z as u8,
            a[0].x0 as int,
            a[0].x1 as int,
            if a[0].y0 < 0 {
                0
            } else {
                a[0].y0 as int
            },
            if a[0].y1 > columns(z as u8) {
                columns(z as u8)
            } else {
                a[0].y1 as int
            },
        ),
        pack_cover(z, a + b) == pack_cover(z, a) + pack_cover(z + a.len(), b),
    decreases b.len(),
{
    if a.len() == 1 {
        assert(a.drop_last() =~= Seq::<TileBox>::empty());
        assert(pack_cover(z, a.drop_last()) =~= Seq::<CoverTile>::empty());
    }
    if b.len() == 0 {
        assert(a + b =~= a);
        assert(pack_cover(z, a + b) =~= pack_cover(z, a) + pack_cover(z + a.len(), b));
    } else {
        assert((a + b).drop_last() =~= a + b.drop_last());
        assert((a + b).last() == b.last());
        packs_are_their_levels(z, a, b.drop_last());
        assert(pack_cover(z, a + b) =~= pack_cover(z, a) + pack_cover(z + a.len(), b));
    }
}

} // verus!

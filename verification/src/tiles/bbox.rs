//! The ground a tile covers, in metres of the web mercator plane.
//!
//! Positions are binary64 numbers, kept here as whole multiples of 2^-57 m: every sum and product
//! is rounded to 53 significant bits, to the nearest and on a tie to even.

use crate::text;
use vstd::prelude::*;

verus! {

/// Two to the power `e`.
pub open spec fn two(e: nat) -> nat
    decreases e,
{
    if e == 0 {
        1
    } else {
        2 * two((e - 1) as nat)
    }
}

/// Half the side of the square that web mercator projects the world into, 20037508.342789244 m, in
/// units of 2^-28 m.
pub const HALF_28: u64 = 5_378_777_689_100_435;

/// How many of the low bits of `n` do not fit in 53 bits.
pub open spec fn excess(n: nat) -> nat
    decreases n,
{
    if n < 0x20_0000_0000_0000 {
        0
    } else {
        1 + excess(n / 2)
    }
}

/// `n / d` to the nearest whole number, and on a tie to the even one.
pub open spec fn nearest(n: nat, d: nat) -> nat
    recommends
        d > 0,
{
    let q = n / d;
    let r = n % d;
    if 2 * r > d || (2 * r == d && q % 2 == 1) {
        q + 1
    } else {
        q
    }
}

/// The number nearest to `n` that has at most 53 significant bits.
pub open spec fn round53(n: nat) -> nat {
    nearest(n, two(excess(n))) * two(excess(n))
}

/// The same for a number with a sign.
pub open spec fn rounded(n: int) -> int {
    if n < 0 {
        -(round53((-n) as nat) as int)
    } else {
        round53(n as nat) as int
    }
}

/// The side of a tile at zoom `z`.
pub open spec fn span(z: u8) -> int {
    HALF_28 * two(
        (if z < 30 {
            30 - z
        } else {
            0
        }) as nat,
    )
}

/// Half the side of the world.
pub open spec fn half() -> int {
    HALF_28 * two(29)
}

/// The west edge of column `x`.
pub open spec fn west(z: u8, x: u32) -> int {
    rounded(-half() + rounded(x * span(z)))
}

/// The north edge of row `y`.
pub open spec fn north(z: u8, y: u32) -> int {
    rounded(half() - rounded(y * span(z)))
}

/// The edges of a tile, as `(min_x, min_y, max_x, max_y)`.
pub open spec fn tile_box(z: u8, x: u32, y: u32) -> (int, int, int, int) {
    (
        west(z, x),
        rounded(north(z, y) - span(z)),
        rounded(west(z, x) + span(z)),
        north(z, y),
    )
}

proof fn lemma_two_positive(e: nat)
    ensures
        two(e) > 0,
    decreases e,
{
    if e > 0 {
        lemma_two_positive((e - 1) as nat);
    }
}

proof fn lemma_two_adds(a: nat, b: nat)
    ensures
        two(a + b) == two(a) * two(b),
    decreases a,
{
    if a > 0 {
        lemma_two_adds((a - 1) as nat, b);
        assert((a + b - 1) as nat == ((a - 1) as nat) + b);
        assert(two(a + b) == 2 * two((a + b - 1) as nat));
        assert(2 * (two((a - 1) as nat) * two(b)) == (2 * two((a - 1) as nat)) * two(b))
            by (nonlinear_arith);
    } else {
        assert(two(0) * two(b) == two(b)) by (nonlinear_arith)
            requires
                two(0) == 1,
        ;
    }
}

proof fn lemma_two_values()
    ensures
        two(29) == 0x2000_0000,
        two(30) == 0x4000_0000,
        two(57) == 0x200_0000_0000_0000,
{
    reveal_with_fuel(two, 31);
    assert(two(29) == 0x2000_0000);
    assert(two(30) == 0x4000_0000);
    lemma_two_adds(30, 27);
    assert(two(27) == 0x800_0000);
}

/// Rounding to 53 bits changes a number by little.
pub(crate) proof fn lemma_round_bound(n: nat)
    ensures
        1024 * round53(n) <= 1025 * n,
{
    let e = excess(n);
    lemma_two_positive(e);
    lemma_excess_fits(n);
    let d = two(e);
    let q = n / d;
    assert(n == q * d + n % d) by (nonlinear_arith)
        requires
            d > 0,
            q == n / d,
    ;
    if e == 0 {
        assert(d == 1);
        assert(n / 1 == n && n % 1 == 0);
        assert(nearest(n, d) == n);
        assert(n * d == n);
    } else {
        assert(q >= 1024);
        assert(1024 * ((q + 1) * d) <= 1025 * (q * d)) by (nonlinear_arith)
            requires
                q >= 1024,
                d > 0,
        ;
        assert(q * d <= n);
        assert(nearest(n, d) * d <= (q + 1) * d) by (nonlinear_arith)
            requires
                nearest(n, d) <= q + 1,
                d > 0,
        ;
    }
}

/// What is left of a number that has bits to spare fills 53 bits.
proof fn lemma_excess_fits(n: nat)
    ensures
        n / two(excess(n)) < 0x20_0000_0000_0000,
        excess(n) > 0 ==> n / two(excess(n)) >= 0x10_0000_0000_0000,
        excess(n) > 0 ==> two(excess(n)) <= n,
    decreases n,
{
    if n >= 0x20_0000_0000_0000 {
        let m = n / 2;
        lemma_excess_fits(m);
        let e = excess(m);
        lemma_two_positive(e);
        let d = two(e);
        assert(two(excess(n)) == 2 * d);
        assert(n / (2 * d) == (n / 2) / d) by (nonlinear_arith)
            requires
                d > 0,
        ;
        if e == 0 {
            assert(d == 1);
            assert(m / 1 == m);
        } else {
            assert(2 * d <= n);
        }
    } else {
        assert(two(0) == 1);
        assert(n / 1 == n);
    }
}

/// The number nearest to `n` that has at most 53 significant bits.
pub(crate) fn round_up_to(n: u128) -> (r: u128)
    requires
        n < 0x8000_0000_0000_0000_0000_0000_0000_0000,
    ensures
        r == round53(n as nat),
{
    let mut m: u128 = n;
    let mut d: u128 = 1;
    let ghost mut e: nat = 0;
    assert(two(0) == 1);
    assert(n as nat / 1 == n as nat);
    while m >= 0x20_0000_0000_0000
        invariant
            n < 0x8000_0000_0000_0000_0000_0000_0000_0000,
            d == two(e),
            d > 0,
            m == n as nat / (d as nat),
            d <= n || d == 1,
            excess(n as nat) == e + excess(m as nat),
        decreases m,
    {
        proof {
            assert(n as nat / (2 * d as nat) == (n as nat / d as nat) / 2) by (nonlinear_arith)
                requires
                    d > 0,
            ;
            assert(m as nat * d as nat <= n as nat) by (nonlinear_arith)
                requires
                    d > 0,
                    m == n as nat / (d as nat),
            ;
            assert(2 * d <= n) by (nonlinear_arith)
                requires
                    m as nat * d as nat <= n as nat,
                    m >= 2,
            ;
        }
        m = m / 2;
        d = d * 2;
        proof {
            e = e + 1;
        }
    }
    let r: u128 = n % d;
    let up = r > d - r || (r == d - r && m % 2 == 1);
    proof {
        assert(excess(m as nat) == 0);
        assert(m as nat * d as nat + r == n) by (nonlinear_arith)
            requires
                d > 0,
                m == n as nat / (d as nat),
                r == n as nat % (d as nat),
        ;
        lemma_round_bound(n as nat);
        assert(nearest(n as nat, d as nat) == if up {
            (m + 1) as nat
        } else {
            m as nat
        });
        assert((m + 1) * d == m * d + d) by (nonlinear_arith);
    }
    if up {
        m * d + d
    } else {
        m * d
    }
}

fn round_signed(n: i128) -> (r: i128)
    requires
        -0x2000_0000_0000_0000_0000_0000_0000_0000 <= n <= 0x2000_0000_0000_0000_0000_0000_0000_0000,
    ensures
        r == rounded(n as int),
        n >= 0 ==> 0 <= 1024 * r <= 1025 * n,
        n < 0 ==> 1025 * n <= 1024 * r <= 0,
{
    if n < 0 {
        proof {
            lemma_round_bound((-n) as nat);
        }
        let m: i128 = -n;
        let r: u128 = round_up_to(m as u128);
        -(r as i128)
    } else {
        proof {
            lemma_round_bound(n as nat);
        }
        let r: u128 = round_up_to(n as u128);
        r as i128
    }
}

fn span_units(z: u8) -> (r: i128)
    ensures
        r == span(z),
        0 < r <= 0x8_0000_0000_0000_0000_0000,
{
    let mut e: u8 = if z < 30 {
        30 - z
    } else {
        0
    };
    let ghost all = e as nat;
    let mut p: i128 = 1;
    proof {
        lemma_two_values();
        lemma_two_adds(0, all);
    }
    while e > 0
        invariant
            e <= all <= 30,
            1 <= p,
            p * two(e as nat) == two(all),
            two(30) == 0x4000_0000,
        decreases e,
    {
        proof {
            let t = two((e - 1) as nat) as int;
            assert(two(e as nat) == 2 * two((e - 1) as nat));
            assert(p * (2 * t) == (p * 2) * t) by (nonlinear_arith);
            lemma_two_positive((e - 1) as nat);
            lemma_two_monotone(all, 30);
            assert(p * 2 <= (p * 2) * t) by (nonlinear_arith)
                requires
                    t >= 1,
                    p >= 1,
            ;
        }
        p = p * 2;
        e = e - 1;
    }
    proof {
        assert(two(0) == 1);
        assert(p * two(0) == p);
        lemma_two_monotone(all, 30);
        assert(p == two(all));
        assert(HALF_28 * p <= HALF_28 * 0x4000_0000) by (nonlinear_arith)
            requires
                p <= 0x4000_0000,
        ;
        assert(HALF_28 * p > 0) by (nonlinear_arith)
            requires
                p >= 1,
                HALF_28 > 0,
        ;
    }
    HALF_28 as i128 * p
}

proof fn lemma_two_monotone(a: nat, b: nat)
    requires
        a <= b,
    ensures
        two(a) <= two(b),
    decreases b,
{
    if a < b {
        lemma_two_monotone(a, (b - 1) as nat);
    }
}

/// Web-mercator metre bounds of tile `(z, x, y)`, as `(min_x, min_y, max_x, max_y)`, in multiples
/// of 2^-57 m.
pub fn tile_bbox_3857(z: u8, x: u32, y: u32) -> (r: (i128, i128, i128, i128))
    ensures
        (r.0 as int, r.1 as int, r.2 as int, r.3 as int) == tile_box(z, x, y),
        -MAX_UNITS <= r.0 <= MAX_UNITS,
        -MAX_UNITS <= r.1 <= MAX_UNITS,
        -MAX_UNITS <= r.2 <= MAX_UNITS,
        -MAX_UNITS <= r.3 <= MAX_UNITS,
{
    let span: i128 = span_units(z);
    proof {
        lemma_two_values();
        assert(x * span <= 0xffff_ffff * 0x8_0000_0000_0000_0000_0000) by (nonlinear_arith)
            requires
                0 <= x <= 0xffff_ffff,
                0 < span <= 0x8_0000_0000_0000_0000_0000,
        ;
        assert(y * span <= 0xffff_ffff * 0x8_0000_0000_0000_0000_0000) by (nonlinear_arith)
            requires
                0 <= y <= 0xffff_ffff,
                0 < span <= 0x8_0000_0000_0000_0000_0000,
        ;
        assert(x * span >= 0) by (nonlinear_arith)
            requires
                0 <= x,
                0 < span,
        ;
        assert(y * span >= 0) by (nonlinear_arith)
            requires
                0 <= y,
                0 < span,
        ;
    }
    let half: i128 = HALF_28 as i128 * 0x2000_0000;
    let min_x = round_signed(-half + round_signed(x as i128 * span));
    let max_y = round_signed(half - round_signed(y as i128 * span));
    let min_y = round_signed(max_y - span);
    let max_x = round_signed(min_x + span);
    (min_x, min_y, max_x, max_y)
}

/// No edge of a tile is further out than this.
pub const MAX_UNITS: i128 = 0x20_0000_0000_0000_0000_0000_0000_0000;

/// `m` in three digits.
pub open spec fn three_digits(m: int) -> Seq<char> {
    seq![
        text::digit_char(m / 100),
        text::digit_char((m / 10) % 10),
        text::digit_char(m % 10),
    ]
}

/// The whole number of millimetres nearest to `n` units, and on a tie the even one.
pub open spec fn millimetres(n: nat) -> nat {
    nearest(n * 1000, two(57))
}

/// `n` units in metres, with three decimals.
pub open spec fn metres_text(n: int) -> Seq<char> {
    let mm = millimetres(
        (if n < 0 {
            -n
        } else {
            n
        }) as nat,
    );
    (if n < 0 {
        seq!['-']
    } else {
        Seq::empty()
    }) + text::decimal_text(mm / 1000) + seq!['.'] + three_digits((mm % 1000) as int)
}

/// `n` units in metres, with three decimals.
pub fn metres(n: i128) -> (r: String)
    requires
        -MAX_UNITS <= n <= MAX_UNITS,
    ensures
        r@ == metres_text(n as int),
{
    proof {
        lemma_two_values();
    }
    let mut s = String::new();
    let m: u128 = if n < 0 {
        s.push('-');
        (-n) as u128
    } else {
        n as u128
    };
    assert(s@ =~= if n < 0 {
        seq!['-']
    } else {
        Seq::<char>::empty()
    });
    let d: u128 = 0x200_0000_0000_0000;
    let q: u128 = m * 1000 / d;
    let rem: u128 = m * 1000 % d;
    let mm: u128 = if rem > d - rem || (rem == d - rem && q % 2 == 1) {
        q + 1
    } else {
        q
    };
    assert(mm == millimetres(m as nat));
    let whole = text::decimal((mm / 1000) as u64);
    let low: u16 = (mm % 1000) as u16;
    s.append(whole.as_str());
    s.push('.');
    s.push(text::digit((low / 100) as u8));
    s.push(text::digit(((low / 10) % 10) as u8));
    s.push(text::digit((low % 10) as u8));
    assert(s@ =~= metres_text(n as int));
    s
}

proof fn lemma_round_error(n: nat)
    ensures
        -(n as int) <= (round53(n) - n) * 0x20_0000_0000_0000 <= n,
{
    let e = excess(n);
    lemma_two_positive(e);
    lemma_excess_fits(n);
    let d = two(e) as int;
    let q = (n / two(e)) as int;
    let r = (n % two(e)) as int;
    assert(n == q * d + r && 0 <= r < d) by (nonlinear_arith)
        requires
            d > 0,
            q == n as int / d,
            r == n as int % d,
    ;
    let m = nearest(n, two(e)) as int;
    if e == 0 {
        assert(two(e) == 1);
        assert(n / 1 == n && n % 1 == 0);
        assert(q == n && r == 0);
        assert(m * d == n);
    } else {
        assert(q * d * 0x10_0000_0000_0000 >= 0) by (nonlinear_arith)
            requires
                q >= 0,
                d > 0,
        ;
        assert(0x10_0000_0000_0000 * d <= q * d) by (nonlinear_arith)
            requires
                q >= 0x10_0000_0000_0000,
                d > 0,
        ;
        if m == q {
            assert(2 * r <= d);
            assert(m * d - n == -r);
        } else {
            assert(2 * r >= d);
            assert((q + 1) * d == q * d + d) by (nonlinear_arith);
            assert(m * d - n == d - r);
        }
    }
}

proof fn lemma_rounded_error(n: int)
    requires
        -0x10_0000_0000_0000_0000_0000 <= n <= 0x10_0000_0000_0000_0000_0000,
    ensures
        -0x8000_0000 <= rounded(n) - n <= 0x8000_0000,
{
    if n < 0 {
        lemma_round_error((-n) as nat);
    } else {
        lemma_round_error(n as nat);
    }
}

/// The columns, or rows, of a zoom level lie within the world.
proof fn lemma_within_world(z: u8, x: int)
    requires
        0 <= x <= two(
            (if z < 30 {
                z
            } else {
                30
            }) as nat,
        ),
    ensures
        0 <= x * span(z) <= 2 * half(),
        0 < span(z) <= 2 * half(),
        half() == HALF_28 * 0x2000_0000,
{
    lemma_two_values();
    let e: nat = (if z < 30 {
        z
    } else {
        30
    }) as nat;
    let f: nat = (30 - e) as nat;
    lemma_two_adds(e, f);
    lemma_two_positive(f);
    lemma_two_monotone(f, 30);
    let t = two(f) as int;
    let n = two(e) as int;
    assert(n * t == 0x4000_0000);
    assert(x * t <= n * t) by (nonlinear_arith)
        requires
            x <= n,
            t > 0,
    ;
    assert(0 <= x * t) by (nonlinear_arith)
        requires
            0 <= x,
            t > 0,
    ;
    assert(x * (HALF_28 * t) == HALF_28 * (x * t)) by (nonlinear_arith);
    assert(HALF_28 * t > 0) by (nonlinear_arith)
        requires
            t > 0,
            HALF_28 > 0,
    ;
}

/// Neighbours share an edge, so tiles neither overlap nor leave a seam: the east edge of a column
/// and the west edge of the next differ by less than a micrometre, and so do the south edge of a
/// row and the north edge of the next.
pub proof fn neighbours_share_an_edge(z: u8, x: u32, y: u32)
    requires
        x < two(
            (if z < 30 {
                z
            } else {
                30
            }) as nat,
        ),
        y < two(
            (if z < 30 {
                z
            } else {
                30
            }) as nat,
        ),
        x < u32::MAX,
        y < u32::MAX,
    ensures
        ({
            let seam = tile_box(z, x, y).2 - tile_box(z, (x + 1) as u32, y).0;
            -0x20_0000_0000 <= seam <= 0x20_0000_0000
        }),
        ({
            let seam = tile_box(z, x, y).1 - tile_box(z, x, (y + 1) as u32).3;
            -0x20_0000_0000 <= seam <= 0x20_0000_0000
        }),
{
    lemma_within_world(z, x as int);
    lemma_within_world(z, x + 1);
    lemma_within_world(z, y as int);
    lemma_within_world(z, y + 1);
    let s = span(z);
    let h = half();
    assert((x + 1) * s == x * s + s) by (nonlinear_arith);
    assert((y + 1) * s == y * s + s) by (nonlinear_arith);
    lemma_rounded_error(x * s);
    lemma_rounded_error((x + 1) * s);
    lemma_rounded_error(-h + rounded(x * s));
    lemma_rounded_error(-h + rounded((x + 1) * s));
    lemma_rounded_error(west(z, x) + s);
    lemma_rounded_error(y * s);
    lemma_rounded_error((y + 1) * s);
    lemma_rounded_error(h - rounded(y * s));
    lemma_rounded_error(h - rounded((y + 1) * s));
    lemma_rounded_error(north(z, y) - s);
}

/// The nearest whole number is at most half a unit off, and an even one on a tie.
pub proof fn nearest_is_nearest(n: nat, d: nat)
    requires
        d > 0,
    ensures
        -(d as int) <= 2 * (nearest(n, d) * d - n) <= d,
        2 * (nearest(n, d) * d - n) == d || 2 * (nearest(n, d) * d - n) == -(d as int) ==> nearest(
            n,
            d,
        ) % 2 == 0,
{
    let q = n / d;
    let r = n % d;
    assert(n == q * d + r && 0 <= r < d) by (nonlinear_arith)
        requires
            d > 0,
            q == n / d,
            r == n % d,
    ;
    assert((q + 1) * d == q * d + d) by (nonlinear_arith);
}

/// Where a tile lies: its edges are those of its column and row on a square of twice 20037508.34 m,
/// rounded by less than a micrometre. Columns go east from the west edge of the world, rows south
/// from its north edge, and each level halves the side of a tile.
pub proof fn tiles_lie_in_their_place(z: u8, x: u32, y: u32, side: int, world: int)
    requires
        z <= 30,
        x < two(z as nat),
        y < two(z as nat),
        world == 5_378_777_689_100_435int * 0x4000_0000,
        side * two(z as nat) == world,
    ensures
        ({
            let (min_x, min_y, max_x, max_y) = tile_box(z, x, y);
            let error = 0x20_0000_0000int;
            &&& -error <= 2 * (min_x - x * side) + world <= error
            &&& -error <= 2 * (max_x - (x + 1) * side) + world <= error
            &&& -error <= 2 * (max_y + y * side) - world <= error
            &&& -error <= 2 * (min_y + (y + 1) * side) - world <= error
        }),
{
    lemma_two_values();
    lemma_two_adds(z as nat, (30 - z) as nat);
    assert(z as nat + (30 - z) as nat == 30nat);
    assert(two(0) == 1);
    let (p, q) = (two(z as nat) as int, two((30 - z) as nat) as int);
    lemma_two_positive(z as nat);
    let s = span(z);
    assert(s == side) by (nonlinear_arith)
        requires
            s == HALF_28 * q,
            p * q == 0x4000_0000,
            side * p == HALF_28 * 0x4000_0000,
            p > 0,
    ;
    lemma_within_world(z, x as int);
    lemma_within_world(z, x + 1);
    lemma_within_world(z, y as int);
    lemma_within_world(z, y + 1);
    let h = half();
    assert((x + 1) * s == x * s + s) by (nonlinear_arith);
    assert((y + 1) * s == y * s + s) by (nonlinear_arith);
    lemma_rounded_error(x * s);
    lemma_rounded_error(-h + rounded(x * s));
    lemma_rounded_error(west(z, x) + s);
    lemma_rounded_error(y * s);
    lemma_rounded_error(h - rounded(y * s));
    lemma_rounded_error(north(z, y) - s);
}

/// Lengths are written in metres with a point and three digits: a whole number of millimetres
/// exactly, and what lies below zero with a sign.
pub proof fn lengths_are_written_in_metres(n: nat, whole: nat, mm: nat)
    requires
        mm < 1000,
        n * 1000 == (whole * 1000 + mm) * two(57),
    ensures
        ({
            let t = metres_text(n as int);
            let d = text::decimal_text(whole);
            let k = d.len() as int;
            &&& t.len() == k + 4
            &&& t.take(k) == d
            &&& t[k] == '.'
            &&& 100 * (t[k + 1] as int - 48) + 10 * (t[k + 2] as int - 48) + (t[k + 3] as int - 48)
                == mm
        }),
        n > 0 ==> metres_text(-(n as int)) == seq!['-'] + metres_text(n as int),
{
    let u = whole * 1000 + mm;
    lemma_two_values();
    let d = two(57);
    assert((u * d) / d == u && (u * d) % d == 0) by (nonlinear_arith)
        requires
            d > 0,
            u >= 0,
    ;
    assert(millimetres(n) == u);
    assert(u / 1000 == whole && u % 1000 == mm);
    let w = text::decimal_text(whole);
    let t = metres_text(n as int);
    assert(t =~= w + seq!['.'] + three_digits(mm as int));
    assert(t.take(w.len() as int) =~= w);
    if n > 0 {
        assert(metres_text(-(n as int)) =~= seq!['-'] + t);
    }
}

} // verus!

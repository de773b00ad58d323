use vstd::prelude::*;

verus! {

/// Denominator of fractional hex coordinates: a fractional coordinate `v`
/// is held as the integer `v * HEX_UNIT`. It is a common multiple of the
/// tile geometry's divisors, so pixel-to-hex conversions are exact.
pub const HEX_UNIT: i64 = 1008;

/// Largest magnitude of a fractional coordinate numerator that rounding takes.
pub const HEX_LIMIT: i64 = 0x4_0000_0000_0000;

/// `n / HEX_UNIT` rounded to the nearest integer, halves away from zero.
pub open spec fn round_unit(n: int) -> int {
    if n >= 0 {
        (n + HEX_UNIT / 2) / HEX_UNIT as int
    } else {
        -((-n + HEX_UNIT / 2) / HEX_UNIT as int)
    }
}

/// Distance between `n / HEX_UNIT` and its rounding, times `HEX_UNIT`.
pub open spec fn round_error(n: int) -> int {
    let d = round_unit(n) * HEX_UNIT - n;
    if d >= 0 {
        d
    } else {
        -d
    }
}

/// Nearest cube coordinate to the fractional `(q, r, s)`: each component is
/// rounded, then the one with the largest rounding error (q before r before
/// s on ties) is recomputed from the other two.
pub open spec fn cube_round_spec(q: int, r: int, s: int) -> (int, int, int) {
    let (qi, ri, si) = (round_unit(q), round_unit(r), round_unit(s));
    let (qd, rd, sd) = (round_error(q), round_error(r), round_error(s));
    if qd > rd && qd > sd {
        (-ri - si, ri, si)
    } else if rd > sd {
        (qi, -qi - si, si)
    } else {
        (qi, ri, -qi - ri)
    }
}

/// Offset column of the cube coordinate `(q, r, _)` in an odd-row layout.
pub open spec fn offset_col(q: int, r: int) -> int {
    q + r / 2
}

/// Cube `q` of the offset coordinate `(col, row)` in an odd-row layout.
pub open spec fn cube_q(col: int, row: int) -> int {
    col - row / 2
}

proof fn lemma_round_unit_bounds(n: int)
    ensures
        round_error(n) <= HEX_UNIT / 2,
        n >= 0 ==> 0 <= round_unit(n) <= n / HEX_UNIT as int + 1,
        n < 0 ==> -((-n) / HEX_UNIT as int) - 1 <= round_unit(n) <= 0,
{
    let u = HEX_UNIT as int;
    if n >= 0 {
        let k = (n + u / 2) / u;
        assert(k * u <= n + u / 2 < k * u + u) by (nonlinear_arith)
            requires
                k == (n + u / 2) / u,
                u == 1008,
        ;
        assert(k <= n / u + 1) by (nonlinear_arith)
            requires
                k == (n + u / 2) / u,
                u == 1008,
                n >= 0,
        ;
    } else {
        let m = -n;
        let k = (m + u / 2) / u;
        assert(k * u <= m + u / 2 < k * u + u) by (nonlinear_arith)
            requires
                k == (m + u / 2) / u,
                u == 1008,
        ;
        assert(k <= m / u + 1) by (nonlinear_arith)
            requires
                k == (m + u / 2) / u,
                u == 1008,
                m >= 0,
        ;
    }
}

/// A whole number is its own rounding.
pub proof fn lemma_round_exact(k: int)
    ensures
        round_unit(k * HEX_UNIT) == k,
        round_error(k * HEX_UNIT) == 0,
{
    let u = HEX_UNIT as int;
    if k >= 0 {
        assert((k * u + u / 2) / u == k) by (nonlinear_arith)
            requires
                u == 1008,
                k >= 0,
        ;
    } else {
        assert((-(k * u) + u / 2) / u == -k) by (nonlinear_arith)
            requires
                u == 1008,
                k < 0,
        ;
    }
}

fn round_to_unit(n: i64) -> (r: i64)
    requires
        -HEX_LIMIT <= n <= HEX_LIMIT,
    ensures
        r == round_unit(n as int),
        -(HEX_LIMIT / HEX_UNIT) - 1 <= r <= HEX_LIMIT / HEX_UNIT + 1,
{
    proof {
        lemma_round_unit_bounds(n as int);
    }
    proof {
        assert(-1 - (HEX_LIMIT as int) / (HEX_UNIT as int) <= round_unit(n as int) <= (HEX_LIMIT as int) / (HEX_UNIT as int) + 1) by (nonlinear_arith)
            requires
                n >= 0 ==> 0 <= round_unit(n as int) <= (n as int) / (HEX_UNIT as int) + 1,
                n < 0 ==> -((-(n as int)) / (HEX_UNIT as int)) - 1 <= round_unit(n as int) <= 0,
                -HEX_LIMIT <= n <= HEX_LIMIT,
        ;
    }
    if n >= 0 {
        (n + HEX_UNIT / 2) / HEX_UNIT
    } else {
        -((-n + HEX_UNIT / 2) / HEX_UNIT)
    }
}

fn error_of(n: i64, rounded: i64) -> (r: i64)
    requires
        -HEX_LIMIT <= n <= HEX_LIMIT,
        rounded == round_unit(n as int),
        -(HEX_LIMIT / HEX_UNIT) - 1 <= rounded <= HEX_LIMIT / HEX_UNIT + 1,
    ensures
        r == round_error(n as int),
{
    let d = rounded * HEX_UNIT - n;
    if d >= 0 {
        d
    } else {
        -d
    }
}

/// Rounds the fractional cube coordinate `(q, r, s)` (each a multiple of
/// `1 / HEX_UNIT`) to a cube coordinate. The result always sums to zero.
pub fn cube_round(q: i64, r: i64, s: i64) -> (res: (i64, i64, i64))
    requires
        -HEX_LIMIT <= q <= HEX_LIMIT,
        -HEX_LIMIT <= r <= HEX_LIMIT,
        -HEX_LIMIT <= s <= HEX_LIMIT,
    ensures
        (res.0 as int, res.1 as int, res.2 as int) == cube_round_spec(q as int, r as int, s as int),
        res.0 + res.1 + res.2 == 0,
        -HEX_LIMIT <= res.0 <= HEX_LIMIT,
        -HEX_LIMIT <= res.1 <= HEX_LIMIT,
        -HEX_LIMIT <= res.2 <= HEX_LIMIT,
{
    let mut qi = round_to_unit(q);
    let mut ri = round_to_unit(r);
    let mut si = round_to_unit(s);

    let q_diff = error_of(q, qi);
    let r_diff = error_of(r, ri);
    let s_diff = error_of(s, si);

    if q_diff > r_diff && q_diff > s_diff {
        qi = -ri - si;
    } else if r_diff > s_diff {
        ri = -qi - si;
    } else {
        si = -qi - ri;
    }

    (qi, ri, si)
}

/// `v / 2` rounded down, as `(v - (v & 1)) / 2` gives it.
fn floor_half(v: i32) -> (h: i32)
    ensures
        h == v as int / 2,
{
    if v >= 0 {
        v / 2
    } else {
        let m = (1 - v as i64) / 2;
        assert(-m == v as int / 2);
        -m as i32
    }
}

/// Converts the cube coordinate `(q, r, _)` to an offset `(col, row)`.
pub fn cube_to_offset(q: i32, r: i32) -> (res: (i32, i32))
    requires
        i32::MIN <= offset_col(q as int, r as int) <= i32::MAX,
    ensures
        res.0 == offset_col(q as int, r as int),
        res.1 == r,
{
    let half = floor_half(r);
    let col = q + half;
    let row = r;

    (col, row)
}

/// Converts the offset `(col, row)` to a cube coordinate `(q, s, r)`, in the
/// order `x, y, z` with `x + y + z == 0`.
pub fn offset_to_cube(off_x: i32, off_y: i32) -> (res: (i32, i32, i32))
    requires
        i32::MIN <= cube_q(off_x as int, off_y as int) <= i32::MAX,
        i32::MIN <= -cube_q(off_x as int, off_y as int) - off_y <= i32::MAX,
    ensures
        res.0 == cube_q(off_x as int, off_y as int),
        res.2 == off_y,
        res.0 + res.1 + res.2 == 0,
{
    let half = floor_half(off_y);
    let x = off_x - half;
    let z = off_y;
    let y = (-(x as i64) - z as i64) as i32;

    (x, y, z)
}

} // verus!

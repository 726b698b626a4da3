//! Integer arithmetic helpers and the reflection of a vector off a normal.
use vstd::prelude::*;
use vstd::arithmetic::div_mod::{
    lemma_fundamental_div_mod, lemma_fundamental_div_mod_converse, lemma_mod_pos_bound,
};

verus! {

/// Rounds `a / d` down, for a positive divisor `d`.
pub fn floor_div(a: i128, d: i128) -> (q: i128)
    requires
        d > 0,
        a > i128::MIN,
    ensures
        q == a / d,
        a >= 0 ==> 0 <= q <= a,
        a < 0 ==> a <= q < 0,
{
    proof {
        lemma_floor_div_bounds(a as int, d as int);
    }
    if a >= 0 {
        a / d
    } else {
        let n: i128 = -a;
        let q0: i128 = n / d;
        let r0: i128 = n % d;
        proof {
            lemma_fundamental_div_mod(n as int, d as int);
            lemma_mod_pos_bound(n as int, d as int);
            let (qi, ri, di) = (q0 as int, r0 as int, d as int);
            assert(a == (-qi) * di - ri) by (nonlinear_arith)
                requires
                    n == di * qi + ri,
                    a == -n,
            ;
            assert(a == (-qi - 1) * di + (di - ri)) by (nonlinear_arith)
                requires
                    a == (-qi) * di - ri,
            ;
        }
        if r0 == 0 {
            proof {
                lemma_fundamental_div_mod_converse(a as int, d as int, -q0, 0);
            }
            -q0
        } else {
            proof {
                lemma_fundamental_div_mod_converse(a as int, d as int, -q0 - 1, d - r0);
            }
            -q0 - 1
        }
    }
}

/// Computes `a * num / den` rounded down, for a non-negative ratio.
pub fn mul_div(a: i128, num: i128, den: i128) -> (r: i128)
    requires
        -0x1_0000_0000_0000_0000_0000 <= a <= 0x1_0000_0000_0000_0000_0000,
        0 <= num <= 0x100_0000_0000,
        den > 0,
    ensures
        r == a * num / (den as int),
        a * num >= 0 ==> 0 <= r <= a * num,
        a * num < 0 ==> a * num <= r < 0,
{
    proof {
        assert(-0x100_0000_0000_0000_0000_0000_0000_0000 <= a * num
            <= 0x100_0000_0000_0000_0000_0000_0000_0000) by (nonlinear_arith)
            requires
                -0x1_0000_0000_0000_0000_0000 <= a <= 0x1_0000_0000_0000_0000_0000,
                0 <= num <= 0x100_0000_0000,
        ;
    }
    floor_div(a * num, den)
}

proof fn lemma_floor_div_bounds(a: int, d: int)
    requires
        d > 0,
    ensures
        a >= 0 ==> 0 <= a / d <= a,
        a < 0 ==> a <= a / d < 0,
{
    lemma_fundamental_div_mod(a, d);
    lemma_mod_pos_bound_int(a, d);
    let (q, r) = (a / d, a % d);
    assert(a >= 0 ==> 0 <= q <= a) by (nonlinear_arith)
        requires
            a == d * q + r,
            0 <= r < d,
    ;
    assert(a < 0 ==> a <= q < 0) by (nonlinear_arith)
        requires
            a == d * q + r,
            0 <= r < d,
    ;
}

proof fn lemma_mod_pos_bound_int(a: int, d: int)
    requires
        d > 0,
    ensures
        0 <= a % d < d,
{
    vstd::arithmetic::div_mod::lemma_mod_bound(a, d);
}

/// Largest magnitude of a component that `reflect` accepts.
pub const REFLECT_LIMIT: i64 = 1_099_511_627_776;

/// The reflection `v - 2 (v . n) n / |n|^2` of `v` off the normal `n`, with
/// the final division rounded down.
pub open spec fn reflect_spec(v: (int, int), n: (int, int)) -> (int, int) {
    let dot = v.0 * n.0 + v.1 * n.1;
    let l2 = n.0 * n.0 + n.1 * n.1;
    (v.0 - 2 * dot * n.0 / l2, v.1 - 2 * dot * n.1 / l2)
}

pub open spec fn in_reflect_range(c: int) -> bool {
    -REFLECT_LIMIT <= c <= REFLECT_LIMIT
}

/// Reflects the vector `v` off the line with normal `n`; `n` need not be of
/// unit length.
pub fn reflect(v: (i64, i64), n: (i64, i64)) -> (r: (i128, i128))
    requires
        n.0 != 0 || n.1 != 0,
        in_reflect_range(v.0 as int),
        in_reflect_range(v.1 as int),
        in_reflect_range(n.0 as int),
        in_reflect_range(n.1 as int),
    ensures
        (r.0 as int, r.1 as int) == reflect_spec(
            (v.0 as int, v.1 as int),
            (n.0 as int, n.1 as int),
        ),
{
    let (vx, vy) = (v.0 as i128, v.1 as i128);
    let (nx, ny) = (n.0 as i128, n.1 as i128);
    let ghost lim: int = REFLECT_LIMIT as int;
    proof {
        assert(lim * lim == 0x1_0000_0000_0000_0000_0000int);
        assert(-lim * lim <= vx * nx <= lim * lim) by (nonlinear_arith)
            requires
                -lim <= vx <= lim,
                -lim <= nx <= lim,
        ;
        assert(-lim * lim <= vy * ny <= lim * lim) by (nonlinear_arith)
            requires
                -lim <= vy <= lim,
                -lim <= ny <= lim,
        ;
        assert(0 <= nx * nx <= lim * lim) by (nonlinear_arith)
            requires
                -lim <= nx <= lim,
        ;
        assert(0 <= ny * ny <= lim * lim) by (nonlinear_arith)
            requires
                -lim <= ny <= lim,
        ;
        assert(nx * nx + ny * ny > 0) by (nonlinear_arith)
            requires
                nx != 0 || ny != 0,
        ;
    }
    let dot: i128 = vx * nx + vy * ny;
    let l2: i128 = nx * nx + ny * ny;
    proof {
        let m = 2 * lim * lim;
        assert(-m * lim <= dot * nx <= m * lim) by (nonlinear_arith)
            requires
                -m <= dot <= m,
                -lim <= nx <= lim,
        ;
        assert(-m * lim <= dot * ny <= m * lim) by (nonlinear_arith)
            requires
                -m <= dot <= m,
                -lim <= ny <= lim,
        ;
    }
    let px: i128 = dot * nx;
    let py: i128 = dot * ny;
    assert(2 * (2 * lim * lim) * lim == 0x0400_0000_0000_0000_0000_0000_0000_0000int);
    let qx = floor_div(2 * px, l2);
    let qy = floor_div(2 * py, l2);
    assert(2 * px == 2 * dot * nx && 2 * py == 2 * dot * ny) by (nonlinear_arith)
        requires
            px == dot * nx,
            py == dot * ny,
    ;
    (vx - qx, vy - qy)
}

/// Off a diagonal normal `(sx, sy)`, with each sign `1` or `-1`, the
/// reflection is exact: the components swap and take the sign `-sx * sy`.
pub proof fn lemma_reflect_diagonal(vx: int, vy: int, sx: int, sy: int)
    requires
        sx == 1 || sx == -1,
        sy == 1 || sy == -1,
    ensures
        reflect_spec((vx, vy), (sx, sy)) == (-sx * sy * vy, -sx * sy * vx),
{
    let dot = vx * sx + vy * sy;
    assert(sx * sx + sy * sy == 2) by (nonlinear_arith)
        requires
            sx == 1 || sx == -1,
            sy == 1 || sy == -1,
    ;
    lemma_fundamental_div_mod_converse(2 * dot * sx, 2, dot * sx, 0);
    lemma_fundamental_div_mod_converse(2 * dot * sy, 2, dot * sy, 0);
    assert(vx - dot * sx == -sx * sy * vy && vy - dot * sy == -sx * sy * vx) by (nonlinear_arith)
        requires
            sx == 1 || sx == -1,
            sy == 1 || sy == -1,
            dot == vx * sx + vy * sy,
    ;
}

/// Reflection off a corner's diagonal normal keeps the speed: the squared
/// length of the velocity is the same before and after.
pub proof fn lemma_corner_reflection_preserves_speed(vx: int, vy: int, sx: int, sy: int)
    requires
        sx == 1 || sx == -1,
        sy == 1 || sy == -1,
    ensures
        ({
            let r = reflect_spec((vx, vy), (sx, sy));
            r.0 * r.0 + r.1 * r.1 == vx * vx + vy * vy
        }),
{
    lemma_reflect_diagonal(vx, vy, sx, sy);
    assert((-sx * sy * vy) * (-sx * sy * vy) + (-sx * sy * vx) * (-sx * sy * vx) == vx * vx + vy
        * vy) by (nonlinear_arith)
        requires
            sx == 1 || sx == -1,
            sy == 1 || sy == -1,
    ;
}

} // verus!

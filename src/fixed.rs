use vstd::prelude::*;

verus! {

/// Number of fixed-point units in one whole unit: every length, size, trait,
/// energy and fertility of the simulation is held in milli-units.
pub const SCALE: i64 = 1000;

/// Largest coordinate magnitude of the world, in milli-units. Movement is
/// clamped to this extent, far beyond the terrain grid.
pub const POS_MAX: i64 = 1_000_000_000;

/// `r` is the integer square root of `n`.
pub open spec fn is_isqrt(n: int, r: int) -> bool {
    0 <= r && r * r <= n < (r + 1) * (r + 1)
}

/// The integer square root of `n`, rounding down.
pub open spec fn sqrt_floor(n: int) -> int {
    choose|r: int| is_isqrt(n, r)
}

/// `v` limited to `[lo, hi]`.
pub open spec fn clamp(v: int, lo: int, hi: int) -> int {
    if v < lo {
        lo
    } else if v > hi {
        hi
    } else {
        v
    }
}

/// Division rounding towards zero, as integer division does in Rust.
pub open spec fn tdiv(a: int, b: int) -> int {
    if a >= 0 {
        a / b
    } else {
        -((-a) / b)
    }
}

pub proof fn lemma_isqrt_unique(n: int, a: int, b: int)
    requires
        is_isqrt(n, a),
        is_isqrt(n, b),
    ensures
        a == b,
{
    if a < b {
        assert((a + 1) * (a + 1) <= b * b) by (nonlinear_arith)
            requires
                0 <= a + 1 <= b,
        ;
    } else if b < a {
        assert((b + 1) * (b + 1) <= a * a) by (nonlinear_arith)
            requires
                0 <= b + 1 <= a,
        ;
    }
}

/// Any witness of `is_isqrt` is `sqrt_floor`.
pub proof fn lemma_sqrt_floor(n: int, r: int)
    requires
        is_isqrt(n, r),
    ensures
        sqrt_floor(n) == r,
{
    let c = sqrt_floor(n);
    assert(is_isqrt(n, c));
    lemma_isqrt_unique(n, r, c);
}

/// A component of a vector is no longer than the vector.
pub proof fn lemma_component_le_length(x: int, y: int, r: int)
    requires
        is_isqrt(x * x + y * y, r),
    ensures
        -r <= x <= r,
{
    assert(y * y >= 0) by (nonlinear_arith);
    if x > r {
        assert(x * x >= (r + 1) * (r + 1)) by (nonlinear_arith)
            requires
                x >= r + 1,
                r >= 0,
        ;
    }
    if x < -r {
        assert(x * x >= (r + 1) * (r + 1)) by (nonlinear_arith)
            requires
                -x >= r + 1,
                r >= 0,
        ;
    }
}

/// Integer square root, rounding down.
pub fn isqrt(n: u64) -> (r: u64)
    ensures
        is_isqrt(n as int, r as int),
        r as int == sqrt_floor(n as int),
{
    let mut lo: u64 = 0;
    let mut hi: u64 = 0x1_0000_0000;
    assert(hi * hi > n) by (nonlinear_arith)
        requires
            hi == 0x1_0000_0000u64,
            n <= 0xffff_ffff_ffff_ffffu64,
    ;
    while hi - lo > 1
        invariant
            lo < hi <= 0x1_0000_0000,
            lo * lo <= n,
            n < hi * hi,
        decreases hi - lo,
    {
        let mid: u64 = lo + (hi - lo) / 2;
        assert(mid * mid <= 0xffff_fffe_0000_0001u64) by (nonlinear_arith)
            requires
                mid < 0x1_0000_0000u64,
        ;
        if mid * mid <= n {
            lo = mid;
        } else {
            hi = mid;
        }
    }
    proof {
        lemma_sqrt_floor(n as int, lo as int);
    }
    lo
}

/// Division rounding towards zero by a positive divisor.
pub fn div_trunc(a: i64, b: i64) -> (r: i64)
    requires
        b > 0,
        a > i64::MIN,
    ensures
        r as int == tdiv(a as int, b as int),
{
    if a >= 0 {
        a / b
    } else {
        -((-a) / b)
    }
}

/// A fixed-point 2D vector: a position or a direction, in milli-units.
#[derive(Clone, Copy, Debug)]
pub struct Vec2 {
    pub x: i64,
    pub y: i64,
}

/// `v` limited to the world's extent on one axis.
pub open spec fn clamp_world(v: int) -> int {
    clamp(v, -POS_MAX as int, POS_MAX as int)
}

/// The Euclidean distance between two points, rounded down.
pub open spec fn distance_spec(a: Vec2, b: Vec2) -> int {
    sqrt_floor((a.x - b.x) * (a.x - b.x) + (a.y - b.y) * (a.y - b.y))
}

/// The vector `(x, y)` scaled to length `SCALE`: its length is taken in
/// milli-units of `(x, y)`, and each component rounded towards zero. The
/// zero vector stays zero.
pub open spec fn normalized(x: int, y: int) -> Vec2 {
    let len = sqrt_floor((x * x + y * y) * SCALE * SCALE);
    if len == 0 {
        Vec2 { x: 0, y: 0 }
    } else {
        Vec2 {
            x: tdiv(x * SCALE * SCALE, len) as i64,
            y: tdiv(y * SCALE * SCALE, len) as i64,
        }
    }
}

/// The unit direction from `from` towards `to`.
pub open spec fn direction_to(from: Vec2, to: Vec2) -> Vec2 {
    normalized(to.x - from.x, to.y - from.y)
}

/// `p` moved by `k` milli-units along the direction `d`, clamped to the world.
pub open spec fn offset_spec(p: Vec2, d: Vec2, k: int) -> Vec2 {
    Vec2 {
        x: clamp_world(p.x + tdiv(d.x * k, SCALE as int)) as i64,
        y: clamp_world(p.y + tdiv(d.y * k, SCALE as int)) as i64,
    }
}

impl Vec2 {
    /// Lies within the world's extent.
    pub open spec fn in_world(self) -> bool {
        -POS_MAX <= self.x <= POS_MAX && -POS_MAX <= self.y <= POS_MAX
    }

    /// A direction: each component within one whole unit.
    pub open spec fn is_direction(self) -> bool {
        -SCALE <= self.x <= SCALE && -SCALE <= self.y <= SCALE
    }

    /// A unit direction: a direction whose length is one whole unit, within
    /// the rounding of `normalized` (a squared length within
    /// `(SCALE^2 - 4 SCALE - 2, (SCALE + 1)^2)`).
    pub open spec fn is_unit(self) -> bool {
        &&& self.is_direction()
        &&& SCALE * SCALE - 4 * SCALE - 2 < self.x * self.x + self.y * self.y
        &&& self.x * self.x + self.y * self.y < (SCALE + 1) * (SCALE + 1)
    }

    pub fn new(x: i64, y: i64) -> (r: Vec2)
        ensures
            r.x == x,
            r.y == y,
    {
        Vec2 { x, y }
    }

    /// Distance to `other`, rounded down.
    pub fn distance(self, other: Vec2) -> (r: i64)
        requires
            self.in_world(),
            other.in_world(),
        ensures
            r as int == distance_spec(self, other),
            0 <= r <= 3 * POS_MAX,
    {
        let dx: i64 = self.x - other.x;
        let dy: i64 = self.y - other.y;
        let n = squared_length(dx, dy);
        let r = isqrt(n);
        proof {
            lemma_sqrt_bound(n as int, r as int);
        }
        r as i64
    }

    /// This point moved `k` milli-units along direction `d`, clamped to the world.
    pub fn offset(self, d: Vec2, k: i64) -> (r: Vec2)
        requires
            self.in_world(),
            d.is_direction(),
            -SCALE * SCALE * SCALE <= k <= SCALE * SCALE * SCALE,
        ensures
            r == offset_spec(self, d, k as int),
            r.in_world(),
    {
        assert(-SCALE * SCALE * SCALE * SCALE <= d.x * k <= SCALE * SCALE * SCALE * SCALE)
            by (nonlinear_arith)
            requires
                -SCALE <= d.x <= SCALE,
                -SCALE * SCALE * SCALE <= k <= SCALE * SCALE * SCALE,
        ;
        assert(-SCALE * SCALE * SCALE * SCALE <= d.y * k <= SCALE * SCALE * SCALE * SCALE)
            by (nonlinear_arith)
            requires
                -SCALE <= d.y <= SCALE,
                -SCALE * SCALE * SCALE <= k <= SCALE * SCALE * SCALE,
        ;
        let x = clamp_coord(self.x + div_trunc(d.x * k, SCALE));
        let y = clamp_coord(self.y + div_trunc(d.y * k, SCALE));
        Vec2 { x, y }
    }
}

proof fn lemma_sqrt_bound(n: int, r: int)
    requires
        is_isqrt(n, r),
        n <= 8 * POS_MAX * POS_MAX,
    ensures
        r <= 3 * POS_MAX,
{
    if r > 3 * POS_MAX {
        assert(r * r > 9 * POS_MAX * POS_MAX) by (nonlinear_arith)
            requires
                r > 3 * POS_MAX,
        ;
    }
}

/// `x * x + y * y` for components within twice the world's extent.
fn squared_length(x: i64, y: i64) -> (r: u64)
    requires
        -2 * POS_MAX <= x <= 2 * POS_MAX,
        -2 * POS_MAX <= y <= 2 * POS_MAX,
    ensures
        r as int == x * x + y * y,
        r <= 8 * POS_MAX * POS_MAX,
{
    let ax: u64 = if x >= 0 { x as u64 } else { (-x) as u64 };
    let ay: u64 = if y >= 0 { y as u64 } else { (-y) as u64 };
    assert(ax * ax <= 4 * POS_MAX * POS_MAX && ax * ax == x * x) by (nonlinear_arith)
        requires
            ax <= 2 * POS_MAX,
            ax == x || ax == -x,
    ;
    assert(ay * ay <= 4 * POS_MAX * POS_MAX && ay * ay == y * y) by (nonlinear_arith)
        requires
            ay <= 2 * POS_MAX,
            ay == y || ay == -y,
    ;
    ax * ax + ay * ay
}

/// `v` limited to the world's extent.
pub fn clamp_coord(v: i64) -> (r: i64)
    ensures
        r as int == clamp_world(v as int),
{
    if v < -POS_MAX {
        -POS_MAX
    } else if v > POS_MAX {
        POS_MAX
    } else {
        v
    }
}

/// Integer square root of a wide value, rounding down.
pub fn isqrt_wide(n: u128) -> (r: u128)
    ensures
        is_isqrt(n as int, r as int),
        r as int == sqrt_floor(n as int),
{
    let mut lo: u128 = 0;
    let mut hi: u128 = 0x1_0000_0000_0000_0000;
    assert(hi * hi > n) by (nonlinear_arith)
        requires
            hi == 0x1_0000_0000_0000_0000u128,
            n <= 0xffff_ffff_ffff_ffff_ffff_ffff_ffff_ffffu128,
    ;
    while hi - lo > 1
        invariant
            lo < hi <= 0x1_0000_0000_0000_0000,
            lo * lo <= n,
            n < hi * hi,
        decreases hi - lo,
    {
        let mid: u128 = lo + (hi - lo) / 2;
        assert(mid * mid <= 0xffff_ffff_ffff_fffe_0000_0000_0000_0001u128) by (nonlinear_arith)
            requires
                mid < 0x1_0000_0000_0000_0000u128,
        ;
        if mid * mid <= n {
            lo = mid;
        } else {
            hi = mid;
        }
    }
    proof {
        lemma_sqrt_floor(n as int, lo as int);
    }
    lo
}

/// The quotient of `p` by `l`, for `p >= 0`, brackets `p`.
proof fn lemma_div_bracket(p: int, l: int)
    requires
        p >= 0,
        l > 0,
    ensures
        (p / l) * l <= p < (p / l) * l + l,
        p / l >= 0,
{
    vstd::arithmetic::div_mod::lemma_fundamental_div_mod(p, l);
    vstd::arithmetic::div_mod::lemma_mod_pos_bound(p, l);
    assert(l * (p / l) == (p / l) * l) by (nonlinear_arith);
    if p / l < 0 {
        assert((p / l) * l <= -l) by (nonlinear_arith)
            requires
                p / l <= -1,
                l > 0,
        ;
    }
}

/// A nonzero vector scaled by `normalized` has unit length, within rounding.
pub proof fn lemma_normalized_unit(x: int, y: int)
    requires
        x != 0 || y != 0,
        -2 * POS_MAX <= x <= 2 * POS_MAX,
        -2 * POS_MAX <= y <= 2 * POS_MAX,
    ensures
        normalized(x, y).is_unit(),
{
    let n = x * x + y * y;
    let big = n * SCALE * SCALE;
    let l = sqrt_floor(big);
    assert(n >= 1) by (nonlinear_arith)
        requires
            x != 0 || y != 0,
            n == x * x + y * y,
    ;
    assert(big >= 0) by (nonlinear_arith)
        requires
            big == n * SCALE * SCALE,
            n >= 1,
    ;
    assert(exists|r: int| #[trigger] is_isqrt(big, r)) by {
        lemma_isqrt_exists(big);
    }
    {
        assert(is_isqrt(big, l));
        let ax = if x >= 0 { x } else { -x };
        let ay = if y >= 0 { y } else { -y };
        assert(ax * ax == x * x && ay * ay == y * y) by (nonlinear_arith)
            requires
                ax == x || ax == -x,
                ay == y || ay == -y,
        ;
        let px = ax * SCALE * SCALE;
        let py = ay * SCALE * SCALE;
        assert(px >= 0 && py >= 0) by (nonlinear_arith)
            requires
                ax >= 0,
                ay >= 0,
                px == ax * SCALE * SCALE,
                py == ay * SCALE * SCALE,
        ;
        // The length is at least one whole unit, in milli-units.
        assert(l >= SCALE) by (nonlinear_arith)
            requires
                l * l <= big < (l + 1) * (l + 1),
                big == n * SCALE * SCALE,
                n >= 1,
                l >= 0,
        ;
        lemma_div_bracket(px, l);
        lemma_div_bracket(py, l);
        let a = px / l;
        let b = py / l;
        assert((ax * SCALE) * (ax * SCALE) + (ay * SCALE) * (ay * SCALE) == big) by (nonlinear_arith)
            requires
                ax * ax == x * x,
                ay * ay == y * y,
                big == (x * x + y * y) * SCALE * SCALE,
        ;
        lemma_component_le_length(ax * SCALE, ay * SCALE, l);
        assert((ay * SCALE) * (ay * SCALE) + (ax * SCALE) * (ax * SCALE) == big);
        lemma_component_le_length(ay * SCALE, ax * SCALE, l);
        assert(a <= SCALE) by (nonlinear_arith)
            requires
                a * l <= px,
                px == (ax * SCALE) * SCALE,
                ax * SCALE <= l,
                l > 0,
        ;
        assert(b <= SCALE) by (nonlinear_arith)
            requires
                b * l <= py,
                py == (ay * SCALE) * SCALE,
                ay * SCALE <= l,
                l > 0,
        ;
        let v = normalized(x, y);
        assert(x * SCALE * SCALE == if x >= 0 { px } else { -px }) by (nonlinear_arith)
            requires
                ax == x || ax == -x,
                ax >= 0,
                x >= 0 ==> ax == x,
                x < 0 ==> ax == -x,
                px == ax * SCALE * SCALE,
        ;
        assert(y * SCALE * SCALE == if y >= 0 { py } else { -py }) by (nonlinear_arith)
            requires
                ay >= 0,
                y >= 0 ==> ay == y,
                y < 0 ==> ay == -y,
                py == ay * SCALE * SCALE,
        ;
        assert(x >= 0 ==> x * SCALE * SCALE >= 0) by (nonlinear_arith);
        assert(x < 0 ==> x * SCALE * SCALE < 0) by (nonlinear_arith);
        assert(y >= 0 ==> y * SCALE * SCALE >= 0) by (nonlinear_arith);
        assert(y < 0 ==> y * SCALE * SCALE < 0) by (nonlinear_arith);
        assert(tdiv(x * SCALE * SCALE, l) == if x >= 0 { a } else { -a });
        assert(tdiv(y * SCALE * SCALE, l) == if y >= 0 { b } else { -b });
        assert(v.x == a || v.x == -a);
        assert(v.y == b || v.y == -b);
        assert(v.x * v.x == a * a && v.y * v.y == b * b) by (nonlinear_arith)
            requires
                v.x == a || v.x == -a,
                v.y == b || v.y == -b,
        ;
        // Upper bound.
        assert(a * a * (l * l) <= px * px) by (nonlinear_arith)
            requires
                0 <= a * l <= px,
                a >= 0,
                l > 0,
        ;
        assert(b * b * (l * l) <= py * py) by (nonlinear_arith)
            requires
                0 <= b * l <= py,
                b >= 0,
                l > 0,
        ;
        assert(px * px + py * py == big * (SCALE * SCALE)) by (nonlinear_arith)
            requires
                px == ax * SCALE * SCALE,
                py == ay * SCALE * SCALE,
                ax * ax + ay * ay == n,
                big == n * SCALE * SCALE,
        ;
        assert((a * a + b * b) * (l * l) < (l + 1) * (l + 1) * (SCALE * SCALE)) by (nonlinear_arith)
            requires
                a * a * (l * l) <= px * px,
                b * b * (l * l) <= py * py,
                px * px + py * py == big * (SCALE * SCALE),
                big < (l + 1) * (l + 1),
        ;
        if a * a + b * b >= (SCALE + 1) * (SCALE + 1) {
            assert((SCALE + 1) * (SCALE + 1) * (l * l) < (l + 1) * (l + 1) * (SCALE * SCALE))
                by (nonlinear_arith)
                requires
                    (a * a + b * b) * (l * l) < (l + 1) * (l + 1) * (SCALE * SCALE),
                    a * a + b * b >= (SCALE + 1) * (SCALE + 1),
                    l > 0,
            ;
            assert((SCALE + 1) * l < (l + 1) * SCALE) by (nonlinear_arith)
                requires
                    (SCALE + 1) * (SCALE + 1) * (l * l) < (l + 1) * (l + 1) * (SCALE * SCALE),
                    l > 0,
            ;
        }
        // Lower bound.
        assert(px * px < (a + 1) * (a + 1) * (l * l)) by (nonlinear_arith)
            requires
                0 <= px < a * l + l,
                a >= 0,
                l > 0,
        ;
        assert(py * py < (b + 1) * (b + 1) * (l * l)) by (nonlinear_arith)
            requires
                0 <= py < b * l + l,
                b >= 0,
                l > 0,
        ;
        assert(SCALE * SCALE * (l * l) <= big * (SCALE * SCALE)) by (nonlinear_arith)
            requires
                l * l <= big,
        ;
        assert(SCALE * SCALE < (a + 1) * (a + 1) + (b + 1) * (b + 1)) by (nonlinear_arith)
            requires
                px * px < (a + 1) * (a + 1) * (l * l),
                py * py < (b + 1) * (b + 1) * (l * l),
                px * px + py * py == big * (SCALE * SCALE),
                SCALE * SCALE * (l * l) <= big * (SCALE * SCALE),
                l > 0,
        ;
        assert(SCALE * SCALE - 4 * SCALE - 2 < a * a + b * b) by (nonlinear_arith)
            requires
                SCALE * SCALE < (a + 1) * (a + 1) + (b + 1) * (b + 1),
                0 <= a <= SCALE,
                0 <= b <= SCALE,
        ;
    }
}

/// Every natural number has an integer square root.
pub proof fn lemma_isqrt_exists(n: int)
    requires
        n >= 0,
    ensures
        exists|r: int| #[trigger] is_isqrt(n, r),
    decreases n,
{
    if n == 0 {
        assert(is_isqrt(0, 0));
    } else {
        lemma_isqrt_exists(n - 1);
        let r = choose|r: int| #[trigger] is_isqrt(n - 1, r);
        if n < (r + 1) * (r + 1) {
            assert(is_isqrt(n, r));
        } else {
            assert(n == (r + 1) * (r + 1));
            assert(n < (r + 2) * (r + 2)) by (nonlinear_arith)
                requires
                    n == (r + 1) * (r + 1),
                    r >= 0,
            ;
            assert(is_isqrt(n, r + 1));
        }
    }
}

/// The vector `(x, y)` scaled to length `SCALE`; zero stays zero, and any
/// other vector becomes a unit direction.
pub fn normalize(x: i64, y: i64) -> (r: Vec2)
    requires
        -2 * POS_MAX <= x <= 2 * POS_MAX,
        -2 * POS_MAX <= y <= 2 * POS_MAX,
    ensures
        r == normalized(x as int, y as int),
        r.is_direction(),
        x != 0 || y != 0 ==> r.is_unit(),
{
    let n = squared_length(x, y);
    let wide: u128 = n as u128 * 1_000_000;
    let len = isqrt_wide(wide);
    proof {
        assert(wide as int == (x * x + y * y) * SCALE * SCALE);
    }
    if len == 0 {
        proof {
            if x != 0 || y != 0 {
                assert((x * x + y * y) * SCALE * SCALE >= 1) by (nonlinear_arith)
                    requires
                        x != 0 || y != 0,
                ;
                assert(wide >= 1);
                assert(wide < (len + 1) * (len + 1));
                assert((len + 1) * (len + 1) == 1) by (nonlinear_arith)
                    requires
                        len == 0,
                ;
                assert(false);
            }
        }
        Vec2 { x: 0, y: 0 }
    } else {
        let xs: i64 = x * SCALE;
        let ys: i64 = y * SCALE;
        proof {
            assert(wide <= 8_000_000_000_000_000_000_000_000u128);
            assert(len <= 3_000_000_000_000u128) by (nonlinear_arith)
                requires
                    len * len <= wide,
                    wide <= 8_000_000_000_000_000_000_000_000u128,
            ;
            assert((xs * xs + ys * ys) == (x * x + y * y) * SCALE * SCALE) by (nonlinear_arith)
                requires
                    xs == x * SCALE,
                    ys == y * SCALE,
            ;
            lemma_component_le_length(xs as int, ys as int, len as int);
            assert(ys * ys + xs * xs == xs * xs + ys * ys) by (nonlinear_arith);
            lemma_component_le_length(ys as int, xs as int, len as int);
        }
        let l = len as i64;
        let rx = div_trunc(xs * SCALE, l);
        let ry = div_trunc(ys * SCALE, l);
        proof {
            lemma_scaled_ratio(xs as int, l as int);
            lemma_scaled_ratio(ys as int, l as int);
            assert(xs * SCALE == x * SCALE * SCALE);
            assert(ys * SCALE == y * SCALE * SCALE);
            if x != 0 || y != 0 {
                lemma_normalized_unit(x as int, y as int);
            }
        }
        Vec2 { x: rx, y: ry }
    }
}

proof fn lemma_scaled_ratio(x: int, l: int)
    requires
        l > 0,
        -l <= x <= l,
    ensures
        -SCALE <= tdiv(x * SCALE, l) <= SCALE,
{
    if x >= 0 {
        assert(x * SCALE / l <= SCALE) by (nonlinear_arith)
            requires
                0 <= x <= l,
                l > 0,
        ;
        assert(x * SCALE / l >= 0) by (nonlinear_arith)
            requires
                0 <= x,
                l > 0,
        ;
    } else {
        assert((-x) * SCALE / l <= SCALE) by (nonlinear_arith)
            requires
                0 <= -x <= l,
                l > 0,
        ;
        assert((-x) * SCALE / l >= 0) by (nonlinear_arith)
            requires
                0 <= -x,
                l > 0,
        ;
        assert(-(x * SCALE) == (-x) * SCALE) by (nonlinear_arith);
    }
}

/// The unit direction from `from` towards `to`.
pub fn direction_between(from: Vec2, to: Vec2) -> (r: Vec2)
    requires
        from.in_world(),
        to.in_world(),
    ensures
        r == direction_to(from, to),
        r.is_direction(),
{
    normalize(to.x - from.x, to.y - from.y)
}

} // verus!

//! The level curve: reaching level `L` takes `floor(100 * (L - 1)^1.5)` total XP.
//!
//! `100 * n^1.5` is `sqrt(10_000 * n^3)`, so the threshold is the integer square
//! root of `10_000 * n^3`, computed exactly.
use vstd::prelude::*;

verus! {

/// `r` is the integer square root of `x`.
pub open spec fn is_isqrt(x: int, r: int) -> bool {
    0 <= r && r * r <= x && x < (r + 1) * (r + 1)
}

/// The integer square root of a natural number.
pub open spec fn isqrt(x: nat) -> int {
    choose|r: int| is_isqrt(x as int, r)
}

/// Total XP needed to reach `level`: `floor(100 * (level - 1)^1.5)`, and 0 for level 1.
pub open spec fn level_threshold(level: int) -> int {
    if level <= 1 {
        0
    } else {
        isqrt((10000 * ((level - 1) * (level - 1) * (level - 1))) as nat)
    }
}

proof fn lemma_square_monotone(a: int, b: int)
    requires
        0 <= a <= b,
    ensures
        a * a <= b * b,
{
    assert(a * a <= a * b) by (nonlinear_arith)
        requires
            0 <= a <= b,
    ;
    assert(a * b <= b * b) by (nonlinear_arith)
        requires
            0 <= a <= b,
    ;
}

proof fn lemma_isqrt_unique(x: int, r1: int, r2: int)
    requires
        is_isqrt(x, r1),
        is_isqrt(x, r2),
    ensures
        r1 == r2,
{
    if r1 < r2 {
        lemma_square_monotone(r1 + 1, r2);
    } else if r2 < r1 {
        lemma_square_monotone(r2 + 1, r1);
    }
}

proof fn lemma_isqrt_of(x: nat, r: int)
    requires
        is_isqrt(x as int, r),
    ensures
        isqrt(x) == r,
{
    assert(is_isqrt(x as int, isqrt(x)));
    lemma_isqrt_unique(x as int, r, isqrt(x));
}

proof fn lemma_isqrt_monotone(x: nat, y: nat)
    requires
        x <= y,
        exists|r: int| #[trigger] is_isqrt(x as int, r),
        exists|r: int| #[trigger] is_isqrt(y as int, r),
    ensures
        isqrt(x) <= isqrt(y),
{
    let rx = isqrt(x);
    let ry = isqrt(y);
    assert(is_isqrt(x as int, rx));
    assert(is_isqrt(y as int, ry));
    if rx > ry {
        lemma_square_monotone(ry + 1, rx);
    }
}

proof fn lemma_cube_monotone(a: int, b: int)
    requires
        0 <= a <= b,
    ensures
        a * a * a <= b * b * b,
{
    lemma_square_monotone(a, b);
    assert(a * a * a <= b * b * b) by (nonlinear_arith)
        requires
            0 <= a <= b,
            a * a <= b * b,
    ;
}

/// Integer square root of `x` by bisection.
fn isqrt_u128(x: u128) -> (r: u64)
    requires
        x < 0x1_0000_0000_0000_0000_0000_0000_0000,
    ensures
        is_isqrt(x as int, r as int),
        r < 0x100_0000_0000_0000,
{
    let mut lo: u128 = 0;
    let mut hi: u128 = 0x100_0000_0000_0000;
    assert(hi * hi == 0x1_0000_0000_0000_0000_0000_0000_0000);
    while hi - lo > 1
        invariant
            lo < hi <= 0x100_0000_0000_0000,
            lo * lo <= x,
            x < hi * hi,
        decreases hi - lo,
    {
        let mid: u128 = lo + (hi - lo) / 2;
        assert(mid * mid <= 0x100_0000_0000_0000 * 0x100_0000_0000_0000) by (nonlinear_arith)
            requires
                mid <= 0x100_0000_0000_0000,
        ;
        if mid * mid <= x {
            lo = mid;
        } else {
            hi = mid;
        }
    }
    assert(hi == lo + 1);
    lo as u64
}

/// Whether the threshold is defined by a square root (the curve is total).
proof fn lemma_threshold_exists(level: int)
    requires
        2 <= level <= 0xffff_ffff,
    ensures
        exists|r: int| #[trigger] is_isqrt(10000 * ((level - 1) * (level - 1) * (level - 1)), r),
{
    let n = level - 1;
    lemma_cube_monotone(n, 0xffff_ffff);
    let x = 10000 * (n * n * n);
    assert(x < 0x1_0000_0000_0000_0000_0000_0000_0000);
    let r = isqrt_exists(x);
}

proof fn isqrt_exists(x: int) -> (r: int)
    requires
        0 <= x,
    ensures
        is_isqrt(x, r),
    decreases x,
{
    if x == 0 {
        0
    } else {
        let r0 = isqrt_exists(x - 1);
        if (r0 + 1) * (r0 + 1) <= x {
            assert((r0 + 1) * (r0 + 1) == x);
            let r1 = r0 + 1;
            assert(x < (r1 + 1) * (r1 + 1)) by (nonlinear_arith)
                requires
                    r1 * r1 == x,
                    r1 >= 1,
            ;
            r1
        } else {
            r0
        }
    }
}

/// Total XP required to reach `level` (`floor(100 * (level - 1)^1.5)`).
pub fn xp_threshold_for_level(level: u32) -> (t: u64)
    ensures
        t == level_threshold(level as int),
        t < 0x100_0000_0000_0000,
{
    if level <= 1 {
        return 0;
    }
    let n: u128 = (level - 1) as u128;
    proof {
        lemma_cube_monotone(n as int, 0xffff_ffff);
    }
    assert(n * n <= 0xffff_ffff * 0xffff_ffff) by (nonlinear_arith)
        requires
            n <= 0xffff_ffff,
    ;
    let n2: u128 = n * n;
    assert(n2 * n <= 0xffff_ffff * 0xffff_ffff * 0xffff_ffff) by (nonlinear_arith)
        requires
            n2 <= 0xffff_ffffint * 0xffff_ffff,
            n <= 0xffff_ffff,
    ;
    let n3: u128 = n2 * n;
    let x: u128 = 10000 * n3;
    let r = isqrt_u128(x);
    proof {
        lemma_isqrt_of(x as nat, r as int);
    }
    r
}

/// The threshold never decreases as the level grows.
pub proof fn lemma_threshold_monotone(a: int, b: int)
    requires
        a <= b <= 0xffff_ffff,
    ensures
        level_threshold(a) <= level_threshold(b),
{
    if b <= 1 {
    } else if a <= 1 {
        lemma_threshold_exists(b);
        let x = (10000 * ((b - 1) * (b - 1) * (b - 1))) as nat;
        assert(is_isqrt(x as int, isqrt(x)));
    } else {
        lemma_threshold_exists(a);
        lemma_threshold_exists(b);
        lemma_cube_monotone(a - 1, b - 1);
        lemma_isqrt_monotone(
            (10000 * ((a - 1) * (a - 1) * (a - 1))) as nat,
            (10000 * ((b - 1) * (b - 1) * (b - 1))) as nat,
        );
    }
}

/// Each level costs at least one more XP than the one before it.
pub proof fn lemma_threshold_strictly_increasing(level: int)
    requires
        1 <= level < 0xffff_ffff,
    ensures
        level_threshold(level) < level_threshold(level + 1),
{
    let n = level - 1;
    lemma_threshold_exists(level + 1);
    let y = (10000 * ((n + 1) * (n + 1) * (n + 1))) as nat;
    let ry = isqrt(y);
    assert(is_isqrt(y as int, ry));
    if level == 1 {
        assert(y == 10000) by (nonlinear_arith)
            requires
                n == 0,
                y == 10000 * ((n + 1) * (n + 1) * (n + 1)),
        ;
        assert(ry > 0) by (nonlinear_arith)
            requires
                ry >= 0,
                (y as int) < (ry + 1) * (ry + 1),
                y == 10000,
        ;
    } else {
        lemma_threshold_exists(level);
        let x = (10000 * (n * n * n)) as nat;
        let rx = isqrt(x);
        assert(is_isqrt(x as int, rx));
        // rx <= 100 * n^2, so (rx + 1)^2 <= 10000 * (n + 1)^3
        assert(rx <= 100 * (n * n)) by {
            if rx > 100 * (n * n) {
                assert(rx * rx > 10000 * (n * n * n)) by (nonlinear_arith)
                    requires
                        rx > 100 * (n * n),
                        n >= 1,
                ;
            }
        }
        assert((rx + 1) * (rx + 1) <= (y as int)) by (nonlinear_arith)
            requires
                rx * rx <= 10000 * (n * n * n),
                0 <= rx <= 100 * (n * n),
                n >= 1,
                y == 10000 * ((n + 1) * (n + 1) * (n + 1)),
        ;
        if ry <= rx {
            lemma_square_monotone(ry + 1, rx + 1);
        }
    }
}

/// The highest level whose threshold `xp` reaches, capped at `u32::MAX`.
pub open spec fn is_level_for(xp: int, level: int) -> bool {
    &&& 1 <= level <= 0xffff_ffff
    &&& level_threshold(level) <= xp
    &&& (level == 0xffff_ffff || xp < level_threshold(level + 1))
}

/// The level a total XP amount corresponds to (always at least 1).
pub fn level_from_xp(xp: u64) -> (level: u32)
    ensures
        is_level_for(xp as int, level as int),
{
    if xp_threshold_for_level(u32::MAX) <= xp {
        return u32::MAX;
    }
    // threshold(lo) <= xp < threshold(hi)
    let mut lo: u32 = 1;
    let mut hi: u32 = u32::MAX;
    while hi - lo > 1
        invariant
            1 <= lo < hi <= u32::MAX,
            level_threshold(lo as int) <= xp,
            xp < level_threshold(hi as int),
        decreases hi - lo,
    {
        let mid: u32 = lo + (hi - lo) / 2;
        if xp_threshold_for_level(mid) <= xp {
            lo = mid;
        } else {
            hi = mid;
        }
    }
    assert(hi == lo + 1);
    lo
}

/// Bisection between a reached level `lo` and an unreached level `hi`.
proof fn lemma_level_between(xp: int, lo: int, hi: int)
    requires
        1 <= lo < hi <= 0xffff_ffff,
        level_threshold(lo) <= xp < level_threshold(hi),
    ensures
        exists|l: int| lo <= l < hi && #[trigger] is_level_for(xp, l),
    decreases hi - lo,
{
    if hi == lo + 1 {
        assert(is_level_for(xp, lo));
    } else {
        let mid = lo + (hi - lo) / 2;
        if level_threshold(mid) <= xp {
            lemma_level_between(xp, mid, hi);
        } else {
            lemma_level_between(xp, lo, mid);
        }
    }
}

/// Every XP amount reaches some level.
pub proof fn lemma_level_exists(xp: int)
    requires
        0 <= xp,
    ensures
        exists|l: int| #[trigger] is_level_for(xp, l),
{
    if level_threshold(0xffff_ffff) <= xp {
        assert(is_level_for(xp, 0xffff_ffff));
    } else {
        lemma_level_between(xp, 1, 0xffff_ffff);
    }
}

/// The level for `xp` is the only level satisfying `is_level_for`.
pub proof fn lemma_level_unique(xp: int, l1: int, l2: int)
    requires
        is_level_for(xp, l1),
        is_level_for(xp, l2),
    ensures
        l1 == l2,
{
    if l1 < l2 {
        lemma_threshold_monotone(l1 + 1, l2);
    } else if l2 < l1 {
        lemma_threshold_monotone(l2 + 1, l1);
    }
}

/// Holding exactly the XP a level needs puts a user at that level.
pub proof fn lemma_level_of_threshold(level: int)
    requires
        1 <= level <= 0xffff_ffff,
    ensures
        is_level_for(level_threshold(level), level),
{
    if level < 0xffff_ffff {
        lemma_threshold_strictly_increasing(level);
    }
}

/// More XP never means a lower level.
pub proof fn lemma_level_monotone(x1: int, x2: int, l1: int, l2: int)
    requires
        x1 <= x2,
        is_level_for(x1, l1),
        is_level_for(x2, l2),
    ensures
        l1 <= l2,
{
    if l1 > l2 {
        lemma_threshold_monotone(l2 + 1, l1);
    }
}

} // verus!

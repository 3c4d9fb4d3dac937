//! Reconciles the audio driver's sample clock with the host clock.
//!
//! Audio callbacks are not invoked at perfectly regular intervals, so the
//! host-time readings taken inside them carry scheduling jitter.  The
//! [`HostTimeFilter`] keeps a fixed-capacity ring of `(sample clock, host
//! clock)` pairs and, on every query, fits an ordinary least-squares line
//! through them.  Evaluating that line at the queried sample count yields a
//! host-time estimate with far less jitter than the raw reading.
//!
//! All arithmetic is exact: the fitted value is a rational number and the
//! result is that value rounded to the nearest microsecond (ties away from
//! zero), as [`estimate_at`] specifies.

use vstd::prelude::*;

verus! {

use vstd::arithmetic::div_mod::lemma_fundamental_div_mod_converse;
use vstd::arithmetic::div_mod::lemma_div_is_ordered_by_denominator;

/// Default number of `(sample clock, host clock)` pairs the ring retains.
pub const RING_CAPACITY: usize = 512;

/// Largest sample-clock value a pair may carry (2^30 samples, about six
/// hours of audio at 48 kHz); keeps the exact least-squares arithmetic
/// inside `i128`.
pub const MAX_SAMPLE_CLOCK: u64 = 0x4000_0000;

/// Largest host-clock reading a pair may carry (2^38 microseconds, about
/// three days); keeps the exact least-squares arithmetic inside `i128`.
pub const MAX_CLOCK_MICROS: i64 = 0x40_0000_0000;

/// One observation: how many samples had been rendered when the host clock
/// read `host_clock` microseconds.
#[derive(Clone, Copy, PartialEq, Eq, Structural)]
pub struct TimeDataPoint {
    pub sample_clock: u64,
    pub host_clock: u64,
}

impl TimeDataPoint {
    pub fn new(sample_clock: u64, host_clock: u64) -> (p: TimeDataPoint)
        ensures
            p.sample_clock == sample_clock,
            p.host_clock == host_clock,
    {
        TimeDataPoint { sample_clock, host_clock }
    }
}

/// Sum of the sample-clock coordinates.
pub open spec fn sum_x(s: Seq<TimeDataPoint>) -> int
    decreases s.len(),
{
    if s.len() == 0 {
        0
    } else {
        sum_x(s.drop_last()) + s.last().sample_clock
    }
}

/// Sum of the host-clock coordinates.
pub open spec fn sum_y(s: Seq<TimeDataPoint>) -> int
    decreases s.len(),
{
    if s.len() == 0 {
        0
    } else {
        sum_y(s.drop_last()) + s.last().host_clock
    }
}

/// Sum of the squared sample-clock coordinates.
pub open spec fn sum_xx(s: Seq<TimeDataPoint>) -> int
    decreases s.len(),
{
    if s.len() == 0 {
        0
    } else {
        sum_xx(s.drop_last()) + s.last().sample_clock * s.last().sample_clock
    }
}

/// Sum of the per-point products of sample clock and host clock.
pub open spec fn sum_xy(s: Seq<TimeDataPoint>) -> int
    decreases s.len(),
{
    if s.len() == 0 {
        0
    } else {
        sum_xy(s.drop_last()) + s.last().sample_clock * s.last().host_clock
    }
}

/// Denominator of the least-squares slope: `n * sum(x^2) - sum(x)^2`.
/// Zero exactly when all sample-clock coordinates coincide.
pub open spec fn det(s: Seq<TimeDataPoint>) -> int {
    s.len() * sum_xx(s) - sum_x(s) * sum_x(s)
}

/// Numerator of the least-squares slope: `n * sum(x*y) - sum(x) * sum(y)`.
pub open spec fn slope_num(s: Seq<TimeDataPoint>) -> int {
    s.len() * sum_xy(s) - sum_x(s) * sum_y(s)
}

/// `p / q` rounded to the nearest integer, ties away from zero.
/// Meaningful for `q >= 1`; `/` and `%` are the Euclidean operations.
pub open spec fn round_to_nearest(p: int, q: int) -> int
    recommends
        q >= 1,
{
    let d = p / q;
    let r = p % q;
    if 2 * r < q {
        d
    } else if 2 * r > q {
        d + 1
    } else if p >= 0 {
        d + 1
    } else {
        d
    }
}

/// The least-squares line through `s`, evaluated at sample clock `x` and
/// rounded to the nearest microsecond.  With a degenerate denominator (all
/// sample clocks equal, including the single-point case) the slope is taken
/// as zero, which leaves the mean of the host clocks.
pub open spec fn estimate_at(s: Seq<TimeDataPoint>, x: int) -> int
    recommends
        s.len() >= 1,
{
    if det(s) == 0 {
        round_to_nearest(sum_y(s), s.len() as int)
    } else {
        round_to_nearest(
            slope_num(s) * (s.len() * x - sum_x(s)) + det(s) * sum_y(s),
            s.len() * det(s),
        )
    }
}

/// `v` saturated to the `i64` range, mirroring the final conversion of the
/// estimate into a clock value.
pub open spec fn saturate_i64(v: int) -> int {
    if v < i64::MIN {
        i64::MIN as int
    } else if v > i64::MAX {
        i64::MAX as int
    } else {
        v
    }
}

/// Every retained pair is within the bounds that keep the arithmetic exact.
pub open spec fn bounded_points(s: Seq<TimeDataPoint>) -> bool {
    forall|i: int|
        0 <= i < s.len() ==> (#[trigger] s[i]).sample_clock <= MAX_SAMPLE_CLOCK
            && s[i].host_clock <= MAX_CLOCK_MICROS
}

/// The ring contents after inserting `p`: appended while the ring is still
/// filling, otherwise overwriting the slot at `index` (the oldest entry).
pub open spec fn ring_insert(
    s: Seq<TimeDataPoint>,
    index: int,
    capacity: int,
    p: TimeDataPoint,
) -> Seq<TimeDataPoint> {
    if s.len() < capacity {
        s.push(p)
    } else {
        s.update(index, p)
    }
}

/// Sum of the squared deviations of the sample-clock coordinates from `c`.
pub open spec fn sq_dev(s: Seq<TimeDataPoint>, c: int) -> int
    decreases s.len(),
{
    if s.len() == 0 {
        0
    } else {
        sq_dev(s.drop_last(), c) + (s.last().sample_clock - c) * (s.last().sample_clock - c)
    }
}

proof fn lemma_sq_dev_nonneg(s: Seq<TimeDataPoint>, c: int)
    ensures
        sq_dev(s, c) >= 0,
    decreases s.len(),
{
    if s.len() > 0 {
        lemma_sq_dev_nonneg(s.drop_last(), c);
        let t = s.last().sample_clock - c;
        assert(t * t >= 0) by (nonlinear_arith);
    }
}

proof fn lemma_sq_dev_expand(s: Seq<TimeDataPoint>, c: int)
    ensures
        sq_dev(s, c) == sum_xx(s) - 2 * c * sum_x(s) + s.len() * c * c,
    decreases s.len(),
{
    if s.len() > 0 {
        lemma_sq_dev_expand(s.drop_last(), c);
        let x = s.last().sample_clock as int;
        let n0 = s.drop_last().len() as int;
        let sx0 = sum_x(s.drop_last());
        let sxx0 = sum_xx(s.drop_last());
        assert((sxx0 - 2 * c * sx0 + n0 * c * c) + (x - c) * (x - c) == (sxx0 + x * x) - 2 * c
            * (sx0 + x) + (n0 + 1) * c * c) by (nonlinear_arith);
    }
}

proof fn lemma_det_push(s: Seq<TimeDataPoint>, p: TimeDataPoint)
    ensures
        det(s.push(p)) == det(s) + sq_dev(s, p.sample_clock as int),
{
    assert(s.push(p).drop_last() =~= s);
    let n = s.len() as int;
    let x = p.sample_clock as int;
    let sx = sum_x(s);
    let sxx = sum_xx(s);
    lemma_sq_dev_expand(s, x);
    assert((n + 1) * (sxx + x * x) - (sx + x) * (sx + x) == (n * sxx - sx * sx) + (sxx - 2 * x
        * sx + n * x * x)) by (nonlinear_arith);
}

/// The slope denominator is never negative; it is the scaled variance of
/// the sample-clock coordinates.
pub proof fn lemma_det_nonneg(s: Seq<TimeDataPoint>)
    ensures
        det(s) >= 0,
    decreases s.len(),
{
    if s.len() == 0 {
        assert(det(s) == 0);
    } else {
        let s0 = s.drop_last();
        lemma_det_nonneg(s0);
        lemma_sq_dev_nonneg(s0, s.last().sample_clock as int);
        lemma_det_push(s0, s.last());
        assert(s0.push(s.last()) =~= s);
    }
}

/// `p / q` rounded to nearest, ties away from zero, computed exactly.
fn round_div(p: i128, q: i128) -> (r: i128)
    requires
        1 <= q < 0x4000_0000_0000_0000_0000_0000_0000_0000,
        i128::MIN < p,
    ensures
        r == round_to_nearest(p as int, q as int),
{
    let (d, rem): (i128, i128) = if p >= 0 {
        proof {
            vstd::arithmetic::div_mod::lemma_fundamental_div_mod(p as int, q as int);
            vstd::arithmetic::div_mod::lemma_mod_bound(p as int, q as int);
        }
        (p / q, p % q)
    } else {
        let pn = -p;
        let dn = pn / q;
        let rn = pn % q;
        proof {
            vstd::arithmetic::div_mod::lemma_fundamental_div_mod(pn as int, q as int);
            vstd::arithmetic::div_mod::lemma_mod_bound(pn as int, q as int);
        }
        if rn == 0 {
            proof {
                assert((q as int) * (-(dn as int)) == -((q as int) * (dn as int)))
                    by (nonlinear_arith);
                lemma_fundamental_div_mod_converse(p as int, q as int, -(dn as int), 0int);
            }
            (-dn, 0)
        } else {
            proof {
                assert((q as int) * (-(dn as int) - 1) == -((q as int) * (dn as int)) - q)
                    by (nonlinear_arith);
                lemma_fundamental_div_mod_converse(
                    p as int,
                    q as int,
                    -(dn as int) - 1,
                    q - rn as int,
                );
            }
            (-dn - 1, q - rn)
        }
    };
    if 2 * rem < q {
        d
    } else if 2 * rem > q {
        proof {
            if p >= 0 {
                lemma_div_is_ordered_by_denominator(p as int, 2, q as int);
            }
        }
        d + 1
    } else if p >= 0 {
        proof {
            lemma_div_is_ordered_by_denominator(p as int, 2, q as int);
        }
        d + 1
    } else {
        d
    }
}

proof fn lemma_sums_take_step(s: Seq<TimeDataPoint>, i: int)
    requires
        0 <= i < s.len(),
    ensures
        sum_x(s.take(i + 1)) == sum_x(s.take(i)) + s[i].sample_clock,
        sum_y(s.take(i + 1)) == sum_y(s.take(i)) + s[i].host_clock,
        sum_xx(s.take(i + 1)) == sum_xx(s.take(i)) + s[i].sample_clock * s[i].sample_clock,
        sum_xy(s.take(i + 1)) == sum_xy(s.take(i)) + s[i].sample_clock * s[i].host_clock,
{
    assert(s.take(i + 1).drop_last() =~= s.take(i));
    assert(s.take(i + 1).last() == s[i]);
}

/// Every pair in `s` lies exactly on the line `host = a * sample + b`.
pub open spec fn on_line(s: Seq<TimeDataPoint>, a: int, b: int) -> bool {
    forall|i: int|
        0 <= i < s.len() ==> (#[trigger] s[i]).host_clock == a * s[i].sample_clock + b
}

/// No two retained pairs share a sample clock.  Strictly increasing
/// insertion clocks give this, in whatever order the ring stores them.
pub open spec fn distinct_clocks(s: Seq<TimeDataPoint>) -> bool {
    forall|i: int, j: int|
        0 <= i < j < s.len() ==> (#[trigger] s[i]).sample_clock != (#[trigger] s[j]).sample_clock
}

proof fn lemma_line_sums(s: Seq<TimeDataPoint>, a: int, b: int)
    requires
        on_line(s, a, b),
    ensures
        sum_xy(s) == a * sum_xx(s) + b * sum_x(s),
        sum_y(s) == a * sum_x(s) + s.len() * b,
    decreases s.len(),
{
    if s.len() == 0 {
        assert(a * 0 + b * 0 == 0) by (nonlinear_arith);
        assert(a * 0 + 0 * b == 0) by (nonlinear_arith);
    } else {
        let s0 = s.drop_last();
        assert forall|i: int| 0 <= i < s0.len() implies (#[trigger] s0[i]).host_clock == a
            * s0[i].sample_clock + b by {
            assert(s0[i] == s[i]);
        }
        lemma_line_sums(s0, a, b);
        let x = s.last().sample_clock as int;
        let y = s.last().host_clock as int;
        assert(s.last() == s[s.len() - 1]);
        assert(y == a * x + b);
        let sx0 = sum_x(s0);
        let sxx0 = sum_xx(s0);
        let n0 = s0.len() as int;
        assert((a * sxx0 + b * sx0) + x * y == a * (sxx0 + x * x) + b * (sx0 + x))
            by (nonlinear_arith)
            requires
                y == a * x + b,
        ;
        assert((a * sx0 + n0 * b) + y == a * (sx0 + x) + (n0 + 1) * b) by (nonlinear_arith)
            requires
                y == a * x + b,
        ;
    }
}

proof fn lemma_sq_dev_pos_of_avoided(s: Seq<TimeDataPoint>, c: int)
    requires
        s.len() >= 1,
        forall|i: int| 0 <= i < s.len() ==> (#[trigger] s[i]).sample_clock != c,
    ensures
        sq_dev(s, c) >= 1,
    decreases s.len(),
{
    let s0 = s.drop_last();
    let x = s.last().sample_clock as int;
    assert(s.last() == s[s.len() - 1]);
    assert((x - c) * (x - c) >= 1) by (nonlinear_arith)
        requires
            x != c,
    ;
    if s0.len() > 0 {
        assert forall|i: int| 0 <= i < s0.len() implies (#[trigger] s0[i]).sample_clock != c by {
            assert(s0[i] == s[i]);
        }
        lemma_sq_dev_pos_of_avoided(s0, c);
    }
}

proof fn lemma_det_pos_of_distinct(s: Seq<TimeDataPoint>)
    requires
        s.len() >= 2,
        distinct_clocks(s),
    ensures
        det(s) >= 1,
    decreases s.len(),
{
    let s0 = s.drop_last();
    assert forall|i: int, j: int| 0 <= i < j < s0.len() implies (#[trigger] s0[i]).sample_clock != (
    #[trigger] s0[j]).sample_clock by {
        assert(s0[i] == s[i] && s0[j] == s[j]);
    }
    lemma_det_push(s0, s.last());
    assert(s0.push(s.last()) =~= s);
    let c = s.last().sample_clock as int;
    assert(s.last() == s[s.len() - 1]);
    assert forall|i: int| 0 <= i < s0.len() implies (#[trigger] s0[i]).sample_clock != c by {
        assert(s0[i] == s[i]);
    }
    lemma_sq_dev_pos_of_avoided(s0, c);
    if s.len() == 2 {
        assert(s0 =~= seq![s[0]]);
        lemma_singleton_sums(s[0]);
    } else {
        lemma_det_pos_of_distinct(s0);
    }
}

proof fn lemma_singleton_sums(p: TimeDataPoint)
    ensures
        sum_x(seq![p]) == p.sample_clock,
        sum_y(seq![p]) == p.host_clock,
        sum_xx(seq![p]) == p.sample_clock * p.sample_clock,
        sum_xy(seq![p]) == p.sample_clock * p.host_clock,
        det(seq![p]) == 0,
{
    let s = seq![p];
    assert(s.last() == p);
    assert(s.drop_last() =~= Seq::<TimeDataPoint>::empty());
    assert(sum_x(s.drop_last()) == 0);
    assert(sum_y(s.drop_last()) == 0);
    assert(sum_xx(s.drop_last()) == 0);
    assert(sum_xy(s.drop_last()) == 0);
    let x0 = p.sample_clock as int;
    assert(det(s) == 1 * (x0 * x0) - x0 * x0 && 1 * (x0 * x0) - x0 * x0 == 0) by (nonlinear_arith)
        requires
            det(s) == 1 * (x0 * x0) - x0 * x0,
    ;
}

proof fn lemma_round_exact(k: int, m: int)
    requires
        m >= 1,
    ensures
        round_to_nearest(k * m, m) == k,
{
    assert(k * m == m * k + 0) by (nonlinear_arith);
    lemma_fundamental_div_mod_converse(k * m, m, k, 0);
}

/// With noise-free linear observations `host = a * sample + b`, taken at
/// pairwise-distinct sample clocks (as strictly increasing insertions
/// give, in any ring order), the fitted line reproduces the data: the
/// estimate at any retained sample clock is exactly `a * x + b`.
pub proof fn lemma_estimate_exact_on_line(s: Seq<TimeDataPoint>, a: int, b: int, x: int)
    requires
        s.len() >= 1,
        on_line(s, a, b),
        distinct_clocks(s),
        exists|i: int| 0 <= i < s.len() && (#[trigger] s[i]).sample_clock == x,
    ensures
        estimate_at(s, x) == a * x + b,
{
    lemma_line_sums(s, a, b);
    let n = s.len() as int;
    let sx = sum_x(s);
    let sy = sum_y(s);
    let sxx = sum_xx(s);
    let sxy = sum_xy(s);
    if s.len() == 1 {
        let x0 = s[0].sample_clock as int;
        assert(s =~= seq![s[0]]);
        lemma_singleton_sums(s[0]);
        let i = choose|i: int| 0 <= i < s.len() && (#[trigger] s[i]).sample_clock == x;
        assert(i == 0 && x == x0);
        assert(sy == a * x0 + b) by (nonlinear_arith)
            requires
                sy == a * sx + 1 * b,
                sx == x0,
        ;
        lemma_round_exact(sy, 1);
        assert(sy * 1 == sy) by (nonlinear_arith);
    } else {
        lemma_det_pos_of_distinct(s);
        let d = det(s);
        assert(slope_num(s) == a * d) by (nonlinear_arith)
            requires
                slope_num(s) == n * sxy - sx * sy,
                d == n * sxx - sx * sx,
                sxy == a * sxx + b * sx,
                sy == a * sx + n * b,
        ;
        assert(slope_num(s) * (n * x - sx) == a * d * (n * x) - a * d * sx) by (nonlinear_arith)
            requires
                slope_num(s) == a * d,
        ;
        assert(d * sy == a * d * sx + d * (n * b)) by (nonlinear_arith)
            requires
                sy == a * sx + n * b,
        ;
        assert((a * x + b) * (n * d) == a * d * (n * x) + d * (n * b)) by (nonlinear_arith);
        assert(n * d >= 1) by (nonlinear_arith)
            requires
                n >= 2,
                d >= 1,
        ;
        lemma_round_exact(a * x + b, n * d);
    }
}

/// With exactly one retained observation the fitted line is degenerate:
/// the estimate is that observation's host clock, whatever sample clock is
/// queried.
pub proof fn lemma_single_sample_estimate(p: TimeDataPoint, x: int)
    ensures
        estimate_at(seq![p], x) == p.host_clock,
{
    lemma_singleton_sums(p);
    lemma_round_exact(p.host_clock as int, 1);
    assert((p.host_clock as int) * 1 == p.host_clock) by (nonlinear_arith);
}

/// Once the ring is full, the slot at `idx` holds its oldest entry, and the
/// next insertion overwrites it: two full rings that differ only in that
/// slot agree completely after inserting the same pair, so every later
/// estimate agrees as well.
pub proof fn lemma_oldest_slot_irrelevant(
    s1: Seq<TimeDataPoint>,
    s2: Seq<TimeDataPoint>,
    idx: int,
    cap: int,
    p: TimeDataPoint,
    x: int,
)
    requires
        s1.len() == cap,
        s2.len() == cap,
        0 <= idx < cap,
        forall|j: int| 0 <= j < cap && j != idx ==> s1[j] == s2[j],
    ensures
        ring_insert(s1, idx, cap, p) == ring_insert(s2, idx, cap, p),
        estimate_at(ring_insert(s1, idx, cap, p), x) == estimate_at(
            ring_insert(s2, idx, cap, p),
            x,
        ),
{
    assert(s1.update(idx, p) =~= s2.update(idx, p));
}

/// Fits the least-squares line through the buffered points and evaluates it
/// at `sample_clock`, exactly as [`estimate_at`] specifies, saturating the
/// rounded value into the `i64` clock range.
fn linear_regression_estimate(points: &Vec<TimeDataPoint>, sample_clock: u64) -> (r: i64)
    requires
        1 <= points@.len() <= RING_CAPACITY,
        bounded_points(points@),
        sample_clock <= MAX_SAMPLE_CLOCK,
    ensures
        r == saturate_i64(estimate_at(points@, sample_clock as int)),
{
    let ghost s = points@;
    let n_usize = points.len();
    let mut sx: i128 = 0;
    let mut sy: i128 = 0;
    let mut sxx: i128 = 0;
    let mut sxy: i128 = 0;
    let mut i: usize = 0;
    while i < n_usize
        invariant
            s == points@,
            n_usize == s.len(),
            1 <= s.len() <= 512,
            bounded_points(s),
            i <= n_usize,
            sx == sum_x(s.take(i as int)),
            sy == sum_y(s.take(i as int)),
            sxx == sum_xx(s.take(i as int)),
            sxy == sum_xy(s.take(i as int)),
            // bounds with 2^30 (sample clock), 2^38 (host clock) and their
            // products 2^60 and 2^68, written as numerals
            0 <= sx <= i * 0x4000_0000,
            0 <= sy <= i * 0x40_0000_0000,
            0 <= sxx <= i * 0x1000_0000_0000_0000,
            0 <= sxy <= i * 0x10_0000_0000_0000_0000,
        decreases n_usize - i,
    {
        let p = points[i];
        let x = p.sample_clock as i128;
        let y = p.host_clock as i128;
        proof {
            lemma_sums_take_step(s, i as int);
            assert(0 <= x * x <= 0x1000_0000_0000_0000) by (nonlinear_arith)
                requires
                    0 <= x <= 0x4000_0000,
            ;
            assert(0 <= x * y <= 0x10_0000_0000_0000_0000) by (nonlinear_arith)
                requires
                    0 <= x <= 0x4000_0000,
                    0 <= y <= 0x40_0000_0000,
            ;
        }
        sx = sx + x;
        sy = sy + y;
        sxx = sxx + x * x;
        sxy = sxy + x * y;
        i = i + 1;
    }
    proof {
        assert(s.take(n_usize as int) =~= s);
        lemma_det_nonneg(s);
        // 512 * 2^30 = 2^39, 512 * 2^38 = 2^47, 512 * 2^60 = 2^69,
        // 512 * 2^68 = 2^77
        assert(0 <= sx * sx <= 0x4000_0000_0000_0000_0000) by (nonlinear_arith)
            requires
                0 <= sx <= 0x80_0000_0000,
        ;
        assert(0 <= sx * sy <= 0x40_0000_0000_0000_0000_0000) by (nonlinear_arith)
            requires
                0 <= sx <= 0x80_0000_0000,
                0 <= sy <= 0x8000_0000_0000,
        ;
        assert(0 <= (n_usize as int) * sxx <= 0x4000_0000_0000_0000_0000) by (nonlinear_arith)
            requires
                0 <= n_usize <= 512,
                0 <= sxx <= 0x20_0000_0000_0000_0000,
        ;
        assert(0 <= (n_usize as int) * sxy <= 0x40_0000_0000_0000_0000_0000) by (nonlinear_arith)
            requires
                0 <= n_usize <= 512,
                0 <= sxy <= 0x2000_0000_0000_0000_0000,
        ;
    }
    let n: i128 = n_usize as i128;
    let det_e: i128 = n * sxx - sx * sx;
    let slope_e: i128 = n * sxy - sx * sy;
    if det_e == 0 {
        let rounded = round_div(sy, n);
        saturate_to_i64(rounded)
    } else {
        let x_query: i128 = sample_clock as i128;
        proof {
            assert(0 <= n * x_query <= 0x80_0000_0000) by (nonlinear_arith)
                requires
                    1 <= n <= 512,
                    0 <= x_query <= 0x4000_0000,
            ;
        }
        let t1: i128 = n * x_query - sx;
        proof {
            // |slope_e| <= 2^86, |t1| <= 2^39, so |slope_e * t1| <= 2^125;
            // det_e <= 2^78 and sy <= 2^47, so det_e * sy <= 2^125
            assert(-0x2000_0000_0000_0000_0000_0000_0000_0000 <= slope_e * t1
                <= 0x2000_0000_0000_0000_0000_0000_0000_0000) by (nonlinear_arith)
                requires
                    -0x40_0000_0000_0000_0000_0000 <= slope_e <= 0x40_0000_0000_0000_0000_0000,
                    -0x80_0000_0000 <= t1 <= 0x80_0000_0000,
            ;
            assert(0 <= det_e * sy <= 0x2000_0000_0000_0000_0000_0000_0000_0000)
                by (nonlinear_arith)
                requires
                    0 <= det_e <= 0x4000_0000_0000_0000_0000,
                    0 <= sy <= 0x8000_0000_0000,
            ;
            assert(1 <= n * det_e <= 0x80_0000_0000_0000_0000_0000) by (nonlinear_arith)
                requires
                    1 <= n <= 512,
                    1 <= det_e <= 0x4000_0000_0000_0000_0000,
            ;
        }
        let num: i128 = slope_e * t1 + det_e * sy;
        let den: i128 = n * det_e;
        let rounded = round_div(num, den);
        saturate_to_i64(rounded)
    }
}

/// Saturating conversion of the rounded estimate into the `i64` clock range.
fn saturate_to_i64(v: i128) -> (r: i64)
    ensures
        r == saturate_i64(v as int),
{
    if v > i64::MAX as i128 {
        i64::MAX
    } else if v < i64::MIN as i128 {
        i64::MIN
    } else {
        v as i64
    }
}

/// Online clock-domain reconciliation: a ring of recent observations plus
/// the least-squares query over them.
pub struct HostTimeFilter {
    pub points_buffer: Vec<TimeDataPoint>,
    pub max_buffer_size: usize,
    pub index: usize,
}

impl HostTimeFilter {
    /// The retained observations, oldest-insertion order not guaranteed:
    /// slot order is storage order of the ring.
    pub open spec fn points(&self) -> Seq<TimeDataPoint> {
        self.points_buffer@
    }

    /// Ring capacity.
    pub open spec fn capacity(&self) -> int {
        self.max_buffer_size as int
    }

    /// Slot that the next insertion overwrites once the ring is full.
    pub open spec fn next_slot(&self) -> int {
        self.index as int
    }

    /// Structural invariant of the ring.
    pub open spec fn wf(&self) -> bool {
        &&& 1 <= self.max_buffer_size <= RING_CAPACITY
        &&& self.points_buffer@.len() <= self.max_buffer_size
        &&& self.index < self.max_buffer_size
        &&& self.points_buffer@.len() < self.max_buffer_size ==> self.index == self.points_buffer@.len()
        &&& bounded_points(self.points_buffer@)
    }

    pub fn new() -> (f: HostTimeFilter)
        ensures
            f.wf(),
            f.points() =~= Seq::<TimeDataPoint>::empty(),
            f.capacity() == RING_CAPACITY,
            f.next_slot() == 0,
    {
        let max_buffer_size: usize = RING_CAPACITY;
        HostTimeFilter {
            points_buffer: Vec::with_capacity(max_buffer_size),
            max_buffer_size,
            index: 0,
        }
    }

    /// Forget every retained observation (used when a stream is restarted).
    pub fn reset(&mut self)
        requires
            old(self).wf(),
        ensures
            final(self).wf(),
            final(self).points() =~= Seq::<TimeDataPoint>::empty(),
            final(self).capacity() == old(self).capacity(),
            final(self).next_slot() == 0,
    {
        self.points_buffer = Vec::with_capacity(self.max_buffer_size);
        self.index = 0;
    }

    /// Record the pair `(sample_clock, clock_micros)` in the ring
    /// (overwriting the oldest entry once the ring is full), refit the
    /// least-squares line over the ring's contents, and return the line
    /// evaluated at `sample_clock`, rounded to the nearest microsecond.
    pub fn sample_time_to_host_time(&mut self, clock_micros: i64, sample_clock: u64) -> (r: i64)
        requires
            old(self).wf(),
            0 <= clock_micros <= MAX_CLOCK_MICROS,
            sample_clock <= MAX_SAMPLE_CLOCK,
        ensures
            final(self).wf(),
            final(self).points() == ring_insert(
                old(self).points(),
                old(self).next_slot(),
                old(self).capacity(),
                TimeDataPoint { sample_clock, host_clock: clock_micros as u64 },
            ),
            final(self).capacity() == old(self).capacity(),
            final(self).next_slot() == (old(self).next_slot() + 1) % old(self).capacity(),
            r == saturate_i64(estimate_at(final(self).points(), sample_clock as int)),
    {
        let point = TimeDataPoint::new(sample_clock, clock_micros as u64);
        if self.points_buffer.len() < self.max_buffer_size {
            self.points_buffer.push(point);
        } else {
            self.points_buffer.set(self.index, point);
        }
        self.index = (self.index + 1) % self.max_buffer_size;
        proof {
            if old(self).index + 1 < old(self).max_buffer_size {
                vstd::arithmetic::div_mod::lemma_small_mod(
                    (old(self).index + 1) as nat,
                    old(self).max_buffer_size as nat,
                );
            } else {
                vstd::arithmetic::div_mod::lemma_mod_self_0(old(self).max_buffer_size as int);
            }
            let s0 = old(self).points_buffer@;
            let s1 = self.points_buffer@;
            assert forall|j: int| 0 <= j < s1.len() implies (#[trigger] s1[j]).sample_clock
                <= MAX_SAMPLE_CLOCK && s1[j].host_clock <= MAX_CLOCK_MICROS by {
                if j < s0.len() && j != old(self).index {
                    assert(s1[j] == s0[j]);
                }
            }
        }
        linear_regression_estimate(&self.points_buffer, sample_clock)
    }
}

} // verus!

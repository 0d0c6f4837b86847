//! Candidate scoring: a pure function from courier and order to a score.
//!
//! Every factor of the score is a ratio of small integers, so the whole
//! computation is exact: a score is held as a fraction `num / den` in
//! `[0, 1]` rather than as an inexact decimal. Distances come in metres
//! (`1 / (1 + km)` equals `1000 / (1000 + m)`), ratings in thousandths of a
//! star, and the weights 0.40 / 0.30 / 0.20 / 0.10 are applied over the
//! common denominator `10 * d.den * l.den * r.den * p.den`.

use vstd::prelude::*;
use vstd::arithmetic::mul::{
    lemma_mul_is_distributive_add, lemma_mul_is_distributive_add_other_way, lemma_mul_inequality,
    lemma_mul_strict_inequality,
};

use crate::models::{Courier, Priority};

verus! {

/// Distances at least this far (100 000 km, five times around the Earth)
/// score alike: the clamp keeps every product below inside `u64`.
pub const MAX_DISTANCE_M: u64 = 100_000_000;

/// Denominator of the rating factor: ratings run 0..=5000 thousandths.
pub const RATING_DEN: u64 = 5000;

/// Denominator of the priority factor: points run 50..=100 hundredths.
pub const PRIORITY_DEN: u64 = 100;

/// An exact score in `[0, 1]`: the fraction `num / den`.
#[derive(Clone, Copy, Debug, PartialEq, Eq, Structural)]
pub struct Score {
    pub num: u64,
    pub den: u64,
}

impl Score {
    /// A score is a well-formed fraction in `[0, 1]`.
    pub open spec fn wf(self) -> bool {
        &&& 1 <= self.den
        &&& self.num <= self.den
    }
}

/// `a` is strictly greater than `b` as a rational number.
pub open spec fn score_gt(a: Score, b: Score) -> bool {
    a.num * b.den > b.num * a.den
}

/// `a` is at least `b` as a rational number.
pub open spec fn score_ge(a: Score, b: Score) -> bool {
    a.num * b.den >= b.num * a.den
}

/// Exact comparison of two scores by cross-multiplication.
pub fn score_gt_exec(a: &Score, b: &Score) -> (r: bool)
    ensures
        r == score_gt(*a, *b),
{
    proof {
        assert((a.num as int) * (b.den as int) < 0x10000_0000_0000_0000_0000_0000_0000_0000int
            && (b.num as int) * (a.den as int) < 0x10000_0000_0000_0000_0000_0000_0000_0000int)
            by (nonlinear_arith)
            requires
                a.num <= 0xFFFF_FFFF_FFFF_FFFFu64,
                b.num <= 0xFFFF_FFFF_FFFF_FFFFu64,
                a.den <= 0xFFFF_FFFF_FFFF_FFFFu64,
                b.den <= 0xFFFF_FFFF_FFFF_FFFFu64,
        ;
    }
    (a.num as u128) * (b.den as u128) > (b.num as u128) * (a.den as u128)
}

/// The four normalized sub-scores before weighting.
#[derive(Clone, Copy, Debug, PartialEq, Eq, Structural)]
pub struct ScoreBreakdown {
    pub distance_score: Score,
    pub load_score: Score,
    pub rating_score: Score,
    pub priority_score: Score,
}

impl ScoreBreakdown {
    /// Validity: each factor lies in `[0, 1]`, with the denominators the
    /// factor functions produce — the bounds that keep the weighted sum
    /// inside `u64`.
    pub open spec fn wf(self) -> bool {
        &&& self.distance_score.wf()
        &&& self.distance_score.den <= 1000 + MAX_DISTANCE_M
        &&& self.load_score.wf()
        &&& self.load_score.den <= 255
        &&& self.rating_score.wf()
        &&& self.rating_score.den == RATING_DEN
        &&& self.priority_score.wf()
        &&& self.priority_score.den == PRIORITY_DEN
    }
}

/// Distances are clamped before scoring; on Earth the clamp never binds.
pub open spec fn clamped_distance(distance_m: u64) -> u64 {
    if distance_m > MAX_DISTANCE_M {
        MAX_DISTANCE_M
    } else {
        distance_m
    }
}

/// distance factor: 1 / (1 + km), exactly 1000 / (1000 + m).
pub open spec fn spec_distance_score(distance_m: u64) -> Score {
    Score { num: 1000, den: (1000 + clamped_distance(distance_m)) as u64 }
}

/// load factor: clamp(1 - load/capacity, 0, 1), and 0 for a zero capacity.
pub open spec fn spec_load_score(current_load: u8, capacity: u8) -> Score {
    if capacity == 0 {
        Score { num: 0, den: 1 }
    } else if current_load >= capacity {
        Score { num: 0, den: capacity as u64 }
    } else {
        Score { num: (capacity - current_load) as u64, den: capacity as u64 }
    }
}

/// rating factor: clamp(rating / 5, 0, 1) over thousandths.
pub open spec fn spec_rating_score(rating_milli: u32) -> Score {
    if rating_milli > 5000 {
        Score { num: RATING_DEN, den: RATING_DEN }
    } else {
        Score { num: rating_milli as u64, den: RATING_DEN }
    }
}

/// Priority points in hundredths: Low 0.50, Normal 0.70, High 0.85, Urgent 1.00.
pub open spec fn priority_points(p: Priority) -> u64 {
    match p {
        Priority::Low => 50,
        Priority::Normal => 70,
        Priority::High => 85,
        Priority::Urgent => 100,
    }
}

pub open spec fn spec_priority_score(p: Priority) -> Score {
    Score { num: priority_points(p), den: PRIORITY_DEN }
}

/// The full breakdown a courier earns for an order at a given pickup distance.
pub open spec fn spec_breakdown(c: Courier, distance_m: u64, p: Priority) -> ScoreBreakdown {
    ScoreBreakdown {
        distance_score: spec_distance_score(distance_m),
        load_score: spec_load_score(c.current_load, c.capacity),
        rating_score: spec_rating_score(c.rating_milli),
        priority_score: spec_priority_score(p),
    }
}

/// Numerator of 0.40*d + 0.30*l + 0.20*r + 0.10*p over the common
/// denominator `weighted_den`.
pub open spec fn weighted_num(b: ScoreBreakdown) -> int {
    4 * b.distance_score.num * b.load_score.den * b.rating_score.den * b.priority_score.den
        + 3 * b.load_score.num * b.distance_score.den * b.rating_score.den * b.priority_score.den
        + 2 * b.rating_score.num * b.distance_score.den * b.load_score.den * b.priority_score.den
        + 1 * b.priority_score.num * b.distance_score.den * b.load_score.den * b.rating_score.den
}

pub open spec fn weighted_den(b: ScoreBreakdown) -> int {
    10 * b.distance_score.den * b.load_score.den * b.rating_score.den * b.priority_score.den
}

/// The exact total score of a breakdown.
pub open spec fn spec_weighted_score(b: ScoreBreakdown) -> Score {
    Score { num: weighted_num(b) as u64, den: weighted_den(b) as u64 }
}

/// The exact total score a courier earns for an order at a pickup distance.
pub open spec fn spec_total_score(c: Courier, distance_m: u64, p: Priority) -> Score {
    spec_weighted_score(spec_breakdown(c, distance_m, p))
}

/// The weighted numerator and denominator of a well-formed breakdown fit in
/// `u64` — every partial product on the way is bounded too — and the total
/// lies in `[0, 1]`.
pub proof fn lemma_weighted_bounds(b: ScoreBreakdown)
    requires
        b.wf(),
    ensures
        0 <= weighted_num(b) <= weighted_den(b),
        1 <= weighted_den(b) <= 127_501_275_000_000_000int,
{
    let dn = b.distance_score.num as int;
    let dd = b.distance_score.den as int;
    let ln = b.load_score.num as int;
    let ld = b.load_score.den as int;
    let rn = b.rating_score.num as int;
    let rd = b.rating_score.den as int;
    let pn = b.priority_score.num as int;
    let pd = b.priority_score.den as int;
    assert(0 <= 4 * dn * ld * rd * pd + 3 * ln * dd * rd * pd + 2 * rn * dd * ld * pd + 1 * pn
        * dd * ld * rd <= 10 * dd * ld * rd * pd && 1 <= 10 * dd * ld * rd * pd && 10 * dd * ld
        * rd * pd <= 127_501_275_000_000_000int) by (nonlinear_arith)
        requires
            0 <= dn <= dd,
            0 <= ln <= ld,
            0 <= rn <= rd,
            0 <= pn <= pd,
            1 <= dd <= 100_001_000,
            1 <= ld <= 255,
            rd == 5000,
            pd == 100,
    ;
}

/// Weighted sum of the four factors over their common denominator.
pub fn weighted_score(breakdown: &ScoreBreakdown) -> (t: Score)
    requires
        breakdown.wf(),
    ensures
        t == spec_weighted_score(*breakdown),
        t.wf(),
{
    proof {
        lemma_weighted_bounds(*breakdown);
    }
    let dn = breakdown.distance_score.num;
    let dd = breakdown.distance_score.den;
    let ln = breakdown.load_score.num;
    let ld = breakdown.load_score.den;
    let rn = breakdown.rating_score.num;
    let rd = breakdown.rating_score.den;
    let pn = breakdown.priority_score.num;
    let pd = breakdown.priority_score.den;
    proof {
        let dni = dn as int;
        let ddi = dd as int;
        let lni = ln as int;
        let ldi = ld as int;
        let rni = rn as int;
        let rdi = rd as int;
        let pni = pn as int;
        let pdi = pd as int;
        assert(4 * dni <= 400_004_000 && 4 * dni * ldi <= 102_001_020_000 && 4 * dni * ldi * rdi
            <= 510_005_100_000_000 && 4 * dni * ldi * rdi * pdi <= 51_000_510_000_000_000 && 3
            * lni <= 765 && 3 * lni * ddi <= 76_500_765_000 && 3 * lni * ddi * rdi
            <= 382_503_825_000_000 && 3 * lni * ddi * rdi * pdi <= 38_250_382_500_000_000 && 2
            * rni <= 10_000 && 2 * rni * ddi <= 1_000_010_000_000 && 2 * rni * ddi * ldi
            <= 255_002_550_000_000 && 2 * rni * ddi * ldi * pdi <= 25_500_255_000_000_000 && 1
            * pni <= 100 && 1 * pni * ddi <= 10_000_100_000 && 1 * pni * ddi * ldi
            <= 2_550_025_500_000 && 1 * pni * ddi * ldi * rdi <= 12_750_127_500_000_000 && 10
            * ddi <= 1_000_010_000 && 10 * ddi * ldi <= 255_002_550_000 && 10 * ddi * ldi * rdi
            <= 1_275_012_750_000_000 && 10 * ddi * ldi * rdi * pdi <= 127_501_275_000_000_000 && 0
            <= 4 * dni * ldi * rdi * pdi && 0 <= 3 * lni * ddi * rdi * pdi && 0 <= 2 * rni * ddi
            * ldi * pdi && 0 <= 1 * pni * ddi * ldi * rdi && 1 <= 10 * ddi * ldi * rdi * pdi)
            by (nonlinear_arith)
            requires
                0 <= dni <= ddi,
                0 <= lni <= ldi,
                0 <= rni <= rdi,
                0 <= pni <= pdi,
                1 <= ddi <= 100_001_000,
                1 <= ldi <= 255,
                rdi == 5000,
                pdi == 100,
        ;
    }
    let num = 4 * dn * ld * rd * pd + 3 * ln * dd * rd * pd + 2 * rn * dd * ld * pd + 1 * pn * dd
        * ld * rd;
    let den = 10 * dd * ld * rd * pd;
    Score { num, den }
}

fn distance_score(distance_m: u64) -> (s: Score)
    ensures
        s == spec_distance_score(distance_m),
{
    let clamped = if distance_m > MAX_DISTANCE_M {
        MAX_DISTANCE_M
    } else {
        distance_m
    };
    Score { num: 1000, den: 1000 + clamped }
}

fn load_score(current_load: u8, capacity: u8) -> (s: Score)
    ensures
        s == spec_load_score(current_load, capacity),
{
    if capacity == 0 {
        Score { num: 0, den: 1 }
    } else if current_load >= capacity {
        Score { num: 0, den: capacity as u64 }
    } else {
        Score { num: (capacity - current_load) as u64, den: capacity as u64 }
    }
}

fn rating_score(rating_milli: u32) -> (s: Score)
    ensures
        s == spec_rating_score(rating_milli),
{
    if rating_milli > 5000 {
        Score { num: RATING_DEN, den: RATING_DEN }
    } else {
        Score { num: rating_milli as u64, den: RATING_DEN }
    }
}

fn priority_score(priority: &Priority) -> (s: Score)
    ensures
        s == spec_priority_score(*priority),
{
    match priority {
        Priority::Low => Score { num: 50, den: PRIORITY_DEN },
        Priority::Normal => Score { num: 70, den: PRIORITY_DEN },
        Priority::High => Score { num: 85, den: PRIORITY_DEN },
        Priority::Urgent => Score { num: 100, den: PRIORITY_DEN },
    }
}

/// Pure, deterministic scoring of one courier for one order whose pickup is
/// `distance_m` metres away. The total and all four factors lie in `[0, 1]`.
pub fn compute_score(courier: &Courier, priority: &Priority, distance_m: u64) -> (r: (
    Score,
    ScoreBreakdown,
))
    ensures
        r.1 == spec_breakdown(*courier, distance_m, *priority),
        r.1.wf(),
        r.0 == spec_total_score(*courier, distance_m, *priority),
        r.0.wf(),
{
    let breakdown = ScoreBreakdown {
        distance_score: distance_score(distance_m),
        load_score: load_score(courier.current_load, courier.capacity),
        rating_score: rating_score(courier.rating_milli),
        priority_score: priority_score(priority),
    };
    let score = weighted_score(&breakdown);
    (score, breakdown)
}

/// The breakdown of any courier is well formed, whatever the inputs.
pub proof fn lemma_breakdown_wf(c: Courier, distance_m: u64, p: Priority)
    ensures
        spec_breakdown(c, distance_m, p).wf(),
{
}

/// Any total score is a well-formed fraction in `[0, 1]`.
pub proof fn lemma_total_score_wf(c: Courier, distance_m: u64, p: Priority)
    ensures
        spec_total_score(c, distance_m, p).wf(),
{
    lemma_breakdown_wf(c, distance_m, p);
    lemma_weighted_bounds(spec_breakdown(c, distance_m, p));
}

/// A strictly better distance factor, everything else equal, gives a strictly
/// greater total.
proof fn lemma_weighted_gt_by_distance(b1: ScoreBreakdown, b2: ScoreBreakdown)
    requires
        b1.wf(),
        b2.wf(),
        b1.load_score == b2.load_score,
        b1.rating_score == b2.rating_score,
        b1.priority_score == b2.priority_score,
        score_gt(b1.distance_score, b2.distance_score),
    ensures
        score_gt(spec_weighted_score(b1), spec_weighted_score(b2)),
{
    lemma_weighted_bounds(b1);
    lemma_weighted_bounds(b2);
    let dn1 = b1.distance_score.num as int;
    let dd1 = b1.distance_score.den as int;
    let dn2 = b2.distance_score.num as int;
    let dd2 = b2.distance_score.den as int;
    let ln = b1.load_score.num as int;
    let ld = b1.load_score.den as int;
    let rn = b1.rating_score.num as int;
    let rd = b1.rating_score.den as int;
    let pn = b1.priority_score.num as int;
    let pd = b1.priority_score.den as int;
    let k = ld * rd * pd;
    let m = 3 * ln * rd * pd + 2 * rn * ld * pd + pn * ld * rd;
    assert(k >= 1 && m >= 0 && k * k >= 1) by (nonlinear_arith)
        requires
            k == ld * rd * pd,
            m == 3 * ln * rd * pd + 2 * rn * ld * pd + pn * ld * rd,
            1 <= ld,
            1 <= rd,
            1 <= pd,
            0 <= ln,
            0 <= rn,
            0 <= pn,
    ;
    let n1 = weighted_num(b1);
    let d1 = weighted_den(b1);
    let n2 = weighted_num(b2);
    let d2 = weighted_den(b2);
    assert(4 * dn1 * ld * rd * pd == 4 * dn1 * k) by (nonlinear_arith)
        requires
            k == ld * rd * pd,
    ;
    assert(4 * dn2 * ld * rd * pd == 4 * dn2 * k) by (nonlinear_arith)
        requires
            k == ld * rd * pd,
    ;
    assert(3 * ln * dd1 * rd * pd == dd1 * (3 * ln * rd * pd)) by (nonlinear_arith);
    assert(2 * rn * dd1 * ld * pd == dd1 * (2 * rn * ld * pd)) by (nonlinear_arith);
    assert(1 * pn * dd1 * ld * rd == dd1 * (pn * ld * rd)) by (nonlinear_arith);
    assert(3 * ln * dd2 * rd * pd == dd2 * (3 * ln * rd * pd)) by (nonlinear_arith);
    assert(2 * rn * dd2 * ld * pd == dd2 * (2 * rn * ld * pd)) by (nonlinear_arith);
    assert(1 * pn * dd2 * ld * rd == dd2 * (pn * ld * rd)) by (nonlinear_arith);
    lemma_mul_is_distributive_add(dd1, 3 * ln * rd * pd + 2 * rn * ld * pd, pn * ld * rd);
    lemma_mul_is_distributive_add(dd1, 3 * ln * rd * pd, 2 * rn * ld * pd);
    lemma_mul_is_distributive_add(dd2, 3 * ln * rd * pd + 2 * rn * ld * pd, pn * ld * rd);
    lemma_mul_is_distributive_add(dd2, 3 * ln * rd * pd, 2 * rn * ld * pd);
    assert(3 * ln * dd1 * rd * pd + 2 * rn * dd1 * ld * pd + 1 * pn * dd1 * ld * rd == dd1 * m);
    assert(3 * ln * dd2 * rd * pd + 2 * rn * dd2 * ld * pd + 1 * pn * dd2 * ld * rd == dd2 * m);
    assert(d1 == 10 * dd1 * k && d2 == 10 * dd2 * k) by (nonlinear_arith)
        requires
            d1 == 10 * dd1 * ld * rd * pd,
            d2 == 10 * dd2 * ld * rd * pd,
            k == ld * rd * pd,
    ;
    // n_i == 4 * dn_i * k + dd_i * m; expand the two cross-products.
    lemma_mul_is_distributive_add_other_way(10 * dd2 * k, 4 * dn1 * k, dd1 * m);
    lemma_mul_is_distributive_add_other_way(10 * dd1 * k, 4 * dn2 * k, dd2 * m);
    assert((4 * dn1 * k) * (10 * dd2 * k) == 40 * ((dn1 * dd2) * (k * k))) by (nonlinear_arith);
    assert((4 * dn2 * k) * (10 * dd1 * k) == 40 * ((dn2 * dd1) * (k * k))) by (nonlinear_arith);
    assert((dd1 * m) * (10 * dd2 * k) == (dd2 * m) * (10 * dd1 * k)) by (nonlinear_arith);
    lemma_mul_strict_inequality(dn2 * dd1, dn1 * dd2, k * k);
    assert((dn2 * dd1) * (k * k) < (dn1 * dd2) * (k * k));
    assert(n1 * d2 > n2 * d1);
}

/// Monotone in (-distance): with all other factors equal, the courier with
/// the smaller pickup distance scores strictly higher.
pub proof fn lemma_closer_courier_scores_higher(
    c1: Courier,
    c2: Courier,
    p: Priority,
    d1: u64,
    d2: u64,
)
    requires
        d1 < d2 <= MAX_DISTANCE_M,
        c1.current_load == c2.current_load,
        c1.capacity == c2.capacity,
        c1.rating_milli == c2.rating_milli,
    ensures
        score_gt(spec_total_score(c1, d1, p), spec_total_score(c2, d2, p)),
{
    lemma_breakdown_wf(c1, d1, p);
    lemma_breakdown_wf(c2, d2, p);
    lemma_weighted_gt_by_distance(spec_breakdown(c1, d1, p), spec_breakdown(c2, d2, p));
}

/// A strictly better factor over the same denominator, everything else equal,
/// gives a strictly greater total. The factor differences enter the weighted
/// numerator linearly, so one statement covers load, rating and priority.
proof fn lemma_weighted_gt_same_dens(b1: ScoreBreakdown, b2: ScoreBreakdown)
    requires
        b1.wf(),
        b2.wf(),
        b1.distance_score == b2.distance_score,
        b1.load_score.den == b2.load_score.den,
        b1.rating_score.den == b2.rating_score.den,
        b1.priority_score.den == b2.priority_score.den,
        b1.load_score.num >= b2.load_score.num,
        b1.rating_score.num >= b2.rating_score.num,
        b1.priority_score.num >= b2.priority_score.num,
        b1.load_score.num > b2.load_score.num || b1.rating_score.num > b2.rating_score.num
            || b1.priority_score.num > b2.priority_score.num,
    ensures
        score_gt(spec_weighted_score(b1), spec_weighted_score(b2)),
{
    lemma_weighted_bounds(b1);
    lemma_weighted_bounds(b2);
    let dd = b1.distance_score.den as int;
    let ln1 = b1.load_score.num as int;
    let ln2 = b2.load_score.num as int;
    let ld = b1.load_score.den as int;
    let rn1 = b1.rating_score.num as int;
    let rn2 = b2.rating_score.num as int;
    let rd = b1.rating_score.den as int;
    let pn1 = b1.priority_score.num as int;
    let pn2 = b2.priority_score.num as int;
    let pd = b1.priority_score.den as int;
    let u = dd * (rd * pd);
    let v = dd * (ld * pd);
    let w = dd * (ld * rd);
    assert(u >= 1 && v >= 1 && w >= 1) by (nonlinear_arith)
        requires
            u == dd * (rd * pd),
            v == dd * (ld * pd),
            w == dd * (ld * rd),
            dd >= 1,
            ld >= 1,
            rd >= 1,
            pd >= 1,
    ;
    assert(3 * ln1 * dd * rd * pd == (3 * ln1) * u && 3 * ln2 * dd * rd * pd == (3 * ln2) * u)
        by (nonlinear_arith)
        requires
            u == dd * (rd * pd),
    ;
    assert(2 * rn1 * dd * ld * pd == (2 * rn1) * v && 2 * rn2 * dd * ld * pd == (2 * rn2) * v)
        by (nonlinear_arith)
        requires
            v == dd * (ld * pd),
    ;
    assert(1 * pn1 * dd * ld * rd == pn1 * w && 1 * pn2 * dd * ld * rd == pn2 * w)
        by (nonlinear_arith)
        requires
            w == dd * (ld * rd),
    ;
    if ln1 > ln2 {
        lemma_mul_strict_inequality(3 * ln2, 3 * ln1, u);
        lemma_mul_inequality(2 * rn2, 2 * rn1, v);
        lemma_mul_inequality(pn2, pn1, w);
    } else if rn1 > rn2 {
        lemma_mul_inequality(3 * ln2, 3 * ln1, u);
        lemma_mul_strict_inequality(2 * rn2, 2 * rn1, v);
        lemma_mul_inequality(pn2, pn1, w);
    } else {
        lemma_mul_inequality(3 * ln2, 3 * ln1, u);
        lemma_mul_inequality(2 * rn2, 2 * rn1, v);
        lemma_mul_strict_inequality(pn2, pn1, w);
    }
    let n1 = weighted_num(b1);
    let n2 = weighted_num(b2);
    let d = weighted_den(b1);
    assert(n1 > n2);
    assert(weighted_den(b2) == d);
    lemma_mul_strict_inequality(n2, n1, d);
}

/// Monotone in (-load): lighter load, equal capacity, everything else equal,
/// scores strictly higher.
pub proof fn lemma_lighter_courier_scores_higher(
    c1: Courier,
    c2: Courier,
    p: Priority,
    distance_m: u64,
)
    requires
        c1.wf(),
        c2.wf(),
        c1.current_load < c2.current_load,
        c1.capacity == c2.capacity,
        c1.rating_milli == c2.rating_milli,
    ensures
        score_gt(spec_total_score(c1, distance_m, p), spec_total_score(c2, distance_m, p)),
{
    lemma_breakdown_wf(c1, distance_m, p);
    lemma_breakdown_wf(c2, distance_m, p);
    lemma_weighted_gt_same_dens(spec_breakdown(c1, distance_m, p), spec_breakdown(c2, distance_m, p));
}

/// Monotone in rating: a strictly higher rating, everything else equal,
/// scores strictly higher.
pub proof fn lemma_higher_rated_courier_scores_higher(
    c1: Courier,
    c2: Courier,
    p: Priority,
    distance_m: u64,
)
    requires
        c1.wf(),
        c2.wf(),
        c1.rating_milli > c2.rating_milli,
        c1.current_load == c2.current_load,
        c1.capacity == c2.capacity,
    ensures
        score_gt(spec_total_score(c1, distance_m, p), spec_total_score(c2, distance_m, p)),
{
    lemma_breakdown_wf(c1, distance_m, p);
    lemma_breakdown_wf(c2, distance_m, p);
    lemma_weighted_gt_same_dens(spec_breakdown(c1, distance_m, p), spec_breakdown(c2, distance_m, p));
}

/// Priority rank: a higher-point priority, everything else equal, scores
/// strictly higher; the points order Urgent > High > Normal > Low.
pub proof fn lemma_priority_rank(c: Courier, p1: Priority, p2: Priority, distance_m: u64)
    requires
        priority_points(p1) > priority_points(p2),
    ensures
        score_gt(spec_total_score(c, distance_m, p1), spec_total_score(c, distance_m, p2)),
        priority_points(Priority::Urgent) > priority_points(Priority::High) > priority_points(
            Priority::Normal,
        ) > priority_points(Priority::Low),
{
    lemma_breakdown_wf(c, distance_m, p1);
    lemma_breakdown_wf(c, distance_m, p2);
    lemma_weighted_gt_same_dens(spec_breakdown(c, distance_m, p1), spec_breakdown(c, distance_m, p2));
}

} // verus!

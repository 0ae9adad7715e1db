use vstd::arithmetic::div_mod::lemma_div_is_ordered;
use vstd::arithmetic::div_mod::lemma_div_multiples_vanish;
use vstd::arithmetic::div_mod::lemma_div_pos_is_pos;
use vstd::arithmetic::div_mod::lemma_fundamental_div_mod;
use vstd::arithmetic::div_mod::lemma_mod_bound;
use vstd::prelude::*;

verus! {

/// Fixed-point scale: measurements, proportions, factors and KPI values
/// carry six decimal places, so `MICRO` stands for 1.0.
pub const MICRO: i64 = 1_000_000;

/// Largest aggregate value a bucket row may carry: one hundred thousand
/// units.  SQL aggregates beyond this are outside the model's range.
pub const MAX_AGGREGATE: i64 = 100_000_000_000;

/// Largest emission factor the model admits: one hundred units of mass
/// per unit of energy.
pub const MAX_FACTOR: i64 = 100_000_000;

/// Largest hours-per-interval scalar the formulas accept, in minutes:
/// one hundred 8760-hour years.
pub const MAX_INTERVAL_MINUTES: u64 = 52_560_000;

/// Fixed-point product of two scaled values, truncated to the scale.
pub open spec fn mul_micro_spec(a: int, b: int) -> int {
    (a * b) / (MICRO as int)
}

/// Scale a total by the hours-per-interval scalar given in minutes:
/// times minutes, divided by sixty, truncated.
pub open spec fn scale_minutes_spec(v: int, minutes: int) -> int {
    (v * minutes) / 60
}

/// A SQL aggregate over an empty group is null; sums treat null as zero.
pub open spec fn or_zero(v: Option<i64>) -> int {
    match v {
        Option::Some(x) => x as int,
        Option::None => 0,
    }
}

/// Null proportions and null denominators are taken as 1.0.
pub open spec fn or_one(v: Option<i64>) -> int {
    match v {
        Option::Some(x) => x as int,
        Option::None => MICRO as int,
    }
}

/// Sum of a sequence of mathematical integers.
pub open spec fn seq_sum(s: Seq<int>) -> int
    decreases s.len(),
{
    if s.len() == 0 {
        0
    } else {
        seq_sum(s.drop_last()) + s.last()
    }
}

/// Extending a prefix by one element adds that element to its sum.
pub proof fn lemma_seq_sum_step(s: Seq<int>, i: int)
    requires
        0 <= i < s.len(),
    ensures
        seq_sum(s.subrange(0, i + 1)) == seq_sum(s.subrange(0, i)) + s[i],
{
    assert(s.subrange(0, i + 1).drop_last() =~= s.subrange(0, i));
    assert(s.subrange(0, i + 1).last() == s[i]);
}

/// A sum of non-negative elements is non-negative.
pub proof fn lemma_seq_sum_nonneg(s: Seq<int>)
    requires
        forall|j: int| 0 <= j < s.len() ==> 0 <= #[trigger] s[j],
    ensures
        0 <= seq_sum(s),
    decreases s.len(),
{
    if s.len() > 0 {
        lemma_seq_sum_nonneg(s.drop_last());
    }
}

/// For non-negative elements, every prefix sum is at most the full sum.
pub proof fn lemma_seq_sum_prefix_le(s: Seq<int>, i: int)
    requires
        0 <= i <= s.len(),
        forall|j: int| 0 <= j < s.len() ==> 0 <= #[trigger] s[j],
    ensures
        seq_sum(s.subrange(0, i)) <= seq_sum(s),
        0 <= seq_sum(s.subrange(0, i)),
    decreases s.len(),
{
    if i == s.len() {
        assert(s.subrange(0, i) =~= s);
        lemma_seq_sum_nonneg(s);
    } else {
        let t = s.drop_last();
        assert(t.subrange(0, i) =~= s.subrange(0, i));
        lemma_seq_sum_prefix_le(t, i);
    }
}

/// Fixed-point product of two non-negative scaled values.
pub fn mul_micro(a: i64, b: i64) -> (r: i64)
    requires
        0 <= a,
        0 <= b,
        mul_micro_spec(a as int, b as int) <= i64::MAX,
    ensures
        r == mul_micro_spec(a as int, b as int),
        0 <= r,
{
    proof {
        assert(0 <= (a as int) * (b as int) <= (i64::MAX as int) * (i64::MAX as int))
            by (nonlinear_arith)
            requires
                0 <= a <= i64::MAX,
                0 <= b <= i64::MAX,
        ;
        lemma_div_pos_is_pos((a as int) * (b as int), MICRO as int);
    }
    let p: u128 = (a as u128) * (b as u128);
    let q: u128 = p / 1_000_000u128;
    q as i64
}

/// Scale a non-negative total by the hours-per-interval scalar in
/// minutes, reporting a total beyond the machine range instead of
/// requiring its absence.
pub fn checked_scale_by_minutes(v: i64, minutes: u64) -> (r: Option<i64>)
    requires
        0 <= v,
    ensures
        match r {
            Option::Some(s) => {
                &&& s == scale_minutes_spec(v as int, minutes as int)
                &&& 0 <= s
            },
            Option::None => scale_minutes_spec(v as int, minutes as int) > i64::MAX,
        },
{
    proof {
        assert(0 <= (v as int) * (minutes as int) <= (i64::MAX as int) * (u64::MAX as int))
            by (nonlinear_arith)
            requires
                0 <= v <= i64::MAX,
                0 <= minutes <= u64::MAX,
        ;
        lemma_div_pos_is_pos((v as int) * (minutes as int), 60);
    }
    let p: u128 = (v as u128) * (minutes as u128);
    let q: u128 = p / 60u128;
    if q > i64::MAX as u128 {
        Option::None
    } else {
        Option::Some(q as i64)
    }
}

/// One bucket-row emission: consumption times carrier proportion times
/// emission factor, scaled from a rate to a total by hours-per-interval.
pub open spec fn emission_value_spec(c: int, prop: int, factor: int, minutes: int) -> int {
    scale_minutes_spec(mul_micro_spec(mul_micro_spec(c, prop), factor), minutes)
}

/// Within the model's ranges, a bucket-row emission value never
/// overflows the machine range.
pub proof fn lemma_emission_bounds(c: int, prop: int, factor: int, minutes: int)
    requires
        0 <= c <= MAX_AGGREGATE,
        0 <= prop <= MICRO,
        0 <= factor <= MAX_FACTOR,
        0 <= minutes <= MAX_INTERVAL_MINUTES,
    ensures
        0 <= emission_value_spec(c, prop, factor, minutes) <= 8_760_000_000_000_000_000i64,
{
    let m = MICRO as int;
    assert(0 <= c * prop <= MAX_AGGREGATE as int * m) by (nonlinear_arith)
        requires
            0 <= c <= MAX_AGGREGATE,
            0 <= prop <= m,
    ;
    lemma_div_pos_is_pos(c * prop, m);
    lemma_div_is_ordered(c * prop, MAX_AGGREGATE as int * m, m);
    lemma_div_multiples_vanish(MAX_AGGREGATE as int, m);
    let t1 = mul_micro_spec(c, prop);
    assert(0 <= t1 * factor <= MAX_AGGREGATE as int * MAX_FACTOR as int) by (nonlinear_arith)
        requires
            0 <= t1 <= MAX_AGGREGATE,
            0 <= factor <= MAX_FACTOR,
    ;
    lemma_div_pos_is_pos(t1 * factor, m);
    lemma_div_is_ordered(t1 * factor, MAX_AGGREGATE as int * MAX_FACTOR as int, m);
    let t2 = mul_micro_spec(t1, factor);
    assert(t2 <= 10_000_000_000_000int);
    assert(0 <= t2 * minutes <= 10_000_000_000_000int * MAX_INTERVAL_MINUTES as int)
        by (nonlinear_arith)
        requires
            0 <= t2 <= 10_000_000_000_000int,
            0 <= minutes <= MAX_INTERVAL_MINUTES,
    ;
    lemma_div_pos_is_pos(t2 * minutes, 60);
    lemma_div_is_ordered(t2 * minutes, 10_000_000_000_000int * MAX_INTERVAL_MINUTES as int, 60);
}

/// Compute one bucket-row emission value.
pub fn emission_value(c: i64, prop: i64, factor: i64, minutes: u64) -> (r: i64)
    requires
        0 <= c,
        0 <= prop <= MICRO,
        0 <= factor,
        emission_value_spec(c as int, prop as int, factor as int, minutes as int) <= i64::MAX,
    ensures
        r == emission_value_spec(c as int, prop as int, factor as int, minutes as int),
        0 <= r,
{
    proof {
        assert(0 <= (c as int) * (prop as int) <= (c as int) * (MICRO as int))
            by (nonlinear_arith)
            requires
                0 <= c,
                0 <= prop <= MICRO,
        ;
        lemma_div_is_ordered((c as int) * (prop as int), (c as int) * (MICRO as int), MICRO as int);
        lemma_div_multiples_vanish(c as int, MICRO as int);
        lemma_div_pos_is_pos((c as int) * (prop as int), MICRO as int);
    }
    let weighted = mul_micro(c, prop);
    mul_micro_chain(weighted, factor, minutes)
}

/// The tail of the emission chain: weighted consumption times factor,
/// then scaled by minutes, all inside one wide computation so that no
/// intermediate needs to fit the narrow machine range.
fn mul_micro_chain(w: i64, factor: i64, minutes: u64) -> (r: i64)
    requires
        0 <= w,
        0 <= factor,
        scale_minutes_spec(mul_micro_spec(w as int, factor as int), minutes as int) <= i64::MAX,
    ensures
        r == scale_minutes_spec(mul_micro_spec(w as int, factor as int), minutes as int),
        0 <= r,
{
    proof {
        assert(0 <= (w as int) * (factor as int) <= (i64::MAX as int) * (i64::MAX as int))
            by (nonlinear_arith)
            requires
                0 <= w <= i64::MAX,
                0 <= factor <= i64::MAX,
        ;
        lemma_div_pos_is_pos((w as int) * (factor as int), MICRO as int);
    }
    let p: u128 = (w as u128) * (factor as u128);
    let d: u128 = p / 1_000_000u128;
    proof {
        let dv = mul_micro_spec(w as int, factor as int);
        assert(d == dv);
        assert(0 <= dv * (minutes as int)) by (nonlinear_arith)
            requires
                0 <= dv,
                0 <= (minutes as int),
        ;
        let x = dv * (minutes as int);
        lemma_fundamental_div_mod(x, 60);
        lemma_mod_bound(x, 60);
        assert(x <= 60 * (i64::MAX as int) + 59);
    }
    let e: u128 = d * (minutes as u128);
    (e / 60u128) as i64
}

} // verus!

use vstd::prelude::*;

use crate::error::ApiError;
use crate::quantity::MAX_AGGREGATE;
use crate::quantity::MAX_FACTOR;
use crate::quantity::MAX_INTERVAL_MINUTES;
use crate::quantity::MICRO;
use crate::quantity::checked_scale_by_minutes;
use crate::quantity::emission_value;
use crate::quantity::emission_value_spec;
use crate::quantity::lemma_emission_bounds;
use crate::quantity::lemma_seq_sum_prefix_le;
use crate::quantity::lemma_seq_sum_step;
use crate::quantity::mul_micro;
use crate::quantity::mul_micro_spec;
use crate::quantity::or_one;
use crate::quantity::or_zero;
use crate::quantity::scale_minutes_spec;
use crate::quantity::seq_sum;
use vstd::arithmetic::div_mod::lemma_div_is_ordered;
use vstd::arithmetic::div_mod::lemma_div_pos_is_pos;

verus! {

/// A resolved query window, both ends epoch microseconds.
#[derive(Clone, Copy, Debug, PartialEq, Eq, Structural)]
pub struct TimeRange {
    pub from_micros: i64,
    pub to_micros: i64,
}

/// One computed KPI.  `value` is fixed-point, six decimal places.
#[derive(Clone, Debug, PartialEq, Eq)]
pub struct KpiResult {
    pub value: i64,
    pub name: String,
    pub unit: Option<String>,
    pub from_timestamp: i64,
    pub to_timestamp: i64,
}

/// A per-bucket, per-carrier consumption row from the aggregation store.
/// Aggregates are nullable: SQL aggregates over empty groups yield null.
#[derive(Clone, Debug)]
pub struct Consumption {
    pub bucket: Option<i64>,
    pub bucket_consumption: Option<i64>,
    pub consumption_unit: String,
    pub carrier_proportion: Option<i64>,
    pub carrier_name: String,
}

/// A per-bucket, per-carrier consumption row joined with the carrier's
/// emission factor, for scope-two (grid) emissions.
#[derive(Clone, Debug)]
pub struct ConsumptionWithEmissions {
    pub bucket: Option<i64>,
    pub bucket_consumption: Option<i64>,
    pub carrier_proportion: Option<i64>,
    pub emission_factor: i64,
    pub carrier_name: String,
}

/// A per-bucket, per-carrier production row joined with the carrier's
/// emission factor, for scope-one (on-site combustion) emissions.
#[derive(Clone, Debug)]
pub struct ProductionWithEmissions {
    pub bucket: Option<i64>,
    pub source_of_production: String,
    pub production_carrier: String,
    pub production: Option<i64>,
    pub emission_factor: i64,
    pub emission_factor_unit: String,
}

/// One entry of a per-carrier consumption breakdown.
#[derive(Clone, Debug, PartialEq, Eq)]
pub struct ConsumptionByCarrier {
    pub bucket: i64,
    pub carrier_name: String,
    pub value: i64,
    pub unit: String,
    pub local: bool,
}

/// One entry of a per-carrier emission breakdown.
#[derive(Clone, Debug, PartialEq, Eq)]
pub struct EmissionsByCarrier {
    pub bucket: Option<i64>,
    pub carrier_name: Option<String>,
    pub value: Option<i64>,
    pub unit: Option<String>,
}

/// A per-bucket comparison row for the CO2-savings KPI: the emissions a
/// grid-average mix would have caused against the on-site mix's actual
/// emissions.
#[derive(Clone, Debug)]
pub struct SavingsByBucket {
    pub bucket: Option<i64>,
    pub hypothetical_emissions: Option<i64>,
    pub local_emissions: Option<i64>,
}

/// An aggregate is inside the model's range: absent, or non-negative and
/// bounded.
pub open spec fn aggregate_ok(v: Option<i64>) -> bool {
    match v {
        Option::Some(x) => 0 <= x <= MAX_AGGREGATE,
        Option::None => true,
    }
}

/// A proportion is absent or between 0 and 1.
pub open spec fn proportion_ok(v: Option<i64>) -> bool {
    match v {
        Option::Some(x) => 0 <= x <= MICRO,
        Option::None => true,
    }
}

/// The consumption-over-production ratio with the null-safe-denominator
/// policy: a null aggregate counts as 1.0, and a zero denominator leaves
/// the numerator unscaled instead of dividing.
pub open spec fn ratio_spec(consumption: Option<i64>, production: Option<i64>) -> int {
    if or_one(production) == 0 {
        or_one(consumption)
    } else {
        (or_one(consumption) * (MICRO as int)) / or_one(production)
    }
}

/// Cap a ratio at 1.0.
pub open spec fn capped(v: int) -> int {
    if v > MICRO { MICRO as int } else { v }
}

/// Self-consumption: consumption over production, capped at 1.0.
pub open spec fn self_consumption_spec(consumption: Option<i64>, production: Option<i64>) -> int {
    capped(ratio_spec(consumption, production))
}

/// Autarky: production over consumption, capped at 1.0.
pub open spec fn autarky_spec(consumption: Option<i64>, production: Option<i64>) -> int {
    capped(ratio_spec(production, consumption))
}

/// The null-safe consumption-over-production ratio.
pub fn consumption_production_ratio(consumption: Option<i64>, production: Option<i64>) -> (r: i64)
    requires
        aggregate_ok(consumption),
        aggregate_ok(production),
    ensures
        r == ratio_spec(consumption, production),
        0 <= r,
{
    let c: i64 = match consumption {
        Option::Some(v) => v,
        Option::None => MICRO,
    };
    let p: i64 = match production {
        Option::Some(v) => v,
        Option::None => MICRO,
    };
    if p == 0 {
        c
    } else {
        let scaled: u128 = (c as u128) * 1_000_000u128;
        let q: u128 = scaled / (p as u128);
        proof {
            lemma_div_is_ordered(
                (c as int) * (MICRO as int),
                (MAX_AGGREGATE as int) * (MICRO as int),
                p as int,
            );
            lemma_div_pos_is_pos((c as int) * (MICRO as int), p as int);
            lemma_div_le_numerator((c as int) * (MICRO as int), p as int);
        }
        q as i64
    }
}

/// A non-negative value shrinks (weakly) under division by a positive.
proof fn lemma_div_le_numerator(x: int, d: int)
    requires
        0 <= x,
        1 <= d,
    ensures
        x / d <= x,
{
    if d == 1 {
        assert(x / 1 == x) by (nonlinear_arith);
    } else {
        vstd::arithmetic::div_mod::lemma_div_is_ordered_by_denominator(x, 1, d);
        assert(x / 1 == x) by (nonlinear_arith);
    }
}

/// Self-consumption from the two total aggregates.  Never divides by
/// zero and never panics; with non-negative aggregates the result is a
/// ratio between 0 and 1.
pub fn self_consumption(consumption: Option<i64>, production: Option<i64>) -> (r: i64)
    requires
        aggregate_ok(consumption),
        aggregate_ok(production),
    ensures
        r == self_consumption_spec(consumption, production),
        0 <= r <= MICRO,
{
    let ratio = consumption_production_ratio(consumption, production);
    if ratio > MICRO {
        MICRO
    } else {
        ratio
    }
}

/// Autarky from the two total aggregates; bounded like self-consumption.
pub fn autarky(consumption: Option<i64>, production: Option<i64>) -> (r: i64)
    requires
        aggregate_ok(consumption),
        aggregate_ok(production),
    ensures
        r == autarky_spec(consumption, production),
        0 <= r <= MICRO,
{
    let ratio = consumption_production_ratio(production, consumption);
    if ratio > MICRO {
        MICRO
    } else {
        ratio
    }
}

/// A total aggregate with the null-as-zero policy.
pub fn total_value(value: Option<i64>) -> (r: i64)
    ensures
        r == or_zero(value),
{
    match value {
        Option::Some(v) => v,
        Option::None => 0,
    }
}

/// The self-consumption KPI over a resolved window.
pub fn self_consumption_result(
    consumption: Option<i64>,
    production: Option<i64>,
    range: TimeRange,
) -> (r: KpiResult)
    requires
        aggregate_ok(consumption),
        aggregate_ok(production),
    ensures
        r.value == self_consumption_spec(consumption, production),
        r.name@ == "self_consumption"@,
        r.unit is None,
        r.from_timestamp == range.from_micros,
        r.to_timestamp == range.to_micros,
{
    KpiResult {
        value: self_consumption(consumption, production),
        name: String::from_str("self_consumption"),
        unit: Option::None,
        from_timestamp: range.from_micros,
        to_timestamp: range.to_micros,
    }
}

/// The autarky KPI over a resolved window.
pub fn autarky_result(consumption: Option<i64>, production: Option<i64>, range: TimeRange) -> (r:
    KpiResult)
    requires
        aggregate_ok(consumption),
        aggregate_ok(production),
    ensures
        r.value == autarky_spec(consumption, production),
        r.name@ == "autarky"@,
        r.unit is None,
        r.from_timestamp == range.from_micros,
        r.to_timestamp == range.to_micros,
{
    KpiResult {
        value: autarky(consumption, production),
        name: String::from_str("autarky"),
        unit: Option::None,
        from_timestamp: range.from_micros,
        to_timestamp: range.to_micros,
    }
}

/// The total-consumption KPI over a resolved window.
pub fn total_consumption_result(value: Option<i64>, range: TimeRange) -> (r: KpiResult)
    ensures
        r.value == or_zero(value),
        r.name@ == "total_consumption"@,
        r.unit is Some && r.unit->0@ == "kwh"@,
        r.from_timestamp == range.from_micros,
        r.to_timestamp == range.to_micros,
{
    KpiResult {
        value: total_value(value),
        name: String::from_str("total_consumption"),
        unit: Option::Some(String::from_str("kwh")),
        from_timestamp: range.from_micros,
        to_timestamp: range.to_micros,
    }
}

/// The total-production KPI over a resolved window.
pub fn total_production_result(value: Option<i64>, range: TimeRange) -> (r: KpiResult)
    ensures
        r.value == or_zero(value),
        r.name@ == "total_production"@,
        r.unit is Some && r.unit->0@ == "kwh"@,
        r.from_timestamp == range.from_micros,
        r.to_timestamp == range.to_micros,
{
    KpiResult {
        value: total_value(value),
        name: String::from_str("total_production"),
        unit: Option::Some(String::from_str("kwh")),
        from_timestamp: range.from_micros,
        to_timestamp: range.to_micros,
    }
}

/// The total-grid-electricity-cost KPI over a resolved window.
pub fn total_grid_electricity_cost_result(value: Option<i64>, range: TimeRange) -> (r: KpiResult)
    ensures
        r.value == or_zero(value),
        r.name@ == "total_grid_electricity_cost"@,
        r.unit is Some && r.unit->0@ == "EUR"@,
        r.from_timestamp == range.from_micros,
        r.to_timestamp == range.to_micros,
{
    KpiResult {
        value: total_value(value),
        name: String::from_str("total_grid_electricity_cost"),
        unit: Option::Some(String::from_str("EUR")),
        from_timestamp: range.from_micros,
        to_timestamp: range.to_micros,
    }
}

/// The value of one consumption row: proportion (null as 1.0) times
/// bucket consumption (null as 0).
pub open spec fn carrier_value_spec(row: Consumption) -> int {
    mul_micro_spec(or_one(row.carrier_proportion), or_zero(row.bucket_consumption))
}

/// A consumption row the breakdown accepts: a present bucket, a bounded
/// aggregate and a proportion between 0 and 1.
pub open spec fn consumption_row_ok(row: Consumption) -> bool {
    &&& row.bucket is Some
    &&& aggregate_ok(row.bucket_consumption)
    &&& proportion_ok(row.carrier_proportion)
}

/// The value of one consumption row.
fn carrier_value(prop: Option<i64>, cons: Option<i64>) -> (v: i64)
    requires
        proportion_ok(prop),
        aggregate_ok(cons),
    ensures
        v == mul_micro_spec(or_one(prop), or_zero(cons)),
        0 <= v,
{
    let p: i64 = match prop {
        Option::Some(x) => x,
        Option::None => MICRO,
    };
    let c: i64 = match cons {
        Option::Some(x) => x,
        Option::None => 0,
    };
    proof {
        assert(0 <= (p as int) * (c as int) <= (MICRO as int) * (MAX_AGGREGATE as int))
            by (nonlinear_arith)
            requires
                0 <= p <= MICRO,
                0 <= c <= MAX_AGGREGATE,
        ;
        lemma_div_is_ordered(
            (p as int) * (c as int),
            (MICRO as int) * (MAX_AGGREGATE as int),
            MICRO as int,
        );
    }
    mul_micro(p, c)
}

/// One output row of the per-carrier consumption breakdown corresponds
/// to one input row.
pub open spec fn consumption_entry_matches(
    out: ConsumptionByCarrier,
    row: Consumption,
    local: bool,
) -> bool {
    &&& out.bucket == row.bucket->0
    &&& out.carrier_name@ == row.carrier_name@
    &&& out.value == carrier_value_spec(row)
    &&& out.unit@ == "kwh"@
    &&& out.local == local
}

/// The per-carrier consumption breakdown: the grid rows (tagged
/// `local == false`) followed by the local production rows (tagged
/// `local == true`), in their given order.
pub fn consumption_by_carrier(grid: &Vec<Consumption>, local: &Vec<Consumption>) -> (r: Vec<
    ConsumptionByCarrier,
>)
    requires
        forall|i: int| 0 <= i < grid@.len() ==> consumption_row_ok(#[trigger] grid@[i]),
        forall|i: int| 0 <= i < local@.len() ==> consumption_row_ok(#[trigger] local@[i]),
    ensures
        r@.len() == grid@.len() + local@.len(),
        forall|i: int|
            0 <= i < grid@.len() ==> consumption_entry_matches(#[trigger] r@[i], grid@[i], false),
        forall|i: int|
            0 <= i < local@.len() ==> consumption_entry_matches(
                #[trigger] r@[grid@.len() + i],
                local@[i],
                true,
            ),
{
    let mut out: Vec<ConsumptionByCarrier> = Vec::new();
    let mut i: usize = 0;
    while i < grid.len()
        invariant
            i <= grid@.len(),
            out@.len() == i,
            forall|j: int| 0 <= j < grid@.len() ==> consumption_row_ok(#[trigger] grid@[j]),
            forall|j: int|
                0 <= j < i ==> consumption_entry_matches(#[trigger] out@[j], grid@[j], false),
        decreases grid@.len() - i,
    {
        let row = &grid[i];
        let bucket = match row.bucket {
            Option::Some(b) => b,
            Option::None => 0,
        };
        let entry = ConsumptionByCarrier {
            bucket,
            carrier_name: row.carrier_name.clone(),
            value: carrier_value(row.carrier_proportion, row.bucket_consumption),
            unit: String::from_str("kwh"),
            local: false,
        };
        out.push(entry);
        i = i + 1;
    }
    let ghost n = grid@.len();
    let mut j: usize = 0;
    while j < local.len()
        invariant
            j <= local@.len(),
            out@.len() == n + j,
            n == grid@.len(),
            forall|jj: int| 0 <= jj < local@.len() ==> consumption_row_ok(#[trigger] local@[jj]),
            forall|jj: int|
                0 <= jj < n ==> consumption_entry_matches(#[trigger] out@[jj], grid@[jj], false),
            forall|jj: int|
                0 <= jj < j ==> consumption_entry_matches(#[trigger] out@[n + jj], local@[jj], true),
        decreases local@.len() - j,
    {
        let row = &local[j];
        let bucket = match row.bucket {
            Option::Some(b) => b,
            Option::None => 0,
        };
        let entry = ConsumptionByCarrier {
            bucket,
            carrier_name: row.carrier_name.clone(),
            value: carrier_value(row.carrier_proportion, row.bucket_consumption),
            unit: String::from_str("kwh"),
            local: true,
        };
        out.push(entry);
        j = j + 1;
    }
    out
}

/// The emission value of one scope-two row: bucket consumption times
/// carrier proportion times emission factor, scaled by hours-per-interval.
pub open spec fn scope_two_value_spec(row: ConsumptionWithEmissions, minutes: int) -> int {
    emission_value_spec(
        or_zero(row.bucket_consumption),
        or_one(row.carrier_proportion),
        row.emission_factor as int,
        minutes,
    )
}

/// The emission value of one scope-one row: production times emission
/// factor, scaled by hours-per-interval.
pub open spec fn scope_one_value_spec(row: ProductionWithEmissions, minutes: int) -> int {
    emission_value_spec(
        or_zero(row.production),
        MICRO as int,
        row.emission_factor as int,
        minutes,
    )
}

/// A scope-two row the formulas accept.
pub open spec fn scope_two_row_ok(row: ConsumptionWithEmissions) -> bool {
    &&& aggregate_ok(row.bucket_consumption)
    &&& proportion_ok(row.carrier_proportion)
    &&& 0 <= row.emission_factor <= MAX_FACTOR
}

/// A scope-one row the formulas accept.
pub open spec fn scope_one_row_ok(row: ProductionWithEmissions) -> bool {
    &&& aggregate_ok(row.production)
    &&& 0 <= row.emission_factor <= MAX_FACTOR
}

/// The emission values of a scope-two row sequence.
pub open spec fn scope_two_values(rows: Seq<ConsumptionWithEmissions>, minutes: int) -> Seq<int> {
    rows.map_values(|row: ConsumptionWithEmissions| scope_two_value_spec(row, minutes))
}

/// The emission values of a scope-one row sequence.
pub open spec fn scope_one_values(rows: Seq<ProductionWithEmissions>, minutes: int) -> Seq<int> {
    rows.map_values(|row: ProductionWithEmissions| scope_one_value_spec(row, minutes))
}

/// An output entry of an emission breakdown carries a row's bucket and
/// carrier and the given emission value, in kgco2eq.
pub open spec fn emission_entry_matches(
    out: EmissionsByCarrier,
    bucket: Option<i64>,
    carrier: Seq<char>,
    value: int,
) -> bool {
    &&& out.bucket == bucket
    &&& out.carrier_name is Some && out.carrier_name->0@ == carrier
    &&& out.value is Some && out.value->0 == value
    &&& out.unit is Some && out.unit->0@ == "kgco2eq"@
}

/// The per-carrier scope-two (grid) emission breakdown.
pub fn scope_two_emissions(rows: &Vec<ConsumptionWithEmissions>, minutes: u64) -> (r: Vec<
    EmissionsByCarrier,
>)
    requires
        forall|i: int| 0 <= i < rows@.len() ==> scope_two_row_ok(#[trigger] rows@[i]),
        minutes <= MAX_INTERVAL_MINUTES,
    ensures
        r@.len() == rows@.len(),
        forall|i: int|
            0 <= i < rows@.len() ==> emission_entry_matches(
                #[trigger] r@[i],
                rows@[i].bucket,
                rows@[i].carrier_name@,
                scope_two_value_spec(rows@[i], minutes as int),
            ),
{
    let mut out: Vec<EmissionsByCarrier> = Vec::new();
    let mut i: usize = 0;
    while i < rows.len()
        invariant
            i <= rows@.len(),
            out@.len() == i,
            minutes <= MAX_INTERVAL_MINUTES,
            forall|j: int| 0 <= j < rows@.len() ==> scope_two_row_ok(#[trigger] rows@[j]),
            forall|j: int|
                0 <= j < i ==> emission_entry_matches(
                    #[trigger] out@[j],
                    rows@[j].bucket,
                    rows@[j].carrier_name@,
                    scope_two_value_spec(rows@[j], minutes as int),
                ),
        decreases rows@.len() - i,
    {
        let row = &rows[i];
        let c: i64 = match row.bucket_consumption {
            Option::Some(x) => x,
            Option::None => 0,
        };
        let p: i64 = match row.carrier_proportion {
            Option::Some(x) => x,
            Option::None => MICRO,
        };
        proof {
            lemma_emission_bounds(c as int, p as int, row.emission_factor as int, minutes as int);
        }
        let value = emission_value(c, p, row.emission_factor, minutes);
        let entry = EmissionsByCarrier {
            bucket: row.bucket,
            carrier_name: Option::Some(row.carrier_name.clone()),
            value: Option::Some(value),
            unit: Option::Some(String::from_str("kgco2eq")),
        };
        out.push(entry);
        i = i + 1;
    }
    out
}

/// The per-carrier scope-one (on-site combustion) emission breakdown.
pub fn scope_one_emissions(rows: &Vec<ProductionWithEmissions>, minutes: u64) -> (r: Vec<
    EmissionsByCarrier,
>)
    requires
        forall|i: int| 0 <= i < rows@.len() ==> scope_one_row_ok(#[trigger] rows@[i]),
        minutes <= MAX_INTERVAL_MINUTES,
    ensures
        r@.len() == rows@.len(),
        forall|i: int|
            0 <= i < rows@.len() ==> emission_entry_matches(
                #[trigger] r@[i],
                rows@[i].bucket,
                rows@[i].production_carrier@,
                scope_one_value_spec(rows@[i], minutes as int),
            ),
{
    let mut out: Vec<EmissionsByCarrier> = Vec::new();
    let mut i: usize = 0;
    while i < rows.len()
        invariant
            i <= rows@.len(),
            out@.len() == i,
            minutes <= MAX_INTERVAL_MINUTES,
            forall|j: int| 0 <= j < rows@.len() ==> scope_one_row_ok(#[trigger] rows@[j]),
            forall|j: int|
                0 <= j < i ==> emission_entry_matches(
                    #[trigger] out@[j],
                    rows@[j].bucket,
                    rows@[j].production_carrier@,
                    scope_one_value_spec(rows@[j], minutes as int),
                ),
        decreases rows@.len() - i,
    {
        let row = &rows[i];
        let c: i64 = match row.production {
            Option::Some(x) => x,
            Option::None => 0,
        };
        proof {
            lemma_emission_bounds(c as int, MICRO as int, row.emission_factor as int, minutes as int);
        }
        let value = emission_value(c, MICRO, row.emission_factor, minutes);
        let entry = EmissionsByCarrier {
            bucket: row.bucket,
            carrier_name: Option::Some(row.production_carrier.clone()),
            value: Option::Some(value),
            unit: Option::Some(String::from_str("kgco2eq")),
        };
        out.push(entry);
        i = i + 1;
    }
    out
}

/// The null-as-zero emission values of a breakdown.
pub open spec fn emission_values_of(rows: Seq<EmissionsByCarrier>) -> Seq<int> {
    rows.map_values(|row: EmissionsByCarrier| or_zero(row.value))
}

/// Sum an emission breakdown, nulls as zero.  A total beyond the
/// machine range is reported, never wrapped.
pub fn sum_emission_values(rows: &Vec<EmissionsByCarrier>) -> (r: Option<i64>)
    requires
        forall|i: int| 0 <= i < rows@.len() ==> 0 <= or_zero(#[trigger] rows@[i].value),
    ensures
        match r {
            Option::Some(s) => s == seq_sum(emission_values_of(rows@)) && 0 <= s,
            Option::None => seq_sum(emission_values_of(rows@)) > i64::MAX,
        },
{
    let ghost vals = emission_values_of(rows@);
    proof {
        assert forall|j: int| 0 <= j < vals.len() implies 0 <= #[trigger] vals[j] by {
            assert(vals[j] == or_zero(rows@[j].value));
        }
    }
    let mut s: i64 = 0;
    let mut i: usize = 0;
    while i < rows.len()
        invariant
            i <= rows@.len(),
            vals == emission_values_of(rows@),
            vals.len() == rows@.len(),
            forall|j: int| 0 <= j < vals.len() ==> 0 <= #[trigger] vals[j],
            s == seq_sum(vals.subrange(0, i as int)),
            0 <= s,
        decreases rows@.len() - i,
    {
        let v: i64 = match rows[i].value {
            Option::Some(x) => x,
            Option::None => 0,
        };
        proof {
            assert(vals[i as int] == or_zero(rows@[i as int].value));
            lemma_seq_sum_step(vals, i as int);
        }
        s = match s.checked_add(v) {
            Option::Some(next) => next,
            Option::None => {
                proof {
                    lemma_seq_sum_prefix_le(vals, i as int + 1);
                }
                return Option::None;
            },
        };
        i = i + 1;
    }
    proof {
        assert(vals.subrange(0, vals.len() as int) =~= vals);
    }
    Option::Some(s)
}

/// The total-CO2 KPI from the raw scope-one and scope-two rows of one
/// window and interval: the sum of both scopes' per-row emission
/// values.  A total beyond the machine range is an error, never a
/// wrapped value.
pub fn total_co2_emissions(
    scope_one_rows: &Vec<ProductionWithEmissions>,
    scope_two_rows: &Vec<ConsumptionWithEmissions>,
    minutes: u64,
    range: TimeRange,
) -> (r: Result<KpiResult, ApiError>)
    requires
        forall|i: int| 0 <= i < scope_one_rows@.len() ==> scope_one_row_ok(
            #[trigger] scope_one_rows@[i],
        ),
        forall|i: int| 0 <= i < scope_two_rows@.len() ==> scope_two_row_ok(
            #[trigger] scope_two_rows@[i],
        ),
        minutes <= MAX_INTERVAL_MINUTES,
    ensures
        match r {
            Ok(res) => {
                &&& res.value == seq_sum(scope_one_values(scope_one_rows@, minutes as int))
                    + seq_sum(scope_two_values(scope_two_rows@, minutes as int))
                &&& res.name@ == "total_co2_emissions"@
                &&& res.unit is Some && res.unit->0@ == "kgco2eq"@
                &&& res.from_timestamp == range.from_micros
                &&& res.to_timestamp == range.to_micros
            },
            Err(e) => {
                &&& e == ApiError::OutOfRange
                &&& seq_sum(scope_one_values(scope_one_rows@, minutes as int)) + seq_sum(
                    scope_two_values(scope_two_rows@, minutes as int),
                ) > i64::MAX
            },
        },
{
    let one = scope_one_emissions(scope_one_rows, minutes);
    let two = scope_two_emissions(scope_two_rows, minutes);
    proof {
        lemma_breakdown_values(one@, scope_one_rows@, minutes as int);
        lemma_breakdown_values_two(two@, scope_two_rows@, minutes as int);
        lemma_emission_values_nonneg(scope_one_rows@, minutes as int);
        lemma_emission_values_nonneg_two(scope_two_rows@, minutes as int);
        crate::quantity::lemma_seq_sum_nonneg(emission_values_of(one@));
        crate::quantity::lemma_seq_sum_nonneg(emission_values_of(two@));
    }
    let sum_one = match sum_emission_values(&one) {
        Option::Some(s) => s,
        Option::None => {
            return Err(ApiError::OutOfRange);
        },
    };
    let sum_two = match sum_emission_values(&two) {
        Option::Some(s) => s,
        Option::None => {
            return Err(ApiError::OutOfRange);
        },
    };
    let value = match sum_one.checked_add(sum_two) {
        Option::Some(v) => v,
        Option::None => {
            return Err(ApiError::OutOfRange);
        },
    };
    Ok(KpiResult {
        value,
        name: String::from_str("total_co2_emissions"),
        unit: Option::Some(String::from_str("kgco2eq")),
        from_timestamp: range.from_micros,
        to_timestamp: range.to_micros,
    })
}

/// A scope-one breakdown's null-as-zero values are exactly the per-row
/// emission values of its input rows.
proof fn lemma_breakdown_values(
    out: Seq<EmissionsByCarrier>,
    rows: Seq<ProductionWithEmissions>,
    minutes: int,
)
    requires
        out.len() == rows.len(),
        forall|i: int|
            0 <= i < rows.len() ==> emission_entry_matches(
                #[trigger] out[i],
                rows[i].bucket,
                rows[i].production_carrier@,
                scope_one_value_spec(rows[i], minutes),
            ),
    ensures
        emission_values_of(out) == scope_one_values(rows, minutes),
{
    assert(emission_values_of(out) =~= scope_one_values(rows, minutes));
}

/// A scope-two breakdown's null-as-zero values are exactly the per-row
/// emission values of its input rows.
proof fn lemma_breakdown_values_two(
    out: Seq<EmissionsByCarrier>,
    rows: Seq<ConsumptionWithEmissions>,
    minutes: int,
)
    requires
        out.len() == rows.len(),
        forall|i: int|
            0 <= i < rows.len() ==> emission_entry_matches(
                #[trigger] out[i],
                rows[i].bucket,
                rows[i].carrier_name@,
                scope_two_value_spec(rows[i], minutes),
            ),
    ensures
        emission_values_of(out) == scope_two_values(rows, minutes),
{
    assert(emission_values_of(out) =~= scope_two_values(rows, minutes));
}

/// Scope-one per-row values are non-negative inside the model's ranges.
proof fn lemma_emission_values_nonneg(rows: Seq<ProductionWithEmissions>, minutes: int)
    requires
        forall|i: int| 0 <= i < rows.len() ==> scope_one_row_ok(#[trigger] rows[i]),
        0 <= minutes <= MAX_INTERVAL_MINUTES,
    ensures
        forall|i: int|
            0 <= i < scope_one_values(rows, minutes).len() ==> 0 <= #[trigger] scope_one_values(
                rows,
                minutes,
            )[i],
{
    assert forall|i: int|
        0 <= i < scope_one_values(rows, minutes).len() implies 0 <= #[trigger] scope_one_values(
        rows,
        minutes,
    )[i] by {
        lemma_emission_bounds(
            or_zero(rows[i].production),
            MICRO as int,
            rows[i].emission_factor as int,
            minutes,
        );
    }
}

/// Scope-two per-row values are non-negative inside the model's ranges.
proof fn lemma_emission_values_nonneg_two(rows: Seq<ConsumptionWithEmissions>, minutes: int)
    requires
        forall|i: int| 0 <= i < rows.len() ==> scope_two_row_ok(#[trigger] rows[i]),
        0 <= minutes <= MAX_INTERVAL_MINUTES,
    ensures
        forall|i: int|
            0 <= i < scope_two_values(rows, minutes).len() ==> 0 <= #[trigger] scope_two_values(
                rows,
                minutes,
            )[i],
{
    assert forall|i: int|
        0 <= i < scope_two_values(rows, minutes).len() implies 0 <= #[trigger] scope_two_values(
        rows,
        minutes,
    )[i] by {
        lemma_emission_bounds(
            or_zero(rows[i].bucket_consumption),
            or_one(rows[i].carrier_proportion),
            rows[i].emission_factor as int,
            minutes,
        );
    }
}

/// Scope additivity: summing the scope-one breakdown and the scope-two
/// breakdown computed from some rows gives exactly the value of the
/// total-CO2 KPI computed from the same rows over the same window and
/// interval.
pub proof fn lemma_scope_additivity(
    one: Seq<EmissionsByCarrier>,
    two: Seq<EmissionsByCarrier>,
    scope_one_rows: Seq<ProductionWithEmissions>,
    scope_two_rows: Seq<ConsumptionWithEmissions>,
    minutes: int,
    total: KpiResult,
)
    requires
        one.len() == scope_one_rows.len(),
        forall|i: int|
            0 <= i < scope_one_rows.len() ==> emission_entry_matches(
                #[trigger] one[i],
                scope_one_rows[i].bucket,
                scope_one_rows[i].production_carrier@,
                scope_one_value_spec(scope_one_rows[i], minutes),
            ),
        two.len() == scope_two_rows.len(),
        forall|i: int|
            0 <= i < scope_two_rows.len() ==> emission_entry_matches(
                #[trigger] two[i],
                scope_two_rows[i].bucket,
                scope_two_rows[i].carrier_name@,
                scope_two_value_spec(scope_two_rows[i], minutes),
            ),
        total.value == seq_sum(scope_one_values(scope_one_rows, minutes)) + seq_sum(
            scope_two_values(scope_two_rows, minutes),
        ),
    ensures
        seq_sum(emission_values_of(one)) + seq_sum(emission_values_of(two)) == total.value,
{
    lemma_breakdown_values(one, scope_one_rows, minutes);
    lemma_breakdown_values_two(two, scope_two_rows, minutes);
}

/// The CO2-savings value: the emissions a grid-average mix would have
/// caused minus the actual on-site emissions, each summed over the
/// buckets and scaled by hours-per-interval.  Negative values are valid
/// (the local mix can be dirtier than the grid average) and are not
/// clamped.
pub open spec fn co2_savings_spec(rows: Seq<SavingsByBucket>, minutes: int) -> int {
    scale_minutes_spec(
        seq_sum(rows.map_values(|row: SavingsByBucket| or_zero(row.hypothetical_emissions))),
        minutes,
    ) - scale_minutes_spec(
        seq_sum(rows.map_values(|row: SavingsByBucket| or_zero(row.local_emissions))),
        minutes,
    )
}

/// A savings row the formula accepts.
pub open spec fn savings_row_ok(row: SavingsByBucket) -> bool {
    &&& aggregate_ok(row.hypothetical_emissions)
    &&& aggregate_ok(row.local_emissions)
}

/// Compute the CO2-savings value from per-bucket comparison rows.  A
/// sum or scaled total beyond the machine range is an error, never a
/// wrapped value.
pub fn co2_savings(rows: &Vec<SavingsByBucket>, minutes: u64) -> (r: Result<i64, ApiError>)
    requires
        forall|i: int| 0 <= i < rows@.len() ==> savings_row_ok(#[trigger] rows@[i]),
    ensures
        match r {
            Ok(v) => v == co2_savings_spec(rows@, minutes as int),
            Err(e) => {
                &&& e == ApiError::OutOfRange
                &&& {
                    let hyp_sum = seq_sum(
                        rows@.map_values(
                            |row: SavingsByBucket| or_zero(row.hypothetical_emissions),
                        ),
                    );
                    let loc_sum = seq_sum(
                        rows@.map_values(|row: SavingsByBucket| or_zero(row.local_emissions)),
                    );
                    ||| hyp_sum > i64::MAX
                    ||| loc_sum > i64::MAX
                    ||| scale_minutes_spec(hyp_sum, minutes as int) > i64::MAX
                    ||| scale_minutes_spec(loc_sum, minutes as int) > i64::MAX
                }
            },
        },
{
    let ghost hyps = rows@.map_values(|row: SavingsByBucket| or_zero(row.hypothetical_emissions));
    let ghost locs = rows@.map_values(|row: SavingsByBucket| or_zero(row.local_emissions));
    proof {
        assert forall|j: int| 0 <= j < hyps.len() implies 0 <= #[trigger] hyps[j] by {
            assert(hyps[j] == or_zero(rows@[j].hypothetical_emissions));
        }
        assert forall|j: int| 0 <= j < locs.len() implies 0 <= #[trigger] locs[j] by {
            assert(locs[j] == or_zero(rows@[j].local_emissions));
        }
    }
    let mut sum_h: i64 = 0;
    let mut sum_l: i64 = 0;
    let mut i: usize = 0;
    while i < rows.len()
        invariant
            i <= rows@.len(),
            hyps == rows@.map_values(
                |row: SavingsByBucket| or_zero(row.hypothetical_emissions),
            ),
            locs == rows@.map_values(|row: SavingsByBucket| or_zero(row.local_emissions)),
            hyps.len() == rows@.len(),
            locs.len() == rows@.len(),
            forall|j: int| 0 <= j < hyps.len() ==> 0 <= #[trigger] hyps[j],
            forall|j: int| 0 <= j < locs.len() ==> 0 <= #[trigger] locs[j],
            sum_h == seq_sum(hyps.subrange(0, i as int)),
            sum_l == seq_sum(locs.subrange(0, i as int)),
            0 <= sum_h,
            0 <= sum_l,
        decreases rows@.len() - i,
    {
        let h: i64 = match rows[i].hypothetical_emissions {
            Option::Some(x) => x,
            Option::None => 0,
        };
        let l: i64 = match rows[i].local_emissions {
            Option::Some(x) => x,
            Option::None => 0,
        };
        proof {
            assert(hyps[i as int] == or_zero(rows@[i as int].hypothetical_emissions));
            assert(locs[i as int] == or_zero(rows@[i as int].local_emissions));
            lemma_seq_sum_step(hyps, i as int);
            lemma_seq_sum_step(locs, i as int);
        }
        sum_h = match sum_h.checked_add(h) {
            Option::Some(next) => next,
            Option::None => {
                proof {
                    lemma_seq_sum_prefix_le(hyps, i as int + 1);
                }
                return Err(ApiError::OutOfRange);
            },
        };
        sum_l = match sum_l.checked_add(l) {
            Option::Some(next) => next,
            Option::None => {
                proof {
                    lemma_seq_sum_prefix_le(locs, i as int + 1);
                }
                return Err(ApiError::OutOfRange);
            },
        };
        i = i + 1;
    }
    proof {
        assert(hyps.subrange(0, hyps.len() as int) =~= hyps);
        assert(locs.subrange(0, locs.len() as int) =~= locs);
    }
    let scaled_h = match checked_scale_by_minutes(sum_h, minutes) {
        Option::Some(v) => v,
        Option::None => {
            return Err(ApiError::OutOfRange);
        },
    };
    let scaled_l = match checked_scale_by_minutes(sum_l, minutes) {
        Option::Some(v) => v,
        Option::None => {
            return Err(ApiError::OutOfRange);
        },
    };
    Ok(scaled_h - scaled_l)
}

/// The CO2-savings KPI over a resolved window.
pub fn co2_savings_result(rows: &Vec<SavingsByBucket>, minutes: u64, range: TimeRange) -> (r:
    Result<KpiResult, ApiError>)
    requires
        forall|i: int| 0 <= i < rows@.len() ==> savings_row_ok(#[trigger] rows@[i]),
    ensures
        match r {
            Ok(res) => {
                &&& res.value == co2_savings_spec(rows@, minutes as int)
                &&& res.name@ == "co2_savings"@
                &&& res.unit is Some && res.unit->0@ == "kgco2eq"@
                &&& res.from_timestamp == range.from_micros
                &&& res.to_timestamp == range.to_micros
            },
            Err(e) => {
                &&& e == ApiError::OutOfRange
                &&& {
                    let hyp_sum = seq_sum(
                        rows@.map_values(
                            |row: SavingsByBucket| or_zero(row.hypothetical_emissions),
                        ),
                    );
                    let loc_sum = seq_sum(
                        rows@.map_values(|row: SavingsByBucket| or_zero(row.local_emissions)),
                    );
                    ||| hyp_sum > i64::MAX
                    ||| loc_sum > i64::MAX
                    ||| scale_minutes_spec(hyp_sum, minutes as int) > i64::MAX
                    ||| scale_minutes_spec(loc_sum, minutes as int) > i64::MAX
                }
            },
        },
{
    let value = match co2_savings(rows, minutes) {
        Ok(v) => v,
        Err(e) => {
            return Err(e);
        },
    };
    Ok(KpiResult {
        value,
        name: String::from_str("co2_savings"),
        unit: Option::Some(String::from_str("kgco2eq")),
        from_timestamp: range.from_micros,
        to_timestamp: range.to_micros,
    })
}

/// The cost-savings value: the grid electricity price times the
/// consumption avoided by local production.  Deterministic in its
/// inputs; no randomness.
pub open spec fn cost_savings_spec(price: int, avoided: int) -> int {
    mul_micro_spec(price, avoided)
}

/// Compute the cost-savings value.
pub fn cost_savings(price: i64, avoided_consumption: i64) -> (r: i64)
    requires
        0 <= price <= MAX_AGGREGATE,
        0 <= avoided_consumption <= MAX_AGGREGATE,
    ensures
        r == cost_savings_spec(price as int, avoided_consumption as int),
        0 <= r,
{
    proof {
        assert((price as int) * (avoided_consumption as int) <= (MAX_AGGREGATE as int)
            * (MAX_AGGREGATE as int)) by (nonlinear_arith)
            requires
                0 <= price <= MAX_AGGREGATE,
                0 <= avoided_consumption <= MAX_AGGREGATE,
        ;
        lemma_div_is_ordered(
            (price as int) * (avoided_consumption as int),
            (MAX_AGGREGATE as int) * (MAX_AGGREGATE as int),
            MICRO as int,
        );
    }
    mul_micro(price, avoided_consumption)
}

/// The cost-savings KPI over a resolved window.
pub fn cost_savings_result(price: i64, avoided_consumption: i64, range: TimeRange) -> (r:
    KpiResult)
    requires
        0 <= price <= MAX_AGGREGATE,
        0 <= avoided_consumption <= MAX_AGGREGATE,
    ensures
        r.value == cost_savings_spec(price as int, avoided_consumption as int),
        r.name@ == "cost_savings"@,
        r.unit is Some && r.unit->0@ == "EUR"@,
        r.from_timestamp == range.from_micros,
        r.to_timestamp == range.to_micros,
{
    KpiResult {
        value: cost_savings(price, avoided_consumption),
        name: String::from_str("cost_savings"),
        unit: Option::Some(String::from_str("EUR")),
        from_timestamp: range.from_micros,
        to_timestamp: range.to_micros,
    }
}

} // verus!

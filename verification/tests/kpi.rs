use energy_kpi::kpi::Consumption;
use energy_kpi::kpi::ConsumptionWithEmissions;
use energy_kpi::kpi::ProductionWithEmissions;
use energy_kpi::kpi::SavingsByBucket;
use energy_kpi::kpi::TimeRange;
use energy_kpi::kpi::autarky;
use energy_kpi::kpi::autarky_result;
use energy_kpi::kpi::co2_savings;
use energy_kpi::kpi::consumption_by_carrier;
use energy_kpi::kpi::cost_savings;
use energy_kpi::kpi::cost_savings_result;
use energy_kpi::kpi::scope_one_emissions;
use energy_kpi::kpi::scope_two_emissions;
use energy_kpi::kpi::self_consumption;
use energy_kpi::kpi::self_consumption_result;
use energy_kpi::kpi::sum_emission_values;
use energy_kpi::kpi::total_co2_emissions;
use energy_kpi::kpi::total_consumption_result;
use energy_kpi::kpi::total_grid_electricity_cost_result;
use energy_kpi::kpi::total_production_result;
use energy_kpi::quantity::MICRO;

const HOUR: u64 = 60;

fn window() -> TimeRange {
    TimeRange {
        from_micros: 0,
        to_micros: 3_600_000_000,
    }
}

#[test]
fn test_self_consumption_bound() {
    // all non-negative aggregates give a ratio in [0, 1]
    let cases = [
        (Some(0), Some(0)),
        (Some(0), Some(MICRO)),
        (Some(MICRO), Some(0)),
        (Some(100 * MICRO), Some(50 * MICRO)),
        (Some(50 * MICRO), Some(100 * MICRO)),
        (None, Some(3 * MICRO)),
        (Some(3 * MICRO), None),
        (None, None),
    ];
    for (c, p) in cases {
        let v = self_consumption(c, p);
        assert!(0 <= v && v <= MICRO, "self_consumption({c:?}, {p:?}) = {v}");
        let a = autarky(c, p);
        assert!(0 <= a && a <= MICRO, "autarky({c:?}, {p:?}) = {a}");
    }
}

#[test]
fn test_self_consumption_values() {
    // consumption 50, production 100: half the production is consumed
    assert_eq!(
        self_consumption(Some(50 * MICRO), Some(100 * MICRO)),
        MICRO / 2
    );
    // consumption above production caps at 1.0
    assert_eq!(
        self_consumption(Some(100 * MICRO), Some(50 * MICRO)),
        MICRO
    );
}

#[test]
fn test_autarky_values() {
    // production 50, consumption 100: half the consumption is covered
    assert_eq!(autarky(Some(100 * MICRO), Some(50 * MICRO)), MICRO / 2);
    // production above consumption caps at 1.0
    assert_eq!(autarky(Some(50 * MICRO), Some(100 * MICRO)), MICRO);
}

#[test]
fn test_null_safe_division() {
    // a null production aggregate counts as 1.0, so the ratio becomes
    // the consumption itself, capped at 1.0; no division by zero occurs
    assert_eq!(self_consumption(Some(MICRO / 4), None), MICRO / 4);
    assert_eq!(self_consumption(Some(5 * MICRO), None), MICRO);
    // a zero production leaves the numerator unscaled instead of dividing
    assert_eq!(self_consumption(Some(MICRO / 4), Some(0)), MICRO / 4);
    assert_eq!(self_consumption(Some(5 * MICRO), Some(0)), MICRO);
    // both null: ratio of the two defaults is exactly 1.0
    assert_eq!(self_consumption(None, None), MICRO);
}

#[test]
fn test_end_to_end_scenario() {
    // one consumption reading of 100 and one production reading of 50
    // in the window: self-consumption = min(100/50, 1.0) = 1.0
    let result = self_consumption_result(Some(100 * MICRO), Some(50 * MICRO), window());
    assert_eq!(result.value, MICRO);
    assert_eq!(result.name, "self_consumption");
    assert_eq!(result.unit, None);
    assert_eq!(result.from_timestamp, 0);
    assert_eq!(result.to_timestamp, 3_600_000_000);
}

#[test]
fn test_result_determinism() {
    // identical parameters give bit-identical results on every call
    let a = autarky_result(Some(7 * MICRO), Some(3 * MICRO), window());
    let b = autarky_result(Some(7 * MICRO), Some(3 * MICRO), window());
    assert_eq!(a, b);
    assert_eq!(a.name, "autarky");
}

#[test]
fn test_total_results() {
    let c = total_consumption_result(Some(42 * MICRO), window());
    assert_eq!(c.value, 42 * MICRO);
    assert_eq!(c.name, "total_consumption");
    assert_eq!(c.unit.as_deref(), Some("kwh"));
    // a null aggregate is a zero total, not an error
    let p = total_production_result(None, window());
    assert_eq!(p.value, 0);
    assert_eq!(p.name, "total_production");
    assert_eq!(p.unit.as_deref(), Some("kwh"));
}

fn grid_row(bucket: i64, consumption: Option<i64>, proportion: Option<i64>) -> Consumption {
    Consumption {
        bucket: Some(bucket),
        bucket_consumption: consumption,
        consumption_unit: String::from("kwh"),
        carrier_proportion: proportion,
        carrier_name: String::from("grid electricity"),
    }
}

#[test]
fn test_consumption_by_carrier() {
    let grid = vec![
        // half of 10.0 kwh comes from this carrier
        grid_row(0, Some(10 * MICRO), Some(MICRO / 2)),
        // a null proportion counts as 1.0
        grid_row(1, Some(4 * MICRO), None),
        // a null aggregate counts as 0
        grid_row(2, None, Some(MICRO)),
    ];
    let local = vec![grid_row(3, Some(2 * MICRO), Some(MICRO / 4))];
    let out = consumption_by_carrier(&grid, &local);
    assert_eq!(out.len(), 4);
    assert_eq!(out[0].value, 5 * MICRO);
    assert!(!out[0].local);
    assert_eq!(out[0].unit, "kwh");
    assert_eq!(out[0].bucket, 0);
    assert_eq!(out[1].value, 4 * MICRO);
    assert_eq!(out[2].value, 0);
    assert_eq!(out[3].value, MICRO / 2);
    assert!(out[3].local);
}

fn scope_two_row(consumption: Option<i64>, proportion: Option<i64>, factor: i64) -> ConsumptionWithEmissions {
    ConsumptionWithEmissions {
        bucket: Some(0),
        bucket_consumption: consumption,
        carrier_proportion: proportion,
        emission_factor: factor,
        carrier_name: String::from("grid electricity"),
    }
}

fn scope_one_row(production: Option<i64>, factor: i64) -> ProductionWithEmissions {
    ProductionWithEmissions {
        bucket: Some(0),
        source_of_production: String::from("chp"),
        production_carrier: String::from("natural gas"),
        production: production,
        emission_factor: factor,
        emission_factor_unit: String::from("kgco2eq/kwh"),
    }
}

#[test]
fn test_scope_two_emission_value() {
    // 2.0 kW average draw, half from this carrier, 0.25 kg/kwh, over
    // one hour: 2.0 x 0.5 x 0.25 x 1h = 0.25 kg
    let rows = vec![scope_two_row(Some(2 * MICRO), Some(MICRO / 2), MICRO / 4)];
    let out = scope_two_emissions(&rows, HOUR);
    assert_eq!(out.len(), 1);
    assert_eq!(out[0].value, Some(MICRO / 4));
    assert_eq!(out[0].unit.as_deref(), Some("kgco2eq"));
    assert_eq!(out[0].carrier_name.as_deref(), Some("grid electricity"));
}

#[test]
fn test_scope_one_emission_value() {
    // 4.0 kW production at 0.2 kg/kwh over two hours: 1.6 kg
    let rows = vec![scope_one_row(Some(4 * MICRO), MICRO / 5)];
    let out = scope_one_emissions(&rows, 2 * HOUR);
    assert_eq!(out.len(), 1);
    assert_eq!(out[0].value, Some(8 * MICRO / 5));
    assert_eq!(out[0].carrier_name.as_deref(), Some("natural gas"));
}

#[test]
fn test_scope_additivity() {
    // the sum of both per-carrier breakdowns equals the total KPI
    let one_rows = vec![
        scope_one_row(Some(4 * MICRO), MICRO / 5),
        scope_one_row(None, MICRO),
        scope_one_row(Some(3 * MICRO), MICRO / 2),
    ];
    let two_rows = vec![
        scope_two_row(Some(2 * MICRO), Some(MICRO / 2), MICRO / 4),
        scope_two_row(Some(7 * MICRO), None, MICRO / 10),
    ];
    let one = scope_one_emissions(&one_rows, HOUR);
    let two = scope_two_emissions(&two_rows, HOUR);
    let total = total_co2_emissions(&one_rows, &two_rows, HOUR, window()).unwrap();
    let sum = sum_emission_values(&one).unwrap() + sum_emission_values(&two).unwrap();
    assert_eq!(total.value, sum);
    assert_eq!(total.name, "total_co2_emissions");
    assert_eq!(total.unit.as_deref(), Some("kgco2eq"));
}

#[test]
fn test_co2_savings_can_be_negative() {
    // a local mix dirtier than the grid average yields negative savings,
    // which are reported, not clamped
    let rows = vec![SavingsByBucket {
        bucket: Some(0),
        hypothetical_emissions: Some(MICRO),
        local_emissions: Some(3 * MICRO),
    }];
    assert_eq!(co2_savings(&rows, HOUR).unwrap(), -2 * MICRO);
}

#[test]
fn test_co2_savings_value() {
    let rows = vec![
        SavingsByBucket {
            bucket: Some(0),
            hypothetical_emissions: Some(5 * MICRO),
            local_emissions: Some(2 * MICRO),
        },
        SavingsByBucket {
            bucket: Some(1),
            hypothetical_emissions: Some(MICRO),
            local_emissions: None,
        },
    ];
    // (5 + 1 - 2) kg over one hour
    assert_eq!(co2_savings(&rows, HOUR).unwrap(), 4 * MICRO);
    // over half an hour the totals scale by the hours-per-interval
    assert_eq!(co2_savings(&rows, 30).unwrap(), 2 * MICRO);
}

#[test]
fn test_cost_savings_deterministic() {
    // 0.30 EUR/kwh times 12.0 kwh avoided = 3.60 EUR, same on each call
    let price = 3 * MICRO / 10;
    let avoided = 12 * MICRO;
    assert_eq!(cost_savings(price, avoided), 36 * MICRO / 10);
    assert_eq!(cost_savings(price, avoided), cost_savings(price, avoided));
    let r = cost_savings_result(price, avoided, window());
    assert_eq!(r.name, "cost_savings");
    assert_eq!(r.unit.as_deref(), Some("EUR"));
    assert_eq!(r.value, 36 * MICRO / 10);
}

#[test]
fn test_total_grid_electricity_cost() {
    let r = total_grid_electricity_cost_result(Some(15 * MICRO / 10), window());
    assert_eq!(r.value, 15 * MICRO / 10);
    assert_eq!(r.name, "total_grid_electricity_cost");
    assert_eq!(r.unit.as_deref(), Some("EUR"));
    let r = total_grid_electricity_cost_result(None, window());
    assert_eq!(r.value, 0);
}

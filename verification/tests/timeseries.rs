use energy_kpi::import_plan::find_column;
use energy_kpi::import_plan::plan_import;
use energy_kpi::models::ImportConfig;
use energy_kpi::models::MetaInput;
use energy_kpi::models::NewDatapoint;
use energy_kpi::models::TimeseriesMeta;
use energy_kpi::timeseries::collect_identifiers;
use energy_kpi::timeseries::dedup_identifiers;
use energy_kpi::timeseries::find_meta_index;
use energy_kpi::timeseries::match_datapoints;

fn meta(id: i32, identifier: &str) -> TimeseriesMeta {
    TimeseriesMeta {
        id,
        identifier: String::from(identifier),
        unit: String::from("kw"),
        carrier: Some(String::from("electricity")),
        consumption: Some(true),
        description: None,
        local: Some(true),
    }
}

fn point(identifier: &str, timestamp: i64, value: i64) -> NewDatapoint {
    NewDatapoint {
        timestamp,
        value,
        identifier: String::from(identifier),
    }
}

#[test]
fn test_find_meta_index() {
    let metas = vec![meta(1, "total_load"), meta(2, "solar"), meta(3, "total_load")];
    // the first matching row wins
    assert_eq!(find_meta_index(&metas, "total_load"), Some(0));
    assert_eq!(find_meta_index(&metas, "solar"), Some(1));
    assert_eq!(find_meta_index(&metas, "wind"), None);
}

#[test]
fn test_match_datapoints() {
    let metas = vec![meta(1, "total_load"), meta(2, "solar")];
    let points = vec![
        point("total_load", 100, 42),
        point("unknown", 200, 7),
        point("solar", 300, 66),
        point("total_load", 400, 54),
    ];
    // points join with their metadata in order; unmatched points drop out
    let rows = match_datapoints(&points, &metas);
    assert_eq!(rows, vec![(100, 42, 1), (300, 66, 2), (400, 54, 1)]);
}

#[test]
fn test_match_datapoints_empty() {
    let rows = match_datapoints(&vec![], &vec![meta(1, "a")]);
    assert!(rows.is_empty());
    let rows = match_datapoints(&vec![point("a", 1, 2)], &vec![]);
    assert!(rows.is_empty());
}

#[test]
fn test_collect_and_dedup_identifiers() {
    let points = vec![
        point("a", 1, 1),
        point("a", 2, 2),
        point("b", 3, 3),
        point("a", 4, 4),
    ];
    let idents = collect_identifiers(&points);
    assert_eq!(idents, vec!["a", "a", "b", "a"]);
    // only consecutive duplicates collapse, matching the insert path
    let deduped = dedup_identifiers(&idents);
    assert_eq!(deduped, vec!["a", "b", "a"]);
}

#[test]
fn test_find_column() {
    let headers = vec![
        String::from("id"),
        String::from("Time"),
        String::from("Production"),
        String::from("Consumption"),
    ];
    assert_eq!(find_column(&headers, "Time"), Some(1));
    assert_eq!(find_column(&headers, "Production"), Some(2));
    assert_eq!(find_column(&headers, "Price"), None);
}

#[test]
fn test_plan_import() {
    let headers = vec![
        String::from("id"),
        String::from("Time"),
        String::from("Production"),
        String::from("Consumption"),
    ];
    let config = ImportConfig {
        files: Some(vec![String::from("test.csv")]),
        time_column: String::from("Time"),
        timeseries: vec![
            MetaInput {
                identifier: String::from("Production"),
                unit: String::from("kW"),
                carrier: Some(String::from("electricity")),
                consumption: Some(false),
                description: Some(String::from("Electricity production")),
                local: Some(true),
            },
            MetaInput {
                identifier: String::from("Humidity"),
                unit: String::from("pct"),
                carrier: None,
                consumption: None,
                description: None,
                local: None,
            },
        ],
    };
    let plan = plan_import(&headers, &config).unwrap();
    assert_eq!(plan.time_index, 1);
    // a configured series missing from the file is planned as absent
    assert_eq!(plan.series_columns, vec![Some(2), None]);
}

#[test]
fn test_plan_import_missing_time_column() {
    let headers = vec![String::from("Production")];
    let config = ImportConfig {
        files: None,
        time_column: String::from("Time"),
        timeseries: vec![],
    };
    assert!(plan_import(&headers, &config).is_none());
}

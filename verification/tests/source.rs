use energy_kpi::source::EmissionFactorSource;

#[test]
fn test_emission_source_fallback() {
    // a source no emission-factor row carries falls back to the default
    let requested = EmissionFactorSource {
        source: String::from("nonexistent-source"),
    };
    assert_eq!(requested.get_source_or_default(false), "IPCC");

    // the default source, when its rows exist, passes through unchanged
    let requested = EmissionFactorSource {
        source: String::from("IPCC"),
    };
    assert_eq!(requested.get_source_or_default(true), "IPCC");
}

#[test]
fn test_emission_source_pass_through() {
    let requested = EmissionFactorSource {
        source: String::from("UBA"),
    };
    assert_eq!(requested.get_source_or_default(true), "UBA");
}

#[test]
fn test_emission_source_default() {
    assert_eq!(EmissionFactorSource::default_source(), "IPCC");
    assert_eq!(EmissionFactorSource::default().source, "IPCC");
}

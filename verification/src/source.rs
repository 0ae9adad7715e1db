use vstd::prelude::*;

verus! {

/// The emission-factor data source a caller asked for.
#[derive(Clone, Debug)]
pub struct EmissionFactorSource {
    pub source: String,
}

impl EmissionFactorSource {
    /// The fixed default source token.
    pub fn default_source() -> (r: String)
        ensures
            r@ == "IPCC"@,
    {
        String::from_str("IPCC")
    }

    /// Resolve the requested source against what storage holds.
    /// `source_exists` says whether any emission-factor row is tagged
    /// with the requested token; the storage lookup itself happens
    /// outside the library.  Absence of the requested source is never an
    /// error: it selects the default instead.
    pub fn get_source_or_default(&self, source_exists: bool) -> (r: String)
        ensures
            source_exists ==> r@ == self.source@,
            !source_exists ==> r@ == "IPCC"@,
    {
        if source_exists {
            self.source.clone()
        } else {
            EmissionFactorSource::default_source()
        }
    }
}

impl Default for EmissionFactorSource {
    /// A request that names no source asks for the default.
    fn default() -> (r: Self)
        ensures
            r.source@ == "IPCC"@,
    {
        EmissionFactorSource { source: String::from_str("IPCC") }
    }
}

} // verus!

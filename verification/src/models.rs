use vstd::prelude::*;

use crate::kpi::TimeRange;

verus! {

/// Metadata describing one stored timeseries.
#[derive(Clone, Debug, PartialEq, Eq)]
pub struct TimeseriesMeta {
    pub id: i32,
    pub identifier: String,
    pub unit: String,
    pub carrier: Option<String>,
    pub consumption: Option<bool>,
    pub description: Option<String>,
    pub local: Option<bool>,
}

/// One stored datapoint; timestamps are epoch microseconds, values
/// fixed-point with six decimal places.
#[derive(Clone, Copy, Debug, PartialEq, Eq, Structural)]
pub struct Datapoint {
    pub id: i64,
    pub timestamp: i64,
    pub value: i64,
    pub created_at: i64,
    pub updated_at: i64,
}

/// One resampled datapoint: the bucket start and the bucket mean, both
/// nullable because the store's bucketing aggregate is.
#[derive(Clone, Copy, Debug, PartialEq, Eq, Structural)]
pub struct ResampledDatapoint {
    pub bucket: Option<i64>,
    pub mean_value: Option<i64>,
}

/// A new datapoint arriving from a caller.
#[derive(Clone, Debug, PartialEq, Eq)]
pub struct NewDatapoint {
    pub timestamp: i64,
    pub value: i64,
    pub identifier: String,
}

/// A timeseries with its metadata.
#[derive(Clone, Debug)]
pub struct Timeseries {
    pub datapoints: Vec<Datapoint>,
    pub meta: TimeseriesMeta,
}

/// A resampled timeseries with its metadata.
#[derive(Clone, Debug)]
pub struct ResampledTimeseries {
    pub datapoints: Vec<ResampledDatapoint>,
    pub meta: TimeseriesMeta,
}

/// The body of a timeseries request or response.
#[derive(Clone, Debug)]
pub struct TimeseriesBody<T> {
    pub timeseries: Vec<T>,
}

/// Metadata as a caller submits it.
#[derive(Clone, Debug)]
pub struct MetaInput {
    pub identifier: String,
    pub unit: String,
    pub carrier: Option<String>,
    pub consumption: Option<bool>,
    pub description: Option<String>,
    pub local: Option<bool>,
}

/// Metadata as it is answered, with the stored id and the extent of the
/// series' timestamps.
#[derive(Clone, Debug)]
pub struct MetaOutput {
    pub id: i32,
    pub identifier: String,
    pub unit: String,
    pub carrier: Option<String>,
    pub consumption: Option<bool>,
    pub description: Option<String>,
    pub local: Option<bool>,
    pub min_timestamp: Option<i64>,
    pub max_timestamp: Option<i64>,
}

/// A page of metadata rows.
#[derive(Clone, Debug)]
pub struct MetaRows {
    pub values: Vec<MetaOutput>,
}

/// One metadata row in a response.
#[derive(Clone, Debug)]
pub struct SingleMetaResponse {
    pub metadata: TimeseriesMeta,
}

/// Several metadata rows in a response.
#[derive(Clone, Debug)]
pub struct ManyMetaResponse {
    pub data: Vec<TimeseriesMeta>,
    pub count: usize,
}

/// The liveness-probe response.
#[derive(Clone, Debug, PartialEq, Eq)]
pub struct PingResponse {
    pub message: String,
}

impl PingResponse {
    pub fn new(message: String) -> (r: Self)
        ensures
            r.message == message,
    {
        PingResponse { message }
    }
}

impl Default for PingResponse {
    /// The fixed liveness message.
    fn default() -> (r: Self)
        ensures
            r.message@ == "0xDECAFBAD"@,
    {
        PingResponse::new(String::from_str("0xDECAFBAD"))
    }
}

/// A filter on emission-factor rows.
#[derive(Clone, Debug)]
pub struct EmissionFactorFilter {
    pub source: Option<String>,
    pub carrier: Option<String>,
}

/// One registered emission factor; `factor` is fixed-point mass per unit
/// of energy.
#[derive(Clone, Debug)]
pub struct EmissionFactor {
    pub id: i32,
    pub carrier: String,
    pub unit: String,
    pub factor: i64,
    pub source: String,
    pub source_url: Option<String>,
    pub created_at: i64,
    pub updated_at: i64,
}

/// A request to register an emission factor.
#[derive(Clone, Debug)]
pub struct CreateEmissionFactorRequest {
    pub carrier: String,
    pub unit: String,
    pub factor: i64,
    pub source: String,
    pub source_url: Option<String>,
}

/// The answer to an emission-factor registration.
#[derive(Clone, Debug)]
pub struct CreateEmissionFactorResponse {
    pub id: i32,
    pub carrier: Option<String>,
    pub unit: String,
    pub factor: i64,
    pub source: String,
    pub source_url: Option<String>,
}

/// The configuration of a bulk import: which column carries time, and
/// which metadata each remaining column belongs to.
#[derive(Clone, Debug)]
pub struct ImportConfig {
    pub files: Option<Vec<String>>,
    pub time_column: String,
    pub timeseries: Vec<MetaInput>,
}

/// An `Option<i32>` with a default, as a mathematical integer.
pub open spec fn i32_or(v: Option<i32>, d: int) -> int {
    match v {
        Option::Some(x) => x as int,
        Option::None => d,
    }
}

/// Paging parameters of a listing request.
#[derive(Clone, Copy, Debug, PartialEq, Eq, Structural)]
pub struct Pagination {
    pub page: Option<i32>,
    pub per_page: Option<i32>,
}

impl Pagination {
    pub fn get_page_or_default(&self) -> (r: i32)
        ensures
            r == i32_or(self.page, 0),
    {
        match self.page {
            Option::Some(p) => p,
            Option::None => 0,
        }
    }

    pub fn get_per_page_or_default(&self) -> (r: i32)
        ensures
            r == i32_or(self.per_page, 1000),
    {
        match self.per_page {
            Option::Some(p) => p,
            Option::None => 1000,
        }
    }

    /// The row offset of the requested page.
    pub fn get_offset(&self) -> (r: i32)
        requires
            i32::MIN <= i32_or(self.page, 0) * i32_or(self.per_page, 1000) <= i32::MAX,
        ensures
            r == i32_or(self.page, 0) * i32_or(self.per_page, 1000),
    {
        self.get_page_or_default() * self.get_per_page_or_default()
    }
}

impl Default for Pagination {
    /// The first page, a thousand rows.
    fn default() -> (r: Self)
        ensures
            r.page == Option::Some(0i32),
            r.per_page == Option::Some(1000i32),
    {
        Pagination { page: Option::Some(0), per_page: Option::Some(1000) }
    }
}

/// An `Option<i64>` with a default.
pub open spec fn i64_or(v: Option<i64>, d: int) -> int {
    match v {
        Option::Some(x) => x as int,
        Option::None => d,
    }
}

/// An optional [from, to) window as it arrives from a caller, epoch
/// microseconds.  `from <= to` is not enforced here: a malformed window
/// simply selects no rows downstream.
#[derive(Clone, Copy, Debug, PartialEq, Eq, Structural)]
pub struct TimestampFilter {
    pub from: Option<i64>,
    pub to: Option<i64>,
}

impl TimestampFilter {
    /// Resolve the window: a missing start defaults to the epoch, a
    /// missing end to the caller's current time.
    pub fn resolve(&self, now_micros: i64) -> (r: TimeRange)
        ensures
            r.from_micros == i64_or(self.from, 0),
            r.to_micros == i64_or(self.to, now_micros as int),
    {
        let from = match self.from {
            Option::Some(f) => f,
            Option::None => 0,
        };
        let to = match self.to {
            Option::Some(t) => t,
            Option::None => now_micros,
        };
        TimeRange { from_micros: from, to_micros: to }
    }
}

/// The verbosity levels the process logger understands.
#[derive(Clone, Copy, Debug, PartialEq, Eq, Structural)]
pub enum LogLevel {
    Trace,
    Debug,
    Info,
    Warn,
    Error,
}

/// The level a configuration token selects; unknown tokens select Info.
pub open spec fn log_level_of(s: Seq<char>) -> LogLevel {
    if s == "DEBUG"@ {
        LogLevel::Debug
    } else if s == "INFO"@ {
        LogLevel::Info
    } else if s == "WARN"@ {
        LogLevel::Warn
    } else if s == "ERROR"@ {
        LogLevel::Error
    } else if s == "TRACE"@ {
        LogLevel::Trace
    } else {
        LogLevel::Info
    }
}

/// Map a configuration token to a log level.
pub fn log_level_from_token(s: &str) -> (l: LogLevel)
    ensures
        l == log_level_of(s@),
{
    let owned = s.to_owned();
    if owned == String::from_str("DEBUG") {
        LogLevel::Debug
    } else if owned == String::from_str("INFO") {
        LogLevel::Info
    } else if owned == String::from_str("WARN") {
        LogLevel::Warn
    } else if owned == String::from_str("ERROR") {
        LogLevel::Error
    } else if owned == String::from_str("TRACE") {
        LogLevel::Trace
    } else {
        LogLevel::Info
    }
}

/// Process configuration, read once at startup and passed explicitly.
#[derive(Clone, Debug)]
pub struct AppConfig {
    pub database_url: String,
    pub log_level: LogLevel,
    pub port: u16,
    pub run_migrations: bool,
    pub load_initial_data_path: Option<String>,
}

} // verus!

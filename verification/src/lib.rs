//! Verified computation core of an energy-monitoring backend.
//!
//! The library parses resampling-interval strings, computes the derived
//! energy KPIs (self-consumption, autarky, emissions, savings) from
//! pre-aggregated bucket rows, models the result-cache discipline, and
//! resolves emission-factor sources.  Measurements and KPI values are
//! fixed-point integers in millionths of a unit; timestamps are epoch
//! microseconds.  All I/O (HTTP, relational store, key-value cache) lives
//! outside the library and hands it plain values.

pub mod cache;
pub mod decimal;
pub mod error;
pub mod interval;
pub mod kpi;
pub mod import_plan;
pub mod models;
pub mod quantity;
pub mod source;
pub mod timeseries;

pub use error::ApiError;

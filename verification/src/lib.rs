//! Client library for the Alpha Vantage time-series stock price API.
//!
//! The library builds request URLs for the six time-series endpoints,
//! parses the JSON bodies the provider returns into typed response
//! values, and converts those into a normalized in-memory time series.
//! Performing the HTTP round trip itself is left to the caller.

pub mod client;
pub mod date;
pub mod decimal;
pub mod error;
pub mod json;
pub mod response;
pub mod time_series;

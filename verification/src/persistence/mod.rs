//! Persistence of telemetry in external stores.

pub mod influxdb;

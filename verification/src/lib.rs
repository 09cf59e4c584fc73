//! Verified core of the SysInfo telemetry service.
//!
//! The library holds the logic of the telemetry agent: request authentication,
//! InfluxDB line-protocol encoding, the parsers that turn PowerShell/JSON and
//! `quser` output into records, collector bookkeeping and health reporting.
//! Reading the machine (sysinfo, NVML, WMI, PowerShell) and serving HTTP are
//! done by the program around it, which hands plain values to these functions.

pub mod api;
pub mod cache;
pub mod collectors;
pub mod json;
pub mod models;
pub mod persistence;
pub mod platform;
pub mod table;
pub mod text;

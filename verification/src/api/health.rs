//! The health report.

use vstd::prelude::*;

use crate::models::{CollectorStatus, CollectorStatusView, HealthResponse, HealthView};

verus! {

/// Which collectors are available and which are enabled in the configuration.
#[derive(Debug, Clone, Copy, PartialEq, Eq)]
pub struct CollectorFlags {
    pub cpu: bool,
    pub gpu: bool,
    pub memory: bool,
    pub storage: bool,
    pub network: bool,
}

/// The overall status: "unhealthy" without the CPU or memory collector;
/// "degraded" when InfluxDB is enabled but not connected; else "healthy".
pub open spec fn health_status(available: CollectorFlags, influx_enabled: bool, influx_connected: bool) -> Seq<char> {
    if !(available.cpu && available.memory) {
        "unhealthy"@
    } else if influx_enabled && !influx_connected {
        "degraded"@
    } else {
        "healthy"@
    }
}

/// A collector's line of the report: no message when it is available.
pub open spec fn status_entry(name: Seq<char>, enabled: bool, healthy: bool, failure: Seq<char>) -> CollectorStatusView {
    CollectorStatusView {
        name,
        enabled,
        healthy,
        message: if healthy {
            None
        } else {
            Some(failure)
        },
    }
}

/// The collector lines, in the order cpu, gpu, memory, storage, network.
pub open spec fn collector_entries(available: CollectorFlags, enabled: CollectorFlags) -> Seq<CollectorStatusView> {
    seq![
        status_entry("cpu"@, enabled.cpu, available.cpu, "CPU collector failed to initialize"@),
        status_entry("gpu"@, enabled.gpu, available.gpu, "No NVIDIA GPU detected"@),
        status_entry("memory"@, enabled.memory, available.memory, "Memory collector failed to initialize"@),
        status_entry("storage"@, enabled.storage, available.storage, "Storage collector failed to initialize"@),
        status_entry("network"@, enabled.network, available.network, "Network collector failed to initialize"@),
    ]
}

/// The health report. InfluxDB counts as connected only when it is enabled
/// and its health check succeeded.
pub open spec fn health_report(
    available: CollectorFlags,
    enabled: CollectorFlags,
    influx_enabled: bool,
    influx_check_passed: bool,
    uptime_seconds: u64,
) -> HealthView {
    let connected = influx_enabled && influx_check_passed;
    HealthView {
        status: health_status(available, influx_enabled, connected),
        uptime_seconds,
        collectors: collector_entries(available, enabled),
        influxdb_connected: connected,
    }
}

fn entry(name: &str, enabled: bool, healthy: bool, failure: &str) -> (r: CollectorStatus)
    ensures
        r@ == status_entry(name@, enabled, healthy, failure@),
{
    CollectorStatus {
        name: String::from_str(name),
        enabled,
        healthy,
        message: if healthy {
            None
        } else {
            Some(String::from_str(failure))
        },
    }
}

/// Builds the health report from collector availability, configuration, the
/// InfluxDB health check (consulted only when InfluxDB is enabled) and uptime.
pub fn build_health_report(
    available: CollectorFlags,
    enabled: CollectorFlags,
    influx_enabled: bool,
    influx_check_passed: bool,
    uptime_seconds: u64,
) -> (r: HealthResponse)
    ensures
        r@ == health_report(available, enabled, influx_enabled, influx_check_passed, uptime_seconds),
{
    let connected = influx_enabled && influx_check_passed;
    let collectors = vec![
        entry("cpu", enabled.cpu, available.cpu, "CPU collector failed to initialize"),
        entry("gpu", enabled.gpu, available.gpu, "No NVIDIA GPU detected"),
        entry("memory", enabled.memory, available.memory, "Memory collector failed to initialize"),
        entry("storage", enabled.storage, available.storage, "Storage collector failed to initialize"),
        entry("network", enabled.network, available.network, "Network collector failed to initialize"),
    ];
    let status = if !(available.cpu && available.memory) {
        String::from_str("unhealthy")
    } else if influx_enabled && !connected {
        String::from_str("degraded")
    } else {
        String::from_str("healthy")
    };
    let r = HealthResponse { status, uptime_seconds, collectors, influxdb_connected: connected };
    assert(r@.collectors =~= collector_entries(available, enabled));
    r
}

/// The report is unhealthy exactly when a critical collector is missing, and
/// degraded exactly when the critical collectors are there but an enabled
/// InfluxDB did not answer its health check.
pub proof fn lemma_health_status(
    available: CollectorFlags,
    enabled: CollectorFlags,
    influx_enabled: bool,
    influx_check_passed: bool,
    uptime_seconds: u64,
)
    ensures
        ({
            let h = health_report(available, enabled, influx_enabled, influx_check_passed, uptime_seconds);
            &&& (h.status == "unhealthy"@) <==> !(available.cpu && available.memory)
            &&& (h.status == "degraded"@) <==> (available.cpu && available.memory && influx_enabled
                && !influx_check_passed)
            &&& (h.status == "healthy"@) <==> (available.cpu && available.memory && (!influx_enabled
                || influx_check_passed))
            &&& h.influxdb_connected ==> influx_enabled
            &&& h.collectors.len() == 5
        }),
{
    reveal_strlit("unhealthy");
    reveal_strlit("degraded");
    reveal_strlit("healthy");
    assert("unhealthy"@.len() == 9);
    assert("degraded"@.len() == 8);
    assert("healthy"@.len() == 7);
}

/// Each collector line of the report speaks of its own collector: the lines
/// are cpu, gpu, memory, storage and network, in that order; each is enabled
/// as the configuration says, healthy exactly when its collector is
/// available, and carries its failure message exactly when it is not. The
/// report also carries the uptime it was given, and InfluxDB is connected
/// exactly when it is enabled and its health check passed.
pub proof fn lemma_health_entries(
    available: CollectorFlags,
    enabled: CollectorFlags,
    influx_enabled: bool,
    influx_check_passed: bool,
    uptime_seconds: u64,
)
    ensures
        ({
            let h = health_report(available, enabled, influx_enabled, influx_check_passed, uptime_seconds);
            let c = h.collectors;
            &&& c.len() == 5
            &&& forall|i: int| 0 <= i < 5 ==> (#[trigger] c[i].message is None) == c[i].healthy
            &&& c[0].name == "cpu"@ && c[0].enabled == enabled.cpu && c[0].healthy == available.cpu
            &&& c[1].name == "gpu"@ && c[1].enabled == enabled.gpu && c[1].healthy == available.gpu
            &&& c[2].name == "memory"@ && c[2].enabled == enabled.memory && c[2].healthy
                == available.memory
            &&& c[3].name == "storage"@ && c[3].enabled == enabled.storage && c[3].healthy
                == available.storage
            &&& c[4].name == "network"@ && c[4].enabled == enabled.network && c[4].healthy
                == available.network
            &&& !available.cpu ==> c[0].message == Some("CPU collector failed to initialize"@)
            &&& !available.gpu ==> c[1].message == Some("No NVIDIA GPU detected"@)
            &&& !available.memory ==> c[2].message == Some("Memory collector failed to initialize"@)
            &&& !available.storage ==> c[3].message == Some(
                "Storage collector failed to initialize"@,
            )
            &&& !available.network ==> c[4].message == Some(
                "Network collector failed to initialize"@,
            )
            &&& h.uptime_seconds == uptime_seconds
            &&& h.influxdb_connected == (influx_enabled && influx_check_passed)
        }),
{
}

} // verus!

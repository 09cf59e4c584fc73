//! Records that the telemetry service reports, and their models.
//!
//! Each record has a view in which text fields are character sequences; the
//! contracts of the parsers and builders speak of these views.

use vstd::prelude::*;

use crate::json::opt_view;

verus! {

// ---------------------------------------------------------------------------
// System information
// ---------------------------------------------------------------------------

/// General system/OS information.
#[derive(Debug, Clone, PartialEq)]
pub struct SystemInfo {
    /// Machine hostname
    pub hostname: String,
    /// Operating system name (e.g., "Windows")
    pub os: String,
    /// OS version string (e.g., "10.0.22621")
    pub os_version: String,
    /// Kernel/build version
    pub kernel_version: String,
    /// System uptime in seconds
    pub uptime_seconds: u64,
    /// System boot timestamp (Unix timestamp)
    pub boot_time: u64,
    /// CPU architecture (e.g., "x86_64")
    pub architecture: String,
}

/// Model of [`SystemInfo`].
pub struct SystemInfoView {
    pub hostname: Seq<char>,
    pub os: Seq<char>,
    pub os_version: Seq<char>,
    pub kernel_version: Seq<char>,
    pub uptime_seconds: u64,
    pub boot_time: u64,
    pub architecture: Seq<char>,
}

impl View for SystemInfo {
    type V = SystemInfoView;

    open spec fn view(&self) -> SystemInfoView {
        SystemInfoView {
            hostname: self.hostname@,
            os: self.os@,
            os_version: self.os_version@,
            kernel_version: self.kernel_version@,
            uptime_seconds: self.uptime_seconds,
            boot_time: self.boot_time,
            architecture: self.architecture@,
        }
    }
}

impl Default for SystemInfo {
    /// Every text field "Unknown", every number zero.
    fn default() -> (r: Self)
        ensures
            r@ == (SystemInfoView {
                hostname: "Unknown"@,
                os: "Unknown"@,
                os_version: "Unknown"@,
                kernel_version: "Unknown"@,
                uptime_seconds: 0,
                boot_time: 0,
                architecture: "Unknown"@,
            }),
    {
        SystemInfo {
            hostname: String::from_str("Unknown"),
            os: String::from_str("Unknown"),
            os_version: String::from_str("Unknown"),
            kernel_version: String::from_str("Unknown"),
            uptime_seconds: 0,
            boot_time: 0,
            architecture: String::from_str("Unknown"),
        }
    }
}

// ---------------------------------------------------------------------------
// Windows services
// ---------------------------------------------------------------------------

/// Windows service status information.
#[derive(Debug, Clone, PartialEq)]
pub struct ServiceInfo {
    /// Service name (internal name)
    pub name: String,
    /// Service display name
    pub display_name: String,
    /// Current status, as Win32_Service reports it (e.g. "Running", "Stopped")
    pub status: String,
    /// Start type (e.g. "Auto", "Manual", "Disabled")
    pub start_type: String,
    /// Process ID if service is running
    pub pid: Option<u32>,
}

/// Model of [`ServiceInfo`].
pub struct ServiceView {
    pub name: Seq<char>,
    pub display_name: Seq<char>,
    pub status: Seq<char>,
    pub start_type: Seq<char>,
    pub pid: Option<u32>,
}

impl View for ServiceInfo {
    type V = ServiceView;

    open spec fn view(&self) -> ServiceView {
        ServiceView {
            name: self.name@,
            display_name: self.display_name@,
            status: self.status@,
            start_type: self.start_type@,
            pid: self.pid,
        }
    }
}

impl Default for ServiceInfo {
    /// Every text field "Unknown", no process id.
    fn default() -> (r: Self)
        ensures
            r@ == (ServiceView {
                name: "Unknown"@,
                display_name: "Unknown"@,
                status: "Unknown"@,
                start_type: "Unknown"@,
                pid: None,
            }),
    {
        ServiceInfo {
            name: String::from_str("Unknown"),
            display_name: String::from_str("Unknown"),
            status: String::from_str("Unknown"),
            start_type: String::from_str("Unknown"),
            pid: None,
        }
    }
}

// ---------------------------------------------------------------------------
// User sessions
// ---------------------------------------------------------------------------

/// An interactive user session.
#[derive(Debug, Clone, PartialEq)]
pub struct SessionInfo {
    pub username: String,
    pub session_id: u32,
    /// "Console", "RDP", "CachedConsole", "CachedRDP", "Interactive" or "Unknown"
    pub session_type: String,
    pub state: String,
    pub logon_time: Option<String>,
    pub idle_seconds: Option<u64>,
    pub client_name: Option<String>,
    pub client_ip: Option<String>,
}

/// Model of [`SessionInfo`].
pub struct SessionView {
    pub username: Seq<char>,
    pub session_id: u32,
    pub session_type: Seq<char>,
    pub state: Seq<char>,
    pub logon_time: Option<Seq<char>>,
    pub idle_seconds: Option<u64>,
    pub client_name: Option<Seq<char>>,
    pub client_ip: Option<Seq<char>>,
}

impl View for SessionInfo {
    type V = SessionView;

    open spec fn view(&self) -> SessionView {
        SessionView {
            username: self.username@,
            session_id: self.session_id,
            session_type: self.session_type@,
            state: self.state@,
            logon_time: opt_view(self.logon_time),
            idle_seconds: self.idle_seconds,
            client_name: opt_view(self.client_name),
            client_ip: opt_view(self.client_ip),
        }
    }
}

// ---------------------------------------------------------------------------
// Event log entries
// ---------------------------------------------------------------------------

/// A Windows Event Log entry.
#[derive(Debug, Clone, PartialEq)]
pub struct EventInfo {
    pub log_name: String,
    pub source: String,
    pub event_id: u32,
    /// "Critical", "Error", "Warning", "Information" or "Unknown"
    pub level: String,
    pub message: String,
    pub time_created: String,
    pub computer: Option<String>,
}

/// Model of [`EventInfo`].
pub struct EventView {
    pub log_name: Seq<char>,
    pub source: Seq<char>,
    pub event_id: u32,
    pub level: Seq<char>,
    pub message: Seq<char>,
    pub time_created: Seq<char>,
    pub computer: Option<Seq<char>>,
}

impl View for EventInfo {
    type V = EventView;

    open spec fn view(&self) -> EventView {
        EventView {
            log_name: self.log_name@,
            source: self.source@,
            event_id: self.event_id,
            level: self.level@,
            message: self.message@,
            time_created: self.time_created@,
            computer: opt_view(self.computer),
        }
    }
}

// ---------------------------------------------------------------------------
// Windows Update
// ---------------------------------------------------------------------------

/// A Windows update.
#[derive(Debug, Clone, PartialEq)]
pub struct UpdateInfo {
    pub title: String,
    pub kb_id: Option<String>,
    pub description: Option<String>,
    pub severity: Option<String>,
    pub is_installed: bool,
    pub is_mandatory: bool,
    pub reboot_required: bool,
    pub install_date: Option<String>,
    /// Download size in megabytes, as the JSON number was written: the text
    /// reads back as the `f64` that the report carries.
    pub size_mb: Option<String>,
}

/// Model of [`UpdateInfo`].
pub struct UpdateView {
    pub title: Seq<char>,
    pub kb_id: Option<Seq<char>>,
    pub description: Option<Seq<char>>,
    pub severity: Option<Seq<char>>,
    pub is_installed: bool,
    pub is_mandatory: bool,
    pub reboot_required: bool,
    pub install_date: Option<Seq<char>>,
    pub size_mb: Option<Seq<char>>,
}

impl View for UpdateInfo {
    type V = UpdateView;

    open spec fn view(&self) -> UpdateView {
        UpdateView {
            title: self.title@,
            kb_id: opt_view(self.kb_id),
            description: opt_view(self.description),
            severity: opt_view(self.severity),
            is_installed: self.is_installed,
            is_mandatory: self.is_mandatory,
            reboot_required: self.reboot_required,
            install_date: opt_view(self.install_date),
            size_mb: opt_view(self.size_mb),
        }
    }
}

/// Windows Update status.
#[derive(Debug, Clone, PartialEq)]
pub struct UpdateSummary {
    pub last_check: Option<String>,
    pub last_install: Option<String>,
    pub reboot_pending: bool,
    pub pending_count: u32,
    pub pending_updates: Vec<UpdateInfo>,
    pub recent_installed_count: u32,
}

/// Model of [`UpdateSummary`].
pub struct UpdateSummaryView {
    pub last_check: Option<Seq<char>>,
    pub last_install: Option<Seq<char>>,
    pub reboot_pending: bool,
    pub pending_count: u32,
    pub pending_updates: Seq<UpdateView>,
    pub recent_installed_count: u32,
}

impl View for UpdateSummary {
    type V = UpdateSummaryView;

    open spec fn view(&self) -> UpdateSummaryView {
        UpdateSummaryView {
            last_check: opt_view(self.last_check),
            last_install: opt_view(self.last_install),
            reboot_pending: self.reboot_pending,
            pending_count: self.pending_count,
            pending_updates: self.pending_updates@.map_values(|u: UpdateInfo| u@),
            recent_installed_count: self.recent_installed_count,
        }
    }
}

/// The summary reported when nothing is known: no dates, no reboot pending,
/// no updates.
pub open spec fn empty_update_summary() -> UpdateSummaryView {
    UpdateSummaryView {
        last_check: None,
        last_install: None,
        reboot_pending: false,
        pending_count: 0,
        pending_updates: Seq::empty(),
        recent_installed_count: 0,
    }
}

impl Default for UpdateSummary {
    /// The empty summary.
    fn default() -> (r: Self)
        ensures
            r@ == empty_update_summary(),
    {
        let r = UpdateSummary {
            last_check: None,
            last_install: None,
            reboot_pending: false,
            pending_count: 0,
            pending_updates: Vec::new(),
            recent_installed_count: 0,
        };
        assert(r@.pending_updates =~= Seq::<UpdateView>::empty());
        r
    }
}

// ---------------------------------------------------------------------------
// API errors
// ---------------------------------------------------------------------------

/// API error response structure.
#[derive(Debug, Clone, PartialEq)]
pub struct ApiError {
    /// Error code for programmatic handling
    pub code: String,
    /// Human-readable error message
    pub message: String,
}

impl ApiError {
    /// Create a new API error.
    pub fn new(code: &str, message: &str) -> (r: Self)
        ensures
            r.code@ == code@,
            r.message@ == message@,
    {
        ApiError { code: String::from_str(code), message: String::from_str(message) }
    }
}

// ---------------------------------------------------------------------------
// Health
// ---------------------------------------------------------------------------

/// Status of one collector in the health report.
#[derive(Debug, Clone, PartialEq)]
pub struct CollectorStatus {
    pub name: String,
    pub enabled: bool,
    pub healthy: bool,
    pub message: Option<String>,
}

/// Model of [`CollectorStatus`].
pub struct CollectorStatusView {
    pub name: Seq<char>,
    pub enabled: bool,
    pub healthy: bool,
    pub message: Option<Seq<char>>,
}

impl View for CollectorStatus {
    type V = CollectorStatusView;

    open spec fn view(&self) -> CollectorStatusView {
        CollectorStatusView {
            name: self.name@,
            enabled: self.enabled,
            healthy: self.healthy,
            message: opt_view(self.message),
        }
    }
}

/// Service health: overall status, uptime, collectors, InfluxDB connection.
#[derive(Debug, Clone, PartialEq)]
pub struct HealthResponse {
    /// "healthy", "degraded" or "unhealthy"
    pub status: String,
    pub uptime_seconds: u64,
    pub collectors: Vec<CollectorStatus>,
    pub influxdb_connected: bool,
}

/// Model of [`HealthResponse`].
pub struct HealthView {
    pub status: Seq<char>,
    pub uptime_seconds: u64,
    pub collectors: Seq<CollectorStatusView>,
    pub influxdb_connected: bool,
}

impl View for HealthResponse {
    type V = HealthView;

    open spec fn view(&self) -> HealthView {
        HealthView {
            status: self.status@,
            uptime_seconds: self.uptime_seconds,
            collectors: self.collectors@.map_values(|c: CollectorStatus| c@),
            influxdb_connected: self.influxdb_connected,
        }
    }
}

} // verus!

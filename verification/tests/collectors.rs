use sysinfo_telemetry::api::health::CollectorFlags;
use sysinfo_telemetry::cache::{refresh_due, CachedValue};
use sysinfo_telemetry::collectors::cpu::{base_clock, core_count, core_frequencies, thread_count, CpuCollectorError, CpuIdentity};
use sysinfo_telemetry::collectors::events::{self, build_level_filter, events_script, parse_events_json};
use sysinfo_telemetry::collectors::gpu::{bytes_to_mb, error_gpu_name, fallback_gpu_name, has_fans, GpuCollector, GpuCollectorError};
use sysinfo_telemetry::collectors::memory::{used_bytes, MemoryCollectorError};
use sysinfo_telemetry::collectors::network::{
    observe_interface, parse_link_speeds, traffic_delta, AddressText, InterfaceReading, Measurement,
    NetworkCollectorError, TrafficDelta,
};
use sysinfo_telemetry::collectors::services::{sanitize_service_name, services_script, ServiceCollector, QUERY_HEAD, QUERY_TAIL};
use sysinfo_telemetry::collectors::sessions::{
    self, classify_session_name, collect_fresh, collect_via_powershell, collect_via_quser,
    parse_quser_line, parse_quser_output, parse_quser_row, parse_sessions_json, new_session_cache, FreshStep, SessionSource,
};
use sysinfo_telemetry::collectors::storage::{drive_key, parse_disk_io_stats, parse_disk_temperatures, volume_name, DiskIo, StorageCollectorError};
use sysinfo_telemetry::collectors::updates::{self, collect_all_update_info, parse_update_summary};
use sysinfo_telemetry::collectors::CollectorRegistry;
use sysinfo_telemetry::models::{SessionInfo, UpdateSummary};
use sysinfo_telemetry::table::TextMap;
use sysinfo_telemetry::text::find_word_starts;

const QUSER: &str = " USERNAME              SESSIONNAME        ID  STATE   IDLE TIME  LOGON TIME\r\n>john                  console             1  Active      none   12/29/2024 10:30 AM\r\n alice                 rdp-tcp#3           2  Active         5   12/29/2024 11:00 AM\r\n bob                                       3  Disc           1   12/29/2024 9:00 AM\r\n\r\n";

#[test]
fn quser_table_is_parsed() {
    let sessions = parse_quser_output(QUSER).unwrap();
    assert_eq!(sessions.len(), 3);
    assert_eq!(sessions[0].username, "john");
    assert_eq!(sessions[0].session_type, "Console");
    assert_eq!(sessions[0].session_id, 1);
    assert_eq!(sessions[0].state, "Active");
    assert_eq!(sessions[1].username, "alice");
    assert_eq!(sessions[1].session_type, "RDP");
    assert_eq!(sessions[1].session_id, 2);
    // The table is read by its columns: a blank session name stays blank.
    assert_eq!(sessions[2].username, "bob");
    assert_eq!(sessions[2].session_type, "Interactive");
    assert_eq!(sessions[2].session_id, 3);
    assert_eq!(sessions[2].state, "Disc");
    assert_eq!(sessions[0].logon_time, None);
}

#[test]
fn quser_disconnected_session_without_session_name() {
    let out = "USERNAME SESSIONNAME ID STATE IDLE TIME LOGON TIME\n user2                 2  Disc  1:05  12/29/2024 9:00 AM";
    let v = parse_quser_output(out).unwrap();
    assert_eq!(v.len(), 1);
    assert_eq!(v[0].username, "user2");
    assert_eq!(v[0].session_id, 2);
    assert_eq!(v[0].state, "Disc");
    assert_eq!(v[0].session_type, "Interactive");
}

#[test]
fn quser_without_header_columns_splits_words() {
    let out = "users\n>jane console 7 Active\n bob\n";
    let v = parse_quser_output(out).unwrap();
    assert_eq!(v.len(), 1);
    assert_eq!(v[0].username, "jane");
    assert_eq!(v[0].session_id, 7);
    assert_eq!(v[0].session_type, "Console");
}

#[test]
fn quser_row_by_columns() {
    let header: Vec<char> = " USERNAME              SESSIONNAME        ID  STATE   IDLE TIME  LOGON TIME".chars().collect();
    let cols = find_word_starts(&header);
    assert_eq!(&cols[..5], &[1, 23, 42, 46, 54]);
    let line: Vec<char> = ">john                  console             1  Active      none".chars().collect();
    let s = parse_quser_row(&line, &cols).unwrap();
    assert_eq!((s.username.as_str(), s.session_id, s.state.as_str()), ("john", 1, "Active"));
    // A lined-up row with a session name reads as its words do.
    assert_eq!(parse_quser_row(&line, &cols), parse_quser_line(&line));
    let blank: Vec<char> = " bob                                       3  Disc           1".chars().collect();
    assert_eq!(parse_quser_row(&blank, &cols).unwrap().session_id, 3);
    assert_eq!(parse_quser_line(&blank).unwrap().session_id, 0);
    assert!(parse_quser_row(&"   ".chars().collect::<Vec<char>>(), &cols).is_none());
    // A line that does not line up with the header is split into words.
    let short: Vec<char> = " ann".chars().collect();
    assert!(parse_quser_row(&short, &cols).is_none());
    let loose: Vec<char> = ">eve console 4 Active none".chars().collect();
    let s = parse_quser_row(&loose, &cols).unwrap();
    assert_eq!((s.username.as_str(), s.session_id, s.state.as_str(), s.session_type.as_str()), ("eve", 4, "Active", "Console"));
}

#[test]
fn quser_single_spaced_table_is_split_into_words() {
    let out = "USERNAME SESSIONNAME ID STATE IDLE TIME LOGON TIME\n>username console 1 Active none 12/29/2024 10:30 AM";
    let v = parse_quser_output(out).unwrap();
    assert_eq!(
        v,
        vec![SessionInfo {
            username: "username".to_string(),
            session_id: 1,
            session_type: "Console".to_string(),
            state: "Active".to_string(),
            logon_time: None,
            idle_seconds: None,
            client_name: None,
            client_ip: None,
        }]
    );
}

#[test]
fn quser_header_only_or_empty() {
    assert!(parse_quser_output("").unwrap().is_empty());
    assert!(parse_quser_output(" USERNAME SESSIONNAME ID STATE\n").unwrap().is_empty());
    assert!(parse_quser_output("header\nshort line\n").unwrap().is_empty());
}

#[test]
fn session_names_are_classified() {
    assert_eq!(classify_session_name("Console"), "Console");
    assert_eq!(classify_session_name("RDP-Tcp#0"), "RDP");
    assert_eq!(classify_session_name("services"), "Interactive");
    assert_eq!(classify_session_name("CONSOLE"), "Console");
    assert_eq!(classify_session_name("rdp-tcp#1"), "RDP");
}

#[test]
fn sessions_json_array_and_object() {
    let json = r#"[{"Username":"john","SessionId":999,"SessionType":"Console","State":"Active","LogonTime":"2025-01-15T08:00:00+00:00","IdleSeconds":null,"ClientName":null,"ClientIP":null},{"SessionId":1},{"Username":"x","SessionId":"abc"}]"#;
    let v = parse_sessions_json(json).unwrap();
    assert_eq!(v.len(), 2);
    assert_eq!(
        v[0],
        SessionInfo {
            username: "john".to_string(),
            session_id: 999,
            session_type: "Console".to_string(),
            state: "Active".to_string(),
            logon_time: Some("2025-01-15T08:00:00+00:00".to_string()),
            idle_seconds: None,
            client_name: None,
            client_ip: None,
        }
    );
    assert_eq!(v[1].session_id, 0);
    assert_eq!(v[1].session_type, "Unknown");
    assert_eq!(v[1].state, "Unknown");
    let one = parse_sessions_json("  {\"Username\":\"u\",\"SessionId\":4294967297}  ").unwrap();
    assert_eq!(one.len(), 1);
    assert_eq!(one[0].session_id, 1);
    assert!(parse_sessions_json("   ").unwrap().is_empty());
    let err = parse_sessions_json("{oops").unwrap_err();
    assert!(err.starts_with("JSON parse error: "));
}

#[test]
fn fresh_collection_steps() {
    assert!(matches!(collect_fresh(None), FreshStep::Run(SessionSource::PowerShell)));
    let ps = collect_via_powershell(Ok("[]".to_string()));
    assert!(matches!(collect_fresh(Some((SessionSource::PowerShell, ps))), FreshStep::Run(SessionSource::Quser)));
    let ps = collect_via_powershell(Err("no powershell".to_string()));
    assert!(matches!(collect_fresh(Some((SessionSource::PowerShell, ps))), FreshStep::Run(SessionSource::Quser)));
    let ps = collect_via_powershell(Ok("{\"Username\":\"a\",\"SessionId\":2}".to_string()));
    match collect_fresh(Some((SessionSource::PowerShell, ps))) {
        FreshStep::Done(v) => assert_eq!(v[0].username, "a"),
        _ => panic!("expected sessions"),
    }
    let q = collect_via_quser(Ok(QUSER.to_string()));
    match collect_fresh(Some((SessionSource::Quser, q))) {
        FreshStep::Done(v) => assert_eq!(v.len(), 3),
        _ => panic!("expected sessions"),
    }
    let q = collect_via_quser(Err("no quser".to_string()));
    match collect_fresh(Some((SessionSource::Quser, q))) {
        FreshStep::Done(v) => assert!(v.is_empty()),
        _ => panic!("expected no sessions"),
    }
}

#[test]
fn session_cache_lives_five_seconds() {
    let mut cache: CachedValue<Vec<SessionInfo>> = new_session_cache();
    assert_eq!(cache.ttl, 5000);
    assert!(sessions::collect(&cache, 0).is_none());
    let v = parse_quser_output(QUSER).unwrap();
    cache.set(v, 1000);
    assert_eq!(sessions::collect(&cache, 1000).unwrap().len(), 3);
    assert_eq!(sessions::collect(&cache, 5999).unwrap().len(), 3);
    assert!(sessions::collect(&cache, 6000).is_none());
    assert!(sessions::collect(&cache, 500).is_some());
}

#[test]
fn refresh_due_after_interval() {
    assert!(!refresh_due(1000, 1500, 1000));
    assert!(refresh_due(1000, 2000, 1000));
    assert!(!refresh_due(1000, 10, 1));
    assert!(refresh_due(5, 5, 0));
}

const UPDATES: &str = r#"{"RebootPending":true,"LastCheck":"2025-01-15T06:00:00","LastInstall":null,"RecentInstalledCount":5,"PendingUpdates":[{"Title":"Security Update KB5034441","KbId":"KB5034441","Description":"d","Severity":"Critical","IsInstalled":false,"IsMandatory":true,"RebootRequired":true,"InstallDate":null,"SizeMB":150.5},{"KbId":"KB1"},{"Title":"Defender","SizeMB":12}]}"#;

#[test]
fn update_summary_is_parsed() {
    let s = parse_update_summary(UPDATES).unwrap();
    assert!(s.reboot_pending);
    assert_eq!(s.last_check.as_deref(), Some("2025-01-15T06:00:00"));
    assert_eq!(s.last_install, None);
    assert_eq!(s.recent_installed_count, 5);
    assert_eq!(s.pending_count, 2);
    assert_eq!(s.pending_updates.len(), 2);
    let u = &s.pending_updates[0];
    assert_eq!(u.title, "Security Update KB5034441");
    assert_eq!(u.kb_id.as_deref(), Some("KB5034441"));
    assert_eq!(u.severity.as_deref(), Some("Critical"));
    assert!(u.is_mandatory && u.reboot_required && !u.is_installed);
    assert_eq!(u.size_mb.as_deref(), Some("150.5"));
    assert_eq!(s.pending_updates[1].size_mb.as_deref(), Some("12"));
    assert!(!s.pending_updates[1].is_mandatory);
}

#[test]
fn update_summary_empty_and_errors() {
    assert_eq!(parse_update_summary("  ").unwrap(), UpdateSummary::default());
    assert_eq!(parse_update_summary("{}").unwrap(), UpdateSummary::default());
    assert!(parse_update_summary("nope").unwrap_err().starts_with("JSON parse error: "));
    assert_eq!(updates::collect(Ok("nope".to_string())), UpdateSummary::default());
    assert_eq!(updates::collect(Err("PowerShell error: x".to_string())), UpdateSummary::default());
    assert_eq!(collect_all_update_info(Err("e".to_string())).unwrap_err(), "e");
    assert_eq!(updates::collect(Ok(UPDATES.to_string())).pending_count, 2);
}

#[test]
fn events_level_filter() {
    let sev = |v: &[&str]| v.iter().map(|s| s.to_string()).collect::<Vec<_>>();
    assert_eq!(build_level_filter(&sev(&["error", "warning"])), "2,3");
    assert_eq!(build_level_filter(&sev(&["CRITICAL", "Info", "bogus"])), "1,4");
    assert_eq!(build_level_filter(&sev(&["information"])), "4");
    assert_eq!(build_level_filter(&sev(&["ERROR", "Warning"])), "2,3");
    assert_eq!(build_level_filter(&[]), "1,2,3");
    assert_eq!(build_level_filter(&sev(&["nothing"])), "1,2,3");
}

#[test]
fn events_script_holds_limits() {
    let script = events_script(60, 50, &["error".to_string()]);
    assert!(script.contains("$startTime = (Get-Date).AddMinutes(-60)"));
    assert!(script.contains("        Level = 2\n"));
    assert!(script.contains("-MaxEvents 50 2>$null"));
    assert!(script.contains("Select-Object -First 50 | ForEach-Object {"));
    assert!(script.ends_with("} | ConvertTo-Json -Compress\n"));
}

#[test]
fn events_json_is_parsed() {
    let json = r#"[{"LogName":"System","Source":"Service Control Manager","EventId":7036,"Level":"Information","Message":"The service entered the running state.","TimeCreated":"2025-01-15T10:25:00+00:00","Computer":"DESKTOP-ABC123"},{"LogName":"System","Source":"x","EventId":-1,"Level":"Error","TimeCreated":"t"},{"LogName":"Application","Source":"y","EventId":1000,"Level":"Error","TimeCreated":"t2"}]"#;
    let v = parse_events_json(json);
    assert_eq!(v.len(), 2);
    assert_eq!(v[0].event_id, 7036);
    assert_eq!(v[0].computer.as_deref(), Some("DESKTOP-ABC123"));
    assert_eq!(v[1].message, "");
    assert_eq!(v[1].computer, None);
    assert!(parse_events_json("garbage").is_empty());
    assert!(parse_events_json("").is_empty());
    assert_eq!(events::collect(Err("timeout".to_string())).len(), 0);
    assert_eq!(events::collect(Ok(json.to_string())).len(), 2);
}

#[test]
fn service_names_are_sanitized() {
    assert_eq!(sanitize_service_name("wuauserv").as_deref(), Some("wuauserv"));
    assert_eq!(sanitize_service_name("My-Svc_1.2").as_deref(), Some("My-Svc_1.2"));
    assert_eq!(sanitize_service_name(""), None);
    assert_eq!(sanitize_service_name("bad'name"), None);
    assert_eq!(sanitize_service_name("a b"), None);
    assert_eq!(sanitize_service_name("bits'x"), None);
    assert_eq!(sanitize_service_name("x;rm"), None);
    assert_eq!(sanitize_service_name("x\"y"), None);
    assert_eq!(sanitize_service_name("x$y"), None);
    assert_eq!(sanitize_service_name(&"x".repeat(256)).map(|s| s.len()), Some(256));
    assert_eq!(sanitize_service_name(&"x".repeat(257)), None);
    assert_eq!(sanitize_service_name(&"é".repeat(129)), None);
    assert_eq!(sanitize_service_name(&"é".repeat(128)).map(|s| s.len()), Some(256));
}

#[test]
fn services_script_builds_filter() {
    let all = services_script(&[]).unwrap();
    assert_eq!(all, format!("{}{}", QUERY_HEAD, QUERY_TAIL));
    let some = services_script(&["wuauserv".to_string(), "x;y".to_string(), "bits".to_string()]).unwrap();
    assert!(some.starts_with("Get-CimInstance -ClassName Win32_Service -Filter \"Name IN ('wuauserv','bits')\" | Select-Object"));
    assert_eq!(services_script(&["'; rm".to_string()]), None);
}

#[test]
fn services_output_is_filtered() {
    let c = ServiceCollector::new();
    let json = r#"[{"Name":"wuauserv","DisplayName":"Windows Update","Status":"Running","StartType":"Auto","Pid":1234},{"Name":"bits","DisplayName":"BITS","Status":"Stopped","StartType":"Manual","Pid":null},{"Name":"nodisplay"}]"#;
    let all = c.collect(Some(json.to_string()), true);
    assert_eq!(all.len(), 2);
    assert_eq!(all[0].pid, Some(1234));
    assert_eq!(all[1].pid, None);
    let running = c.collect(Some(json.to_string()), false);
    assert_eq!(running.len(), 1);
    assert_eq!(running[0].name, "wuauserv");
    let single = c.collect(Some(r#"{"Name":"a","DisplayName":"A"}"#.to_string()), true);
    assert_eq!(single[0].status, "Unknown");
    assert_eq!(single[0].start_type, "Unknown");
    assert!(c.collect(Some(r#"{"Name":"a","DisplayName":"A"}"#.to_string()), false).is_empty());
    assert!(c.collect(None, true).is_empty());
    assert!(c.collect(Some("42".to_string()), true).is_empty());
    assert!(c.collect(Some("not json".to_string()), true).is_empty());
}

#[test]
fn link_speeds_are_parsed() {
    let s = parse_link_speeds(Some(r#"[{"Name":"Wi-Fi","SpeedMbps":867},{"Name":"Eth","SpeedMbps":0},{"Name":"Wi-Fi","SpeedMbps":1000}]"#.to_string()));
    assert_eq!(s.get("Wi-Fi"), Some(&1000));
    assert_eq!(s.get("Eth"), None);
    assert_eq!(s.len(), 1);
    let one = parse_link_speeds(Some("{\"Name\":\"Eth\",\"SpeedMbps\":100}".to_string()));
    assert_eq!(one.get("Eth"), Some(&100));
    assert_eq!(parse_link_speeds(None).len(), 0);
    assert_eq!(parse_link_speeds(Some("  ".to_string())).len(), 0);
    assert_eq!(parse_link_speeds(Some("[1,2".to_string())).len(), 0);
}

#[test]
fn interfaces_are_observed() {
    let mut history: TextMap<Measurement> = TextMap::new();
    let mut speeds: TextMap<u64> = TextMap::new();
    speeds.insert("Wi-Fi".to_string(), 867);
    let reading = InterfaceReading {
        name: "Wi-Fi".to_string(),
        bytes_sent: 1000,
        bytes_received: 2000,
        mac: "AA:BB:CC:DD:EE:FF".to_string(),
        addresses: vec![
            AddressText { is_ipv4: false, text: "fe80::1".to_string() },
            AddressText { is_ipv4: true, text: "192.168.1.100".to_string() },
            AddressText { is_ipv4: true, text: "10.0.0.1".to_string() },
        ],
    };
    let first = observe_interface(&mut history, &speeds, &reading, 1_000_000_000);
    assert_eq!(first.mac.as_deref(), Some("AA:BB:CC:DD:EE:FF"));
    assert_eq!(first.ipv4.as_deref(), Some("192.168.1.100"));
    assert_eq!(first.ipv6.as_deref(), Some("fe80::1"));
    assert_eq!(first.status, "up");
    assert_eq!(first.speed_mbps, Some(867));
    assert_eq!(first.delta, None);
    let later = InterfaceReading { bytes_sent: 1500, bytes_received: 1000, ..reading.clone() };
    let second = observe_interface(&mut history, &speeds, &later, 3_000_000_000);
    assert_eq!(second.delta, Some(TrafficDelta { sent: 500, received: 0, elapsed_ns: 2_000_000_000 }));
    assert_eq!(history.len(), 1);
    let idle = InterfaceReading {
        name: "lo".to_string(),
        bytes_sent: 0,
        bytes_received: 0,
        mac: "00:00:00:00:00:00".to_string(),
        addresses: vec![],
    };
    let o = observe_interface(&mut history, &speeds, &idle, 3_000_000_000);
    assert_eq!(o.status, "down");
    assert_eq!(o.mac, None);
    assert_eq!(o.speed_mbps, None);
    assert_eq!(history.len(), 2);
    assert_eq!(traffic_delta(history.get("lo"), 5, 5, 3_000_000_000), None);
}

#[test]
fn disk_stats_are_parsed() {
    let io = parse_disk_io_stats(Some(r#"[{"Name":"c:","DiskReadBytesPersec":157810688,"DiskWriteBytesPersec":84082892},{"Name":"D:","DiskReadBytesPersec":1.5}]"#.to_string()));
    assert_eq!(io.get("C:"), Some(&DiskIo { read_bytes_per_sec: Some(157810688), write_bytes_per_sec: Some(84082892) }));
    assert_eq!(io.get("D:"), Some(&DiskIo { read_bytes_per_sec: None, write_bytes_per_sec: None }));
    assert_eq!(parse_disk_io_stats(None).len(), 0);
    let temps = parse_disk_temperatures(Some(r#"{"c:":38,"D:":40.5,"E:":"hot"}"#.to_string()));
    assert_eq!(temps.get("C:").map(|s| s.as_str()), Some("38"));
    assert_eq!(temps.get("D:").map(|s| s.as_str()), Some("40.5"));
    assert_eq!(temps.get("E:"), None);
    assert_eq!(parse_disk_temperatures(Some("{}".to_string())).len(), 0);
    assert_eq!(parse_disk_temperatures(Some("[38]".to_string())).len(), 0);
}

#[test]
fn volume_keys_and_names() {
    assert_eq!(drive_key("c:\\"), "C:");
    assert_eq!(drive_key("D:\\data"), "D:");
    assert_eq!(drive_key("/"), "/");
    assert_eq!(drive_key(""), "");
    assert_eq!(volume_name("", "C:\\"), "C:\\");
    assert_eq!(volume_name("Main", "C:\\"), "Main");
}

#[test]
fn cpu_identity_is_learned_once() {
    let mut id = CpuIdentity::new();
    assert_eq!(id.resolve(None), ("Unknown CPU".to_string(), "Unknown".to_string()));
    assert_eq!(id.resolve(Some(("", "GenuineIntel"))), ("Unknown CPU".to_string(), "GenuineIntel".to_string()));
    assert_eq!(id.resolve(Some(("Other", "AMD"))), ("Unknown CPU".to_string(), "GenuineIntel".to_string()));
    let mut id2 = CpuIdentity::new();
    assert_eq!(id2.resolve(Some(("Intel i5", ""))), ("Intel i5".to_string(), "Unknown".to_string()));
}

#[test]
fn cpu_counts_and_clocks() {
    assert_eq!(thread_count(20), 20);
    assert_eq!(core_count(Some(14), 20), 14);
    assert_eq!(core_count(None, 20), 10);
    assert_eq!(core_count(None, 1), 0);
    assert_eq!(core_frequencies(&[2500, 4294967296 + 7]), vec![2500, 7]);
    assert_eq!(base_clock(&[2500, 1800, 4700]), Some(4700));
    assert_eq!(base_clock(&[]), None);
}

#[test]
fn gpu_helpers() {
    let c: GpuCollector<u8> = GpuCollector::from_init::<String>(Ok((1, Ok(2))));
    assert!(c.is_available());
    assert_eq!(c.gpu_count(), 2);
    let c: GpuCollector<u8> = GpuCollector::from_init::<String>(Ok((1, Err("count".to_string()))));
    assert!(!c.is_available());
    let c: GpuCollector<u8> = GpuCollector::from_init::<String>(Err("no driver".to_string()));
    assert!(c.handle.is_none() && c.gpu_count() == 0);
    assert_eq!(bytes_to_mb(6 * 1024 * 1024 * 1024 + 5), 6144);
    assert_eq!(fallback_gpu_name(3), "NVIDIA GPU 3");
    assert_eq!(error_gpu_name(0), "GPU 0 (error)");
    assert!(has_fans(Some(2)));
    assert!(!has_fans(Some(0)));
    assert!(!has_fans(None));
}

#[test]
fn memory_used_saturates() {
    assert_eq!(used_bytes(16, 6), 10);
    assert_eq!(used_bytes(6, 16), 0);
}

#[test]
fn registry_health() {
    let all = CollectorFlags { cpu: true, gpu: true, memory: true, storage: true, network: true };
    let r: CollectorRegistry<u8, u8, u8, u8, u8, u8> = CollectorRegistry::new(
        all,
        || Ok(1),
        || Ok(GpuCollector::from_init::<String>(Ok((2u8, Ok(1))))),
        || Ok(3),
        || Err(StorageCollectorError::InitError("x".to_string())),
        || Ok(5),
        6,
    );
    assert!(r.is_healthy());
    assert!(r.storage.is_none());
    assert_eq!(r.network, Some(5));
    assert!(r.gpu.is_available());
    let bad: CollectorRegistry<u8, u8, u8, u8, u8, u8> = CollectorRegistry::new(
        all,
        || Ok(1),
        || Err(GpuCollectorError::NoGpusFound),
        || Err(MemoryCollectorError::InitError("no memory".to_string())),
        || Ok(4),
        || Err(NetworkCollectorError::CollectionError("y".to_string())),
        6,
    );
    assert!(!bad.is_healthy());
    assert!(!bad.gpu.is_available());
    let flags = bad.availability(false);
    assert!(flags.cpu && !flags.memory && flags.storage && !flags.network && !flags.gpu);
}

#[test]
fn registry_leaves_disabled_collectors_out() {
    let some = CollectorFlags { cpu: false, gpu: false, memory: true, storage: false, network: true };
    let r: CollectorRegistry<u8, u8, u8, u8, u8, u8> = CollectorRegistry::new(
        some,
        || -> Result<u8, CpuCollectorError> { panic!("disabled CPU collector was created") },
        || -> Result<GpuCollector<u8>, GpuCollectorError> { panic!("disabled GPU collector was created") },
        || Ok(3),
        || -> Result<u8, StorageCollectorError> { panic!("disabled storage collector was created") },
        || Ok(5),
        6,
    );
    assert!(r.cpu.is_none());
    assert!(!r.gpu.is_available());
    assert_eq!(r.memory, Some(3));
    assert!(r.storage.is_none());
    assert_eq!(r.network, Some(5));
    assert!(!r.is_healthy());
}

#[test]
fn collector_error_messages() {
    assert_eq!(CpuCollectorError::InitError("e".to_string()).message(), "Failed to initialize CPU collector: e");
    assert_eq!(CpuCollectorError::CollectionError("e".to_string()).message(), "Failed to collect CPU metrics: e");
    assert_eq!(MemoryCollectorError::InitError("e".to_string()).message(), "Failed to initialize memory collector: e");
    assert_eq!(NetworkCollectorError::CollectionError("e".to_string()).message(), "Failed to collect network metrics: e");
    assert_eq!(StorageCollectorError::InitError("e".to_string()).message(), "Failed to initialize storage collector: e");
    assert_eq!(GpuCollectorError::NoGpusFound.message(), "No GPUs detected");
    assert_eq!(GpuCollectorError::NvmlError("e".to_string()).message(), "NVML error: e");
}

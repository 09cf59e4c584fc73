use sysinfo_telemetry::api::auth::{allow_any_origin, authorize, constant_time_eq, AuthDecision};
use sysinfo_telemetry::text::split_lines;
use sysinfo_telemetry::persistence::influxdb::{
    escape_field_string, escape_tag_value, is_success, snapshot_to_line_protocol, write_outcome,
    CpuSample, GpuSample, InfluxDbError, InfluxDbTarget, MemorySample, NetworkSample,
    SnapshotSample, StorageSample,
};

#[test]
fn constant_time_eq_compares_whole_strings() {
    assert!(constant_time_eq("secret-key", "secret-key"));
    assert!(!constant_time_eq("secret-key", "secret-kez"));
    assert!(!constant_time_eq("secret", "secret-key"));
    assert!(constant_time_eq("", ""));
    assert!(!constant_time_eq("é", "e\u{301}"));
    assert!(constant_time_eq("clé", "clé"));
}

#[test]
fn authorize_without_key_allows_everything() {
    assert_eq!(authorize("", "/api/v1/cpu", None), AuthDecision::Allow);
    assert_eq!(authorize("", "/api/v1/cpu", Some("whatever")), AuthDecision::Allow);
}

#[test]
fn authorize_health_bypasses_key() {
    assert_eq!(authorize("k", "/api/v1/health", None), AuthDecision::Allow);
    assert_eq!(authorize("k", "/health", Some("wrong")), AuthDecision::Allow);
    assert_eq!(authorize("k", "/api/v1/health/", None), AuthDecision::MissingKey);
}

#[test]
fn authorize_checks_the_key() {
    assert_eq!(authorize("k123", "/api/v1/system", Some("k123")), AuthDecision::Allow);
    assert_eq!(authorize("k123", "/api/v1/system", Some("k124")), AuthDecision::InvalidKey);
    assert_eq!(authorize("k123", "/api/v1/system", None), AuthDecision::MissingKey);
}

#[test]
fn cors_any_origin_rules() {
    assert!(allow_any_origin(&[]));
    assert!(allow_any_origin(&["*".to_string()]));
    assert!(!allow_any_origin(&["https://a.example".to_string()]));
    assert!(!allow_any_origin(&["*".to_string(), "https://a.example".to_string()]));
}

#[test]
fn escape_tag_value_escapes_separators() {
    assert_eq!(escape_tag_value("RTX 4050"), "RTX\\ 4050");
    assert_eq!(escape_tag_value("C:\\"), "C:\\\\");
    assert_eq!(escape_tag_value("a,b=c d\\e"), "a\\,b\\=c\\ d\\\\e");
    assert_eq!(escape_tag_value("plain"), "plain");
    assert_eq!(escape_tag_value(""), "");
}

#[test]
fn escape_field_string_escapes_quotes() {
    assert_eq!(escape_field_string("say \"hi\""), "say \\\"hi\\\"");
    assert_eq!(escape_field_string("a\\b"), "a\\\\b");
    assert_eq!(escape_field_string("a, b=c"), "a, b=c");
}

fn sample() -> SnapshotSample {
    SnapshotSample {
        timestamp_ms: 1705312200000,
        hostname: "DESKTOP-ABC".to_string(),
        cpu: CpuSample {
            cores: 8,
            threads: 16,
            usage_percent: Some("15.5".to_string()),
            temperature_celsius: None,
            power_watts: None,
        },
        memory: MemorySample {
            total_gb: "16".to_string(),
            available_gb: "8".to_string(),
            used_gb: "8".to_string(),
            usage_percent: "50".to_string(),
        },
        gpus: vec![
            GpuSample {
                index: 0,
                name: "RTX 4050".to_string(),
                vram_total_mb: Some(6144),
                vram_used_mb: None,
                usage_percent: Some("5".to_string()),
                temperature_celsius: Some("42".to_string()),
                power_watts: None,
            },
            GpuSample {
                index: 1,
                name: "Idle".to_string(),
                vram_total_mb: None,
                vram_used_mb: None,
                usage_percent: None,
                temperature_celsius: None,
                power_watts: None,
            },
        ],
        storage: vec![StorageSample {
            mount_point: "C:\\".to_string(),
            drive_type: "SSD".to_string(),
            total_gb: "500".to_string(),
            used_gb: "250".to_string(),
            available_gb: "250".to_string(),
            usage_percent: "50".to_string(),
            temperature_celsius: None,
            read_speed_mbps: Some("1.5".to_string()),
            write_speed_mbps: None,
        }],
        network: vec![NetworkSample {
            name: "Wi-Fi".to_string(),
            status: "up".to_string(),
            bytes_sent: 1234,
            bytes_received: 5678,
            send_rate_mbps: None,
            receive_rate_mbps: Some("10.2".to_string()),
        }],
    }
}

#[test]
fn line_protocol_of_a_snapshot() {
    let text = snapshot_to_line_protocol(&sample());
    let expected = [
        "cpu,host=DESKTOP-ABC cores=8i,threads=16i,usage_percent=15.5 1705312200000",
        "memory,host=DESKTOP-ABC total_gb=16,available_gb=8,used_gb=8,usage_percent=50 1705312200000",
        "gpu,host=DESKTOP-ABC,index=0,name=RTX\\ 4050 vram_total_mb=6144i,usage_percent=5,temperature_celsius=42 1705312200000",
        "storage,host=DESKTOP-ABC,mount_point=C:\\\\,drive_type=SSD total_gb=500,used_gb=250,available_gb=250,usage_percent=50,read_speed_mbps=1.5 1705312200000",
        "network,host=DESKTOP-ABC,interface=Wi-Fi,status=up bytes_sent=1234i,bytes_received=5678i,receive_rate_mbps=10.2 1705312200000",
    ]
    .join("\n");
    assert_eq!(text, expected);
}

#[test]
fn line_protocol_minimal_snapshot_has_cpu_and_memory() {
    let mut s = sample();
    s.gpus.clear();
    s.storage.clear();
    s.network.clear();
    s.timestamp_ms = -5;
    s.hostname = "my host".to_string();
    let text = snapshot_to_line_protocol(&s);
    assert_eq!(text.lines().count(), 2);
    assert!(text.starts_with("cpu,host=my\\ host cores=8i"));
    assert!(text.ends_with(" -5"));
}

#[test]
fn line_protocol_splits_back_into_one_point_per_line() {
    let text = snapshot_to_line_protocol(&sample());
    let chars: Vec<char> = text.chars().collect();
    let lines: Vec<String> = split_lines(&chars)
        .into_iter()
        .map(|l| l.into_iter().collect())
        .collect();
    assert_eq!(lines.len(), 5);
    assert!(lines[0].starts_with("cpu,host=DESKTOP-ABC "));
    assert!(lines[1].starts_with("memory,host=DESKTOP-ABC "));
    assert!(lines[2].starts_with("gpu,host=DESKTOP-ABC,index=0,"));
    assert!(lines[3].starts_with("storage,host=DESKTOP-ABC,"));
    assert!(lines[4].starts_with("network,host=DESKTOP-ABC,"));
    assert!(lines.iter().all(|l| l.ends_with(" 1705312200000")));
    assert_eq!(lines.join("\n"), text);
}

#[test]
fn influx_urls_and_header() {
    let t = InfluxDbTarget {
        url: "http://localhost:8086".to_string(),
        org: "myorg".to_string(),
        bucket: "sysinfo".to_string(),
        token: "tok".to_string(),
    };
    assert!(t.is_configured());
    assert_eq!(
        t.write_url(),
        "http://localhost:8086/api/v2/write?org=myorg&bucket=sysinfo&precision=ms"
    );
    assert_eq!(t.health_url(), "http://localhost:8086/health");
    assert_eq!(t.authorization(), "Token tok");
    let off = InfluxDbTarget { url: String::new(), ..t };
    assert!(!off.is_configured());
}

#[test]
fn write_outcomes() {
    assert!(is_success(204));
    assert!(!is_success(300));
    assert_eq!(write_outcome(204, "204 No Content", None), Ok(()));
    assert_eq!(write_outcome(401, "401 Unauthorized", Some("x".to_string())), Err(InfluxDbError::AuthError));
    assert_eq!(
        write_outcome(400, "400 Bad Request", Some("bad line".to_string())),
        Err(InfluxDbError::WriteError("400 Bad Request: bad line".to_string()))
    );
    assert_eq!(
        write_outcome(500, "500 Internal Server Error", None),
        Err(InfluxDbError::WriteError("500 Internal Server Error: Unknown error".to_string()))
    );
}

#[test]
fn influx_error_messages() {
    assert_eq!(InfluxDbError::AuthError.message(), "Authentication failed");
    assert_eq!(
        InfluxDbError::ConnectionError("refused".to_string()).message(),
        "Failed to connect to InfluxDB: refused"
    );
    assert_eq!(InfluxDbError::WriteError("x".to_string()).message(), "Failed to write data: x");
    assert_eq!(InfluxDbError::ConfigError("y".to_string()).message(), "Invalid configuration: y");
}

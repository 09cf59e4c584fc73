use sysinfo_telemetry::api::health::{build_health_report, CollectorFlags};
use sysinfo_telemetry::json::{field_text, JsonValue};
use sysinfo_telemetry::models::{ApiError, ServiceInfo, SystemInfo, UpdateSummary};
use sysinfo_telemetry::platform::windows::{
    hostname_or_unknown, query_string, query_u32, variant_to_string, variant_to_u32, WindowsError, WmiValue,
};
use sysinfo_telemetry::table::TextMap;
use sysinfo_telemetry::text::{
    chars_of, contains_chars, decimal_string, join_strings, parse_u32, signed_decimal_string, split_lines, split_words,
    trim_str,
};

#[test]
fn api_error_new() {
    let e = ApiError::new("not_found", "No such endpoint");
    assert_eq!(e.code, "not_found");
    assert_eq!(e.message, "No such endpoint");
}

#[test]
fn defaults_are_unknown() {
    let s = SystemInfo::default();
    assert_eq!(s.hostname, "Unknown");
    assert_eq!(s.uptime_seconds, 0);
    let v = ServiceInfo::default();
    assert_eq!(v.status, "Unknown");
    assert_eq!(v.pid, None);
    let u = UpdateSummary::default();
    assert!(!u.reboot_pending && u.pending_count == 0 && u.pending_updates.is_empty());
}

fn all(v: bool) -> CollectorFlags {
    CollectorFlags { cpu: v, gpu: v, memory: v, storage: v, network: v }
}

#[test]
fn health_report_statuses() {
    let h = build_health_report(all(true), all(true), false, false, 3600);
    assert_eq!(h.status, "healthy");
    assert_eq!(h.uptime_seconds, 3600);
    assert!(!h.influxdb_connected);
    assert_eq!(h.collectors.len(), 5);
    assert_eq!(h.collectors[1].name, "gpu");
    assert_eq!(h.collectors[1].message, None);
    let h = build_health_report(all(true), all(true), true, false, 1);
    assert_eq!(h.status, "degraded");
    let h = build_health_report(all(true), all(true), true, true, 1);
    assert_eq!(h.status, "healthy");
    assert!(h.influxdb_connected);
    let h = build_health_report(all(true), all(true), false, true, 1);
    assert!(!h.influxdb_connected);
    let mut avail = all(true);
    avail.memory = false;
    avail.gpu = false;
    let h = build_health_report(avail, all(false), true, false, 1);
    assert_eq!(h.status, "unhealthy");
    assert_eq!(h.collectors[2].message.as_deref(), Some("Memory collector failed to initialize"));
    assert_eq!(h.collectors[1].message.as_deref(), Some("No NVIDIA GPU detected"));
    assert!(!h.collectors[0].enabled);
}

#[test]
fn wmi_values_convert() {
    assert_eq!(variant_to_u32(&WmiValue::UI8(4294967296 + 3)), Some(3));
    assert_eq!(variant_to_u32(&WmiValue::I1(-1)), Some(u32::MAX));
    assert_eq!(variant_to_u32(&WmiValue::UI2(7)), Some(7));
    assert_eq!(variant_to_u32(&WmiValue::Text("5".to_string())), None);
    assert_eq!(variant_to_string(&WmiValue::I8(i64::MIN)).as_deref(), Some("-9223372036854775808"));
    assert_eq!(variant_to_string(&WmiValue::UI8(u64::MAX)).as_deref(), Some("18446744073709551615"));
    assert_eq!(variant_to_string(&WmiValue::I2(-42)).as_deref(), Some("-42"));
    assert_eq!(variant_to_string(&WmiValue::Text("10.0.22631".to_string())).as_deref(), Some("10.0.22631"));
    assert_eq!(variant_to_string(&WmiValue::Other), None);
}

#[test]
fn wmi_query_rows() {
    let mut row = TextMap::new();
    row.insert("Version".to_string(), WmiValue::Text("10.0.22631".to_string()));
    row.insert("Count".to_string(), WmiValue::UI4(3));
    let rows = vec![row, TextMap::new()];
    assert_eq!(query_string(&rows, "Version").as_deref(), Some("10.0.22631"));
    assert_eq!(query_u32(&rows, "Count"), Some(3));
    assert_eq!(query_u32(&rows, "Version"), None);
    assert_eq!(query_string(&rows, "Missing"), None);
    assert_eq!(query_u32(&[], "Count"), None);
}

#[test]
fn windows_errors_and_hostname() {
    assert_eq!(WindowsError::WmiQueryError("bad".to_string()).message(), "WMI query failed: bad");
    assert_eq!(WindowsError::ComError("c".to_string()).message(), "COM initialization failed: c");
    assert_eq!(hostname_or_unknown(None), "Unknown");
    assert_eq!(hostname_or_unknown(Some("DESKTOP-ABC".to_string())), "DESKTOP-ABC");
}

#[test]
fn decimal_text() {
    assert_eq!(decimal_string(0), "0");
    assert_eq!(decimal_string(1705312200000), "1705312200000");
    assert_eq!(signed_decimal_string(-1), "-1");
    assert_eq!(signed_decimal_string(0), "0");
}

#[test]
fn u32_parsing_follows_std() {
    let p = |s: &str| parse_u32(&chars_of(s));
    assert_eq!(p("1"), Some(1));
    assert_eq!(p("+12"), Some(12));
    assert_eq!(p("0004"), Some(4));
    assert_eq!(p("4294967295"), Some(u32::MAX));
    assert_eq!(p("4294967296"), None);
    assert_eq!(p("99999999999999999999"), None);
    assert_eq!(p("-1"), None);
    assert_eq!(p("+"), None);
    assert_eq!(p(""), None);
    assert_eq!(p("1a"), None);
    for s in ["7", "+0", "12x", " 1", "-0"] {
        assert_eq!(p(s), s.parse::<u32>().ok());
    }
}

#[test]
fn lines_and_words_follow_std() {
    for s in ["", "a", "a\n", "a\r\nb", "a\n\nb\r", "\n", "x\r\n\r\n", "one\rtwo\n"] {
        let got: Vec<String> = split_lines(&chars_of(s)).into_iter().map(|l| l.into_iter().collect()).collect();
        let want: Vec<String> = s.lines().map(String::from).collect();
        assert_eq!(got, want, "lines of {:?}", s);
    }
    for s in ["", "  a  b\tc\u{3000}d\u{85}", "x", " \n "] {
        let got: Vec<String> = split_words(&chars_of(s)).into_iter().map(|l| l.into_iter().collect()).collect();
        let want: Vec<String> = s.split_whitespace().map(String::from).collect();
        assert_eq!(got, want, "words of {:?}", s);
    }
    for s in ["  x y \u{2028}", "", "\t\n", "abc"] {
        assert_eq!(trim_str(s), s.trim());
    }
}

#[test]
fn joined_lines_split_back() {
    let parts = vec!["first line".to_string(), "a\tb".to_string(), "x".to_string()];
    let text = join_strings(&parts, "\n");
    assert_eq!(text, "first line\na\tb\nx");
    let back: Vec<String> = split_lines(&chars_of(&text))
        .into_iter()
        .map(|l| l.into_iter().collect())
        .collect();
    assert_eq!(back, parts);
}

#[test]
fn contains_follows_std() {
    for (h, n) in [("console", "sol"), ("rdp-tcp", "rdp"), ("abc", ""), ("", "a"), ("aab", "ab"), ("ab", "abc")] {
        assert_eq!(contains_chars(&chars_of(h), &chars_of(n)), h.contains(n));
    }
}

#[test]
fn json_members_by_name() {
    let doc = JsonValue::Object(vec![
        ("Name".to_string(), JsonValue::Text("x".to_string())),
        ("Other".to_string(), JsonValue::Null),
    ]);
    assert_eq!(field_text(&doc, "Name").as_deref(), Some("x"));
    assert_eq!(field_text(&doc, "Other"), None);
    assert_eq!(field_text(&doc, "Missing"), None);
    assert!(doc.get("Other").is_some());
    assert!(JsonValue::Null.get("Name").is_none());
}

//! Windows Event Log entries, queried through PowerShell (JSON).

use vstd::prelude::*;

use crate::json::{as_list, as_text, as_u64, field, field_text, field_u64, json_document, parse_json, JsonValue, JsonView};
use crate::models::{EventInfo, EventView};
use crate::text::{
    ascii_lower, decimal, is_ascii_text, join, join_strings, lemma_lower_ignores_ascii_case, lower_text, push_decimal, to_lowercase, trim, trim_str};

verus! {

/// The event query up to the age limit in minutes.
pub const EVENTS_QUERY_START: &'static str = r#"
$ErrorActionPreference = 'SilentlyContinue'
$startTime = (Get-Date).AddMinutes(-"#;

/// The event query from the age limit to the level filter.
pub const EVENTS_QUERY_LEVEL: &'static str = r#")
$logs = @('System', 'Application')
$events = @()

foreach ($log in $logs) {
    $logEvents = Get-WinEvent -FilterHashtable @{
        LogName = $log
        Level = "#;

/// The event query from the level filter to the per-log event limit.
pub const EVENTS_QUERY_MAX: &'static str = r#"
        StartTime = $startTime
    } -MaxEvents "#;

/// The event query from the per-log limit to the overall event limit.
pub const EVENTS_QUERY_FIRST: &'static str = r#" 2>$null

    if ($logEvents) {
        $events += $logEvents
    }
}

$events | Sort-Object TimeCreated -Descending | Select-Object -First "#;

/// The end of the event query.
pub const EVENTS_QUERY_END: &'static str = r#" | ForEach-Object {
    $level = switch ($_.Level) {
        1 { "Critical" }
        2 { "Error" }
        3 { "Warning" }
        4 { "Information" }
        default { "Unknown" }
    }
    [PSCustomObject]@{
        LogName = $_.LogName
        Source = $_.ProviderName
        EventId = $_.Id
        Level = $level
        Message = ($_.Message -replace "`r`n", " " -replace "`n", " " | Select-Object -First 500)
        TimeCreated = $_.TimeCreated.ToString("o")
        Computer = $_.MachineName
    }
} | ConvertTo-Json -Compress
"#;

/// The event level number for a severity name given in lower case:
/// critical 1, error 2, warning 3, information (or info) 4.
pub open spec fn severity_level(lowered: Seq<char>) -> Option<Seq<char>> {
    if lowered == "critical"@ {
        Some("1"@)
    } else if lowered == "error"@ {
        Some("2"@)
    } else if lowered == "warning"@ {
        Some("3"@)
    } else if lowered == "information"@ || lowered == "info"@ {
        Some("4"@)
    } else {
        None
    }
}

/// The levels of the known severity names, in order (case-insensitively, by
/// `to_lowercase`); unknown names are skipped.
pub open spec fn severity_levels(severity: Seq<Seq<char>>) -> Seq<Seq<char>>
    decreases severity.len(),
{
    if severity.len() == 0 {
        seq![]
    } else {
        severity_levels(severity.drop_last()) + match severity_level(lower_text(severity.last())) {
            Some(l) => seq![l],
            None => seq![],
        }
    }
}

/// The comma-separated level filter; critical, error and warning when no
/// severity name is known.
pub open spec fn level_filter(severity: Seq<Seq<char>>) -> Seq<char> {
    let levels = severity_levels(severity);
    if levels.len() == 0 {
        join(seq!["1"@, "2"@, "3"@], ","@)
    } else {
        join(levels, ","@)
    }
}

/// The PowerShell query for events at most `max_age` minutes old, of the
/// given severities, at most `max_count` of them.
pub open spec fn events_query(max_age: u64, max_count: u64, severity: Seq<Seq<char>>) -> Seq<char> {
    EVENTS_QUERY_START@ + decimal(max_age as nat) + EVENTS_QUERY_LEVEL@ + level_filter(severity)
        + EVENTS_QUERY_MAX@ + decimal(max_count as nat) + EVENTS_QUERY_FIRST@ + decimal(
        max_count as nat,
    ) + EVENTS_QUERY_END@
}

/// Builds the level filter from severity names.
pub fn build_level_filter(severity: &[String]) -> (r: String)
    ensures
        r@ == level_filter(severity@.map_values(|s: String| s@)),
{
    let ghost all = severity@.map_values(|s: String| s@);
    let mut levels: Vec<String> = Vec::new();
    let critical = String::from_str("critical");
    let error = String::from_str("error");
    let warning = String::from_str("warning");
    let information = String::from_str("information");
    let info = String::from_str("info");
    let mut i: usize = 0;
    assert(all.take(0) =~= Seq::<Seq<char>>::empty());
    assert(levels@.map_values(|s: String| s@) =~= Seq::<Seq<char>>::empty());
    while i < severity.len()
        invariant
            i <= severity@.len(),
            all == severity@.map_values(|s: String| s@),
            critical@ == "critical"@,
            error@ == "error"@,
            warning@ == "warning"@,
            information@ == "information"@,
            info@ == "info"@,
            levels@.map_values(|s: String| s@) == severity_levels(all.take(i as int)),
        decreases severity@.len() - i,
    {
        let ghost before = levels@.map_values(|s: String| s@);
        let ghost t = all.take(i + 1);
        assert(t.drop_last() =~= all.take(i as int));
        assert(t.last() == severity@[i as int]@);
        let lowered = to_lowercase(severity[i].as_str());
        let level: Option<String> = if lowered == critical {
            Some(String::from_str("1"))
        } else if lowered == error {
            Some(String::from_str("2"))
        } else if lowered == warning {
            Some(String::from_str("3"))
        } else if lowered == information || lowered == info {
            Some(String::from_str("4"))
        } else {
            None
        };
        match level {
            Some(l) => {
                let ghost lv = l@;
                levels.push(l);
                assert(levels@.map_values(|s: String| s@) =~= before + seq![lv]);
            },
            None => {
                assert(levels@.map_values(|s: String| s@) =~= before + Seq::<Seq<char>>::empty());
            },
        }
        i = i + 1;
    }
    assert(all.take(i as int) =~= all);
    if levels.len() == 0 {
        let defaults: Vec<String> = vec![String::from_str("1"), String::from_str("2"), String::from_str("3")];
        assert(defaults@.map_values(|s: String| s@) =~= seq!["1"@, "2"@, "3"@]);
        join_strings(defaults.as_slice(), ",")
    } else {
        join_strings(levels.as_slice(), ",")
    }
}

/// Builds the PowerShell event query (see [`events_query`]).
pub fn events_script(max_age: u64, max_count: u64, severity: &[String]) -> (r: String)
    ensures
        r@ == events_query(max_age, max_count, severity@.map_values(|s: String| s@)),
{
    let filter = build_level_filter(severity);
    let mut q = String::from_str(EVENTS_QUERY_START);
    push_decimal(&mut q, max_age);
    q.append(EVENTS_QUERY_LEVEL);
    q.append(filter.as_str());
    q.append(EVENTS_QUERY_MAX);
    push_decimal(&mut q, max_count);
    q.append(EVENTS_QUERY_FIRST);
    push_decimal(&mut q, max_count);
    q.append(EVENTS_QUERY_END);
    q
}

/// The event a JSON object describes: it needs string `LogName`, `Source`,
/// `Level` and `TimeCreated` members and an integer `EventId` (truncated to
/// 32 bits); the message defaults to empty.
pub open spec fn event_from_json(v: JsonView) -> Option<EventView> {
    match (
        as_text(field(v, "LogName"@)),
        as_text(field(v, "Source"@)),
        as_u64(field(v, "EventId"@)),
        as_text(field(v, "Level"@)),
        as_text(field(v, "TimeCreated"@)),
    ) {
        (Some(log_name), Some(source), Some(id), Some(level), Some(time_created)) => Some(
            EventView {
                log_name,
                source,
                event_id: id as u32,
                level,
                message: match as_text(field(v, "Message"@)) {
                    Some(m) => m,
                    None => Seq::empty(),
                },
                time_created,
                computer: as_text(field(v, "Computer"@)),
            },
        ),
        _ => None,
    }
}

/// The events described by a list of JSON values, skipping the others.
pub open spec fn events_from_list(items: Seq<JsonView>) -> Seq<EventView>
    decreases items.len(),
{
    if items.len() == 0 {
        seq![]
    } else {
        events_from_list(items.drop_last()) + match event_from_json(items.last()) {
            Some(e) => seq![e],
            None => seq![],
        }
    }
}

/// The events in the query output: none for blank or malformed text; else
/// those of the document (an array, or a single object).
pub open spec fn events_from_text(text: Seq<char>) -> Seq<EventView> {
    let t = trim(text);
    if t.len() == 0 {
        seq![]
    } else {
        match json_document(t) {
            Ok(doc) => events_from_list(as_list(doc)),
            Err(_) => seq![],
        }
    }
}

/// The models of a list of events.
pub open spec fn event_views(v: Seq<EventInfo>) -> Seq<EventView> {
    v.map_values(|e: EventInfo| e@)
}

/// Reads one JSON event object.
pub fn parse_event(v: &JsonValue) -> (r: Option<EventInfo>)
    ensures
        match r {
            Some(e) => event_from_json(v@) == Some(e@),
            None => event_from_json(v@) is None,
        },
{
    let log_name = match field_text(v, "LogName") {
        Some(s) => s,
        None => return None,
    };
    let source = match field_text(v, "Source") {
        Some(s) => s,
        None => return None,
    };
    let event_id = match field_u64(v, "EventId") {
        Some(n) => n as u32,
        None => return None,
    };
    let level = match field_text(v, "Level") {
        Some(s) => s,
        None => return None,
    };
    let time_created = match field_text(v, "TimeCreated") {
        Some(s) => s,
        None => return None,
    };
    let message = match field_text(v, "Message") {
        Some(s) => s,
        None => String::new(),
    };
    Some(
        EventInfo {
            log_name,
            source,
            event_id,
            level,
            message,
            time_created,
            computer: field_text(v, "Computer"),
        },
    )
}

/// Reads the events of a list of JSON values.
fn events_of_items(items: &[JsonValue]) -> (r: Vec<EventInfo>)
    ensures
        event_views(r@) == events_from_list(items@.map_values(|x: JsonValue| x@)),
{
    let ghost all = items@.map_values(|x: JsonValue| x@);
    let mut out: Vec<EventInfo> = Vec::new();
    let mut i: usize = 0;
    assert(all.take(0) =~= Seq::<JsonView>::empty());
    assert(event_views(out@) =~= Seq::<EventView>::empty());
    while i < items.len()
        invariant
            i <= items@.len(),
            all == items@.map_values(|x: JsonValue| x@),
            event_views(out@) == events_from_list(all.take(i as int)),
        decreases items@.len() - i,
    {
        let ghost before = event_views(out@);
        proof {
            let t = all.take(i + 1);
            assert(t.drop_last() =~= all.take(i as int));
            assert(t.last() == items@[i as int]@);
        }
        match parse_event(&items[i]) {
            Some(e) => {
                out.push(e);
                assert(event_views(out@) =~= before + seq![e@]);
            },
            None => {
                assert(event_views(out@) =~= before + Seq::<EventView>::empty());
            },
        }
        i = i + 1;
    }
    assert(all.take(i as int) =~= all);
    out
}

/// Parses the JSON that the PowerShell event query prints.
pub fn parse_events_json(json_str: &str) -> (r: Vec<EventInfo>)
    ensures
        event_views(r@) == events_from_text(json_str@),
{
    let trimmed = trim_str(json_str);
    if trimmed.as_str().is_empty() {
        let v: Vec<EventInfo> = Vec::new();
        assert(event_views(v@) =~= Seq::<EventView>::empty());
        return v;
    }
    match parse_json(trimmed.as_str()) {
        Ok(doc) => match doc {
            JsonValue::Array(items) => {
                let r = events_of_items(items.as_slice());
                assert(items@.map_values(|x: JsonValue| x@) =~= as_list(doc@));
                r
            },
            _ => {
                let ghost one = seq![doc@];
                assert(as_list(doc@) == one);
                assert(one.drop_last() =~= Seq::<JsonView>::empty());
                assert(one.last() == doc@);
                let mut out: Vec<EventInfo> = Vec::new();
                match parse_event(&doc) {
                    Some(e) => {
                        out.push(e);
                        assert(event_views(out@) =~= seq![e@]);
                    },
                    None => {
                        assert(event_views(out@) =~= Seq::<EventView>::empty());
                    },
                }
                assert(events_from_list(one.drop_last()) =~= Seq::<EventView>::empty());
                assert(event_views(out@) =~= events_from_list(one));
                out
            },
        },
        Err(_) => {
            let v: Vec<EventInfo> = Vec::new();
            assert(event_views(v@) =~= Seq::<EventView>::empty());
            v
        },
    }
}

/// The events to report, given how running the query went: its standard
/// output, or the message of its failure (which gives no events).
pub fn collect(run: Result<String, String>) -> (r: Vec<EventInfo>)
    ensures
        event_views(r@) == match run {
            Ok(out) => events_from_text(out@),
            Err(_) => Seq::<EventView>::empty(),
        },
{
    match run {
        Ok(out) => parse_events_json(out.as_str()),
        Err(_) => {
            let v: Vec<EventInfo> = Vec::new();
            assert(event_views(v@) =~= Seq::<EventView>::empty());
            v
        },
    }
}

/// Severity names are matched regardless of the case of ASCII letters: two
/// ASCII names that differ only in case select the same level (`ERROR`,
/// `Error` and `error` all select level 2).
pub proof fn lemma_severity_ignores_ascii_case(a: Seq<char>, b: Seq<char>)
    requires
        is_ascii_text(a),
        is_ascii_text(b),
        ascii_lower(a) == ascii_lower(b),
    ensures
        severity_level(lower_text(a)) == severity_level(lower_text(b)),
        severity_levels(seq![a]) == severity_levels(seq![b]),
{
    lemma_lower_ignores_ascii_case(a, b);
    assert(seq![a].drop_last() =~= Seq::<Seq<char>>::empty());
    assert(seq![b].drop_last() =~= Seq::<Seq<char>>::empty());
}

/// Each field of a parsed event is the JSON member of the same name. An event
/// is read exactly when `LogName`, `Source`, `Level` and `TimeCreated` are
/// strings and `EventId` is an integer; then its log name, source, level and
/// creation time are those strings, its id is `EventId` (truncated to 32
/// bits), its message is the `Message` string or empty, and its computer is
/// the `Computer` string when there is one.
pub proof fn lemma_event_fields(v: JsonView)
    ensures
        event_from_json(v) is Some <==> {
            &&& as_text(field(v, "LogName"@)) is Some
            &&& as_text(field(v, "Source"@)) is Some
            &&& as_u64(field(v, "EventId"@)) is Some
            &&& as_text(field(v, "Level"@)) is Some
            &&& as_text(field(v, "TimeCreated"@)) is Some
        },
        event_from_json(v) matches Some(e) ==> {
            &&& Some(e.log_name) == as_text(field(v, "LogName"@))
            &&& Some(e.source) == as_text(field(v, "Source"@))
            &&& Some(e.level) == as_text(field(v, "Level"@))
            &&& Some(e.time_created) == as_text(field(v, "TimeCreated"@))
            &&& e.event_id == as_u64(field(v, "EventId"@))->0 as u32
            &&& (as_text(field(v, "Message"@)) matches Some(m) ==> e.message == m)
            &&& (as_text(field(v, "Message"@)) is None ==> e.message.len() == 0)
            &&& e.computer == as_text(field(v, "Computer"@))
        },
{
}

/// A list whose every item describes an event gives one event per item, in
/// the order of the list.
pub proof fn lemma_events_in_order(items: Seq<JsonView>)
    requires
        forall|i: int| 0 <= i < items.len() ==> event_from_json(#[trigger] items[i]) is Some,
    ensures
        events_from_list(items).len() == items.len(),
        forall|i: int|
            0 <= i < items.len() ==> Some(#[trigger] events_from_list(items)[i]) == event_from_json(items[i]),
    decreases items.len(),
{
    if items.len() > 0 {
        let init = items.drop_last();
        assert forall|i: int| 0 <= i < init.len() implies event_from_json(#[trigger] init[i]) is Some by {
            assert(init[i] == items[i]);
        }
        lemma_events_in_order(init);
        assert(event_from_json(items[items.len() - 1]) is Some);
        let out = events_from_list(items);
        assert forall|i: int| 0 <= i < items.len() implies Some(#[trigger] out[i]) == event_from_json(
            items[i],
        ) by {
            if i < init.len() {
                assert(out[i] == events_from_list(init)[i]);
                assert(init[i] == items[i]);
            }
        }
    }
}

} // verus!

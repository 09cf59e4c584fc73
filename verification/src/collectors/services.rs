//! Windows services, queried through PowerShell and CIM (JSON).

use vstd::prelude::*;

use crate::json::{as_text, as_u64, field, field_text, json_document, parse_json, JsonValue, JsonView};
use crate::models::{ServiceInfo, ServiceView};
use crate::text::{chars_of, join, join_strings};

verus! {

/// What `char::is_alphanumeric` returns for a character (Unicode `Alphabetic`
/// or `Numeric`).
pub uninterp spec fn alphanumeric(c: char) -> bool;

/// An ASCII letter or digit.
pub open spec fn ascii_alphanumeric(c: char) -> bool {
    let u = c as u32;
    ||| 48 <= u <= 57
    ||| 65 <= u <= 90
    ||| 97 <= u <= 122
}

/// Whether `char::is_alphanumeric` holds: for ASCII, exactly the letters and
/// digits; beyond ASCII, the Unicode tables (named).
pub open spec fn is_alphanumeric_char(c: char) -> bool {
    if (c as u32) < 128 {
        ascii_alphanumeric(c)
    } else {
        alphanumeric(c)
    }
}

/// Calls `char::is_alphanumeric`. For an ASCII character the result is the
/// documented one: true exactly for the letters `A`-`Z`, `a`-`z` and the
/// digits `0`-`9` (the only ASCII characters that are `Alphabetic` or
/// `Numeric`). Beyond ASCII the Unicode tables are not written out: the
/// contract names the result, which depends on the character alone.
#[verifier::external_body]
pub(crate) fn is_alphanumeric(c: char) -> (r: bool)
    ensures
        r == (if (c as u32) < 128 {
            ascii_alphanumeric(c)
        } else {
            alphanumeric(c)
        }),
{
    c.is_alphanumeric()
}

/// A character allowed in a service name: alphanumeric, `-`, `_` or `.`.
pub open spec fn service_name_char(c: char) -> bool {
    is_alphanumeric_char(c) || c == '-' || c == '_' || c == '.'
}

/// A name that may be placed in a service query: between 1 and 256 bytes of
/// UTF-8, made only of allowed characters.
pub open spec fn acceptable_service_name(name: Seq<char>) -> bool {
    &&& name.len() > 0
    &&& vstd::utf8::encode_utf8(name).len() <= 256
    &&& forall|i: int| 0 <= i < name.len() ==> service_name_char(#[trigger] name[i])
}

/// Checks a service name before it is placed in a query, to prevent command
/// injection: the name itself when acceptable, `None` otherwise.
pub fn sanitize_service_name(name: &str) -> (r: Option<String>)
    ensures
        match r {
            Some(s) => acceptable_service_name(name@) && s@ == name@,
            None => !acceptable_service_name(name@),
        },
{
    if name.is_empty() || name.as_bytes().len() > 256 {
        return None;
    }
    let cs = chars_of(name);
    let mut i: usize = 0;
    while i < cs.len()
        invariant
            i <= cs@.len(),
            cs@ == name@,
            forall|j: int| 0 <= j < i ==> service_name_char(#[trigger] cs@[j]),
        decreases cs@.len() - i,
    {
        let c = cs[i];
        if !(is_alphanumeric(c) || c == '-' || c == '_' || c == '.') {
            assert(!service_name_char(name@[i as int]));
            return None;
        }
        i = i + 1;
    }
    Some(name.to_owned())
}

/// The acceptable names of a watchlist, in order.
pub open spec fn sanitized_names(names: Seq<Seq<char>>) -> Seq<Seq<char>>
    decreases names.len(),
{
    if names.len() == 0 {
        seq![]
    } else {
        sanitized_names(names.drop_last()) + if acceptable_service_name(names.last()) {
            seq![names.last()]
        } else {
            seq![]
        }
    }
}

/// A name between single quotes.
pub open spec fn quoted(n: Seq<char>) -> Seq<char> {
    "'"@ + n + "'"@
}

/// The start of every service query.
pub const QUERY_HEAD: &'static str = "Get-CimInstance -ClassName Win32_Service";

/// The rest of every service query, after the optional filter.
pub const QUERY_TAIL: &'static str = r#" | Select-Object Name, DisplayName, State, StartMode, ProcessId | ForEach-Object {
    [PSCustomObject]@{
        Name = $_.Name
        DisplayName = $_.DisplayName
        Status = $_.State
        StartType = $_.StartMode
        Pid = if ($_.ProcessId -and $_.ProcessId -gt 0) { $_.ProcessId } else { $null }
    }
} | ConvertTo-Json -Compress"#;

/// The PowerShell query for a watchlist: every service for an empty list;
/// otherwise the acceptable names, quoted and comma-separated, in a
/// `Name IN (...)` filter; `None` when no name of a non-empty list is acceptable.
pub open spec fn services_query(watchlist: Seq<Seq<char>>) -> Option<Seq<char>> {
    if watchlist.len() == 0 {
        Some(QUERY_HEAD@ + QUERY_TAIL@)
    } else {
        let names = sanitized_names(watchlist);
        if names.len() == 0 {
            None
        } else {
            Some(
                QUERY_HEAD@ + " -Filter \"Name IN ("@ + join(names.map_values(|n| quoted(n)), ","@)
                    + ")\""@ + QUERY_TAIL@,
            )
        }
    }
}

/// Builds the PowerShell query for a watchlist (see [`services_query`]).
pub fn services_script(watchlist: &[String]) -> (r: Option<String>)
    ensures
        opt_text(r) == services_query(watchlist@.map_values(|s: String| s@)),
{
    let ghost all = watchlist@.map_values(|s: String| s@);
    if watchlist.len() == 0 {
        let mut q = String::from_str(QUERY_HEAD);
        q.append(QUERY_TAIL);
        return Some(q);
    }
    let mut quoted_names: Vec<String> = Vec::new();
    let mut i: usize = 0;
    assert(all.take(0) =~= Seq::<Seq<char>>::empty());
    assert(quoted_names@.map_values(|s: String| s@) =~= Seq::<Seq<char>>::empty());
    while i < watchlist.len()
        invariant
            i <= watchlist@.len(),
            all == watchlist@.map_values(|s: String| s@),
            quoted_names@.map_values(|s: String| s@) == sanitized_names(all.take(i as int)).map_values(
                |n| quoted(n),
            ),
        decreases watchlist@.len() - i,
    {
        let ghost before = sanitized_names(all.take(i as int));
        let ghost t = all.take(i + 1);
        assert(t.drop_last() =~= all.take(i as int));
        assert(t.last() == watchlist@[i as int]@);
        match sanitize_service_name(watchlist[i].as_str()) {
            Some(n) => {
                let mut q = String::from_str("'");
                q.append(n.as_str());
                q.append("'");
                assert(q@ == quoted(watchlist@[i as int]@));
                let ghost old_q = quoted_names@.map_values(|s: String| s@);
                quoted_names.push(q);
                assert(quoted_names@.map_values(|s: String| s@) =~= old_q.push(
                    quoted(watchlist@[i as int]@),
                ));
                assert(before.push(watchlist@[i as int]@).map_values(|n| quoted(n)) =~= before.map_values(
                    |n| quoted(n),
                ).push(quoted(watchlist@[i as int]@)));
                assert(sanitized_names(t) =~= before.push(watchlist@[i as int]@));
                assert(quoted_names@.map_values(|s: String| s@) =~= sanitized_names(t).map_values(
                    |n| quoted(n),
                ));
            },
            None => {
                assert(sanitized_names(t) =~= before);
            },
        }
        i = i + 1;
    }
    assert(all.take(i as int) =~= all);
    if quoted_names.len() == 0 {
        return None;
    }
    let names = join_strings(quoted_names.as_slice(), ",");
    let mut q = String::from_str(QUERY_HEAD);
    q.append(" -Filter \"Name IN (");
    q.append(names.as_str());
    q.append(")\"");
    q.append(QUERY_TAIL);
    Some(q)
}

/// The model of an optional string.
pub open spec fn opt_text(r: Option<String>) -> Option<Seq<char>> {
    match r {
        Some(s) => Some(s@),
        None => None,
    }
}

/// The service a JSON object describes: it needs string `Name` and
/// `DisplayName` members; `Status` and `StartType` default to "Unknown"; the
/// process id is `Pid` read as an integer and truncated to 32 bits.
pub open spec fn service_from_json(v: JsonView) -> Option<ServiceView> {
    match (as_text(field(v, "Name"@)), as_text(field(v, "DisplayName"@))) {
        (Some(name), Some(display_name)) => Some(
            ServiceView {
                name,
                display_name,
                status: match as_text(field(v, "Status"@)) {
                    Some(s) => s,
                    None => "Unknown"@,
                },
                start_type: match as_text(field(v, "StartType"@)) {
                    Some(s) => s,
                    None => "Unknown"@,
                },
                pid: match as_u64(field(v, "Pid"@)) {
                    Some(p) => Some(p as u32),
                    None => None,
                },
            },
        ),
        _ => None,
    }
}

/// A service is reported when stopped services are included, or when it runs.
pub open spec fn service_reported(s: ServiceView, include_stopped: bool) -> bool {
    include_stopped || s.status == "Running"@
}

/// The reported services among a list of JSON values, in order.
pub open spec fn services_from_list(items: Seq<JsonView>, include_stopped: bool) -> Seq<ServiceView>
    decreases items.len(),
{
    if items.len() == 0 {
        seq![]
    } else {
        services_from_list(items.drop_last(), include_stopped) + match service_from_json(
            items.last(),
        ) {
            Some(s) => if service_reported(s, include_stopped) {
                seq![s]
            } else {
                seq![]
            },
            None => seq![],
        }
    }
}

/// The services that the query output reports: none when the query did not
/// run or the text is not JSON; for an array, each element; for an object,
/// that object; for any other document, none.
pub open spec fn services_from_output(output: Option<Seq<char>>, include_stopped: bool) -> Seq<
    ServiceView,
> {
    match output {
        None => seq![],
        Some(text) => match json_document(text) {
            Err(_) => seq![],
            Ok(JsonView::Array(items)) => services_from_list(items, include_stopped),
            Ok(JsonView::Object(m)) => services_from_list(seq![JsonView::Object(m)], include_stopped),
            Ok(_) => seq![],
        },
    }
}

/// The models of a list of services.
pub open spec fn service_views(v: Seq<ServiceInfo>) -> Seq<ServiceView> {
    v.map_values(|s: ServiceInfo| s@)
}

/// Reads one JSON service object.
pub fn parse_service(v: &JsonValue) -> (r: Option<ServiceInfo>)
    ensures
        match r {
            Some(s) => service_from_json(v@) == Some(s@),
            None => service_from_json(v@) is None,
        },
{
    let name = match field_text(v, "Name") {
        Some(n) => n,
        None => return None,
    };
    let display_name = match field_text(v, "DisplayName") {
        Some(n) => n,
        None => return None,
    };
    let status = match field_text(v, "Status") {
        Some(s) => s,
        None => String::from_str("Unknown"),
    };
    let start_type = match field_text(v, "StartType") {
        Some(s) => s,
        None => String::from_str("Unknown"),
    };
    let pid = match crate::json::field_u64(v, "Pid") {
        Some(p) => Some(p as u32),
        None => None,
    };
    Some(ServiceInfo { name, display_name, status, start_type, pid })
}

fn is_reported(s: &ServiceInfo, include_stopped: bool) -> (r: bool)
    ensures
        r == service_reported(s@, include_stopped),
{
    let running = String::from_str("Running");
    include_stopped || s.status == running
}

/// Reads the reported services of a list of JSON values.
fn services_of_items(items: &[JsonValue], include_stopped: bool) -> (r: Vec<ServiceInfo>)
    ensures
        service_views(r@) == services_from_list(
            items@.map_values(|x: JsonValue| x@),
            include_stopped,
        ),
{
    let ghost all = items@.map_values(|x: JsonValue| x@);
    let mut out: Vec<ServiceInfo> = Vec::new();
    let mut i: usize = 0;
    assert(all.take(0) =~= Seq::<JsonView>::empty());
    assert(service_views(out@) =~= Seq::<ServiceView>::empty());
    while i < items.len()
        invariant
            i <= items@.len(),
            all == items@.map_values(|x: JsonValue| x@),
            service_views(out@) == services_from_list(all.take(i as int), include_stopped),
        decreases items@.len() - i,
    {
        let ghost before = service_views(out@);
        proof {
            let t = all.take(i + 1);
            assert(t.drop_last() =~= all.take(i as int));
            assert(t.last() == items@[i as int]@);
        }
        match parse_service(&items[i]) {
            Some(s) => {
                if is_reported(&s, include_stopped) {
                    out.push(s);
                    assert(service_views(out@) =~= before + seq![s@]);
                } else {
                    assert(service_views(out@) =~= before + Seq::<ServiceView>::empty());
                }
            },
            None => {
                assert(service_views(out@) =~= before + Seq::<ServiceView>::empty());
            },
        }
        i = i + 1;
    }
    assert(all.take(i as int) =~= all);
    out
}

/// Collects Windows services status with PowerShell.
pub struct ServiceCollector;

impl ServiceCollector {
    /// Creates a new service collector.
    pub fn new() -> (r: Self) {
        ServiceCollector
    }

    /// The services reported by the query's output: `None` when PowerShell
    /// could not run or exited unsuccessfully, else its standard output.
    /// Only running services are kept unless `include_stopped` is set.
    pub fn collect(&self, output: Option<String>, include_stopped: bool) -> (r: Vec<ServiceInfo>)
        ensures
            service_views(r@) == services_from_output(opt_text(output), include_stopped),
    {
        let text = match output {
            Some(t) => t,
            None => {
                let v: Vec<ServiceInfo> = Vec::new();
                assert(service_views(v@) =~= Seq::<ServiceView>::empty());
                return v;
            },
        };
        match parse_json(text.as_str()) {
            Ok(doc) => match doc {
                JsonValue::Array(items) => {
                    let r = services_of_items(items.as_slice(), include_stopped);
                    assert(items@.map_values(|x: JsonValue| x@) =~= match doc@ {
                        JsonView::Array(a) => a,
                        _ => Seq::empty(),
                    });
                    r
                },
                JsonValue::Object(_) => {
                    let ghost one = seq![doc@];
                    assert(one.drop_last() =~= Seq::<JsonView>::empty());
                    assert(one.last() == doc@);
                    let mut out: Vec<ServiceInfo> = Vec::new();
                    match parse_service(&doc) {
                        Some(s) => {
                            if is_reported(&s, include_stopped) {
                                out.push(s);
                                assert(service_views(out@) =~= seq![s@]);
                            } else {
                                assert(service_views(out@) =~= Seq::<ServiceView>::empty());
                            }
                        },
                        None => {
                            assert(service_views(out@) =~= Seq::<ServiceView>::empty());
                        },
                    }
                    assert(services_from_list(one.drop_last(), include_stopped) =~= Seq::<
                        ServiceView,
                    >::empty());
                    assert(service_views(out@) =~= services_from_list(one, include_stopped));
                    out
                },
                _ => {
                    let v: Vec<ServiceInfo> = Vec::new();
                    assert(service_views(v@) =~= Seq::<ServiceView>::empty());
                    v
                },
            },
            Err(_) => {
                let v: Vec<ServiceInfo> = Vec::new();
                assert(service_views(v@) =~= Seq::<ServiceView>::empty());
                v
            },
        }
    }
}

/// Every name that the service query filters on passed the name check, and
/// it comes from the watchlist.
pub proof fn lemma_query_names_are_checked(watchlist: Seq<Seq<char>>)
    ensures
        forall|i: int|
            0 <= i < sanitized_names(watchlist).len() ==> acceptable_service_name(
                #[trigger] sanitized_names(watchlist)[i],
            ) && watchlist.contains(sanitized_names(watchlist)[i]),
    decreases watchlist.len(),
{
    if watchlist.len() > 0 {
        let d = watchlist.drop_last();
        lemma_query_names_are_checked(d);
        let prev = sanitized_names(d);
        assert forall|i: int|
            0 <= i < sanitized_names(watchlist).len() implies acceptable_service_name(
                #[trigger] sanitized_names(watchlist)[i],
            ) && watchlist.contains(sanitized_names(watchlist)[i]) by {
            if i < prev.len() {
                assert(sanitized_names(watchlist)[i] == prev[i]);
                let j = choose|j: int| 0 <= j < d.len() && d[j] == prev[i];
                assert(watchlist[j] == d[j]);
            } else {
                assert(sanitized_names(watchlist)[i] == watchlist.last());
                assert(watchlist[watchlist.len() - 1] == watchlist.last());
            }
        }
    }
}

/// An accepted service name cannot break out of its quotes or add a
/// command: its ASCII characters are letters, digits, `-`, `_` and `.` only,
/// so it holds no quote, semicolon, space, dollar sign, backtick, pipe or
/// parenthesis.
pub proof fn lemma_accepted_names_are_plain(name: Seq<char>)
    requires
        acceptable_service_name(name),
    ensures
        forall|i: int|
            0 <= i < name.len() && (#[trigger] name[i] as u32) < 128 ==> ascii_alphanumeric(name[i])
                || name[i] == '-' || name[i] == '_' || name[i] == '.',
        forall|i: int|
            0 <= i < name.len() ==> {
                let c = #[trigger] name[i];
                &&& c != '\''
                &&& c != '"'
                &&& c != ';'
                &&& c != ' '
                &&& c != '$'
                &&& c != '`'
                &&& c != '|'
                &&& c != '('
                &&& c != ')'
            },
{
    assert forall|i: int| 0 <= i < name.len() implies {
        let c = #[trigger] name[i];
        &&& c != '\''
        &&& c != '"'
        &&& c != ';'
        &&& c != ' '
        &&& c != '$'
        &&& c != '`'
        &&& c != '|'
        &&& c != '('
        &&& c != ')'
    } by {
        assert(service_name_char(name[i]));
    }
}

/// Each field of a parsed service is the JSON member of the same name. A
/// service is read exactly when `Name` and `DisplayName` are strings; its
/// status and start type are the `Status` and `StartType` strings, or
/// "Unknown" when the member is missing or not a string; its process id is
/// the integer `Pid` (truncated to 32 bits), or none.
pub proof fn lemma_service_fields(v: JsonView)
    ensures
        service_from_json(v) is Some <==> (as_text(field(v, "Name"@)) is Some && as_text(
            field(v, "DisplayName"@),
        ) is Some),
        service_from_json(v) matches Some(s) ==> {
            &&& Some(s.name) == as_text(field(v, "Name"@))
            &&& Some(s.display_name) == as_text(field(v, "DisplayName"@))
            &&& (as_text(field(v, "Status"@)) matches Some(t) ==> s.status == t)
            &&& (as_text(field(v, "Status"@)) is None ==> s.status == "Unknown"@)
            &&& (as_text(field(v, "StartType"@)) matches Some(t) ==> s.start_type == t)
            &&& (as_text(field(v, "StartType"@)) is None ==> s.start_type == "Unknown"@)
            &&& (as_u64(field(v, "Pid"@)) matches Some(p) ==> s.pid == Some(p as u32))
            &&& (as_u64(field(v, "Pid"@)) is None ==> s.pid is None)
        },
{
}

/// A list whose every item describes a service that is reported (running,
/// or any when stopped ones are included) gives one service per item, in the
/// order of the list.
pub proof fn lemma_services_in_order(items: Seq<JsonView>, include_stopped: bool)
    requires
        forall|i: int| 0 <= i < items.len() ==> service_from_json(#[trigger] items[i]) is Some && service_reported(service_from_json(items[i])->0, include_stopped),
    ensures
        services_from_list(items, include_stopped).len() == items.len(),
        forall|i: int|
            0 <= i < items.len() ==> Some(#[trigger] services_from_list(items, include_stopped)[i]) == service_from_json(items[i]),
    decreases items.len(),
{
    if items.len() > 0 {
        let init = items.drop_last();
        assert forall|i: int| 0 <= i < init.len() implies service_from_json(#[trigger] init[i]) is Some && service_reported(service_from_json(init[i])->0, include_stopped) by {
            assert(init[i] == items[i]);
        }
        lemma_services_in_order(init, include_stopped);
        assert(service_from_json(items[items.len() - 1]) is Some && service_reported(service_from_json(items[items.len() - 1])->0, include_stopped));
        let out = services_from_list(items, include_stopped);
        assert forall|i: int| 0 <= i < items.len() implies Some(#[trigger] out[i]) == service_from_json(
            items[i],
        ) by {
            if i < init.len() {
                assert(out[i] == services_from_list(init, include_stopped)[i]);
                assert(init[i] == items[i]);
            }
        }
    }
}

} // verus!

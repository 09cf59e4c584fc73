//! Windows Update status, read from one batched PowerShell query (JSON).

use vstd::prelude::*;

use crate::json::{
    as_array, as_bool, as_list, as_number_text, as_text, as_u64, field, field_bool,
    field_number_text, field_text, field_u64, json_document, parse_json, JsonValue, JsonView,
};
use crate::models::{empty_update_summary, UpdateInfo, UpdateSummary, UpdateSummaryView, UpdateView};
use crate::text::{trim, trim_str};

verus! {

/// An optional flag, false when absent.
pub open spec fn flag(b: Option<bool>) -> bool {
    match b {
        Some(b) => b,
        None => false,
    }
}

/// The update a JSON object describes; it needs a string `Title`.
pub open spec fn update_from_json(v: JsonView) -> Option<UpdateView> {
    match as_text(field(v, "Title"@)) {
        None => None,
        Some(title) => Some(
            UpdateView {
                title,
                kb_id: as_text(field(v, "KbId"@)),
                description: as_text(field(v, "Description"@)),
                severity: as_text(field(v, "Severity"@)),
                is_installed: flag(as_bool(field(v, "IsInstalled"@))),
                is_mandatory: flag(as_bool(field(v, "IsMandatory"@))),
                reboot_required: flag(as_bool(field(v, "RebootRequired"@))),
                install_date: None,
                size_mb: as_number_text(field(v, "SizeMB"@)),
            },
        ),
    }
}

/// The updates described by a list of JSON values, skipping the others.
pub open spec fn updates_from_list(items: Seq<JsonView>) -> Seq<UpdateView>
    decreases items.len(),
{
    if items.len() == 0 {
        seq![]
    } else {
        updates_from_list(items.drop_last()) + match update_from_json(items.last()) {
            Some(u) => seq![u],
            None => seq![],
        }
    }
}

/// The pending updates of the summary document: those in its
/// `PendingUpdates` array, none when there is no such array.
pub open spec fn pending_from_json(doc: JsonView) -> Seq<UpdateView> {
    match as_array(field(doc, "PendingUpdates"@)) {
        Some(items) => updates_from_list(items),
        None => seq![],
    }
}

/// The summary a parsed document describes. Absent or ill-typed members give
/// `None`, `false` or `0`; the pending count is the number of pending updates
/// read (truncated to 32 bits), and the recent-install count is truncated too.
pub open spec fn summary_from_json(doc: JsonView) -> UpdateSummaryView {
    let pending = pending_from_json(doc);
    UpdateSummaryView {
        last_check: as_text(field(doc, "LastCheck"@)),
        last_install: as_text(field(doc, "LastInstall"@)),
        reboot_pending: flag(as_bool(field(doc, "RebootPending"@))),
        pending_count: pending.len() as u32,
        pending_updates: pending,
        recent_installed_count: (match as_u64(field(doc, "RecentInstalledCount"@)) {
            Some(n) => n,
            None => 0,
        }) as u32,
    }
}

/// What the summary JSON text yields: the empty summary for blank text, the
/// document's summary when it parses, and the parser's message after
/// "JSON parse error: " when it does not.
pub open spec fn summary_from_text(text: Seq<char>) -> Result<UpdateSummaryView, Seq<char>> {
    let t = trim(text);
    if t.len() == 0 {
        Ok(empty_update_summary())
    } else {
        match json_document(t) {
            Ok(doc) => Ok(summary_from_json(doc)),
            Err(e) => Err("JSON parse error: "@ + e),
        }
    }
}

/// The model of a summary result.
pub open spec fn summary_result_view(r: Result<UpdateSummary, String>) -> Result<
    UpdateSummaryView,
    Seq<char>,
> {
    match r {
        Ok(s) => Ok(s@),
        Err(e) => Err(e@),
    }
}

/// The models of a list of updates.
pub open spec fn update_views(v: Seq<UpdateInfo>) -> Seq<UpdateView> {
    v.map_values(|u: UpdateInfo| u@)
}

/// Reads one JSON update object.
pub fn parse_update(v: &JsonValue) -> (r: Option<UpdateInfo>)
    ensures
        match r {
            Some(u) => update_from_json(v@) == Some(u@),
            None => update_from_json(v@) is None,
        },
{
    let title = match field_text(v, "Title") {
        Some(t) => t,
        None => return None,
    };
    Some(
        UpdateInfo {
            title,
            kb_id: field_text(v, "KbId"),
            description: field_text(v, "Description"),
            severity: field_text(v, "Severity"),
            is_installed: match field_bool(v, "IsInstalled") {
                Some(b) => b,
                None => false,
            },
            is_mandatory: match field_bool(v, "IsMandatory") {
                Some(b) => b,
                None => false,
            },
            reboot_required: match field_bool(v, "RebootRequired") {
                Some(b) => b,
                None => false,
            },
            install_date: None,
            size_mb: field_number_text(v, "SizeMB"),
        },
    )
}

/// Reads the updates of a list of JSON values.
fn updates_of_items(items: &[JsonValue]) -> (r: Vec<UpdateInfo>)
    ensures
        update_views(r@) == updates_from_list(items@.map_values(|x: JsonValue| x@)),
{
    let ghost all = items@.map_values(|x: JsonValue| x@);
    let mut out: Vec<UpdateInfo> = Vec::new();
    let mut i: usize = 0;
    assert(all.take(0) =~= Seq::<JsonView>::empty());
    assert(update_views(out@) =~= Seq::<UpdateView>::empty());
    while i < items.len()
        invariant
            i <= items@.len(),
            all == items@.map_values(|x: JsonValue| x@),
            update_views(out@) == updates_from_list(all.take(i as int)),
        decreases items@.len() - i,
    {
        let ghost before = update_views(out@);
        proof {
            let t = all.take(i + 1);
            assert(t.drop_last() =~= all.take(i as int));
            assert(t.last() == items@[i as int]@);
        }
        match parse_update(&items[i]) {
            Some(u) => {
                out.push(u);
                assert(update_views(out@) =~= before + seq![u@]);
            },
            None => {
                assert(update_views(out@) =~= before + Seq::<UpdateView>::empty());
            },
        }
        i = i + 1;
    }
    assert(all.take(i as int) =~= all);
    out
}

/// Reads the summary of a parsed document.
pub fn summary_of_document(doc: &JsonValue) -> (r: UpdateSummary)
    ensures
        r@ == summary_from_json(doc@),
{
    let pending_updates: Vec<UpdateInfo> = match doc.get("PendingUpdates") {
        Some(x) => match x {
            JsonValue::Array(items) => {
                let r = updates_of_items(items.as_slice());
                assert(items@.map_values(|y: JsonValue| y@) =~= as_list(x@));
                r
            },
            _ => {
                let r: Vec<UpdateInfo> = Vec::new();
                assert(update_views(r@) =~= Seq::<UpdateView>::empty());
                r
            },
        },
        None => {
            let r: Vec<UpdateInfo> = Vec::new();
            assert(update_views(r@) =~= Seq::<UpdateView>::empty());
            r
        },
    };
    assert(update_views(pending_updates@) == pending_from_json(doc@));
    let recent: u32 = match field_u64(doc, "RecentInstalledCount") {
        Some(n) => n as u32,
        None => 0,
    };
    let pending_count = pending_updates.len() as u32;
    UpdateSummary {
        last_check: field_text(doc, "LastCheck"),
        last_install: field_text(doc, "LastInstall"),
        reboot_pending: match field_bool(doc, "RebootPending") {
            Some(b) => b,
            None => false,
        },
        pending_count,
        pending_updates,
        recent_installed_count: recent,
    }
}

/// Parses the combined update summary JSON from the batched PowerShell query.
pub fn parse_update_summary(json_str: &str) -> (r: Result<UpdateSummary, String>)
    ensures
        summary_result_view(r) == summary_from_text(json_str@),
{
    let trimmed = trim_str(json_str);
    if trimmed.as_str().is_empty() {
        return Ok(UpdateSummary::default());
    }
    match parse_json(trimmed.as_str()) {
        Ok(doc) => Ok(summary_of_document(&doc)),
        Err(e) => {
            let mut msg = String::from_str("JSON parse error: ");
            msg.append(e.as_str());
            Err(msg)
        },
    }
}

/// The update summary, given how running the PowerShell query went: its
/// standard output, or the message of its failure.
pub fn collect_all_update_info(run: Result<String, String>) -> (r: Result<UpdateSummary, String>)
    ensures
        summary_result_view(r) == match run {
            Ok(out) => summary_from_text(out@),
            Err(e) => Err(e@),
        },
{
    match run {
        Ok(out) => parse_update_summary(out.as_str()),
        Err(e) => Err(e),
    }
}

/// The reported update status: the parsed summary, or the empty summary when
/// the query or its parse failed.
pub fn collect(run: Result<String, String>) -> (r: UpdateSummary)
    ensures
        r@ == match run {
            Ok(out) => match summary_from_text(out@) {
                Ok(s) => s,
                Err(_) => empty_update_summary(),
            },
            Err(_) => empty_update_summary(),
        },
{
    match collect_all_update_info(run) {
        Ok(summary) => summary,
        Err(_) => UpdateSummary::default(),
    }
}

/// The pending count is the number of pending updates in the summary
/// (whenever that number fits in 32 bits).
pub proof fn lemma_pending_count(doc: JsonView)
    requires
        pending_from_json(doc).len() <= u32::MAX,
    ensures
        summary_from_json(doc).pending_count == summary_from_json(doc).pending_updates.len(),
{
}

/// Each field of an update is the JSON member of the same name. An update is
/// read exactly when `Title` is a string; its KB id, description and
/// severity are those strings when present; each flag is true exactly when
/// its member is `true`; its size is the `SizeMB` number as printed.
pub proof fn lemma_update_fields(v: JsonView)
    ensures
        update_from_json(v) is Some <==> as_text(field(v, "Title"@)) is Some,
        update_from_json(v) matches Some(u) ==> {
            &&& Some(u.title) == as_text(field(v, "Title"@))
            &&& u.kb_id == as_text(field(v, "KbId"@))
            &&& u.description == as_text(field(v, "Description"@))
            &&& u.severity == as_text(field(v, "Severity"@))
            &&& u.is_installed == (as_bool(field(v, "IsInstalled"@)) == Some(true))
            &&& u.is_mandatory == (as_bool(field(v, "IsMandatory"@)) == Some(true))
            &&& u.reboot_required == (as_bool(field(v, "RebootRequired"@)) == Some(true))
            &&& u.install_date is None
            &&& u.size_mb == as_number_text(field(v, "SizeMB"@))
        },
{
}

/// Each field of the summary is the JSON member of the same name: the last
/// check and install times are those strings when present; a reboot is
/// pending exactly when `RebootPending` is `true`; the recent-install count
/// is that integer (0 when it is not one, truncated to 32 bits).
pub proof fn lemma_summary_fields(doc: JsonView)
    ensures
        ({
            let s = summary_from_json(doc);
            &&& s.last_check == as_text(field(doc, "LastCheck"@))
            &&& s.last_install == as_text(field(doc, "LastInstall"@))
            &&& s.reboot_pending == (as_bool(field(doc, "RebootPending"@)) == Some(true))
            &&& (as_u64(field(doc, "RecentInstalledCount"@)) matches Some(n)
                ==> s.recent_installed_count == n as u32)
            &&& (as_u64(field(doc, "RecentInstalledCount"@)) is None ==> s.recent_installed_count
                == 0)
        }),
{
}

/// A list whose every item describes an update gives one update per item, in
/// the order of the list.
pub proof fn lemma_updates_in_order(items: Seq<JsonView>)
    requires
        forall|i: int| 0 <= i < items.len() ==> update_from_json(#[trigger] items[i]) is Some,
    ensures
        updates_from_list(items).len() == items.len(),
        forall|i: int|
            0 <= i < items.len() ==> Some(#[trigger] updates_from_list(items)[i]) == update_from_json(items[i]),
    decreases items.len(),
{
    if items.len() > 0 {
        let init = items.drop_last();
        assert forall|i: int| 0 <= i < init.len() implies update_from_json(#[trigger] init[i]) is Some by {
            assert(init[i] == items[i]);
        }
        lemma_updates_in_order(init);
        assert(update_from_json(items[items.len() - 1]) is Some);
        let out = updates_from_list(items);
        assert forall|i: int| 0 <= i < items.len() implies Some(#[trigger] out[i]) == update_from_json(
            items[i],
        ) by {
            if i < init.len() {
                assert(out[i] == updates_from_list(init)[i]);
                assert(init[i] == items[i]);
            }
        }
    }
}

} // verus!

//! Storage collector logic.

use vstd::prelude::*;

use crate::json::{
    as_number_text, as_text, as_u64, field, field_text, field_u64, json_document, parse_json,
    JsonValue, JsonView,
};
use crate::table::TextMap;
use crate::text::{ascii_upper, is_ascii_text, owned, to_uppercase, trim, trim_str, upper_text};

verus! {

/// Storage collector errors.
#[derive(Debug, Clone, PartialEq)]
pub enum StorageCollectorError {
    InitError(String),
    CollectionError(String),
}

/// The text of an error, as it is reported.
pub open spec fn storage_error_text(e: StorageCollectorError) -> Seq<char> {
    match e {
        StorageCollectorError::InitError(m) => "Failed to initialize storage collector: "@ + m@,
        StorageCollectorError::CollectionError(m) => "Failed to collect storage metrics: "@ + m@,
    }
}

impl StorageCollectorError {
    /// The error's message.
    pub fn message(&self) -> (r: String)
        ensures
            r@ == storage_error_text(*self),
    {
        let (prefix, m) = match self {
            StorageCollectorError::InitError(m) => ("Failed to initialize storage collector: ", m),
            StorageCollectorError::CollectionError(m) => ("Failed to collect storage metrics: ", m),
        };
        let mut r = String::from_str(prefix);
        r.append(m.as_str());
        r
    }
}

/// How often the disk list is refreshed, in ms.
pub const LIST_REFRESH_INTERVAL_MS: u64 = 60_000;

/// How often disk I/O rates are fetched, in ms.
pub const IO_REFRESH_INTERVAL_MS: u64 = 2_000;

/// How often disk temperatures are fetched, in ms.
pub const TEMP_REFRESH_INTERVAL_MS: u64 = 30_000;

/// Disk I/O rates of a drive, in bytes per second.
#[derive(Debug, Clone, Copy, PartialEq, Eq)]
pub struct DiskIo {
    pub read_bytes_per_sec: Option<u64>,
    pub write_bytes_per_sec: Option<u64>,
}

/// The drives listed by a performance-counter query: the elements of an
/// array, a single object, or none.
pub open spec fn counter_items(doc: JsonView) -> Seq<JsonView> {
    match doc {
        JsonView::Array(items) => items,
        JsonView::Object(m) => seq![JsonView::Object(m)],
        _ => seq![],
    }
}

/// I/O rates by drive name in upper case: every entry with a string `Name`;
/// the rates are the integer counters, when they are integers.
pub open spec fn io_from_items(items: Seq<JsonView>) -> Map<Seq<char>, DiskIo>
    decreases items.len(),
{
    if items.len() == 0 {
        Map::empty()
    } else {
        let prev = io_from_items(items.drop_last());
        let v = items.last();
        match as_text(field(v, "Name"@)) {
            Some(name) => prev.insert(
                upper_text(name),
                DiskIo {
                    read_bytes_per_sec: as_u64(field(v, "DiskReadBytesPersec"@)),
                    write_bytes_per_sec: as_u64(field(v, "DiskWriteBytesPersec"@)),
                },
            ),
            None => prev,
        }
    }
}

/// I/O rates from the query output (`None` when the query did not run or
/// failed): none for blank or malformed output.
pub open spec fn io_from_output(output: Option<Seq<char>>) -> Map<Seq<char>, DiskIo> {
    match output {
        None => Map::empty(),
        Some(text) => {
            let t = trim(text);
            if t.len() == 0 {
                Map::empty()
            } else {
                match json_document(t) {
                    Ok(doc) => io_from_items(counter_items(doc)),
                    Err(_) => Map::empty(),
                }
            }
        },
    }
}

fn add_io(stats: &mut TextMap<DiskIo>, v: &JsonValue)
    requires
        old(stats).wf(),
    ensures
        final(stats).wf(),
        final(stats).map() == match as_text(field(v@, "Name"@)) {
            Some(name) => old(stats).map().insert(
                upper_text(name),
                DiskIo {
                    read_bytes_per_sec: as_u64(field(v@, "DiskReadBytesPersec"@)),
                    write_bytes_per_sec: as_u64(field(v@, "DiskWriteBytesPersec"@)),
                },
            ),
            None => old(stats).map(),
        },
{
    match field_text(v, "Name") {
        Some(name) => {
            let key = to_uppercase(name.as_str());
            stats.insert(
                key,
                DiskIo {
                    read_bytes_per_sec: field_u64(v, "DiskReadBytesPersec"),
                    write_bytes_per_sec: field_u64(v, "DiskWriteBytesPersec"),
                },
            );
        },
        None => {},
    }
}

/// Reads disk I/O rates from the output of the performance-counter query.
pub fn parse_disk_io_stats(output: Option<String>) -> (r: TextMap<DiskIo>)
    ensures
        r.wf(),
        r.map() == io_from_output(crate::json::opt_view(output)),
{
    let mut stats: TextMap<DiskIo> = TextMap::new();
    let text = match output {
        Some(t) => t,
        None => return stats,
    };
    let trimmed = trim_str(text.as_str());
    if trimmed.as_str().is_empty() {
        return stats;
    }
    let doc = match parse_json(trimmed.as_str()) {
        Ok(d) => d,
        Err(_) => return stats,
    };
    match &doc {
        JsonValue::Array(items) => {
            let ghost all = items@.map_values(|x: JsonValue| x@);
            assert(all =~= counter_items(doc@));
            let mut i: usize = 0;
            assert(all.take(0) =~= Seq::<JsonView>::empty());
            while i < items.len()
                invariant
                    i <= items@.len(),
                    all == items@.map_values(|x: JsonValue| x@),
                    stats.wf(),
                    stats.map() == io_from_items(all.take(i as int)),
                decreases items@.len() - i,
            {
                let ghost t = all.take(i + 1);
                assert(t.drop_last() =~= all.take(i as int));
                assert(t.last() == items@[i as int]@);
                add_io(&mut stats, &items[i]);
                i = i + 1;
            }
            assert(all.take(i as int) =~= all);
        },
        JsonValue::Object(_) => {
            let ghost one = counter_items(doc@);
            assert(one.drop_last() =~= Seq::<JsonView>::empty());
            assert(one.last() == doc@);
            assert(io_from_items(one.drop_last()) == Map::<Seq<char>, DiskIo>::empty());
            add_io(&mut stats, &doc);
            assert(stats.map() == io_from_items(one));
        },
        _ => {
            assert(counter_items(doc@) == Seq::<JsonView>::empty());
            assert(io_from_items(counter_items(doc@)) == Map::<Seq<char>, DiskIo>::empty());
        },
    }
    stats
}

/// Temperatures by drive letter in upper case, from the members of an object
/// whose values are numbers (held as printed).
pub open spec fn temps_from_members(members: Seq<(Seq<char>, JsonView)>) -> Map<Seq<char>, Seq<char>>
    decreases members.len(),
{
    if members.len() == 0 {
        Map::empty()
    } else {
        let prev = temps_from_members(members.drop_last());
        match as_number_text(Some(members.last().1)) {
            Some(t) => prev.insert(upper_text(members.last().0), t),
            None => prev,
        }
    }
}

/// Temperatures from the SMART query output (`None` when the query did not
/// run or failed): none for blank output, `{}`, malformed text or a document
/// that is not an object.
pub open spec fn temps_from_output(output: Option<Seq<char>>) -> Map<Seq<char>, Seq<char>> {
    match output {
        None => Map::empty(),
        Some(text) => {
            let t = trim(text);
            if t.len() == 0 || t == "{}"@ {
                Map::empty()
            } else {
                match json_document(t) {
                    Ok(JsonView::Object(members)) => temps_from_members(members),
                    _ => Map::empty(),
                }
            }
        },
    }
}

/// Reads disk temperatures (degrees Celsius, as printed numbers) from the
/// output of the SMART query.
pub fn parse_disk_temperatures(output: Option<String>) -> (r: TextMap<String>)
    ensures
        r.wf(),
        r.map().map_values(|t: String| t@) == temps_from_output(crate::json::opt_view(output)),
{
    let mut temps: TextMap<String> = TextMap::new();
    assert(temps.map().map_values(|t: String| t@) =~= Map::<Seq<char>, Seq<char>>::empty());
    let text = match output {
        Some(t) => t,
        None => return temps,
    };
    let trimmed = trim_str(text.as_str());
    let braces = String::from_str("{}");
    if trimmed.as_str().is_empty() || trimmed == braces {
        return temps;
    }
    let doc = match parse_json(trimmed.as_str()) {
        Ok(d) => d,
        Err(_) => return temps,
    };
    match &doc {
        JsonValue::Object(members) => {
            let ghost all = match doc@ {
                JsonView::Object(m) => m,
                _ => Seq::empty(),
            };
            assert(all.len() == members@.len());
            let mut i: usize = 0;
            assert(all.take(0) =~= Seq::<(Seq<char>, JsonView)>::empty());
            while i < members.len()
                invariant
                    i <= members@.len(),
                    all.len() == members@.len(),
                    forall|j: int|
                        0 <= j < members@.len() ==> #[trigger] all[j] == (
                            members@[j].0@,
                            crate::json::json_view(members@[j].1),
                        ),
                    temps.wf(),
                    temps.map().map_values(|t: String| t@) == temps_from_members(
                        all.take(i as int),
                    ),
                decreases members@.len() - i,
            {
                let ghost t = all.take(i + 1);
                let ghost before = temps.map();
                assert(t.drop_last() =~= all.take(i as int));
                assert(t.last() == all[i as int]);
                match members[i].1.number_text() {
                    Some(n) => {
                        let key = to_uppercase(members[i].0.as_str());
                        let ghost nv = n@;
                        temps.insert(key, n);
                        assert(temps.map().map_values(|t: String| t@) =~= before.map_values(
                            |t: String| t@,
                        ).insert(key@, nv));
                    },
                    None => {},
                }
                i = i + 1;
            }
            assert(all.take(i as int) =~= all);
        },
        _ => {},
    }
    temps
}

/// The key under which a volume's rates and temperature are found: the first
/// two bytes of its mount point (the drive letter and colon) in upper case,
/// or the whole mount point when it is shorter.
pub open spec fn drive_key_of(mount_point: Seq<char>) -> Seq<char> {
    let b = vstd::utf8::encode_utf8(mount_point);
    if b.len() >= 2 {
        upper_text(vstd::utf8::decode_utf8(b.subrange(0, 2)))
    } else {
        mount_point
    }
}

/// Computes the drive key of a mount point (see [`drive_key_of`]). The mount
/// point must not have a character straddling its second byte.
pub fn drive_key(mount_point: &str) -> (r: String)
    requires
        vstd::utf8::encode_utf8(mount_point@).len() >= 2 ==> vstd::utf8::is_char_boundary(
            vstd::utf8::encode_utf8(mount_point@),
            2,
        ),
    ensures
        r@ == drive_key_of(mount_point@),
{
    if mount_point.as_bytes().len() >= 2 {
        let (head, _) = mount_point.split_at(2);
        proof {
            vstd::utf8::encode_utf8_decode_utf8(head@);
        }
        to_uppercase(head)
    } else {
        owned(mount_point)
    }
}

/// A volume is named by its mount point when it has no name.
pub fn volume_name(name: &str, mount_point: &str) -> (r: String)
    ensures
        r@ == (if name@.len() == 0 {
            mount_point@
        } else {
            name@
        }),
{
    if name.is_empty() {
        owned(mount_point)
    } else {
        owned(name)
    }
}

/// Drive keys ignore the case of ASCII letters: two mount points whose first
/// two bytes are ASCII characters that differ only in case (such as `c:` and
/// `C:`) have the same key, the capital form.
pub proof fn lemma_drive_key_ignores_ascii_case(a: Seq<char>, b: Seq<char>)
    requires
        vstd::utf8::encode_utf8(a).len() >= 2,
        vstd::utf8::encode_utf8(b).len() >= 2,
        is_ascii_text(vstd::utf8::decode_utf8(vstd::utf8::encode_utf8(a).subrange(0, 2))),
        is_ascii_text(vstd::utf8::decode_utf8(vstd::utf8::encode_utf8(b).subrange(0, 2))),
        ascii_upper(vstd::utf8::decode_utf8(vstd::utf8::encode_utf8(a).subrange(0, 2)))
            == ascii_upper(vstd::utf8::decode_utf8(vstd::utf8::encode_utf8(b).subrange(0, 2))),
    ensures
        drive_key_of(a) == drive_key_of(b),
        drive_key_of(a) == ascii_upper(vstd::utf8::decode_utf8(vstd::utf8::encode_utf8(a).subrange(0, 2))),
{
}

/// Each drive's rates come from its own entry: an entry named `n` records,
/// under `n` in upper case, its read counter as the read rate and its write
/// counter as the write rate, over any earlier entry of that drive; an entry
/// without a name changes nothing.
pub proof fn lemma_io_entry(items: Seq<JsonView>, v: JsonView)
    ensures
        as_text(field(v, "Name"@)) matches Some(n) ==> {
            let m = io_from_items(items.push(v));
            &&& m.dom().contains(upper_text(n))
            &&& m[upper_text(n)].read_bytes_per_sec == as_u64(field(v, "DiskReadBytesPersec"@))
            &&& m[upper_text(n)].write_bytes_per_sec == as_u64(field(v, "DiskWriteBytesPersec"@))
            &&& forall|k: Seq<char>|
                k != upper_text(n) ==> (#[trigger] m.dom().contains(k) == io_from_items(
                    items,
                ).dom().contains(k))
        },
        as_text(field(v, "Name"@)) is None ==> io_from_items(items.push(v)) == io_from_items(items),
{
    assert(items.push(v).drop_last() =~= items);
}

/// Each drive's temperature comes from its own member: a member named `n`
/// whose value is a number records that number, as printed, under `n` in
/// upper case; a member whose value is not a number changes nothing.
pub proof fn lemma_temperature_entry(members: Seq<(Seq<char>, JsonView)>, name: Seq<char>, value: JsonView)
    ensures
        as_number_text(Some(value)) matches Some(t) ==> {
            let m = temps_from_members(members.push((name, value)));
            &&& m.dom().contains(upper_text(name))
            &&& m[upper_text(name)] == t
        },
        as_number_text(Some(value)) is None ==> temps_from_members(members.push((name, value)))
            == temps_from_members(members),
{
    assert(members.push((name, value)).drop_last() =~= members);
}

} // verus!

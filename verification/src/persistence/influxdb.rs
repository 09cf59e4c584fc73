//! InfluxDB v2 line protocol: escaping, encoding of snapshots, and the
//! decisions around the HTTP write API.

use vstd::prelude::*;

use crate::text::{
    all_single_line, decimal, is_plain_line, join, join_strings, lemma_concat_all_single_line,
    lemma_concat_single_line, lemma_decimal_plain, lemma_join_single_line, lemma_lines_of_join,
    lemma_signed_decimal_plain, lines, push_decimal, push_signed_decimal, signed_decimal,
    single_line,
};

verus! {

// ---------------------------------------------------------------------------
// Escaping
// ---------------------------------------------------------------------------

/// The escape of one character of a tag value: backslash, comma, equals sign
/// and space get a backslash before them.
pub open spec fn escape_tag_char(c: char) -> Seq<char> {
    if c == '\\' || c == ',' || c == '=' || c == ' ' {
        seq!['\\', c]
    } else {
        seq![c]
    }
}

/// A tag value escaped for line protocol, character by character.
pub open spec fn escape_tag(s: Seq<char>) -> Seq<char>
    decreases s.len(),
{
    if s.len() == 0 {
        seq![]
    } else {
        escape_tag_char(s[0]) + escape_tag(s.drop_first())
    }
}

/// The escape of one character of a quoted field string: backslash and
/// double quote get a backslash before them.
pub open spec fn escape_field_char(c: char) -> Seq<char> {
    if c == '\\' || c == '"' {
        seq!['\\', c]
    } else {
        seq![c]
    }
}

/// A field string escaped for line protocol, character by character.
pub open spec fn escape_field(s: Seq<char>) -> Seq<char>
    decreases s.len(),
{
    if s.len() == 0 {
        seq![]
    } else {
        escape_field_char(s[0]) + escape_field(s.drop_first())
    }
}

/// Escapes special characters in tag values for InfluxDB line protocol.
/// Tags must escape: commas, equals signs, spaces, and backslashes.
pub fn escape_tag_value(s: &str) -> (r: String)
    ensures
        r@ == escape_tag(s@),
{
    let cs = crate::text::chars_of(s);
    let mut r = String::new();
    let mut i: usize = 0;
    assert(cs@.skip(0) =~= cs@);
    while i < cs.len()
        invariant
            i <= cs@.len(),
            cs@ == s@,
            r@ + escape_tag(cs@.skip(i as int)) == escape_tag(s@),
        decreases cs@.len() - i,
    {
        let c = cs[i];
        let ghost before = r@;
        assert(cs@.skip(i as int)[0] == c);
        assert(cs@.skip(i as int).drop_first() =~= cs@.skip(i + 1));
        if c == '\\' || c == ',' || c == '=' || c == ' ' {
            r.push('\\');
        }
        r.push(c);
        assert(r@ =~= before + escape_tag_char(c));
        i = i + 1;
    }
    assert(cs@.skip(i as int) =~= Seq::<char>::empty());
    assert(r@ + Seq::<char>::empty() =~= r@);
    r
}

/// Escapes special characters in field string values for InfluxDB line protocol.
/// Field strings (quoted) must escape: backslashes and double quotes.
pub fn escape_field_string(s: &str) -> (r: String)
    ensures
        r@ == escape_field(s@),
{
    let cs = crate::text::chars_of(s);
    let mut r = String::new();
    let mut i: usize = 0;
    assert(cs@.skip(0) =~= cs@);
    while i < cs.len()
        invariant
            i <= cs@.len(),
            cs@ == s@,
            r@ + escape_field(cs@.skip(i as int)) == escape_field(s@),
        decreases cs@.len() - i,
    {
        let c = cs[i];
        let ghost before = r@;
        assert(cs@.skip(i as int)[0] == c);
        assert(cs@.skip(i as int).drop_first() =~= cs@.skip(i + 1));
        if c == '\\' || c == '"' {
            r.push('\\');
        }
        r.push(c);
        assert(r@ =~= before + escape_field_char(c));
        i = i + 1;
    }
    assert(cs@.skip(i as int) =~= Seq::<char>::empty());
    assert(r@ + Seq::<char>::empty() =~= r@);
    r
}

/// Reads escaped text back: a backslash stands for the character after it.
pub open spec fn unescape(t: Seq<char>) -> Seq<char>
    decreases t.len(),
{
    if t.len() == 0 {
        seq![]
    } else if t[0] == '\\' && t.len() >= 2 {
        seq![t[1]] + unescape(t.skip(2))
    } else {
        seq![t[0]] + unescape(t.drop_first())
    }
}

/// Escaped tag text in which every comma, equals sign and space is escaped:
/// scanning from the left, a backslash always takes the next character with
/// it, and no separator stands on its own.
pub open spec fn tag_text_is_safe(t: Seq<char>) -> bool
    decreases t.len(),
{
    if t.len() == 0 {
        true
    } else if t[0] == '\\' {
        t.len() >= 2 && tag_text_is_safe(t.skip(2))
    } else {
        t[0] != ',' && t[0] != '=' && t[0] != ' ' && tag_text_is_safe(t.drop_first())
    }
}

/// Escaped field text in which every double quote is escaped.
pub open spec fn field_text_is_safe(t: Seq<char>) -> bool
    decreases t.len(),
{
    if t.len() == 0 {
        true
    } else if t[0] == '\\' {
        t.len() >= 2 && field_text_is_safe(t.skip(2))
    } else {
        t[0] != '"' && field_text_is_safe(t.drop_first())
    }
}

/// Escaping a tag value loses nothing: unescaping gives the value back.
pub proof fn lemma_tag_escape_roundtrip(s: Seq<char>)
    ensures
        unescape(escape_tag(s)) == s,
    decreases s.len(),
{
    if s.len() > 0 {
        let c = s[0];
        let rest = escape_tag(s.drop_first());
        lemma_tag_escape_roundtrip(s.drop_first());
        let t = escape_tag_char(c) + rest;
        if c == '\\' || c == ',' || c == '=' || c == ' ' {
            assert(t[0] == '\\' && t[1] == c);
            assert(t.skip(2) =~= rest);
        } else {
            assert(t[0] == c);
            assert(t.drop_first() =~= rest);
        }
        assert(seq![c] + s.drop_first() =~= s);
    }
}

/// Escaping a field string loses nothing: unescaping gives the value back.
pub proof fn lemma_field_escape_roundtrip(s: Seq<char>)
    ensures
        unescape(escape_field(s)) == s,
    decreases s.len(),
{
    if s.len() > 0 {
        let c = s[0];
        let rest = escape_field(s.drop_first());
        lemma_field_escape_roundtrip(s.drop_first());
        let t = escape_field_char(c) + rest;
        if c == '\\' || c == '"' {
            assert(t[0] == '\\' && t[1] == c);
            assert(t.skip(2) =~= rest);
        } else {
            assert(t[0] == c);
            assert(t.drop_first() =~= rest);
        }
        assert(seq![c] + s.drop_first() =~= s);
    }
}

/// An escaped tag value cannot end a tag early: none of its commas, equals
/// signs or spaces stands unescaped.
pub proof fn lemma_escaped_tag_is_safe(s: Seq<char>)
    ensures
        tag_text_is_safe(escape_tag(s)),
    decreases s.len(),
{
    if s.len() > 0 {
        let c = s[0];
        let rest = escape_tag(s.drop_first());
        lemma_escaped_tag_is_safe(s.drop_first());
        let t = escape_tag_char(c) + rest;
        if c == '\\' || c == ',' || c == '=' || c == ' ' {
            assert(t.skip(2) =~= rest);
        } else {
            assert(t.drop_first() =~= rest);
        }
    }
}

/// An escaped field string cannot end the quoted string early.
pub proof fn lemma_escaped_field_is_safe(s: Seq<char>)
    ensures
        field_text_is_safe(escape_field(s)),
    decreases s.len(),
{
    if s.len() > 0 {
        let c = s[0];
        let rest = escape_field(s.drop_first());
        lemma_escaped_field_is_safe(s.drop_first());
        let t = escape_field_char(c) + rest;
        if c == '\\' || c == '"' {
            assert(t.skip(2) =~= rest);
        } else {
            assert(t.drop_first() =~= rest);
        }
    }
}

// ---------------------------------------------------------------------------
// Snapshots as the line protocol reads them
// ---------------------------------------------------------------------------
//
// Measured quantities that are floating-point numbers are held as the text
// that `{}` prints for them; the encoder places that text unchanged.

/// CPU metrics of a snapshot.
#[derive(Debug, Clone, PartialEq)]
pub struct CpuSample {
    pub cores: u32,
    pub threads: u32,
    pub usage_percent: Option<String>,
    pub temperature_celsius: Option<String>,
    pub power_watts: Option<String>,
}

/// Memory metrics of a snapshot.
#[derive(Debug, Clone, PartialEq)]
pub struct MemorySample {
    pub total_gb: String,
    pub available_gb: String,
    pub used_gb: String,
    pub usage_percent: String,
}

/// Metrics of one GPU.
#[derive(Debug, Clone, PartialEq)]
pub struct GpuSample {
    pub index: u32,
    pub name: String,
    pub vram_total_mb: Option<u64>,
    pub vram_used_mb: Option<u64>,
    pub usage_percent: Option<String>,
    pub temperature_celsius: Option<String>,
    pub power_watts: Option<String>,
}

/// Metrics of one storage volume.
#[derive(Debug, Clone, PartialEq)]
pub struct StorageSample {
    pub mount_point: String,
    pub drive_type: String,
    pub total_gb: String,
    pub used_gb: String,
    pub available_gb: String,
    pub usage_percent: String,
    pub temperature_celsius: Option<String>,
    pub read_speed_mbps: Option<String>,
    pub write_speed_mbps: Option<String>,
}

/// Metrics of one network interface.
#[derive(Debug, Clone, PartialEq)]
pub struct NetworkSample {
    pub name: String,
    pub status: String,
    pub bytes_sent: u64,
    pub bytes_received: u64,
    pub send_rate_mbps: Option<String>,
    pub receive_rate_mbps: Option<String>,
}

/// A system snapshot as it is written to InfluxDB.
#[derive(Debug, Clone, PartialEq)]
pub struct SnapshotSample {
    /// Milliseconds since the Unix epoch.
    pub timestamp_ms: i64,
    pub hostname: String,
    pub cpu: CpuSample,
    pub memory: MemorySample,
    pub gpus: Vec<GpuSample>,
    pub storage: Vec<StorageSample>,
    pub network: Vec<NetworkSample>,
}

/// `name=value`.
pub open spec fn kv(name: Seq<char>, value: Seq<char>) -> Seq<char> {
    name + "="@ + value
}

/// An integer field: `name=<n>i`.
pub open spec fn int_kv(name: Seq<char>, n: nat) -> Seq<char> {
    name + "="@ + decimal(n) + "i"@
}

/// A field that is written only when the value is present.
pub open spec fn opt_kv(name: Seq<char>, value: Option<String>) -> Seq<Seq<char>> {
    match value {
        Some(v) => seq![kv(name, v@)],
        None => seq![],
    }
}

/// An integer field that is written only when the value is present.
pub open spec fn opt_int_kv(name: Seq<char>, value: Option<u64>) -> Seq<Seq<char>> {
    match value {
        Some(n) => seq![int_kv(name, n as nat)],
        None => seq![],
    }
}

/// A line: measurement and tags, a space, fields joined by commas, a space,
/// the timestamp.
pub open spec fn point(series: Seq<char>, fields: Seq<Seq<char>>, ts: Seq<char>) -> Seq<char> {
    series + " "@ + join(fields, ","@) + " "@ + ts
}

pub open spec fn cpu_fields(c: CpuSample) -> Seq<Seq<char>> {
    seq![int_kv("cores"@, c.cores as nat), int_kv("threads"@, c.threads as nat)] + opt_kv(
        "usage_percent"@,
        c.usage_percent,
    ) + opt_kv("temperature_celsius"@, c.temperature_celsius) + opt_kv(
        "power_watts"@,
        c.power_watts,
    )
}

pub open spec fn cpu_line(host: Seq<char>, c: CpuSample, ts: Seq<char>) -> Seq<char> {
    point("cpu,host="@ + host, cpu_fields(c), ts)
}

pub open spec fn memory_fields(m: MemorySample) -> Seq<Seq<char>> {
    seq![
        kv("total_gb"@, m.total_gb@),
        kv("available_gb"@, m.available_gb@),
        kv("used_gb"@, m.used_gb@),
        kv("usage_percent"@, m.usage_percent@),
    ]
}

pub open spec fn memory_line(host: Seq<char>, m: MemorySample, ts: Seq<char>) -> Seq<char> {
    point("memory,host="@ + host, memory_fields(m), ts)
}

pub open spec fn gpu_fields(g: GpuSample) -> Seq<Seq<char>> {
    opt_int_kv("vram_total_mb"@, g.vram_total_mb) + opt_int_kv("vram_used_mb"@, g.vram_used_mb)
        + opt_kv("usage_percent"@, g.usage_percent) + opt_kv(
        "temperature_celsius"@,
        g.temperature_celsius,
    ) + opt_kv("power_watts"@, g.power_watts)
}

pub open spec fn gpu_series(host: Seq<char>, g: GpuSample) -> Seq<char> {
    "gpu,host="@ + host + ",index="@ + decimal(g.index as nat) + ",name="@ + escape_tag(g.name@)
}

/// The GPU lines: one per GPU that has at least one field.
pub open spec fn gpu_lines(host: Seq<char>, gs: Seq<GpuSample>, ts: Seq<char>) -> Seq<Seq<char>>
    decreases gs.len(),
{
    if gs.len() == 0 {
        seq![]
    } else {
        gpu_lines(host, gs.drop_last(), ts) + if gpu_fields(gs.last()).len() > 0 {
            seq![point(gpu_series(host, gs.last()), gpu_fields(gs.last()), ts)]
        } else {
            seq![]
        }
    }
}

pub open spec fn storage_fields(s: StorageSample) -> Seq<Seq<char>> {
    seq![
        kv("total_gb"@, s.total_gb@),
        kv("used_gb"@, s.used_gb@),
        kv("available_gb"@, s.available_gb@),
        kv("usage_percent"@, s.usage_percent@),
    ] + opt_kv("temperature_celsius"@, s.temperature_celsius) + opt_kv(
        "read_speed_mbps"@,
        s.read_speed_mbps,
    ) + opt_kv("write_speed_mbps"@, s.write_speed_mbps)
}

pub open spec fn storage_series(host: Seq<char>, s: StorageSample) -> Seq<char> {
    "storage,host="@ + host + ",mount_point="@ + escape_tag(s.mount_point@) + ",drive_type="@
        + escape_tag(s.drive_type@)
}

/// The storage lines: one per volume.
pub open spec fn storage_lines(host: Seq<char>, ss: Seq<StorageSample>, ts: Seq<char>) -> Seq<
    Seq<char>,
>
    decreases ss.len(),
{
    if ss.len() == 0 {
        seq![]
    } else {
        storage_lines(host, ss.drop_last(), ts) + seq![
            point(storage_series(host, ss.last()), storage_fields(ss.last()), ts),
        ]
    }
}

pub open spec fn network_fields(n: NetworkSample) -> Seq<Seq<char>> {
    seq![int_kv("bytes_sent"@, n.bytes_sent as nat), int_kv("bytes_received"@, n.bytes_received as nat)]
        + opt_kv("send_rate_mbps"@, n.send_rate_mbps) + opt_kv(
        "receive_rate_mbps"@,
        n.receive_rate_mbps,
    )
}

pub open spec fn network_series(host: Seq<char>, n: NetworkSample) -> Seq<char> {
    "network,host="@ + host + ",interface="@ + escape_tag(n.name@) + ",status="@ + escape_tag(
        n.status@,
    )
}

/// The network lines: one per interface.
pub open spec fn network_lines(host: Seq<char>, ns: Seq<NetworkSample>, ts: Seq<char>) -> Seq<
    Seq<char>,
>
    decreases ns.len(),
{
    if ns.len() == 0 {
        seq![]
    } else {
        network_lines(host, ns.drop_last(), ts) + seq![
            point(network_series(host, ns.last()), network_fields(ns.last()), ts),
        ]
    }
}

/// The lines of a snapshot, in order: CPU, memory, GPUs, storage, network.
/// Every line carries the escaped host name and the snapshot's timestamp.
pub open spec fn snapshot_lines(s: SnapshotSample) -> Seq<Seq<char>> {
    let host = escape_tag(s.hostname@);
    let ts = signed_decimal(s.timestamp_ms as int);
    seq![cpu_line(host, s.cpu, ts), memory_line(host, s.memory, ts)] + gpu_lines(host, s.gpus@, ts)
        + storage_lines(host, s.storage@, ts) + network_lines(host, s.network@, ts)
}

/// The line protocol text of a snapshot: its lines joined by newlines.
pub open spec fn line_protocol(s: SnapshotSample) -> Seq<char> {
    join(snapshot_lines(s), "\n"@)
}

/// The models of a list of strings.
pub open spec fn string_views(v: Seq<String>) -> Seq<Seq<char>> {
    v.map_values(|s: String| s@)
}

fn push_kv(fields: &mut Vec<String>, name: &str, value: &str)
    ensures
        string_views(final(fields)@) == string_views(old(fields)@).push(kv(name@, value@)),
{
    let mut f = String::from_str(name);
    f.append("=");
    f.append(value);
    fields.push(f);
    assert(string_views(fields@) =~= string_views(old(fields)@).push(kv(name@, value@)));
}

fn push_int_kv(fields: &mut Vec<String>, name: &str, n: u64)
    ensures
        string_views(final(fields)@) == string_views(old(fields)@).push(int_kv(name@, n as nat)),
{
    let mut f = String::from_str(name);
    f.append("=");
    push_decimal(&mut f, n);
    f.append("i");
    fields.push(f);
    assert(string_views(fields@) =~= string_views(old(fields)@).push(int_kv(name@, n as nat)));
}

fn push_opt_kv(fields: &mut Vec<String>, name: &str, value: &Option<String>)
    ensures
        string_views(final(fields)@) == string_views(old(fields)@) + opt_kv(name@, *value),
{
    match value {
        Some(v) => push_kv(fields, name, v.as_str()),
        None => {},
    }
    assert(string_views(fields@) =~= string_views(old(fields)@) + opt_kv(name@, *value));
}

fn push_opt_int_kv(fields: &mut Vec<String>, name: &str, value: Option<u64>)
    ensures
        string_views(final(fields)@) == string_views(old(fields)@) + opt_int_kv(name@, value),
{
    match value {
        Some(n) => push_int_kv(fields, name, n),
        None => {},
    }
    assert(string_views(fields@) =~= string_views(old(fields)@) + opt_int_kv(name@, value));
}

/// Assembles a line from its series, fields and timestamp.
fn make_point(series: String, fields: &Vec<String>, ts: &str) -> (r: String)
    ensures
        r@ == point(series@, string_views(fields@), ts@),
{
    let mut line = series;
    line.append(" ");
    let joined = join_strings(fields.as_slice(), ",");
    line.append(joined.as_str());
    line.append(" ");
    line.append(ts);
    line
}

fn cpu_point(host: &str, c: &CpuSample, ts: &str) -> (r: String)
    ensures
        r@ == cpu_line(host@, *c, ts@),
{
    let mut fields: Vec<String> = Vec::new();
    push_int_kv(&mut fields, "cores", c.cores as u64);
    push_int_kv(&mut fields, "threads", c.threads as u64);
    push_opt_kv(&mut fields, "usage_percent", &c.usage_percent);
    push_opt_kv(&mut fields, "temperature_celsius", &c.temperature_celsius);
    push_opt_kv(&mut fields, "power_watts", &c.power_watts);
    assert(string_views(fields@) =~= cpu_fields(*c));
    let mut series = String::from_str("cpu,host=");
    series.append(host);
    make_point(series, &fields, ts)
}

fn memory_point(host: &str, m: &MemorySample, ts: &str) -> (r: String)
    ensures
        r@ == memory_line(host@, *m, ts@),
{
    let mut fields: Vec<String> = Vec::new();
    push_kv(&mut fields, "total_gb", m.total_gb.as_str());
    push_kv(&mut fields, "available_gb", m.available_gb.as_str());
    push_kv(&mut fields, "used_gb", m.used_gb.as_str());
    push_kv(&mut fields, "usage_percent", m.usage_percent.as_str());
    assert(string_views(fields@) =~= memory_fields(*m));
    let mut series = String::from_str("memory,host=");
    series.append(host);
    make_point(series, &fields, ts)
}

/// The line of a GPU, when it has at least one field.
fn gpu_point(host: &str, g: &GpuSample, ts: &str) -> (r: Option<String>)
    ensures
        match r {
            Some(line) => gpu_fields(*g).len() > 0 && line@ == point(
                gpu_series(host@, *g),
                gpu_fields(*g),
                ts@,
            ),
            None => gpu_fields(*g).len() == 0,
        },
{
    let mut fields: Vec<String> = Vec::new();
    assert(string_views(fields@) =~= Seq::<Seq<char>>::empty());
    push_opt_int_kv(&mut fields, "vram_total_mb", g.vram_total_mb);
    push_opt_int_kv(&mut fields, "vram_used_mb", g.vram_used_mb);
    push_opt_kv(&mut fields, "usage_percent", &g.usage_percent);
    push_opt_kv(&mut fields, "temperature_celsius", &g.temperature_celsius);
    push_opt_kv(&mut fields, "power_watts", &g.power_watts);
    assert(string_views(fields@) =~= gpu_fields(*g));
    if fields.len() == 0 {
        return None;
    }
    let mut series = String::from_str("gpu,host=");
    series.append(host);
    series.append(",index=");
    push_decimal(&mut series, g.index as u64);
    series.append(",name=");
    let name = escape_tag_value(g.name.as_str());
    series.append(name.as_str());
    Some(make_point(series, &fields, ts))
}

fn storage_point(host: &str, s: &StorageSample, ts: &str) -> (r: String)
    ensures
        r@ == point(storage_series(host@, *s), storage_fields(*s), ts@),
{
    let mut fields: Vec<String> = Vec::new();
    push_kv(&mut fields, "total_gb", s.total_gb.as_str());
    push_kv(&mut fields, "used_gb", s.used_gb.as_str());
    push_kv(&mut fields, "available_gb", s.available_gb.as_str());
    push_kv(&mut fields, "usage_percent", s.usage_percent.as_str());
    push_opt_kv(&mut fields, "temperature_celsius", &s.temperature_celsius);
    push_opt_kv(&mut fields, "read_speed_mbps", &s.read_speed_mbps);
    push_opt_kv(&mut fields, "write_speed_mbps", &s.write_speed_mbps);
    assert(string_views(fields@) =~= storage_fields(*s));
    let mut series = String::from_str("storage,host=");
    series.append(host);
    series.append(",mount_point=");
    let mount = escape_tag_value(s.mount_point.as_str());
    series.append(mount.as_str());
    series.append(",drive_type=");
    let kind = escape_tag_value(s.drive_type.as_str());
    series.append(kind.as_str());
    make_point(series, &fields, ts)
}

fn network_point(host: &str, n: &NetworkSample, ts: &str) -> (r: String)
    ensures
        r@ == point(network_series(host@, *n), network_fields(*n), ts@),
{
    let mut fields: Vec<String> = Vec::new();
    push_int_kv(&mut fields, "bytes_sent", n.bytes_sent);
    push_int_kv(&mut fields, "bytes_received", n.bytes_received);
    push_opt_kv(&mut fields, "send_rate_mbps", &n.send_rate_mbps);
    push_opt_kv(&mut fields, "receive_rate_mbps", &n.receive_rate_mbps);
    assert(string_views(fields@) =~= network_fields(*n));
    let mut series = String::from_str("network,host=");
    series.append(host);
    series.append(",interface=");
    let name = escape_tag_value(n.name.as_str());
    series.append(name.as_str());
    series.append(",status=");
    let status = escape_tag_value(n.status.as_str());
    series.append(status.as_str());
    make_point(series, &fields, ts)
}

/// Converts a system snapshot to InfluxDB line protocol format.
pub fn snapshot_to_line_protocol(snapshot: &SnapshotSample) -> (r: String)
    ensures
        r@ == line_protocol(*snapshot),
{
    let host = escape_tag_value(snapshot.hostname.as_str());
    let mut ts = String::new();
    push_signed_decimal(&mut ts, snapshot.timestamp_ms);
    assert(ts@ =~= signed_decimal(snapshot.timestamp_ms as int));
    let mut lines: Vec<String> = Vec::new();
    lines.push(cpu_point(host.as_str(), &snapshot.cpu, ts.as_str()));
    lines.push(memory_point(host.as_str(), &snapshot.memory, ts.as_str()));
    let ghost head = seq![
        cpu_line(host@, snapshot.cpu, ts@),
        memory_line(host@, snapshot.memory, ts@),
    ];
    assert(string_views(lines@) =~= head);

    let mut i: usize = 0;
    assert(snapshot.gpus@.take(0) =~= Seq::<GpuSample>::empty());
    while i < snapshot.gpus.len()
        invariant
            i <= snapshot.gpus@.len(),
            string_views(lines@) == head + gpu_lines(host@, snapshot.gpus@.take(i as int), ts@),
        decreases snapshot.gpus@.len() - i,
    {
        let ghost before = string_views(lines@);
        let ghost t = snapshot.gpus@.take(i + 1);
        assert(t.drop_last() =~= snapshot.gpus@.take(i as int));
        assert(t.last() == snapshot.gpus@[i as int]);
        match gpu_point(host.as_str(), &snapshot.gpus[i], ts.as_str()) {
            Some(line) => {
                lines.push(line);
                assert(string_views(lines@) =~= before.push(line@));
            },
            None => {},
        }
        assert(string_views(lines@) =~= head + gpu_lines(host@, t, ts@));
        i = i + 1;
    }
    assert(snapshot.gpus@.take(i as int) =~= snapshot.gpus@);
    let ghost with_gpus = head + gpu_lines(host@, snapshot.gpus@, ts@);

    let mut j: usize = 0;
    assert(snapshot.storage@.take(0) =~= Seq::<StorageSample>::empty());
    assert(string_views(lines@) =~= with_gpus + storage_lines(host@, snapshot.storage@.take(0), ts@));
    while j < snapshot.storage.len()
        invariant
            j <= snapshot.storage@.len(),
            string_views(lines@) == with_gpus + storage_lines(
                host@,
                snapshot.storage@.take(j as int),
                ts@,
            ),
        decreases snapshot.storage@.len() - j,
    {
        let ghost before = string_views(lines@);
        let ghost t = snapshot.storage@.take(j + 1);
        assert(t.drop_last() =~= snapshot.storage@.take(j as int));
        assert(t.last() == snapshot.storage@[j as int]);
        let line = storage_point(host.as_str(), &snapshot.storage[j], ts.as_str());
        lines.push(line);
        assert(string_views(lines@) =~= before.push(line@));
        assert(string_views(lines@) =~= with_gpus + storage_lines(host@, t, ts@));
        j = j + 1;
    }
    assert(snapshot.storage@.take(j as int) =~= snapshot.storage@);
    let ghost with_storage = with_gpus + storage_lines(host@, snapshot.storage@, ts@);

    let mut k: usize = 0;
    assert(snapshot.network@.take(0) =~= Seq::<NetworkSample>::empty());
    assert(string_views(lines@) =~= with_storage + network_lines(
        host@,
        snapshot.network@.take(0),
        ts@,
    ));
    while k < snapshot.network.len()
        invariant
            k <= snapshot.network@.len(),
            string_views(lines@) == with_storage + network_lines(
                host@,
                snapshot.network@.take(k as int),
                ts@,
            ),
        decreases snapshot.network@.len() - k,
    {
        let ghost before = string_views(lines@);
        let ghost t = snapshot.network@.take(k + 1);
        assert(t.drop_last() =~= snapshot.network@.take(k as int));
        assert(t.last() == snapshot.network@[k as int]);
        let line = network_point(host.as_str(), &snapshot.network[k], ts.as_str());
        lines.push(line);
        assert(string_views(lines@) =~= before.push(line@));
        assert(string_views(lines@) =~= with_storage + network_lines(host@, t, ts@));
        k = k + 1;
    }
    assert(snapshot.network@.take(k as int) =~= snapshot.network@);
    assert(string_views(lines@) =~= snapshot_lines(*snapshot));
    join_strings(lines.as_slice(), "\n")
}

// ---------------------------------------------------------------------------
// The write API
// ---------------------------------------------------------------------------

/// InfluxDB client errors.
#[derive(Debug, Clone, PartialEq)]
pub enum InfluxDbError {
    ConnectionError(String),
    WriteError(String),
    AuthError,
    ConfigError(String),
}

/// The text of an error, as it is reported.
pub open spec fn influx_error_text(e: InfluxDbError) -> Seq<char> {
    match e {
        InfluxDbError::ConnectionError(m) => "Failed to connect to InfluxDB: "@ + m@,
        InfluxDbError::WriteError(m) => "Failed to write data: "@ + m@,
        InfluxDbError::AuthError => "Authentication failed"@,
        InfluxDbError::ConfigError(m) => "Invalid configuration: "@ + m@,
    }
}

impl InfluxDbError {
    /// The error's message.
    pub fn message(&self) -> (r: String)
        ensures
            r@ == influx_error_text(*self),
    {
        match self {
            InfluxDbError::ConnectionError(m) => {
                let mut r = String::from_str("Failed to connect to InfluxDB: ");
                r.append(m.as_str());
                r
            },
            InfluxDbError::WriteError(m) => {
                let mut r = String::from_str("Failed to write data: ");
                r.append(m.as_str());
                r
            },
            InfluxDbError::AuthError => String::from_str("Authentication failed"),
            InfluxDbError::ConfigError(m) => {
                let mut r = String::from_str("Invalid configuration: ");
                r.append(m.as_str());
                r
            },
        }
    }
}

/// Where and as whom snapshots are written.
#[derive(Debug, Clone, PartialEq)]
pub struct InfluxDbTarget {
    /// InfluxDB server URL; empty when persistence is off
    pub url: String,
    pub org: String,
    pub bucket: String,
    pub token: String,
}

impl InfluxDbTarget {
    /// Writing is attempted only when a URL is configured.
    pub fn is_configured(&self) -> (r: bool)
        ensures
            r == (self.url@.len() > 0),
    {
        !self.url.as_str().is_empty()
    }

    /// The write endpoint, with millisecond precision.
    pub fn write_url(&self) -> (r: String)
        ensures
            r@ == self.url@ + "/api/v2/write?org="@ + self.org@ + "&bucket="@ + self.bucket@
                + "&precision=ms"@,
    {
        let mut r = self.url.clone();
        r.append("/api/v2/write?org=");
        r.append(self.org.as_str());
        r.append("&bucket=");
        r.append(self.bucket.as_str());
        r.append("&precision=ms");
        r
    }

    /// The health endpoint.
    pub fn health_url(&self) -> (r: String)
        ensures
            r@ == self.url@ + "/health"@,
    {
        let mut r = self.url.clone();
        r.append("/health");
        r
    }

    /// The `Authorization` header value for token authentication.
    pub fn authorization(&self) -> (r: String)
        ensures
            r@ == "Token "@ + self.token@,
    {
        let mut r = String::from_str("Token ");
        r.append(self.token.as_str());
        r
    }
}

/// An HTTP status code in the success class (200 to 299).
pub open spec fn is_success_status(status: u16) -> bool {
    200 <= status && status <= 299
}

/// Tests for a success status, as `StatusCode::is_success` does.
pub fn is_success(status: u16) -> (r: bool)
    ensures
        r == is_success_status(status),
{
    200 <= status && status <= 299
}

/// The outcome of a write request, from the response: its status code, the
/// status as text (code and reason), and its body (`None` when it could not
/// be read). Success is `Ok`; 401 is an authentication failure; any other
/// status is a write error with the status text and the body, or
/// "Unknown error" for an unreadable body.
pub fn write_outcome(status: u16, status_text: &str, body: Option<String>) -> (r: Result<
    (),
    InfluxDbError,
>)
    ensures
        is_success_status(status) ==> r is Ok,
        !is_success_status(status) && status == 401 ==> r == Err::<(), InfluxDbError>(
            InfluxDbError::AuthError,
        ),
        !is_success_status(status) && status != 401 ==> (r matches Err(
            InfluxDbError::WriteError(m),
        ) && m@ == status_text@ + ": "@ + match body {
            Some(b) => b@,
            None => "Unknown error"@,
        }),
{
    if is_success(status) {
        Ok(())
    } else if status == 401 {
        Err(InfluxDbError::AuthError)
    } else {
        let mut m = String::from_str(status_text);
        m.append(": ");
        match body {
            Some(b) => m.append(b.as_str()),
            None => m.append("Unknown error"),
        }
        Err(InfluxDbError::WriteError(m))
    }
}

/// The GPUs that get a line: those with at least one field.
pub open spec fn gpus_with_fields(gs: Seq<GpuSample>) -> nat
    decreases gs.len(),
{
    if gs.len() == 0 {
        0
    } else {
        gpus_with_fields(gs.drop_last()) + if gpu_fields(gs.last()).len() > 0 {
            1nat
        } else {
            0nat
        }
    }
}

proof fn lemma_gpu_line_count(host: Seq<char>, gs: Seq<GpuSample>, ts: Seq<char>)
    ensures
        gpu_lines(host, gs, ts).len() == gpus_with_fields(gs),
    decreases gs.len(),
{
    if gs.len() > 0 {
        lemma_gpu_line_count(host, gs.drop_last(), ts);
    }
}

proof fn lemma_storage_line_count(host: Seq<char>, ss: Seq<StorageSample>, ts: Seq<char>)
    ensures
        storage_lines(host, ss, ts).len() == ss.len(),
    decreases ss.len(),
{
    if ss.len() > 0 {
        lemma_storage_line_count(host, ss.drop_last(), ts);
    }
}

proof fn lemma_network_line_count(host: Seq<char>, ns: Seq<NetworkSample>, ts: Seq<char>)
    ensures
        network_lines(host, ns, ts).len() == ns.len(),
    decreases ns.len(),
{
    if ns.len() > 0 {
        lemma_network_line_count(host, ns.drop_last(), ts);
    }
}

/// A snapshot is written as one CPU line, one memory line, one line per GPU
/// that has a field, and one line per volume and per interface.
pub proof fn lemma_snapshot_line_count(s: SnapshotSample)
    ensures
        snapshot_lines(s).len() == 2 + gpus_with_fields(s.gpus@) + s.storage@.len()
            + s.network@.len(),
{
    let host = escape_tag(s.hostname@);
    let ts = signed_decimal(s.timestamp_ms as int);
    lemma_gpu_line_count(host, s.gpus@, ts);
    lemma_storage_line_count(host, s.storage@, ts);
    lemma_network_line_count(host, s.network@, ts);
}


// ---------------------------------------------------------------------------
// One point per line
// ---------------------------------------------------------------------------

/// An optional text that, when present, holds no line feed.
pub open spec fn opt_single_line(v: Option<String>) -> bool {
    match v {
        Some(t) => single_line(t@),
        None => true,
    }
}

pub open spec fn gpu_texts_single_line(g: GpuSample) -> bool {
    &&& single_line(g.name@)
    &&& opt_single_line(g.usage_percent)
    &&& opt_single_line(g.temperature_celsius)
    &&& opt_single_line(g.power_watts)
}

pub open spec fn storage_texts_single_line(v: StorageSample) -> bool {
    &&& single_line(v.mount_point@)
    &&& single_line(v.drive_type@)
    &&& single_line(v.total_gb@)
    &&& single_line(v.used_gb@)
    &&& single_line(v.available_gb@)
    &&& single_line(v.usage_percent@)
    &&& opt_single_line(v.temperature_celsius)
    &&& opt_single_line(v.read_speed_mbps)
    &&& opt_single_line(v.write_speed_mbps)
}

pub open spec fn network_texts_single_line(n: NetworkSample) -> bool {
    &&& single_line(n.name@)
    &&& single_line(n.status@)
    &&& opt_single_line(n.send_rate_mbps)
    &&& opt_single_line(n.receive_rate_mbps)
}

/// No text of the snapshot holds a line feed.
pub open spec fn snapshot_texts_single_line(s: SnapshotSample) -> bool {
    &&& single_line(s.hostname@)
    &&& opt_single_line(s.cpu.usage_percent)
    &&& opt_single_line(s.cpu.temperature_celsius)
    &&& opt_single_line(s.cpu.power_watts)
    &&& single_line(s.memory.total_gb@)
    &&& single_line(s.memory.available_gb@)
    &&& single_line(s.memory.used_gb@)
    &&& single_line(s.memory.usage_percent@)
    &&& forall|i: int| 0 <= i < s.gpus@.len() ==> gpu_texts_single_line(#[trigger] s.gpus@[i])
    &&& forall|i: int|
        0 <= i < s.storage@.len() ==> storage_texts_single_line(#[trigger] s.storage@[i])
    &&& forall|i: int|
        0 <= i < s.network@.len() ==> network_texts_single_line(#[trigger] s.network@[i])
}

proof fn lemma_escape_tag_single_line(t: Seq<char>)
    requires
        single_line(t),
    ensures
        single_line(escape_tag(t)),
    decreases t.len(),
{
    if t.len() > 0 {
        assert(t[0] != '\n');
        assert(single_line(escape_tag_char(t[0])));
        assert forall|i: int| 0 <= i < t.drop_first().len() implies t.drop_first()[i] != '\n' by {
            assert(t.drop_first()[i] == t[i + 1]);
        }
        lemma_escape_tag_single_line(t.drop_first());
        lemma_concat_single_line(escape_tag_char(t[0]), escape_tag(t.drop_first()));
    }
}

proof fn lemma_kv_single_line(name: Seq<char>, value: Seq<char>)
    requires
        single_line(name),
        single_line(value),
    ensures
        single_line(kv(name, value)),
{
    reveal_strlit("=");
    lemma_concat_single_line(name, "="@);
    lemma_concat_single_line(name + "="@, value);
}

proof fn lemma_int_kv_single_line(name: Seq<char>, n: nat)
    requires
        single_line(name),
    ensures
        single_line(int_kv(name, n)),
{
    reveal_strlit("=");
    reveal_strlit("i");
    lemma_decimal_plain(n);
    lemma_concat_single_line(name, "="@);
    lemma_concat_single_line(name + "="@, decimal(n));
    lemma_concat_single_line(name + "="@ + decimal(n), "i"@);
}

proof fn lemma_opt_kv_single_line(name: Seq<char>, value: Option<String>)
    requires
        single_line(name),
        opt_single_line(value),
    ensures
        all_single_line(opt_kv(name, value)),
{
    if let Some(v) = value {
        lemma_kv_single_line(name, v@);
    }
}

proof fn lemma_opt_int_kv_single_line(name: Seq<char>, value: Option<u64>)
    requires
        single_line(name),
    ensures
        all_single_line(opt_int_kv(name, value)),
{
    if let Some(n) = value {
        lemma_int_kv_single_line(name, n as nat);
    }
}

/// A point whose parts hold no line feed is a plain line.
proof fn lemma_point_plain(series: Seq<char>, fields: Seq<Seq<char>>, ts: Seq<char>)
    requires
        single_line(series),
        all_single_line(fields),
        is_plain_line(ts),
    ensures
        is_plain_line(point(series, fields, ts)),
{
    reveal_strlit(" ");
    reveal_strlit(",");
    lemma_join_single_line(fields, ","@);
    lemma_concat_single_line(series, " "@);
    lemma_concat_single_line(series + " "@, join(fields, ","@));
    lemma_concat_single_line(series + " "@ + join(fields, ","@), " "@);
    let head = series + " "@ + join(fields, ","@) + " "@;
    lemma_concat_single_line(head, ts);
    assert((head + ts).last() == ts.last());
}

proof fn lemma_cpu_line_plain(host: Seq<char>, c: CpuSample, ts: Seq<char>)
    requires
        single_line(host),
        opt_single_line(c.usage_percent),
        opt_single_line(c.temperature_celsius),
        opt_single_line(c.power_watts),
        is_plain_line(ts),
    ensures
        is_plain_line(cpu_line(host, c, ts)),
{
    reveal_strlit("cpu,host=");
    reveal_strlit("cores");
    reveal_strlit("threads");
    reveal_strlit("usage_percent");
    reveal_strlit("temperature_celsius");
    reveal_strlit("power_watts");
    lemma_int_kv_single_line("cores"@, c.cores as nat);
    lemma_int_kv_single_line("threads"@, c.threads as nat);
    let first = seq![int_kv("cores"@, c.cores as nat), int_kv("threads"@, c.threads as nat)];
    assert(all_single_line(first));
    lemma_opt_kv_single_line("usage_percent"@, c.usage_percent);
    lemma_opt_kv_single_line("temperature_celsius"@, c.temperature_celsius);
    lemma_opt_kv_single_line("power_watts"@, c.power_watts);
    lemma_concat_all_single_line(first, opt_kv("usage_percent"@, c.usage_percent));
    lemma_concat_all_single_line(
        first + opt_kv("usage_percent"@, c.usage_percent),
        opt_kv("temperature_celsius"@, c.temperature_celsius),
    );
    lemma_concat_all_single_line(
        first + opt_kv("usage_percent"@, c.usage_percent) + opt_kv(
            "temperature_celsius"@,
            c.temperature_celsius,
        ),
        opt_kv("power_watts"@, c.power_watts),
    );
    lemma_concat_single_line("cpu,host="@, host);
    lemma_point_plain("cpu,host="@ + host, cpu_fields(c), ts);
}

proof fn lemma_memory_line_plain(host: Seq<char>, m: MemorySample, ts: Seq<char>)
    requires
        single_line(host),
        single_line(m.total_gb@),
        single_line(m.available_gb@),
        single_line(m.used_gb@),
        single_line(m.usage_percent@),
        is_plain_line(ts),
    ensures
        is_plain_line(memory_line(host, m, ts)),
{
    reveal_strlit("memory,host=");
    reveal_strlit("total_gb");
    reveal_strlit("available_gb");
    reveal_strlit("used_gb");
    reveal_strlit("usage_percent");
    lemma_kv_single_line("total_gb"@, m.total_gb@);
    lemma_kv_single_line("available_gb"@, m.available_gb@);
    lemma_kv_single_line("used_gb"@, m.used_gb@);
    lemma_kv_single_line("usage_percent"@, m.usage_percent@);
    assert(all_single_line(memory_fields(m)));
    lemma_concat_single_line("memory,host="@, host);
    lemma_point_plain("memory,host="@ + host, memory_fields(m), ts);
}

proof fn lemma_gpu_lines_plain(host: Seq<char>, gs: Seq<GpuSample>, ts: Seq<char>)
    requires
        single_line(host),
        forall|i: int| 0 <= i < gs.len() ==> gpu_texts_single_line(#[trigger] gs[i]),
        is_plain_line(ts),
    ensures
        forall|i: int|
            0 <= i < gpu_lines(host, gs, ts).len() ==> is_plain_line(
                #[trigger] gpu_lines(host, gs, ts)[i],
            ),
    decreases gs.len(),
{
    if gs.len() > 0 {
        let init = gs.drop_last();
        let g = gs.last();
        assert forall|i: int| 0 <= i < init.len() implies gpu_texts_single_line(
            #[trigger] init[i],
        ) by {
            assert(init[i] == gs[i]);
        }
        assert(gpu_texts_single_line(gs[gs.len() - 1]));
        lemma_gpu_lines_plain(host, init, ts);
        let before = gpu_lines(host, init, ts);
        if gpu_fields(g).len() > 0 {
            reveal_strlit("gpu,host=");
            reveal_strlit(",index=");
            reveal_strlit(",name=");
            reveal_strlit("vram_total_mb");
            reveal_strlit("vram_used_mb");
            reveal_strlit("usage_percent");
            reveal_strlit("temperature_celsius");
            reveal_strlit("power_watts");
            lemma_decimal_plain(g.index as nat);
            lemma_escape_tag_single_line(g.name@);
            lemma_concat_single_line("gpu,host="@, host);
            lemma_concat_single_line("gpu,host="@ + host, ",index="@);
            lemma_concat_single_line("gpu,host="@ + host + ",index="@, decimal(g.index as nat));
            lemma_concat_single_line(
                "gpu,host="@ + host + ",index="@ + decimal(g.index as nat),
                ",name="@,
            );
            lemma_concat_single_line(
                "gpu,host="@ + host + ",index="@ + decimal(g.index as nat) + ",name="@,
                escape_tag(g.name@),
            );
            let a = opt_int_kv("vram_total_mb"@, g.vram_total_mb);
            let b = opt_int_kv("vram_used_mb"@, g.vram_used_mb);
            let c = opt_kv("usage_percent"@, g.usage_percent);
            let d = opt_kv("temperature_celsius"@, g.temperature_celsius);
            let e = opt_kv("power_watts"@, g.power_watts);
            lemma_opt_int_kv_single_line("vram_total_mb"@, g.vram_total_mb);
            lemma_opt_int_kv_single_line("vram_used_mb"@, g.vram_used_mb);
            lemma_opt_kv_single_line("usage_percent"@, g.usage_percent);
            lemma_opt_kv_single_line("temperature_celsius"@, g.temperature_celsius);
            lemma_opt_kv_single_line("power_watts"@, g.power_watts);
            lemma_concat_all_single_line(a, b);
            lemma_concat_all_single_line(a + b, c);
            lemma_concat_all_single_line(a + b + c, d);
            lemma_concat_all_single_line(a + b + c + d, e);
            lemma_point_plain(gpu_series(host, g), gpu_fields(g), ts);
            let line = point(gpu_series(host, g), gpu_fields(g), ts);
            assert forall|i: int| 0 <= i < (before + seq![line]).len() implies is_plain_line(
                #[trigger] (before + seq![line])[i],
            ) by {
                if i < before.len() {
                    assert((before + seq![line])[i] == before[i]);
                }
            }
        } else {
            assert(gpu_lines(host, gs, ts) =~= before);
        }
    }
}

proof fn lemma_storage_lines_plain(host: Seq<char>, ss: Seq<StorageSample>, ts: Seq<char>)
    requires
        single_line(host),
        forall|i: int| 0 <= i < ss.len() ==> storage_texts_single_line(#[trigger] ss[i]),
        is_plain_line(ts),
    ensures
        forall|i: int|
            0 <= i < storage_lines(host, ss, ts).len() ==> is_plain_line(
                #[trigger] storage_lines(host, ss, ts)[i],
            ),
    decreases ss.len(),
{
    if ss.len() > 0 {
        let init = ss.drop_last();
        let v = ss.last();
        assert forall|i: int| 0 <= i < init.len() implies storage_texts_single_line(
            #[trigger] init[i],
        ) by {
            assert(init[i] == ss[i]);
        }
        assert(storage_texts_single_line(ss[ss.len() - 1]));
        lemma_storage_lines_plain(host, init, ts);
        let before = storage_lines(host, init, ts);
        reveal_strlit("storage,host=");
        reveal_strlit(",mount_point=");
        reveal_strlit(",drive_type=");
        reveal_strlit("total_gb");
        reveal_strlit("used_gb");
        reveal_strlit("available_gb");
        reveal_strlit("usage_percent");
        reveal_strlit("temperature_celsius");
        reveal_strlit("read_speed_mbps");
        reveal_strlit("write_speed_mbps");
        lemma_escape_tag_single_line(v.mount_point@);
        lemma_escape_tag_single_line(v.drive_type@);
        lemma_concat_single_line("storage,host="@, host);
        lemma_concat_single_line("storage,host="@ + host, ",mount_point="@);
        lemma_concat_single_line(
            "storage,host="@ + host + ",mount_point="@,
            escape_tag(v.mount_point@),
        );
        lemma_concat_single_line(
            "storage,host="@ + host + ",mount_point="@ + escape_tag(v.mount_point@),
            ",drive_type="@,
        );
        lemma_concat_single_line(
            "storage,host="@ + host + ",mount_point="@ + escape_tag(v.mount_point@)
                + ",drive_type="@,
            escape_tag(v.drive_type@),
        );
        lemma_kv_single_line("total_gb"@, v.total_gb@);
        lemma_kv_single_line("used_gb"@, v.used_gb@);
        lemma_kv_single_line("available_gb"@, v.available_gb@);
        lemma_kv_single_line("usage_percent"@, v.usage_percent@);
        let a = seq![
            kv("total_gb"@, v.total_gb@),
            kv("used_gb"@, v.used_gb@),
            kv("available_gb"@, v.available_gb@),
            kv("usage_percent"@, v.usage_percent@),
        ];
        assert(all_single_line(a));
        let b = opt_kv("temperature_celsius"@, v.temperature_celsius);
        let c = opt_kv("read_speed_mbps"@, v.read_speed_mbps);
        let d = opt_kv("write_speed_mbps"@, v.write_speed_mbps);
        lemma_opt_kv_single_line("temperature_celsius"@, v.temperature_celsius);
        lemma_opt_kv_single_line("read_speed_mbps"@, v.read_speed_mbps);
        lemma_opt_kv_single_line("write_speed_mbps"@, v.write_speed_mbps);
        lemma_concat_all_single_line(a, b);
        lemma_concat_all_single_line(a + b, c);
        lemma_concat_all_single_line(a + b + c, d);
        lemma_point_plain(storage_series(host, v), storage_fields(v), ts);
        let line = point(storage_series(host, v), storage_fields(v), ts);
        assert forall|i: int| 0 <= i < (before + seq![line]).len() implies is_plain_line(
            #[trigger] (before + seq![line])[i],
        ) by {
            if i < before.len() {
                assert((before + seq![line])[i] == before[i]);
            }
        }
    }
}

proof fn lemma_network_lines_plain(host: Seq<char>, ns: Seq<NetworkSample>, ts: Seq<char>)
    requires
        single_line(host),
        forall|i: int| 0 <= i < ns.len() ==> network_texts_single_line(#[trigger] ns[i]),
        is_plain_line(ts),
    ensures
        forall|i: int|
            0 <= i < network_lines(host, ns, ts).len() ==> is_plain_line(
                #[trigger] network_lines(host, ns, ts)[i],
            ),
    decreases ns.len(),
{
    if ns.len() > 0 {
        let init = ns.drop_last();
        let n = ns.last();
        assert forall|i: int| 0 <= i < init.len() implies network_texts_single_line(
            #[trigger] init[i],
        ) by {
            assert(init[i] == ns[i]);
        }
        assert(network_texts_single_line(ns[ns.len() - 1]));
        lemma_network_lines_plain(host, init, ts);
        let before = network_lines(host, init, ts);
        reveal_strlit("network,host=");
        reveal_strlit(",interface=");
        reveal_strlit(",status=");
        reveal_strlit("bytes_sent");
        reveal_strlit("bytes_received");
        reveal_strlit("send_rate_mbps");
        reveal_strlit("receive_rate_mbps");
        lemma_escape_tag_single_line(n.name@);
        lemma_escape_tag_single_line(n.status@);
        lemma_concat_single_line("network,host="@, host);
        lemma_concat_single_line("network,host="@ + host, ",interface="@);
        lemma_concat_single_line("network,host="@ + host + ",interface="@, escape_tag(n.name@));
        lemma_concat_single_line(
            "network,host="@ + host + ",interface="@ + escape_tag(n.name@),
            ",status="@,
        );
        lemma_concat_single_line(
            "network,host="@ + host + ",interface="@ + escape_tag(n.name@) + ",status="@,
            escape_tag(n.status@),
        );
        lemma_int_kv_single_line("bytes_sent"@, n.bytes_sent as nat);
        lemma_int_kv_single_line("bytes_received"@, n.bytes_received as nat);
        let a = seq![
            int_kv("bytes_sent"@, n.bytes_sent as nat),
            int_kv("bytes_received"@, n.bytes_received as nat),
        ];
        assert(all_single_line(a));
        let b = opt_kv("send_rate_mbps"@, n.send_rate_mbps);
        let c = opt_kv("receive_rate_mbps"@, n.receive_rate_mbps);
        lemma_opt_kv_single_line("send_rate_mbps"@, n.send_rate_mbps);
        lemma_opt_kv_single_line("receive_rate_mbps"@, n.receive_rate_mbps);
        lemma_concat_all_single_line(a, b);
        lemma_concat_all_single_line(a + b, c);
        lemma_point_plain(network_series(host, n), network_fields(n), ts);
        let line = point(network_series(host, n), network_fields(n), ts);
        assert forall|i: int| 0 <= i < (before + seq![line]).len() implies is_plain_line(
            #[trigger] (before + seq![line])[i],
        ) by {
            if i < before.len() {
                assert((before + seq![line])[i] == before[i]);
            }
        }
    }
}

/// Every point of a snapshot stands on a line of its own: when no text of
/// the snapshot holds a line feed, splitting the encoded text at line ends
/// gives back exactly the snapshot's lines, in order.
pub proof fn lemma_snapshot_lines_split(s: SnapshotSample)
    requires
        snapshot_texts_single_line(s),
    ensures
        lines(line_protocol(s)) == snapshot_lines(s),
{
    let host = escape_tag(s.hostname@);
    let ts = signed_decimal(s.timestamp_ms as int);
    lemma_escape_tag_single_line(s.hostname@);
    lemma_signed_decimal_plain(s.timestamp_ms as int);
    lemma_cpu_line_plain(host, s.cpu, ts);
    lemma_memory_line_plain(host, s.memory, ts);
    lemma_gpu_lines_plain(host, s.gpus@, ts);
    lemma_storage_lines_plain(host, s.storage@, ts);
    lemma_network_lines_plain(host, s.network@, ts);
    let a = seq![cpu_line(host, s.cpu, ts), memory_line(host, s.memory, ts)];
    let g = gpu_lines(host, s.gpus@, ts);
    let st = storage_lines(host, s.storage@, ts);
    let nw = network_lines(host, s.network@, ts);
    let all = a + g + st + nw;
    assert(all == snapshot_lines(s));
    assert forall|i: int| 0 <= i < all.len() implies is_plain_line(#[trigger] all[i]) by {
        if i < a.len() {
            assert(all[i] == a[i]);
        } else if i < a.len() + g.len() {
            assert(all[i] == g[i - a.len()]);
        } else if i < a.len() + g.len() + st.len() {
            assert(all[i] == st[i - a.len() - g.len()]);
        } else {
            assert(all[i] == nw[i - a.len() - g.len() - st.len()]);
        }
    }
    lemma_lines_of_join(all);
}

/// Regrouping a field after a separator: `acc`, the separator, then
/// `name=value`, is `acc`, the joined literal, then the value.
proof fn lemma_regroup_field(
    acc: Seq<char>,
    sep: Seq<char>,
    name: Seq<char>,
    value: Seq<char>,
    joined: Seq<char>,
)
    requires
        joined == sep + name + "="@,
    ensures
        acc + sep + kv(name, value) == acc + joined + value,
{
    assert(acc + sep + kv(name, value) =~= acc + joined + value);
}

/// A list of four joined by a separator.
proof fn lemma_join_four(f: Seq<Seq<char>>, sep: Seq<char>)
    requires
        f.len() == 4,
    ensures
        join(f, sep) == f[0] + sep + f[1] + sep + f[2] + sep + f[3],
{
    let f3 = f.drop_last();
    let f2 = f3.drop_last();
    let f1 = f2.drop_last();
    assert(f1.len() == 1 && f1[0] == f[0]);
    assert(f2.last() == f[1] && f3.last() == f[2] && f.last() == f[3]);
    assert(f2.len() == 2 && f3.len() == 3);
    assert(join(f1, sep) == f[0]);
    assert(join(f2, sep) == join(f1, sep) + sep + f2.last());
    assert(join(f2, sep) == f[0] + sep + f[1]);
    assert(join(f3, sep) == join(f2, sep) + sep + f3.last());
    assert(join(f3, sep) == f[0] + sep + f[1] + sep + f[2]);
    assert(join(f, sep) == join(f3, sep) + sep + f.last());
}

/// The memory line, second of every snapshot, names each field after the
/// snapshot member it carries: total, available and used memory and the
/// usage percentage, in that order, after the measurement and escaped host
/// tag and before the timestamp.
pub proof fn lemma_memory_line_fields(s: SnapshotSample)
    ensures
        snapshot_lines(s)[1] == "memory,host="@ + escape_tag(s.hostname@) + " total_gb="@
            + s.memory.total_gb@ + ",available_gb="@ + s.memory.available_gb@ + ",used_gb="@
            + s.memory.used_gb@ + ",usage_percent="@ + s.memory.usage_percent@ + " "@
            + signed_decimal(s.timestamp_ms as int),
        snapshot_texts_single_line(s) ==> lines(line_protocol(s))[1] == snapshot_lines(s)[1],
{
    let m = s.memory;
    let f = memory_fields(m);
    let host = escape_tag(s.hostname@);
    let ts = signed_decimal(s.timestamp_ms as int);
    let acc0 = "memory,host="@ + host;
    lemma_join_four(f, ","@);
    let line = snapshot_lines(s)[1];
    assert(line == acc0 + " "@ + join(f, ","@) + " "@ + ts);
    assert(line =~= acc0 + " "@ + f[0] + ","@ + f[1] + ","@ + f[2] + ","@ + f[3] + " "@ + ts);
    assert(" total_gb="@ == " "@ + "total_gb"@ + "="@) by {
        reveal_strlit(" total_gb=");
        reveal_strlit(" ");
        reveal_strlit("total_gb");
        reveal_strlit("=");
        assert(" total_gb="@ =~= " "@ + "total_gb"@ + "="@);
    }
    assert(",available_gb="@ == ","@ + "available_gb"@ + "="@) by {
        reveal_strlit(",available_gb=");
        reveal_strlit(",");
        reveal_strlit("available_gb");
        reveal_strlit("=");
        assert(",available_gb="@ =~= ","@ + "available_gb"@ + "="@);
    }
    assert(",used_gb="@ == ","@ + "used_gb"@ + "="@) by {
        reveal_strlit(",used_gb=");
        reveal_strlit(",");
        reveal_strlit("used_gb");
        reveal_strlit("=");
        assert(",used_gb="@ =~= ","@ + "used_gb"@ + "="@);
    }
    assert(",usage_percent="@ == ","@ + "usage_percent"@ + "="@) by {
        reveal_strlit(",usage_percent=");
        reveal_strlit(",");
        reveal_strlit("usage_percent");
        reveal_strlit("=");
        assert(",usage_percent="@ =~= ","@ + "usage_percent"@ + "="@);
    }
    lemma_regroup_field(acc0, " "@, "total_gb"@, m.total_gb@, " total_gb="@);
    let acc1 = acc0 + " total_gb="@ + m.total_gb@;
    lemma_regroup_field(acc1, ","@, "available_gb"@, m.available_gb@, ",available_gb="@);
    let acc2 = acc1 + ",available_gb="@ + m.available_gb@;
    lemma_regroup_field(acc2, ","@, "used_gb"@, m.used_gb@, ",used_gb="@);
    let acc3 = acc2 + ",used_gb="@ + m.used_gb@;
    lemma_regroup_field(acc3, ","@, "usage_percent"@, m.usage_percent@, ",usage_percent="@);
    if snapshot_texts_single_line(s) {
        lemma_snapshot_lines_split(s);
    }
}

/// `prefix` and the value when the value is present; nothing otherwise.
pub open spec fn opt_field_text(prefix: Seq<char>, value: Option<String>) -> Seq<char> {
    match value {
        Some(v) => prefix + v@,
        None => seq![],
    }
}

/// `prefix`, the integer and `i` when the value is present; nothing otherwise.
pub open spec fn opt_int_field_text(prefix: Seq<char>, value: Option<u64>) -> Seq<char> {
    match value {
        Some(n) => prefix + decimal(n as nat) + "i"@,
        None => seq![],
    }
}

proof fn lemma_join_push(a: Seq<Seq<char>>, x: Seq<char>, sep: Seq<char>)
    requires
        a.len() > 0,
    ensures
        join(a.push(x), sep) == join(a, sep) + sep + x,
{
    assert(a.push(x).drop_last() =~= a);
}

/// Joining a list followed by an optional field adds the field after a comma.
proof fn lemma_join_opt(a: Seq<Seq<char>>, name: Seq<char>, value: Option<String>, prefix: Seq<char>)
    requires
        a.len() > 0,
        prefix == ","@ + name + "="@,
    ensures
        join(a + opt_kv(name, value), ","@) == join(a, ","@) + opt_field_text(prefix, value),
        (a + opt_kv(name, value)).len() > 0,
{
    match value {
        Some(v) => {
            assert(a + opt_kv(name, value) =~= a.push(kv(name, v@)));
            lemma_join_push(a, kv(name, v@), ","@);
            assert(join(a, ","@) + ","@ + kv(name, v@) =~= join(a, ","@) + (prefix + v@));
        },
        None => {
            assert(a + opt_kv(name, value) =~= a);
            assert(join(a, ","@) + opt_field_text(prefix, value) =~= join(a, ","@));
        },
    }
}

/// Joining a list followed by an optional integer field adds it after a comma.
proof fn lemma_join_opt_int(a: Seq<Seq<char>>, name: Seq<char>, value: Option<u64>, prefix: Seq<char>)
    requires
        a.len() > 0,
        prefix == ","@ + name + "="@,
    ensures
        join(a + opt_int_kv(name, value), ","@) == join(a, ","@) + opt_int_field_text(prefix, value),
        (a + opt_int_kv(name, value)).len() > 0,
{
    match value {
        Some(n) => {
            assert(a + opt_int_kv(name, value) =~= a.push(int_kv(name, n as nat)));
            lemma_join_push(a, int_kv(name, n as nat), ","@);
            assert(join(a, ","@) + ","@ + int_kv(name, n as nat) =~= join(a, ","@) + (prefix
                + decimal(n as nat) + "i"@));
        },
        None => {
            assert(a + opt_int_kv(name, value) =~= a);
            assert(join(a, ","@) + opt_int_field_text(prefix, value) =~= join(a, ","@));
        },
    }
}

/// `a == b + c + d` for literals, by their characters.
proof fn lemma_lit3(a: Seq<char>, b: Seq<char>, c: Seq<char>, d: Seq<char>)
    requires
        a =~= b + c + d,
    ensures
        a == b + c + d,
{
}

proof fn lemma_cpu_literals()
    ensures
        ",usage_percent="@ == ","@ + "usage_percent"@ + "="@,
        ",temperature_celsius="@ == ","@ + "temperature_celsius"@ + "="@,
        ",power_watts="@ == ","@ + "power_watts"@ + "="@,
        " cores="@ == " "@ + "cores"@ + "="@,
        "i,threads="@ == "i"@ + ","@ + "threads"@ + "="@,
{
    reveal_strlit(",usage_percent=");
    reveal_strlit(",temperature_celsius=");
    reveal_strlit(",power_watts=");
    reveal_strlit(" cores=");
    reveal_strlit("i,threads=");
    reveal_strlit(",");
    reveal_strlit(" ");
    reveal_strlit("i");
    reveal_strlit("=");
    reveal_strlit("usage_percent");
    reveal_strlit("temperature_celsius");
    reveal_strlit("power_watts");
    reveal_strlit("cores");
    reveal_strlit("threads");
    assert(",usage_percent="@ =~= ","@ + "usage_percent"@ + "="@);
    assert(",temperature_celsius="@ =~= ","@ + "temperature_celsius"@ + "="@);
    assert(",power_watts="@ =~= ","@ + "power_watts"@ + "="@);
    assert(" cores="@ =~= " "@ + "cores"@ + "="@);
    assert("i,threads="@ =~= "i"@ + ","@ + "threads"@ + "="@);
}

/// Regrouping the two integer fields that open a line.
proof fn lemma_two_int_fields(
    head: Seq<char>,
    sp: Seq<char>,
    n1: Seq<char>,
    eq: Seq<char>,
    d1: Seq<char>,
    i: Seq<char>,
    comma: Seq<char>,
    n2: Seq<char>,
    d2: Seq<char>,
    rest: Seq<char>,
    lit1: Seq<char>,
    lit2: Seq<char>,
)
    requires
        lit1 == sp + n1 + eq,
        lit2 == i + comma + n2 + eq,
    ensures
        head + sp + ((n1 + eq + d1 + i) + comma + (n2 + eq + d2 + i) + rest) == head + lit1 + d1
            + lit2 + d2 + i + rest,
{
    assert(head + sp + ((n1 + eq + d1 + i) + comma + (n2 + eq + d2 + i) + rest) =~= head + lit1
        + d1 + lit2 + d2 + i + rest);
}

/// The fields of a CPU line, joined.
proof fn lemma_cpu_fields_text(c: CpuSample)
    ensures
        join(cpu_fields(c), ","@) == int_kv("cores"@, c.cores as nat) + ","@ + int_kv(
            "threads"@,
            c.threads as nat,
        ) + opt_field_text(",usage_percent="@, c.usage_percent) + opt_field_text(
            ",temperature_celsius="@,
            c.temperature_celsius,
        ) + opt_field_text(",power_watts="@, c.power_watts),
{
    let kc = int_kv("cores"@, c.cores as nat);
    let kt = int_kv("threads"@, c.threads as nat);
    let a = seq![kc, kt];
    assert(seq![kc].push(kt) =~= a);
    lemma_join_push(seq![kc], kt, ","@);
    lemma_cpu_literals();
    let o1 = opt_kv("usage_percent"@, c.usage_percent);
    let o2 = opt_kv("temperature_celsius"@, c.temperature_celsius);
    lemma_join_opt(a, "usage_percent"@, c.usage_percent, ",usage_percent="@);
    lemma_join_opt(a + o1, "temperature_celsius"@, c.temperature_celsius, ",temperature_celsius="@);
    lemma_join_opt(a + o1 + o2, "power_watts"@, c.power_watts, ",power_watts="@);
}

/// The CPU line carries the core and thread counts as integers and then each
/// measured value that is present, each under its own name.
pub proof fn lemma_cpu_line_text(host: Seq<char>, c: CpuSample, ts: Seq<char>)
    ensures
        cpu_line(host, c, ts) == "cpu,host="@ + host + " cores="@ + decimal(c.cores as nat)
            + "i,threads="@ + decimal(c.threads as nat) + "i"@ + (opt_field_text(
            ",usage_percent="@,
            c.usage_percent,
        ) + opt_field_text(",temperature_celsius="@, c.temperature_celsius) + opt_field_text(
            ",power_watts="@,
            c.power_watts,
        ) + " "@ + ts),
{
    lemma_cpu_fields_text(c);
    lemma_cpu_literals();
    let kc = int_kv("cores"@, c.cores as nat);
    let kt = int_kv("threads"@, c.threads as nat);
    let t1 = opt_field_text(",usage_percent="@, c.usage_percent);
    let t2 = opt_field_text(",temperature_celsius="@, c.temperature_celsius);
    let t3 = opt_field_text(",power_watts="@, c.power_watts);
    let j = join(cpu_fields(c), ","@);
    let rest = t1 + t2 + t3 + " "@ + ts;
    let head = "cpu,host="@ + host;
    assert(cpu_line(host, c, ts) == head + " "@ + j + " "@ + ts);
    assert(head + " "@ + j + " "@ + ts =~= head + " "@ + (kc + ","@ + kt + rest));
    lemma_two_int_fields(
        head,
        " "@,
        "cores"@,
        "="@,
        decimal(c.cores as nat),
        "i"@,
        ","@,
        "threads"@,
        decimal(c.threads as nat),
        rest,
        " cores="@,
        "i,threads="@,
    );
}

/// The CPU line, first of every snapshot, carries the core and thread counts
/// as integers and then each measured value that is present, each under its
/// own name.
pub proof fn lemma_cpu_line_fields(s: SnapshotSample)
    ensures
        snapshot_lines(s)[0] == "cpu,host="@ + escape_tag(s.hostname@) + " cores="@ + decimal(
            s.cpu.cores as nat,
        ) + "i,threads="@ + decimal(s.cpu.threads as nat) + "i"@ + (opt_field_text(
            ",usage_percent="@,
            s.cpu.usage_percent,
        ) + opt_field_text(",temperature_celsius="@, s.cpu.temperature_celsius)
            + opt_field_text(",power_watts="@, s.cpu.power_watts) + " "@ + signed_decimal(
            s.timestamp_ms as int,
        )),
        snapshot_texts_single_line(s) ==> lines(line_protocol(s))[0] == snapshot_lines(s)[0],
{
    lemma_cpu_line_text(escape_tag(s.hostname@), s.cpu, signed_decimal(s.timestamp_ms as int));
    if snapshot_texts_single_line(s) {
        lemma_snapshot_lines_split(s);
    }
}

proof fn lemma_storage_literals()
    ensures
        " total_gb="@ == " "@ + "total_gb"@ + "="@,
        ",used_gb="@ == ","@ + "used_gb"@ + "="@,
        ",available_gb="@ == ","@ + "available_gb"@ + "="@,
        ",usage_percent="@ == ","@ + "usage_percent"@ + "="@,
        ",temperature_celsius="@ == ","@ + "temperature_celsius"@ + "="@,
        ",read_speed_mbps="@ == ","@ + "read_speed_mbps"@ + "="@,
        ",write_speed_mbps="@ == ","@ + "write_speed_mbps"@ + "="@,
{
    reveal_strlit(" total_gb=");
    reveal_strlit(",used_gb=");
    reveal_strlit(",available_gb=");
    reveal_strlit(",usage_percent=");
    reveal_strlit(",temperature_celsius=");
    reveal_strlit(",read_speed_mbps=");
    reveal_strlit(",write_speed_mbps=");
    reveal_strlit(",");
    reveal_strlit(" ");
    reveal_strlit("=");
    reveal_strlit("total_gb");
    reveal_strlit("used_gb");
    reveal_strlit("available_gb");
    reveal_strlit("usage_percent");
    reveal_strlit("temperature_celsius");
    reveal_strlit("read_speed_mbps");
    reveal_strlit("write_speed_mbps");
    assert(" total_gb="@ =~= " "@ + "total_gb"@ + "="@);
    assert(",used_gb="@ =~= ","@ + "used_gb"@ + "="@);
    assert(",available_gb="@ =~= ","@ + "available_gb"@ + "="@);
    assert(",usage_percent="@ =~= ","@ + "usage_percent"@ + "="@);
    assert(",temperature_celsius="@ =~= ","@ + "temperature_celsius"@ + "="@);
    assert(",read_speed_mbps="@ =~= ","@ + "read_speed_mbps"@ + "="@);
    assert(",write_speed_mbps="@ =~= ","@ + "write_speed_mbps"@ + "="@);
}

/// Four `name=value` fields joined by commas after a space, regrouped with
/// the literal before each value.
proof fn lemma_four_fields(
    n0: Seq<char>,
    v0: Seq<char>,
    l0: Seq<char>,
    n1: Seq<char>,
    v1: Seq<char>,
    l1: Seq<char>,
    n2: Seq<char>,
    v2: Seq<char>,
    l2: Seq<char>,
    n3: Seq<char>,
    v3: Seq<char>,
    l3: Seq<char>,
)
    requires
        l0 == " "@ + n0 + "="@,
        l1 == ","@ + n1 + "="@,
        l2 == ","@ + n2 + "="@,
        l3 == ","@ + n3 + "="@,
    ensures
        " "@ + (kv(n0, v0) + ","@ + kv(n1, v1) + ","@ + kv(n2, v2) + ","@ + kv(n3, v3)) == l0 + v0
            + l1 + v1 + l2 + v2 + l3 + v3,
{
    assert(" "@ + (kv(n0, v0) + ","@ + kv(n1, v1) + ","@ + kv(n2, v2) + ","@ + kv(n3, v3))
        =~= l0 + v0 + l1 + v1 + l2 + v2 + l3 + v3);
}

/// The fields of a storage line, joined.
proof fn lemma_storage_fields_text(v: StorageSample)
    ensures
        " "@ + join(storage_fields(v), ","@) == " total_gb="@ + v.total_gb@ + ",used_gb="@
            + v.used_gb@ + ",available_gb="@ + v.available_gb@ + ",usage_percent="@
            + v.usage_percent@ + opt_field_text(",temperature_celsius="@, v.temperature_celsius)
            + opt_field_text(",read_speed_mbps="@, v.read_speed_mbps) + opt_field_text(
            ",write_speed_mbps="@,
            v.write_speed_mbps,
        ),
{
    lemma_storage_literals();
    let a = seq![
        kv("total_gb"@, v.total_gb@),
        kv("used_gb"@, v.used_gb@),
        kv("available_gb"@, v.available_gb@),
        kv("usage_percent"@, v.usage_percent@),
    ];
    lemma_join_four(a, ","@);
    let o1 = opt_kv("temperature_celsius"@, v.temperature_celsius);
    let o2 = opt_kv("read_speed_mbps"@, v.read_speed_mbps);
    lemma_join_opt(a, "temperature_celsius"@, v.temperature_celsius, ",temperature_celsius="@);
    lemma_join_opt(a + o1, "read_speed_mbps"@, v.read_speed_mbps, ",read_speed_mbps="@);
    lemma_join_opt(a + o1 + o2, "write_speed_mbps"@, v.write_speed_mbps, ",write_speed_mbps="@);
    let t1 = opt_field_text(",temperature_celsius="@, v.temperature_celsius);
    let t2 = opt_field_text(",read_speed_mbps="@, v.read_speed_mbps);
    let t3 = opt_field_text(",write_speed_mbps="@, v.write_speed_mbps);
    let j4 = join(a, ","@);
    assert(join(storage_fields(v), ","@) == j4 + t1 + t2 + t3);
    lemma_four_fields(
        "total_gb"@,
        v.total_gb@,
        " total_gb="@,
        "used_gb"@,
        v.used_gb@,
        ",used_gb="@,
        "available_gb"@,
        v.available_gb@,
        ",available_gb="@,
        "usage_percent"@,
        v.usage_percent@,
        ",usage_percent="@,
    );
    assert(" "@ + (j4 + t1 + t2 + t3) =~= " "@ + j4 + t1 + t2 + t3);
}

/// A storage line: the measurement, the escaped host, mount point and drive
/// type tags, then total, used and available space and the usage
/// percentage, then each present temperature and speed under its own name.
pub proof fn lemma_storage_line_text(host: Seq<char>, v: StorageSample, ts: Seq<char>)
    ensures
        point(storage_series(host, v), storage_fields(v), ts) == "storage,host="@ + host
            + ",mount_point="@ + escape_tag(v.mount_point@) + ",drive_type="@ + escape_tag(
            v.drive_type@,
        ) + (" total_gb="@ + v.total_gb@ + ",used_gb="@ + v.used_gb@ + ",available_gb="@
            + v.available_gb@ + ",usage_percent="@ + v.usage_percent@ + opt_field_text(
            ",temperature_celsius="@,
            v.temperature_celsius,
        ) + opt_field_text(",read_speed_mbps="@, v.read_speed_mbps) + opt_field_text(
            ",write_speed_mbps="@,
            v.write_speed_mbps,
        )) + " "@ + ts,
{
    lemma_storage_fields_text(v);
    let series = storage_series(host, v);
    let j = join(storage_fields(v), ","@);
    assert(series + " "@ + j + " "@ + ts =~= series + (" "@ + j) + " "@ + ts);
}

proof fn lemma_network_literals()
    ensures
        " bytes_sent="@ == " "@ + "bytes_sent"@ + "="@,
        "i,bytes_received="@ == "i"@ + ","@ + "bytes_received"@ + "="@,
        ",send_rate_mbps="@ == ","@ + "send_rate_mbps"@ + "="@,
        ",receive_rate_mbps="@ == ","@ + "receive_rate_mbps"@ + "="@,
{
    reveal_strlit(" bytes_sent=");
    reveal_strlit("i,bytes_received=");
    reveal_strlit(",send_rate_mbps=");
    reveal_strlit(",receive_rate_mbps=");
    reveal_strlit(",");
    reveal_strlit(" ");
    reveal_strlit("i");
    reveal_strlit("=");
    reveal_strlit("bytes_sent");
    reveal_strlit("bytes_received");
    reveal_strlit("send_rate_mbps");
    reveal_strlit("receive_rate_mbps");
    assert(" bytes_sent="@ =~= " "@ + "bytes_sent"@ + "="@);
    assert("i,bytes_received="@ =~= "i"@ + ","@ + "bytes_received"@ + "="@);
    assert(",send_rate_mbps="@ =~= ","@ + "send_rate_mbps"@ + "="@);
    assert(",receive_rate_mbps="@ =~= ","@ + "receive_rate_mbps"@ + "="@);
}

/// A network line: the measurement, the escaped host, interface and status
/// tags, then the sent and received byte counts as integers, then each
/// present rate under its own name.
pub proof fn lemma_network_line_text(host: Seq<char>, n: NetworkSample, ts: Seq<char>)
    ensures
        point(network_series(host, n), network_fields(n), ts) == "network,host="@ + host
            + ",interface="@ + escape_tag(n.name@) + ",status="@ + escape_tag(n.status@)
            + " bytes_sent="@ + decimal(n.bytes_sent as nat) + "i,bytes_received="@ + decimal(
            n.bytes_received as nat,
        ) + "i"@ + (opt_field_text(",send_rate_mbps="@, n.send_rate_mbps) + opt_field_text(
            ",receive_rate_mbps="@,
            n.receive_rate_mbps,
        ) + " "@ + ts),
{
    lemma_network_literals();
    let ks = int_kv("bytes_sent"@, n.bytes_sent as nat);
    let kr = int_kv("bytes_received"@, n.bytes_received as nat);
    let a = seq![ks, kr];
    assert(seq![ks].push(kr) =~= a);
    lemma_join_push(seq![ks], kr, ","@);
    let o1 = opt_kv("send_rate_mbps"@, n.send_rate_mbps);
    lemma_join_opt(a, "send_rate_mbps"@, n.send_rate_mbps, ",send_rate_mbps="@);
    lemma_join_opt(a + o1, "receive_rate_mbps"@, n.receive_rate_mbps, ",receive_rate_mbps="@);
    let t1 = opt_field_text(",send_rate_mbps="@, n.send_rate_mbps);
    let t2 = opt_field_text(",receive_rate_mbps="@, n.receive_rate_mbps);
    let j = join(network_fields(n), ","@);
    assert(j == ks + ","@ + kr + t1 + t2);
    let rest = t1 + t2 + " "@ + ts;
    let head = network_series(host, n);
    assert(head + " "@ + j + " "@ + ts =~= head + " "@ + (ks + ","@ + kr + rest));
    lemma_two_int_fields(
        head,
        " "@,
        "bytes_sent"@,
        "="@,
        decimal(n.bytes_sent as nat),
        "i"@,
        ","@,
        "bytes_received"@,
        decimal(n.bytes_received as nat),
        rest,
        " bytes_sent="@,
        "i,bytes_received="@,
    );
}

/// The storage lines come one per volume, in the order of the volumes.
proof fn lemma_storage_lines_at(host: Seq<char>, ss: Seq<StorageSample>, ts: Seq<char>)
    ensures
        storage_lines(host, ss, ts).len() == ss.len(),
        forall|k: int|
            0 <= k < ss.len() ==> #[trigger] storage_lines(host, ss, ts)[k] == point(
                storage_series(host, ss[k]),
                storage_fields(ss[k]),
                ts,
            ),
    decreases ss.len(),
{
    if ss.len() > 0 {
        let init = ss.drop_last();
        lemma_storage_lines_at(host, init, ts);
        assert forall|k: int| 0 <= k < ss.len() implies #[trigger] storage_lines(host, ss, ts)[k]
            == point(storage_series(host, ss[k]), storage_fields(ss[k]), ts) by {
            if k < init.len() {
                assert(init[k] == ss[k]);
                assert(storage_lines(host, ss, ts)[k] == storage_lines(host, init, ts)[k]);
            }
        }
    }
}

/// The network lines come one per interface, in the order of the interfaces.
proof fn lemma_network_lines_at(host: Seq<char>, ns: Seq<NetworkSample>, ts: Seq<char>)
    ensures
        network_lines(host, ns, ts).len() == ns.len(),
        forall|k: int|
            0 <= k < ns.len() ==> #[trigger] network_lines(host, ns, ts)[k] == point(
                network_series(host, ns[k]),
                network_fields(ns[k]),
                ts,
            ),
    decreases ns.len(),
{
    if ns.len() > 0 {
        let init = ns.drop_last();
        lemma_network_lines_at(host, init, ts);
        assert forall|k: int| 0 <= k < ns.len() implies #[trigger] network_lines(host, ns, ts)[k]
            == point(network_series(host, ns[k]), network_fields(ns[k]), ts) by {
            if k < init.len() {
                assert(init[k] == ns[k]);
                assert(network_lines(host, ns, ts)[k] == network_lines(host, init, ts)[k]);
            }
        }
    }
}

/// In a snapshot, the lines of the volumes follow the CPU, memory and GPU
/// lines in the order of the volumes, and the lines of the interfaces
/// follow them in the order of the interfaces; each is the line of its own
/// volume or interface.
pub proof fn lemma_snapshot_storage_and_network_lines(s: SnapshotSample)
    ensures
        ({
            let host = escape_tag(s.hostname@);
            let ts = signed_decimal(s.timestamp_ms as int);
            let g = 2 + gpus_with_fields(s.gpus@);
            &&& forall|k: int|
                0 <= k < s.storage@.len() ==> #[trigger] snapshot_lines(s)[g + k] == point(
                    storage_series(host, s.storage@[k]),
                    storage_fields(s.storage@[k]),
                    ts,
                )
            &&& forall|k: int|
                0 <= k < s.network@.len() ==> #[trigger] snapshot_lines(s)[g + s.storage@.len()
                    + k] == point(network_series(host, s.network@[k]), network_fields(s.network@[k]), ts)
        }),
{
    let host = escape_tag(s.hostname@);
    let ts = signed_decimal(s.timestamp_ms as int);
    lemma_gpu_line_count(host, s.gpus@, ts);
    lemma_storage_lines_at(host, s.storage@, ts);
    lemma_network_lines_at(host, s.network@, ts);
    let a = seq![cpu_line(host, s.cpu, ts), memory_line(host, s.memory, ts)];
    let gl = gpu_lines(host, s.gpus@, ts);
    let st = storage_lines(host, s.storage@, ts);
    let nw = network_lines(host, s.network@, ts);
    let g = 2 + gpus_with_fields(s.gpus@);
    assert(snapshot_lines(s) == a + gl + st + nw);
    assert forall|k: int| 0 <= k < s.storage@.len() implies #[trigger] snapshot_lines(s)[g + k]
        == point(storage_series(host, s.storage@[k]), storage_fields(s.storage@[k]), ts) by {
        assert((a + gl + st + nw)[g + k] == st[k]);
    }
    assert forall|k: int| 0 <= k < s.network@.len() implies #[trigger] snapshot_lines(s)[g
        + s.storage@.len() + k] == point(network_series(host, s.network@[k]), network_fields(s.network@[k]), ts) by {
        assert((a + gl + st + nw)[g + s.storage@.len() + k] == nw[k]);
    }
}

/// The text of optional fields written one after another, each with a
/// comma in front: the joined fields are this text without its first comma.
pub open spec fn fields_text_matches(a: Seq<Seq<char>>, t: Seq<char>) -> bool {
    &&& (a.len() == 0 <==> t.len() == 0)
    &&& (a.len() > 0 ==> join(a, ","@) == t.drop_first())
}

/// Adding a field (or none) keeps the joined fields in step with the text.
proof fn lemma_fields_text_step(a: Seq<Seq<char>>, t: Seq<char>, p: Seq<Seq<char>>, pt: Seq<char>)
    requires
        fields_text_matches(a, t),
        (p.len() == 0 && pt.len() == 0) || (p.len() == 1 && pt == ","@ + p[0]),
    ensures
        fields_text_matches(a + p, t + pt),
{
    reveal_strlit(",");
    if p.len() == 0 {
        assert(a + p =~= a);
        assert(t + pt =~= t);
    } else {
        assert(a + p =~= a.push(p[0]));
        if a.len() == 0 {
            assert(a.push(p[0]) =~= seq![p[0]]);
            assert(t =~= Seq::<char>::empty());
            assert((t + pt).drop_first() =~= p[0]);
        } else {
            lemma_join_push(a, p[0], ","@);
            assert((t + pt).drop_first() =~= t.drop_first() + ","@ + p[0]);
        }
    }
}

proof fn lemma_gpu_literals()
    ensures
        ",vram_total_mb="@ == ","@ + "vram_total_mb"@ + "="@,
        ",vram_used_mb="@ == ","@ + "vram_used_mb"@ + "="@,
        ",usage_percent="@ == ","@ + "usage_percent"@ + "="@,
        ",temperature_celsius="@ == ","@ + "temperature_celsius"@ + "="@,
        ",power_watts="@ == ","@ + "power_watts"@ + "="@,
{
    reveal_strlit(",vram_total_mb=");
    reveal_strlit(",vram_used_mb=");
    reveal_strlit(",usage_percent=");
    reveal_strlit(",temperature_celsius=");
    reveal_strlit(",power_watts=");
    reveal_strlit(",");
    reveal_strlit("=");
    reveal_strlit("vram_total_mb");
    reveal_strlit("vram_used_mb");
    reveal_strlit("usage_percent");
    reveal_strlit("temperature_celsius");
    reveal_strlit("power_watts");
    assert(",vram_total_mb="@ =~= ","@ + "vram_total_mb"@ + "="@);
    assert(",vram_used_mb="@ =~= ","@ + "vram_used_mb"@ + "="@);
    assert(",usage_percent="@ =~= ","@ + "usage_percent"@ + "="@);
    assert(",temperature_celsius="@ =~= ","@ + "temperature_celsius"@ + "="@);
    assert(",power_watts="@ =~= ","@ + "power_watts"@ + "="@);
}

proof fn lemma_opt_piece(name: Seq<char>, value: Option<String>, prefix: Seq<char>)
    requires
        prefix == ","@ + name + "="@,
    ensures
        (opt_kv(name, value).len() == 0 && opt_field_text(prefix, value).len() == 0) || (opt_kv(
            name,
            value,
        ).len() == 1 && opt_field_text(prefix, value) == ","@ + opt_kv(name, value)[0]),
{
    if let Some(v) = value {
        assert(opt_field_text(prefix, value) =~= ","@ + kv(name, v@));
    }
}

proof fn lemma_opt_int_piece(name: Seq<char>, value: Option<u64>, prefix: Seq<char>)
    requires
        prefix == ","@ + name + "="@,
    ensures
        (opt_int_kv(name, value).len() == 0 && opt_int_field_text(prefix, value).len() == 0) || (
        opt_int_kv(name, value).len() == 1 && opt_int_field_text(prefix, value) == ","@
            + opt_int_kv(name, value)[0]),
{
    if let Some(n) = value {
        assert(opt_int_field_text(prefix, value) =~= ","@ + int_kv(name, n as nat));
    }
}

/// The fields of a GPU as text: each present value under its own name, in
/// the order VRAM total and used (integers), usage, temperature, power; each
/// with a comma in front.
pub open spec fn gpu_fields_text(g: GpuSample) -> Seq<char> {
    opt_int_field_text(",vram_total_mb="@, g.vram_total_mb) + opt_int_field_text(
        ",vram_used_mb="@,
        g.vram_used_mb,
    ) + opt_field_text(",usage_percent="@, g.usage_percent) + opt_field_text(
        ",temperature_celsius="@,
        g.temperature_celsius,
    ) + opt_field_text(",power_watts="@, g.power_watts)
}

/// A GPU gets a line exactly when at least one of its values is present, and
/// its fields are its present values, each under its own name, in the order
/// VRAM total and used (integers), usage, temperature, power, separated by
/// commas.
pub proof fn lemma_gpu_fields(g: GpuSample)
    ensures
        gpu_fields(g).len() > 0 <==> (g.vram_total_mb is Some || g.vram_used_mb is Some
            || g.usage_percent is Some || g.temperature_celsius is Some || g.power_watts is Some),
        gpu_fields(g).len() > 0 ==> join(gpu_fields(g), ","@) == gpu_fields_text(g).drop_first(),
{
    lemma_gpu_literals();
    let o1 = opt_int_kv("vram_total_mb"@, g.vram_total_mb);
    let o2 = opt_int_kv("vram_used_mb"@, g.vram_used_mb);
    let o3 = opt_kv("usage_percent"@, g.usage_percent);
    let o4 = opt_kv("temperature_celsius"@, g.temperature_celsius);
    let o5 = opt_kv("power_watts"@, g.power_watts);
    let t1 = opt_int_field_text(",vram_total_mb="@, g.vram_total_mb);
    let t2 = opt_int_field_text(",vram_used_mb="@, g.vram_used_mb);
    let t3 = opt_field_text(",usage_percent="@, g.usage_percent);
    let t4 = opt_field_text(",temperature_celsius="@, g.temperature_celsius);
    let t5 = opt_field_text(",power_watts="@, g.power_watts);
    lemma_opt_int_piece("vram_total_mb"@, g.vram_total_mb, ",vram_total_mb="@);
    lemma_opt_int_piece("vram_used_mb"@, g.vram_used_mb, ",vram_used_mb="@);
    lemma_opt_piece("usage_percent"@, g.usage_percent, ",usage_percent="@);
    lemma_opt_piece("temperature_celsius"@, g.temperature_celsius, ",temperature_celsius="@);
    lemma_opt_piece("power_watts"@, g.power_watts, ",power_watts="@);
    let e = Seq::<Seq<char>>::empty();
    let et = Seq::<char>::empty();
    assert(fields_text_matches(e, et));
    lemma_fields_text_step(e, et, o1, t1);
    assert(e + o1 =~= o1);
    assert(et + t1 =~= t1);
    lemma_fields_text_step(o1, t1, o2, t2);
    lemma_fields_text_step(o1 + o2, t1 + t2, o3, t3);
    lemma_fields_text_step(o1 + o2 + o3, t1 + t2 + t3, o4, t4);
    lemma_fields_text_step(o1 + o2 + o3 + o4, t1 + t2 + t3 + t4, o5, t5);
    assert(gpu_fields(g) == o1 + o2 + o3 + o4 + o5);
}

/// The lines of GPUs that each have a value come one per GPU, in the order
/// of the GPUs.
pub proof fn lemma_gpu_lines_at(host: Seq<char>, gs: Seq<GpuSample>, ts: Seq<char>)
    requires
        forall|k: int| 0 <= k < gs.len() ==> gpu_fields(#[trigger] gs[k]).len() > 0,
    ensures
        gpu_lines(host, gs, ts).len() == gs.len(),
        forall|k: int|
            0 <= k < gs.len() ==> #[trigger] gpu_lines(host, gs, ts)[k] == point(
                gpu_series(host, gs[k]),
                gpu_fields(gs[k]),
                ts,
            ),
    decreases gs.len(),
{
    if gs.len() > 0 {
        let init = gs.drop_last();
        assert forall|k: int| 0 <= k < init.len() implies gpu_fields(#[trigger] init[k]).len() > 0 by {
            assert(init[k] == gs[k]);
        }
        assert(gpu_fields(gs[gs.len() - 1]).len() > 0);
        lemma_gpu_lines_at(host, init, ts);
        assert forall|k: int| 0 <= k < gs.len() implies #[trigger] gpu_lines(host, gs, ts)[k]
            == point(gpu_series(host, gs[k]), gpu_fields(gs[k]), ts) by {
            if k < init.len() {
                assert(init[k] == gs[k]);
                assert(gpu_lines(host, gs, ts)[k] == gpu_lines(host, init, ts)[k]);
            }
        }
    }
}

/// In a snapshot whose GPUs each have a value, the GPU lines follow the CPU
/// and memory lines, one per GPU in the order of the GPUs.
pub proof fn lemma_snapshot_gpu_lines(s: SnapshotSample)
    requires
        forall|k: int| 0 <= k < s.gpus@.len() ==> gpu_fields(#[trigger] s.gpus@[k]).len() > 0,
    ensures
        forall|k: int|
            0 <= k < s.gpus@.len() ==> #[trigger] snapshot_lines(s)[2 + k] == point(
                gpu_series(escape_tag(s.hostname@), s.gpus@[k]),
                gpu_fields(s.gpus@[k]),
                signed_decimal(s.timestamp_ms as int),
            ),
{
    let host = escape_tag(s.hostname@);
    let ts = signed_decimal(s.timestamp_ms as int);
    lemma_gpu_lines_at(host, s.gpus@, ts);
    let a = seq![cpu_line(host, s.cpu, ts), memory_line(host, s.memory, ts)];
    let gl = gpu_lines(host, s.gpus@, ts);
    let st = storage_lines(host, s.storage@, ts);
    let nw = network_lines(host, s.network@, ts);
    assert(snapshot_lines(s) == a + gl + st + nw);
    assert forall|k: int| 0 <= k < s.gpus@.len() implies #[trigger] snapshot_lines(s)[2 + k]
        == point(gpu_series(host, s.gpus@[k]), gpu_fields(s.gpus@[k]), ts) by {
        assert((a + gl + st + nw)[2 + k] == gl[k]);
    }
}

} // verus!

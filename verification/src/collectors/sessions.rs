//! User sessions, read from PowerShell (JSON) or from `quser` (a text table).

use vstd::prelude::*;

use crate::cache::{elapsed, CachedValue};
use crate::json::{
    as_list, as_text, as_u64, field, json_document, opt_view, parse_json, JsonValue, JsonView,
    field_text, field_u64,
};
use crate::models::{SessionInfo, SessionView};
use crate::text::{
    ascii_lower, is_ascii_text, is_unicode_whitespace, is_whitespace, lemma_lower_ignores_ascii_case,
    lemma_strip_leading_concat, lemma_words_concat, lemma_words_trim, word_starts_upto,
    chars_of, contains_chars, contains_run, lines, lower_text, parse_u32, parse_u32_spec,
    split_lines, split_words, string_from_chars, string_from_range, strip_leading,
    strip_leading_chars, to_lowercase, trim, trim_chars, trim_str, views, words, find_word_starts,
    positions, word_starts,
};

verus! {

/// How long collected sessions are reused, in milliseconds.
pub const CACHE_TTL_MS: u64 = 5000;

// ---------------------------------------------------------------------------
// quser output
// ---------------------------------------------------------------------------

/// The session type that a `quser` session name stands for, given the name in
/// lower case.
pub open spec fn quser_session_type(lowered: Seq<char>) -> Seq<char> {
    if contains_run(lowered, "console"@) {
        "Console"@
    } else if contains_run(lowered, "rdp"@) {
        "RDP"@
    } else {
        "Interactive"@
    }
}

/// The session that one line of a `quser` table without header columns
/// describes: the line without its leading `>` marks, trimmed and split into
/// words; a session when there are at least four (user name, session name,
/// id, state).
pub open spec fn quser_record(line: Seq<char>) -> Option<SessionView> {
    let parts = words(trim(strip_leading(line, '>')));
    if parts.len() >= 4 {
        Some(
            SessionView {
                username: parts[0],
                session_id: match parse_u32_spec(parts[2]) {
                    Some(id) => id,
                    None => 0,
                },
                session_type: quser_session_type(lower_text(parts[1])),
                state: parts[3],
                logon_time: None,
                idle_seconds: None,
                client_name: None,
                client_ip: None,
            },
        )
    } else {
        None
    }
}

/// The sessions of a run of `quser` lines, in order.
pub open spec fn quser_records(ls: Seq<Seq<char>>) -> Seq<SessionView>
    decreases ls.len(),
{
    if ls.len() == 0 {
        seq![]
    } else {
        quser_records(ls.drop_last()) + match quser_record(ls.last()) {
            Some(r) => seq![r],
            None => seq![],
        }
    }
}

/// The text of a line between two columns: from `a` up to `b`, cut at the
/// line's end.
pub open spec fn cell(line: Seq<char>, a: nat, b: nat) -> Seq<char> {
    let hi = if b <= line.len() {
        b
    } else {
        line.len()
    };
    let lo = if a <= hi {
        a
    } else {
        hi
    };
    line.subrange(lo as int, hi as int)
}

/// A column boundary at `p` falls inside a word of `line`: the characters on
/// both sides of it are not whitespace.
pub open spec fn cuts_word(line: Seq<char>, p: nat) -> bool {
    &&& 0 < p < line.len()
    &&& !is_unicode_whitespace(line[p - 1])
    &&& !is_unicode_whitespace(line[p as int])
}

/// A data line lines up with the header's columns: no column boundary falls
/// inside a word; the user-name column (without its leading `>` marks), the
/// id column and the state column hold one word each, and the session-name
/// column holds at most one.
pub open spec fn row_aligned(line: Seq<char>, cols: Seq<nat>) -> bool {
    &&& !cuts_word(line, cols[1])
    &&& !cuts_word(line, cols[2])
    &&& !cuts_word(line, cols[3])
    &&& !cuts_word(line, cols[4])
    &&& words(strip_leading(cell(line, 0, cols[1]), '>')).len() == 1
    &&& words(cell(line, cols[1], cols[2])).len() <= 1
    &&& words(cell(line, cols[2], cols[3])).len() == 1
    &&& words(cell(line, cols[3], cols[4])).len() == 1
}

/// The session that a data line lined up with the header describes, read by
/// its columns: the word in each column, with a blank session name when the
/// session-name column is blank; the id is 0 when its word is not a number.
pub open spec fn quser_columns(line: Seq<char>, cols: Seq<nat>) -> SessionView {
    let name_words = words(cell(line, cols[1], cols[2]));
    SessionView {
        username: words(strip_leading(cell(line, 0, cols[1]), '>'))[0],
        session_id: match parse_u32_spec(words(cell(line, cols[2], cols[3]))[0]) {
            Some(id) => id,
            None => 0,
        },
        session_type: quser_session_type(
            lower_text(
                if name_words.len() == 1 {
                    name_words[0]
                } else {
                    seq![]
                },
            ),
        ),
        state: words(cell(line, cols[3], cols[4]))[0],
        logon_time: None,
        idle_seconds: None,
        client_name: None,
        client_ip: None,
    }
}

/// The session that one data line of the `quser` table describes, given the
/// columns where the header's first five words start (user name, session
/// name, id, state, idle time). A line that lines up with those columns is
/// read by column, so a blank session name stays blank; any other line is
/// split into words (see [`quser_record`]).
pub open spec fn quser_row(line: Seq<char>, cols: Seq<nat>) -> Option<SessionView> {
    if row_aligned(line, cols) {
        Some(quser_columns(line, cols))
    } else {
        quser_record(line)
    }
}

/// On a line that lines up with the header and names its session, reading by
/// columns gives exactly what splitting into words gives: the two readings
/// differ only where the session-name column is blank.
pub proof fn lemma_columns_agree_with_words(line: Seq<char>, cols: Seq<nat>)
    requires
        cols.len() >= 5,
        cols[1] <= cols[2] <= cols[3] <= cols[4],
        row_aligned(line, cols),
        words(cell(line, cols[1], cols[2])).len() == 1,
    ensures
        quser_row(line, cols) == quser_record(line),
{
    let n = line.len();
    let c1 = if cols[1] <= n { cols[1] as int } else { n as int };
    let c2 = if cols[2] <= n { cols[2] as int } else { n as int };
    let c3 = if cols[3] <= n { cols[3] as int } else { n as int };
    let c4 = if cols[4] <= n { cols[4] as int } else { n as int };
    let u = line.subrange(0, c1);
    let x1 = line.subrange(c1, c2);
    let x2 = line.subrange(c2, c3);
    let x3 = line.subrange(c3, c4);
    let tail = line.subrange(c4, n as int);
    assert(u == cell(line, 0, cols[1]));
    assert(x1 == cell(line, cols[1], cols[2]));
    assert(x2 == cell(line, cols[2], cols[3]));
    assert(x3 == cell(line, cols[3], cols[4]));
    let r3 = line.subrange(c3, n as int);
    let r2 = line.subrange(c2, n as int);
    let r1 = line.subrange(c1, n as int);
    assert(r3 =~= x3 + tail);
    assert(r2 =~= x2 + r3);
    assert(r1 =~= x1 + r2);
    assert(line =~= u + r1);
    let su = strip_leading(u, '>');
    assert(su.len() > 0) by {
        if su.len() == 0 {
            assert(su =~= Seq::<char>::empty());
            assert(words(su) =~= Seq::<Seq<char>>::empty());
        }
    }
    assert(x1.len() > 0) by {
        if x1.len() == 0 {
            assert(words(x1) =~= Seq::<Seq<char>>::empty());
        }
    }
    assert(x2.len() > 0) by {
        if x2.len() == 0 {
            assert(words(x2) =~= Seq::<Seq<char>>::empty());
        }
    }
    assert(x3.len() > 0) by {
        if x3.len() == 0 {
            assert(words(x3) =~= Seq::<Seq<char>>::empty());
        }
    }
    lemma_strip_leading_concat(u, r1, '>');
    // No word runs across a column boundary.
    if r1.len() > 0 {
        assert(su.last() == line[c1 - 1]);
        assert(r1[0] == line[c1]);
        assert(!cuts_word(line, cols[1]));
    }
    lemma_words_concat(su, r1);
    if r2.len() > 0 {
        assert(x1.last() == line[c2 - 1]);
        assert(r2[0] == line[c2]);
        assert(!cuts_word(line, cols[2]));
    }
    lemma_words_concat(x1, r2);
    if r3.len() > 0 {
        assert(x2.last() == line[c3 - 1]);
        assert(r3[0] == line[c3]);
        assert(!cuts_word(line, cols[3]));
    }
    lemma_words_concat(x2, r3);
    if tail.len() > 0 {
        assert(x3.last() == line[c4 - 1]);
        assert(tail[0] == line[c4]);
        assert(!cuts_word(line, cols[4]));
    }
    lemma_words_concat(x3, tail);
    let stripped = strip_leading(line, '>');
    assert(stripped == su + r1);
    lemma_words_trim(stripped);
    let parts = words(trim(stripped));
    assert(parts == words(su) + (words(x1) + (words(x2) + (words(x3) + words(tail)))));
    assert(parts[0] == words(su)[0]);
    assert(parts[1] == words(x1)[0]);
    assert(parts[2] == words(x2)[0]);
    assert(parts[3] == words(x3)[0]);
}

/// The columns of a header start at increasing positions.
pub proof fn lemma_word_starts_increase(s: Seq<char>, n: int)
    ensures
        forall|i: int, j: int|
            0 <= i < j < word_starts_upto(s, n).len() ==> #[trigger] word_starts_upto(s, n)[i]
                < #[trigger] word_starts_upto(s, n)[j],
        forall|i: int| 0 <= i < word_starts_upto(s, n).len() ==> #[trigger] word_starts_upto(s, n)[i] < n,
    decreases n,
{
    if n > 0 {
        lemma_word_starts_increase(s, n - 1);
        let prev = word_starts_upto(s, n - 1);
        let cur = word_starts_upto(s, n);
        assert forall|i: int| 0 <= i < prev.len() implies cur[i] == prev[i] by {}
    }
}

/// Under a `quser` header, a data line that lines up with the header's columns
/// and names its session gives the session that splitting it into words gives.
pub proof fn lemma_header_rows_agree_with_words(header: Seq<char>, line: Seq<char>)
    requires
        word_starts(header).len() >= 5,
        row_aligned(line, word_starts(header)),
        words(cell(line, word_starts(header)[1], word_starts(header)[2])).len() == 1,
    ensures
        quser_row(line, word_starts(header)) == quser_record(line),
{
    let cols = word_starts(header);
    lemma_word_starts_increase(header, header.len() as int);
    assert(cols[1] < cols[2]);
    assert(cols[2] < cols[3]);
    assert(cols[3] < cols[4]);
    lemma_columns_agree_with_words(line, cols);
}

/// The sessions of a run of `quser` data lines read by columns, in order.
pub open spec fn quser_rows(ls: Seq<Seq<char>>, cols: Seq<nat>) -> Seq<SessionView>
    decreases ls.len(),
{
    if ls.len() == 0 {
        seq![]
    } else {
        quser_rows(ls.drop_last(), cols) + match quser_row(ls.last(), cols) {
            Some(r) => seq![r],
            None => seq![],
        }
    }
}

/// The sessions in `quser` output. The first line is the table header. When
/// it has at least five words, the table is read as fixed width: each later
/// line that lines up with the columns where those words start is read by
/// column, and every other line is split into words. A header without five
/// words gives no columns, and each later line is split into words.
pub open spec fn quser_sessions(output: Seq<char>) -> Seq<SessionView> {
    let ls = lines(output);
    if ls.len() == 0 {
        seq![]
    } else if word_starts(ls[0]).len() >= 5 {
        quser_rows(ls.skip(1), word_starts(ls[0]))
    } else {
        quser_records(ls.skip(1))
    }
}

/// The models of a list of sessions.
pub open spec fn session_views(v: Seq<SessionInfo>) -> Seq<SessionView> {
    v.map_values(|s: SessionInfo| s@)
}

/// Classifies a `quser` session name: "Console", "RDP" or "Interactive".
pub fn classify_session_name(name: &str) -> (r: String)
    ensures
        r@ == quser_session_type(lower_text(name@)),
{
    let lowered = to_lowercase(name);
    let cs = chars_of(lowered.as_str());
    let console = chars_of("console");
    let rdp = chars_of("rdp");
    if contains_chars(cs.as_slice(), console.as_slice()) {
        String::from_str("Console")
    } else if contains_chars(cs.as_slice(), rdp.as_slice()) {
        String::from_str("RDP")
    } else {
        String::from_str("Interactive")
    }
}

/// The session described by one line of `quser` output, if any.
pub fn parse_quser_line(line: &[char]) -> (r: Option<SessionInfo>)
    ensures
        match r {
            Some(s) => quser_record(line@) == Some(s@),
            None => quser_record(line@) is None,
        },
{
    let stripped = strip_leading_chars(line, '>');
    let trimmed = trim_chars(stripped.as_slice());
    let parts = split_words(trimmed.as_slice());
    proof {
        assert(views(parts@).len() == parts@.len());
    }
    if parts.len() >= 4 {
        proof {
            assert(views(parts@)[0] == parts@[0]@);
            assert(views(parts@)[1] == parts@[1]@);
            assert(views(parts@)[2] == parts@[2]@);
            assert(views(parts@)[3] == parts@[3]@);
        }
        let username = string_from_chars(parts[0].as_slice());
        let session_name = string_from_chars(parts[1].as_slice());
        let session_id = match parse_u32(parts[2].as_slice()) {
            Some(id) => id,
            None => 0,
        };
        let state = string_from_chars(parts[3].as_slice());
        let session_type = classify_session_name(session_name.as_str());
        Some(
            SessionInfo {
                username,
                session_id,
                session_type,
                state,
                logon_time: None,
                idle_seconds: None,
                client_name: None,
                client_ip: None,
            },
        )
    } else {
        None
    }
}

/// The text of a line between two columns (see [`cell`]).
fn cell_chars(line: &[char], a: usize, b: usize) -> (r: Vec<char>)
    ensures
        r@ == cell(line@, a as nat, b as nat),
{
    let hi = if b <= line.len() {
        b
    } else {
        line.len()
    };
    let lo = if a <= hi {
        a
    } else {
        hi
    };
    let s = string_from_range(line, lo, hi);
    chars_of(s.as_str())
}

/// Whether a column boundary falls inside a word (see [`cuts_word`]).
fn boundary_cuts_word(line: &[char], p: usize) -> (r: bool)
    ensures
        r == cuts_word(line@, p as nat),
{
    p > 0 && p < line.len() && !is_whitespace(line[p - 1]) && !is_whitespace(line[p])
}

/// The number of words between two columns of a line.
fn cell_words(line: &[char], a: usize, b: usize) -> (r: usize)
    ensures
        r == words(cell(line@, a as nat, b as nat)).len(),
{
    let c = cell_chars(line, a, b);
    let w = split_words(c.as_slice());
    proof {
        assert(views(w@).len() == w@.len());
    }
    w.len()
}

/// Whether a data line lines up with the header's columns (see [`row_aligned`]).
fn line_is_aligned(line: &[char], cols: &[usize]) -> (r: bool)
    requires
        cols@.len() >= 5,
    ensures
        r == row_aligned(line@, positions(cols@)),
{
    let ghost c = positions(cols@);
    assert(c[1] == cols@[1] as nat && c[2] == cols@[2] as nat && c[3] == cols@[3] as nat
        && c[4] == cols@[4] as nat);
    let user_cell = cell_chars(line, 0, cols[1]);
    let unmarked = strip_leading_chars(user_cell.as_slice(), '>');
    let user_words = split_words(unmarked.as_slice());
    proof {
        assert(views(user_words@).len() == user_words@.len());
    }
    !boundary_cuts_word(line, cols[1]) && !boundary_cuts_word(line, cols[2])
        && !boundary_cuts_word(line, cols[3]) && !boundary_cuts_word(line, cols[4])
        && user_words.len() == 1 && cell_words(line, cols[1], cols[2]) <= 1
        && cell_words(line, cols[2], cols[3]) == 1 && cell_words(line, cols[3], cols[4]) == 1
}

/// The one word of a text that has exactly one.
fn only_word(cs: &[char]) -> (r: String)
    requires
        words(cs@).len() == 1,
    ensures
        r@ == words(cs@)[0],
{
    let w = split_words(cs);
    assert(views(w@)[0] == w@[0]@);
    string_from_chars(w[0].as_slice())
}

/// The session described by a data line read by the header's columns (see
/// [`quser_columns`]).
fn parse_quser_columns(line: &[char], cols: &[usize]) -> (r: SessionInfo)
    requires
        cols@.len() >= 5,
        row_aligned(line@, positions(cols@)),
    ensures
        r@ == quser_columns(line@, positions(cols@)),
{
    let ghost c = positions(cols@);
    assert(c[1] == cols@[1] as nat && c[2] == cols@[2] as nat && c[3] == cols@[3] as nat
        && c[4] == cols@[4] as nat);
    let user_cell = cell_chars(line, 0, cols[1]);
    let unmarked = strip_leading_chars(user_cell.as_slice(), '>');
    let username = only_word(unmarked.as_slice());
    let name_cell = cell_chars(line, cols[1], cols[2]);
    let name_words = split_words(name_cell.as_slice());
    proof {
        assert(views(name_words@).len() == name_words@.len());
    }
    let session_name = if name_words.len() == 1 {
        assert(views(name_words@)[0] == name_words@[0]@);
        string_from_chars(name_words[0].as_slice())
    } else {
        String::new()
    };
    let id_cell = cell_chars(line, cols[2], cols[3]);
    let id_chars = chars_of(only_word(id_cell.as_slice()).as_str());
    let session_id = match parse_u32(id_chars.as_slice()) {
        Some(n) => n,
        None => 0,
    };
    let state_cell = cell_chars(line, cols[3], cols[4]);
    let state = only_word(state_cell.as_slice());
    let session_type = classify_session_name(session_name.as_str());
    SessionInfo {
        username,
        session_id,
        session_type,
        state,
        logon_time: None,
        idle_seconds: None,
        client_name: None,
        client_ip: None,
    }
}

/// The session described by one data line of a `quser` table, given the
/// header's column positions: read by column when the line lines up with
/// them, else split into words (see [`quser_row`]).
pub fn parse_quser_row(line: &[char], cols: &[usize]) -> (r: Option<SessionInfo>)
    requires
        cols@.len() >= 5,
    ensures
        match r {
            Some(s) => quser_row(line@, positions(cols@)) == Some(s@),
            None => quser_row(line@, positions(cols@)) is None,
        },
{
    if line_is_aligned(line, cols) {
        Some(parse_quser_columns(line, cols))
    } else {
        parse_quser_line(line)
    }
}

/// Parses `quser` output. The first line is the table header. When it has at
/// least five words, a later line that lines up with the columns where they
/// start is read by column (a blank session name stays blank); every other
/// line, and every line under a header without five words, is a session when
/// it has at least four words. The result is always `Ok`.
pub fn parse_quser_output(output: &str) -> (r: Result<Vec<SessionInfo>, String>)
    ensures
        r matches Ok(v) && session_views(v@) == quser_sessions(output@),
{
    let cs = chars_of(output);
    let ls = split_lines(cs.as_slice());
    let mut sessions: Vec<SessionInfo> = Vec::new();
    let ghost all = lines(output@);
    if ls.len() == 0 {
        assert(session_views(sessions@) =~= Seq::<SessionView>::empty());
        return Ok(sessions);
    }
    assert(views(ls@)[0] == ls@[0]@);
    let cols = find_word_starts(ls[0].as_slice());
    let by_columns = cols.len() >= 5;
    proof {
        assert(positions(cols@).len() == cols@.len());
    }
    let ghost tail = all.skip(1);
    let mut i: usize = 1;
    assert(tail.take(0) =~= Seq::<Seq<char>>::empty());
    assert(session_views(sessions@) =~= Seq::<SessionView>::empty());
    while i < ls.len()
        invariant
            1 <= i <= ls@.len(),
            views(ls@) == all,
            all.len() == ls@.len(),
            tail == all.skip(1),
            positions(cols@) == word_starts(all[0]),
            by_columns == (cols@.len() >= 5),
            by_columns ==> session_views(sessions@) == quser_rows(tail.take(i - 1), positions(cols@)),
            !by_columns ==> session_views(sessions@) == quser_records(tail.take(i - 1)),
        decreases ls@.len() - i,
    {
        let ghost before = session_views(sessions@);
        assert(views(ls@)[i as int] == ls@[i as int]@);
        let rec = if by_columns {
            parse_quser_row(ls[i].as_slice(), cols.as_slice())
        } else {
            parse_quser_line(ls[i].as_slice())
        };
        proof {
            let t = tail.take(i as int);
            assert(t.drop_last() =~= tail.take(i - 1));
            assert(t.last() == all[i as int]);
        }
        match rec {
            Some(s) => {
                sessions.push(s);
                assert(session_views(sessions@) =~= before + seq![s@]);
            },
            None => {
                assert(session_views(sessions@) =~= before + Seq::<SessionView>::empty());
            },
        }
        i = i + 1;
    }
    assert(tail.take(i - 1) =~= tail);
    Ok(sessions)
}

// ---------------------------------------------------------------------------
// PowerShell JSON
// ---------------------------------------------------------------------------

/// An optional text, or `default` when absent.
pub open spec fn text_or(t: Option<Seq<char>>, default: Seq<char>) -> Seq<char> {
    match t {
        Some(s) => s,
        None => default,
    }
}

/// The session a JSON object describes: it needs a string `Username` and a
/// `SessionId` member (read as an integer, 0 when it is not one, truncated to
/// 32 bits); `SessionType` and `State` default to "Unknown".
pub open spec fn session_from_json(v: JsonView) -> Option<SessionView> {
    match as_text(field(v, "Username"@)) {
        None => None,
        Some(username) => match field(v, "SessionId"@) {
            None => None,
            Some(id) => Some(
                SessionView {
                    username,
                    session_id: (match as_u64(Some(id)) {
                        Some(n) => n,
                        None => 0,
                    }) as u32,
                    session_type: text_or(as_text(field(v, "SessionType"@)), "Unknown"@),
                    state: text_or(as_text(field(v, "State"@)), "Unknown"@),
                    logon_time: as_text(field(v, "LogonTime"@)),
                    idle_seconds: as_u64(field(v, "IdleSeconds"@)),
                    client_name: as_text(field(v, "ClientName"@)),
                    client_ip: as_text(field(v, "ClientIP"@)),
                },
            ),
        },
    }
}

/// The sessions described by a list of JSON values, skipping the others.
pub open spec fn sessions_from_list(items: Seq<JsonView>) -> Seq<SessionView>
    decreases items.len(),
{
    if items.len() == 0 {
        seq![]
    } else {
        sessions_from_list(items.drop_last()) + match session_from_json(items.last()) {
            Some(r) => seq![r],
            None => seq![],
        }
    }
}

/// What the PowerShell JSON text yields: no sessions for blank text, the
/// sessions of the document (an array, or a single object) when it parses,
/// and the parser's message after "JSON parse error: " when it does not.
pub open spec fn sessions_from_json_text(text: Seq<char>) -> Result<Seq<SessionView>, Seq<char>> {
    let t = trim(text);
    if t.len() == 0 {
        Ok(seq![])
    } else {
        match json_document(t) {
            Ok(doc) => Ok(sessions_from_list(as_list(doc))),
            Err(e) => Err("JSON parse error: "@ + e),
        }
    }
}

/// The model of a list result.
pub open spec fn sessions_result_view(r: Result<Vec<SessionInfo>, String>) -> Result<
    Seq<SessionView>,
    Seq<char>,
> {
    match r {
        Ok(v) => Ok(session_views(v@)),
        Err(e) => Err(e@),
    }
}

/// Reads one JSON session object.
pub fn parse_session(v: &JsonValue) -> (r: Option<SessionInfo>)
    ensures
        match r {
            Some(s) => session_from_json(v@) == Some(s@),
            None => session_from_json(v@) is None,
        },
{
    let username = match field_text(v, "Username") {
        Some(u) => u,
        None => return None,
    };
    let id = match v.get("SessionId") {
        Some(id) => id,
        None => return None,
    };
    let session_id: u32 = match id.u64_value() {
        Some(n) => n as u32,
        None => 0,
    };
    let session_type = match field_text(v, "SessionType") {
        Some(t) => t,
        None => String::from_str("Unknown"),
    };
    let state = match field_text(v, "State") {
        Some(t) => t,
        None => String::from_str("Unknown"),
    };
    Some(
        SessionInfo {
            username,
            session_id,
            session_type,
            state,
            logon_time: field_text(v, "LogonTime"),
            idle_seconds: field_u64(v, "IdleSeconds"),
            client_name: field_text(v, "ClientName"),
            client_ip: field_text(v, "ClientIP"),
        },
    )
}

/// Reads the sessions of a list of JSON values.
fn sessions_of_items(items: &[JsonValue]) -> (r: Vec<SessionInfo>)
    ensures
        session_views(r@) == sessions_from_list(items@.map_values(|x: JsonValue| x@)),
{
    let ghost all = items@.map_values(|x: JsonValue| x@);
    let mut out: Vec<SessionInfo> = Vec::new();
    let mut i: usize = 0;
    assert(all.take(0) =~= Seq::<JsonView>::empty());
    assert(session_views(out@) =~= Seq::<SessionView>::empty());
    while i < items.len()
        invariant
            i <= items@.len(),
            all == items@.map_values(|x: JsonValue| x@),
            session_views(out@) == sessions_from_list(all.take(i as int)),
        decreases items@.len() - i,
    {
        let ghost before = session_views(out@);
        proof {
            let t = all.take(i + 1);
            assert(t.drop_last() =~= all.take(i as int));
            assert(t.last() == items@[i as int]@);
        }
        match parse_session(&items[i]) {
            Some(s) => {
                out.push(s);
                assert(session_views(out@) =~= before + seq![s@]);
            },
            None => {
                assert(session_views(out@) =~= before + Seq::<SessionView>::empty());
            },
        }
        i = i + 1;
    }
    assert(all.take(i as int) =~= all);
    out
}

/// Reads the sessions of a JSON document: each element of an array, or the
/// document itself when it is not an array.
pub fn sessions_of_document(doc: &JsonValue) -> (r: Vec<SessionInfo>)
    ensures
        session_views(r@) == sessions_from_list(as_list(doc@)),
{
    match doc {
        JsonValue::Array(items) => {
            let r = sessions_of_items(items.as_slice());
            assert(items@.map_values(|x: JsonValue| x@) =~= as_list(doc@));
            assert(session_views(r@) == sessions_from_list(as_list(doc@)));
            r
        },
        _ => {
            let ghost one = seq![doc@];
            let mut out: Vec<SessionInfo> = Vec::new();
            assert(!(doc@ is Array));
            assert(as_list(doc@) == one);
            assert(one.drop_last() =~= Seq::<JsonView>::empty());
            assert(one.last() == doc@);
            match parse_session(doc) {
                Some(s) => {
                    out.push(s);
                    assert(session_views(out@) =~= seq![s@]);
                },
                None => {
                    assert(session_views(out@) =~= Seq::<SessionView>::empty());
                },
            }
            assert(sessions_from_list(one.drop_last()) =~= Seq::<SessionView>::empty());
            assert(session_views(out@) =~= sessions_from_list(one));
            out
        },
    }
}

/// Parses the JSON that the PowerShell session query prints.
pub fn parse_sessions_json(json_str: &str) -> (r: Result<Vec<SessionInfo>, String>)
    ensures
        sessions_result_view(r) == sessions_from_json_text(json_str@),
{
    let trimmed = trim_str(json_str);
    if trimmed.as_str().is_empty() {
        let v: Vec<SessionInfo> = Vec::new();
        assert(session_views(v@) =~= Seq::<SessionView>::empty());
        return Ok(v);
    }
    match parse_json(trimmed.as_str()) {
        Ok(doc) => Ok(sessions_of_document(&doc)),
        Err(e) => {
            let mut msg = String::from_str("JSON parse error: ");
            msg.append(e.as_str());
            Err(msg)
        },
    }
}

// ---------------------------------------------------------------------------
// Collection
// ---------------------------------------------------------------------------

/// Sessions from the PowerShell query, given how running it went: its standard
/// output, or the message of the failure to run it.
pub fn collect_via_powershell(run: Result<String, String>) -> (r: Result<Vec<SessionInfo>, String>)
    ensures
        sessions_result_view(r) == match run {
            Ok(out) => sessions_from_json_text(out@),
            Err(e) => Err(e@),
        },
{
    match run {
        Ok(out) => parse_sessions_json(out.as_str()),
        Err(e) => Err(e),
    }
}

/// Sessions from `quser`, given how running it went: its standard output, or
/// the message of the failure to run it.
pub fn collect_via_quser(run: Result<String, String>) -> (r: Result<Vec<SessionInfo>, String>)
    ensures
        sessions_result_view(r) == match run {
            Ok(out) => Ok(quser_sessions(out@)),
            Err(e) => Err::<Seq<SessionView>, Seq<char>>(e@),
        },
{
    match run {
        Ok(out) => parse_quser_output(out.as_str()),
        Err(e) => Err(e),
    }
}

/// A source of session data.
#[derive(Debug, Clone, Copy, PartialEq)]
pub enum SessionSource {
    PowerShell,
    Quser,
}

/// What fresh collection does next.
#[derive(Debug)]
pub enum FreshStep {
    /// Run this source and report its result.
    Run(SessionSource),
    /// Collection is over: these are the sessions.
    Done(Vec<SessionInfo>),
}

/// The model of the next step.
pub enum FreshStepView {
    Run(SessionSource),
    Done(Seq<SessionView>),
}

/// The model of a step.
pub open spec fn fresh_step_view(s: FreshStep) -> FreshStepView {
    match s {
        FreshStep::Run(src) => FreshStepView::Run(src),
        FreshStep::Done(v) => FreshStepView::Done(session_views(v@)),
    }
}

/// The next step after `last`, the source that ran last and its result
/// (`None` before anything ran). PowerShell is tried first and is enough when
/// it finds sessions; otherwise `quser` is asked, and its failure gives no
/// sessions.
pub open spec fn next_fresh_step(last: Option<(SessionSource, Result<Seq<SessionView>, Seq<char>>)>) -> FreshStepView {
    match last {
        None => FreshStepView::Run(SessionSource::PowerShell),
        Some((SessionSource::PowerShell, Ok(v))) => if v.len() > 0 {
            FreshStepView::Done(v)
        } else {
            FreshStepView::Run(SessionSource::Quser)
        },
        Some((SessionSource::PowerShell, Err(_))) => FreshStepView::Run(SessionSource::Quser),
        Some((SessionSource::Quser, Ok(v))) => FreshStepView::Done(v),
        Some((SessionSource::Quser, Err(_))) => FreshStepView::Done(seq![]),
    }
}

/// The model of what the last source gave.
pub open spec fn last_view(last: Option<(SessionSource, Result<Vec<SessionInfo>, String>)>) -> Option<
    (SessionSource, Result<Seq<SessionView>, Seq<char>>),
> {
    match last {
        None => None,
        Some((src, r)) => Some((src, sessions_result_view(r))),
    }
}

/// Decides the next step of fresh collection (no caching): given the source
/// that ran last and what it gave, which source to run next, or the sessions.
pub fn collect_fresh(last: Option<(SessionSource, Result<Vec<SessionInfo>, String>)>) -> (r: FreshStep)
    ensures
        fresh_step_view(r) == next_fresh_step(last_view(last)),
{
    match last {
        None => FreshStep::Run(SessionSource::PowerShell),
        Some((SessionSource::PowerShell, Ok(v))) => if v.len() > 0 {
            FreshStep::Done(v)
        } else {
            FreshStep::Run(SessionSource::Quser)
        },
        Some((SessionSource::PowerShell, Err(_))) => FreshStep::Run(SessionSource::Quser),
        Some((SessionSource::Quser, Ok(v))) => FreshStep::Done(v),
        Some((SessionSource::Quser, Err(_))) => {
            let v: Vec<SessionInfo> = Vec::new();
            assert(session_views(v@) =~= Seq::<SessionView>::empty());
            FreshStep::Done(v)
        },
    }
}

/// Fresh collection runs at most two sources: the first step runs PowerShell,
/// and whatever PowerShell gave, the step after `quser` ends collection.
pub proof fn lemma_fresh_collection_ends(
    ps: Result<Seq<SessionView>, Seq<char>>,
    quser: Result<Seq<SessionView>, Seq<char>>,
)
    ensures
        next_fresh_step(None) == FreshStepView::Run(SessionSource::PowerShell),
        next_fresh_step(Some((SessionSource::PowerShell, ps))) is Done || next_fresh_step(
            Some((SessionSource::PowerShell, ps)),
        ) == FreshStepView::Run(SessionSource::Quser),
        next_fresh_step(Some((SessionSource::Quser, quser))) is Done,
{
}

/// The sessions to report without collecting: the cached ones, while they are
/// fresh at `now`. `None` means fresh collection must run, and its result be
/// stored in the cache with `CachedValue::set`.
pub fn collect(cache: &CachedValue<Vec<SessionInfo>>, now: u64) -> (r: Option<&Vec<SessionInfo>>)
    ensures
        r == (if cache.is_fresh(now) {
            Some(&cache.value->0)
        } else {
            None
        }),
{
    cache.get(now)
}

/// A new session cache: empty, keeping collected sessions for
/// `CACHE_TTL_MS` (five seconds).
pub fn new_session_cache() -> (r: CachedValue<Vec<SessionInfo>>)
    ensures
        r.value is None,
        r.last_updated is None,
        r.ttl == CACHE_TTL_MS,
{
    CachedValue::new(CACHE_TTL_MS)
}

/// Sessions stored in the session cache at `t0` are what `collect` returns
/// at `t1` while less than five seconds have passed; from five seconds on,
/// `collect` returns `None` and fresh collection runs. A new session cache
/// returns `None`.
pub proof fn lemma_sessions_reused_for_five_seconds(
    cache: CachedValue<Vec<SessionInfo>>,
    sessions: Vec<SessionInfo>,
    t0: u64,
    t1: u64,
)
    requires
        cache.ttl == CACHE_TTL_MS,
    ensures
        ({
            let stored = CachedValue { value: Some(sessions), last_updated: Some(t0), ..cache };
            &&& stored.is_fresh(t1) <==> elapsed(t0, t1) < 5000
            &&& stored.is_fresh(t1) ==> stored.value == Some(sessions)
        }),
        cache.value is None ==> !cache.is_fresh(t1),
{
}

/// Session names are classified regardless of the case of ASCII letters: two
/// ASCII names that differ only in case get the same session type.
pub proof fn lemma_session_type_ignores_ascii_case(a: Seq<char>, b: Seq<char>)
    requires
        is_ascii_text(a),
        is_ascii_text(b),
        ascii_lower(a) == ascii_lower(b),
    ensures
        quser_session_type(lower_text(a)) == quser_session_type(lower_text(b)),
{
    lemma_lower_ignores_ascii_case(a, b);
}

/// Each field of a session read from PowerShell is the JSON member of the
/// same name. A session is read exactly when `Username` is a string and
/// `SessionId` is present; its id is `SessionId`'s integer value (0 when it is
/// not one, truncated to 32 bits); its type and state are the `SessionType`
/// and `State` strings, or "Unknown"; logon time, idle seconds, client name
/// and client address are the members of those names when they have the
/// right kind.
pub proof fn lemma_session_fields(v: JsonView)
    ensures
        session_from_json(v) is Some <==> (as_text(field(v, "Username"@)) is Some && field(
            v,
            "SessionId"@,
        ) is Some),
        session_from_json(v) matches Some(s) ==> {
            &&& Some(s.username) == as_text(field(v, "Username"@))
            &&& (as_u64(field(v, "SessionId"@)) matches Some(n) ==> s.session_id == n as u32)
            &&& (as_u64(field(v, "SessionId"@)) is None ==> s.session_id == 0)
            &&& (as_text(field(v, "SessionType"@)) matches Some(t) ==> s.session_type == t)
            &&& (as_text(field(v, "SessionType"@)) is None ==> s.session_type == "Unknown"@)
            &&& (as_text(field(v, "State"@)) matches Some(t) ==> s.state == t)
            &&& (as_text(field(v, "State"@)) is None ==> s.state == "Unknown"@)
            &&& s.logon_time == as_text(field(v, "LogonTime"@))
            &&& s.idle_seconds == as_u64(field(v, "IdleSeconds"@))
            &&& s.client_name == as_text(field(v, "ClientName"@))
            &&& s.client_ip == as_text(field(v, "ClientIP"@))
        },
{
    if let Some(id) = field(v, "SessionId"@) {
        assert(as_u64(field(v, "SessionId"@)) == as_u64(Some(id)));
    }
}

/// A list whose every item describes a session gives one session per item, in
/// the order of the list.
pub proof fn lemma_sessions_in_order(items: Seq<JsonView>)
    requires
        forall|i: int| 0 <= i < items.len() ==> session_from_json(#[trigger] items[i]) is Some,
    ensures
        sessions_from_list(items).len() == items.len(),
        forall|i: int|
            0 <= i < items.len() ==> Some(#[trigger] sessions_from_list(items)[i]) == session_from_json(items[i]),
    decreases items.len(),
{
    if items.len() > 0 {
        let init = items.drop_last();
        assert forall|i: int| 0 <= i < init.len() implies session_from_json(#[trigger] init[i]) is Some by {
            assert(init[i] == items[i]);
        }
        lemma_sessions_in_order(init);
        assert(session_from_json(items[items.len() - 1]) is Some);
        let out = sessions_from_list(items);
        assert forall|i: int| 0 <= i < items.len() implies Some(#[trigger] out[i]) == session_from_json(
            items[i],
        ) by {
            if i < init.len() {
                assert(out[i] == sessions_from_list(init)[i]);
                assert(init[i] == items[i]);
            }
        }
    }
}

/// A `quser` line split into words gives a session exactly when it has at
/// least four words (after its leading `>` marks): the user name is the
/// first, the session name (which decides the type) the second, the id the
/// third (0 when it is not a number) and the state the fourth.
pub proof fn lemma_quser_record_fields(line: Seq<char>)
    ensures
        ({
            let parts = words(trim(strip_leading(line, '>')));
            &&& quser_record(line) is Some <==> parts.len() >= 4
            &&& quser_record(line) matches Some(r) ==> {
                &&& r.username == parts[0]
                &&& r.session_type == quser_session_type(lower_text(parts[1]))
                &&& (parse_u32_spec(parts[2]) matches Some(id) ==> r.session_id == id)
                &&& (parse_u32_spec(parts[2]) is None ==> r.session_id == 0)
                &&& r.state == parts[3]
                &&& r.logon_time is None && r.idle_seconds is None && r.client_name is None
                    && r.client_ip is None
            }
        }),
{
}

/// A `quser` line read by column takes each field from its own column: the
/// user name from the first (without `>` marks), the session name (which
/// decides the type) from the second, the id from the third and the state
/// from the fourth.
pub proof fn lemma_quser_columns_fields(line: Seq<char>, cols: Seq<nat>)
    requires
        cols.len() >= 5,
        row_aligned(line, cols),
    ensures
        ({
            let r = quser_columns(line, cols);
            &&& quser_row(line, cols) == Some(r)
            &&& r.username == words(strip_leading(cell(line, 0, cols[1]), '>'))[0]
            &&& r.state == words(cell(line, cols[3], cols[4]))[0]
            &&& (parse_u32_spec(words(cell(line, cols[2], cols[3]))[0]) matches Some(id)
                ==> r.session_id == id)
            &&& (words(cell(line, cols[1], cols[2])).len() == 0 ==> r.session_type
                == quser_session_type(lower_text(seq![])))
            &&& (words(cell(line, cols[1], cols[2])).len() == 1 ==> r.session_type
                == quser_session_type(lower_text(words(cell(line, cols[1], cols[2]))[0])))
        }),
{
}

} // verus!

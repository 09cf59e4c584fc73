//! Character-level text handling shared by the parsers and encoders.
//!
//! Strings are modelled by their view, a `Seq<char>`. The functions here work
//! on slices of `char` and state their results over that model.

use vstd::prelude::*;

verus! {

/// `String::push` appends one character.
pub assume_specification[ String::push ](s: &mut String, ch: char)
    ensures
        final(s)@ == old(s)@.push(ch),
;

/// The characters of `s`, in order.
pub fn chars_of(s: &str) -> (v: Vec<char>)
    ensures
        v@ == s@,
{
    let mut v: Vec<char> = Vec::new();
    for c in it: s.chars()
        invariant
            v@ == it.seq().take(it.index() as int),
            it.seq() == s@,
    {
        v.push(c);
    }
    v
}


/// Builds a `String` from the characters `cs[lo..hi]`.
pub fn string_from_range(cs: &[char], lo: usize, hi: usize) -> (s: String)
    requires
        lo <= hi <= cs@.len(),
    ensures
        s@ == cs@.subrange(lo as int, hi as int),
{
    let mut s = String::new();
    let mut i = lo;
    while i < hi
        invariant
            lo <= i <= hi,
            hi <= cs@.len(),
            s@ == cs@.subrange(lo as int, i as int),
        decreases hi - i,
    {
        s.push(cs[i]);
        i = i + 1;
        assert(s@ =~= cs@.subrange(lo as int, i as int));
    }
    s
}

/// Builds a `String` holding exactly the characters of `cs`.
pub fn string_from_chars(cs: &[char]) -> (s: String)
    ensures
        s@ == cs@,
{
    let s = string_from_range(cs, 0, cs.len());
    assert(cs@.subrange(0, cs@.len() as int) =~= cs@);
    s
}

/// Copies a string slice into a new `String`.
pub fn owned(s: &str) -> (r: String)
    ensures
        r@ == s@,
{
    s.to_owned()
}

// ---------------------------------------------------------------------------
// Whitespace and trimming
// ---------------------------------------------------------------------------

/// The Unicode `White_Space` property, which `char::is_whitespace` tests.
pub open spec fn is_unicode_whitespace(c: char) -> bool {
    let u = c as u32;
    ||| 0x9 <= u <= 0xD
    ||| u == 0x20
    ||| u == 0x85
    ||| u == 0xA0
    ||| u == 0x1680
    ||| 0x2000 <= u <= 0x200A
    ||| u == 0x2028
    ||| u == 0x2029
    ||| u == 0x202F
    ||| u == 0x205F
    ||| u == 0x3000
}

/// Tests a character for the Unicode `White_Space` property.
pub fn is_whitespace(c: char) -> (r: bool)
    ensures
        r == is_unicode_whitespace(c),
{
    let u = c as u32;
    (0x9 <= u && u <= 0xD) || u == 0x20 || u == 0x85 || u == 0xA0 || u == 0x1680 || (0x2000
        <= u && u <= 0x200A) || u == 0x2028 || u == 0x2029 || u == 0x202F || u == 0x205F || u
        == 0x3000
}

/// `s` without its leading whitespace.
pub open spec fn trim_start(s: Seq<char>) -> Seq<char>
    decreases s.len(),
{
    if s.len() > 0 && is_unicode_whitespace(s[0]) {
        trim_start(s.drop_first())
    } else {
        s
    }
}

/// `s` without its trailing whitespace.
pub open spec fn trim_end(s: Seq<char>) -> Seq<char>
    decreases s.len(),
{
    if s.len() > 0 && is_unicode_whitespace(s.last()) {
        trim_end(s.drop_last())
    } else {
        s
    }
}

/// `s` without leading and trailing whitespace, as `str::trim` gives it.
pub open spec fn trim(s: Seq<char>) -> Seq<char> {
    trim_end(trim_start(s))
}

proof fn lemma_trim_start_at(s: Seq<char>, k: int)
    requires
        0 <= k <= s.len(),
        forall|i: int| 0 <= i < k ==> is_unicode_whitespace(#[trigger] s[i]),
        k == s.len() || !is_unicode_whitespace(s[k]),
    ensures
        trim_start(s) == s.skip(k),
    decreases k,
{
    if k == 0 {
        assert(s.skip(0) =~= s);
    } else {
        assert(is_unicode_whitespace(s[0]));
        let t = s.drop_first();
        assert forall|i: int| 0 <= i < k - 1 implies is_unicode_whitespace(#[trigger] t[i]) by {
            assert(t[i] == s[i + 1]);
        }
        if k < s.len() {
            assert(t[k - 1] == s[k]);
        }
        lemma_trim_start_at(t, k - 1);
        assert(t.skip(k - 1) =~= s.skip(k));
    }
}

proof fn lemma_trim_end_at(s: Seq<char>, k: int)
    requires
        0 <= k <= s.len(),
        forall|i: int| k <= i < s.len() ==> is_unicode_whitespace(#[trigger] s[i]),
        k == 0 || !is_unicode_whitespace(s[k - 1]),
    ensures
        trim_end(s) == s.take(k),
    decreases s.len() - k,
{
    if k == s.len() {
        assert(s.take(k) =~= s);
    } else {
        assert(is_unicode_whitespace(s[s.len() - 1]));
        let t = s.drop_last();
        assert forall|i: int| k <= i < t.len() implies is_unicode_whitespace(#[trigger] t[i]) by {
            assert(t[i] == s[i]);
        }
        if k > 0 {
            assert(t[k - 1] == s[k - 1]);
        }
        lemma_trim_end_at(t, k);
        assert(t.take(k) =~= s.take(k));
    }
}

/// Bounds `(lo, hi)` such that `cs[lo..hi]` is `cs` trimmed of whitespace.
pub fn trim_bounds(cs: &[char]) -> (r: (usize, usize))
    ensures
        r.0 <= r.1 <= cs@.len(),
        cs@.subrange(r.0 as int, r.1 as int) == trim(cs@),
{
    let n = cs.len();
    let mut lo: usize = 0;
    while lo < n && is_whitespace(cs[lo])
        invariant
            lo <= n,
            n == cs@.len(),
            forall|i: int| 0 <= i < lo ==> is_unicode_whitespace(#[trigger] cs@[i]),
        decreases n - lo,
    {
        lo = lo + 1;
    }
    proof {
        lemma_trim_start_at(cs@, lo as int);
    }
    let mut hi: usize = n;
    while hi > lo && is_whitespace(cs[hi - 1])
        invariant
            lo <= hi <= n,
            n == cs@.len(),
            forall|i: int| hi <= i < n ==> is_unicode_whitespace(#[trigger] cs@[i]),
        decreases hi - lo,
    {
        hi = hi - 1;
    }
    proof {
        let t = cs@.skip(lo as int);
        assert forall|i: int| hi - lo <= i < t.len() implies is_unicode_whitespace(
            #[trigger] t[i],
        ) by {
            assert(t[i] == cs@[i + lo]);
        }
        if hi > lo {
            assert(t[hi - lo - 1] == cs@[hi - 1]);
        }
        lemma_trim_end_at(t, hi - lo);
        assert(t.take(hi - lo) =~= cs@.subrange(lo as int, hi as int));
    }
    (lo, hi)
}

/// Trims leading and trailing whitespace, as `str::trim` does.
pub fn trim_chars(cs: &[char]) -> (r: Vec<char>)
    ensures
        r@ == trim(cs@),
{
    let (lo, hi) = trim_bounds(cs);
    let mut r: Vec<char> = Vec::new();
    let mut i = lo;
    while i < hi
        invariant
            lo <= i <= hi,
            hi <= cs@.len(),
            r@ == cs@.subrange(lo as int, i as int),
        decreases hi - i,
    {
        r.push(cs[i]);
        i = i + 1;
        assert(r@ =~= cs@.subrange(lo as int, i as int));
    }
    r
}

/// Trims a string slice, as `str::trim` does.
pub fn trim_str(s: &str) -> (r: String)
    ensures
        r@ == trim(s@),
{
    let cs = chars_of(s);
    let (lo, hi) = trim_bounds(cs.as_slice());
    string_from_range(cs.as_slice(), lo, hi)
}

// ---------------------------------------------------------------------------
// Decimal numbers
// ---------------------------------------------------------------------------

/// The ASCII digit for a value below ten.
pub open spec fn digit_char(d: nat) -> char {
    if d == 0 {
        '0'
    } else if d == 1 {
        '1'
    } else if d == 2 {
        '2'
    } else if d == 3 {
        '3'
    } else if d == 4 {
        '4'
    } else if d == 5 {
        '5'
    } else if d == 6 {
        '6'
    } else if d == 7 {
        '7'
    } else if d == 8 {
        '8'
    } else {
        '9'
    }
}

/// The decimal representation of `n`, without leading zeros (as `{}` prints it).
pub open spec fn decimal(n: nat) -> Seq<char>
    decreases n,
{
    if n < 10 {
        seq![digit_char(n)]
    } else {
        decimal(n / 10).push(digit_char(n % 10))
    }
}

/// The decimal representation of a signed integer, with a leading `-` when negative.
pub open spec fn signed_decimal(n: int) -> Seq<char> {
    if n < 0 {
        seq!['-'] + decimal((-n) as nat)
    } else {
        decimal(n as nat)
    }
}

fn digit_of(d: u64) -> (c: char)
    requires
        d < 10,
    ensures
        c == digit_char(d as nat),
{
    if d == 0 {
        '0'
    } else if d == 1 {
        '1'
    } else if d == 2 {
        '2'
    } else if d == 3 {
        '3'
    } else if d == 4 {
        '4'
    } else if d == 5 {
        '5'
    } else if d == 6 {
        '6'
    } else if d == 7 {
        '7'
    } else if d == 8 {
        '8'
    } else {
        '9'
    }
}

/// Appends the decimal representation of `n`.
pub fn push_decimal(s: &mut String, n: u64)
    ensures
        final(s)@ == old(s)@ + decimal(n as nat),
    decreases n,
{
    if n >= 10 {
        push_decimal(s, n / 10);
    }
    s.push(digit_of(n % 10));
    proof {
        if n < 10 {
            assert(old(s)@ + decimal(n as nat) =~= old(s)@.push(digit_char(n as nat)));
        } else {
            assert(old(s)@ + decimal(n as nat) =~= (old(s)@ + decimal((n / 10) as nat)).push(
                digit_char((n % 10) as nat),
            ));
        }
    }
}

/// Appends the decimal representation of a signed integer.
pub fn push_signed_decimal(s: &mut String, n: i64)
    ensures
        final(s)@ == old(s)@ + signed_decimal(n as int),
{
    if n < 0 {
        s.push('-');
        let m: u64 = ((-(n + 1)) as u64) + 1;
        push_decimal(s, m);
        assert(old(s)@ + signed_decimal(n as int) =~= old(s)@.push('-') + decimal(m as nat));
    } else {
        push_decimal(s, n as u64);
    }
}

/// The decimal representation of `n` as a new `String`.
pub fn decimal_string(n: u64) -> (r: String)
    ensures
        r@ == decimal(n as nat),
{
    let mut s = String::new();
    push_decimal(&mut s, n);
    assert(s@ =~= decimal(n as nat));
    s
}

/// The decimal representation of a signed `n` as a new `String`.
pub fn signed_decimal_string(n: i64) -> (r: String)
    ensures
        r@ == signed_decimal(n as int),
{
    let mut s = String::new();
    push_signed_decimal(&mut s, n);
    assert(s@ =~= signed_decimal(n as int));
    s
}


/// An ASCII decimal digit.
pub open spec fn is_ascii_digit(c: char) -> bool {
    '0' <= c && c <= '9'
}

/// The value of a sequence of decimal digits (most significant first).
pub open spec fn digits_value(d: Seq<char>) -> nat
    decreases d.len(),
{
    if d.len() == 0 {
        0
    } else {
        digits_value(d.drop_last()) * 10 + ((d.last() as int) - 48) as nat
    }
}

/// What `u32::from_str` reads as digits: the text after an optional leading `+`.
pub open spec fn unsigned_digits(s: Seq<char>) -> Seq<char> {
    if s.len() > 0 && s[0] == '+' {
        s.drop_first()
    } else {
        s
    }
}

/// The result of `s.parse::<u32>()`: `Some` exactly when `s` is an optional `+`
/// followed by at least one ASCII digit, all of them digits, and the value fits.
pub open spec fn parse_u32_spec(s: Seq<char>) -> Option<u32> {
    let d = unsigned_digits(s);
    if d.len() > 0 && (forall|i: int| 0 <= i < d.len() ==> is_ascii_digit(#[trigger] d[i]))
        && digits_value(d) <= u32::MAX {
        Some(digits_value(d) as u32)
    } else {
        None
    }
}

/// Parses an unsigned 32-bit decimal number as `str::parse::<u32>` does.
pub fn parse_u32(cs: &[char]) -> (r: Option<u32>)
    ensures
        r == parse_u32_spec(cs@),
{
    let n = cs.len();
    let start: usize = if n > 0 && cs[0] == '+' {
        1
    } else {
        0
    };
    let ghost d = unsigned_digits(cs@);
    assert(d =~= cs@.skip(start as int));
    if start >= n {
        return None;
    }
    let cap: u64 = 0x1_0000_0000;
    let mut acc: u64 = 0;
    let mut i = start;
    while i < n
        invariant
            start <= i <= n,
            n == cs@.len(),
            d =~= cs@.skip(start as int),
            d == unsigned_digits(cs@),
            cap == 0x1_0000_0000,
            forall|j: int| 0 <= j < i - start ==> is_ascii_digit(#[trigger] d[j]),
            acc == if digits_value(d.take(i - start)) < cap {
                digits_value(d.take(i - start))
            } else {
                cap as nat
            },
        decreases n - i,
    {
        let c = cs[i];
        if !('0' <= c && c <= '9') {
            assert(cs@.skip(start as int)[i - start] == cs@[i as int]);
            assert(d[i - start] == c);
            assert(!is_ascii_digit(d[i - start]));
            assert(parse_u32_spec(cs@) is None);
            return None;
        }
        let dv: u64 = (c as u32 - 48) as u64;
        proof {
            let t = d.take(i - start + 1);
            assert(t.drop_last() =~= d.take(i - start));
            assert(t.last() == c);
        }
        let next = acc * 10 + dv;
        acc = if next < cap {
            next
        } else {
            cap
        };
        i = i + 1;
    }
    assert(d.take(n - start) =~= d);
    if acc < cap {
        Some(acc as u32)
    } else {
        None
    }
}

// ---------------------------------------------------------------------------
// Lines and words
// ---------------------------------------------------------------------------

/// A line without the `\r` of a `\r\n` terminator.
pub open spec fn strip_cr(line: Seq<char>) -> Seq<char> {
    if line.len() > 0 && line.last() == '\r' {
        line.drop_last()
    } else {
        line
    }
}

/// The lines of `s` after the partial line `cur`, as `str::lines` yields them.
pub open spec fn lines_from(s: Seq<char>, cur: Seq<char>) -> Seq<Seq<char>>
    decreases s.len(),
{
    if s.len() == 0 {
        if cur.len() > 0 {
            seq![cur]
        } else {
            seq![]
        }
    } else if s[0] == '\n' {
        seq![strip_cr(cur)] + lines_from(s.drop_first(), seq![])
    } else {
        lines_from(s.drop_first(), cur.push(s[0]))
    }
}

/// The lines of `s`: split at `\n`, a `\r` before it dropped, and no empty
/// line after a final line ending.
pub open spec fn lines(s: Seq<char>) -> Seq<Seq<char>> {
    lines_from(s, seq![])
}

/// The views of a vector of character vectors.
pub open spec fn views(v: Seq<Vec<char>>) -> Seq<Seq<char>> {
    v.map_values(|l: Vec<char>| l@)
}

/// Splits text into lines as `str::lines` does.
pub fn split_lines(cs: &[char]) -> (r: Vec<Vec<char>>)
    ensures
        views(r@) == lines(cs@),
{
    let n = cs.len();
    let mut out: Vec<Vec<char>> = Vec::new();
    let mut cur: Vec<char> = Vec::new();
    let mut i: usize = 0;
    assert(cs@.skip(0) =~= cs@);
    assert(views(out@) =~= Seq::<Seq<char>>::empty());
    while i < n
        invariant
            i <= n,
            n == cs@.len(),
            views(out@) + lines_from(cs@.skip(i as int), cur@) == lines(cs@),
        decreases n - i,
    {
        let c = cs[i];
        let ghost rest = cs@.skip(i as int);
        let ghost cur_v = cur@;
        let ghost before = views(out@);
        assert(rest[0] == c);
        assert(rest.drop_first() =~= cs@.skip(i + 1));
        if c == '\n' {
            let mut line = cur;
            let len = line.len();
            if len > 0 && line[len - 1] == '\r' {
                line.pop();
                assert(line@ =~= cur_v.drop_last());
            }
            assert(line@ == strip_cr(cur_v));
            out.push(line);
            assert(views(out@) =~= before.push(strip_cr(cur_v)));
            cur = Vec::new();
            assert(lines_from(rest, cur_v) == seq![strip_cr(cur_v)] + lines_from(
                cs@.skip(i + 1),
                seq![],
            ));
            assert(views(out@) + lines_from(cs@.skip(i + 1), cur@) =~= before + lines_from(
                rest,
                cur_v,
            ));
        } else {
            cur.push(c);
            assert(lines_from(rest, cur_v) == lines_from(cs@.skip(i + 1), cur@));
        }
        i = i + 1;
    }
    assert(cs@.skip(n as int) =~= Seq::<char>::empty());
    if cur.len() > 0 {
        let ghost before = views(out@);
        out.push(cur);
        assert(views(out@) =~= before.push(cur@));
        assert(views(out@) =~= before + seq![cur@]);
    } else {
        assert(views(out@) =~= views(out@) + Seq::<Seq<char>>::empty());
    }
    out
}

/// The whitespace-separated words of `s` after the partial word `cur`.
pub open spec fn words_from(s: Seq<char>, cur: Seq<char>) -> Seq<Seq<char>>
    decreases s.len(),
{
    if s.len() == 0 {
        if cur.len() > 0 {
            seq![cur]
        } else {
            seq![]
        }
    } else if is_unicode_whitespace(s[0]) {
        (if cur.len() > 0 {
            seq![cur]
        } else {
            seq![]
        }) + words_from(s.drop_first(), seq![])
    } else {
        words_from(s.drop_first(), cur.push(s[0]))
    }
}

/// The words of `s` as `str::split_whitespace` yields them: maximal runs of
/// characters without the Unicode `White_Space` property.
pub open spec fn words(s: Seq<char>) -> Seq<Seq<char>> {
    words_from(s, seq![])
}

/// Reading two texts one after the other gives the words of each, when the
/// partial word does not run on across the join.
proof fn lemma_words_from_concat(a: Seq<char>, b: Seq<char>, cur: Seq<char>)
    requires
        b.len() == 0 || (a.len() > 0 && (is_unicode_whitespace(a.last())
            || is_unicode_whitespace(b[0]))) || (a.len() == 0 && (cur.len() == 0
            || is_unicode_whitespace(b[0]))),
    ensures
        words_from(a + b, cur) == words_from(a, cur) + words_from(b, seq![]),
    decreases a.len(),
{
    if b.len() == 0 {
        assert(a + b =~= a);
        assert(words_from(a, cur) + words_from(b, seq![]) =~= words_from(a, cur));
    } else if a.len() == 0 {
        assert(a + b =~= b);
        if cur.len() == 0 {
            assert(cur =~= Seq::<char>::empty());
            assert(words_from(a, cur) + words_from(b, seq![]) =~= words_from(b, seq![]));
        } else {
            assert(is_unicode_whitespace(b[0]));
            assert(words_from(b, cur) == seq![cur] + words_from(b.drop_first(), seq![]));
            assert(words_from(b, seq![]) =~= Seq::<Seq<char>>::empty() + words_from(
                b.drop_first(),
                seq![],
            ));
            assert(words_from(a, cur) == seq![cur]);
        }
    } else {
        let s = a + b;
        assert(s[0] == a[0]);
        assert(s.drop_first() =~= a.drop_first() + b);
        let t = a.drop_first();
        if t.len() > 0 {
            assert(t.last() == a.last());
        }
        if is_unicode_whitespace(a[0]) {
            lemma_words_from_concat(t, b, seq![]);
            let flush = if cur.len() > 0 {
                seq![cur]
            } else {
                Seq::<Seq<char>>::empty()
            };
            assert(words_from(s, cur) == flush + words_from(t + b, seq![]));
            assert(words_from(a, cur) == flush + words_from(t, seq![]));
            assert(flush + words_from(t, seq![]) + words_from(b, seq![]) =~= flush + (words_from(
                t,
                seq![],
            ) + words_from(b, seq![])));
        } else {
            if t.len() == 0 {
                assert(a.last() == a[0]);
            }
            lemma_words_from_concat(t, b, cur.push(a[0]));
            assert(words_from(s, cur) == words_from(t + b, cur.push(a[0])));
            assert(words_from(a, cur) == words_from(t, cur.push(a[0])));
        }
    }
}

/// The words of two texts put together are the words of each, when no word
/// runs across the join.
pub proof fn lemma_words_concat(a: Seq<char>, b: Seq<char>)
    requires
        a.len() == 0 || b.len() == 0 || is_unicode_whitespace(a.last())
            || is_unicode_whitespace(b[0]),
    ensures
        words(a + b) == words(a) + words(b),
{
    lemma_words_from_concat(a, b, seq![]);
}

/// Whitespace around a text adds no word.
pub proof fn lemma_words_trim(s: Seq<char>)
    ensures
        words(trim(s)) == words(s),
{
    lemma_words_trim_start(s);
    lemma_words_trim_end(trim_start(s));
}

proof fn lemma_words_trim_start(s: Seq<char>)
    ensures
        words(trim_start(s)) == words(s),
    decreases s.len(),
{
    if s.len() > 0 && is_unicode_whitespace(s[0]) {
        lemma_words_trim_start(s.drop_first());
        assert(words(s) =~= Seq::<Seq<char>>::empty() + words(s.drop_first()));
    }
}

proof fn lemma_words_trim_end(s: Seq<char>)
    ensures
        words(trim_end(s)) == words(s),
    decreases s.len(),
{
    if s.len() > 0 && is_unicode_whitespace(s.last()) {
        let t = s.drop_last();
        lemma_words_trim_end(t);
        let w = seq![s.last()];
        assert(t + w =~= s);
        lemma_words_concat(t, w);
        assert(w.drop_first() =~= Seq::<char>::empty());
        assert(w[0] == s.last());
        assert(words_from(w.drop_first(), seq![]) =~= Seq::<Seq<char>>::empty());
        assert(words_from(w, seq![]) == Seq::<Seq<char>>::empty() + words_from(w.drop_first(), seq![]));
        assert(words(w) =~= Seq::<Seq<char>>::empty());
        assert(words(t) + words(w) =~= words(t));
    }
}

/// Splits text into words as `str::split_whitespace` does.
pub fn split_words(cs: &[char]) -> (r: Vec<Vec<char>>)
    ensures
        views(r@) == words(cs@),
{
    let n = cs.len();
    let mut out: Vec<Vec<char>> = Vec::new();
    let mut cur: Vec<char> = Vec::new();
    let mut i: usize = 0;
    assert(cs@.skip(0) =~= cs@);
    assert(views(out@) =~= Seq::<Seq<char>>::empty());
    while i < n
        invariant
            i <= n,
            n == cs@.len(),
            views(out@) + words_from(cs@.skip(i as int), cur@) == words(cs@),
        decreases n - i,
    {
        let c = cs[i];
        let ghost rest = cs@.skip(i as int);
        let ghost cur_v = cur@;
        let ghost before = views(out@);
        assert(rest[0] == c);
        assert(rest.drop_first() =~= cs@.skip(i + 1));
        if is_whitespace(c) {
            if cur.len() > 0 {
                out.push(cur);
                assert(views(out@) =~= before + seq![cur_v]);
            } else {
                assert(views(out@) =~= before + Seq::<Seq<char>>::empty());
            }
            cur = Vec::new();
            assert(views(out@) + words_from(cs@.skip(i + 1), cur@) =~= before + words_from(
                rest,
                cur_v,
            ));
        } else {
            cur.push(c);
            assert(words_from(rest, cur_v) == words_from(cs@.skip(i + 1), cur@));
        }
        i = i + 1;
    }
    assert(cs@.skip(n as int) =~= Seq::<char>::empty());
    if cur.len() > 0 {
        let ghost before = views(out@);
        out.push(cur);
        assert(views(out@) =~= before + seq![cur@]);
    } else {
        assert(views(out@) =~= views(out@) + Seq::<Seq<char>>::empty());
    }
    out
}

/// A word of `s` starts at `i`: a character without the `White_Space`
/// property that begins the text or follows one with it.
pub open spec fn starts_word(s: Seq<char>, i: int) -> bool {
    &&& 0 <= i < s.len()
    &&& !is_unicode_whitespace(s[i])
    &&& (i == 0 || is_unicode_whitespace(s[i - 1]))
}

/// The positions among the first `n` characters of `s` where a word starts,
/// in increasing order.
pub open spec fn word_starts_upto(s: Seq<char>, n: int) -> Seq<nat>
    decreases n,
{
    if n <= 0 {
        seq![]
    } else {
        word_starts_upto(s, n - 1) + if starts_word(s, n - 1) {
            seq![(n - 1) as nat]
        } else {
            seq![]
        }
    }
}

/// The positions where the words of `s` start, in increasing order.
pub open spec fn word_starts(s: Seq<char>) -> Seq<nat> {
    word_starts_upto(s, s.len() as int)
}

/// Positions as natural numbers.
pub open spec fn positions(v: Seq<usize>) -> Seq<nat> {
    v.map_values(|p: usize| p as nat)
}

/// Finds where the words of a text start (the column positions of a table
/// header).
pub fn find_word_starts(cs: &[char]) -> (r: Vec<usize>)
    ensures
        positions(r@) == word_starts(cs@),
{
    let mut out: Vec<usize> = Vec::new();
    let mut i: usize = 0;
    assert(positions(out@) =~= word_starts_upto(cs@, 0));
    while i < cs.len()
        invariant
            i <= cs@.len(),
            positions(out@) == word_starts_upto(cs@, i as int),
        decreases cs@.len() - i,
    {
        let ghost before = positions(out@);
        let starts = !is_whitespace(cs[i]) && (i == 0 || is_whitespace(cs[i - 1]));
        assert(starts == starts_word(cs@, i as int));
        if starts {
            out.push(i);
            assert(positions(out@) =~= before + seq![i as nat]);
        } else {
            assert(positions(out@) =~= before + Seq::<nat>::empty());
        }
        i = i + 1;
    }
    out
}

/// `s` without every leading occurrence of `c`, as `str::trim_start_matches(c)` gives it.
pub open spec fn strip_leading(s: Seq<char>, c: char) -> Seq<char>
    decreases s.len(),
{
    if s.len() > 0 && s[0] == c {
        strip_leading(s.drop_first(), c)
    } else {
        s
    }
}

proof fn lemma_strip_leading_at(s: Seq<char>, c: char, k: int)
    requires
        0 <= k <= s.len(),
        forall|i: int| 0 <= i < k ==> #[trigger] s[i] == c,
        k == s.len() || s[k] != c,
    ensures
        strip_leading(s, c) == s.skip(k),
    decreases k,
{
    if k == 0 {
        assert(s.skip(0) =~= s);
    } else {
        let t = s.drop_first();
        assert forall|i: int| 0 <= i < k - 1 implies #[trigger] t[i] == c by {
            assert(t[i] == s[i + 1]);
        }
        if k < s.len() {
            assert(t[k - 1] == s[k]);
        }
        lemma_strip_leading_at(t, c, k - 1);
        assert(t.skip(k - 1) =~= s.skip(k));
    }
}

/// Stripping leading `c` from a text with a first part that is not all `c`
/// strips only that part; what is left of it ends as the part does.
pub proof fn lemma_strip_leading_concat(u: Seq<char>, rest: Seq<char>, c: char)
    requires
        strip_leading(u, c).len() > 0,
    ensures
        strip_leading(u + rest, c) == strip_leading(u, c) + rest,
        strip_leading(u, c).last() == u.last(),
    decreases u.len(),
{
    if u.len() > 0 && u[0] == c {
        let s = u + rest;
        assert(s[0] == u[0]);
        assert(s.drop_first() =~= u.drop_first() + rest);
        lemma_strip_leading_concat(u.drop_first(), rest, c);
        assert(u.drop_first().last() == u.last());
    } else {
        assert(u.len() > 0);
        let s = u + rest;
        assert(s[0] == u[0]);
    }
}

/// Drops every leading occurrence of `c`.
pub fn strip_leading_chars(cs: &[char], c: char) -> (r: Vec<char>)
    ensures
        r@ == strip_leading(cs@, c),
{
    let n = cs.len();
    let mut k: usize = 0;
    while k < n && cs[k] == c
        invariant
            k <= n,
            n == cs@.len(),
            forall|i: int| 0 <= i < k ==> #[trigger] cs@[i] == c,
        decreases n - k,
    {
        k = k + 1;
    }
    proof {
        lemma_strip_leading_at(cs@, c, k as int);
    }
    let mut r: Vec<char> = Vec::new();
    let mut i = k;
    while i < n
        invariant
            k <= i <= n,
            n == cs@.len(),
            r@ == cs@.subrange(k as int, i as int),
        decreases n - i,
    {
        r.push(cs[i]);
        i = i + 1;
        assert(r@ =~= cs@.subrange(k as int, i as int));
    }
    assert(cs@.subrange(k as int, n as int) =~= cs@.skip(k as int));
    r
}

/// `needle` occurs in `hay` as a contiguous run.
pub open spec fn contains_run(hay: Seq<char>, needle: Seq<char>) -> bool {
    exists|i: int|
        0 <= i && i + needle.len() <= hay.len() && #[trigger] hay.subrange(i, i + needle.len())
            == needle
}

/// Tests whether `needle` occurs in `hay`, as `str::contains` does for a string pattern.
pub fn contains_chars(hay: &[char], needle: &[char]) -> (r: bool)
    ensures
        r == contains_run(hay@, needle@),
{
    let n = hay.len();
    let m = needle.len();
    if m > n {
        return false;
    }
    let mut i: usize = 0;
    while i <= n - m
        invariant
            m <= n,
            n == hay@.len(),
            m == needle@.len(),
            i <= n - m + 1,
            forall|k: int| 0 <= k < i ==> #[trigger] hay@.subrange(k, k + m) != needle@,
        decreases n - m + 1 - i,
    {
        let mut j: usize = 0;
        while j < m && hay[i + j] == needle[j]
            invariant
                j <= m,
                i + m <= n,
                n == hay@.len(),
                m == needle@.len(),
                forall|t: int| 0 <= t < j ==> hay@[i + t] == needle@[t],
            decreases m - j,
        {
            j = j + 1;
        }
        if j == m {
            assert(hay@.subrange(i as int, i + m) =~= needle@);
            return true;
        }
        assert(hay@.subrange(i as int, i + m)[j as int] != needle@[j as int]);
        i = i + 1;
    }
    proof {
        assert forall|k: int|
            0 <= k && k + m <= n implies #[trigger] hay@.subrange(k, k + m) != needle@ by {
            assert(k < i);
        }
    }
    false
}

// ---------------------------------------------------------------------------
// Case conversion (Unicode, done by std)
// ---------------------------------------------------------------------------

/// What `str::to_lowercase` returns for a string with the given characters.
pub uninterp spec fn lowercase(s: Seq<char>) -> Seq<char>;

/// What `str::to_uppercase` returns for a string with the given characters.
pub uninterp spec fn uppercase(s: Seq<char>) -> Seq<char>;

/// Every character of `s` is ASCII.
pub open spec fn is_ascii_text(s: Seq<char>) -> bool {
    forall|i: int| 0 <= i < s.len() ==> (#[trigger] s[i] as u32) < 128
}

/// An ASCII capital letter made small; any other character unchanged.
pub open spec fn ascii_lower_char(c: char) -> char {
    if 65 <= (c as u32) <= 90 {
        ((c as u32) + 32) as char
    } else {
        c
    }
}

/// An ASCII small letter made capital; any other character unchanged.
pub open spec fn ascii_upper_char(c: char) -> char {
    if 97 <= (c as u32) <= 122 {
        ((c as u32) - 32) as char
    } else {
        c
    }
}

/// `s` with its ASCII letters made small.
pub open spec fn ascii_lower(s: Seq<char>) -> Seq<char> {
    s.map_values(|c: char| ascii_lower_char(c))
}

/// `s` with its ASCII letters made capital.
pub open spec fn ascii_upper(s: Seq<char>) -> Seq<char> {
    s.map_values(|c: char| ascii_upper_char(c))
}

/// The lower case of a text, as `str::to_lowercase` gives it: the ASCII
/// mapping for ASCII text, the Unicode mapping (named) otherwise.
pub open spec fn lower_text(s: Seq<char>) -> Seq<char> {
    if is_ascii_text(s) {
        ascii_lower(s)
    } else {
        lowercase(s)
    }
}

/// The upper case of a text, as `str::to_uppercase` gives it: the ASCII
/// mapping for ASCII text, the Unicode mapping (named) otherwise.
pub open spec fn upper_text(s: Seq<char>) -> Seq<char> {
    if is_ascii_text(s) {
        ascii_upper(s)
    } else {
        uppercase(s)
    }
}

/// Calls `str::to_lowercase`. On ASCII text its result is the ASCII case
/// mapping, as std documents (ASCII capitals have their small letters as
/// Unicode lower case, and no other ASCII character changes); beyond ASCII
/// the Unicode mapping is not written out: the contract names the result,
/// which depends on the characters alone.
#[verifier::external_body]
pub(crate) fn to_lowercase(s: &str) -> (r: String)
    ensures
        r@ == (if is_ascii_text(s@) {
            ascii_lower(s@)
        } else {
            lowercase(s@)
        }),
{
    s.to_lowercase()
}

/// Calls `str::to_uppercase`. On ASCII text its result is the ASCII case
/// mapping, as std documents; beyond ASCII the Unicode mapping is not written
/// out: the contract names the result, which depends on the characters alone.
#[verifier::external_body]
pub(crate) fn to_uppercase(s: &str) -> (r: String)
    ensures
        r@ == (if is_ascii_text(s@) {
            ascii_upper(s@)
        } else {
            uppercase(s@)
        }),
{
    s.to_uppercase()
}

/// Texts that differ only in the case of ASCII letters have the same lower
/// case.
pub proof fn lemma_lower_ignores_ascii_case(a: Seq<char>, b: Seq<char>)
    requires
        is_ascii_text(a),
        is_ascii_text(b),
        ascii_lower(a) == ascii_lower(b),
    ensures
        lower_text(a) == lower_text(b),
{
}

/// Texts that differ only in the case of ASCII letters have the same upper
/// case.
pub proof fn lemma_upper_ignores_ascii_case(a: Seq<char>, b: Seq<char>)
    requires
        is_ascii_text(a),
        is_ascii_text(b),
        ascii_upper(a) == ascii_upper(b),
    ensures
        upper_text(a) == upper_text(b),
{
}

/// The elements of `list` separated by `sep`, as `[..].join(sep)` gives them.
pub open spec fn join(list: Seq<Seq<char>>, sep: Seq<char>) -> Seq<char>
    decreases list.len(),
{
    if list.len() == 0 {
        seq![]
    } else if list.len() == 1 {
        list[0]
    } else {
        join(list.drop_last(), sep) + sep + list.last()
    }
}

/// Joins strings with a separator.
pub fn join_strings(list: &[String], sep: &str) -> (r: String)
    ensures
        r@ == join(list@.map_values(|s: String| s@), sep@),
{
    let ghost all = list@.map_values(|s: String| s@);
    let mut r = String::new();
    let mut i: usize = 0;
    assert(all.take(0) =~= Seq::<Seq<char>>::empty());
    while i < list.len()
        invariant
            i <= list@.len(),
            all == list@.map_values(|s: String| s@),
            r@ == join(all.take(i as int), sep@),
        decreases list@.len() - i,
    {
        let ghost t = all.take(i + 1);
        assert(t.drop_last() =~= all.take(i as int));
        assert(t.last() == list@[i as int]@);
        if i > 0 {
            r.append(sep);
        } else {
            assert(r@ =~= Seq::<char>::empty());
        }
        r.append(list[i].as_str());
        proof {
            if i == 0 {
                assert(t.len() == 1);
                assert(r@ =~= t[0]);
            }
        }
        i = i + 1;
    }
    assert(all.take(i as int) =~= all);
    r
}

/// `s` holds no line feed.
pub open spec fn single_line(s: Seq<char>) -> bool {
    forall|i: int| 0 <= i < s.len() ==> s[i] != '\n'
}

/// A line that `lines` gives back as it is: not empty, without a line feed,
/// and not ending in a carriage return.
pub open spec fn is_plain_line(l: Seq<char>) -> bool {
    &&& l.len() > 0
    &&& single_line(l)
    &&& l.last() != '\r'
}

/// Every text of `ls` is free of line feeds.
pub open spec fn all_single_line(ls: Seq<Seq<char>>) -> bool {
    forall|i: int| 0 <= i < ls.len() ==> single_line(#[trigger] ls[i])
}

/// Two texts without line feeds, put together, hold none.
pub proof fn lemma_concat_single_line(a: Seq<char>, b: Seq<char>)
    requires
        single_line(a),
        single_line(b),
    ensures
        single_line(a + b),
{
    assert forall|i: int| 0 <= i < (a + b).len() implies (a + b)[i] != '\n' by {
        if i < a.len() {
            assert((a + b)[i] == a[i]);
        } else {
            assert((a + b)[i] == b[i - a.len()]);
        }
    }
}

/// Two lists of texts without line feeds, put together, hold none.
pub proof fn lemma_concat_all_single_line(a: Seq<Seq<char>>, b: Seq<Seq<char>>)
    requires
        all_single_line(a),
        all_single_line(b),
    ensures
        all_single_line(a + b),
{
    assert forall|i: int| 0 <= i < (a + b).len() implies single_line(#[trigger] (a + b)[i]) by {
        if i < a.len() {
            assert((a + b)[i] == a[i]);
        } else {
            assert((a + b)[i] == b[i - a.len()]);
        }
    }
}

/// Texts without line feeds, joined by a separator without one, hold none.
pub proof fn lemma_join_single_line(ls: Seq<Seq<char>>, sep: Seq<char>)
    requires
        all_single_line(ls),
        single_line(sep),
    ensures
        single_line(join(ls, sep)),
    decreases ls.len(),
{
    if ls.len() == 1 {
        assert(single_line(ls[0]));
    } else if ls.len() > 1 {
        let init = ls.drop_last();
        assert forall|i: int| 0 <= i < init.len() implies single_line(#[trigger] init[i]) by {
            assert(init[i] == ls[i]);
        }
        assert(single_line(ls[ls.len() - 1]));
        lemma_join_single_line(init, sep);
        lemma_concat_single_line(join(init, sep), sep);
        lemma_concat_single_line(join(init, sep) + sep, ls.last());
    }
}

/// A decimal number is a plain line of digits.
pub proof fn lemma_decimal_plain(n: nat)
    ensures
        is_plain_line(decimal(n)),
    decreases n,
{
    if n >= 10 {
        lemma_decimal_plain(n / 10);
        let d = decimal(n / 10);
        let c = digit_char(n % 10);
        assert(single_line(d.push(c))) by {
            assert forall|i: int| 0 <= i < d.push(c).len() implies d.push(c)[i] != '\n' by {
                if i < d.len() {
                    assert(d.push(c)[i] == d[i]);
                }
            }
        }
    }
}

/// A signed decimal number is a plain line.
pub proof fn lemma_signed_decimal_plain(n: int)
    ensures
        is_plain_line(signed_decimal(n)),
{
    if n < 0 {
        lemma_decimal_plain((-n) as nat);
        let d = decimal((-n) as nat);
        lemma_concat_single_line(seq!['-'], d);
        assert((seq!['-'] + d).last() == d.last());
    } else {
        lemma_decimal_plain(n as nat);
    }
}

/// Reading past text without a line feed only extends the partial line.
proof fn lemma_lines_from_shift(x: Seq<char>, rest: Seq<char>, cur: Seq<char>)
    requires
        single_line(x),
    ensures
        lines_from(x + rest, cur) == lines_from(rest, cur + x),
    decreases x.len(),
{
    if x.len() == 0 {
        assert(x + rest =~= rest);
        assert(cur + x =~= cur);
    } else {
        let s = x + rest;
        assert(s[0] == x[0]);
        assert(s.drop_first() =~= x.drop_first() + rest);
        lemma_lines_from_shift(x.drop_first(), rest, cur.push(x[0]));
        assert(cur.push(x[0]) + x.drop_first() =~= cur + x);
    }
}

/// A plain line followed by a line feed is read back as that line.
proof fn lemma_lines_of_line_then(l: Seq<char>, r: Seq<char>)
    requires
        is_plain_line(l),
    ensures
        lines_from(l + "\n"@ + r, seq![]) == seq![l] + lines(r),
{
    reveal_strlit("\n");
    assert(l + "\n"@ + r =~= l + ("\n"@ + r));
    lemma_lines_from_shift(l, "\n"@ + r, seq![]);
    assert(Seq::<char>::empty() + l =~= l);
    let t = "\n"@ + r;
    assert(t[0] == '\n');
    assert(t.drop_first() =~= r);
}

/// Plain lines joined with line feeds, then a line feed and more text, are
/// read back as those lines followed by the lines of the rest.
proof fn lemma_lines_of_join_then(ls: Seq<Seq<char>>, r: Seq<char>)
    requires
        ls.len() > 0,
        forall|i: int| 0 <= i < ls.len() ==> is_plain_line(#[trigger] ls[i]),
    ensures
        lines_from(join(ls, "\n"@) + "\n"@ + r, seq![]) == ls + lines(r),
    decreases ls.len(),
{
    if ls.len() == 1 {
        lemma_lines_of_line_then(ls[0], r);
        assert(seq![ls[0]] =~= ls);
    } else {
        let init = ls.drop_last();
        let last = ls.last();
        assert(is_plain_line(ls[ls.len() - 1]));
        assert forall|i: int| 0 <= i < init.len() implies is_plain_line(#[trigger] init[i]) by {
            assert(init[i] == ls[i]);
        }
        let tail = last + "\n"@ + r;
        assert(join(ls, "\n"@) + "\n"@ + r =~= join(init, "\n"@) + "\n"@ + tail);
        lemma_lines_of_join_then(init, tail);
        lemma_lines_of_line_then(last, r);
        assert(init + (seq![last] + lines(r)) =~= ls + lines(r));
    }
}

/// Plain lines joined with line feeds are split back into the same lines.
pub proof fn lemma_lines_of_join(ls: Seq<Seq<char>>)
    requires
        forall|i: int| 0 <= i < ls.len() ==> is_plain_line(#[trigger] ls[i]),
    ensures
        lines(join(ls, "\n"@)) == ls,
{
    if ls.len() == 0 {
        assert(lines(join(ls, "\n"@)) =~= ls);
    } else if ls.len() == 1 {
        assert(is_plain_line(ls[0]));
        lemma_lines_from_shift(ls[0], seq![], seq![]);
        assert(ls[0] + Seq::<char>::empty() =~= ls[0]);
        assert(Seq::<char>::empty() + ls[0] =~= ls[0]);
        assert(seq![ls[0]] =~= ls);
    } else {
        let init = ls.drop_last();
        let last = ls.last();
        assert(is_plain_line(ls[ls.len() - 1]));
        assert forall|i: int| 0 <= i < init.len() implies is_plain_line(#[trigger] init[i]) by {
            assert(init[i] == ls[i]);
        }
        lemma_lines_of_join_then(init, last);
        lemma_lines_from_shift(last, seq![], seq![]);
        assert(last + Seq::<char>::empty() =~= last);
        assert(Seq::<char>::empty() + last =~= last);
        assert(init + seq![last] =~= ls);
    }
}

/// Tests two string slices for equality.
pub fn same_text(a: &str, b: &str) -> (r: bool)
    ensures
        r == (a@ == b@),
{
    let x = owned(a);
    let y = owned(b);
    x == y
}

} // verus!

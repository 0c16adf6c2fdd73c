//! Reading the application's log files: the timestamp a line starts with, the
//! order lines are shown in, their level, and colour codes removed.
use vstd::prelude::*;
use vstd::utf8::{
    decode_utf8, encode_utf8, is_char_boundary, is_continuation_byte, length_of_first_scalar,
    pop_first_scalar, valid_utf8,
};

use crate::import::opt_text;
use crate::ledger::{text_le, text_le_chars};
use crate::text::{
    ascii_lower, chars_eq, chars_of, contains, contains_chars, split_chars, split_on, string_of,
    to_ascii_lower, trim, trim_chars, trim_end, views_of,
};

verus! {

/// One line of a log, with the log it came from and its level.
#[derive(Debug, Clone)]
pub struct LogLine {
    pub source: String,
    pub level: String,
    pub line: String,
}

/// The recent log lines and the directory they were read from.
#[derive(Debug, Clone)]
pub struct LogsReadResponse {
    pub log_dir: String,
    pub lines: Vec<LogLine>,
}

/// Where a support bundle was written, its size, and how many lines it holds.
#[derive(Debug, Clone)]
pub struct LogsExportResponse {
    pub path: String,
    pub bytes_written: u64,
    pub line_count: usize,
}

/// The UTF-8 bytes of a line begin with a `[YYYY-MM-DD][HH:MM:SS]` stamp: the
/// brackets, dashes and colons stand where the stamp puts them.
pub open spec fn has_stamp_bytes(b: Seq<u8>) -> bool {
    &&& b.len() >= 22
    &&& b[0] == 91
    &&& b[5] == 45
    &&& b[8] == 45
    &&& b[11] == 93
    &&& b[12] == 91
    &&& b[15] == 58
    &&& b[18] == 58
    &&& b[21] == 93
}

/// The stamp a log line begins with (its first 22 bytes), by which lines are
/// ordered in time.
pub open spec fn timestamp_key(line: Seq<char>) -> Option<Seq<char>> {
    let b = encode_utf8(line);
    if has_stamp_bytes(b) {
        Some(decode_utf8(b.subrange(0, 22)))
    } else {
        None
    }
}

proof fn lemma_boundary_after_ascii(bytes: Seq<u8>, i: int)
    requires
        valid_utf8(bytes),
        0 <= i < bytes.len(),
        is_char_boundary(bytes, i),
        bytes[i] < 0x80,
    ensures
        is_char_boundary(bytes, i + 1),
    decreases bytes.len(),
{
    let tail = pop_first_scalar(bytes);
    if i == 0 {
        assert(length_of_first_scalar(bytes) == 1);
        assert(is_char_boundary(tail, 0));
    } else {
        let l = length_of_first_scalar(bytes);
        assert(is_char_boundary(bytes, i) == is_char_boundary(tail, i - l));
        assert(tail[i - l] == bytes[i]);
        lemma_boundary_after_ascii(tail, i - l);
        assert(is_char_boundary(bytes, i + 1) == is_char_boundary(tail, i + 1 - l));
    }
}

/// The `[YYYY-MM-DD][HH:MM:SS]` stamp a log line begins with, if it has one.
pub fn parse_timestamp_sort_key(line: &str) -> (r: Option<String>)
    ensures
        opt_text(r) == timestamp_key(line@),
{
    broadcast use vstd::utf8::encode_utf8_valid_utf8, vstd::utf8::encode_utf8_decode_utf8;

    let b = line.as_bytes();
    if b.len() < 22 {
        return None;
    }
    if b[0] != 91 || b[5] != 45 || b[8] != 45 || b[11] != 93 || b[12] != 91 || b[15] != 58 || b[18]
        != 58 || b[21] != 93 {
        return None;
    }
    let ghost bytes = encode_utf8(line@);
    proof {
        assert(valid_utf8(bytes));
        vstd::utf8::is_char_boundary_iff_not_is_continuation_byte(bytes, 21);
        assert(!is_continuation_byte(bytes[21]));
        lemma_boundary_after_ascii(bytes, 21);
    }
    let (head, _rest) = line.split_at(22);
    let key = head.to_owned();
    proof {
        assert(encode_utf8(key@) == bytes.subrange(0, 22));
        assert(decode_utf8(encode_utf8(key@)) == key@);
    }
    Some(key)
}

/// How two texts compare in code-point order (the order of `str` comparison).
pub open spec fn text_order(a: Seq<char>, b: Seq<char>) -> core::cmp::Ordering {
    if a == b {
        core::cmp::Ordering::Equal
    } else if text_le(a, b) {
        core::cmp::Ordering::Less
    } else {
        core::cmp::Ordering::Greater
    }
}

/// The order log lines are shown in: stamped lines by stamp, before unstamped
/// lines, and unstamped lines by their text.
pub open spec fn log_line_order(a: Seq<char>, b: Seq<char>) -> core::cmp::Ordering {
    match (timestamp_key(a), timestamp_key(b)) {
        (Some(ta), Some(tb)) => text_order(ta, tb),
        (Some(_), None) => core::cmp::Ordering::Less,
        (None, Some(_)) => core::cmp::Ordering::Greater,
        (None, None) => text_order(a, b),
    }
}

fn text_compare(a: &str, b: &str) -> (r: core::cmp::Ordering)
    ensures
        r == text_order(a@, b@),
{
    let va = chars_of(a);
    let vb = chars_of(b);
    if chars_eq(&va, &vb) {
        core::cmp::Ordering::Equal
    } else if text_le_chars(&va, &vb) {
        core::cmp::Ordering::Less
    } else {
        core::cmp::Ordering::Greater
    }
}

/// Compares two log lines in display order (see [`log_line_order`]).
pub fn compare_log_lines(a: &LogLine, b: &LogLine) -> (r: core::cmp::Ordering)
    ensures
        r == log_line_order(a.line@, b.line@),
{
    match (parse_timestamp_sort_key(a.line.as_str()), parse_timestamp_sort_key(b.line.as_str())) {
        (Some(ta), Some(tb)) => text_compare(ta.as_str(), tb.as_str()),
        (Some(_), None) => core::cmp::Ordering::Less,
        (None, Some(_)) => core::cmp::Ordering::Greater,
        (None, None) => text_compare(a.line.as_str(), b.line.as_str()),
    }
}

/// Where the removal of colour codes stands: in text, just after an escape
/// character, or inside an escape sequence.
pub enum AnsiState {
    Text,
    Escape,
    Sequence,
}

/// An ASCII letter.
pub open spec fn is_ascii_alpha(c: char) -> bool {
    ('a' <= c <= 'z') || ('A' <= c <= 'Z')
}

/// Takes one character: an escape character is dropped; after it, `[` opens an
/// escape sequence, which is dropped up to and including its first ASCII letter;
/// every other character is kept.
pub open spec fn ansi_step(st: (AnsiState, Seq<char>), c: char) -> (AnsiState, Seq<char>) {
    match st.0 {
        AnsiState::Text => if c == '\u{1b}' {
            (AnsiState::Escape, st.1)
        } else {
            (AnsiState::Text, st.1.push(c))
        },
        AnsiState::Escape => if c == '[' {
            (AnsiState::Sequence, st.1)
        } else if c == '\u{1b}' {
            (AnsiState::Escape, st.1)
        } else {
            (AnsiState::Text, st.1.push(c))
        },
        AnsiState::Sequence => if is_ascii_alpha(c) {
            (AnsiState::Text, st.1)
        } else {
            (AnsiState::Sequence, st.1)
        },
    }
}

/// The state after reading `s`.
pub open spec fn ansi_scan(s: Seq<char>) -> (AnsiState, Seq<char>)
    decreases s.len(),
{
    if s.len() == 0 {
        (AnsiState::Text, Seq::empty())
    } else {
        ansi_step(ansi_scan(s.drop_last()), s.last())
    }
}

/// `s` without its ANSI escape sequences (colour codes).
pub open spec fn without_ansi(s: Seq<char>) -> Seq<char> {
    ansi_scan(s).1
}

/// `text` without its ANSI escape sequences.
pub fn strip_ansi(text: &str) -> (r: String)
    ensures
        r@ == without_ansi(text@),
{
    let v = chars_of(text);
    let mut out: Vec<char> = Vec::new();
    let mut state: u8 = 0;
    let n = v.len();
    let mut i: usize = 0;
    while i < n
        invariant
            n == v@.len(),
            i <= n,
            state <= 2,
            out@ == ansi_scan(v@.take(i as int)).1,
            (state == 0) == (ansi_scan(v@.take(i as int)).0 is Text),
            (state == 1) == (ansi_scan(v@.take(i as int)).0 is Escape),
            (state == 2) == (ansi_scan(v@.take(i as int)).0 is Sequence),
        decreases n - i,
    {
        assert(v@.take(i + 1).drop_last() == v@.take(i as int));
        assert(v@.take(i + 1).last() == v@[i as int]);
        let c = v[i];
        if state == 0 {
            if c == '\u{1b}' {
                state = 1;
            } else {
                out.push(c);
            }
        } else if state == 1 {
            if c == '[' {
                state = 2;
            } else if c == '\u{1b}' {
                state = 1;
            } else {
                state = 0;
                out.push(c);
            }
        } else {
            if ('a' <= c && c <= 'z') || ('A' <= c && c <= 'Z') {
                state = 0;
            }
        }
        i = i + 1;
    }
    assert(v@.take(n as int) == v@);
    string_of(&out)
}

/// What `serde_json` reads as the member `key` of a line holding a JSON object,
/// when that member is a string.
pub uninterp spec fn json_member(line: Seq<char>, key: Seq<char>) -> Option<Seq<char>>;

/// Parses `line` with `serde_json::from_str` into a value and gives its member
/// `key` (`Value::get`) when that is a string; the result is named by
/// `json_member`, nothing more is claimed.
#[verifier::external_body]
fn json_string_member(line: &str, key: &str) -> (r: Option<String>)
    ensures
        opt_text(r) == json_member(line@, key@),
{
    let v: serde_json::Value = match serde_json::from_str(line) {
        Ok(v) => v,
        Err(_) => return None,
    };
    match v.get(key) {
        Some(serde_json::Value::String(s)) => Some(s.clone()),
        _ => None,
    }
}

/// The level of a log line: the first of `[TRACE]`, `[DEBUG]`, `[INFO]`, `[WARN]`
/// and `[ERROR]` it contains, else the `level` of a JSON line, lower-cased, else
/// `unknown`.
pub open spec fn level_of(line: Seq<char>) -> Seq<char> {
    if contains(line, "[TRACE]"@) {
        "trace"@
    } else if contains(line, "[DEBUG]"@) {
        "debug"@
    } else if contains(line, "[INFO]"@) {
        "info"@
    } else if contains(line, "[WARN]"@) {
        "warn"@
    } else if contains(line, "[ERROR]"@) {
        "error"@
    } else {
        match json_member(line, "level"@) {
            Some(l) => ascii_lower(trim(l)),
            None => "unknown"@,
        }
    }
}

/// The level of a log line (see [`level_of`]).
pub fn parse_level(line: &str) -> (r: String)
    ensures
        r@ == level_of(line@),
{
    let v = chars_of(line);
    if contains_chars(&v, &chars_of("[TRACE]")) {
        return "trace".to_owned();
    }
    if contains_chars(&v, &chars_of("[DEBUG]")) {
        return "debug".to_owned();
    }
    if contains_chars(&v, &chars_of("[INFO]")) {
        return "info".to_owned();
    }
    if contains_chars(&v, &chars_of("[WARN]")) {
        return "warn".to_owned();
    }
    if contains_chars(&v, &chars_of("[ERROR]")) {
        return "error".to_owned();
    }
    match json_string_member(line, "level") {
        Some(l) => string_of(&to_ascii_lower(&trim_chars(&chars_of(l.as_str())))),
        None => "unknown".to_owned(),
    }
}

/// The non-empty texts of `s`, in order.
pub open spec fn keep_nonempty(s: Seq<Seq<char>>) -> Seq<Seq<char>>
    decreases s.len(),
{
    if s.len() == 0 {
        s
    } else if s.last().len() > 0 {
        keep_nonempty(s.drop_last()).push(s.last())
    } else {
        keep_nonempty(s.drop_last())
    }
}

/// The last `n` elements of `s` (all of them when there are fewer).
pub open spec fn last_n<T>(s: Seq<T>, n: int) -> Seq<T> {
    if s.len() > n {
        s.skip(s.len() - n)
    } else {
        s
    }
}

/// The lines shown from the end of a log file: the text read is split into
/// lines (dropping the first, partial one when reading began inside the file),
/// each without colour codes and trailing whitespace; empty lines are dropped and
/// only the last `max_lines` are kept.
pub open spec fn tail_of(buf: Seq<char>, started_mid: bool, max_lines: int) -> Seq<Seq<char>> {
    let pieces = split_on(buf, '\n');
    let ls = if started_mid {
        pieces.drop_first()
    } else {
        pieces
    };
    last_n(keep_nonempty(ls.map_values(|l: Seq<char>| trim_end(without_ansi(l)))), max_lines)
}

/// `v` without its trailing whitespace.
fn trim_end_chars(v: &[char]) -> (r: Vec<char>)
    ensures
        r@ == trim_end(v@),
{
    let mut j: usize = v.len();
    assert(v@.take(j as int) == v@);
    while j > 0 && crate::text::is_whitespace(v[j - 1])
        invariant
            j <= v@.len(),
            trim_end(v@) == trim_end(v@.take(j as int)),
        decreases j,
    {
        assert(v@.take(j as int).drop_last() == v@.take(j - 1));
        assert(v@.take(j as int).last() == v@[j - 1]);
        j = j - 1;
    }
    assert(v@.take(j as int) == v@.subrange(0, j as int));
    crate::text::slice_range(v, 0, j)
}

/// The lines shown from the end of a log file (see [`tail_of`]).
pub fn tail_text(buf: &str, started_mid: bool, max_lines: usize) -> (r: Vec<String>)
    ensures
        r@.map_values(|l: String| l@) == tail_of(buf@, started_mid, max_lines as int),
{
    let pieces = split_chars(&chars_of(buf), '\n');
    let ghost ps = views_of(pieces@);
    let ghost ls = if started_mid {
        ps.drop_first()
    } else {
        ps
    };
    let ghost mapped = ls.map_values(|l: Seq<char>| trim_end(without_ansi(l)));
    let start: usize = if started_mid {
        1
    } else {
        0
    };
    let mut kept: Vec<String> = Vec::new();
    let n = pieces.len();
    let mut i: usize = start;
    assert(kept@.map_values(|l: String| l@) =~= keep_nonempty(mapped.take(0)));
    while i < n
        invariant
            n == pieces@.len(),
            ps == views_of(pieces@),
            n >= 1,
            start == (if started_mid {
                1usize
            } else {
                0usize
            }),
            ls == (if started_mid {
                ps.drop_first()
            } else {
                ps
            }),
            mapped == ls.map_values(|l: Seq<char>| trim_end(without_ansi(l))),
            start <= i <= n,
            mapped.len() == n - start,
            kept@.map_values(|l: String| l@) == keep_nonempty(mapped.take(i - start)),
        decreases n - i,
    {
        assert(mapped.take(i - start + 1).drop_last() == mapped.take(i - start));
        assert(ls[i - start] == pieces@[i as int]@);
        let cleaned = strip_ansi(string_of(&pieces[i]).as_str());
        let t = trim_end_chars(&chars_of(cleaned.as_str()));
        let ghost before = kept@;
        if t.len() > 0 {
            kept.push(string_of(&t));
            assert(kept@.map_values(|l: String| l@) =~= before.map_values(|l: String| l@).push(t@));
        }
        i = i + 1;
    }
    assert(mapped.take(n - start) == mapped);
    let total = kept.len();
    if total > max_lines {
        let mut out: Vec<String> = Vec::new();
        let from = total - max_lines;
        let mut k = from;
        while k < total
            invariant
                total == kept@.len(),
                from <= k <= total,
                out@.map_values(|l: String| l@) == kept@.map_values(|l: String| l@).subrange(
                    from as int,
                    k as int,
                ),
            decreases total - k,
        {
            let ghost before = out@;
            let c = kept[k].clone();
            out.push(c);
            assert(out@.map_values(|l: String| l@) =~= before.map_values(|l: String| l@).push(c@));
            assert(out@.map_values(|l: String| l@) =~= kept@.map_values(|l: String| l@).subrange(
                from as int,
                k + 1,
            ));
            k = k + 1;
        }
        out
    } else {
        kept
    }
}

/// A line tagged `[TRACE]`, `[DEBUG]`, `[INFO]`, `[WARN]` or `[ERROR]` has that
/// level (the first of them in this order when it carries several); an untagged
/// line takes the lower-cased `level` of a JSON line, and otherwise is `unknown`.
pub proof fn law_log_levels(line: Seq<char>)
    ensures
        contains(line, "[TRACE]"@) ==> level_of(line) == "trace"@,
        !contains(line, "[TRACE]"@) && contains(line, "[DEBUG]"@) ==> level_of(line) == "debug"@,
        !contains(line, "[TRACE]"@) && !contains(line, "[DEBUG]"@) && contains(line, "[INFO]"@)
            ==> level_of(line) == "info"@,
        !contains(line, "[TRACE]"@) && !contains(line, "[DEBUG]"@) && !contains(line, "[INFO]"@)
            && contains(line, "[WARN]"@) ==> level_of(line) == "warn"@,
        !contains(line, "[TRACE]"@) && !contains(line, "[DEBUG]"@) && !contains(line, "[INFO]"@)
            && !contains(line, "[WARN]"@) && contains(line, "[ERROR]"@) ==> level_of(line)
            == "error"@,
        !contains(line, "[TRACE]"@) && !contains(line, "[DEBUG]"@) && !contains(line, "[INFO]"@)
            && !contains(line, "[WARN]"@) && !contains(line, "[ERROR]"@) && json_member(
            line,
            "level"@,
        ) is None ==> level_of(line) == "unknown"@,
{
}

} // verus!

//! Text search across the books: the query, the `LIKE` pattern it becomes, and
//! the capped list of hits.
use vstd::prelude::*;

use crate::error::DbCommandError;
use crate::text::{chars_of, string_of, trim, trim_chars};

verus! {

/// One search result: what was found, where it lives in the app, and how to show it.
#[derive(Debug, Clone)]
pub struct SearchHit {
    pub kind: String,
    pub id: i64,
    pub title: String,
    pub subtitle: Option<String>,
    pub path: String,
}

/// The answer to a search: the query as searched and its hits.
#[derive(Debug, Clone)]
pub struct GlobalSearchResponse {
    pub query: String,
    pub hits: Vec<SearchHit>,
}

/// The most hits a search returns.
pub const MAX_HITS: usize = 200;

/// The characters of `q` with `\`, `%` and `_` escaped by a `\`.
pub open spec fn escape_like(q: Seq<char>) -> Seq<char>
    decreases q.len(),
{
    if q.len() == 0 {
        q
    } else {
        let c = q.last();
        escape_like(q.drop_last()) + if c == '\\' || c == '%' || c == '_' {
            seq!['\\', c]
        } else {
            seq![c]
        }
    }
}

/// A `LIKE ... ESCAPE '\'` pattern that matches any text containing `q` literally.
pub open spec fn like_contains_pattern(q: Seq<char>) -> Seq<char> {
    seq!['%'] + escape_like(q) + seq!['%']
}

/// Escapes `%`, `_` and `\` in `query` for SQLite `LIKE ... ESCAPE '\'`, and
/// surrounds it with `%`, so that the pattern matches any text containing the query.
pub fn sql_like_contains(query: &str) -> (r: String)
    ensures
        r@ == like_contains_pattern(query@),
{
    let q = chars_of(query);
    let mut out: Vec<char> = Vec::new();
    out.push('%');
    let n = q.len();
    let mut i: usize = 0;
    while i < n
        invariant
            n == q@.len(),
            i <= n,
            out@ == seq!['%'] + escape_like(q@.take(i as int)),
        decreases n - i,
    {
        let c = q[i];
        assert(q@.take(i + 1).drop_last() == q@.take(i as int));
        assert(q@.take(i + 1).last() == c);
        if c == '\\' || c == '%' || c == '_' {
            out.push('\\');
            out.push(c);
            assert(out@ == seq!['%'] + escape_like(q@.take(i + 1)));
        } else {
            out.push(c);
            assert(out@ == seq!['%'] + escape_like(q@.take(i + 1)));
        }
        i = i + 1;
    }
    assert(q@.take(n as int) == q@);
    out.push('%');
    string_of(&out)
}

/// Reads escaped text back: a `\` stands for the character after it.
pub open spec fn unescape_like(s: Seq<char>) -> Seq<char>
    decreases s.len(),
{
    if s.len() == 0 {
        s
    } else if s[0] == '\\' && s.len() >= 2 {
        seq![s[1]] + unescape_like(s.skip(2))
    } else {
        seq![s[0]] + unescape_like(s.skip(1))
    }
}

/// A pattern character that matches something other than itself.
pub open spec fn is_like_wildcard(c: char) -> bool {
    c == '%' || c == '_'
}

/// Every `%`, `_` and `\` of escaped text is preceded by a `\` that escapes it.
pub open spec fn all_escaped(s: Seq<char>) -> bool
    decreases s.len(),
{
    if s.len() == 0 {
        true
    } else if s[0] == '\\' {
        s.len() >= 2 && all_escaped(s.skip(2))
    } else {
        !is_like_wildcard(s[0]) && all_escaped(s.skip(1))
    }
}

proof fn lemma_escape_append(a: Seq<char>, c: char)
    ensures
        escape_like(a.push(c)) == escape_like(a) + (if c == '\\' || c == '%' || c == '_' {
            seq!['\\', c]
        } else {
            seq![c]
        }),
{
    assert(a.push(c).drop_last() == a);
}

proof fn lemma_unescape_concat(e: Seq<char>, t: Seq<char>)
    requires
        all_escaped(e),
    ensures
        unescape_like(e + t) == unescape_like(e) + unescape_like(t),
        all_escaped(t) ==> all_escaped(e + t),
    decreases e.len(),
{
    if e.len() == 0 {
        assert(e + t == t);
        assert(unescape_like(e) == e);
        assert(e + unescape_like(t) == unescape_like(t));
    } else if e[0] == '\\' {
        lemma_unescape_concat(e.skip(2), t);
        assert((e + t).skip(2) == e.skip(2) + t);
        assert((e + t)[0] == e[0]);
        assert((e + t)[1] == e[1]);
        assert(seq![e[1]] + (unescape_like(e.skip(2)) + unescape_like(t)) == (seq![e[1]]
            + unescape_like(e.skip(2))) + unescape_like(t));
    } else {
        lemma_unescape_concat(e.skip(1), t);
        assert((e + t).skip(1) == e.skip(1) + t);
        assert((e + t)[0] == e[0]);
        assert(seq![e[0]] + (unescape_like(e.skip(1)) + unescape_like(t)) == (seq![e[0]]
            + unescape_like(e.skip(1))) + unescape_like(t));
    }
}

proof fn lemma_escape_round_trip(q: Seq<char>)
    ensures
        all_escaped(escape_like(q)),
        unescape_like(escape_like(q)) == q,
    decreases q.len(),
{
    if q.len() > 0 {
        let a = q.drop_last();
        let c = q.last();
        lemma_escape_round_trip(a);
        lemma_escape_append(a, c);
        assert(a.push(c) == q);
        let piece = if c == '\\' || c == '%' || c == '_' {
            seq!['\\', c]
        } else {
            seq![c]
        };
        assert(all_escaped(Seq::<char>::empty()));
        if c == '\\' || c == '%' || c == '_' {
            assert(piece.skip(2) == Seq::<char>::empty());
            assert(all_escaped(piece));
            assert(unescape_like(piece) == seq![c] + unescape_like(Seq::<char>::empty()));
        } else {
            assert(piece.skip(1) == Seq::<char>::empty());
            assert(all_escaped(piece));
            assert(unescape_like(piece) == seq![c] + unescape_like(Seq::<char>::empty()));
        }
        lemma_unescape_concat(escape_like(a), piece);
    } else {
        assert(escape_like(q) == q);
    }
}

/// The pattern for a query is `%`, the query with every wildcard and escape
/// character escaped, and `%`: reading the middle back gives the query exactly,
/// so no character of the query acts as a wildcard.
pub proof fn law_like_pattern_round_trip(q: Seq<char>)
    ensures
        ({
            let p = like_contains_pattern(q);
            &&& p[0] == '%'
            &&& p.last() == '%'
            &&& all_escaped(p.subrange(1, p.len() - 1))
            &&& unescape_like(p.subrange(1, p.len() - 1)) == q
        }),
{
    lemma_escape_round_trip(q);
    let p = like_contains_pattern(q);
    assert(p.subrange(1, p.len() - 1) == escape_like(q));
}

/// The width in bytes of `c` in UTF-8.
pub open spec fn utf8_width(c: char) -> int {
    let u = c as u32;
    if u < 0x80 {
        1
    } else if u < 0x800 {
        2
    } else if u < 0x10000 {
        3
    } else {
        4
    }
}

/// The length in bytes of `s` in UTF-8 (what `str::len` reports).
pub open spec fn utf8_len(s: Seq<char>) -> int
    decreases s.len(),
{
    if s.len() == 0 {
        0
    } else {
        utf8_len(s.drop_last()) + utf8_width(s.last())
    }
}

proof fn lemma_utf8_len_mono(s: Seq<char>, i: int)
    requires
        0 <= i <= s.len(),
    ensures
        utf8_len(s.take(i)) <= utf8_len(s),
    decreases s.len() - i,
{
    if i < s.len() {
        lemma_utf8_len_mono(s, i + 1);
        assert(s.take(i + 1).drop_last() == s.take(i));
    } else {
        assert(s.take(i) == s);
    }
}

/// Whether `v` takes more than `limit` bytes in UTF-8.
fn utf8_longer_than(v: &[char], limit: usize) -> (r: bool)
    requires
        limit <= 1000,
    ensures
        r == (utf8_len(v@) > limit),
{
    let mut bytes: usize = 0;
    let mut i: usize = 0;
    while i < v.len()
        invariant
            i <= v@.len(),
            limit <= 1000,
            bytes == utf8_len(v@.take(i as int)),
            bytes <= limit,
        decreases v@.len() - i,
    {
        assert(v@.take(i + 1).drop_last() == v@.take(i as int));
        let u = v[i] as u32;
        let w: usize = if u < 0x80 {
            1
        } else if u < 0x800 {
            2
        } else if u < 0x10000 {
            3
        } else {
            4
        };
        bytes = bytes + w;
        i = i + 1;
        if bytes > limit {
            proof {
                lemma_utf8_len_mono(v@, i as int);
            }
            return true;
        }
    }
    assert(v@.take(v@.len() as int) == v@);
    false
}

/// What to search for: the trimmed query, its `LIKE` pattern (none for an empty
/// query, which finds nothing), and the number of hits wanted per kind of record.
#[derive(Debug, Clone)]
pub struct SearchPlan {
    pub query: String,
    pub pattern: Option<String>,
    pub limit_per_category: i64,
}

/// `limit` held to `1..=40`.
pub open spec fn clamp_limit(limit: int) -> int {
    if limit < 1 {
        1
    } else if limit > 40 {
        40
    } else {
        limit
    }
}

/// Prepares a search for `query`: a query longer than 200 bytes once trimmed is
/// refused; an empty one searches nothing; otherwise the pattern matches texts
/// containing it, and the per-kind limit (12 when not given) is held to `1..=40`.
pub fn plan_search(query: &str, limit: Option<i64>) -> (r: Result<SearchPlan, DbCommandError>)
    ensures
        utf8_len(trim(query@)) > 200 ==> (r matches Err(DbCommandError::Validation { message })
            && message@ == "Search query is too long (max 200 characters)."@),
        utf8_len(trim(query@)) <= 200 ==> (r matches Ok(p) && p.query@ == trim(query@) && (if trim(
            query@,
        ).len() == 0 {
            p.pattern is None
        } else {
            p.pattern matches Some(pat) && pat@ == like_contains_pattern(trim(query@))
        }) && p.limit_per_category == clamp_limit(
            match limit {
                Some(l) => l as int,
                None => 12,
            },
        )),
{
    let t = trim_chars(&chars_of(query));
    if utf8_longer_than(&t, 200) {
        return Err(
            DbCommandError::Validation {
                message: "Search query is too long (max 200 characters).".to_owned(),
            },
        );
    }
    let q = string_of(&t);
    let lim = match limit {
        Some(l) => l,
        None => 12,
    };
    let clamped = if lim < 1 {
        1
    } else if lim > 40 {
        40
    } else {
        lim
    };
    let pattern = if t.len() == 0 {
        None
    } else {
        Some(sql_like_contains(q.as_str()))
    };
    Ok(SearchPlan { query: q, pattern, limit_per_category: clamped })
}

/// Appends the hits of one kind of record, in order, stopping once the list holds
/// [`MAX_HITS`] hits.
pub fn append_hits(hits: &mut Vec<SearchHit>, found: Vec<SearchHit>)
    ensures
        ({
            let room = if old(hits)@.len() >= 200 {
                0
            } else {
                200 - old(hits)@.len()
            };
            let taken = if found@.len() < room {
                found@.len() as int
            } else {
                room
            };
            final(hits)@ == old(hits)@ + found@.take(taken)
        }),
{
    let ghost start = hits@;
    let n = found.len();
    let mut i: usize = 0;
    while i < n && hits.len() < MAX_HITS
        invariant
            n == found@.len(),
            i <= n,
            hits@ == start + found@.take(i as int),
            hits@.len() == start.len() + i,
            start.len() >= 200 ==> i == 0,
            start.len() < 200 ==> start.len() + i <= 200,
        decreases n - i,
    {
        hits.push(found[i].clone_hit());
        assert(found@.take(i + 1) == found@.take(i as int).push(found@[i as int]));
        i = i + 1;
    }
}

impl SearchHit {
    /// A copy of the hit.
    pub fn clone_hit(&self) -> (r: SearchHit)
        ensures
            r == *self,
    {
        SearchHit {
            kind: self.kind.clone(),
            id: self.id,
            title: self.title.clone(),
            subtitle: match &self.subtitle {
                Some(s) => Some(s.clone()),
                None => None,
            },
            path: self.path.clone(),
        }
    }
}

/// However the hits of each kind are appended, a search never answers more
/// than [`MAX_HITS`] hits.
pub proof fn law_search_hits_are_capped(before: Seq<SearchHit>, found: Seq<SearchHit>)
    requires
        before.len() <= 200,
    ensures
        ({
            let room = 200 - before.len();
            let taken = if found.len() < room {
                found.len() as int
            } else {
                room
            };
            (before + found.take(taken)).len() <= 200
        }),
{
}

} // verus!

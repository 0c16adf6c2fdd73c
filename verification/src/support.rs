//! The offline support bundle: home directories and user names masked out of
//! the text, and the bundle's header, context and log lines.
use vstd::prelude::*;

use crate::import::opt_text;
use crate::ipc::LogLevel;
use crate::logs::LogLine;
use crate::num::{dec, fmt_u64};
use crate::log_view::{insert_stable, lemma_insert_at, lemma_insert_step, sort_stable};
use crate::search::{utf8_len, utf8_width};
use crate::text::{
    chars_eq, chars_of, concat, concat_all, ends_with, ends_with_chars, join_strs, matches_at,
    occurs_at, slice_range, str_texts, string_of, trim, trim_chars, views_of,
};

verus! {

/// The length of `s` in UTF-8 bytes (what `str::len` reports).
pub open spec fn byte_len(s: Seq<char>) -> int {
    utf8_len(s)
}

/// The length of `v` in UTF-8 bytes.
fn byte_len_of(v: &[char]) -> (r: u128)
    ensures
        r == byte_len(v@),
{
    let mut bytes: u128 = 0;
    let mut i: usize = 0;
    while i < v.len()
        invariant
            i <= v@.len(),
            bytes == utf8_len(v@.take(i as int)),
            bytes <= 4 * i,
        decreases v@.len() - i,
    {
        assert(v@.take(i + 1).drop_last() == v@.take(i as int));
        let u = v[i] as u32;
        let w: u128 = if u < 0x80 {
            1
        } else if u < 0x800 {
            2
        } else if u < 0x10000 {
            3
        } else {
            4
        };
        assert(w == utf8_width(v@[i as int]));
        bytes = bytes + w;
        i = i + 1;
    }
    assert(v@.take(v@.len() as int) == v@);
    bytes
}

/// What masks a home directory or user name.
pub open spec fn redaction_mark() -> Seq<char> {
    "<REDACTED_HOME>"@
}

/// The texts that give a user away: the profile and home directories when set
/// and not empty, and, for a user name (the Windows one, else the Unix one) of
/// at least two bytes, the home paths built from it on Windows, macOS and Linux.
pub open spec fn home_needle_texts(
    profile: Option<Seq<char>>,
    home: Option<Seq<char>>,
    username: Option<Seq<char>>,
    user: Option<Seq<char>>,
) -> Seq<Seq<char>> {
    let dirs = |d: Option<Seq<char>>|
        match d {
            Some(p) => if p.len() > 0 {
                seq![p]
            } else {
                Seq::empty()
            },
            None => Seq::empty(),
        };
    let name = match username {
        Some(u) => Some(u),
        None => user,
    };
    let paths = match name {
        Some(u) => if byte_len(u) >= 2 {
            seq!["\\Users\\"@ + u, "/Users/"@ + u, "/home/"@ + u]
        } else {
            Seq::empty()
        },
        None => Seq::empty(),
    };
    dirs(profile) + dirs(home) + paths
}

fn push_dir(out: &mut Vec<String>, d: Option<String>)
    ensures
        final(out)@.map_values(|s: String| s@) == old(out)@.map_values(|s: String| s@) + match opt_text(d) {
            Some(p) => if p.len() > 0 {
                seq![p]
            } else {
                Seq::empty()
            },
            None => Seq::empty(),
        },
{
    let ghost before = out@;
    match d {
        Some(p) => {
            if chars_of(p.as_str()).len() > 0 {
                out.push(p);
                assert(out@.map_values(|s: String| s@) =~= before.map_values(|s: String| s@) + seq![
                    out@.last()@,
                ]);
            } else {
                assert(out@.map_values(|s: String| s@) =~= before.map_values(|s: String| s@) + Seq::<
                    Seq<char>,
                >::empty());
            }
        },
        None => {
            assert(out@.map_values(|s: String| s@) =~= before.map_values(|s: String| s@) + Seq::<
                Seq<char>,
            >::empty());
        },
    }
}

fn joined(a: &str, b: &str) -> (r: String)
    ensures
        r@ == a@ + b@,
{
    string_of(&concat(&chars_of(a), &chars_of(b)))
}

/// The texts that give a user away (see [`home_needle_texts`]), from the
/// `USERPROFILE`, `HOME`, `USERNAME` and `USER` settings.
pub fn home_needles(
    profile: Option<String>,
    home: Option<String>,
    username: Option<String>,
    user: Option<String>,
) -> (r: Vec<String>)
    ensures
        r@.map_values(|s: String| s@) == home_needle_texts(
            opt_text(profile),
            opt_text(home),
            opt_text(username),
            opt_text(user),
        ),
{
    let mut out: Vec<String> = Vec::new();
    assert(out@.map_values(|s: String| s@) =~= Seq::<Seq<char>>::empty());
    push_dir(&mut out, profile);
    push_dir(&mut out, home);
    let name = match username {
        Some(u) => Some(u),
        None => user,
    };
    let ghost mid = out@.map_values(|s: String| s@);
    match name {
        Some(u) => {
            if byte_len_of(&chars_of(u.as_str())) >= 2 {
                let a = joined("\\Users\\", u.as_str());
                let b = joined("/Users/", u.as_str());
                let c = joined("/home/", u.as_str());
                out.push(a);
                out.push(b);
                out.push(c);
                assert(out@.map_values(|s: String| s@) =~= mid + seq![
                    "\\Users\\"@ + u@,
                    "/Users/"@ + u@,
                    "/home/"@ + u@,
                ]);
            } else {
                assert(out@.map_values(|s: String| s@) =~= mid + Seq::<Seq<char>>::empty());
            }
        },
        None => {
            assert(out@.map_values(|s: String| s@) =~= mid + Seq::<Seq<char>>::empty());
        },
    }
    out
}

/// Every non-overlapping occurrence of `needle` in `t`, from the left,
/// replaced by `with` (what `str::replace` does for a needle that is not empty).
pub open spec fn replaced(t: Seq<char>, needle: Seq<char>, with: Seq<char>) -> Seq<char>
    recommends
        needle.len() > 0,
    decreases t.len(),
{
    if t.len() == 0 || needle.len() == 0 {
        t
    } else if occurs_at(t, needle, 0) {
        with + replaced(t.skip(needle.len() as int), needle, with)
    } else {
        seq![t[0]] + replaced(t.skip(1), needle, with)
    }
}

/// `t` with every occurrence of `needle` replaced by `with` (see [`replaced`]).
pub fn replace_all(t: &[char], needle: &[char], with: &[char]) -> (r: Vec<char>)
    requires
        needle@.len() > 0,
    ensures
        r@ == replaced(t@, needle@, with@),
{
    let mut out: Vec<char> = Vec::new();
    let mut i: usize = 0;
    let n = t.len();
    assert(t@.skip(0) == t@);
    while i < n
        invariant
            n == t@.len(),
            i <= n,
            needle@.len() > 0,
            out@ + replaced(t@.skip(i as int), needle@, with@) == replaced(t@, needle@, with@),
        decreases n - i,
    {
        let ghost rest = t@.skip(i as int);
        if matches_at(t, needle, i) {
            proof {
                assert(rest.subrange(0, needle@.len() as int) == t@.subrange(
                    i as int,
                    i + needle@.len(),
                ));
                assert(occurs_at(rest, needle@, 0));
                assert(rest.skip(needle@.len() as int) == t@.skip(i + needle@.len()));
            }
            let ghost before = out@;
            out = concat(&out, with);
            assert(out@ + replaced(t@.skip(i + needle@.len()), needle@, with@) =~= before + (with@
                + replaced(rest.skip(needle@.len() as int), needle@, with@)));
            i = i + needle.len();
        } else {
            proof {
                if occurs_at(rest, needle@, 0) {
                    assert(t@.subrange(i as int, i + needle@.len()) == rest.subrange(
                        0,
                        needle@.len() as int,
                    ));
                }
                assert(rest.skip(1) == t@.skip(i + 1));
            }
            let ghost before = out@;
            out.push(t[i]);
            assert(out@ + replaced(t@.skip(i + 1), needle@, with@) =~= before + (seq![rest[0]]
                + replaced(rest.skip(1), needle@, with@)));
            i = i + 1;
        }
    }
    assert(t@.skip(n as int) =~= Seq::<char>::empty());
    assert(out@ + Seq::<char>::empty() == out@);
    out
}

/// Needle `a` is replaced after needle `b`: it is shorter in bytes.
pub open spec fn shorter() -> spec_fn(Seq<char>, Seq<char>) -> bool {
    |a: Seq<char>, b: Seq<char>| byte_len(a) < byte_len(b)
}

/// `s` without the elements that repeat the one just before them.
pub open spec fn dedup_adjacent(s: Seq<Seq<char>>) -> Seq<Seq<char>>
    decreases s.len(),
{
    if s.len() == 0 {
        s
    } else if s.len() >= 2 && s[s.len() - 2] == s.last() {
        dedup_adjacent(s.drop_last())
    } else {
        dedup_adjacent(s.drop_last()).push(s.last())
    }
}

/// The needles in the order they are replaced: longest first (equally long ones
/// in their given order), with repeats next to each other dropped.
pub open spec fn needle_order(needles: Seq<Seq<char>>) -> Seq<Seq<char>> {
    dedup_adjacent(sort_stable(needles, shorter()))
}

/// `t` with the needles of `ns` that are at least three bytes long replaced by
/// the mark, one needle after another.
pub open spec fn redact_all(t: Seq<char>, ns: Seq<Seq<char>>) -> Seq<char>
    decreases ns.len(),
{
    if ns.len() == 0 {
        t
    } else if byte_len(ns.last()) < 3 {
        redact_all(t, ns.drop_last())
    } else {
        replaced(redact_all(t, ns.drop_last()), ns.last(), redaction_mark())
    }
}

/// `t` with every needle masked, longest needles first.
pub open spec fn redacted(t: Seq<char>, needles: Seq<Seq<char>>) -> Seq<char> {
    redact_all(t, needle_order(needles))
}

fn copy_chars(v: &[char]) -> (r: Vec<char>)
    ensures
        r@ == v@,
{
    let r = slice_range(v, 0, v.len());
    assert(v@.subrange(0, v@.len() as int) == v@);
    r
}

fn insert_needle(out: &mut Vec<Vec<char>>, x: Vec<char>)
    ensures
        views_of(final(out)@) == insert_stable(views_of(old(out)@), x@, shorter()),
{
    let ghost s = views_of(out@);
    let ghost v0 = out@;
    let xl = byte_len_of(&x);
    let mut pos: usize = out.len();
    assert(s.take(pos as int) == s);
    assert(s.skip(pos as int) =~= Seq::<Seq<char>>::empty());
    while pos > 0 && byte_len_of(&out[pos - 1]) < xl
        invariant
            out@ == v0,
            s == views_of(v0),
            xl == byte_len(x@),
            pos <= s.len(),
            insert_stable(s, x@, shorter()) == insert_stable(s.take(pos as int), x@, shorter())
                + s.skip(pos as int),
        decreases pos,
    {
        proof {
            assert(s[pos - 1] == out@[pos - 1]@);
            lemma_insert_step(s, x@, shorter(), pos as int);
        }
        pos = pos - 1;
    }
    proof {
        if pos > 0 {
            assert(s[pos - 1] == out@[pos - 1]@);
        }
        lemma_insert_at(s, x@, shorter(), pos as int);
    }
    out.insert(pos, x);
    assert(views_of(out@) =~= s.insert(pos as int, x@));
}

/// The needles in replacement order (see [`needle_order`]).
fn prepare_needles(needles: &[String]) -> (r: Vec<Vec<char>>)
    ensures
        views_of(r@) == needle_order(needles@.map_values(|s: String| s@)),
{
    let ghost all = needles@.map_values(|s: String| s@);
    let mut sorted: Vec<Vec<char>> = Vec::new();
    let n = needles.len();
    let mut i: usize = 0;
    assert(views_of(sorted@) =~= sort_stable(all.take(0), shorter()));
    while i < n
        invariant
            n == needles@.len(),
            all == needles@.map_values(|s: String| s@),
            i <= n,
            views_of(sorted@) == sort_stable(all.take(i as int), shorter()),
        decreases n - i,
    {
        proof {
            assert(all.take(i + 1).drop_last() == all.take(i as int));
            assert(all.take(i + 1).last() == needles@[i as int]@);
        }
        insert_needle(&mut sorted, chars_of(needles[i].as_str()));
        i = i + 1;
    }
    assert(all.take(n as int) == all);
    let ghost ss = views_of(sorted@);
    let mut out: Vec<Vec<char>> = Vec::new();
    let mut k: usize = 0;
    assert(views_of(out@) =~= dedup_adjacent(ss.take(0)));
    while k < sorted.len()
        invariant
            ss == views_of(sorted@),
            k <= ss.len(),
            views_of(out@) == dedup_adjacent(ss.take(k as int)),
        decreases ss.len() - k,
    {
        proof {
            let t = ss.take(k + 1);
            assert(t.drop_last() == ss.take(k as int));
            assert(t.last() == sorted@[k as int]@);
            if k >= 1 {
                assert(t[t.len() - 2] == sorted@[k - 1]@);
            }
        }
        if k == 0 || !chars_eq(&sorted[k], &sorted[k - 1]) {
            let ghost before = views_of(out@);
            out.push(copy_chars(&sorted[k]));
            assert(views_of(out@) =~= before.push(ss[k as int]));
        }
        k = k + 1;
    }
    assert(ss.take(ss.len() as int) == ss);
    out
}

fn redact_with(text: &str, prepared: &[Vec<char>]) -> (r: String)
    ensures
        r@ == redact_all(text@, views_of(prepared@)),
{
    let ghost ns = views_of(prepared@);
    let mut cur = chars_of(text);
    let mut i: usize = 0;
    let mark = chars_of("<REDACTED_HOME>");
    while i < prepared.len()
        invariant
            ns == views_of(prepared@),
            i <= ns.len(),
            mark@ == redaction_mark(),
            cur@ == redact_all(text@, ns.take(i as int)),
        decreases ns.len() - i,
    {
        proof {
            assert(ns.take(i + 1).drop_last() == ns.take(i as int));
            assert(ns.take(i + 1).last() == prepared@[i as int]@);
        }
        if byte_len_of(&prepared[i]) >= 3 {
            proof {
                if prepared@[i as int]@.len() == 0 {
                    assert(utf8_len(prepared@[i as int]@) == 0);
                }
            }
            cur = replace_all(&cur, &prepared[i], &mark);
        }
        i = i + 1;
    }
    assert(ns.take(ns.len() as int) == ns);
    string_of(&cur)
}

/// `text` with the home directories and user names of `needles` masked (see [`redacted`]).
pub fn redact_paths(text: &str, needles: &[String]) -> (r: String)
    ensures
        r@ == redacted(text@, needles@.map_values(|s: String| s@)),
{
    let prepared = prepare_needles(needles);
    redact_with(text, &prepared)
}

/// How a log level reads in the bundle header.
pub open spec fn level_label(l: LogLevel) -> Seq<char> {
    match l {
        LogLevel::Off => "Off"@,
        LogLevel::Error => "Error"@,
        LogLevel::Warn => "Warn"@,
        LogLevel::Info => "Info"@,
        LogLevel::Debug => "Debug"@,
        LogLevel::Trace => "Trace"@,
    }
}

fn level_text(l: LogLevel) -> (r: &'static str)
    ensures
        r@ == level_label(l),
{
    match l {
        LogLevel::Off => "Off",
        LogLevel::Error => "Error",
        LogLevel::Warn => "Warn",
        LogLevel::Info => "Info",
        LogLevel::Debug => "Debug",
        LogLevel::Trace => "Trace",
    }
}

/// The header of the bundle: what made it, where, and how many lines follow.
pub open spec fn bundle_header(
    generated_at: Seq<char>,
    app_version: Seq<char>,
    os: Seq<char>,
    arch: Seq<char>,
    level: LogLevel,
    slow_ms: u64,
    log_dir: Seq<char>,
    line_count: nat,
    needles: Seq<Seq<char>>,
) -> Seq<char> {
    "# Kwikbooks offline support bundle\n# Paths and usernames are redacted. Nothing was transmitted off-device.\ngenerated_at="@
        + generated_at + "\napp_version="@ + app_version + "\nos="@ + os + "\narch="@ + arch
        + "\nlog_level="@ + level_label(level) + "\nslow_ms="@ + dec(slow_ms as nat) + "\nlog_dir="@
        + redacted(log_dir, needles) + "\nline_count="@ + dec(line_count) + "\n\n"@
}

/// The context section: present when the context has more than whitespace,
/// masked, closed by a line break and a blank line.
pub open spec fn context_section(ctx: Option<Seq<char>>, needles: Seq<Seq<char>>) -> Seq<char> {
    match ctx {
        Some(c) => if trim(c).len() > 0 {
            "## Client context (breadcrumbs / meta)\n"@ + redacted(c, needles) + (if ends_with(
                c,
                "\n"@,
            ) {
                Seq::empty()
            } else {
                "\n"@
            }) + "\n"@
        } else {
            Seq::empty()
        },
        None => Seq::empty(),
    }
}

/// One bundle entry per log line: `[source][level] line`, the line masked.
pub open spec fn line_entries(lines: Seq<LogLine>, needles: Seq<Seq<char>>) -> Seq<char>
    decreases lines.len(),
{
    if lines.len() == 0 {
        Seq::empty()
    } else {
        let l = lines.last();
        line_entries(lines.drop_last(), needles) + "["@ + l.source@ + "]["@ + l.level@ + "] "@
            + redacted(l.line@, needles) + "\n"@
    }
}

/// The whole bundle: header, context section, then the log lines.
pub open spec fn bundle_text(
    generated_at: Seq<char>,
    app_version: Seq<char>,
    os: Seq<char>,
    arch: Seq<char>,
    level: LogLevel,
    slow_ms: u64,
    log_dir: Seq<char>,
    ctx: Option<Seq<char>>,
    lines: Seq<LogLine>,
    needles: Seq<Seq<char>>,
) -> Seq<char> {
    bundle_header(generated_at, app_version, os, arch, level, slow_ms, log_dir, lines.len(), needles)
        + context_section(ctx, needles) + "## Log lines\n"@ + line_entries(lines, needles)
}

/// The text of an offline support bundle (see [`bundle_text`]); `needles` are
/// the texts to mask, as [`home_needles`] gives them.
pub fn support_bundle_text(
    generated_at: &str,
    app_version: &str,
    os: &str,
    arch: &str,
    level: LogLevel,
    slow_ms: u64,
    log_dir: &str,
    extra_context: &Option<String>,
    lines: &[LogLine],
    needles: &[String],
) -> (r: String)
    ensures
        r@ == bundle_text(
            generated_at@,
            app_version@,
            os@,
            arch@,
            level,
            slow_ms,
            log_dir@,
            opt_text(*extra_context),
            lines@,
            needles@.map_values(|s: String| s@),
        ),
{
    let ghost ns = needles@.map_values(|s: String| s@);
    let prepared = prepare_needles(needles);
    let slow_s = string_of(&fmt_u64(slow_ms));
    let dir_s = redact_with(log_dir, &prepared);
    let count_s = string_of(&fmt_u64(lines.len() as u64));
    let head_parts = [
        "# Kwikbooks offline support bundle\n# Paths and usernames are redacted. Nothing was transmitted off-device.\ngenerated_at=",
        generated_at,
        "\napp_version=",
        app_version,
        "\nos=",
        os,
        "\narch=",
        arch,
        "\nlog_level=",
        level_text(level),
        "\nslow_ms=",
        slow_s.as_str(),
        "\nlog_dir=",
        dir_s.as_str(),
        "\nline_count=",
        count_s.as_str(),
        "\n\n",
    ];
    let head = join_strs(&head_parts);
    proof {
        reveal_with_fuel(concat_all, 18);
        assert(head@ == bundle_header(
            generated_at@,
            app_version@,
            os@,
            arch@,
            level,
            slow_ms,
            log_dir@,
            lines@.len(),
            ns,
        ));
    }
    let mut body = chars_of(head.as_str());
    match extra_context {
        Some(c) => {
            let cv = chars_of(c.as_str());
            if trim_chars(&cv).len() > 0 {
                let red = redact_with(c.as_str(), &prepared);
                let close = if ends_with_chars(&cv, &chars_of("\n")) {
                    ""
                } else {
                    "\n"
                };
                let parts = ["## Client context (breadcrumbs / meta)\n", red.as_str(), close, "\n"];
                let section = join_strs(&parts);
                proof {
                    reveal_with_fuel(concat_all, 5);
                    reveal_strlit("");
                    assert(section@ == context_section(opt_text(*extra_context), ns));
                }
                body = concat(&body, &chars_of(section.as_str()));
            } else {
                assert(body@ == body@ + Seq::<char>::empty());
            }
        },
        None => {
            assert(body@ == body@ + Seq::<char>::empty());
        },
    }
    assert(body@ == head@ + context_section(opt_text(*extra_context), ns));
    body = concat(&body, &chars_of("## Log lines\n"));
    let ghost start = body@;
    let mut i: usize = 0;
    assert(start + line_entries(lines@.take(0), ns) == start);
    while i < lines.len()
        invariant
            i <= lines@.len(),
            ns == needles@.map_values(|s: String| s@),
            views_of(prepared@) == needle_order(ns),
            body@ == start + line_entries(lines@.take(i as int), ns),
        decreases lines@.len() - i,
    {
        let l = &lines[i];
        let red = redact_with(l.line.as_str(), &prepared);
        let parts = ["[", l.source.as_str(), "][", l.level.as_str(), "] ", red.as_str(), "\n"];
        let entry = join_strs(&parts);
        proof {
            reveal_with_fuel(concat_all, 8);
            assert(lines@.take(i + 1).drop_last() == lines@.take(i as int));
            assert(lines@.take(i + 1).last() == lines@[i as int]);
        }
        let ghost before = body@;
        body = concat(&body, &chars_of(entry.as_str()));
        assert(body@ =~= before + entry@);
        i = i + 1;
    }
    assert(lines@.take(lines@.len() as int) == lines@);
    string_of(&body)
}

} // verus!

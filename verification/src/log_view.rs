//! What the log viewer shows: which files in the log directory are logs, how
//! many lines are asked for, and the most recent lines in display order.
use vstd::prelude::*;

use crate::ledger::{lemma_text_le_total, lemma_text_le_transitive, text_le};
use crate::logs::{compare_log_lines, log_line_order, text_order, timestamp_key, LogLine};
use crate::text::{chars_eq, chars_of, concat, ends_with, ends_with_chars, starts_with, starts_with_chars};

verus! {

/// The lines shown when no number is asked for.
pub const DEFAULT_MAX_LINES: usize = 500;

/// The most lines that may be asked for.
pub const MAX_ALLOWED_LINES: usize = 5000;

/// A file named `name` belongs to the log whose files start with `prefix`: the
/// bare prefix, the prefix and a dot, the prefix and `.log`, or any name with
/// the prefix that ends in `.log`.
pub open spec fn is_log_file_name(name: Seq<char>, prefix: Seq<char>) -> bool {
    ||| name == prefix
    ||| starts_with(name, prefix + "."@)
    ||| name == prefix + ".log"@
    ||| (starts_with(name, prefix) && ends_with(name, ".log"@))
}

/// Whether the file `name` belongs to the log whose files start with `prefix`.
pub fn is_log_file_of(name: &str, prefix: &str) -> (r: bool)
    ensures
        r == is_log_file_name(name@, prefix@),
{
    let n = chars_of(name);
    let p = chars_of(prefix);
    let dot = concat(&p, &chars_of("."));
    let ext = chars_of(".log");
    let with_ext = concat(&p, &ext);
    chars_eq(&n, &p) || starts_with_chars(&n, &dot) || chars_eq(&n, &with_ext) || (
    starts_with_chars(&n, &p) && ends_with_chars(&n, &ext))
}

/// The number of lines asked for, `default` when none is, held to `1..=5000`.
pub open spec fn lines_wanted_of(asked: Option<u32>, default: int) -> int {
    let n = match asked {
        Some(k) => k as int,
        None => default,
    };
    if n < 1 {
        1
    } else if n > 5000 {
        5000
    } else {
        n
    }
}

/// The number of lines asked for (see [`lines_wanted_of`]).
pub fn lines_wanted(asked: Option<u32>, default: usize) -> (r: usize)
    ensures
        r == lines_wanted_of(asked, default as int),
{
    let n: usize = match asked {
        Some(k) => k as usize,
        None => default,
    };
    if n < 1 {
        1
    } else if n > MAX_ALLOWED_LINES {
        MAX_ALLOWED_LINES
    } else {
        n
    }
}

/// `s` with `x` added as a stable insertion sort adds it: `x` goes in front of
/// the trailing elements that `after` puts after it, and behind all others.
pub open spec fn insert_stable<A>(s: Seq<A>, x: A, after: spec_fn(A, A) -> bool) -> Seq<A>
    decreases s.len(),
{
    if s.len() == 0 {
        seq![x]
    } else if after(s.last(), x) {
        insert_stable(s.drop_last(), x, after).push(s.last())
    } else {
        s.push(x)
    }
}

/// `s` sorted stably: elements that `after` orders after others move behind
/// them, and elements it leaves unordered keep their order in `s`.
pub open spec fn sort_stable<A>(s: Seq<A>, after: spec_fn(A, A) -> bool) -> Seq<A>
    decreases s.len(),
{
    if s.len() == 0 {
        s
    } else {
        insert_stable(sort_stable(s.drop_last(), after), s.last(), after)
    }
}

/// Splitting off the last element before the insertion point.
pub(crate) proof fn lemma_insert_step<A>(s: Seq<A>, x: A, after: spec_fn(A, A) -> bool, pos: int)
    requires
        0 < pos <= s.len(),
        after(s[pos - 1], x),
    ensures
        insert_stable(s.take(pos), x, after) + s.skip(pos) == insert_stable(s.take(pos - 1), x, after)
            + s.skip(pos - 1),
{
    let t = s.take(pos);
    assert(t.drop_last() == s.take(pos - 1));
    assert(t.last() == s[pos - 1]);
    assert(s.skip(pos - 1) == seq![s[pos - 1]] + s.skip(pos));
    assert(insert_stable(t, x, after) == insert_stable(s.take(pos - 1), x, after).push(s[pos - 1]));
    assert(insert_stable(s.take(pos - 1), x, after).push(s[pos - 1]) + s.skip(pos) =~= insert_stable(
        s.take(pos - 1),
        x,
        after,
    ) + (seq![s[pos - 1]] + s.skip(pos)));
}

/// The insertion point once found.
pub(crate) proof fn lemma_insert_at<A>(s: Seq<A>, x: A, after: spec_fn(A, A) -> bool, pos: int)
    requires
        0 <= pos <= s.len(),
        pos == 0 || !after(s[pos - 1], x),
    ensures
        insert_stable(s.take(pos), x, after) + s.skip(pos) == s.insert(pos, x),
{
    let t = s.take(pos);
    if pos > 0 {
        assert(t.last() == s[pos - 1]);
        assert(insert_stable(t, x, after) == t.push(x));
    } else {
        assert(t.len() == 0);
        assert(insert_stable(t, x, after) == seq![x]);
    }
    assert(insert_stable(t, x, after) + s.skip(pos) =~= s.insert(pos, x));
}

/// Log line `a` is shown after log line `b`.
pub open spec fn shown_after() -> spec_fn(LogLine, LogLine) -> bool {
    |a: LogLine, b: LogLine| log_line_order(a.line@, b.line@) == core::cmp::Ordering::Greater
}

fn line_shown_after(a: &LogLine, b: &LogLine) -> (r: bool)
    ensures
        r == shown_after()(*a, *b),
{
    match compare_log_lines(a, b) {
        core::cmp::Ordering::Greater => true,
        _ => false,
    }
}

fn insert_line(out: &mut Vec<LogLine>, x: LogLine)
    ensures
        final(out)@ == insert_stable(old(out)@, x, shown_after()),
{
    let ghost s = out@;
    let mut pos: usize = out.len();
    assert(s.take(pos as int) == s);
    assert(s.skip(pos as int) =~= Seq::<LogLine>::empty());
    while pos > 0 && line_shown_after(&out[pos - 1], &x)
        invariant
            out@ == s,
            pos <= s.len(),
            insert_stable(s, x, shown_after()) == insert_stable(s.take(pos as int), x, shown_after())
                + s.skip(pos as int),
        decreases pos,
    {
        proof {
            lemma_insert_step(s, x, shown_after(), pos as int);
        }
        pos = pos - 1;
    }
    proof {
        lemma_insert_at(s, x, shown_after(), pos as int);
    }
    out.insert(pos, x);
}

/// The last `n` elements of `s` (all of them when it has fewer).
pub open spec fn keep_last<A>(s: Seq<A>, n: int) -> Seq<A> {
    if s.len() > n {
        s.skip(s.len() - n)
    } else {
        s
    }
}

/// The most recent lines to show: `lines` in display order (stamped lines by
/// stamp before unstamped ones, lines that tie in their given order), of which
/// the last `max_lines` are kept.
pub fn recent_lines(lines: Vec<LogLine>, max_lines: usize) -> (r: Vec<LogLine>)
    ensures
        r@ == keep_last(sort_stable(lines@, shown_after()), max_lines as int),
{
    let ghost all = lines@;
    let mut rest = lines;
    let mut out: Vec<LogLine> = Vec::new();
    let mut i: usize = 0;
    let n = rest.len();
    while rest.len() > 0
        invariant
            n == all.len(),
            i <= n,
            rest@ == all.skip(i as int),
            out@ == sort_stable(all.take(i as int), shown_after()),
        decreases rest@.len(),
    {
        let x = rest.remove(0);
        proof {
            assert(all.take(i + 1).drop_last() == all.take(i as int));
            assert(all.take(i + 1).last() == all[i as int]);
            assert(rest@ == all.skip(i + 1));
        }
        insert_line(&mut out, x);
        i = i + 1;
    }
    assert(all.take(i as int) == all);
    if out.len() > max_lines {
        let cut = out.len() - max_lines;
        let kept = out.split_off(cut);
        kept
    } else {
        out
    }
}

proof fn lemma_insert_keeps_elements<A>(s: Seq<A>, x: A, after: spec_fn(A, A) -> bool)
    ensures
        insert_stable(s, x, after).to_multiset() =~= s.to_multiset().insert(x),
    decreases s.len(),
{
    broadcast use vstd::seq_lib::group_to_multiset_ensures;

    if s.len() == 0 {
        assert(seq![x] =~= Seq::<A>::empty().push(x));
    } else {
        assert(s =~= s.drop_last().push(s.last()));
        if after(s.last(), x) {
            lemma_insert_keeps_elements(s.drop_last(), x, after);
        }
    }
}

/// A stable sort keeps every element, as often as it occurs.
proof fn lemma_sort_keeps_elements<A>(s: Seq<A>, after: spec_fn(A, A) -> bool)
    ensures
        sort_stable(s, after).to_multiset() =~= s.to_multiset(),
    decreases s.len(),
{
    broadcast use vstd::seq_lib::group_to_multiset_ensures;

    if s.len() > 0 {
        lemma_sort_keeps_elements(s.drop_last(), after);
        lemma_insert_keeps_elements(sort_stable(s.drop_last(), after), s.last(), after);
        assert(s =~= s.drop_last().push(s.last()));
    }
}

/// Putting log lines in display order loses no line and adds none: every line
/// is shown as often as it was read.
pub proof fn law_display_order_keeps_every_line(lines: Seq<LogLine>)
    ensures
        sort_stable(lines, shown_after()).to_multiset() =~= lines.to_multiset(),
{
    lemma_sort_keeps_elements(lines, shown_after());
}

/// No element of `s` comes before one that `after` puts ahead of it.
pub open spec fn in_order<A>(s: Seq<A>, after: spec_fn(A, A) -> bool) -> bool {
    forall|i: int, j: int| 0 <= i < j < s.len() ==> !after(#[trigger] s[i], #[trigger] s[j])
}

/// `after` is a strict weak order: never both ways, and "not after" chains.
pub open spec fn orders_consistently<A>(after: spec_fn(A, A) -> bool) -> bool {
    &&& forall|a: A, b: A| #[trigger] after(a, b) ==> !after(b, a)
    &&& forall|a: A, b: A, c: A|
        !#[trigger] after(a, b) && !#[trigger] after(b, c) ==> !after(a, c)
}

proof fn lemma_insert_in_order<A>(s: Seq<A>, x: A, after: spec_fn(A, A) -> bool)
    requires
        in_order(s, after),
        orders_consistently(after),
    ensures
        in_order(insert_stable(s, x, after), after),
    decreases s.len(),
{
    broadcast use vstd::seq_lib::group_to_multiset_ensures;

    if s.len() == 0 {
        return;
    }
    let l = s.last();
    let d = s.drop_last();
    if after(l, x) {
        assert(in_order(d, after)) by {
            assert forall|i: int, j: int| 0 <= i < j < d.len() implies !after(
                #[trigger] d[i],
                #[trigger] d[j],
            ) by {
                assert(d[i] == s[i] && d[j] == s[j]);
            }
        }
        lemma_insert_in_order(d, x, after);
        let r1 = insert_stable(d, x, after);
        lemma_insert_keeps_elements(d, x, after);
        assert forall|i: int| 0 <= i < r1.len() implies !after(#[trigger] r1[i], l) by {
            let e = r1[i];
            assert(r1.to_multiset().count(e) > 0);
            if e != x {
                assert(d.to_multiset().count(e) > 0);
                assert(d.contains(e));
                let k = choose|k: int| 0 <= k < d.len() && d[k] == e;
                assert(s[k] == e);
                assert(s[s.len() - 1] == l);
                assert(!after(s[k], s[s.len() - 1]));
            } else {
                assert(after(l, x));
            }
        }
        let r = r1.push(l);
        assert forall|i: int, j: int| 0 <= i < j < r.len() implies !after(
            #[trigger] r[i],
            #[trigger] r[j],
        ) by {
            if j == r.len() - 1 {
                assert(r[i] == r1[i]);
                assert(!after(r1[i], l));
            } else {
                assert(r[i] == r1[i] && r[j] == r1[j]);
            }
        }
    } else {
        let r = s.push(x);
        assert forall|i: int, j: int| 0 <= i < j < r.len() implies !after(
            #[trigger] r[i],
            #[trigger] r[j],
        ) by {
            if j == r.len() - 1 {
                if i < s.len() - 1 {
                    assert(!after(s[i], s[s.len() - 1]));
                    assert(!after(s[s.len() - 1], x));
                }
            } else {
                assert(r[i] == s[i] && r[j] == s[j]);
            }
        }
    }
}

/// A stable sort by a strict weak order puts its elements in order.
proof fn lemma_sort_in_order<A>(s: Seq<A>, after: spec_fn(A, A) -> bool)
    requires
        orders_consistently(after),
    ensures
        in_order(sort_stable(s, after), after),
    decreases s.len(),
{
    if s.len() > 0 {
        lemma_sort_in_order(s.drop_last(), after);
        lemma_insert_in_order(sort_stable(s.drop_last(), after), s.last(), after);
    }
}

proof fn lemma_not_greater(x: Seq<char>, y: Seq<char>)
    ensures
        (text_order(x, y) != core::cmp::Ordering::Greater) == text_le(x, y),
{
    if x == y {
        lemma_text_le_total(x, x);
    }
}

/// Display order is a strict weak order on log lines.
proof fn lemma_display_order_consistent()
    ensures
        orders_consistently(shown_after()),
{
    let f = shown_after();
    assert forall|a: LogLine, b: LogLine| #[trigger] f(a, b) implies !f(b, a) by {
        let (x, y) = (a.line@, b.line@);
        match (timestamp_key(x), timestamp_key(y)) {
            (Some(ta), Some(tb)) => {
                lemma_not_greater(ta, tb);
                lemma_not_greater(tb, ta);
                lemma_text_le_total(ta, tb);
            },
            (None, None) => {
                lemma_not_greater(x, y);
                lemma_not_greater(y, x);
                lemma_text_le_total(x, y);
            },
            _ => {},
        }
    }
    assert forall|a: LogLine, b: LogLine, c: LogLine|
        !#[trigger] f(a, b) && !#[trigger] f(b, c) implies !f(a, c) by {
        let (x, y, z) = (a.line@, b.line@, c.line@);
        match (timestamp_key(x), timestamp_key(y), timestamp_key(z)) {
            (Some(ta), Some(tb), Some(tc)) => {
                lemma_not_greater(ta, tb);
                lemma_not_greater(tb, tc);
                lemma_not_greater(ta, tc);
                if text_le(ta, tb) && text_le(tb, tc) {
                    lemma_text_le_transitive(ta, tb, tc);
                }
            },
            (None, None, None) => {
                lemma_not_greater(x, y);
                lemma_not_greater(y, z);
                lemma_not_greater(x, z);
                if text_le(x, y) && text_le(y, z) {
                    lemma_text_le_transitive(x, y, z);
                }
            },
            _ => {},
        }
    }
}

/// The log viewer shows lines in display order: stamped lines by their stamp,
/// all before the unstamped ones, which come by their text; no line is shown
/// ahead of one that sorts before it, also once only the last lines are kept.
pub proof fn law_lines_shown_in_display_order(lines: Seq<LogLine>, max_lines: nat)
    ensures
        in_order(sort_stable(lines, shown_after()), shown_after()),
        in_order(keep_last(sort_stable(lines, shown_after()), max_lines as int), shown_after()),
{
    let s = sort_stable(lines, shown_after());
    lemma_display_order_consistent();
    lemma_sort_in_order(lines, shown_after());
    if s.len() > max_lines {
        let k = keep_last(s, max_lines as int);
        let off = s.len() - max_lines;
        assert forall|i: int, j: int| 0 <= i < j < k.len() implies !shown_after()(
            #[trigger] k[i],
            #[trigger] k[j],
        ) by {
            assert(k[i] == s[off + i] && k[j] == s[off + j]);
        }
    }
}

/// The log viewer shows the default number of lines when none is asked for, the
/// number asked for when it lies in 1..=5000, and otherwise the nearest of 1 and
/// 5000; the default it is given is 500.
pub proof fn law_lines_wanted(asked: Option<u32>, default: int)
    ensures
        DEFAULT_MAX_LINES == 500,
        MAX_ALLOWED_LINES == 5000,
        1 <= lines_wanted_of(asked, default) <= 5000,
        asked is None && 1 <= default <= 5000 ==> lines_wanted_of(asked, default) == default,
        asked matches Some(k) ==> (1 <= k <= 5000 ==> lines_wanted_of(asked, default) == k),
        asked matches Some(k) ==> (k < 1 ==> lines_wanted_of(asked, default) == 1),
        asked matches Some(k) ==> (k > 5000 ==> lines_wanted_of(asked, default) == 5000),
{
}

} // verus!

//! The chart of accounts and the posted journal lines, as read from the books,
//! with the sums that reports are built from.
use vstd::prelude::*;

use crate::text::{chars_eq, chars_of};

verus! {

/// One account of the chart of accounts.
#[derive(Debug, Clone)]
pub struct AccountInfo {
    pub id: i64,
    pub code: String,
    pub name: String,
    /// `asset`, `liability`, `equity`, `income` or `expense`.
    pub account_type: String,
    pub is_bank_cash: bool,
    pub is_active: bool,
}

/// One posted journal line together with the header of its journal.
#[derive(Debug, Clone)]
pub struct PostedLine {
    pub journal_id: i64,
    pub entry_date: String,
    pub memo: Option<String>,
    pub source_kind: Option<String>,
    pub account_id: i64,
    pub line_number: i32,
    pub description: Option<String>,
    pub debit_minor: i64,
    pub credit_minor: i64,
}

/// The five kinds of account, and anything else.
#[derive(Debug, Clone, Copy, PartialEq, Eq, Structural)]
pub enum AccountKind {
    Asset,
    Liability,
    Equity,
    Income,
    Expense,
    Other,
}

/// The kind that an account-type text names.
pub open spec fn kind_of(t: Seq<char>) -> AccountKind {
    if t == "asset"@ {
        AccountKind::Asset
    } else if t == "liability"@ {
        AccountKind::Liability
    } else if t == "equity"@ {
        AccountKind::Equity
    } else if t == "income"@ {
        AccountKind::Income
    } else if t == "expense"@ {
        AccountKind::Expense
    } else {
        AccountKind::Other
    }
}

/// The kind of an account.
pub open spec fn account_kind(a: AccountInfo) -> AccountKind {
    kind_of(a.account_type@)
}

/// Classifies an account-type text.
pub fn classify(t: &str) -> (k: AccountKind)
    ensures
        k == kind_of(t@),
{
    let v = chars_of(t);
    if chars_eq(&v, &chars_of("asset")) {
        AccountKind::Asset
    } else if chars_eq(&v, &chars_of("liability")) {
        AccountKind::Liability
    } else if chars_eq(&v, &chars_of("equity")) {
        AccountKind::Equity
    } else if chars_eq(&v, &chars_of("income")) {
        AccountKind::Income
    } else if chars_eq(&v, &chars_of("expense")) {
        AccountKind::Expense
    } else {
        AccountKind::Other
    }
}

/// Text order by code point, which is the order of `str` comparison and of SQLite's
/// binary collation on UTF-8 text.
pub open spec fn text_le(a: Seq<char>, b: Seq<char>) -> bool
    decreases a.len(),
{
    if a.len() == 0 {
        true
    } else if b.len() == 0 {
        false
    } else if a[0] != b[0] {
        (a[0] as int) < (b[0] as int)
    } else {
        text_le(a.drop_first(), b.drop_first())
    }
}

proof fn lemma_text_le_skip(a: Seq<char>, b: Seq<char>, k: int)
    requires
        0 <= k <= a.len(),
        k <= b.len(),
        forall|i: int| 0 <= i < k ==> a[i] == b[i],
    ensures
        text_le(a, b) == text_le(a.skip(k), b.skip(k)),
    decreases k,
{
    if k > 0 {
        lemma_text_le_skip(a.drop_first(), b.drop_first(), k - 1);
        assert(a.drop_first().skip(k - 1) == a.skip(k));
        assert(b.drop_first().skip(k - 1) == b.skip(k));
    } else {
        assert(a.skip(0) == a);
        assert(b.skip(0) == b);
    }
}

/// Whether `a` sorts at or before `b`.
pub fn text_le_chars(a: &[char], b: &[char]) -> (r: bool)
    ensures
        r == text_le(a@, b@),
{
    let mut k: usize = 0;
    while k < a.len() && k < b.len() && a[k] == b[k]
        invariant
            k <= a@.len(),
            k <= b@.len(),
            forall|i: int| 0 <= i < k ==> a@[i] == b@[i],
        decreases a@.len() - k,
    {
        k = k + 1;
    }
    proof {
        lemma_text_le_skip(a@, b@, k as int);
    }
    if k == a.len() {
        true
    } else if k == b.len() {
        false
    } else {
        a[k] < b[k]
    }
}

/// Text order is total: of two texts, one sorts at or before the other.
pub proof fn lemma_text_le_total(a: Seq<char>, b: Seq<char>)
    ensures
        text_le(a, b) || text_le(b, a),
    decreases a.len(),
{
    if a.len() > 0 && b.len() > 0 {
        if a[0] == b[0] {
            lemma_text_le_total(a.drop_first(), b.drop_first());
        } else {
            assert((a[0] as int) != (b[0] as int));
        }
    }
}

/// Text order is antisymmetric: texts that sort at or before each other are equal.
pub proof fn lemma_text_le_antisymmetric(a: Seq<char>, b: Seq<char>)
    requires
        text_le(a, b),
        text_le(b, a),
    ensures
        a == b,
    decreases a.len(),
{
    if a.len() > 0 && b.len() > 0 {
        if a[0] == b[0] {
            lemma_text_le_antisymmetric(a.drop_first(), b.drop_first());
            assert(a =~= seq![a[0]] + a.drop_first());
            assert(b =~= seq![b[0]] + b.drop_first());
        } else {
            assert((a[0] as int) != (b[0] as int));
        }
    } else {
        assert(a.len() == 0 && b.len() == 0);
        assert(a =~= b);
    }
}

/// Text order is transitive.
pub proof fn lemma_text_le_transitive(a: Seq<char>, b: Seq<char>, c: Seq<char>)
    requires
        text_le(a, b),
        text_le(b, c),
    ensures
        text_le(a, c),
    decreases a.len(),
{
    if a.len() > 0 && b.len() > 0 && c.len() > 0 && a[0] == b[0] && b[0] == c[0] {
        lemma_text_le_transitive(a.drop_first(), b.drop_first(), c.drop_first());
    }
}

/// How many journals a listing returns: 500 when no number is given, held to `1..=2000`.
pub open spec fn journal_limit_of(limit: Option<i64>) -> int {
    let n = match limit {
        Some(l) => l as int,
        None => 500,
    };
    if n < 1 {
        1
    } else if n > 2000 {
        2000
    } else {
        n
    }
}

/// How many journals a listing returns (see [`journal_limit_of`]).
pub fn journal_limit(limit: Option<i64>) -> (r: i64)
    ensures
        r == journal_limit_of(limit),
{
    let n = match limit {
        Some(l) => l,
        None => 500,
    };
    if n < 1 {
        1
    } else if n > 2000 {
        2000
    } else {
        n
    }
}

/// The line falls in the window: dated on or before `to`, and on or after `from` when given.
pub open spec fn in_window(l: PostedLine, from: Option<Seq<char>>, to: Seq<char>) -> bool {
    &&& text_le(l.entry_date@, to)
    &&& (from matches Some(f) ==> text_le(f, l.entry_date@))
}

/// Debits posted to account `id` within the window.
pub open spec fn debits_for(lines: Seq<PostedLine>, id: i64, from: Option<Seq<char>>, to: Seq<char>) -> int
    decreases lines.len(),
{
    if lines.len() == 0 {
        0
    } else {
        debits_for(lines.drop_last(), id, from, to) + if lines.last().account_id == id && in_window(
            lines.last(),
            from,
            to,
        ) {
            lines.last().debit_minor as int
        } else {
            0
        }
    }
}

/// Credits posted to account `id` within the window.
pub open spec fn credits_for(lines: Seq<PostedLine>, id: i64, from: Option<Seq<char>>, to: Seq<char>) -> int
    decreases lines.len(),
{
    if lines.len() == 0 {
        0
    } else {
        credits_for(lines.drop_last(), id, from, to) + if lines.last().account_id == id
            && in_window(lines.last(), from, to) {
            lines.last().credit_minor as int
        } else {
            0
        }
    }
}

/// Absolute value.
pub open spec fn abs(x: int) -> int {
    if x < 0 {
        -x
    } else {
        x
    }
}

/// Size of a line's amounts.
pub open spec fn line_weight(l: PostedLine) -> int {
    (if l.debit_minor < 0 {
        -l.debit_minor
    } else {
        l.debit_minor as int
    }) + (if l.credit_minor < 0 {
        -l.credit_minor
    } else {
        l.credit_minor as int
    })
}

/// Total size of all amounts in the ledger.
pub open spec fn total_weight(lines: Seq<PostedLine>) -> int
    decreases lines.len(),
{
    if lines.len() == 0 {
        0
    } else {
        total_weight(lines.drop_last()) + line_weight(lines.last())
    }
}

/// Every sum a report can form over the ledger fits in `i64`.
pub open spec fn ledger_fits(lines: Seq<PostedLine>) -> bool {
    total_weight(lines) <= i64::MAX
}

proof fn lemma_total_weight_nonneg(lines: Seq<PostedLine>)
    ensures
        total_weight(lines) >= 0,
    decreases lines.len(),
{
    if lines.len() > 0 {
        lemma_total_weight_nonneg(lines.drop_last());
    }
}

/// Sums for one account never exceed the total size of the ledger.
pub proof fn lemma_sums_bounded(lines: Seq<PostedLine>, id: i64, from: Option<Seq<char>>, to: Seq<char>)
    ensures
        abs(debits_for(lines, id, from, to)) + abs(credits_for(lines, id, from, to))
            <= total_weight(lines),
        0 <= total_weight(lines),
    decreases lines.len(),
{
    if lines.len() > 0 {
        lemma_sums_bounded(lines.drop_last(), id, from, to);
    }
}

/// Whether every sum over `lines` fits in `i64` (see [`ledger_fits`]).
pub fn ledger_within_limits(lines: &[PostedLine]) -> (r: bool)
    ensures
        r == ledger_fits(lines@),
{
    let mut acc: i128 = 0;
    let mut i: usize = 0;
    while i < lines.len()
        invariant
            i <= lines@.len(),
            acc == total_weight(lines@.take(i as int)),
            0 <= acc <= i64::MAX,
        decreases lines@.len() - i,
    {
        let l = &lines[i];
        let d: i128 = if l.debit_minor < 0 {
            -(l.debit_minor as i128)
        } else {
            l.debit_minor as i128
        };
        let c: i128 = if l.credit_minor < 0 {
            -(l.credit_minor as i128)
        } else {
            l.credit_minor as i128
        };
        assert(lines@.take(i + 1).drop_last() == lines@.take(i as int));
        acc = acc + d + c;
        if acc > i64::MAX as i128 {
            proof {
                lemma_weight_prefix_le(lines@, i + 1);
            }
            return false;
        }
        i = i + 1;
    }
    assert(lines@.take(i as int) == lines@);
    true
}

proof fn lemma_weight_prefix_le(lines: Seq<PostedLine>, k: int)
    requires
        0 <= k <= lines.len(),
    ensures
        total_weight(lines.take(k)) <= total_weight(lines),
    decreases lines.len() - k,
{
    if k < lines.len() {
        lemma_weight_prefix_le(lines, k + 1);
        assert(lines.take(k + 1).drop_last() == lines.take(k));
    } else {
        assert(lines.take(k) == lines);
    }
}

// ------------------------------------------------------------ sums over the chart

/// Sum of `f` over the lines posted to account `id`.
pub open spec fn id_sum(lines: Seq<PostedLine>, id: i64, f: spec_fn(PostedLine) -> int) -> int
    decreases lines.len(),
{
    if lines.len() == 0 {
        0
    } else {
        id_sum(lines.drop_last(), id, f) + if lines.last().account_id == id {
            f(lines.last())
        } else {
            0
        }
    }
}

/// Sum, over the accounts that satisfy `p`, of the per-account sums of `f`.
pub open spec fn chart_sum(
    accounts: Seq<AccountInfo>,
    lines: Seq<PostedLine>,
    p: spec_fn(AccountInfo) -> bool,
    f: spec_fn(PostedLine) -> int,
) -> int
    decreases accounts.len(),
{
    if accounts.len() == 0 {
        0
    } else {
        chart_sum(accounts.drop_last(), lines, p, f) + if p(accounts.last()) {
            id_sum(lines, accounts.last().id, f)
        } else {
            0
        }
    }
}

/// Some account satisfying `p` has id `id`.
pub open spec fn in_chart(accounts: Seq<AccountInfo>, p: spec_fn(AccountInfo) -> bool, id: i64) -> bool {
    exists|k: int| 0 <= k < accounts.len() && p(accounts[k]) && #[trigger] accounts[k].id == id
}

/// Sum of `f` over the lines whose account is in the chart and satisfies `p`.
pub open spec fn covered_sum(
    lines: Seq<PostedLine>,
    accounts: Seq<AccountInfo>,
    p: spec_fn(AccountInfo) -> bool,
    f: spec_fn(PostedLine) -> int,
) -> int
    decreases lines.len(),
{
    if lines.len() == 0 {
        0
    } else {
        covered_sum(lines.drop_last(), accounts, p, f) + if in_chart(
            accounts,
            p,
            lines.last().account_id,
        ) {
            f(lines.last())
        } else {
            0
        }
    }
}

/// No two accounts share an id.
pub open spec fn distinct_ids(accounts: Seq<AccountInfo>) -> bool {
    forall|i: int, j: int|
        0 <= i < accounts.len() && 0 <= j < accounts.len() && i != j ==> accounts[i].id
            != accounts[j].id
}

/// Contribution of one line to `chart_sum`.
pub open spec fn chart_line(
    accounts: Seq<AccountInfo>,
    p: spec_fn(AccountInfo) -> bool,
    f: spec_fn(PostedLine) -> int,
    l: PostedLine,
) -> int
    decreases accounts.len(),
{
    if accounts.len() == 0 {
        0
    } else {
        chart_line(accounts.drop_last(), p, f, l) + if p(accounts.last()) && accounts.last().id
            == l.account_id {
            f(l)
        } else {
            0
        }
    }
}

proof fn lemma_chart_sum_empty(accounts: Seq<AccountInfo>, lines: Seq<PostedLine>, p: spec_fn(AccountInfo) -> bool, f: spec_fn(PostedLine) -> int)
    requires
        lines.len() == 0,
    ensures
        chart_sum(accounts, lines, p, f) == 0,
    decreases accounts.len(),
{
    if accounts.len() > 0 {
        lemma_chart_sum_empty(accounts.drop_last(), lines, p, f);
    }
}

proof fn lemma_chart_sum_step(accounts: Seq<AccountInfo>, lines: Seq<PostedLine>, p: spec_fn(AccountInfo) -> bool, f: spec_fn(PostedLine) -> int)
    requires
        lines.len() > 0,
    ensures
        chart_sum(accounts, lines, p, f) == chart_sum(accounts, lines.drop_last(), p, f)
            + chart_line(accounts, p, f, lines.last()),
    decreases accounts.len(),
{
    if accounts.len() > 0 {
        lemma_chart_sum_step(accounts.drop_last(), lines, p, f);
    }
}

proof fn lemma_chart_line_distinct(accounts: Seq<AccountInfo>, p: spec_fn(AccountInfo) -> bool, f: spec_fn(PostedLine) -> int, l: PostedLine)
    requires
        distinct_ids(accounts),
    ensures
        chart_line(accounts, p, f, l) == if in_chart(accounts, p, l.account_id) {
            f(l)
        } else {
            0
        },
    decreases accounts.len(),
{
    if accounts.len() > 0 {
        let q = accounts.drop_last();
        let n = accounts.len() - 1;
        assert(distinct_ids(q)) by {
            assert forall|i: int, j: int|
                0 <= i < q.len() && 0 <= j < q.len() && i != j implies q[i].id != q[j].id by {
                assert(q[i] == accounts[i]);
                assert(q[j] == accounts[j]);
            }
        }
        lemma_chart_line_distinct(q, p, f, l);
        if p(accounts[n]) && accounts[n].id == l.account_id {
            assert(in_chart(accounts, p, l.account_id));
            if in_chart(q, p, l.account_id) {
                let k = choose|k: int| 0 <= k < q.len() && p(q[k]) && #[trigger] q[k].id == l.account_id;
                assert(q[k] == accounts[k]);
                assert(false);
            }
        } else {
            if in_chart(accounts, p, l.account_id) {
                let k = choose|k: int|
                    0 <= k < accounts.len() && p(accounts[k]) && #[trigger] accounts[k].id
                        == l.account_id;
                assert(k != n);
                assert(q[k] == accounts[k]);
                assert(in_chart(q, p, l.account_id));
            }
            if in_chart(q, p, l.account_id) {
                let k = choose|k: int| 0 <= k < q.len() && p(q[k]) && #[trigger] q[k].id == l.account_id;
                assert(q[k] == accounts[k]);
                assert(in_chart(accounts, p, l.account_id));
            }
        }
    }
}

/// Summing account by account over a chart with distinct ids gives the same total
/// as summing line by line over the lines whose account is in the chart.
pub proof fn lemma_chart_sum_swap(accounts: Seq<AccountInfo>, lines: Seq<PostedLine>, p: spec_fn(AccountInfo) -> bool, f: spec_fn(PostedLine) -> int)
    requires
        distinct_ids(accounts),
    ensures
        chart_sum(accounts, lines, p, f) == covered_sum(lines, accounts, p, f),
    decreases lines.len(),
{
    if lines.len() == 0 {
        lemma_chart_sum_empty(accounts, lines, p, f);
    } else {
        lemma_chart_sum_swap(accounts, lines.drop_last(), p, f);
        lemma_chart_sum_step(accounts, lines, p, f);
        lemma_chart_line_distinct(accounts, p, f, lines.last());
    }
}

/// Journal listings return 500 journals when no number is asked for, the number
/// asked for when it lies in 1..=2000, and otherwise the nearest of 1 and 2000.
pub proof fn law_journal_limit(limit: Option<i64>)
    ensures
        1 <= journal_limit_of(limit) <= 2000,
        limit is None ==> journal_limit_of(limit) == 500,
        limit matches Some(l) ==> (1 <= l <= 2000 ==> journal_limit_of(limit) == l),
        limit matches Some(l) ==> (l < 1 ==> journal_limit_of(limit) == 1),
        limit matches Some(l) ==> (l > 2000 ==> journal_limit_of(limit) == 2000),
{
}

/// The five account types: `asset`, `liability`, `equity`, `income` and
/// `expense` name their kinds, and any other text names no reported kind.
pub proof fn law_account_kinds(t: Seq<char>)
    ensures
        kind_of("asset"@) == AccountKind::Asset,
        kind_of("liability"@) == AccountKind::Liability,
        kind_of("equity"@) == AccountKind::Equity,
        kind_of("income"@) == AccountKind::Income,
        kind_of("expense"@) == AccountKind::Expense,
        t != "asset"@ && t != "liability"@ && t != "equity"@ && t != "income"@ && t != "expense"@
            ==> kind_of(t) == AccountKind::Other,
{
    reveal_strlit("asset");
    reveal_strlit("liability");
    reveal_strlit("equity");
    reveal_strlit("income");
    reveal_strlit("expense");
    assert("asset"@[0] == 'a');
    assert("liability"@[0] == 'l');
    assert("equity"@[0] == 'e' && "equity"@.len() == 6);
    assert("income"@[0] == 'i');
    assert("expense"@[0] == 'e' && "expense"@.len() == 7);
}

} // verus!

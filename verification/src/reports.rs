//! Financial reports over the chart of accounts and the posted journal lines:
//! trial balance, general ledger, profit and loss, and balance sheet.
use vstd::prelude::*;

use crate::dates::{invalid_date_text, is_iso_date, require_iso_date};
use crate::error::DbCommandError;
use crate::ledger::{
    abs, account_kind, chart_sum, classify, covered_sum, credits_for, debits_for, distinct_ids,
    id_sum, in_chart, in_window, lemma_chart_sum_swap, lemma_sums_bounded, ledger_fits,
    line_weight, text_le, text_le_chars, total_weight, AccountInfo, AccountKind, PostedLine,
};
use crate::text::chars_of;

verus! {

/// A window bound given as characters, viewed as a sequence.
pub open spec fn opt_view(o: Option<Vec<char>>) -> Option<Seq<char>> {
    match o {
        Some(v) => Some(v@),
        None => None,
    }
}

/// Both bounds are valid dates and the first is not after the second.
pub open spec fn valid_range(from: Seq<char>, to: Seq<char>) -> bool {
    is_iso_date(from) && is_iso_date(to) && text_le(from, to)
}

/// The message reported for an invalid period.
pub open spec fn range_error_text(from: Seq<char>, to: Seq<char>) -> Seq<char> {
    if !is_iso_date(from) {
        invalid_date_text("from date"@)
    } else if !is_iso_date(to) {
        invalid_date_text("to date"@)
    } else {
        "from date must be on or before to date"@
    }
}

/// Requires a valid reporting period `date_from..=date_to`.
pub fn require_date_range(date_from: &str, date_to: &str) -> (r: Result<(), DbCommandError>)
    ensures
        r is Ok <==> valid_range(date_from@, date_to@),
        r is Err ==> (r matches Err(DbCommandError::Validation { message }) && message@
            == range_error_text(date_from@, date_to@)),
{
    require_iso_date("from date", date_from)?;
    require_iso_date("to date", date_to)?;
    let f = chars_of(date_from);
    let t = chars_of(date_to);
    if !text_le_chars(&f, &t) {
        return Err(
            DbCommandError::Validation {
                message: "from date must be on or before to date".to_owned(),
            },
        );
    }
    Ok(())
}

/// `dates` holds the entry date of every line, as characters.
pub open spec fn dates_match(lines: Seq<PostedLine>, dates: Seq<Vec<char>>) -> bool {
    dates.len() == lines.len() && forall|i: int| 0 <= i < lines.len() ==> #[trigger] dates[i]@
        == lines[i].entry_date@
}

/// The entry date of every line, as characters.
pub fn line_dates(lines: &[PostedLine]) -> (r: Vec<Vec<char>>)
    ensures
        dates_match(lines@, r@),
{
    let mut out: Vec<Vec<char>> = Vec::new();
    let mut i: usize = 0;
    while i < lines.len()
        invariant
            i <= lines@.len(),
            out@.len() == i,
            forall|k: int| 0 <= k < i ==> #[trigger] out@[k]@ == lines@[k].entry_date@,
        decreases lines@.len() - i,
    {
        out.push(chars_of(lines[i].entry_date.as_str()));
        i = i + 1;
    }
    out
}

/// Whether a line dated `d` falls in the window.
fn in_window_exec(d: &[char], from: &Option<Vec<char>>, to: &[char]) -> (r: bool)
    ensures
        r == (text_le(d@, to@) && (opt_view(*from) matches Some(f) ==> text_le(f, d@))),
{
    if !text_le_chars(d, to) {
        return false;
    }
    match from {
        Some(f) => text_le_chars(f, d),
        None => true,
    }
}

/// Debits and credits posted to account `id` within the window.
pub fn account_sums(
    lines: &[PostedLine],
    dates: &[Vec<char>],
    id: i64,
    from: &Option<Vec<char>>,
    to: &[char],
) -> (r: (i64, i64))
    requires
        ledger_fits(lines@),
        dates_match(lines@, dates@),
    ensures
        r.0 == debits_for(lines@, id, opt_view(*from), to@),
        r.1 == credits_for(lines@, id, opt_view(*from), to@),
{
    let ghost fv = opt_view(*from);
    let mut dr: i64 = 0;
    let mut cr: i64 = 0;
    let mut i: usize = 0;
    while i < lines.len()
        invariant
            i <= lines@.len(),
            ledger_fits(lines@),
            dates_match(lines@, dates@),
            fv == opt_view(*from),
            dr == debits_for(lines@.take(i as int), id, fv, to@),
            cr == credits_for(lines@.take(i as int), id, fv, to@),
        decreases lines@.len() - i,
    {
        let ghost pre = lines@.take(i as int);
        let ghost next = lines@.take(i as int + 1);
        proof {
            assert(next.drop_last() == pre);
            assert(next.last() == lines@[i as int]);
            lemma_sums_bounded(next, id, fv, to@);
            lemma_prefix_fits(lines@, i as int + 1);
        }
        let l = &lines[i];
        if l.account_id == id && in_window_exec(&dates[i], from, to) {
            dr = dr + l.debit_minor;
            cr = cr + l.credit_minor;
        }
        i = i + 1;
    }
    assert(lines@.take(i as int) == lines@);
    (dr, cr)
}

/// A prefix of a ledger that fits also fits.
pub proof fn lemma_prefix_fits(lines: Seq<PostedLine>, k: int)
    requires
        0 <= k <= lines.len(),
        ledger_fits(lines),
    ensures
        ledger_fits(lines.take(k)),
    decreases lines.len() - k,
{
    if k < lines.len() {
        lemma_prefix_fits(lines, k + 1);
        assert(lines.take(k + 1).drop_last() == lines.take(k));
        lemma_sums_bounded(lines.take(k), 0, None, seq![]);
        assert(line_weight(lines.take(k + 1).last()) >= 0);
    } else {
        assert(lines.take(k) == lines);
    }
}

// ---------------------------------------------------------------- trial balance

/// One row of the trial balance.
#[derive(Debug, Clone)]
pub struct TrialBalanceRow {
    pub account_id: i64,
    pub code: String,
    pub name: String,
    pub account_type: String,
    pub debit_minor: i64,
    pub credit_minor: i64,
    pub net_minor: i64,
}

/// Positions (in chart order) of the accounts with activity in the period.
pub open spec fn tb_included(accounts: Seq<AccountInfo>, lines: Seq<PostedLine>, from: Seq<char>, to: Seq<char>) -> Seq<int>
    decreases accounts.len(),
{
    if accounts.len() == 0 {
        seq![]
    } else {
        let prev = tb_included(accounts.drop_last(), lines, from, to);
        let a = accounts.last();
        if debits_for(lines, a.id, Some(from), to) != 0 || credits_for(lines, a.id, Some(from), to)
            != 0 {
            prev.push(accounts.len() - 1)
        } else {
            prev
        }
    }
}

/// Row `row` reports account `a` over the period.
pub open spec fn tb_row_matches(row: TrialBalanceRow, a: AccountInfo, lines: Seq<PostedLine>, from: Seq<char>, to: Seq<char>) -> bool {
    &&& row.account_id == a.id
    &&& row.code@ == a.code@
    &&& row.name@ == a.name@
    &&& row.account_type@ == a.account_type@
    &&& row.debit_minor == debits_for(lines, a.id, Some(from), to)
    &&& row.credit_minor == credits_for(lines, a.id, Some(from), to)
    &&& row.net_minor == row.debit_minor - row.credit_minor
}

/// Trial balance for `date_from..=date_to`: one row per account (in chart order) that
/// has a debit or a credit in the period, with its debits, credits and net.
pub fn trial_balance(
    accounts: &[AccountInfo],
    lines: &[PostedLine],
    date_from: &str,
    date_to: &str,
) -> (r: Result<Vec<TrialBalanceRow>, DbCommandError>)
    requires
        ledger_fits(lines@),
    ensures
        r is Ok <==> valid_range(date_from@, date_to@),
        r is Err ==> (r matches Err(DbCommandError::Validation { message }) && message@
            == range_error_text(date_from@, date_to@)),
        r matches Ok(rows) ==> {
            let inc = tb_included(accounts@, lines@, date_from@, date_to@);
            &&& rows@.len() == inc.len()
            &&& forall|k: int|
                0 <= k < rows@.len() ==> tb_row_matches(
                    #[trigger] rows@[k],
                    accounts@[inc[k]],
                    lines@,
                    date_from@,
                    date_to@,
                )
        },
{
    require_date_range(date_from, date_to)?;
    let dates = line_dates(lines);
    let from: Option<Vec<char>> = Some(chars_of(date_from));
    let to = chars_of(date_to);
    let mut rows: Vec<TrialBalanceRow> = Vec::new();
    let mut i: usize = 0;
    while i < accounts.len()
        invariant
            i <= accounts@.len(),
            ledger_fits(lines@),
            dates_match(lines@, dates@),
            opt_view(from) == Some(date_from@),
            to@ == date_to@,
            rows@.len() == tb_included(accounts@.take(i as int), lines@, date_from@, date_to@).len(),
            forall|k: int|
                0 <= k < rows@.len() ==> tb_row_matches(
                    #[trigger] rows@[k],
                    accounts@[tb_included(accounts@.take(i as int), lines@, date_from@, date_to@)[k]],
                    lines@,
                    date_from@,
                    date_to@,
                ),
        decreases accounts@.len() - i,
    {
        let a = &accounts[i];
        let ghost prev = tb_included(accounts@.take(i as int), lines@, date_from@, date_to@);
        proof {
            assert(accounts@.take(i as int + 1).drop_last() == accounts@.take(i as int));
            assert(accounts@.take(i as int + 1).last() == accounts@[i as int]);
            lemma_included_in_range(accounts@.take(i as int), lines@, date_from@, date_to@);
            lemma_sums_bounded(lines@, a.id, Some(date_from@), date_to@);
        }
        let (dr, cr) = account_sums(lines, &dates, a.id, &from, &to);
        if dr != 0 || cr != 0 {
            rows.push(
                TrialBalanceRow {
                    account_id: a.id,
                    code: a.code.clone(),
                    name: a.name.clone(),
                    account_type: a.account_type.clone(),
                    debit_minor: dr,
                    credit_minor: cr,
                    net_minor: dr - cr,
                },
            );
        }
        proof {
            let now = tb_included(accounts@.take(i as int + 1), lines@, date_from@, date_to@);
            assert forall|k: int| 0 <= k < prev.len() implies now[k] == prev[k] by {}
            assert forall|k: int| 0 <= k < prev.len() implies accounts@[prev[k]] == accounts@.take(
                i as int,
            )[prev[k]] by {}
        }
        i = i + 1;
    }
    proof {
        assert(accounts@.take(i as int) == accounts@);
    }
    Ok(rows)
}

/// Every included position is a position of the chart.
pub proof fn lemma_included_in_range(accounts: Seq<AccountInfo>, lines: Seq<PostedLine>, from: Seq<char>, to: Seq<char>)
    ensures
        forall|k: int|
            0 <= k < tb_included(accounts, lines, from, to).len() ==> 0 <= #[trigger] tb_included(
                accounts,
                lines,
                from,
                to,
            )[k] < accounts.len(),
    decreases accounts.len(),
{
    if accounts.len() > 0 {
        let prev = tb_included(accounts.drop_last(), lines, from, to);
        lemma_included_in_range(accounts.drop_last(), lines, from, to);
        assert forall|k: int| 0 <= k < prev.len() implies 0 <= #[trigger] prev[k] < accounts.len()
            - 1 by {}
    }
}

// ---------------------------------------------------------------- general ledger

/// One entry of the general ledger of an account.
#[derive(Debug, Clone)]
pub struct LedgerEntry {
    pub entry_date: String,
    pub memo: Option<String>,
    pub line_number: i32,
    pub description: Option<String>,
    pub debit_minor: i64,
    pub credit_minor: i64,
    pub journal_id: i64,
    pub source_kind: Option<String>,
}

/// Positions of the lines posted to account `id` within the period, in ledger order.
pub open spec fn gl_selected(lines: Seq<PostedLine>, id: i64, from: Seq<char>, to: Seq<char>) -> Seq<int>
    decreases lines.len(),
{
    if lines.len() == 0 {
        seq![]
    } else {
        let prev = gl_selected(lines.drop_last(), id, from, to);
        if lines.last().account_id == id && in_window(lines.last(), Some(from), to) {
            prev.push(lines.len() - 1)
        } else {
            prev
        }
    }
}

/// Entry `e` reproduces line `l`.
pub open spec fn entry_matches(e: LedgerEntry, l: PostedLine) -> bool {
    &&& e.entry_date@ == l.entry_date@
    &&& e.memo == l.memo
    &&& e.line_number == l.line_number
    &&& e.description == l.description
    &&& e.debit_minor == l.debit_minor
    &&& e.credit_minor == l.credit_minor
    &&& e.journal_id == l.journal_id
    &&& e.source_kind == l.source_kind
}

proof fn lemma_selected_in_range(lines: Seq<PostedLine>, id: i64, from: Seq<char>, to: Seq<char>)
    ensures
        forall|k: int|
            0 <= k < gl_selected(lines, id, from, to).len() ==> 0 <= #[trigger] gl_selected(
                lines,
                id,
                from,
                to,
            )[k] < lines.len(),
    decreases lines.len(),
{
    if lines.len() > 0 {
        let prev = gl_selected(lines.drop_last(), id, from, to);
        lemma_selected_in_range(lines.drop_last(), id, from, to);
        assert forall|k: int| 0 <= k < prev.len() implies 0 <= #[trigger] prev[k] < lines.len()
            - 1 by {}
    }
}

/// General ledger of account `account_id` for `date_from..=date_to`: its lines in
/// the period, in the order of `lines` (date, journal, line number).
pub fn general_ledger(
    lines: &[PostedLine],
    account_id: i64,
    date_from: &str,
    date_to: &str,
) -> (r: Result<Vec<LedgerEntry>, DbCommandError>)
    ensures
        r is Ok <==> valid_range(date_from@, date_to@),
        r is Err ==> (r matches Err(DbCommandError::Validation { message }) && message@
            == range_error_text(date_from@, date_to@)),
        r matches Ok(rows) ==> {
            let sel = gl_selected(lines@, account_id, date_from@, date_to@);
            &&& rows@.len() == sel.len()
            &&& forall|k: int|
                0 <= k < rows@.len() ==> entry_matches(#[trigger] rows@[k], lines@[sel[k]])
        },
{
    require_date_range(date_from, date_to)?;
    let from: Option<Vec<char>> = Some(chars_of(date_from));
    let to = chars_of(date_to);
    let mut rows: Vec<LedgerEntry> = Vec::new();
    let mut i: usize = 0;
    while i < lines.len()
        invariant
            i <= lines@.len(),
            opt_view(from) == Some(date_from@),
            to@ == date_to@,
            rows@.len() == gl_selected(lines@.take(i as int), account_id, date_from@, date_to@).len(),
            forall|k: int|
                0 <= k < rows@.len() ==> entry_matches(
                    #[trigger] rows@[k],
                    lines@[gl_selected(lines@.take(i as int), account_id, date_from@, date_to@)[k]],
                ),
        decreases lines@.len() - i,
    {
        let l = &lines[i];
        let ghost prev = gl_selected(lines@.take(i as int), account_id, date_from@, date_to@);
        proof {
            assert(lines@.take(i as int + 1).drop_last() == lines@.take(i as int));
            assert(lines@.take(i as int + 1).last() == lines@[i as int]);
            lemma_selected_in_range(lines@.take(i as int), account_id, date_from@, date_to@);
        }
        let d = chars_of(l.entry_date.as_str());
        if l.account_id == account_id && in_window_exec(&d, &from, &to) {
            rows.push(
                LedgerEntry {
                    entry_date: l.entry_date.clone(),
                    memo: l.memo.clone(),
                    line_number: l.line_number,
                    description: l.description.clone(),
                    debit_minor: l.debit_minor,
                    credit_minor: l.credit_minor,
                    journal_id: l.journal_id,
                    source_kind: l.source_kind.clone(),
                },
            );
        }
        proof {
            let now = gl_selected(lines@.take(i as int + 1), account_id, date_from@, date_to@);
            assert forall|k: int| 0 <= k < prev.len() implies now[k] == prev[k] by {}
            assert forall|k: int| 0 <= k < prev.len() implies lines@[prev[k]] == lines@.take(
                i as int,
            )[prev[k]] by {}
        }
        i = i + 1;
    }
    proof {
        assert(lines@.take(i as int) == lines@);
    }
    Ok(rows)
}

// ------------------------------------------------------- balances by kind of account

/// A line's debit when it falls in the window, else 0.
pub open spec fn debit_in(from: Option<Seq<char>>, to: Seq<char>) -> spec_fn(PostedLine) -> int {
    |l: PostedLine|
        if in_window(l, from, to) {
            l.debit_minor as int
        } else {
            0
        }
}

/// A line's credit when it falls in the window, else 0.
pub open spec fn credit_in(from: Option<Seq<char>>, to: Seq<char>) -> spec_fn(PostedLine) -> int {
    |l: PostedLine|
        if in_window(l, from, to) {
            l.credit_minor as int
        } else {
            0
        }
}

/// A line's debit minus credit when it falls in the window, else 0.
pub open spec fn net_in(from: Option<Seq<char>>, to: Seq<char>) -> spec_fn(PostedLine) -> int {
    |l: PostedLine|
        if in_window(l, from, to) {
            l.debit_minor - l.credit_minor
        } else {
            0
        }
}

/// A line's size.
pub open spec fn weight_fn() -> spec_fn(PostedLine) -> int {
    |l: PostedLine| line_weight(l)
}

/// Every account.
pub open spec fn any_account() -> spec_fn(AccountInfo) -> bool {
    |a: AccountInfo| true
}

/// Accounts of the five kinds that the reports know.
pub open spec fn reported_account() -> spec_fn(AccountInfo) -> bool {
    |a: AccountInfo| account_kind(a) != AccountKind::Other
}

/// The balance of an account of kind `kind` from its debits and credits: debit-normal
/// for assets and expenses, credit-normal for liabilities, equity and income.
pub open spec fn balance_of(kind: AccountKind, dr: int, cr: int) -> int {
    match kind {
        AccountKind::Asset => dr - cr,
        AccountKind::Expense => dr - cr,
        AccountKind::Liability => cr - dr,
        AccountKind::Equity => cr - dr,
        AccountKind::Income => cr - dr,
        AccountKind::Other => 0,
    }
}

/// Balance of account `a` over the window.
pub open spec fn account_balance(a: AccountInfo, lines: Seq<PostedLine>, from: Option<Seq<char>>, to: Seq<char>) -> int {
    balance_of(account_kind(a), debits_for(lines, a.id, from, to), credits_for(lines, a.id, from, to))
}

/// Sum of the balances of the accounts of kind `kind`.
pub open spec fn kind_total(accounts: Seq<AccountInfo>, lines: Seq<PostedLine>, from: Option<Seq<char>>, to: Seq<char>, kind: AccountKind) -> int
    decreases accounts.len(),
{
    if accounts.len() == 0 {
        0
    } else {
        kind_total(accounts.drop_last(), lines, from, to, kind) + if account_kind(accounts.last())
            == kind {
            account_balance(accounts.last(), lines, from, to)
        } else {
            0
        }
    }
}

/// Net of all lines in the window (debits minus credits).
pub open spec fn window_net(lines: Seq<PostedLine>, from: Option<Seq<char>>, to: Seq<char>) -> int
    decreases lines.len(),
{
    if lines.len() == 0 {
        0
    } else {
        window_net(lines.drop_last(), from, to) + net_in(from, to)(lines.last())
    }
}

/// Every line is posted to an account of the chart of one of the five kinds.
pub open spec fn lines_well_typed(accounts: Seq<AccountInfo>, lines: Seq<PostedLine>) -> bool {
    forall|k: int|
        0 <= k < lines.len() ==> in_chart(accounts, reported_account(), #[trigger] lines[k].account_id)
}

proof fn lemma_sums_as_id_sums(lines: Seq<PostedLine>, id: i64, from: Option<Seq<char>>, to: Seq<char>)
    ensures
        debits_for(lines, id, from, to) == id_sum(lines, id, debit_in(from, to)),
        credits_for(lines, id, from, to) == id_sum(lines, id, credit_in(from, to)),
        debits_for(lines, id, from, to) - credits_for(lines, id, from, to) == id_sum(
            lines,
            id,
            net_in(from, to),
        ),
        abs(debits_for(lines, id, from, to)) + abs(credits_for(lines, id, from, to)) <= id_sum(
            lines,
            id,
            weight_fn(),
        ),
    decreases lines.len(),
{
    if lines.len() > 0 {
        lemma_sums_as_id_sums(lines.drop_last(), id, from, to);
    }
}

proof fn lemma_id_sum_weight_nonneg(lines: Seq<PostedLine>, id: i64)
    ensures
        id_sum(lines, id, weight_fn()) >= 0,
    decreases lines.len(),
{
    if lines.len() > 0 {
        lemma_id_sum_weight_nonneg(lines.drop_last(), id);
    }
}

/// The five kind totals together are bounded by the size of the lines of the chart.
proof fn lemma_kind_totals_bounded(accounts: Seq<AccountInfo>, lines: Seq<PostedLine>, from: Option<Seq<char>>, to: Seq<char>)
    ensures
        abs(kind_total(accounts, lines, from, to, AccountKind::Asset)) + abs(
            kind_total(accounts, lines, from, to, AccountKind::Liability),
        ) + abs(kind_total(accounts, lines, from, to, AccountKind::Equity)) + abs(
            kind_total(accounts, lines, from, to, AccountKind::Income),
        ) + abs(kind_total(accounts, lines, from, to, AccountKind::Expense)) <= chart_sum(
            accounts,
            lines,
            any_account(),
            weight_fn(),
        ),
    decreases accounts.len(),
{
    if accounts.len() > 0 {
        let a = accounts.last();
        lemma_kind_totals_bounded(accounts.drop_last(), lines, from, to);
        lemma_sums_as_id_sums(lines, a.id, from, to);
    }
}

proof fn lemma_chart_weight_prefix(accounts: Seq<AccountInfo>, lines: Seq<PostedLine>, k: int)
    requires
        0 <= k <= accounts.len(),
    ensures
        0 <= chart_sum(accounts.take(k), lines, any_account(), weight_fn()) <= chart_sum(
            accounts,
            lines,
            any_account(),
            weight_fn(),
        ),
    decreases accounts.len() - k,
{
    if k < accounts.len() {
        lemma_chart_weight_prefix(accounts, lines, k + 1);
        assert(accounts.take(k + 1).drop_last() == accounts.take(k));
        assert(accounts.take(k + 1).last() == accounts[k]);
        lemma_id_sum_weight_nonneg(lines, accounts[k].id);
        lemma_chart_weight_nonneg(accounts.take(k), lines);
        assert(any_account()(accounts[k]));
    } else {
        assert(accounts.take(k) == accounts);
        lemma_chart_weight_nonneg(accounts, lines);
    }
}

proof fn lemma_chart_weight_nonneg(accounts: Seq<AccountInfo>, lines: Seq<PostedLine>)
    ensures
        chart_sum(accounts, lines, any_account(), weight_fn()) >= 0,
    decreases accounts.len(),
{
    if accounts.len() > 0 {
        lemma_chart_weight_nonneg(accounts.drop_last(), lines);
        lemma_id_sum_weight_nonneg(lines, accounts.last().id);
    }
}

proof fn lemma_covered_weight_le_total(lines: Seq<PostedLine>, accounts: Seq<AccountInfo>)
    ensures
        covered_sum(lines, accounts, any_account(), weight_fn()) <= total_weight(lines),
    decreases lines.len(),
{
    if lines.len() > 0 {
        lemma_covered_weight_le_total(lines.drop_last(), accounts);
    }
}

/// Over a chart with distinct ids and a ledger that fits, every kind total of every
/// prefix of the chart, and every combination the reports form, stays within `i64`.
proof fn lemma_prefix_totals_fit(accounts: Seq<AccountInfo>, lines: Seq<PostedLine>, from: Option<Seq<char>>, to: Seq<char>, k: int)
    requires
        0 <= k <= accounts.len(),
        distinct_ids(accounts),
        ledger_fits(lines),
    ensures
        abs(kind_total(accounts.take(k), lines, from, to, AccountKind::Asset)) + abs(
            kind_total(accounts.take(k), lines, from, to, AccountKind::Liability),
        ) + abs(kind_total(accounts.take(k), lines, from, to, AccountKind::Equity)) + abs(
            kind_total(accounts.take(k), lines, from, to, AccountKind::Income),
        ) + abs(kind_total(accounts.take(k), lines, from, to, AccountKind::Expense))
            <= i64::MAX,
{
    lemma_kind_totals_bounded(accounts.take(k), lines, from, to);
    lemma_chart_weight_prefix(accounts, lines, k);
    lemma_chart_sum_swap(accounts, lines, any_account(), weight_fn());
    lemma_covered_weight_le_total(lines, accounts);
}

/// The five kind totals, debit-normal kinds counted positive, add up to the net of
/// the lines posted to accounts of the five kinds.
proof fn lemma_kind_totals_net(accounts: Seq<AccountInfo>, lines: Seq<PostedLine>, from: Option<Seq<char>>, to: Seq<char>)
    ensures
        kind_total(accounts, lines, from, to, AccountKind::Asset) - kind_total(
            accounts,
            lines,
            from,
            to,
            AccountKind::Liability,
        ) - kind_total(accounts, lines, from, to, AccountKind::Equity) - kind_total(
            accounts,
            lines,
            from,
            to,
            AccountKind::Income,
        ) + kind_total(accounts, lines, from, to, AccountKind::Expense) == chart_sum(
            accounts,
            lines,
            reported_account(),
            net_in(from, to),
        ),
    decreases accounts.len(),
{
    if accounts.len() > 0 {
        let a = accounts.last();
        lemma_kind_totals_net(accounts.drop_last(), lines, from, to);
        lemma_sums_as_id_sums(lines, a.id, from, to);
    }
}

proof fn lemma_covered_all(lines: Seq<PostedLine>, accounts: Seq<AccountInfo>, from: Option<Seq<char>>, to: Seq<char>)
    requires
        lines_well_typed(accounts, lines),
    ensures
        covered_sum(lines, accounts, reported_account(), net_in(from, to)) == window_net(
            lines,
            from,
            to,
        ),
    decreases lines.len(),
{
    if lines.len() > 0 {
        let p = lines.drop_last();
        assert(lines_well_typed(accounts, p)) by {
            assert forall|k: int| 0 <= k < p.len() implies in_chart(
                accounts,
                reported_account(),
                #[trigger] p[k].account_id,
            ) by {
                assert(p[k] == lines[k]);
            }
        }
        assert(lines.last() == lines[lines.len() - 1]);
        lemma_covered_all(p, accounts, from, to);
    }
}

// ------------------------------------------------------------------ profit and loss

/// One account line of the profit and loss statement.
#[derive(Debug, Clone)]
pub struct PlLine {
    pub account_id: i64,
    pub code: String,
    pub name: String,
    pub amount_minor: i64,
}

/// Profit and loss statement for a period.
#[derive(Debug, Clone)]
pub struct ProfitAndLoss {
    pub date_from: String,
    pub date_to: String,
    pub income_lines: Vec<PlLine>,
    pub expense_lines: Vec<PlLine>,
    pub total_income_minor: i64,
    pub total_expense_minor: i64,
    pub net_income_minor: i64,
}

/// Positions (in chart order) of the accounts of kind `kind` whose balance in the window is not zero.
pub open spec fn nonzero_of_kind(accounts: Seq<AccountInfo>, lines: Seq<PostedLine>, from: Option<Seq<char>>, to: Seq<char>, kind: AccountKind) -> Seq<int>
    decreases accounts.len(),
{
    if accounts.len() == 0 {
        seq![]
    } else {
        let prev = nonzero_of_kind(accounts.drop_last(), lines, from, to, kind);
        let a = accounts.last();
        if account_kind(a) == kind && account_balance(a, lines, from, to) != 0 {
            prev.push(accounts.len() - 1)
        } else {
            prev
        }
    }
}

/// Positions (in chart order) of all the accounts of kind `kind`.
pub open spec fn all_of_kind(accounts: Seq<AccountInfo>, kind: AccountKind) -> Seq<int>
    decreases accounts.len(),
{
    if accounts.len() == 0 {
        seq![]
    } else {
        let prev = all_of_kind(accounts.drop_last(), kind);
        if account_kind(accounts.last()) == kind {
            prev.push(accounts.len() - 1)
        } else {
            prev
        }
    }
}

/// Line `row` reports account `a` with its balance over the window.
pub open spec fn pl_line_matches(row: PlLine, a: AccountInfo, lines: Seq<PostedLine>, from: Option<Seq<char>>, to: Seq<char>) -> bool {
    &&& row.account_id == a.id
    &&& row.code@ == a.code@
    &&& row.name@ == a.name@
    &&& row.amount_minor == account_balance(a, lines, from, to)
}

proof fn lemma_positions_in_range(accounts: Seq<AccountInfo>, lines: Seq<PostedLine>, from: Option<Seq<char>>, to: Seq<char>, kind: AccountKind)
    ensures
        forall|k: int|
            0 <= k < nonzero_of_kind(accounts, lines, from, to, kind).len() ==> 0
                <= #[trigger] nonzero_of_kind(accounts, lines, from, to, kind)[k] < accounts.len(),
        forall|k: int|
            0 <= k < all_of_kind(accounts, kind).len() ==> 0 <= #[trigger] all_of_kind(
                accounts,
                kind,
            )[k] < accounts.len(),
    decreases accounts.len(),
{
    if accounts.len() > 0 {
        let prev = nonzero_of_kind(accounts.drop_last(), lines, from, to, kind);
        let prev2 = all_of_kind(accounts.drop_last(), kind);
        lemma_positions_in_range(accounts.drop_last(), lines, from, to, kind);
        assert forall|k: int| 0 <= k < prev.len() implies 0 <= #[trigger] prev[k] < accounts.len()
            - 1 by {}
        assert forall|k: int| 0 <= k < prev2.len() implies 0 <= #[trigger] prev2[k]
            < accounts.len() - 1 by {}
    }
}

/// Balance of account `a` over the window, computed from its debits and credits.
fn balance_exec(kind: AccountKind, dr: i64, cr: i64) -> (r: i64)
    requires
        abs(dr as int) + abs(cr as int) <= i64::MAX,
    ensures
        r == balance_of(kind, dr as int, cr as int),
{
    match kind {
        AccountKind::Asset => dr - cr,
        AccountKind::Expense => dr - cr,
        AccountKind::Liability => cr - dr,
        AccountKind::Equity => cr - dr,
        AccountKind::Income => cr - dr,
        AccountKind::Other => 0,
    }
}

/// The accounts of kind `kind` (income or expense) with a non-zero balance in the
/// window, and the total of their balances.
fn pl_section(
    accounts: &[AccountInfo],
    lines: &[PostedLine],
    dates: &[Vec<char>],
    from: &Option<Vec<char>>,
    to: &[char],
    kind: AccountKind,
) -> (r: (Vec<PlLine>, i64))
    requires
        distinct_ids(accounts@),
        ledger_fits(lines@),
        dates_match(lines@, dates@),
        kind == AccountKind::Income || kind == AccountKind::Expense,
    ensures
        ({
            let inc = nonzero_of_kind(accounts@, lines@, opt_view(*from), to@, kind);
            &&& r.0@.len() == inc.len()
            &&& forall|k: int|
                0 <= k < r.0@.len() ==> pl_line_matches(
                    #[trigger] r.0@[k],
                    accounts@[inc[k]],
                    lines@,
                    opt_view(*from),
                    to@,
                )
        }),
        r.1 == kind_total(accounts@, lines@, opt_view(*from), to@, kind),
{
    let ghost fv = opt_view(*from);
    let mut rows: Vec<PlLine> = Vec::new();
    let mut total: i64 = 0;
    let mut i: usize = 0;
    while i < accounts.len()
        invariant
            i <= accounts@.len(),
            distinct_ids(accounts@),
            ledger_fits(lines@),
            dates_match(lines@, dates@),
            fv == opt_view(*from),
            kind == AccountKind::Income || kind == AccountKind::Expense,
            total == kind_total(accounts@.take(i as int), lines@, fv, to@, kind),
            rows@.len() == nonzero_of_kind(accounts@.take(i as int), lines@, fv, to@, kind).len(),
            forall|k: int|
                0 <= k < rows@.len() ==> pl_line_matches(
                    #[trigger] rows@[k],
                    accounts@[nonzero_of_kind(accounts@.take(i as int), lines@, fv, to@, kind)[k]],
                    lines@,
                    fv,
                    to@,
                ),
        decreases accounts@.len() - i,
    {
        let a = &accounts[i];
        let ghost prev = nonzero_of_kind(accounts@.take(i as int), lines@, fv, to@, kind);
        proof {
            assert(accounts@.take(i as int + 1).drop_last() == accounts@.take(i as int));
            assert(accounts@.take(i as int + 1).last() == accounts@[i as int]);
            lemma_positions_in_range(accounts@.take(i as int), lines@, fv, to@, kind);
            lemma_sums_bounded(lines@, a.id, fv, to@);
            lemma_prefix_totals_fit(accounts@, lines@, fv, to@, i as int + 1);
        }
        let k = classify(a.account_type.as_str());
        if k == kind {
            let (dr, cr) = account_sums(lines, dates, a.id, from, to);
            let amount = balance_exec(kind, dr, cr);
            total = total + amount;
            if amount != 0 {
                rows.push(
                    PlLine {
                        account_id: a.id,
                        code: a.code.clone(),
                        name: a.name.clone(),
                        amount_minor: amount,
                    },
                );
            }
        }
        proof {
            let now = nonzero_of_kind(accounts@.take(i as int + 1), lines@, fv, to@, kind);
            assert forall|k: int| 0 <= k < prev.len() implies now[k] == prev[k] by {}
            assert forall|k: int| 0 <= k < prev.len() implies accounts@[prev[k]] == accounts@.take(
                i as int,
            )[prev[k]] by {}
        }
        i = i + 1;
    }
    proof {
        assert(accounts@.take(i as int) == accounts@);
    }
    (rows, total)
}

/// Profit and loss for `date_from..=date_to`: income accounts (credit-normal) and
/// expense accounts (debit-normal) with a non-zero balance in the period, their
/// totals, and net income = income − expense.
pub fn profit_and_loss(
    accounts: &[AccountInfo],
    lines: &[PostedLine],
    date_from: &str,
    date_to: &str,
) -> (r: Result<ProfitAndLoss, DbCommandError>)
    requires
        distinct_ids(accounts@),
        ledger_fits(lines@),
    ensures
        r is Ok <==> valid_range(date_from@, date_to@),
        r is Err ==> (r matches Err(DbCommandError::Validation { message }) && message@
            == range_error_text(date_from@, date_to@)),
        r matches Ok(pl) ==> {
            let w = Some(date_from@);
            let inc = nonzero_of_kind(accounts@, lines@, w, date_to@, AccountKind::Income);
            let exp = nonzero_of_kind(accounts@, lines@, w, date_to@, AccountKind::Expense);
            &&& pl.date_from@ == date_from@
            &&& pl.date_to@ == date_to@
            &&& pl.income_lines@.len() == inc.len()
            &&& (forall|k: int|
                0 <= k < inc.len() ==> pl_line_matches(
                    #[trigger] pl.income_lines@[k],
                    accounts@[inc[k]],
                    lines@,
                    w,
                    date_to@,
                ))
            &&& pl.expense_lines@.len() == exp.len()
            &&& (forall|k: int|
                0 <= k < exp.len() ==> pl_line_matches(
                    #[trigger] pl.expense_lines@[k],
                    accounts@[exp[k]],
                    lines@,
                    w,
                    date_to@,
                ))
            &&& pl.total_income_minor == kind_total(
                accounts@,
                lines@,
                w,
                date_to@,
                AccountKind::Income,
            )
            &&& pl.total_expense_minor == kind_total(
                accounts@,
                lines@,
                w,
                date_to@,
                AccountKind::Expense,
            )
            &&& pl.net_income_minor == pl.total_income_minor - pl.total_expense_minor
        },
{
    require_date_range(date_from, date_to)?;
    let dates = line_dates(lines);
    let from: Option<Vec<char>> = Some(chars_of(date_from));
    let to = chars_of(date_to);
    let (income_lines, ti) = pl_section(accounts, lines, &dates, &from, &to, AccountKind::Income);
    let (expense_lines, te) = pl_section(
        accounts,
        lines,
        &dates,
        &from,
        &to,
        AccountKind::Expense,
    );
    proof {
        lemma_prefix_totals_fit(accounts@, lines@, Some(date_from@), date_to@, accounts@.len() as int);
        assert(accounts@.take(accounts@.len() as int) == accounts@);
    }
    Ok(
        ProfitAndLoss {
            date_from: date_from.to_owned(),
            date_to: date_to.to_owned(),
            income_lines,
            expense_lines,
            total_income_minor: ti,
            total_expense_minor: te,
            net_income_minor: ti - te,
        },
    )
}

// -------------------------------------------------------------------- balance sheet

/// One line of the balance sheet; the synthetic net-income line has no account.
#[derive(Debug, Clone)]
pub struct BalanceSheetLine {
    pub account_id: Option<i64>,
    pub code: String,
    pub name: String,
    pub account_type: String,
    pub balance_minor: i64,
    pub synthetic: bool,
}

/// Balance sheet as of a date.
#[derive(Debug, Clone)]
pub struct BalanceSheet {
    pub as_of_date: String,
    pub assets: Vec<BalanceSheetLine>,
    pub liabilities: Vec<BalanceSheetLine>,
    pub equity: Vec<BalanceSheetLine>,
    pub total_assets_minor: i64,
    pub total_liabilities_minor: i64,
    pub total_equity_minor: i64,
    pub net_income_minor: i64,
}

/// Line `row` reports account `a` with its balance through `as_of`.
pub open spec fn bs_line_matches(row: BalanceSheetLine, a: AccountInfo, lines: Seq<PostedLine>, as_of: Seq<char>) -> bool {
    &&& row.account_id == Some(a.id)
    &&& row.code@ == a.code@
    &&& row.name@ == a.name@
    &&& row.account_type@ == a.account_type@
    &&& row.balance_minor == account_balance(a, lines, None, as_of)
    &&& !row.synthetic
}

/// The rows of a balance-sheet section list the accounts at positions `pos`.
pub open spec fn bs_section_matches(rows: Seq<BalanceSheetLine>, pos: Seq<int>, accounts: Seq<AccountInfo>, lines: Seq<PostedLine>, as_of: Seq<char>) -> bool {
    &&& rows.len() == pos.len()
    &&& forall|k: int|
        0 <= k < rows.len() ==> bs_line_matches(#[trigger] rows[k], accounts[pos[k]], lines, as_of)
}

/// Net income through `as_of`: income balances minus expense balances.
pub open spec fn net_income_through(accounts: Seq<AccountInfo>, lines: Seq<PostedLine>, as_of: Seq<char>) -> int {
    kind_total(accounts, lines, None, as_of, AccountKind::Income) - kind_total(
        accounts,
        lines,
        None,
        as_of,
        AccountKind::Expense,
    )
}

/// The synthetic equity line that carries undistributed net income.
pub open spec fn is_net_income_line(row: BalanceSheetLine, ni: int) -> bool {
    &&& row.account_id is None
    &&& row.code@ == "NI"@
    &&& row.name@ == "Net Income"@
    &&& row.account_type@ == "equity"@
    &&& row.balance_minor == ni
    &&& row.synthetic
}

/// The accounts of kind `kind` with their balances through the window end, and their total.
fn bs_section(
    accounts: &[AccountInfo],
    lines: &[PostedLine],
    dates: &[Vec<char>],
    to: &[char],
    kind: AccountKind,
) -> (r: (Vec<BalanceSheetLine>, i64))
    requires
        distinct_ids(accounts@),
        ledger_fits(lines@),
        dates_match(lines@, dates@),
        kind != AccountKind::Other,
    ensures
        bs_section_matches(r.0@, all_of_kind(accounts@, kind), accounts@, lines@, to@),
        r.1 == kind_total(accounts@, lines@, None, to@, kind),
{
    let from: Option<Vec<char>> = None;
    let mut rows: Vec<BalanceSheetLine> = Vec::new();
    let mut total: i64 = 0;
    let mut i: usize = 0;
    while i < accounts.len()
        invariant
            i <= accounts@.len(),
            distinct_ids(accounts@),
            ledger_fits(lines@),
            dates_match(lines@, dates@),
            from is None,
            kind != AccountKind::Other,
            total == kind_total(accounts@.take(i as int), lines@, None, to@, kind),
            bs_section_matches(
                rows@,
                all_of_kind(accounts@.take(i as int), kind),
                accounts@,
                lines@,
                to@,
            ),
        decreases accounts@.len() - i,
    {
        let a = &accounts[i];
        let ghost prev = all_of_kind(accounts@.take(i as int), kind);
        proof {
            assert(accounts@.take(i as int + 1).drop_last() == accounts@.take(i as int));
            assert(accounts@.take(i as int + 1).last() == accounts@[i as int]);
            lemma_positions_in_range(accounts@.take(i as int), lines@, None, to@, kind);
            lemma_sums_bounded(lines@, a.id, None, to@);
            lemma_prefix_totals_fit(accounts@, lines@, None, to@, i as int + 1);
        }
        let k = classify(a.account_type.as_str());
        if k == kind {
            let (dr, cr) = account_sums(lines, dates, a.id, &from, to);
            let amount = balance_exec(kind, dr, cr);
            total = total + amount;
            rows.push(
                BalanceSheetLine {
                    account_id: Some(a.id),
                    code: a.code.clone(),
                    name: a.name.clone(),
                    account_type: a.account_type.clone(),
                    balance_minor: amount,
                    synthetic: false,
                },
            );
        }
        proof {
            let now = all_of_kind(accounts@.take(i as int + 1), kind);
            assert forall|k: int| 0 <= k < prev.len() implies now[k] == prev[k] by {}
            assert forall|k: int| 0 <= k < prev.len() implies accounts@[prev[k]] == accounts@.take(
                i as int,
            )[prev[k]] by {}
        }
        i = i + 1;
    }
    proof {
        assert(accounts@.take(i as int) == accounts@);
    }
    (rows, total)
}

/// Balance sheet through `as_of_date` (inclusive): every asset, liability and equity
/// account (in chart order) with its cumulative balance, plus a synthetic equity line
/// for net income when it is not zero, so that assets = liabilities + equity.
pub fn balance_sheet(accounts: &[AccountInfo], lines: &[PostedLine], as_of_date: &str) -> (r: Result<
    BalanceSheet,
    DbCommandError,
>)
    requires
        distinct_ids(accounts@),
        ledger_fits(lines@),
    ensures
        r is Ok <==> is_iso_date(as_of_date@),
        r is Err ==> (r matches Err(DbCommandError::Validation { message }) && message@
            == invalid_date_text("as-of date"@)),
        r matches Ok(bs) ==> {
            let d = as_of_date@;
            let ni = net_income_through(accounts@, lines@, d);
            let eq_pos = all_of_kind(accounts@, AccountKind::Equity);
            &&& bs.as_of_date@ == d
            &&& bs_section_matches(
                bs.assets@,
                all_of_kind(accounts@, AccountKind::Asset),
                accounts@,
                lines@,
                d,
            )
            &&& bs_section_matches(
                bs.liabilities@,
                all_of_kind(accounts@, AccountKind::Liability),
                accounts@,
                lines@,
                d,
            )
            &&& (if ni != 0 {
                &&& bs.equity@.len() == eq_pos.len() + 1
                &&& bs_section_matches(bs.equity@.drop_last(), eq_pos, accounts@, lines@, d)
                &&& is_net_income_line(bs.equity@.last(), ni)
            } else {
                bs_section_matches(bs.equity@, eq_pos, accounts@, lines@, d)
            })
            &&& bs.total_assets_minor == kind_total(accounts@, lines@, None, d, AccountKind::Asset)
            &&& bs.total_liabilities_minor == kind_total(
                accounts@,
                lines@,
                None,
                d,
                AccountKind::Liability,
            )
            &&& bs.net_income_minor == ni
            &&& bs.total_equity_minor == kind_total(accounts@, lines@, None, d, AccountKind::Equity)
                + ni
        },
{
    crate::dates::require_iso_date("as-of date", as_of_date)?;
    let dates = line_dates(lines);
    let to = chars_of(as_of_date);
    let (assets, ta) = bs_section(accounts, lines, &dates, &to, AccountKind::Asset);
    let (liabilities, tl) = bs_section(accounts, lines, &dates, &to, AccountKind::Liability);
    let (mut equity, te) = bs_section(accounts, lines, &dates, &to, AccountKind::Equity);
    let (ti, tx) = (
        bs_section(accounts, lines, &dates, &to, AccountKind::Income).1,
        bs_section(accounts, lines, &dates, &to, AccountKind::Expense).1,
    );
    proof {
        lemma_prefix_totals_fit(accounts@, lines@, None, to@, accounts@.len() as int);
        assert(accounts@.take(accounts@.len() as int) == accounts@);
    }
    let net_income = ti - tx;
    let mut total_equity = te;
    if net_income != 0 {
        let ghost before = equity@;
        equity.push(
            BalanceSheetLine {
                account_id: None,
                code: "NI".to_owned(),
                name: "Net Income".to_owned(),
                account_type: "equity".to_owned(),
                balance_minor: net_income,
                synthetic: true,
            },
        );
        assert(equity@.drop_last() == before);
        total_equity = te + net_income;
    }
    Ok(
        BalanceSheet {
            as_of_date: as_of_date.to_owned(),
            assets,
            liabilities,
            equity,
            total_assets_minor: ta,
            total_liabilities_minor: tl,
            total_equity_minor: total_equity,
            net_income_minor: net_income,
        },
    )
}

// ---------------------------------------------------------------------------- laws

/// The books balance through `as_of`: over every line dated on or before it, total
/// debits equal total credits.
pub open spec fn books_balance_through(lines: Seq<PostedLine>, as_of: Seq<char>) -> bool {
    window_net(lines, None, as_of) == 0
}

/// Accounting equation. When every posted line belongs to an account of the chart of
/// one of the five kinds and the books balance through a date, the balance sheet for
/// that date balances: total assets = total liabilities + total equity (equity
/// including net income).
pub proof fn law_balance_sheet_balances(accounts: Seq<AccountInfo>, lines: Seq<PostedLine>, as_of: Seq<char>)
    requires
        distinct_ids(accounts),
        lines_well_typed(accounts, lines),
        books_balance_through(lines, as_of),
    ensures
        kind_total(accounts, lines, None, as_of, AccountKind::Asset) == kind_total(
            accounts,
            lines,
            None,
            as_of,
            AccountKind::Liability,
        ) + (kind_total(accounts, lines, None, as_of, AccountKind::Equity)
            + net_income_through(accounts, lines, as_of)),
{
    lemma_kind_totals_net(accounts, lines, None, as_of);
    lemma_chart_sum_swap(accounts, lines, reported_account(), net_in(None, as_of));
    lemma_covered_all(lines, accounts, None, as_of);
}

/// Window net of a concatenation is the sum of the window nets.
proof fn lemma_window_net_concat(a: Seq<PostedLine>, b: Seq<PostedLine>, from: Option<Seq<char>>, to: Seq<char>)
    ensures
        window_net(a + b, from, to) == window_net(a, from, to) + window_net(b, from, to),
    decreases b.len(),
{
    if b.len() == 0 {
        assert(a + b == a);
    } else {
        lemma_window_net_concat(a, b.drop_last(), from, to);
        assert((a + b).drop_last() == a + b.drop_last());
        assert((a + b).last() == b.last());
    }
}

/// Exact debit-minus-credit total of a sequence of lines.
pub open spec fn lines_net(lines: Seq<PostedLine>) -> int
    decreases lines.len(),
{
    if lines.len() == 0 {
        0
    } else {
        lines_net(lines.drop_last()) + lines.last().debit_minor - lines.last().credit_minor
    }
}

proof fn lemma_same_date_window(j: Seq<PostedLine>, date: Seq<char>, from: Option<Seq<char>>, to: Seq<char>)
    requires
        forall|k: int| 0 <= k < j.len() ==> (#[trigger] j[k]).entry_date@ == date,
    ensures
        window_net(j, from, to) == if j.len() > 0 && in_window(j[0], from, to) {
            lines_net(j)
        } else {
            0
        },
    decreases j.len(),
{
    if j.len() > 0 {
        let p = j.drop_last();
        assert forall|k: int| 0 <= k < p.len() implies (#[trigger] p[k]).entry_date@ == date by {
            assert(p[k] == j[k]);
        }
        lemma_same_date_window(p, date, from, to);
        assert(j.last() == j[j.len() - 1]);
        if p.len() > 0 {
            assert(p[0] == j[0]);
        }
        assert(in_window(j.last(), from, to) == in_window(j[0], from, to));
        if p.len() == 0 {
            assert(lines_net(p) == 0);
        }
    }
}

/// Posting keeps the books balanced. Appending a journal whose lines share one entry
/// date and whose debits equal its credits leaves the debit-minus-credit total of
/// every reporting window unchanged; in particular books that balanced still balance.
pub proof fn law_posting_balanced_journal_keeps_books_balanced(
    lines: Seq<PostedLine>,
    journal: Seq<PostedLine>,
    date: Seq<char>,
    from: Option<Seq<char>>,
    to: Seq<char>,
)
    requires
        forall|k: int| 0 <= k < journal.len() ==> (#[trigger] journal[k]).entry_date@ == date,
        lines_net(journal) == 0,
    ensures
        window_net(lines + journal, from, to) == window_net(lines, from, to),
{
    lemma_window_net_concat(lines, journal, from, to);
    lemma_same_date_window(journal, date, from, to);
}

/// Assets and expenses are debit-normal: their balance is debits less credits.
/// Liabilities, equity and income are credit-normal: credits less debits.
pub proof fn law_normal_balances(dr: int, cr: int)
    ensures
        balance_of(AccountKind::Asset, dr, cr) == dr - cr,
        balance_of(AccountKind::Expense, dr, cr) == dr - cr,
        balance_of(AccountKind::Liability, dr, cr) == cr - dr,
        balance_of(AccountKind::Equity, dr, cr) == cr - dr,
        balance_of(AccountKind::Income, dr, cr) == cr - dr,
{
}

} // verus!

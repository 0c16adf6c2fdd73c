//! Posting: the journal that records a sent invoice, an open bill, or a payment,
//! and the checks a document must pass before it is written to the books.
use vstd::prelude::*;

use crate::accounts::{
    account_exists, account_id_by_code, active_account_of_type, active_bank_cash_asset,
    first_with_code, has_code, id_of_code, is_active_account, is_active_bank_cash,
    is_active_of_type, lemma_first_exists, lemma_first_unique, missing_code_text,
};
use crate::error::{DbCommandError, ErrorView};
use crate::journal::{
    credit_total, debit_total, first_problem, journal_is_balanced, line_problem, sat_add,
    sat_add_i64, DraftJournalLine,
};
use crate::ledger::{distinct_ids, AccountInfo};
use crate::num::{dec_int, fmt_i64};
use crate::text::{chars_of, concat, str_eq, string_of};
use crate::allow_sale_without_inventory_check;

verus! {

/// An invoice header as stored.
#[derive(Debug, Clone)]
pub struct InvoiceRecord {
    pub id: i64,
    pub customer_id: i64,
    pub status: String,
    pub journal_id: Option<i64>,
    pub subtotal_minor: i64,
    pub tax_minor: i64,
    pub total_minor: i64,
    pub issue_date: String,
}

/// One stored invoice line, in line order.
#[derive(Debug, Clone)]
pub struct InvoiceLineRecord {
    pub line_number: i32,
    pub description: String,
    pub line_total_minor: i64,
    /// Quantity × unit price recomputed from the stored quantity and price, in minor units.
    pub recomputed_total_minor: i64,
    pub income_account_id: Option<i64>,
    pub item_id: Option<i64>,
}

/// A journal ready to be written: its header and its lines.
#[derive(Debug, Clone)]
pub struct JournalPlan {
    pub entry_date: String,
    pub memo: String,
    pub source_kind: String,
    pub source_id: i64,
    pub lines: Vec<DraftJournalLine>,
}

/// `l` is the journal line with these account, number, description and amounts.
pub open spec fn line_is(
    l: DraftJournalLine,
    account: i64,
    number: int,
    desc: Seq<char>,
    debit: int,
    credit: int,
) -> bool {
    &&& l.account_id == account
    &&& l.line_number == number
    &&& (l.description matches Some(d) && d@ == desc)
    &&& l.debit_minor == debit
    &&& l.credit_minor == credit
}

/// The account an invoice line is credited to: its own income account, else sales.
pub open spec fn income_account_of(l: InvoiceLineRecord, sales_id: i64) -> i64 {
    match l.income_account_id {
        Some(a) => a,
        None => sales_id,
    }
}

/// What is wrong with one invoice line: a stored total that differs from
/// quantity × price, or an income account that is not an active income account.
pub open spec fn invoice_line_problem(
    l: InvoiceLineRecord,
    accounts: Seq<AccountInfo>,
    sales_id: i64,
) -> Option<Seq<char>> {
    if l.recomputed_total_minor != l.line_total_minor {
        Some(
            "invoice line "@ + dec_int(l.line_number as int)
                + ": stored total does not match qty × unit"@,
        )
    } else if !is_active_of_type(accounts, income_account_of(l, sales_id), "income"@) {
        Some("unknown income account on line "@ + dec_int(l.line_number as int))
    } else {
        None
    }
}

/// The problem of the first faulty invoice line.
pub open spec fn first_invoice_line_problem(
    lines: Seq<InvoiceLineRecord>,
    accounts: Seq<AccountInfo>,
    sales_id: i64,
) -> Option<Seq<char>>
    decreases lines.len(),
{
    if lines.len() == 0 {
        None
    } else if first_invoice_line_problem(lines.drop_last(), accounts, sales_id) is Some {
        first_invoice_line_problem(lines.drop_last(), accounts, sales_id)
    } else {
        invoice_line_problem(lines.last(), accounts, sales_id)
    }
}

proof fn lemma_invoice_problem_stable(
    lines: Seq<InvoiceLineRecord>,
    accounts: Seq<AccountInfo>,
    sales_id: i64,
    k: int,
)
    requires
        0 < k <= lines.len(),
        first_invoice_line_problem(lines.take(k), accounts, sales_id) is Some,
    ensures
        first_invoice_line_problem(lines, accounts, sales_id) == first_invoice_line_problem(
            lines.take(k),
            accounts,
            sales_id,
        ),
    decreases lines.len() - k,
{
    if k < lines.len() {
        assert(lines.take(k + 1).drop_last() == lines.take(k));
        lemma_invoice_problem_stable(lines, accounts, sales_id, k + 1);
    } else {
        assert(lines.take(k) == lines);
    }
}

proof fn lemma_invoice_problem_at(
    lines: Seq<InvoiceLineRecord>,
    accounts: Seq<AccountInfo>,
    sales_id: i64,
    i: int,
)
    requires
        0 <= i < lines.len(),
        first_invoice_line_problem(lines.take(i), accounts, sales_id) is None,
        invoice_line_problem(lines[i], accounts, sales_id) is Some,
    ensures
        first_invoice_line_problem(lines, accounts, sales_id) == invoice_line_problem(
            lines[i],
            accounts,
            sales_id,
        ),
{
    assert(lines.take(i + 1).drop_last() == lines.take(i));
    assert(lines.take(i + 1).last() == lines[i]);
    lemma_invoice_problem_stable(lines, accounts, sales_id, i + 1);
}

/// Saturating sum of the stored line totals.
pub open spec fn invoice_line_sum(lines: Seq<InvoiceLineRecord>) -> int
    decreases lines.len(),
{
    if lines.len() == 0 {
        0
    } else {
        sat_add(invoice_line_sum(lines.drop_last()), lines.last().line_total_minor as int)
    }
}

/// Why invoice `invoice_id` cannot be posted, if it cannot: checked in this order.
pub open spec fn invoice_posting_error(
    invoice_id: i64,
    invoice: Option<InvoiceRecord>,
    lines: Seq<InvoiceLineRecord>,
    accounts: Seq<AccountInfo>,
) -> Option<ErrorView> {
    match invoice {
        None => Some(ErrorView::NotFound("invoice"@, invoice_id)),
        Some(i) => {
            let sales = id_of_code(accounts, "4000"@);
            if i.journal_id is Some {
                Some(ErrorView::Conflict("invoice already posted"@))
            } else if i.status@ != "sent"@ {
                Some(
                    ErrorView::Validation(
                        "only sent invoices can be posted (use invoice_set_status)"@,
                    ),
                )
            } else if !has_code(accounts, "1100"@) {
                Some(ErrorView::Invariant(missing_code_text("1100"@)))
            } else if !has_code(accounts, "4000"@) {
                Some(ErrorView::Invariant(missing_code_text("4000"@)))
            } else {
                match first_invoice_line_problem(lines, accounts, sales) {
                    Some(m) => Some(ErrorView::Validation(m)),
                    None => if invoice_line_sum(lines) != i.subtotal_minor {
                        Some(
                            ErrorView::Validation(
                                "invoice subtotal does not equal sum of line totals"@,
                            ),
                        )
                    } else if sat_add(i.subtotal_minor as int, i.tax_minor as int)
                        != i.total_minor {
                        Some(ErrorView::Validation("invoice total must equal subtotal + tax"@))
                    } else if i.tax_minor > 0 && !has_code(accounts, "2100"@) {
                        Some(ErrorView::Invariant(missing_code_text("2100"@)))
                    } else {
                        None
                    },
                }
            }
        },
    }
}

/// The journal of a posted invoice: accounts receivable debited with the total,
/// each line's income account credited with its total, and any sales tax
/// credited to tax payable (code 2100).
pub open spec fn invoice_plan(
    p: JournalPlan,
    invoice_id: i64,
    i: InvoiceRecord,
    lines: Seq<InvoiceLineRecord>,
    accounts: Seq<AccountInfo>,
) -> bool {
    let sales = id_of_code(accounts, "4000"@);
    let n = lines.len() as int;
    &&& p.entry_date@ == i.issue_date@
    &&& p.memo@ == "Invoice #"@ + dec_int(invoice_id as int)
    &&& p.source_kind@ == "invoice"@
    &&& p.source_id == invoice_id
    &&& p.lines@.len() == (if i.tax_minor > 0 {
        n + 2
    } else {
        n + 1
    })
    &&& line_is(
        p.lines@[0],
        id_of_code(accounts, "1100"@),
        1,
        "Accounts receivable"@,
        i.total_minor as int,
        0,
    )
    &&& forall|k: int|
        0 <= k < n ==> line_is(
            p.lines@[k + 1],
            income_account_of(#[trigger] lines[k], sales),
            k + 2,
            lines[k].description@,
            0,
            lines[k].line_total_minor as int,
        )
    &&& i.tax_minor > 0 ==> line_is(
        p.lines@[n + 1],
        id_of_code(accounts, "2100"@),
        n + 2,
        "Tax"@,
        0,
        i.tax_minor as int,
    )
}

/// `prefix` followed by the decimal text of `n`, as a `String`.
fn text_with_number(prefix: &str, n: i64) -> (r: String)
    ensures
        r@ == prefix@ + dec_int(n as int),
{
    let a = chars_of(prefix);
    let b = fmt_i64(n);
    string_of(&concat(&a, &b))
}

/// `prefix`, the decimal text of `n`, then `suffix`, as a `String`.
fn text_around_number(prefix: &str, n: i64, suffix: &str) -> (r: String)
    ensures
        r@ == prefix@ + dec_int(n as int) + suffix@,
{
    let a = chars_of(prefix);
    let b = fmt_i64(n);
    let c = chars_of(suffix);
    let ab = concat(&a, &b);
    string_of(&concat(&ab, &c))
}

/// A journal line with a description.
fn draft_line(account: i64, number: i32, desc: String, debit: i64, credit: i64) -> (l:
    DraftJournalLine)
    ensures
        line_is(l, account, number as int, desc@, debit as int, credit as int),
{
    DraftJournalLine {
        account_id: account,
        line_number: number,
        description: Some(desc),
        debit_minor: debit,
        credit_minor: credit,
    }
}

/// Checks that invoice `invoice_id` may be posted and plans its journal.
///
/// `invoice` is the stored header (if any), `lines` its lines in line order, and
/// `accounts` the chart of accounts. The returned journal still has to pass
/// [`crate::journal::validate_balance`] before it is written.
pub fn plan_invoice_posting(
    invoice_id: i64,
    invoice: &Option<InvoiceRecord>,
    lines: &[InvoiceLineRecord],
    accounts: &[AccountInfo],
) -> (r: Result<JournalPlan, DbCommandError>)
    requires
        lines@.len() + 2 <= i32::MAX,
    ensures
        invoice_posting_error(invoice_id, *invoice, lines@, accounts@) matches Some(e) ==> (
        r matches Err(err) && err@ == e),
        invoice_posting_error(invoice_id, *invoice, lines@, accounts@) is None ==> (
        r matches Ok(p) && (*invoice) matches Some(i) && invoice_plan(
            p,
            invoice_id,
            i,
            lines@,
            accounts@,
        )),
        (*invoice) matches Some(i) && i.journal_id is Some ==> r matches Err(
            DbCommandError::Conflict { .. },
        ),
{
    let inv = match invoice {
        None => {
            return Err(DbCommandError::NotFound { entity: "invoice".to_owned(), id: invoice_id });
        },
        Some(i) => i,
    };
    if inv.journal_id.is_some() {
        return Err(DbCommandError::Conflict { message: "invoice already posted".to_owned() });
    }
    if !str_eq(inv.status.as_str(), "sent") {
        return Err(
            DbCommandError::Validation {
                message: "only sent invoices can be posted (use invoice_set_status)".to_owned(),
            },
        );
    }
    let ar_id = match account_id_by_code(accounts, "1100") {
        Ok(id) => id,
        Err(e) => {
            return Err(e);
        },
    };
    let sales_id = match account_id_by_code(accounts, "4000") {
        Ok(id) => id,
        Err(e) => {
            return Err(e);
        },
    };
    let mut jl: Vec<DraftJournalLine> = Vec::new();
    jl.push(
        draft_line(ar_id, 1, "Accounts receivable".to_owned(), inv.total_minor, 0),
    );
    let n = lines.len();
    let mut sum: i64 = 0;
    let mut i: usize = 0;
    while i < n
        invariant
            n == lines@.len(),
            n + 2 <= i32::MAX,
            i <= n,
            *invoice == Some(*inv),
            inv.journal_id is None,
            inv.status@ == "sent"@,
            has_code(accounts@, "1100"@),
            has_code(accounts@, "4000"@),
            ar_id == id_of_code(accounts@, "1100"@),
            sales_id == id_of_code(accounts@, "4000"@),
            first_invoice_line_problem(lines@.take(i as int), accounts@, sales_id) is None,
            sum == invoice_line_sum(lines@.take(i as int)),
            jl@.len() == i + 1,
            line_is(jl@[0], ar_id, 1, "Accounts receivable"@, inv.total_minor as int, 0),
            forall|k: int|
                0 <= k < i ==> line_is(
                    jl@[k + 1],
                    income_account_of(#[trigger] lines@[k], sales_id),
                    k + 2,
                    lines@[k].description@,
                    0,
                    lines@[k].line_total_minor as int,
                ),
        decreases n - i,
    {
        let l = &lines[i];
        let ghost pre = lines@.take(i as int);
        let ghost next = lines@.take(i as int + 1);
        assert(next.drop_last() == pre);
        assert(next.last() == lines@[i as int]);
        if !allow_sale_without_inventory_check(l.item_id) {
            return Err(
                DbCommandError::Invariant {
                    message: "inventory rules blocked posting".to_owned(),
                },
            );
        }
        if l.recomputed_total_minor != l.line_total_minor {
            proof {
                lemma_invoice_problem_at(lines@, accounts@, sales_id, i as int);
            }
            return Err(
                DbCommandError::Validation {
                    message: text_around_number(
                        "invoice line ",
                        l.line_number as i64,
                        ": stored total does not match qty × unit",
                    ),
                },
            );
        }
        sum = sat_add_i64(sum, l.line_total_minor);
        let income = match l.income_account_id {
            Some(a) => a,
            None => sales_id,
        };
        if !active_account_of_type(accounts, income, "income") {
            proof {
                lemma_invoice_problem_at(lines@, accounts@, sales_id, i as int);
            }
            return Err(
                DbCommandError::Validation {
                    message: text_with_number(
                        "unknown income account on line ",
                        l.line_number as i64,
                    ),
                },
            );
        }
        let number: i32 = (i + 2) as i32;
        jl.push(draft_line(income, number, l.description.clone(), 0, l.line_total_minor));
        i = i + 1;
    }
    assert(lines@.take(n as int) == lines@);
    if sum != inv.subtotal_minor {
        return Err(
            DbCommandError::Validation {
                message: "invoice subtotal does not equal sum of line totals".to_owned(),
            },
        );
    }
    if sat_add_i64(inv.subtotal_minor, inv.tax_minor) != inv.total_minor {
        return Err(
            DbCommandError::Validation {
                message: "invoice total must equal subtotal + tax".to_owned(),
            },
        );
    }
    if inv.tax_minor > 0 {
        let tax_id = match account_id_by_code(accounts, "2100") {
            Ok(id) => id,
            Err(e) => {
                return Err(e);
            },
        };
        let number: i32 = (n + 2) as i32;
        jl.push(draft_line(tax_id, number, "Tax".to_owned(), 0, inv.tax_minor));
    }
    Ok(
        JournalPlan {
            entry_date: inv.issue_date.clone(),
            memo: text_with_number("Invoice #", invoice_id),
            source_kind: "invoice".to_owned(),
            source_id: invoice_id,
            lines: jl,
        },
    )
}

/// A bill header as stored.
#[derive(Debug, Clone)]
pub struct BillRecord {
    pub id: i64,
    pub vendor_id: Option<i64>,
    pub status: String,
    pub journal_id: Option<i64>,
    pub total_minor: i64,
    pub issue_date: String,
}

/// One stored bill line, in line order.
#[derive(Debug, Clone)]
pub struct BillLineRecord {
    pub line_number: i32,
    pub description: String,
    pub amount_minor: i64,
    pub expense_account_id: i64,
}

/// What is wrong with one bill line: an expense account that is not an active account.
pub open spec fn bill_line_problem(l: BillLineRecord, accounts: Seq<AccountInfo>) -> Option<
    Seq<char>,
> {
    if !is_active_account(accounts, l.expense_account_id) {
        Some("unknown expense account on line "@ + dec_int(l.line_number as int))
    } else {
        None
    }
}

/// The problem of the first faulty bill line.
pub open spec fn first_bill_line_problem(
    lines: Seq<BillLineRecord>,
    accounts: Seq<AccountInfo>,
) -> Option<Seq<char>>
    decreases lines.len(),
{
    if lines.len() == 0 {
        None
    } else if first_bill_line_problem(lines.drop_last(), accounts) is Some {
        first_bill_line_problem(lines.drop_last(), accounts)
    } else {
        bill_line_problem(lines.last(), accounts)
    }
}

proof fn lemma_bill_problem_stable(lines: Seq<BillLineRecord>, accounts: Seq<AccountInfo>, k: int)
    requires
        0 < k <= lines.len(),
        first_bill_line_problem(lines.take(k), accounts) is Some,
    ensures
        first_bill_line_problem(lines, accounts) == first_bill_line_problem(
            lines.take(k),
            accounts,
        ),
    decreases lines.len() - k,
{
    if k < lines.len() {
        assert(lines.take(k + 1).drop_last() == lines.take(k));
        lemma_bill_problem_stable(lines, accounts, k + 1);
    } else {
        assert(lines.take(k) == lines);
    }
}

proof fn lemma_bill_problem_at(lines: Seq<BillLineRecord>, accounts: Seq<AccountInfo>, i: int)
    requires
        0 <= i < lines.len(),
        first_bill_line_problem(lines.take(i), accounts) is None,
        bill_line_problem(lines[i], accounts) is Some,
    ensures
        first_bill_line_problem(lines, accounts) == bill_line_problem(lines[i], accounts),
{
    assert(lines.take(i + 1).drop_last() == lines.take(i));
    assert(lines.take(i + 1).last() == lines[i]);
    lemma_bill_problem_stable(lines, accounts, i + 1);
}

/// Saturating sum of the bill line amounts.
pub open spec fn bill_line_sum(lines: Seq<BillLineRecord>) -> int
    decreases lines.len(),
{
    if lines.len() == 0 {
        0
    } else {
        sat_add(bill_line_sum(lines.drop_last()), lines.last().amount_minor as int)
    }
}

/// Why bill `bill_id` cannot be posted, if it cannot: checked in this order.
pub open spec fn bill_posting_error(
    bill_id: i64,
    bill: Option<BillRecord>,
    lines: Seq<BillLineRecord>,
    accounts: Seq<AccountInfo>,
) -> Option<ErrorView> {
    match bill {
        None => Some(ErrorView::NotFound("bill"@, bill_id)),
        Some(b) => if b.journal_id is Some {
            Some(ErrorView::Conflict("bill already posted"@))
        } else if b.status@ != "open"@ {
            Some(ErrorView::Validation("only open bills can be posted"@))
        } else if !has_code(accounts, "2000"@) {
            Some(ErrorView::Invariant(missing_code_text("2000"@)))
        } else {
            match first_bill_line_problem(lines, accounts) {
                Some(m) => Some(ErrorView::Validation(m)),
                None => if bill_line_sum(lines) != b.total_minor {
                    Some(
                        ErrorView::Validation("bill total does not equal sum of expense lines"@),
                    )
                } else {
                    None
                },
            }
        },
    }
}

/// The journal of a posted bill: each line's expense account debited with its
/// amount, and accounts payable (code 2000) credited with the total.
pub open spec fn bill_plan(
    p: JournalPlan,
    bill_id: i64,
    b: BillRecord,
    lines: Seq<BillLineRecord>,
    accounts: Seq<AccountInfo>,
) -> bool {
    let n = lines.len() as int;
    &&& p.entry_date@ == b.issue_date@
    &&& p.memo@ == "Bill #"@ + dec_int(bill_id as int)
    &&& p.source_kind@ == "bill"@
    &&& p.source_id == bill_id
    &&& p.lines@.len() == n + 1
    &&& forall|k: int|
        0 <= k < n ==> line_is(
            p.lines@[k],
            (#[trigger] lines[k]).expense_account_id,
            k + 1,
            lines[k].description@,
            lines[k].amount_minor as int,
            0,
        )
    &&& line_is(
        p.lines@[n],
        id_of_code(accounts, "2000"@),
        n + 1,
        "Accounts payable"@,
        0,
        b.total_minor as int,
    )
}

/// Checks that bill `bill_id` may be posted and plans its journal.
///
/// The returned journal still has to pass [`crate::journal::validate_balance`]
/// before it is written.
pub fn plan_bill_posting(
    bill_id: i64,
    bill: &Option<BillRecord>,
    lines: &[BillLineRecord],
    accounts: &[AccountInfo],
) -> (r: Result<JournalPlan, DbCommandError>)
    requires
        lines@.len() + 1 <= i32::MAX,
    ensures
        bill_posting_error(bill_id, *bill, lines@, accounts@) matches Some(e) ==> (r matches Err(
            err,
        ) && err@ == e),
        bill_posting_error(bill_id, *bill, lines@, accounts@) is None ==> (r matches Ok(p) && (
        *bill) matches Some(b) && bill_plan(p, bill_id, b, lines@, accounts@)),
        (*bill) matches Some(b) && b.journal_id is Some ==> r matches Err(
            DbCommandError::Conflict { .. },
        ),
{
    let b = match bill {
        None => {
            return Err(DbCommandError::NotFound { entity: "bill".to_owned(), id: bill_id });
        },
        Some(b) => b,
    };
    if b.journal_id.is_some() {
        return Err(DbCommandError::Conflict { message: "bill already posted".to_owned() });
    }
    if !str_eq(b.status.as_str(), "open") {
        return Err(
            DbCommandError::Validation { message: "only open bills can be posted".to_owned() },
        );
    }
    let ap_id = match account_id_by_code(accounts, "2000") {
        Ok(id) => id,
        Err(e) => {
            return Err(e);
        },
    };
    let mut jl: Vec<DraftJournalLine> = Vec::new();
    let n = lines.len();
    let mut sum: i64 = 0;
    let mut i: usize = 0;
    while i < n
        invariant
            n == lines@.len(),
            n + 1 <= i32::MAX,
            i <= n,
            *bill == Some(*b),
            b.journal_id is None,
            b.status@ == "open"@,
            has_code(accounts@, "2000"@),
            ap_id == id_of_code(accounts@, "2000"@),
            first_bill_line_problem(lines@.take(i as int), accounts@) is None,
            sum == bill_line_sum(lines@.take(i as int)),
            jl@.len() == i,
            forall|k: int|
                0 <= k < i ==> line_is(
                    jl@[k],
                    (#[trigger] lines@[k]).expense_account_id,
                    k + 1,
                    lines@[k].description@,
                    lines@[k].amount_minor as int,
                    0,
                ),
        decreases n - i,
    {
        let l = &lines[i];
        let ghost pre = lines@.take(i as int);
        let ghost next = lines@.take(i as int + 1);
        assert(next.drop_last() == pre);
        assert(next.last() == lines@[i as int]);
        sum = sat_add_i64(sum, l.amount_minor);
        if !account_exists(accounts, l.expense_account_id) {
            proof {
                lemma_bill_problem_at(lines@, accounts@, i as int);
            }
            return Err(
                DbCommandError::Validation {
                    message: text_with_number(
                        "unknown expense account on line ",
                        l.line_number as i64,
                    ),
                },
            );
        }
        let number: i32 = (i + 1) as i32;
        jl.push(
            draft_line(l.expense_account_id, number, l.description.clone(), l.amount_minor, 0),
        );
        i = i + 1;
    }
    assert(lines@.take(n as int) == lines@);
    if sum != b.total_minor {
        return Err(
            DbCommandError::Validation {
                message: "bill total does not equal sum of expense lines".to_owned(),
            },
        );
    }
    let number: i32 = (n + 1) as i32;
    jl.push(draft_line(ap_id, number, "Accounts payable".to_owned(), 0, b.total_minor));
    Ok(
        JournalPlan {
            entry_date: b.issue_date.clone(),
            memo: text_with_number("Bill #", bill_id),
            source_kind: "bill".to_owned(),
            source_id: bill_id,
            lines: jl,
        },
    )
}

/// Exact sum of a list of amounts.
pub open spec fn amounts_sum(s: Seq<i64>) -> int
    decreases s.len(),
{
    if s.len() == 0 {
        0
    } else {
        amounts_sum(s.drop_last()) + s.last()
    }
}

/// The exact sum of `v` (wide enough that it cannot overflow).
pub fn sum_amounts(v: &[i64]) -> (r: i128)
    ensures
        r == amounts_sum(v@),
        -(v@.len() as int) * 0x8000_0000_0000_0000 <= r <= (v@.len() as int)
            * 0x8000_0000_0000_0000,
{
    let n = v.len();
    let mut acc: i128 = 0;
    let mut i: usize = 0;
    while i < n
        invariant
            n == v@.len(),
            i <= n,
            acc == amounts_sum(v@.take(i as int)),
            -(i as int) * 0x8000_0000_0000_0000 <= acc <= (i as int) * 0x8000_0000_0000_0000,
        decreases n - i,
    {
        assert(v@.take(i as int + 1).drop_last() == v@.take(i as int));
        assert(v@.take(i as int + 1).last() == v@[i as int]);
        acc = acc + v[i] as i128;
        i = i + 1;
    }
    assert(v@.take(n as int) == v@);
    acc
}

/// A customer payment as stored.
#[derive(Debug, Clone)]
pub struct CustomerPaymentRecord {
    pub id: i64,
    pub customer_id: i64,
    pub bank_account_id: i64,
    pub amount_minor: i64,
    pub payment_date: String,
    /// The invoice the payment is applied to, if any.
    pub invoice_id: Option<i64>,
    pub journal_id: Option<i64>,
}

/// A vendor payment as stored.
#[derive(Debug, Clone)]
pub struct VendorPaymentRecord {
    pub id: i64,
    pub vendor_id: i64,
    pub bank_account_id: i64,
    pub amount_minor: i64,
    pub payment_date: String,
    /// The bill the payment is applied to, if any.
    pub bill_id: Option<i64>,
    pub journal_id: Option<i64>,
}

/// A payment's journal, and the document it pays in full, if it does.
#[derive(Debug, Clone)]
pub struct PaymentPlan {
    pub journal: JournalPlan,
    pub settles: Option<i64>,
}

/// Why customer payment `payment_id` cannot be posted, if it cannot. `invoice`
/// is the invoice the payment is applied to and `applied` the amounts of the
/// posted payments already applied to it.
pub open spec fn customer_payment_error(
    payment_id: i64,
    payment: Option<CustomerPaymentRecord>,
    invoice: Option<InvoiceRecord>,
    applied: Seq<i64>,
    accounts: Seq<AccountInfo>,
) -> Option<ErrorView> {
    match payment {
        None => Some(ErrorView::NotFound("customer_payment"@, payment_id)),
        Some(pm) => {
            let ar_missing = if !has_code(accounts, "1100"@) {
                Some(ErrorView::Invariant(missing_code_text("1100"@)))
            } else {
                None
            };
            if pm.journal_id is Some {
                Some(ErrorView::Conflict("payment already posted"@))
            } else if !is_active_bank_cash(accounts, pm.bank_account_id) {
                Some(ErrorView::Validation("invalid bank account"@))
            } else {
                match pm.invoice_id {
                    None => ar_missing,
                    Some(iid) => match invoice {
                        None => Some(ErrorView::NotFound("invoice"@, iid)),
                        Some(i) => if i.customer_id != pm.customer_id {
                            Some(
                                ErrorView::Validation(
                                    "payment customer does not match the invoice customer"@,
                                ),
                            )
                        } else if i.journal_id is None || i.status@ != "sent"@ {
                            Some(
                                ErrorView::Validation(
                                    "payments can only be applied to a posted, unpaid invoice"@,
                                ),
                            )
                        } else if pm.amount_minor > i.total_minor - amounts_sum(applied) {
                            Some(
                                ErrorView::Validation(
                                    "payment exceeds the open balance of the invoice"@,
                                ),
                            )
                        } else {
                            ar_missing
                        },
                    },
                }
            }
        },
    }
}

/// The journal of a posted customer payment: the bank account debited and
/// accounts receivable (code 1100) credited with the amount; the invoice it is
/// applied to is settled when the posted payments then cover its total.
pub open spec fn customer_payment_plan(
    p: PaymentPlan,
    payment_id: i64,
    pm: CustomerPaymentRecord,
    invoice: Option<InvoiceRecord>,
    applied: Seq<i64>,
    accounts: Seq<AccountInfo>,
) -> bool {
    &&& p.journal.entry_date@ == pm.payment_date@
    &&& p.journal.memo@ == "Customer payment #"@ + dec_int(payment_id as int)
    &&& p.journal.source_kind@ == "payment_customer"@
    &&& p.journal.source_id == payment_id
    &&& p.journal.lines@.len() == 2
    &&& line_is(
        p.journal.lines@[0],
        pm.bank_account_id,
        1,
        "Customer payment"@,
        pm.amount_minor as int,
        0,
    )
    &&& line_is(
        p.journal.lines@[1],
        id_of_code(accounts, "1100"@),
        2,
        "Apply to AR"@,
        0,
        pm.amount_minor as int,
    )
    &&& p.settles == (match (pm.invoice_id, invoice) {
        (Some(iid), Some(i)) => if amounts_sum(applied) + pm.amount_minor >= i.total_minor {
            Some(iid)
        } else {
            None
        },
        _ => None,
    })
}

/// Checks that customer payment `payment_id` may be posted and plans its journal.
///
/// `invoice` is the stored invoice that the payment names (if it names one and
/// that invoice exists), and `applied` the amounts of the posted payments already
/// applied to it. The journal still has to pass [`crate::journal::validate_balance`].
pub fn plan_customer_payment_posting(
    payment_id: i64,
    payment: &Option<CustomerPaymentRecord>,
    invoice: &Option<InvoiceRecord>,
    applied: &[i64],
    accounts: &[AccountInfo],
) -> (r: Result<PaymentPlan, DbCommandError>)
    ensures
        customer_payment_error(payment_id, *payment, *invoice, applied@, accounts@) matches Some(
            e,
        ) ==> (r matches Err(err) && err@ == e),
        customer_payment_error(payment_id, *payment, *invoice, applied@, accounts@) is None ==> (
        r matches Ok(p) && (*payment) matches Some(pm) && customer_payment_plan(
            p,
            payment_id,
            pm,
            *invoice,
            applied@,
            accounts@,
        )),
        (*payment) matches Some(pm) && pm.journal_id is Some ==> r matches Err(
            DbCommandError::Conflict { .. },
        ),
{
    let pm = match payment {
        None => {
            return Err(
                DbCommandError::NotFound { entity: "customer_payment".to_owned(), id: payment_id },
            );
        },
        Some(pm) => pm,
    };
    if pm.journal_id.is_some() {
        return Err(DbCommandError::Conflict { message: "payment already posted".to_owned() });
    }
    if !active_bank_cash_asset(accounts, pm.bank_account_id) {
        return Err(DbCommandError::Validation { message: "invalid bank account".to_owned() });
    }
    let mut settles: Option<i64> = None;
    match pm.invoice_id {
        None => {},
        Some(iid) => {
            let inv = match invoice {
                None => {
                    return Err(DbCommandError::NotFound { entity: "invoice".to_owned(), id: iid });
                },
                Some(i) => i,
            };
            if inv.customer_id != pm.customer_id {
                return Err(
                    DbCommandError::Validation {
                        message: "payment customer does not match the invoice customer".to_owned(),
                    },
                );
            }
            if inv.journal_id.is_none() || !str_eq(inv.status.as_str(), "sent") {
                return Err(
                    DbCommandError::Validation {
                        message: "payments can only be applied to a posted, unpaid invoice".to_owned(),
                    },
                );
            }
            let paid = sum_amounts(applied);
            assert(applied@.len() <= 0xFFFF_FFFF_FFFF_FFFF) by {
                assert(applied@.len() == applied.len());
            }
            if pm.amount_minor as i128 + paid > inv.total_minor as i128 {
                return Err(
                    DbCommandError::Validation {
                        message: "payment exceeds the open balance of the invoice".to_owned(),
                    },
                );
            }
            if pm.amount_minor as i128 + paid >= inv.total_minor as i128 {
                settles = Some(iid);
            }
        },
    }
    let ar_id = match account_id_by_code(accounts, "1100") {
        Ok(id) => id,
        Err(e) => {
            return Err(e);
        },
    };
    let mut jl: Vec<DraftJournalLine> = Vec::new();
    jl.push(
        draft_line(pm.bank_account_id, 1, "Customer payment".to_owned(), pm.amount_minor, 0),
    );
    jl.push(draft_line(ar_id, 2, "Apply to AR".to_owned(), 0, pm.amount_minor));
    Ok(
        PaymentPlan {
            journal: JournalPlan {
                entry_date: pm.payment_date.clone(),
                memo: text_with_number("Customer payment #", payment_id),
                source_kind: "payment_customer".to_owned(),
                source_id: payment_id,
                lines: jl,
            },
            settles,
        },
    )
}

/// Why vendor payment `payment_id` cannot be posted, if it cannot. `bill` is the
/// bill the payment is applied to and `applied` the amounts of the posted
/// payments already applied to it.
pub open spec fn vendor_payment_error(
    payment_id: i64,
    payment: Option<VendorPaymentRecord>,
    bill: Option<BillRecord>,
    applied: Seq<i64>,
    accounts: Seq<AccountInfo>,
) -> Option<ErrorView> {
    match payment {
        None => Some(ErrorView::NotFound("vendor_payment"@, payment_id)),
        Some(pm) => {
            let ap_missing = if !has_code(accounts, "2000"@) {
                Some(ErrorView::Invariant(missing_code_text("2000"@)))
            } else {
                None
            };
            if pm.journal_id is Some {
                Some(ErrorView::Conflict("payment already posted"@))
            } else if !is_active_bank_cash(accounts, pm.bank_account_id) {
                Some(ErrorView::Validation("invalid bank account"@))
            } else {
                match pm.bill_id {
                    None => ap_missing,
                    Some(bid) => match bill {
                        None => Some(ErrorView::NotFound("bill"@, bid)),
                        Some(b) => if b.vendor_id != Some(pm.vendor_id) {
                            Some(
                                ErrorView::Validation(
                                    "payment vendor does not match the bill vendor"@,
                                ),
                            )
                        } else if b.journal_id is None || b.status@ != "open"@ {
                            Some(
                                ErrorView::Validation(
                                    "payments can only be applied to a posted, unpaid bill"@,
                                ),
                            )
                        } else if pm.amount_minor > b.total_minor - amounts_sum(applied) {
                            Some(
                                ErrorView::Validation(
                                    "payment exceeds the open balance of the bill"@,
                                ),
                            )
                        } else {
                            ap_missing
                        },
                    },
                }
            }
        },
    }
}

/// The journal of a posted vendor payment: accounts payable (code 2000) debited
/// and the bank account credited with the amount; the bill it is applied to is
/// settled when the posted payments then cover its total.
pub open spec fn vendor_payment_plan(
    p: PaymentPlan,
    payment_id: i64,
    pm: VendorPaymentRecord,
    bill: Option<BillRecord>,
    applied: Seq<i64>,
    accounts: Seq<AccountInfo>,
) -> bool {
    &&& p.journal.entry_date@ == pm.payment_date@
    &&& p.journal.memo@ == "Vendor payment #"@ + dec_int(payment_id as int)
    &&& p.journal.source_kind@ == "payment_vendor"@
    &&& p.journal.source_id == payment_id
    &&& p.journal.lines@.len() == 2
    &&& line_is(
        p.journal.lines@[0],
        id_of_code(accounts, "2000"@),
        1,
        "Vendor payment"@,
        pm.amount_minor as int,
        0,
    )
    &&& line_is(
        p.journal.lines@[1],
        pm.bank_account_id,
        2,
        "Pay from bank"@,
        0,
        pm.amount_minor as int,
    )
    &&& p.settles == (match (pm.bill_id, bill) {
        (Some(bid), Some(b)) => if amounts_sum(applied) + pm.amount_minor >= b.total_minor {
            Some(bid)
        } else {
            None
        },
        _ => None,
    })
}

/// Checks that vendor payment `payment_id` may be posted and plans its journal.
///
/// `bill` is the stored bill that the payment names (if it names one and that
/// bill exists), and `applied` the amounts of the posted payments already applied
/// to it. The journal still has to pass [`crate::journal::validate_balance`].
pub fn plan_vendor_payment_posting(
    payment_id: i64,
    payment: &Option<VendorPaymentRecord>,
    bill: &Option<BillRecord>,
    applied: &[i64],
    accounts: &[AccountInfo],
) -> (r: Result<PaymentPlan, DbCommandError>)
    ensures
        vendor_payment_error(payment_id, *payment, *bill, applied@, accounts@) matches Some(e)
            ==> (r matches Err(err) && err@ == e),
        vendor_payment_error(payment_id, *payment, *bill, applied@, accounts@) is None ==> (
        r matches Ok(p) && (*payment) matches Some(pm) && vendor_payment_plan(
            p,
            payment_id,
            pm,
            *bill,
            applied@,
            accounts@,
        )),
        (*payment) matches Some(pm) && pm.journal_id is Some ==> r matches Err(
            DbCommandError::Conflict { .. },
        ),
{
    let pm = match payment {
        None => {
            return Err(
                DbCommandError::NotFound { entity: "vendor_payment".to_owned(), id: payment_id },
            );
        },
        Some(pm) => pm,
    };
    if pm.journal_id.is_some() {
        return Err(DbCommandError::Conflict { message: "payment already posted".to_owned() });
    }
    if !active_bank_cash_asset(accounts, pm.bank_account_id) {
        return Err(DbCommandError::Validation { message: "invalid bank account".to_owned() });
    }
    let mut settles: Option<i64> = None;
    match pm.bill_id {
        None => {},
        Some(bid) => {
            let b = match bill {
                None => {
                    return Err(DbCommandError::NotFound { entity: "bill".to_owned(), id: bid });
                },
                Some(b) => b,
            };
            let same_vendor = match b.vendor_id {
                Some(v) => v == pm.vendor_id,
                None => false,
            };
            if !same_vendor {
                return Err(
                    DbCommandError::Validation {
                        message: "payment vendor does not match the bill vendor".to_owned(),
                    },
                );
            }
            if b.journal_id.is_none() || !str_eq(b.status.as_str(), "open") {
                return Err(
                    DbCommandError::Validation {
                        message: "payments can only be applied to a posted, unpaid bill".to_owned(),
                    },
                );
            }
            let paid = sum_amounts(applied);
            assert(applied@.len() <= 0xFFFF_FFFF_FFFF_FFFF) by {
                assert(applied@.len() == applied.len());
            }
            if pm.amount_minor as i128 + paid > b.total_minor as i128 {
                return Err(
                    DbCommandError::Validation {
                        message: "payment exceeds the open balance of the bill".to_owned(),
                    },
                );
            }
            if pm.amount_minor as i128 + paid >= b.total_minor as i128 {
                settles = Some(bid);
            }
        },
    }
    let ap_id = match account_id_by_code(accounts, "2000") {
        Ok(id) => id,
        Err(e) => {
            return Err(e);
        },
    };
    let mut jl: Vec<DraftJournalLine> = Vec::new();
    jl.push(draft_line(ap_id, 1, "Vendor payment".to_owned(), pm.amount_minor, 0));
    jl.push(draft_line(pm.bank_account_id, 2, "Pay from bank".to_owned(), 0, pm.amount_minor));
    Ok(
        PaymentPlan {
            journal: JournalPlan {
                entry_date: pm.payment_date.clone(),
                memo: text_with_number("Vendor payment #", payment_id),
                source_kind: "payment_vendor".to_owned(),
                source_id: payment_id,
                lines: jl,
            },
            settles,
        },
    )
}

proof fn lemma_invoice_sum_nonneg(lines: Seq<InvoiceLineRecord>)
    requires
        forall|k: int| 0 <= k < lines.len() ==> #[trigger] lines[k].line_total_minor > 0,
    ensures
        0 <= invoice_line_sum(lines) <= i64::MAX,
    decreases lines.len(),
{
    if lines.len() > 0 {
        let d = lines.drop_last();
        assert forall|k: int| 0 <= k < d.len() implies #[trigger] d[k].line_total_minor > 0 by {
            assert(d[k] == lines[k]);
        }
        lemma_invoice_sum_nonneg(d);
        assert(lines.last() == lines[lines.len() - 1]);
    }
}

proof fn lemma_invoice_prefix(
    p: JournalPlan,
    invoice_id: i64,
    i: InvoiceRecord,
    lines: Seq<InvoiceLineRecord>,
    accounts: Seq<AccountInfo>,
    j: int,
)
    requires
        invoice_plan(p, invoice_id, i, lines, accounts),
        0 <= j <= lines.len(),
    ensures
        debit_total(p.lines@.take(j + 1)) == i.total_minor,
        credit_total(p.lines@.take(j + 1)) == invoice_line_sum(lines.take(j)),
        (first_problem(p.lines@.take(j + 1)) is None) <==> (i.total_minor > 0 && forall|k: int|
            0 <= k < j ==> #[trigger] lines[k].line_total_minor > 0),
    decreases j,
{
    let q = p.lines@;
    if j == 0 {
        assert(q.take(1).drop_last() == Seq::<DraftJournalLine>::empty());
        assert(q.take(1).last() == q[0]);
        assert(lines.take(0) == Seq::<InvoiceLineRecord>::empty());
        assert(debit_total(Seq::<DraftJournalLine>::empty()) == 0);
        assert(credit_total(Seq::<DraftJournalLine>::empty()) == 0);
        assert(first_problem(Seq::<DraftJournalLine>::empty()) is None);
    } else {
        lemma_invoice_prefix(p, invoice_id, i, lines, accounts, j - 1);
        assert(q.take(j + 1).drop_last() == q.take(j));
        assert(q.take(j + 1).last() == q[j]);
        assert(lines.take(j).drop_last() == lines.take(j - 1));
        assert(lines.take(j).last() == lines[j - 1]);
        let l = lines[j - 1];
        assert(debit_total(q.take(j + 1)) == sat_add(debit_total(q.take(j)), q[j].debit_minor as int));
        assert(credit_total(q.take(j + 1)) == sat_add(credit_total(q.take(j)), q[j].credit_minor as int));
        assert(invoice_line_sum(lines.take(j)) == sat_add(invoice_line_sum(lines.take(j - 1)), l.line_total_minor as int));
        assert(line_is(
            q[(j - 1) + 1],
            income_account_of(l, id_of_code(accounts, "4000"@)),
            (j - 1) + 2,
            l.description@,
            0,
            l.line_total_minor as int,
        ));
        if (first_problem(q.take(j + 1)) is None) {
            assert(first_problem(q.take(j)) is None);
            assert forall|k: int| 0 <= k < j implies #[trigger] lines[k].line_total_minor > 0 by {
                if k < j - 1 {
                } else {
                    assert(line_problem(q[j]) is None);
                }
            }
        }
    }
}

/// The journal planned for a postable invoice passes the balance rule exactly
/// when the invoice total is positive, its tax is not negative, and every line
/// total is positive.
pub proof fn law_invoice_journal_balances(
    p: JournalPlan,
    invoice_id: i64,
    i: InvoiceRecord,
    lines: Seq<InvoiceLineRecord>,
    accounts: Seq<AccountInfo>,
)
    requires
        invoice_posting_error(invoice_id, Some(i), lines, accounts) is None,
        invoice_plan(p, invoice_id, i, lines, accounts),
    ensures
        journal_is_balanced(p.lines@) <==> (i.total_minor > 0 && i.tax_minor >= 0 && forall|k: int|
            0 <= k < lines.len() ==> #[trigger] lines[k].line_total_minor > 0),
{
    let q = p.lines@;
    let n = lines.len() as int;
    lemma_invoice_prefix(p, invoice_id, i, lines, accounts, n);
    assert(lines.take(n) == lines);
    if i.tax_minor > 0 {
        assert(q.take(n + 2) == q);
        assert(q.take(n + 2).drop_last() == q.take(n + 1));
        assert(q.take(n + 2).last() == q[n + 1]);
        if first_problem(q.take(n + 1)) is None {
            lemma_invoice_sum_nonneg(lines);
        }
    } else {
        assert(q.take(n + 1) == q);
        if i.tax_minor < 0 && first_problem(q) is None {
            lemma_invoice_sum_nonneg(lines);
        }
    }
}

proof fn lemma_bill_prefix(
    p: JournalPlan,
    bill_id: i64,
    b: BillRecord,
    lines: Seq<BillLineRecord>,
    accounts: Seq<AccountInfo>,
    j: int,
)
    requires
        bill_plan(p, bill_id, b, lines, accounts),
        0 <= j <= lines.len(),
    ensures
        debit_total(p.lines@.take(j)) == bill_line_sum(lines.take(j)),
        credit_total(p.lines@.take(j)) == 0,
        (first_problem(p.lines@.take(j)) is None) <==> (forall|k: int|
            0 <= k < j ==> #[trigger] lines[k].amount_minor > 0),
    decreases j,
{
    let q = p.lines@;
    if j == 0 {
        assert(q.take(0) == Seq::<DraftJournalLine>::empty());
        assert(lines.take(0) == Seq::<BillLineRecord>::empty());
    } else {
        lemma_bill_prefix(p, bill_id, b, lines, accounts, j - 1);
        assert(q.take(j).drop_last() == q.take(j - 1));
        assert(q.take(j).last() == q[j - 1]);
        assert(lines.take(j).drop_last() == lines.take(j - 1));
        assert(lines.take(j).last() == lines[j - 1]);
        let l = lines[j - 1];
        assert(line_is(q[j - 1], l.expense_account_id, j, l.description@, l.amount_minor as int, 0));
        if (first_problem(q.take(j)) is None) {
            assert forall|k: int| 0 <= k < j implies #[trigger] lines[k].amount_minor > 0 by {
                if k < j - 1 {
                } else {
                    assert(line_problem(q[j - 1]) is None);
                }
            }
        }
    }
}

/// The journal planned for a postable bill passes the balance rule exactly when
/// the bill total and every line amount are positive.
pub proof fn law_bill_journal_balances(
    p: JournalPlan,
    bill_id: i64,
    b: BillRecord,
    lines: Seq<BillLineRecord>,
    accounts: Seq<AccountInfo>,
)
    requires
        bill_posting_error(bill_id, Some(b), lines, accounts) is None,
        bill_plan(p, bill_id, b, lines, accounts),
    ensures
        journal_is_balanced(p.lines@) <==> (b.total_minor > 0 && forall|k: int|
            0 <= k < lines.len() ==> #[trigger] lines[k].amount_minor > 0),
{
    let q = p.lines@;
    let n = lines.len() as int;
    lemma_bill_prefix(p, bill_id, b, lines, accounts, n);
    assert(lines.take(n) == lines);
    assert(q.take(n + 1) == q);
    assert(q.take(n + 1).drop_last() == q.take(n));
    assert(q.take(n + 1).last() == q[n]);
}

proof fn lemma_two_line_balance(q: Seq<DraftJournalLine>, a: int)
    requires
        q.len() == 2,
        q[0].debit_minor == a,
        q[0].credit_minor == 0,
        q[1].debit_minor == 0,
        q[1].credit_minor == a,
        i64::MIN <= a <= i64::MAX,
    ensures
        journal_is_balanced(q) <==> a > 0,
{
    let q1 = q.drop_last();
    assert(q1.drop_last() == Seq::<DraftJournalLine>::empty());
    assert(q1.last() == q[0]);
    assert(q.last() == q[1]);
    assert(debit_total(Seq::<DraftJournalLine>::empty()) == 0);
    assert(credit_total(Seq::<DraftJournalLine>::empty()) == 0);
    assert(first_problem(Seq::<DraftJournalLine>::empty()) is None);
    assert(debit_total(q1) == sat_add(0, a));
    assert(credit_total(q1) == 0);
    assert(debit_total(q) == debit_total(q1));
    assert(credit_total(q) == sat_add(0, a));
    assert(first_problem(q1) == line_problem(q[0]));
    assert(first_problem(q) == (if first_problem(q1) is Some {
        first_problem(q1)
    } else {
        line_problem(q[1])
    }));
}

/// The journal planned for a postable customer payment passes the balance rule
/// exactly when the amount is positive.
pub proof fn law_customer_payment_journal_balances(
    p: PaymentPlan,
    payment_id: i64,
    pm: CustomerPaymentRecord,
    invoice: Option<InvoiceRecord>,
    applied: Seq<i64>,
    accounts: Seq<AccountInfo>,
)
    requires
        customer_payment_plan(p, payment_id, pm, invoice, applied, accounts),
    ensures
        journal_is_balanced(p.journal.lines@) <==> pm.amount_minor > 0,
{
    lemma_two_line_balance(p.journal.lines@, pm.amount_minor as int);
}

/// The journal planned for a postable vendor payment passes the balance rule
/// exactly when the amount is positive.
pub proof fn law_vendor_payment_journal_balances(
    p: PaymentPlan,
    payment_id: i64,
    pm: VendorPaymentRecord,
    bill: Option<BillRecord>,
    applied: Seq<i64>,
    accounts: Seq<AccountInfo>,
)
    requires
        vendor_payment_plan(p, payment_id, pm, bill, applied, accounts),
    ensures
        journal_is_balanced(p.journal.lines@) <==> pm.amount_minor > 0,
{
    lemma_two_line_balance(p.journal.lines@, pm.amount_minor as int);
}

/// A customer payment that may be posted against an invoice never takes the
/// posted payments applied to it past the invoice total.
pub proof fn law_customer_payments_never_exceed_invoice(
    payment_id: i64,
    pm: CustomerPaymentRecord,
    i: InvoiceRecord,
    applied: Seq<i64>,
    accounts: Seq<AccountInfo>,
)
    requires
        pm.invoice_id is Some,
        customer_payment_error(payment_id, Some(pm), Some(i), applied, accounts) is None,
    ensures
        amounts_sum(applied.push(pm.amount_minor)) <= i.total_minor,
{
    assert(applied.push(pm.amount_minor).drop_last() == applied);
}

/// A vendor payment that may be posted against a bill never takes the posted
/// payments applied to it past the bill total.
pub proof fn law_vendor_payments_never_exceed_bill(
    payment_id: i64,
    pm: VendorPaymentRecord,
    b: BillRecord,
    applied: Seq<i64>,
    accounts: Seq<AccountInfo>,
)
    requires
        pm.bill_id is Some,
        vendor_payment_error(payment_id, Some(pm), Some(b), applied, accounts) is None,
    ensures
        amounts_sum(applied.push(pm.amount_minor)) <= b.total_minor,
{
    assert(applied.push(pm.amount_minor).drop_last() == applied);
}

/// What line `l` puts on account `a`: its debit minus its credit when it names `a`.
pub open spec fn line_net_on(l: DraftJournalLine, a: i64) -> int {
    if l.account_id == a {
        l.debit_minor - l.credit_minor
    } else {
        0
    }
}

/// Debits minus credits that `lines` put on account `a`.
pub open spec fn net_on(lines: Seq<DraftJournalLine>, a: i64) -> int
    decreases lines.len(),
{
    if lines.len() == 0 {
        0
    } else {
        net_on(lines.drop_last(), a) + line_net_on(lines.last(), a)
    }
}

/// The first account with code `code` has type `t` and is no bank or cash account:
/// how the chart holds its receivable and payable control accounts.
pub open spec fn control_account(accounts: Seq<AccountInfo>, code: Seq<char>, t: Seq<char>) -> bool {
    exists|c: int|
        first_with_code(accounts, code, c) && accounts[c].account_type@ == t
            && !accounts[c].is_bank_cash
}

proof fn lemma_net_on_take(q: Seq<DraftJournalLine>, a: i64, j: int)
    requires
        0 <= j < q.len(),
    ensures
        net_on(q.take(j + 1), a) == net_on(q.take(j), a) + line_net_on(q[j], a),
{
    assert(q.take(j + 1).drop_last() == q.take(j));
    assert(q.take(j + 1).last() == q[j]);
}

proof fn lemma_net_on_untouched(q: Seq<DraftJournalLine>, a: i64, j0: int, j1: int)
    requires
        0 <= j0 <= j1 <= q.len(),
        forall|k: int| j0 <= k < j1 ==> (#[trigger] q[k]).account_id != a,
    ensures
        net_on(q.take(j1), a) == net_on(q.take(j0), a),
    decreases j1 - j0,
{
    if j1 > j0 {
        lemma_net_on_untouched(q, a, j0, j1 - 1);
        lemma_net_on_take(q, a, j1 - 1);
    }
}

proof fn lemma_net_on_two(q: Seq<DraftJournalLine>, a: i64)
    requires
        q.len() == 2,
    ensures
        net_on(q, a) == line_net_on(q[0], a) + line_net_on(q[1], a),
{
    assert(q.take(0) == Seq::<DraftJournalLine>::empty());
    lemma_net_on_take(q, a, 0);
    lemma_net_on_take(q, a, 1);
    assert(q.take(2) == q);
}

/// The control account with code `code` and the id it is found under.
proof fn lemma_control_index(accounts: Seq<AccountInfo>, code: Seq<char>, t: Seq<char>) -> (c: int)
    requires
        control_account(accounts, code, t),
    ensures
        first_with_code(accounts, code, c),
        accounts[c].account_type@ == t,
        !accounts[c].is_bank_cash,
        id_of_code(accounts, code) == accounts[c].id,
{
    let c = choose|c: int|
        first_with_code(accounts, code, c) && accounts[c].account_type@ == t
            && !accounts[c].is_bank_cash;
    let k = choose|k: int| first_with_code(accounts, code, k);
    lemma_first_unique(accounts, code, c, k);
    c
}

proof fn lemma_invoice_lines_fine(
    lines: Seq<InvoiceLineRecord>,
    accounts: Seq<AccountInfo>,
    sales_id: i64,
)
    requires
        first_invoice_line_problem(lines, accounts, sales_id) is None,
    ensures
        forall|k: int|
            0 <= k < lines.len() ==> invoice_line_problem(#[trigger] lines[k], accounts, sales_id)
                is None,
    decreases lines.len(),
{
    if lines.len() > 0 {
        let d = lines.drop_last();
        lemma_invoice_lines_fine(d, accounts, sales_id);
        assert forall|k: int| 0 <= k < lines.len() implies invoice_line_problem(
            #[trigger] lines[k],
            accounts,
            sales_id,
        ) is None by {
            if k < lines.len() - 1 {
                assert(d[k] == lines[k]);
            }
        }
    }
}

/// Posting an invoice puts exactly its total on accounts receivable. Its lines are
/// credited to income accounts and its tax to tax payable (code 2100), so when the
/// receivable account (code 1100) is an asset and no bank account, and no two
/// accounts share an id, the journal raises receivables by the invoice total.
pub proof fn law_invoice_raises_receivable_by_total(
    p: JournalPlan,
    invoice_id: i64,
    i: InvoiceRecord,
    lines: Seq<InvoiceLineRecord>,
    accounts: Seq<AccountInfo>,
)
    requires
        distinct_ids(accounts),
        control_account(accounts, "1100"@, "asset"@),
        invoice_posting_error(invoice_id, Some(i), lines, accounts) is None,
        invoice_plan(p, invoice_id, i, lines, accounts),
    ensures
        net_on(p.lines@, id_of_code(accounts, "1100"@)) == i.total_minor,
{
    reveal_strlit("asset");
    reveal_strlit("income");
    reveal_strlit("1100");
    reveal_strlit("2100");
    let q = p.lines@;
    let n = lines.len() as int;
    let sales = id_of_code(accounts, "4000"@);
    let c = lemma_control_index(accounts, "1100"@, "asset"@);
    let ar = accounts[c].id;
    lemma_invoice_lines_fine(lines, accounts, sales);
    assert forall|k: int| 1 <= k < n + 1 implies (#[trigger] q[k]).account_id != ar by {
        let m = k - 1;
        let l = lines[m];
        assert(line_is(q[m + 1], income_account_of(l, sales), m + 2, l.description@, 0, l.line_total_minor as int));
        assert(invoice_line_problem(l, accounts, sales) is None);
        let j = choose|j: int|
            0 <= j < accounts.len() && accounts[j].id == income_account_of(l, sales)
                && accounts[j].is_active && accounts[j].account_type@ == "income"@;
        assert(accounts[j].account_type@[0] != accounts[c].account_type@[0]);
    }
    assert(q.take(0) == Seq::<DraftJournalLine>::empty());
    lemma_net_on_take(q, ar, 0);
    lemma_net_on_untouched(q, ar, 1, n + 1);
    if i.tax_minor > 0 {
        let t0 = choose|t: int| 0 <= t < accounts.len() && accounts[t].code@ == "2100"@;
        lemma_first_exists(accounts, "2100"@, t0);
        let t = choose|t: int| first_with_code(accounts, "2100"@, t);
        assert(accounts[t].code@[0] != accounts[c].code@[0]);
        assert(q[n + 1].account_id != ar);
        lemma_net_on_untouched(q, ar, n + 1, n + 2);
        assert(q.take(n + 2) == q);
    } else {
        assert(q.take(n + 1) == q);
    }
}

/// Posting a bill takes exactly its total onto accounts payable (code 2000),
/// provided no bill line names the payable account itself.
pub proof fn law_bill_raises_payable_by_total(
    p: JournalPlan,
    bill_id: i64,
    b: BillRecord,
    lines: Seq<BillLineRecord>,
    accounts: Seq<AccountInfo>,
)
    requires
        forall|k: int|
            0 <= k < lines.len() ==> (#[trigger] lines[k]).expense_account_id != id_of_code(
                accounts,
                "2000"@,
            ),
        bill_plan(p, bill_id, b, lines, accounts),
    ensures
        net_on(p.lines@, id_of_code(accounts, "2000"@)) == -b.total_minor,
{
    let q = p.lines@;
    let n = lines.len() as int;
    let ap = id_of_code(accounts, "2000"@);
    assert forall|k: int| 0 <= k < n implies (#[trigger] q[k]).account_id != ap by {
        let l = lines[k];
        assert(line_is(q[k], l.expense_account_id, k + 1, l.description@, l.amount_minor as int, 0));
    }
    assert(q.take(0) == Seq::<DraftJournalLine>::empty());
    lemma_net_on_untouched(q, ap, 0, n);
    lemma_net_on_take(q, ap, n);
    assert(q.take(n + 1) == q);
}

/// Posting a customer payment moves its amount from accounts receivable to the
/// bank: when the receivable account (code 1100) is no bank account and no two
/// accounts share an id, receivables fall and the bank rises by the amount.
pub proof fn law_customer_payment_moves_receivable_to_bank(
    p: PaymentPlan,
    payment_id: i64,
    pm: CustomerPaymentRecord,
    invoice: Option<InvoiceRecord>,
    applied: Seq<i64>,
    accounts: Seq<AccountInfo>,
)
    requires
        distinct_ids(accounts),
        control_account(accounts, "1100"@, "asset"@),
        customer_payment_error(payment_id, Some(pm), invoice, applied, accounts) is None,
        customer_payment_plan(p, payment_id, pm, invoice, applied, accounts),
    ensures
        net_on(p.journal.lines@, id_of_code(accounts, "1100"@)) == -pm.amount_minor,
        net_on(p.journal.lines@, pm.bank_account_id) == pm.amount_minor,
{
    let q = p.journal.lines@;
    let c = lemma_control_index(accounts, "1100"@, "asset"@);
    let j = choose|j: int|
        0 <= j < accounts.len() && accounts[j].id == pm.bank_account_id && accounts[j].is_active
            && accounts[j].account_type@ == "asset"@ && accounts[j].is_bank_cash;
    assert(j != c);
    lemma_net_on_two(q, accounts[c].id);
    lemma_net_on_two(q, pm.bank_account_id);
}

/// Posting a vendor payment moves its amount off accounts payable and out of the
/// bank: when the payable account (code 2000) is no bank account and no two
/// accounts share an id, payables and the bank both fall by the amount.
pub proof fn law_vendor_payment_settles_payable_from_bank(
    p: PaymentPlan,
    payment_id: i64,
    pm: VendorPaymentRecord,
    bill: Option<BillRecord>,
    applied: Seq<i64>,
    accounts: Seq<AccountInfo>,
)
    requires
        distinct_ids(accounts),
        control_account(accounts, "2000"@, "liability"@),
        vendor_payment_error(payment_id, Some(pm), bill, applied, accounts) is None,
        vendor_payment_plan(p, payment_id, pm, bill, applied, accounts),
    ensures
        net_on(p.journal.lines@, id_of_code(accounts, "2000"@)) == pm.amount_minor,
        net_on(p.journal.lines@, pm.bank_account_id) == -pm.amount_minor,
{
    let q = p.journal.lines@;
    let c = lemma_control_index(accounts, "2000"@, "liability"@);
    let j = choose|j: int|
        0 <= j < accounts.len() && accounts[j].id == pm.bank_account_id && accounts[j].is_active
            && accounts[j].account_type@ == "asset"@ && accounts[j].is_bank_cash;
    assert(j != c);
    lemma_net_on_two(q, accounts[c].id);
    lemma_net_on_two(q, pm.bank_account_id);
}

/// Posting is done once: an invoice that could be posted, once its journal is
/// linked to it, is refused as already posted.
pub proof fn law_posted_invoice_is_not_posted_again(
    invoice_id: i64,
    i: InvoiceRecord,
    lines: Seq<InvoiceLineRecord>,
    accounts: Seq<AccountInfo>,
    journal_id: i64,
)
    requires
        invoice_posting_error(invoice_id, Some(i), lines, accounts) is None,
    ensures
        invoice_posting_error(
            invoice_id,
            Some(InvoiceRecord { journal_id: Some(journal_id), ..i }),
            lines,
            accounts,
        ) == Some(ErrorView::Conflict("invoice already posted"@)),
{
}

/// Posting is done once: a bill that could be posted, once its journal is linked
/// to it, is refused as already posted.
pub proof fn law_posted_bill_is_not_posted_again(
    bill_id: i64,
    b: BillRecord,
    lines: Seq<BillLineRecord>,
    accounts: Seq<AccountInfo>,
    journal_id: i64,
)
    requires
        bill_posting_error(bill_id, Some(b), lines, accounts) is None,
    ensures
        bill_posting_error(bill_id, Some(BillRecord { journal_id: Some(journal_id), ..b }), lines, accounts)
            == Some(ErrorView::Conflict("bill already posted"@)),
{
}

/// Posting is done once: a customer payment that could be posted, once its
/// journal is linked to it, is refused as already posted, whatever it is applied to.
pub proof fn law_posted_customer_payment_is_not_posted_again(
    payment_id: i64,
    pm: CustomerPaymentRecord,
    invoice: Option<InvoiceRecord>,
    applied: Seq<i64>,
    accounts: Seq<AccountInfo>,
    journal_id: i64,
    later_invoice: Option<InvoiceRecord>,
    later_applied: Seq<i64>,
)
    requires
        customer_payment_error(payment_id, Some(pm), invoice, applied, accounts) is None,
    ensures
        customer_payment_error(
            payment_id,
            Some(CustomerPaymentRecord { journal_id: Some(journal_id), ..pm }),
            later_invoice,
            later_applied,
            accounts,
        ) == Some(ErrorView::Conflict("payment already posted"@)),
{
}

/// Posting is done once: a vendor payment that could be posted, once its journal
/// is linked to it, is refused as already posted, whatever it is applied to.
pub proof fn law_posted_vendor_payment_is_not_posted_again(
    payment_id: i64,
    pm: VendorPaymentRecord,
    bill: Option<BillRecord>,
    applied: Seq<i64>,
    accounts: Seq<AccountInfo>,
    journal_id: i64,
    later_bill: Option<BillRecord>,
    later_applied: Seq<i64>,
)
    requires
        vendor_payment_error(payment_id, Some(pm), bill, applied, accounts) is None,
    ensures
        vendor_payment_error(
            payment_id,
            Some(VendorPaymentRecord { journal_id: Some(journal_id), ..pm }),
            later_bill,
            later_applied,
            accounts,
        ) == Some(ErrorView::Conflict("payment already posted"@)),
{
}

/// Where a posted invoice goes: accounts receivable (code 1100) is debited with
/// the total; each line is credited, with its total, to its own income account
/// or, when it names none, to sales (code 4000); a positive tax is credited to
/// tax payable (code 2100) as the last line, and without tax there is no such line.
pub proof fn law_invoice_posts_to_its_accounts(
    p: JournalPlan,
    invoice_id: i64,
    i: InvoiceRecord,
    lines: Seq<InvoiceLineRecord>,
    accounts: Seq<AccountInfo>,
)
    requires
        invoice_plan(p, invoice_id, i, lines, accounts),
    ensures
        p.lines@[0].account_id == id_of_code(accounts, "1100"@),
        p.lines@[0].debit_minor == i.total_minor && p.lines@[0].credit_minor == 0,
        forall|k: int|
            0 <= k < lines.len() ==> (#[trigger] lines[k]).income_account_id is None ==> p.lines@[k
                + 1].account_id == id_of_code(accounts, "4000"@),
        forall|k: int|
            0 <= k < lines.len() ==> ((#[trigger] lines[k]).income_account_id matches Some(a)
                ==> p.lines@[k + 1].account_id == a),
        forall|k: int|
            0 <= k < lines.len() ==> p.lines@[k + 1].credit_minor == (#[trigger] lines[k]).line_total_minor
                && p.lines@[k + 1].debit_minor == 0,
        i.tax_minor > 0 ==> p.lines@.len() == lines.len() + 2 && p.lines@[lines.len() as int + 1].account_id
            == id_of_code(accounts, "2100"@) && p.lines@[lines.len() as int + 1].credit_minor == i.tax_minor
            && p.lines@[lines.len() as int + 1].debit_minor == 0,
        i.tax_minor <= 0 ==> p.lines@.len() == lines.len() + 1,
{
    assert forall|k: int| 0 <= k < lines.len() implies p.lines@[k + 1].credit_minor
        == (#[trigger] lines[k]).line_total_minor && p.lines@[k + 1].debit_minor == 0 by {
        assert(line_is(
            p.lines@[k + 1],
            income_account_of(lines[k], id_of_code(accounts, "4000"@)),
            k + 2,
            lines[k].description@,
            0,
            lines[k].line_total_minor as int,
        ));
    }
}

/// Sales tax goes to tax payable, not to revenue: posting an invoice with a
/// positive tax credits the tax payable account (code 2100, a liability and no
/// bank account) with exactly the tax, when no two accounts share an id.
pub proof fn law_invoice_tax_goes_to_tax_payable(
    p: JournalPlan,
    invoice_id: i64,
    i: InvoiceRecord,
    lines: Seq<InvoiceLineRecord>,
    accounts: Seq<AccountInfo>,
)
    requires
        distinct_ids(accounts),
        control_account(accounts, "2100"@, "liability"@),
        i.tax_minor > 0,
        invoice_posting_error(invoice_id, Some(i), lines, accounts) is None,
        invoice_plan(p, invoice_id, i, lines, accounts),
    ensures
        net_on(p.lines@, id_of_code(accounts, "2100"@)) == -i.tax_minor,
{
    reveal_strlit("liability");
    reveal_strlit("income");
    reveal_strlit("1100");
    reveal_strlit("2100");
    let q = p.lines@;
    let n = lines.len() as int;
    let sales = id_of_code(accounts, "4000"@);
    let c = lemma_control_index(accounts, "2100"@, "liability"@);
    let tax = accounts[c].id;
    lemma_invoice_lines_fine(lines, accounts, sales);
    let a0 = choose|a: int| 0 <= a < accounts.len() && accounts[a].code@ == "1100"@;
    lemma_first_exists(accounts, "1100"@, a0);
    let a = choose|a: int| first_with_code(accounts, "1100"@, a);
    assert(accounts[a].code@[0] != accounts[c].code@[0]);
    assert(q[0].account_id != tax);
    assert forall|k: int| 1 <= k < n + 1 implies (#[trigger] q[k]).account_id != tax by {
        let m = k - 1;
        let l = lines[m];
        assert(line_is(q[m + 1], income_account_of(l, sales), m + 2, l.description@, 0, l.line_total_minor as int));
        assert(invoice_line_problem(l, accounts, sales) is None);
        let j = choose|j: int|
            0 <= j < accounts.len() && accounts[j].id == income_account_of(l, sales)
                && accounts[j].is_active && accounts[j].account_type@ == "income"@;
        assert(accounts[j].account_type@[0] != accounts[c].account_type@[0]);
    }
    assert(q.take(0) == Seq::<DraftJournalLine>::empty());
    lemma_net_on_untouched(q, tax, 0, n + 1);
    lemma_net_on_take(q, tax, n + 1);
    assert(q.take(n + 2) == q);
}

proof fn lemma_invoice_lines_fine_iff(
    lines: Seq<InvoiceLineRecord>,
    accounts: Seq<AccountInfo>,
    sales_id: i64,
)
    ensures
        first_invoice_line_problem(lines, accounts, sales_id) is None <==> forall|k: int|
            0 <= k < lines.len() ==> invoice_line_problem(#[trigger] lines[k], accounts, sales_id)
                is None,
    decreases lines.len(),
{
    if lines.len() > 0 {
        let d = lines.drop_last();
        lemma_invoice_lines_fine_iff(d, accounts, sales_id);
        assert(lines.last() == lines[lines.len() - 1]);
        if forall|k: int|
            0 <= k < lines.len() ==> invoice_line_problem(#[trigger] lines[k], accounts, sales_id)
                is None {
            assert forall|k: int| 0 <= k < d.len() implies invoice_line_problem(
                #[trigger] d[k],
                accounts,
                sales_id,
            ) is None by {
                assert(d[k] == lines[k]);
            }
        }
        if first_invoice_line_problem(lines, accounts, sales_id) is None {
            lemma_invoice_lines_fine(lines, accounts, sales_id);
        }
    }
}

proof fn lemma_bill_lines_fine_iff(lines: Seq<BillLineRecord>, accounts: Seq<AccountInfo>)
    ensures
        first_bill_line_problem(lines, accounts) is None <==> forall|k: int|
            0 <= k < lines.len() ==> is_active_account(
                accounts,
                (#[trigger] lines[k]).expense_account_id,
            ),
    decreases lines.len(),
{
    if lines.len() > 0 {
        let d = lines.drop_last();
        lemma_bill_lines_fine_iff(d, accounts);
        assert(lines.last() == lines[lines.len() - 1]);
        if forall|k: int|
            0 <= k < lines.len() ==> is_active_account(
                accounts,
                (#[trigger] lines[k]).expense_account_id,
            ) {
            assert forall|k: int| 0 <= k < d.len() implies is_active_account(
                accounts,
                (#[trigger] d[k]).expense_account_id,
            ) by {
                assert(d[k] == lines[k]);
            }
        }
        if first_bill_line_problem(lines, accounts) is None {
            assert forall|k: int| 0 <= k < lines.len() implies is_active_account(
                accounts,
                (#[trigger] lines[k]).expense_account_id,
            ) by {
                if k < d.len() {
                    assert(d[k] == lines[k]);
                }
            }
        }
    }
}

/// Which invoices can be posted: an unposted invoice in status `sent` whose
/// chart has receivables (1100) and sales (4000), whose every line's stored
/// total matches quantity × price and goes to an active income account (its own,
/// else sales), whose lines add up to its subtotal and whose subtotal and tax add
/// up to its total, and which, when it carries tax, finds tax payable (2100).
pub proof fn law_postable_invoice(
    invoice_id: i64,
    i: InvoiceRecord,
    lines: Seq<InvoiceLineRecord>,
    accounts: Seq<AccountInfo>,
)
    ensures
        invoice_posting_error(invoice_id, Some(i), lines, accounts) is None <==> {
            &&& i.journal_id is None
            &&& i.status@ == "sent"@
            &&& has_code(accounts, "1100"@)
            &&& has_code(accounts, "4000"@)
            &&& forall|k: int|
                0 <= k < lines.len() ==> (#[trigger] lines[k]).recomputed_total_minor
                    == lines[k].line_total_minor && is_active_of_type(
                    accounts,
                    income_account_of(lines[k], id_of_code(accounts, "4000"@)),
                    "income"@,
                )
            &&& invoice_line_sum(lines) == i.subtotal_minor
            &&& sat_add(i.subtotal_minor as int, i.tax_minor as int) == i.total_minor
            &&& (i.tax_minor > 0 ==> has_code(accounts, "2100"@))
        },
{
    lemma_invoice_lines_fine_iff(lines, accounts, id_of_code(accounts, "4000"@));
}

/// Which bills can be posted: an unposted bill in status `open` whose chart has
/// payables (2000), whose every line goes to an active account, and whose lines
/// add up to its total.
pub proof fn law_postable_bill(
    bill_id: i64,
    b: BillRecord,
    lines: Seq<BillLineRecord>,
    accounts: Seq<AccountInfo>,
)
    ensures
        bill_posting_error(bill_id, Some(b), lines, accounts) is None <==> {
            &&& b.journal_id is None
            &&& b.status@ == "open"@
            &&& has_code(accounts, "2000"@)
            &&& forall|k: int|
                0 <= k < lines.len() ==> is_active_account(
                    accounts,
                    (#[trigger] lines[k]).expense_account_id,
                )
            &&& bill_line_sum(lines) == b.total_minor
        },
{
    lemma_bill_lines_fine_iff(lines, accounts);
}

/// Which customer payments can be posted: an unposted payment into an active bank
/// or cash asset account, with receivables (1100) in the chart; when it is applied
/// to an invoice, that invoice exists, belongs to the same customer, is posted
/// and still `sent`, and the payment does not exceed what is left open on it.
pub proof fn law_postable_customer_payment(
    payment_id: i64,
    pm: CustomerPaymentRecord,
    invoice: Option<InvoiceRecord>,
    applied: Seq<i64>,
    accounts: Seq<AccountInfo>,
)
    ensures
        customer_payment_error(payment_id, Some(pm), invoice, applied, accounts) is None <==> {
            &&& pm.journal_id is None
            &&& is_active_bank_cash(accounts, pm.bank_account_id)
            &&& has_code(accounts, "1100"@)
            &&& (pm.invoice_id is Some ==> (invoice matches Some(i) && i.customer_id
                == pm.customer_id && i.journal_id is Some && i.status@ == "sent"@ && pm.amount_minor
                <= i.total_minor - amounts_sum(applied)))
        },
{
}

/// Which vendor payments can be posted: an unposted payment from an active bank or
/// cash asset account, with payables (2000) in the chart; when it is applied to a
/// bill, that bill exists, belongs to the same vendor, is posted and still
/// `open`, and the payment does not exceed what is left open on it.
pub proof fn law_postable_vendor_payment(
    payment_id: i64,
    pm: VendorPaymentRecord,
    bill: Option<BillRecord>,
    applied: Seq<i64>,
    accounts: Seq<AccountInfo>,
)
    ensures
        vendor_payment_error(payment_id, Some(pm), bill, applied, accounts) is None <==> {
            &&& pm.journal_id is None
            &&& is_active_bank_cash(accounts, pm.bank_account_id)
            &&& has_code(accounts, "2000"@)
            &&& (pm.bill_id is Some ==> (bill matches Some(b) && b.vendor_id == Some(pm.vendor_id)
                && b.journal_id is Some && b.status@ == "open"@ && pm.amount_minor <= b.total_minor
                - amounts_sum(applied)))
        },
{
}

} // verus!

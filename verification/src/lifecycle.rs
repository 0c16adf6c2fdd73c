//! The status lifecycle of invoices and bills: which changes are allowed, and when.
use vstd::prelude::*;

use crate::error::{DbCommandError, ErrorView};
use crate::num::{dec_int, fmt_i64};
use crate::accounts::has_code;
use crate::ledger::AccountInfo;
use crate::posting::{
    amounts_sum, customer_payment_error, customer_payment_plan, sum_amounts, vendor_payment_error,
    vendor_payment_plan, BillRecord, CustomerPaymentRecord, InvoiceRecord, PaymentPlan,
    VendorPaymentRecord,
};
use crate::text::{chars_of, concat, concat_all, join_strs, str_eq, string_of};

verus! {

/// The parts of a stored invoice or bill that its status change depends on.
#[derive(Debug, Clone)]
pub struct StatusRecord {
    pub status: String,
    pub journal_id: Option<i64>,
    pub total_minor: i64,
}

/// A document in this status can no longer change.
pub open spec fn is_terminal(status: Seq<char>) -> bool {
    status == "paid"@ || status == "void"@
}

/// The allowed changes: `draft` to `open_status` or `void`, and `open_status` to
/// `paid` or `void` (`open_status` is `sent` for invoices, `open` for bills).
pub open spec fn transition_allowed(open_status: Seq<char>, current: Seq<char>, next: Seq<char>) -> bool {
    ||| current == "draft"@ && next == open_status
    ||| current == "draft"@ && next == "void"@
    ||| current == open_status && next == "paid"@
    ||| current == open_status && next == "void"@
}

/// Why document `id` of kind `entity` cannot move to `next`, if it cannot:
/// missing, already paid or void, a change the lifecycle does not allow, voiding
/// a posted document, or marking it paid before the posted payments applied to
/// it (`applied`) cover its total.
pub open spec fn status_change_error(
    entity: Seq<char>,
    open_status: Seq<char>,
    id: i64,
    record: Option<StatusRecord>,
    next: Seq<char>,
    applied: Seq<i64>,
) -> Option<ErrorView> {
    match record {
        None => Some(ErrorView::NotFound(entity, id)),
        Some(r) => if is_terminal(r.status@) {
            Some(ErrorView::Conflict(entity + " "@ + dec_int(id as int) + " is already "@ + r.status@))
        } else if !transition_allowed(open_status, r.status@, next) {
            Some(ErrorView::Validation("invalid "@ + entity + " transition "@ + r.status@ + " -> "@ + next))
        } else if next == "void"@ && r.journal_id is Some {
            Some(ErrorView::Validation("cannot void a posted "@ + entity))
        } else if next == "paid"@ && amounts_sum(applied) < r.total_minor {
            Some(
                ErrorView::Validation(
                    "cannot mark "@ + entity + " paid until posted payments cover the total"@,
                ),
            )
        } else {
            None
        },
    }
}

fn check_status_change(
    entity: &str,
    open_status: &str,
    id: i64,
    record: &Option<StatusRecord>,
    next: &str,
    applied: &[i64],
) -> (r: Result<(), DbCommandError>)
    ensures
        status_change_error(entity@, open_status@, id, *record, next@, applied@) matches Some(e)
            ==> (r matches Err(err) && err@ == e),
        status_change_error(entity@, open_status@, id, *record, next@, applied@) is None ==> r
            is Ok,
{
    let rec = match record {
        None => {
            return Err(DbCommandError::NotFound { entity: entity.to_owned(), id });
        },
        Some(rec) => rec,
    };
    let current = rec.status.as_str();
    if str_eq(current, "paid") || str_eq(current, "void") {
        let a = chars_of(entity);
        let b = chars_of(" ");
        let c = fmt_i64(id);
        let d = chars_of(" is already ");
        let e = chars_of(current);
        let ab = concat(&a, &b);
        let abc = concat(&ab, &c);
        let abcd = concat(&abc, &d);
        let all = concat(&abcd, &e);
        return Err(DbCommandError::Conflict { message: string_of(&all) });
    }
    let from_draft = str_eq(current, "draft");
    let from_open = str_eq(current, open_status);
    let allowed = (from_draft && str_eq(next, open_status)) || (from_draft && str_eq(next, "void"))
        || (from_open && str_eq(next, "paid")) || (from_open && str_eq(next, "void"));
    if !allowed {
        let parts = ["invalid ", entity, " transition ", current, " -> ", next];
        let msg = join_strs(&parts);
        proof {
            reveal_with_fuel(concat_all, 7);
        }
        return Err(DbCommandError::Validation { message: msg });
    }
    if str_eq(next, "void") && rec.journal_id.is_some() {
        let a = chars_of("cannot void a posted ");
        let b = chars_of(entity);
        return Err(DbCommandError::Validation { message: string_of(&concat(&a, &b)) });
    }
    if str_eq(next, "paid") {
        let paid = sum_amounts(applied);
        if paid < rec.total_minor as i128 {
            let a = chars_of("cannot mark ");
            let b = chars_of(entity);
            let c = chars_of(" paid until posted payments cover the total");
            let ab = concat(&a, &b);
            return Err(DbCommandError::Validation { message: string_of(&concat(&ab, &c)) });
        }
    }
    Ok(())
}

/// Whether invoice `id` may move to status `next`; `applied` holds the amounts
/// of the posted customer payments applied to it.
pub fn check_invoice_status(
    id: i64,
    record: &Option<StatusRecord>,
    next: &str,
    applied: &[i64],
) -> (r: Result<(), DbCommandError>)
    ensures
        status_change_error("invoice"@, "sent"@, id, *record, next@, applied@) matches Some(e)
            ==> (r matches Err(err) && err@ == e),
        status_change_error("invoice"@, "sent"@, id, *record, next@, applied@) is None ==> r is Ok,
        (*record) matches Some(rec) && is_terminal(rec.status@) ==> r matches Err(
            DbCommandError::Conflict { .. },
        ),
        r is Ok ==> ((*record) matches Some(rec) && transition_allowed(
            "sent"@,
            rec.status@,
            next@,
        ) && (next@ == "void"@ ==> rec.journal_id is None) && (next@ == "paid"@ ==> amounts_sum(
            applied@,
        ) >= rec.total_minor)),
{
    check_status_change("invoice", "sent", id, record, next, applied)
}

/// Whether bill `id` may move to status `next`; `applied` holds the amounts of
/// the posted vendor payments applied to it.
pub fn check_bill_status(
    id: i64,
    record: &Option<StatusRecord>,
    next: &str,
    applied: &[i64],
) -> (r: Result<(), DbCommandError>)
    ensures
        status_change_error("bill"@, "open"@, id, *record, next@, applied@) matches Some(e) ==> (
        r matches Err(err) && err@ == e),
        status_change_error("bill"@, "open"@, id, *record, next@, applied@) is None ==> r is Ok,
        (*record) matches Some(rec) && is_terminal(rec.status@) ==> r matches Err(
            DbCommandError::Conflict { .. },
        ),
        r is Ok ==> ((*record) matches Some(rec) && transition_allowed(
            "open"@,
            rec.status@,
            next@,
        ) && (next@ == "void"@ ==> rec.journal_id is None) && (next@ == "paid"@ ==> amounts_sum(
            applied@,
        ) >= rec.total_minor)),
{
    check_status_change("bill", "open", id, record, next, applied)
}

/// The five status words differ from one another (their first letters do).
proof fn lemma_status_words_distinct()
    ensures
        "draft"@ != "sent"@,
        "draft"@ != "open"@,
        "draft"@ != "paid"@,
        "draft"@ != "void"@,
        "sent"@ != "paid"@,
        "sent"@ != "void"@,
        "open"@ != "paid"@,
        "open"@ != "void"@,
        "paid"@ != "void"@,
{
    reveal_strlit("draft");
    reveal_strlit("sent");
    reveal_strlit("open");
    reveal_strlit("paid");
    reveal_strlit("void");
    assert("draft"@[0] == 'd');
    assert("sent"@[0] == 's');
    assert("open"@[0] == 'o');
    assert("paid"@[0] == 'p');
    assert("void"@[0] == 'v');
}

/// The status record of an invoice.
pub open spec fn invoice_status_record(i: InvoiceRecord) -> StatusRecord {
    StatusRecord { status: i.status, journal_id: i.journal_id, total_minor: i.total_minor }
}

/// The status record of a bill.
pub open spec fn bill_status_record(b: BillRecord) -> StatusRecord {
    StatusRecord { status: b.status, journal_id: b.journal_id, total_minor: b.total_minor }
}

/// Once a customer payment that settles its invoice is posted, the invoice may
/// be marked paid; while the payments fall short of the total, it may not.
pub proof fn law_customer_payment_settles_invoice(
    p: PaymentPlan,
    payment_id: i64,
    pm: CustomerPaymentRecord,
    i: InvoiceRecord,
    applied: Seq<i64>,
    accounts: Seq<AccountInfo>,
)
    requires
        pm.invoice_id is Some,
        customer_payment_error(payment_id, Some(pm), Some(i), applied, accounts) is None,
        customer_payment_plan(p, payment_id, pm, Some(i), applied, accounts),
    ensures
        p.settles is Some <==> status_change_error(
            "invoice"@,
            "sent"@,
            pm.invoice_id->0,
            Some(invoice_status_record(i)),
            "paid"@,
            applied.push(pm.amount_minor),
        ) is None,
{
    lemma_status_words_distinct();
    let pushed = applied.push(pm.amount_minor);
    assert(pushed.drop_last() == applied);
    assert(pushed.last() == pm.amount_minor);
    assert(amounts_sum(pushed) == amounts_sum(applied) + pm.amount_minor);
}

/// Once a vendor payment that settles its bill is posted, the bill may be
/// marked paid; while the payments fall short of the total, it may not.
pub proof fn law_vendor_payment_settles_bill(
    p: PaymentPlan,
    payment_id: i64,
    pm: VendorPaymentRecord,
    b: BillRecord,
    applied: Seq<i64>,
    accounts: Seq<AccountInfo>,
)
    requires
        pm.bill_id is Some,
        vendor_payment_error(payment_id, Some(pm), Some(b), applied, accounts) is None,
        vendor_payment_plan(p, payment_id, pm, Some(b), applied, accounts),
    ensures
        p.settles is Some <==> status_change_error(
            "bill"@,
            "open"@,
            pm.bill_id->0,
            Some(bill_status_record(b)),
            "paid"@,
            applied.push(pm.amount_minor),
        ) is None,
{
    lemma_status_words_distinct();
    let pushed = applied.push(pm.amount_minor);
    assert(pushed.drop_last() == applied);
    assert(pushed.last() == pm.amount_minor);
    assert(amounts_sum(pushed) == amounts_sum(applied) + pm.amount_minor);
}

/// A paid or void document is final: every further status change is refused
/// with "<entity> <id> is already <status>". In particular a document just
/// voided (or marked paid) can no longer change.
pub proof fn law_paid_or_void_is_final(
    entity: Seq<char>,
    open_status: Seq<char>,
    id: i64,
    r: StatusRecord,
    next: Seq<char>,
    applied: Seq<i64>,
)
    requires
        r.status@ == "paid"@ || r.status@ == "void"@,
    ensures
        status_change_error(entity, open_status, id, Some(r), next, applied) == Some(
            ErrorView::Conflict(entity + " "@ + dec_int(id as int) + " is already "@ + r.status@),
        ),
{
}

/// The invoice lifecycle: a status change is accepted exactly when it is one of
/// draft → sent, draft → void, sent → paid (once the posted payments applied to
/// the invoice cover its total) and sent → void, and a void is only accepted
/// for an invoice without a journal.
pub proof fn law_invoice_status_changes(
    id: i64,
    r: StatusRecord,
    next: Seq<char>,
    applied: Seq<i64>,
)
    ensures
        status_change_error("invoice"@, "sent"@, id, Some(r), next, applied) is None <==> {
            ||| r.status@ == "draft"@ && next == "sent"@
            ||| r.status@ == "draft"@ && next == "void"@ && r.journal_id is None
            ||| r.status@ == "sent"@ && next == "paid"@ && amounts_sum(applied) >= r.total_minor
            ||| r.status@ == "sent"@ && next == "void"@ && r.journal_id is None
        },
{
    lemma_status_words_distinct();
}

/// The bill lifecycle: a status change is accepted exactly when it is one of
/// draft → open, draft → void, open → paid (once the posted payments applied to
/// the bill cover its total) and open → void, and a void is only accepted for a
/// bill without a journal.
pub proof fn law_bill_status_changes(id: i64, r: StatusRecord, next: Seq<char>, applied: Seq<i64>)
    ensures
        status_change_error("bill"@, "open"@, id, Some(r), next, applied) is None <==> {
            ||| r.status@ == "draft"@ && next == "open"@
            ||| r.status@ == "draft"@ && next == "void"@ && r.journal_id is None
            ||| r.status@ == "open"@ && next == "paid"@ && amounts_sum(applied) >= r.total_minor
            ||| r.status@ == "open"@ && next == "void"@ && r.journal_id is None
        },
{
    lemma_status_words_distinct();
}

} // verus!

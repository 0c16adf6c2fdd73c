//! Creating customers, vendors, bills, invoices and payments: the inputs, their
//! defaults, the totals stored with a document, and how a check payment takes
//! its number.
use vstd::prelude::*;

use crate::error::DbCommandError;
use crate::import::opt_text;
use crate::journal::{sat_add, sat_add_i64};
use crate::num::{dec_int, fmt_i64, parse_i64};
use crate::text::{chars_of, chars_eq, string_of, to_ascii_lower, trim, trim_chars, ascii_lower};

verus! {

/// A new customer.
#[derive(Debug, Clone)]
pub struct CustomerCreateInput {
    pub display_name: String,
    pub email: Option<String>,
    pub phone: Option<String>,
    pub terms_days: i64,
}

/// A new vendor.
#[derive(Debug, Clone)]
pub struct VendorCreateInput {
    pub display_name: String,
    pub email: Option<String>,
    pub phone: Option<String>,
}

/// One line of a new bill.
#[derive(Debug, Clone)]
pub struct BillLineInput {
    pub description: String,
    pub amount_minor: i64,
    pub expense_account_id: i64,
}

/// A new bill, owed to a vendor or to a named payee.
#[derive(Debug, Clone)]
pub struct BillCreateInput {
    pub vendor_id: Option<i64>,
    pub payee_name: Option<String>,
    pub number: String,
    pub issue_date: String,
    pub due_date: Option<String>,
    pub memo: Option<String>,
    pub lines: Vec<BillLineInput>,
}

/// A new payment received from a customer.
#[derive(Debug, Clone)]
pub struct CustomerPaymentCreateInput {
    pub customer_id: i64,
    pub bank_account_id: i64,
    pub payment_date: String,
    pub amount_minor: i64,
    pub memo: Option<String>,
    pub invoice_id: Option<i64>,
}

/// A new payment made to a vendor, by check or otherwise.
#[derive(Debug, Clone)]
pub struct VendorPaymentCreateInput {
    pub vendor_id: i64,
    pub bank_account_id: i64,
    pub payment_date: String,
    pub amount_minor: i64,
    pub memo: Option<String>,
    pub bill_id: Option<i64>,
    pub payment_method: String,
    pub check_number: Option<String>,
    pub payee_name: Option<String>,
}

/// Payment terms of a customer created without them, in days.
pub fn default_terms() -> (r: i64)
    ensures
        r == 30,
{
    30
}

/// Payment method of a vendor payment created without one.
pub fn default_payment_method() -> (r: String)
    ensures
        r@ == "other"@,
{
    "other".to_owned()
}

/// Saturating sum of the bill line amounts (what a new bill's total is).
pub open spec fn bill_input_total(lines: Seq<BillLineInput>) -> int
    decreases lines.len(),
{
    if lines.len() == 0 {
        0
    } else {
        sat_add(bill_input_total(lines.drop_last()), lines.last().amount_minor as int)
    }
}

/// The total stored with a new bill: the saturating sum of its line amounts.
pub fn bill_total(lines: &[BillLineInput]) -> (r: i64)
    ensures
        r == bill_input_total(lines@),
{
    let mut total: i64 = 0;
    let mut i: usize = 0;
    while i < lines.len()
        invariant
            i <= lines@.len(),
            total == bill_input_total(lines@.take(i as int)),
        decreases lines@.len() - i,
    {
        assert(lines@.take(i + 1).drop_last() == lines@.take(i as int));
        total = sat_add_i64(total, lines[i].amount_minor);
        i = i + 1;
    }
    assert(lines@.take(lines@.len() as int) == lines@);
    total
}

/// Saturating sum of amounts.
pub open spec fn sat_sum(v: Seq<i64>) -> int
    decreases v.len(),
{
    if v.len() == 0 {
        0
    } else {
        sat_add(sat_sum(v.drop_last()), v.last() as int)
    }
}

/// The subtotal and total stored with a new invoice: the saturating sum of its
/// line totals, and that plus the tax (saturating).
pub fn invoice_totals(line_totals: &[i64], tax_minor: i64) -> (r: (i64, i64))
    ensures
        r.0 == sat_sum(line_totals@),
        r.1 == sat_add(sat_sum(line_totals@), tax_minor as int),
{
    let mut subtotal: i64 = 0;
    let mut i: usize = 0;
    while i < line_totals.len()
        invariant
            i <= line_totals@.len(),
            subtotal == sat_sum(line_totals@.take(i as int)),
        decreases line_totals@.len() - i,
    {
        assert(line_totals@.take(i + 1).drop_last() == line_totals@.take(i as int));
        subtotal = sat_add_i64(subtotal, line_totals[i]);
        i = i + 1;
    }
    assert(line_totals@.take(line_totals@.len() as int) == line_totals@);
    (subtotal, sat_add_i64(subtotal, tax_minor))
}

/// The payment method as compared: trimmed and lower-cased.
pub open spec fn method_of(raw: Seq<char>) -> Seq<char> {
    ascii_lower(trim(raw))
}

/// Checks a new vendor payment and gives its payment method: it must be `check`
/// or `other` (trimmed, any case), and the amount must be positive.
pub fn vendor_payment_method(input: &VendorPaymentCreateInput) -> (r: Result<String, DbCommandError>)
    ensures
        !(method_of(input.payment_method@) == "check"@ || method_of(input.payment_method@)
            == "other"@) ==> (r matches Err(DbCommandError::Validation { message }) && message@
            == "paymentMethod must be check or other"@),
        (method_of(input.payment_method@) == "check"@ || method_of(input.payment_method@)
            == "other"@) && input.amount_minor <= 0 ==> (r matches Err(
            DbCommandError::Validation { message },
        ) && message@ == "amount must be greater than zero"@),
        (method_of(input.payment_method@) == "check"@ || method_of(input.payment_method@)
            == "other"@) && input.amount_minor > 0 ==> (r matches Ok(m) && m@ == method_of(
            input.payment_method@,
        )),
{
    let m = to_ascii_lower(&trim_chars(&chars_of(input.payment_method.as_str())));
    if !(chars_eq(&m, &chars_of("check")) || chars_eq(&m, &chars_of("other"))) {
        return Err(
            DbCommandError::Validation { message: "paymentMethod must be check or other".to_owned() },
        );
    }
    if input.amount_minor <= 0 {
        return Err(
            DbCommandError::Validation { message: "amount must be greater than zero".to_owned() },
        );
    }
    Ok(string_of(&m))
}

/// The trimmed text of an optional field, when not empty.
pub open spec fn trimmed_text(o: Option<Seq<char>>) -> Option<Seq<char>> {
    match o {
        Some(s) => if trim(s).len() > 0 {
            Some(trim(s))
        } else {
            None
        },
        None => None,
    }
}

/// The trimmed text of an optional field, when not empty.
pub fn trimmed_non_empty(o: &Option<String>) -> (r: Option<String>)
    ensures
        opt_text(r) == trimmed_text(opt_text(*o)),
{
    match o {
        Some(s) => {
            let t = trim_chars(&chars_of(s.as_str()));
            if t.len() > 0 {
                Some(string_of(&t))
            } else {
                None
            }
        },
        None => None,
    }
}

/// The number a check payment is printed with, and the company's next check
/// number afterwards when the payment used the current one.
#[derive(Debug, Clone)]
pub struct CheckNumberChoice {
    pub number: String,
    pub advance_to: Option<i64>,
}

/// The number of a check: the number given (trimmed, when not empty), else the
/// company's next check number; the sequence moves on when the number used is
/// the next one.
pub fn assign_check_number(provided: &Option<String>, next_check_number: i64) -> (r:
    CheckNumberChoice)
    requires
        next_check_number < i64::MAX,
    ensures
        r.number@ == match trimmed_text(opt_text(*provided)) {
            Some(n) => n,
            None => dec_int(next_check_number as int),
        },
        r.advance_to == (if parse_i64(r.number@) == Some(next_check_number as int) {
            Some((next_check_number + 1) as i64)
        } else {
            None
        }),
{
    let number = match trimmed_non_empty(provided) {
        Some(n) => n,
        None => string_of(&fmt_i64(next_check_number)),
    };
    let parsed = crate::num::parse_int_chars(
        &chars_of(number.as_str()),
        true,
        i64::MIN as i128,
        i64::MAX as i128,
    );
    let advance_to = match parsed {
        Some(v) => if v == next_check_number as i128 {
            Some(next_check_number + 1)
        } else {
            None
        },
        None => None,
    };
    CheckNumberChoice { number, advance_to }
}

} // verus!

//! Whole-book scenarios: an in-memory set of books that posts documents through
//! the library's planners, checks status changes, and runs the reports.

use kwikbooks::balances::{open_balances, OpenDocument, PostedPayment};
use kwikbooks::error::DbCommandError;
use kwikbooks::journal::{validate_balance, DraftJournalLine};
use kwikbooks::ledger::{AccountInfo, PostedLine};
use kwikbooks::lifecycle::{check_bill_status, check_invoice_status, StatusRecord};
use kwikbooks::posting::{
    plan_bill_posting, plan_customer_payment_posting, plan_invoice_posting,
    plan_vendor_payment_posting, BillLineRecord, BillRecord, CustomerPaymentRecord,
    InvoiceLineRecord, InvoiceRecord, JournalPlan, VendorPaymentRecord,
};
use kwikbooks::reports::{balance_sheet, general_ledger, profit_and_loss, trial_balance};

struct Books {
    accounts: Vec<AccountInfo>,
    customers: Vec<(i64, String)>,
    vendors: Vec<(i64, String)>,
    invoices: Vec<InvoiceRecord>,
    invoice_lines: Vec<(i64, InvoiceLineRecord)>,
    bills: Vec<BillRecord>,
    bill_payees: Vec<(i64, String)>,
    bill_lines: Vec<(i64, BillLineRecord)>,
    customer_payments: Vec<CustomerPaymentRecord>,
    vendor_payments: Vec<VendorPaymentRecord>,
    lines: Vec<PostedLine>,
    next_id: i64,
}

fn account(id: i64, code: &str, name: &str, account_type: &str, is_bank_cash: bool) -> AccountInfo {
    AccountInfo {
        id,
        code: code.to_string(),
        name: name.to_string(),
        account_type: account_type.to_string(),
        is_bank_cash,
        is_active: true,
    }
}

impl Books {
    fn new() -> Self {
        Books {
            accounts: vec![
                account(1, "1000", "Cash", "asset", true),
                account(2, "1100", "Accounts Receivable", "asset", false),
                account(3, "2000", "Accounts Payable", "liability", false),
                account(4, "2100", "Sales Tax Payable", "liability", false),
                account(5, "4000", "Sales", "income", false),
                account(6, "5000", "Expenses", "expense", false),
            ],
            customers: vec![],
            vendors: vec![],
            invoices: vec![],
            invoice_lines: vec![],
            bills: vec![],
            bill_payees: vec![],
            bill_lines: vec![],
            customer_payments: vec![],
            vendor_payments: vec![],
            lines: vec![],
            next_id: 100,
        }
    }

    fn fresh_id(&mut self) -> i64 {
        self.next_id += 1;
        self.next_id
    }

    fn acct(&self, code: &str) -> i64 {
        self.accounts
            .iter()
            .find(|a| a.code == code)
            .map(|a| a.id)
            .unwrap_or_else(|| panic!("missing account {code}"))
    }

    fn deactivate(&mut self, id: i64) {
        for a in self.accounts.iter_mut() {
            if a.id == id {
                a.is_active = false;
            }
        }
    }

    fn customer(&mut self, name: &str) -> i64 {
        let id = self.fresh_id();
        self.customers.push((id, name.to_string()));
        id
    }

    fn vendor(&mut self, name: &str) -> i64 {
        let id = self.fresh_id();
        self.vendors.push((id, name.to_string()));
        id
    }

    fn invoice(&mut self, customer_id: i64, status: &str, issue_date: &str, subtotal: i64, tax: i64) -> i64 {
        let id = self.fresh_id();
        self.invoices.push(InvoiceRecord {
            id,
            customer_id,
            status: status.to_string(),
            journal_id: None,
            subtotal_minor: subtotal,
            tax_minor: tax,
            total_minor: subtotal + tax,
            issue_date: issue_date.to_string(),
        });
        id
    }

    fn invoice_line(&mut self, invoice_id: i64, number: i32, amount: i64, income_account: Option<i64>) {
        self.invoice_lines.push((
            invoice_id,
            InvoiceLineRecord {
                line_number: number,
                description: "Work".to_string(),
                line_total_minor: amount,
                recomputed_total_minor: amount,
                income_account_id: income_account,
                item_id: None,
            },
        ));
    }

    fn bill(&mut self, vendor_id: Option<i64>, status: &str, issue_date: &str, amount: i64) -> i64 {
        let id = self.fresh_id();
        self.bills.push(BillRecord {
            id,
            vendor_id,
            status: status.to_string(),
            journal_id: None,
            total_minor: amount,
            issue_date: issue_date.to_string(),
        });
        id
    }

    fn bill_line(&mut self, bill_id: i64, number: i32, amount: i64, expense_account: i64) {
        self.bill_lines.push((
            bill_id,
            BillLineRecord {
                line_number: number,
                description: "Expense".to_string(),
                amount_minor: amount,
                expense_account_id: expense_account,
            },
        ));
    }

    fn posted_invoice(&mut self, customer_id: i64, issue_date: &str, subtotal: i64, tax: i64) -> i64 {
        let sales = self.acct("4000");
        let id = self.invoice(customer_id, "sent", issue_date, subtotal, tax);
        self.invoice_line(id, 1, subtotal, Some(sales));
        self.post_invoice(id).expect("post invoice");
        id
    }

    fn posted_bill(&mut self, vendor_id: i64, issue_date: &str, amount: i64) -> i64 {
        let exp = self.acct("5000");
        let id = self.bill(Some(vendor_id), "open", issue_date, amount);
        self.bill_line(id, 1, amount, exp);
        self.post_bill(id).expect("post bill");
        id
    }

    fn customer_payment(&mut self, customer_id: i64, bank: i64, amount: i64, date: &str, invoice_id: Option<i64>) -> i64 {
        let id = self.fresh_id();
        self.customer_payments.push(CustomerPaymentRecord {
            id,
            customer_id,
            bank_account_id: bank,
            amount_minor: amount,
            payment_date: date.to_string(),
            invoice_id,
            journal_id: None,
        });
        id
    }

    fn vendor_payment(&mut self, vendor_id: i64, bank: i64, amount: i64, date: &str, bill_id: Option<i64>) -> i64 {
        let id = self.fresh_id();
        self.vendor_payments.push(VendorPaymentRecord {
            id,
            vendor_id,
            bank_account_id: bank,
            amount_minor: amount,
            payment_date: date.to_string(),
            bill_id,
            journal_id: None,
        });
        id
    }

    /// Writes a journal after the balance check, as the database layer does.
    fn write_journal(&mut self, plan: &JournalPlan) -> Result<i64, DbCommandError> {
        validate_balance(&plan.lines)?;
        let jid = self.fresh_id();
        for l in plan.lines.iter() {
            self.lines.push(PostedLine {
                journal_id: jid,
                entry_date: plan.entry_date.clone(),
                memo: Some(plan.memo.clone()),
                source_kind: Some(plan.source_kind.clone()),
                account_id: l.account_id,
                line_number: l.line_number,
                description: l.description.clone(),
                debit_minor: l.debit_minor,
                credit_minor: l.credit_minor,
            });
        }
        self.lines.sort_by(|a, b| {
            (a.entry_date.clone(), a.journal_id, a.line_number).cmp(&(b.entry_date.clone(), b.journal_id, b.line_number))
        });
        Ok(jid)
    }

    /// A journal written directly, as a hand-made entry.
    fn raw_journal(&mut self, date: &str, kind: &str, entries: &[(i64, i64, i64)]) -> i64 {
        let lines: Vec<DraftJournalLine> = entries
            .iter()
            .enumerate()
            .map(|(i, (acct, dr, cr))| DraftJournalLine {
                account_id: *acct,
                line_number: (i + 1) as i32,
                description: None,
                debit_minor: *dr,
                credit_minor: *cr,
            })
            .collect();
        let plan = JournalPlan {
            entry_date: date.to_string(),
            memo: kind.to_string(),
            source_kind: kind.to_string(),
            source_id: 0,
            lines,
        };
        if entries.is_empty() {
            return self.fresh_id();
        }
        self.write_journal(&plan).expect("raw journal")
    }

    fn post_invoice(&mut self, id: i64) -> Result<i64, DbCommandError> {
        let rec = self.invoices.iter().find(|i| i.id == id).cloned();
        let mut lines: Vec<InvoiceLineRecord> =
            self.invoice_lines.iter().filter(|(d, _)| *d == id).map(|(_, l)| l.clone()).collect();
        lines.sort_by_key(|l| l.line_number);
        let plan = plan_invoice_posting(id, &rec, &lines, &self.accounts)?;
        let jid = self.write_journal(&plan)?;
        self.invoices.iter_mut().find(|i| i.id == id).unwrap().journal_id = Some(jid);
        Ok(jid)
    }

    fn post_bill(&mut self, id: i64) -> Result<i64, DbCommandError> {
        let rec = self.bills.iter().find(|b| b.id == id).cloned();
        let mut lines: Vec<BillLineRecord> =
            self.bill_lines.iter().filter(|(d, _)| *d == id).map(|(_, l)| l.clone()).collect();
        lines.sort_by_key(|l| l.line_number);
        let plan = plan_bill_posting(id, &rec, &lines, &self.accounts)?;
        let jid = self.write_journal(&plan)?;
        self.bills.iter_mut().find(|b| b.id == id).unwrap().journal_id = Some(jid);
        Ok(jid)
    }

    fn applied_to_invoice(&self, invoice_id: i64) -> Vec<i64> {
        self.customer_payments
            .iter()
            .filter(|p| p.journal_id.is_some() && p.invoice_id == Some(invoice_id))
            .map(|p| p.amount_minor)
            .collect()
    }

    fn applied_to_bill(&self, bill_id: i64) -> Vec<i64> {
        self.vendor_payments
            .iter()
            .filter(|p| p.journal_id.is_some() && p.bill_id == Some(bill_id))
            .map(|p| p.amount_minor)
            .collect()
    }

    fn post_customer_payment(&mut self, id: i64) -> Result<i64, DbCommandError> {
        let pay = self.customer_payments.iter().find(|p| p.id == id).cloned();
        let target = pay.as_ref().and_then(|p| p.invoice_id);
        let invoice = target.and_then(|iid| self.invoices.iter().find(|i| i.id == iid).cloned());
        let applied = target.map(|iid| self.applied_to_invoice(iid)).unwrap_or_default();
        let plan = plan_customer_payment_posting(id, &pay, &invoice, &applied, &self.accounts)?;
        let jid = self.write_journal(&plan.journal)?;
        self.customer_payments.iter_mut().find(|p| p.id == id).unwrap().journal_id = Some(jid);
        if let Some(iid) = plan.settles {
            self.invoices.iter_mut().find(|i| i.id == iid).unwrap().status = "paid".to_string();
        }
        Ok(jid)
    }

    fn post_vendor_payment(&mut self, id: i64) -> Result<i64, DbCommandError> {
        let pay = self.vendor_payments.iter().find(|p| p.id == id).cloned();
        let target = pay.as_ref().and_then(|p| p.bill_id);
        let bill = target.and_then(|bid| self.bills.iter().find(|b| b.id == bid).cloned());
        let applied = target.map(|bid| self.applied_to_bill(bid)).unwrap_or_default();
        let plan = plan_vendor_payment_posting(id, &pay, &bill, &applied, &self.accounts)?;
        let jid = self.write_journal(&plan.journal)?;
        self.vendor_payments.iter_mut().find(|p| p.id == id).unwrap().journal_id = Some(jid);
        if let Some(bid) = plan.settles {
            self.bills.iter_mut().find(|b| b.id == bid).unwrap().status = "paid".to_string();
        }
        Ok(jid)
    }

    fn set_invoice_status(&mut self, id: i64, next: &str) -> Result<(), DbCommandError> {
        let rec = self.invoices.iter().find(|i| i.id == id).map(|i| StatusRecord {
            status: i.status.clone(),
            journal_id: i.journal_id,
            total_minor: i.total_minor,
        });
        check_invoice_status(id, &rec, next, &self.applied_to_invoice(id))?;
        self.invoices.iter_mut().find(|i| i.id == id).unwrap().status = next.to_string();
        Ok(())
    }

    fn set_bill_status(&mut self, id: i64, next: &str) -> Result<(), DbCommandError> {
        let rec = self.bills.iter().find(|b| b.id == id).map(|b| StatusRecord {
            status: b.status.clone(),
            journal_id: b.journal_id,
            total_minor: b.total_minor,
        });
        check_bill_status(id, &rec, next, &self.applied_to_bill(id))?;
        self.bills.iter_mut().find(|b| b.id == id).unwrap().status = next.to_string();
        Ok(())
    }

    fn invoice_status(&self, id: i64) -> String {
        self.invoices.iter().find(|i| i.id == id).unwrap().status.clone()
    }

    fn bill_status(&self, id: i64) -> String {
        self.bills.iter().find(|b| b.id == id).unwrap().status.clone()
    }

    fn journal_sums(&self, jid: i64) -> (i64, i64) {
        self.lines
            .iter()
            .filter(|l| l.journal_id == jid)
            .fold((0, 0), |(d, c), l| (d + l.debit_minor, c + l.credit_minor))
    }

    fn gl_debit_minus_credit(&self, code: &str, as_of: &str) -> i64 {
        let id = self.acct(code);
        self.lines
            .iter()
            .filter(|l| l.account_id == id && l.entry_date.as_str() <= as_of)
            .map(|l| l.debit_minor - l.credit_minor)
            .sum()
    }

    fn ar_open(&self) -> Vec<kwikbooks::balances::OpenBalance> {
        let docs: Vec<OpenDocument> = self
            .invoices
            .iter()
            .filter(|i| i.journal_id.is_some() && i.status != "draft" && i.status != "void")
            .map(|i| OpenDocument {
                id: i.id,
                party_id: Some(i.customer_id),
                party_name: self.customers.iter().find(|c| c.0 == i.customer_id).map(|c| c.1.clone()),
                payee_name: None,
                total_minor: i.total_minor,
            })
            .collect();
        let pays: Vec<PostedPayment> = self
            .customer_payments
            .iter()
            .filter(|p| p.journal_id.is_some())
            .map(|p| PostedPayment { party_id: p.customer_id, document_id: p.invoice_id, amount_minor: p.amount_minor })
            .collect();
        open_balances(&docs, &pays, &self.customers).expect("ar")
    }

    fn ap_open(&self) -> Vec<kwikbooks::balances::OpenBalance> {
        let docs: Vec<OpenDocument> = self
            .bills
            .iter()
            .filter(|b| b.journal_id.is_some() && b.status != "draft" && b.status != "void")
            .map(|b| OpenDocument {
                id: b.id,
                party_id: b.vendor_id,
                party_name: b.vendor_id.and_then(|v| self.vendors.iter().find(|x| x.0 == v).map(|x| x.1.clone())),
                payee_name: self.bill_payees.iter().find(|p| p.0 == b.id).map(|p| p.1.clone()),
                total_minor: b.total_minor,
            })
            .collect();
        let pays: Vec<PostedPayment> = self
            .vendor_payments
            .iter()
            .filter(|p| p.journal_id.is_some())
            .map(|p| PostedPayment { party_id: p.vendor_id, document_id: p.bill_id, amount_minor: p.amount_minor })
            .collect();
        open_balances(&docs, &pays, &self.vendors).expect("ap")
    }

    fn open_ar_total(&self) -> i64 {
        self.ar_open().iter().map(|r| r.open_minor).sum()
    }

    fn open_ap_total(&self) -> i64 {
        self.ap_open().iter().map(|r| r.open_minor).sum()
    }

    fn tb_net(&self, code: &str, from: &str, to: &str) -> i64 {
        let rows = trial_balance(&self.accounts, &self.lines, from, to).expect("tb");
        rows.iter().find(|r| r.code == code).map(|r| r.net_minor).unwrap_or(0)
    }

    fn assert_all_journals_balance(&self) {
        let mut ids: Vec<i64> = self.lines.iter().map(|l| l.journal_id).collect();
        ids.dedup();
        for jid in ids {
            let (d, c) = self.journal_sums(jid);
            assert_eq!(d, c, "journal {jid} does not balance");
        }
    }

    fn assert_accounting_equation(&self, as_of: &str) {
        let bs = balance_sheet(&self.accounts, &self.lines, as_of).expect("bs");
        assert_eq!(
            bs.total_assets_minor,
            bs.total_liabilities_minor + bs.total_equity_minor,
            "balance sheet does not balance as of {as_of}"
        );
    }

    fn assert_subledger_matches_control(&self, as_of: &str) {
        let ar_gl = self.gl_debit_minus_credit("1100", as_of);
        assert_eq!(self.open_ar_total(), ar_gl.max(0), "open AR must match GL AR as of {as_of}");
        let ap_gl = -self.gl_debit_minus_credit("2000", as_of);
        assert_eq!(self.open_ap_total(), ap_gl.max(0), "open AP must match GL AP as of {as_of}");
    }

    /// One customer with a 1000 invoice posted on 2026-01-10 and one vendor with
    /// a 250 bill posted on 2026-01-11, written as hand-made journals.
    fn seed_ledger(&mut self) -> (i64, i64) {
        let customer = self.customer("A Customer");
        let invoice = self.invoice(customer, "sent", "2026-01-10", 1000, 0);
        let vendor = self.vendor("A Vendor");
        let bill = self.bill(Some(vendor), "open", "2026-01-11", 250);
        let (ar, sales, exp, ap) = (self.acct("1100"), self.acct("4000"), self.acct("5000"), self.acct("2000"));
        let j1 = self.raw_journal("2026-01-10", "invoice", &[(ar, 1000, 0), (sales, 0, 1000)]);
        self.invoices.iter_mut().find(|i| i.id == invoice).unwrap().journal_id = Some(j1);
        let j2 = self.raw_journal("2026-01-11", "bill", &[(exp, 250, 0), (ap, 0, 250)]);
        self.bills.iter_mut().find(|b| b.id == bill).unwrap().journal_id = Some(j2);
        (invoice, bill)
    }
}

fn validation_message(r: Result<impl std::fmt::Debug, DbCommandError>) -> String {
    match r {
        Err(DbCommandError::Validation { message }) => message,
        other => panic!("expected validation error, got {other:?}"),
    }
}

// ------------------------------------------------------------------ invariants

#[test]
fn posted_activity_keeps_journals_balanced_and_equation_true() {
    let mut books = Books::new();
    let cust = books.customer("Acme");
    let vend = books.vendor("Office Co");
    books.posted_invoice(cust, "2026-01-15", 5000, 400);
    books.posted_bill(vend, "2026-01-16", 1200);
    books.assert_all_journals_balance();
    books.assert_accounting_equation("2026-01-31");
    books.assert_subledger_matches_control("2026-01-31");
}

#[test]
fn sales_tax_credits_tax_payable_not_revenue() {
    let mut books = Books::new();
    let cust = books.customer("Taxed");
    books.posted_invoice(cust, "2026-02-01", 10000, 800);
    assert_eq!(books.gl_debit_minus_credit("4000", "2026-02-01"), -10000);
    assert_eq!(books.gl_debit_minus_credit("2100", "2026-02-01"), -800);
    assert_eq!(books.gl_debit_minus_credit("1100", "2026-02-01"), 10800);
}

#[test]
fn reports_exclude_activity_outside_the_requested_dates() {
    let mut books = Books::new();
    let cust = books.customer("Dated");
    books.posted_invoice(cust, "2026-01-10", 3000, 0);
    books.posted_invoice(cust, "2026-03-10", 7000, 0);
    assert_eq!(books.tb_net("1100", "2026-01-01", "2026-01-31"), 3000);
    assert_eq!(books.tb_net("1100", "2026-02-01", "2026-02-28"), 0);
    assert_eq!(books.tb_net("1100", "2026-03-01", "2026-03-31"), 7000);

    let jan_pl = profit_and_loss(&books.accounts, &books.lines, "2026-01-01", "2026-01-31").expect("pl jan");
    assert_eq!(jan_pl.total_income_minor, 3000);
    let feb_pl = profit_and_loss(&books.accounts, &books.lines, "2026-02-01", "2026-02-28").expect("pl feb");
    assert_eq!(feb_pl.total_income_minor, 0);

    let bs_jan = balance_sheet(&books.accounts, &books.lines, "2026-01-31").expect("bs jan");
    assert_eq!(bs_jan.total_assets_minor, 3000);
    let bs_feb = balance_sheet(&books.accounts, &books.lines, "2026-02-28").expect("bs feb");
    assert_eq!(bs_feb.total_assets_minor, 3000);
    let bs_mar = balance_sheet(&books.accounts, &books.lines, "2026-03-31").expect("bs mar");
    assert_eq!(bs_mar.total_assets_minor, 10000);
}

#[test]
fn customer_payment_applied_to_invoice_clears_ar_and_marks_paid() {
    let mut books = Books::new();
    let cust = books.customer("Payer");
    let inv = books.posted_invoice(cust, "2026-04-01", 5000, 0);
    let cash = books.acct("1000");
    let pay = books.customer_payment(cust, cash, 5000, "2026-04-05", Some(inv));
    books.post_customer_payment(pay).expect("post payment");
    assert_eq!(books.invoice_status(inv), "paid");
    assert_eq!(books.open_ar_total(), 0);
    assert_eq!(books.gl_debit_minus_credit("1100", "2026-04-05"), 0);
    assert_eq!(books.gl_debit_minus_credit("1000", "2026-04-05"), 5000);
    books.assert_all_journals_balance();
    books.assert_accounting_equation("2026-04-05");
    books.assert_subledger_matches_control("2026-04-05");
}

#[test]
fn partial_payment_reduces_open_ar_but_leaves_invoice_sent() {
    let mut books = Books::new();
    let cust = books.customer("Partial");
    let inv = books.posted_invoice(cust, "2026-05-01", 1000, 0);
    let cash = books.acct("1000");
    let pay = books.customer_payment(cust, cash, 400, "2026-05-02", Some(inv));
    books.post_customer_payment(pay).expect("post partial");
    assert_eq!(books.invoice_status(inv), "sent");
    assert_eq!(books.open_ar_total(), 600);
    assert_eq!(books.gl_debit_minus_credit("1100", "2026-05-02"), 600);
    books.assert_subledger_matches_control("2026-05-02");
}

#[test]
fn second_partial_payment_settles_invoice() {
    let mut books = Books::new();
    let cust = books.customer("Twice");
    let inv = books.posted_invoice(cust, "2026-05-01", 1000, 0);
    let cash = books.acct("1000");
    let first = books.customer_payment(cust, cash, 400, "2026-05-02", Some(inv));
    books.post_customer_payment(first).expect("first");
    let over = books.customer_payment(cust, cash, 601, "2026-05-03", Some(inv));
    assert_eq!(
        validation_message(books.post_customer_payment(over)),
        "payment exceeds the open balance of the invoice"
    );
    let rest = books.customer_payment(cust, cash, 600, "2026-05-03", Some(inv));
    books.post_customer_payment(rest).expect("rest");
    assert_eq!(books.invoice_status(inv), "paid");
    assert_eq!(books.open_ar_total(), 0);
}

#[test]
fn unapplied_customer_payment_still_reduces_open_ar_to_match_gl() {
    let mut books = Books::new();
    let cust = books.customer("Unapplied");
    books.posted_invoice(cust, "2026-06-01", 800, 0);
    let cash = books.acct("1000");
    let pay = books.customer_payment(cust, cash, 800, "2026-06-03", None);
    books.post_customer_payment(pay).expect("post unapplied");
    assert_eq!(books.open_ar_total(), 0);
    assert_eq!(books.gl_debit_minus_credit("1100", "2026-06-03"), 0);
    books.assert_subledger_matches_control("2026-06-03");
}

#[test]
fn vendor_payment_applied_to_bill_clears_ap() {
    let mut books = Books::new();
    let vend = books.vendor("Supplier");
    let bill = books.posted_bill(vend, "2026-07-01", 2500);
    let cash = books.acct("1000");
    let pay = books.vendor_payment(vend, cash, 2500, "2026-07-04", Some(bill));
    books.post_vendor_payment(pay).expect("post vendor pay");
    assert_eq!(books.bill_status(bill), "paid");
    assert_eq!(books.open_ap_total(), 0);
    assert_eq!(books.gl_debit_minus_credit("2000", "2026-07-04"), 0);
    books.assert_accounting_equation("2026-07-04");
    books.assert_subledger_matches_control("2026-07-04");
}

#[test]
fn payment_rejects_wrong_customer_invoice_and_overpay() {
    let mut books = Books::new();
    let a = books.customer("A");
    let b = books.customer("B");
    let inv_a = books.posted_invoice(a, "2026-08-01", 1000, 0);
    let inv_b = books.posted_invoice(b, "2026-08-01", 1000, 0);
    let cash = books.acct("1000");
    let wrong = books.customer_payment(a, cash, 1000, "2026-08-02", Some(inv_b));
    assert_eq!(
        validation_message(books.post_customer_payment(wrong)),
        "payment customer does not match the invoice customer"
    );
    let over = books.customer_payment(a, cash, 1001, "2026-08-02", Some(inv_a));
    assert!(books.post_customer_payment(over).is_err());
}

#[test]
fn payment_rejects_non_bank_and_inactive_bank_accounts() {
    let mut books = Books::new();
    let cust = books.customer("BankCheck");
    let sales = books.acct("4000");
    let bad = books.customer_payment(cust, sales, 100, "2026-09-01", None);
    assert_eq!(validation_message(books.post_customer_payment(bad)), "invalid bank account");
    let cash = books.acct("1000");
    books.deactivate(cash);
    let inactive = books.customer_payment(cust, cash, 100, "2026-09-01", None);
    assert!(books.post_customer_payment(inactive).is_err());
}

#[test]
fn cannot_mark_sent_invoice_paid_without_covering_payment() {
    let mut books = Books::new();
    let cust = books.customer("NoPay");
    let inv = books.posted_invoice(cust, "2026-10-01", 500, 0);
    assert!(books.set_invoice_status(inv, "paid").is_err());
    assert_eq!(books.invoice_status(inv), "sent");
}

#[test]
fn cannot_void_a_posted_invoice_or_bill() {
    let mut books = Books::new();
    let cust = books.customer("VoidMe");
    let vend = books.vendor("VoidBill");
    let inv = books.posted_invoice(cust, "2026-11-01", 500, 0);
    let bill = books.posted_bill(vend, "2026-11-01", 200);
    assert!(books.set_invoice_status(inv, "void").is_err());
    assert!(books.set_bill_status(bill, "void").is_err());
    assert_eq!(books.gl_debit_minus_credit("1100", "2026-11-01"), 500);
    assert_eq!(books.gl_debit_minus_credit("2000", "2026-11-01"), -200);
}

#[test]
fn invoice_post_rejects_expense_account_on_income_line() {
    let mut books = Books::new();
    let cust = books.customer("Misclass");
    let exp = books.acct("5000");
    let id = books.invoice(cust, "sent", "2026-12-01", 100, 0);
    books.invoice_line(id, 1, 100, Some(exp));
    assert_eq!(validation_message(books.post_invoice(id)), "unknown income account on line 1");
}

#[test]
fn trial_balance_and_profit_and_loss_reject_inverted_or_malformed_dates() {
    let books = Books::new();
    assert!(trial_balance(&books.accounts, &books.lines, "2026-02-01", "2026-01-01").is_err());
    assert!(profit_and_loss(&books.accounts, &books.lines, "not-a-date", "2026-01-01").is_err());
    assert!(balance_sheet(&books.accounts, &books.lines, "2026-13-40").is_err());
}

// --------------------------------------------------------------------- posting

#[test]
fn post_invoice_once_and_journal_balances() {
    let mut books = Books::new();
    let cust = books.customer("Once");
    let sales = books.acct("4000");
    let inv = books.invoice(cust, "sent", "2026-01-15", 5000, 0);
    books.invoice_line(inv, 1, 5000, Some(sales));
    let jid = books.post_invoice(inv).expect("post");
    assert!(jid > 0);
    match books.post_invoice(inv) {
        Err(DbCommandError::Conflict { message }) => assert_eq!(message, "invoice already posted"),
        other => panic!("expected conflict, got {other:?}"),
    }
    let (dr, cr) = books.journal_sums(jid);
    assert_eq!(dr, cr);
    assert_eq!(dr, 5000);
}

#[test]
fn post_invoice_fails_when_draft() {
    let mut books = Books::new();
    let cust = books.customer("Solo");
    let inv = books.invoice(cust, "draft", "2026-01-01", 100, 0);
    books.invoice_line(inv, 1, 100, None);
    assert_eq!(
        validation_message(books.post_invoice(inv)),
        "only sent invoices can be posted (use invoice_set_status)"
    );
}

#[test]
fn post_invoice_checks_stored_totals() {
    let mut books = Books::new();
    let cust = books.customer("Totals");
    let sales = books.acct("4000");
    let inv = books.invoice(cust, "sent", "2026-01-01", 100, 0);
    books.invoice_line(inv, 1, 90, Some(sales));
    assert_eq!(
        validation_message(books.post_invoice(inv)),
        "invoice subtotal does not equal sum of line totals"
    );
    match books.post_invoice(4242) {
        Err(DbCommandError::NotFound { entity, id }) => {
            assert_eq!(entity, "invoice");
            assert_eq!(id, 4242);
        }
        other => panic!("expected not found, got {other:?}"),
    }
}

#[test]
fn post_open_bill_creates_payable_credit() {
    let mut books = Books::new();
    let exp = books.acct("5000");
    let bill = books.bill(None, "open", "2026-02-01", 1200);
    books.bill_line(bill, 1, 1200, exp);
    let jid = books.post_bill(bill).expect("post bill");
    let (dr, cr) = books.journal_sums(jid);
    assert_eq!(dr, cr);
    assert_eq!(cr, 1200);
    assert_eq!(books.gl_debit_minus_credit("2000", "2026-02-01"), -1200);
}

#[test]
fn post_customer_payment_rejects_missing_payment_id() {
    let mut books = Books::new();
    match books.post_customer_payment(999_999) {
        Err(DbCommandError::NotFound { entity, id }) => {
            assert_eq!(entity, "customer_payment");
            assert_eq!(id, 999_999);
        }
        other => panic!("expected not found, got {other:?}"),
    }
}

#[test]
fn post_customer_payment_is_idempotent() {
    let mut books = Books::new();
    let cash = books.acct("1000");
    let cust = books.customer("Paying Customer");
    let pay = books.customer_payment(cust, cash, 700, "2026-03-01", None);
    let jid = books.post_customer_payment(pay).expect("post once");
    assert!(jid > 0);
    assert!(books.post_customer_payment(pay).is_err());
}

#[test]
fn post_vendor_payment_rejects_missing_payment_id() {
    let mut books = Books::new();
    assert!(matches!(books.post_vendor_payment(999_999), Err(DbCommandError::NotFound { .. })));
}

#[test]
fn post_vendor_payment_balances_journal() {
    let mut books = Books::new();
    let cash = books.acct("1000");
    let vend = books.vendor("Paid Vendor");
    let pay = books.vendor_payment(vend, cash, 350, "2026-03-02", None);
    let jid = books.post_vendor_payment(pay).expect("post vendor payment");
    let (dr, cr) = books.journal_sums(jid);
    assert_eq!(dr, cr);
    assert_eq!(dr, 350);
}

// ------------------------------------------------------------------- lifecycle

#[test]
fn invoice_status_allows_draft_to_sent() {
    let mut books = Books::new();
    let cust = books.customer("Lifecycle Cust");
    let inv = books.invoice(cust, "draft", "2026-01-01", 100, 0);
    books.set_invoice_status(inv, "sent").expect("draft->sent");
    assert!(books.set_invoice_status(inv, "paid").is_err(), "sent->paid without payment should be rejected");
    assert_eq!(books.invoice_status(inv), "sent");
}

#[test]
fn invoice_status_rejects_invalid_transition() {
    let mut books = Books::new();
    let cust = books.customer("Lifecycle Cust");
    let inv = books.invoice(cust, "draft", "2026-01-01", 100, 0);
    assert!(books.set_invoice_status(inv, "paid").is_err(), "draft->paid should be rejected");
}

#[test]
fn invoice_status_rejects_void_when_posted() {
    let mut books = Books::new();
    let cust = books.customer("Lifecycle Cust");
    let inv = books.invoice(cust, "sent", "2026-01-01", 100, 0);
    let jid = books.raw_journal("2026-01-01", "invoice", &[]);
    books.invoices.iter_mut().find(|i| i.id == inv).unwrap().journal_id = Some(jid);
    assert!(books.set_invoice_status(inv, "void").is_err(), "posted invoice cannot be voided");
}

#[test]
fn bill_status_rejects_changes_after_void() {
    let mut books = Books::new();
    let bill = books.bill(None, "draft", "2026-01-01", 100);
    books.set_bill_status(bill, "void").expect("draft->void");
    match books.set_bill_status(bill, "paid") {
        Err(DbCommandError::Conflict { .. }) => {}
        other => panic!("void->paid should be conflict, got {other:?}"),
    }
}

#[test]
fn invoice_set_status_impl_returns_validation_for_invalid_transition() {
    let mut books = Books::new();
    let cust = books.customer("Cmd Customer");
    let inv = books.invoice(cust, "draft", "2026-01-01", 100, 0);
    assert!(matches!(books.set_invoice_status(inv, "paid"), Err(DbCommandError::Validation { .. })));
}

#[test]
fn bill_set_status_impl_returns_conflict_after_void() {
    let mut books = Books::new();
    let bill = books.bill(None, "draft", "2026-01-01", 100);
    books.set_bill_status(bill, "void").expect("void");
    assert!(matches!(books.set_bill_status(bill, "paid"), Err(DbCommandError::Conflict { .. })));
}

#[test]
fn covered_invoice_may_be_marked_paid() {
    let mut books = Books::new();
    let cust = books.customer("Covered");
    let inv = books.posted_invoice(cust, "2026-01-01", 300, 0);
    let cash = books.acct("1000");
    let p = books.customer_payment(cust, cash, 300, "2026-01-02", Some(inv));
    books.post_customer_payment(p).expect("pay");
    assert_eq!(books.invoice_status(inv), "paid");
    assert!(matches!(books.set_invoice_status(inv, "sent"), Err(DbCommandError::Conflict { .. })));
    assert!(matches!(books.set_invoice_status(4242, "sent"), Err(DbCommandError::NotFound { .. })));
}

// --------------------------------------------------------------------- reports

#[test]
fn ar_ap_open_summaries_match_document_statuses() {
    let mut books = Books::new();
    books.seed_ledger();
    let ar = books.ar_open();
    let ap = books.ap_open();
    assert_eq!(ar.len(), 1);
    assert_eq!(ap.len(), 1);
    assert_eq!(ar[0].open_minor, 1000);
    assert_eq!(ar[0].display_name, "A Customer");
    assert_eq!(ap[0].open_minor, 250);
}

#[test]
fn ar_open_includes_unlinked_payments_and_overpay_credit() {
    let mut books = Books::new();
    let (invoice_id, _) = books.seed_ledger();
    let bank = books.acct("1000");
    let customer_id = books.customers[0].0;
    let j = books.raw_journal("2026-01-20", "payment_customer", &[]);
    let p = books.customer_payment(customer_id, bank, 200, "2026-01-20", None);
    books.customer_payments.iter_mut().find(|x| x.id == p).unwrap().journal_id = Some(j);
    assert_eq!(books.ar_open()[0].open_minor, 800);

    let j2 = books.raw_journal("2026-01-21", "payment_customer", &[]);
    let p2 = books.customer_payment(customer_id, bank, 1500, "2026-01-21", Some(invoice_id));
    books.customer_payments.iter_mut().find(|x| x.id == p2).unwrap().journal_id = Some(j2);
    assert_eq!(books.ar_open()[0].open_minor, -700);
}

#[test]
fn ap_open_includes_payee_only_bills() {
    let mut books = Books::new();
    books.seed_ledger();
    let bill = books.bill(None, "open", "2026-01-12", 300);
    books.bill_payees.push((bill, "One-off Payee".to_string()));
    let jid = books.raw_journal("2026-01-12", "bill", &[]);
    books.bills.iter_mut().find(|b| b.id == bill).unwrap().journal_id = Some(jid);
    let ap = books.ap_open();
    assert!(
        ap.iter().any(|r| r.display_name == "One-off Payee" && r.open_minor == 300),
        "payee-only bill should appear: {ap:?}"
    );
}

#[test]
fn ar_ap_open_subtract_posted_payments() {
    let mut books = Books::new();
    let (invoice_id, bill_id) = books.seed_ledger();
    let bank = books.acct("1000");
    let customer_id = books.customers[0].0;
    let vendor_id = books.vendors[0].0;
    let jc = books.raw_journal("2026-01-15", "payment_customer", &[]);
    let cp = books.customer_payment(customer_id, bank, 400, "2026-01-15", Some(invoice_id));
    books.customer_payments.iter_mut().find(|x| x.id == cp).unwrap().journal_id = Some(jc);
    let jv = books.raw_journal("2026-01-16", "payment_vendor", &[]);
    let vp = books.vendor_payment(vendor_id, bank, 100, "2026-01-16", Some(bill_id));
    books.vendor_payments.iter_mut().find(|x| x.id == vp).unwrap().journal_id = Some(jv);
    assert_eq!(books.ar_open()[0].open_minor, 600);
    assert_eq!(books.ap_open()[0].open_minor, 150);
}

#[test]
fn profit_and_loss_and_balance_sheet_totals_are_consistent() {
    let mut books = Books::new();
    books.seed_ledger();
    let pl = profit_and_loss(&books.accounts, &books.lines, "2026-01-01", "2026-01-31").expect("p/l");
    assert_eq!(pl.total_income_minor, 1000);
    assert_eq!(pl.total_expense_minor, 250);
    assert_eq!(pl.net_income_minor, 750);
    let bs = balance_sheet(&books.accounts, &books.lines, "2026-01-31").expect("b/s");
    assert_eq!(bs.total_assets_minor, 1000);
    assert_eq!(bs.total_liabilities_minor, 250);
    assert_eq!(bs.net_income_minor, 750);
    assert_eq!(bs.total_equity_minor, 750);
    assert_eq!(bs.total_assets_minor, bs.total_liabilities_minor + bs.total_equity_minor);
    let synthetic: Vec<_> = bs.equity.iter().filter(|l| l.synthetic).collect();
    assert_eq!(synthetic.len(), 1);
    assert_eq!(synthetic[0].balance_minor, 750);
}

#[test]
fn trial_balance_and_pl_respect_date_range_filter() {
    let mut books = Books::new();
    books.seed_ledger();
    let tb_feb = trial_balance(&books.accounts, &books.lines, "2026-02-01", "2026-02-28").expect("tb feb");
    assert!(tb_feb.iter().all(|r| r.code != "1100"), "zero-activity AR should be omitted from period TB");
    assert!(tb_feb.iter().all(|r| r.debit_minor != 0 || r.credit_minor != 0));
    let pl_feb = profit_and_loss(&books.accounts, &books.lines, "2026-02-01", "2026-02-28").expect("pl feb");
    assert_eq!(pl_feb.total_income_minor, 0);
    assert_eq!(pl_feb.total_expense_minor, 0);
    assert_eq!(pl_feb.net_income_minor, 0);
    assert!(pl_feb.income_lines.is_empty());
    assert!(pl_feb.expense_lines.is_empty());
    let bs_dec = balance_sheet(&books.accounts, &books.lines, "2025-12-31").expect("bs before");
    assert_eq!(bs_dec.total_assets_minor, 0);
    assert_eq!(bs_dec.total_liabilities_minor, 0);
    assert_eq!(bs_dec.net_income_minor, 0);
}

#[test]
fn trial_balance_has_expected_account_net_values() {
    let mut books = Books::new();
    books.seed_ledger();
    let tb = trial_balance(&books.accounts, &books.lines, "2026-01-01", "2026-01-31").expect("tb");
    let net = |code: &str| tb.iter().find(|r| r.code == code).expect("row").net_minor;
    assert_eq!(net("1100"), 1000);
    assert_eq!(net("2000"), -250);
    assert_eq!(net("4000"), -1000);
    assert_eq!(net("5000"), 250);
    assert_eq!(tb.len(), 4);
}

#[test]
fn general_ledger_respects_date_range_filter() {
    let mut books = Books::new();
    books.seed_ledger();
    let ar_id = books.acct("1100");
    let jan_only = general_ledger(&books.lines, ar_id, "2026-01-10", "2026-01-10").expect("gl jan");
    assert_eq!(jan_only.len(), 1);
    assert_eq!(jan_only[0].debit_minor, 1000);
    let out_of_range = general_ledger(&books.lines, ar_id, "2026-02-01", "2026-02-28").expect("gl feb");
    assert!(out_of_range.is_empty());
    assert!(general_ledger(&books.lines, ar_id, "2026-02-28", "2026-02-01").is_err());
}

#[test]
fn trial_balance_golden_snapshot_matches_expected_nets() {
    let mut books = Books::new();
    books.seed_ledger();
    let tb = trial_balance(&books.accounts, &books.lines, "2026-01-01", "2026-12-31").expect("trial balance");
    let ar = tb.iter().find(|r| r.code == "1100").expect("AR");
    let sales = tb.iter().find(|r| r.code == "4000").expect("Sales");
    assert_eq!(ar.net_minor, 1000);
    assert_eq!(sales.net_minor, -1000);
    assert_eq!(sales.name, "Sales");
    assert!(tb.len() >= 4, "expected at least the core accounts");
}

#[test]
fn date_range_errors_carry_messages() {
    let books = Books::new();
    match trial_balance(&books.accounts, &books.lines, "2026-02-01", "2026-01-01") {
        Err(DbCommandError::Validation { message }) => assert!(!message.is_empty()),
        other => panic!("expected validation error, got {other:?}"),
    }
    match balance_sheet(&books.accounts, &books.lines, "2026-13-40") {
        Err(DbCommandError::Validation { message }) => {
            assert_eq!(message, "as-of date must be a valid date (YYYY-MM-DD)")
        }
        other => panic!("expected validation error, got {other:?}"),
    }
}

#[test]
fn invoice_post_impl_maps_not_found_error() {
    let mut books = Books::new();
    match books.post_invoice(404) {
        Err(DbCommandError::NotFound { entity, id }) => {
            assert_eq!(entity, "invoice");
            assert_eq!(id, 404);
        }
        other => panic!("expected not_found error, got {other:?}"),
    }
}

#[test]
fn customer_payment_post_impl_maps_not_found_error() {
    let mut books = Books::new();
    match books.post_customer_payment(777) {
        Err(DbCommandError::NotFound { entity, id }) => {
            assert_eq!(entity, "customer_payment");
            assert_eq!(id, 777);
        }
        other => panic!("expected not_found error, got {other:?}"),
    }
}

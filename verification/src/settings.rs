//! Edits of the company settings and of accounts: a partial update merged into
//! the stored values, and the checks the result must pass.
use vstd::prelude::*;

use crate::accounts::COMPANY_ID;
use crate::error::DbCommandError;
use crate::text::{concat_all, join_strs, str_eq};

verus! {

/// The company's settings as stored.
#[derive(Debug, Clone)]
pub struct CompanySettings {
    pub name: String,
    pub legal_name: Option<String>,
    pub fiscal_year_start_month: i64,
    pub base_currency_code: String,
    pub next_invoice_number: i64,
    pub next_bill_number: i64,
    pub address_line1: Option<String>,
    pub address_line2: Option<String>,
    pub city: Option<String>,
    pub region: Option<String>,
    pub postal_code: Option<String>,
    pub next_check_number: i64,
    pub default_check_style: String,
}

/// A partial update of the company settings: each field given replaces the stored one.
#[derive(Debug, Clone)]
pub struct CompanyUpdateInput {
    pub name: Option<String>,
    pub legal_name: Option<String>,
    pub fiscal_year_start_month: Option<i64>,
    pub base_currency_code: Option<String>,
    pub next_invoice_number: Option<i64>,
    pub next_bill_number: Option<i64>,
    pub address_line1: Option<String>,
    pub address_line2: Option<String>,
    pub city: Option<String>,
    pub region: Option<String>,
    pub postal_code: Option<String>,
    pub next_check_number: Option<i64>,
    pub default_check_style: Option<String>,
}

/// `given` when present, else `stored`.
pub open spec fn given_or<T>(given: Option<T>, stored: T) -> T {
    match given {
        Some(v) => v,
        None => stored,
    }
}

/// `given` when present, else `stored`, for an optional field.
pub open spec fn given_or_opt<T>(given: Option<T>, stored: Option<T>) -> Option<T> {
    match given {
        Some(v) => Some(v),
        None => stored,
    }
}

/// The settings after the update: every given field replaces the stored one.
pub open spec fn merged_company(c: CompanySettings, u: CompanyUpdateInput) -> CompanySettings {
    CompanySettings {
        name: given_or(u.name, c.name),
        legal_name: given_or_opt(u.legal_name, c.legal_name),
        fiscal_year_start_month: given_or(u.fiscal_year_start_month, c.fiscal_year_start_month),
        base_currency_code: given_or(u.base_currency_code, c.base_currency_code),
        next_invoice_number: given_or(u.next_invoice_number, c.next_invoice_number),
        next_bill_number: given_or(u.next_bill_number, c.next_bill_number),
        address_line1: given_or_opt(u.address_line1, c.address_line1),
        address_line2: given_or_opt(u.address_line2, c.address_line2),
        city: given_or_opt(u.city, c.city),
        region: given_or_opt(u.region, c.region),
        postal_code: given_or_opt(u.postal_code, c.postal_code),
        next_check_number: given_or(u.next_check_number, c.next_check_number),
        default_check_style: given_or(u.default_check_style, c.default_check_style),
    }
}

/// A check layout that can be printed.
pub open spec fn is_check_style(s: Seq<char>) -> bool {
    s == "voucher_top"@ || s == "voucher_middle"@ || s == "voucher_bottom"@ || s == "generic"@
}

/// Whether `s` names a check layout that can be printed.
pub fn valid_check_style(s: &str) -> (r: bool)
    ensures
        r == is_check_style(s@),
{
    str_eq(s, "voucher_top") || str_eq(s, "voucher_middle") || str_eq(s, "voucher_bottom")
        || str_eq(s, "generic")
}

/// What is wrong with merged settings, checked in this order: the fiscal year's
/// first month, the check layout, the next invoice and bill numbers, the next
/// check number.
pub open spec fn company_problem(m: CompanySettings) -> Option<Seq<char>> {
    if !(1 <= m.fiscal_year_start_month <= 12) {
        Some("fiscal year start month must be between 1 and 12"@)
    } else if !is_check_style(m.default_check_style@) {
        Some(
            "defaultCheckStyle must be voucher_top, voucher_middle, voucher_bottom, or generic"@,
        )
    } else if m.next_invoice_number < 1 || m.next_bill_number < 1 {
        Some("next invoice and bill numbers must be at least 1"@)
    } else if m.next_check_number < 1 {
        Some("nextCheckNumber must be at least 1"@)
    } else {
        None
    }
}

fn pick<T>(given: Option<T>, stored: T) -> (r: T)
    ensures
        r == given_or(given, stored),
{
    match given {
        Some(v) => v,
        None => stored,
    }
}

fn pick_opt<T>(given: Option<T>, stored: Option<T>) -> (r: Option<T>)
    ensures
        r == given_or_opt(given, stored),
{
    match given {
        Some(v) => Some(v),
        None => stored,
    }
}

/// Merges a partial update into the stored company settings and checks the
/// result; a company that is not stored is not found.
pub fn company_update(current: Option<CompanySettings>, input: CompanyUpdateInput) -> (r: Result<
    CompanySettings,
    DbCommandError,
>)
    ensures
        current is None ==> (r matches Err(DbCommandError::NotFound { entity, id }) && entity@
            == "company"@ && id == COMPANY_ID),
        current matches Some(c) ==> match company_problem(merged_company(c, input)) {
            Some(m) => r matches Err(DbCommandError::Validation { message }) && message@ == m,
            None => r == Ok::<CompanySettings, DbCommandError>(merged_company(c, input)),
        },
{
    let c = match current {
        None => {
            return Err(DbCommandError::NotFound { entity: "company".to_owned(), id: COMPANY_ID });
        },
        Some(c) => c,
    };
    let m = CompanySettings {
        name: pick(input.name, c.name),
        legal_name: pick_opt(input.legal_name, c.legal_name),
        fiscal_year_start_month: pick(input.fiscal_year_start_month, c.fiscal_year_start_month),
        base_currency_code: pick(input.base_currency_code, c.base_currency_code),
        next_invoice_number: pick(input.next_invoice_number, c.next_invoice_number),
        next_bill_number: pick(input.next_bill_number, c.next_bill_number),
        address_line1: pick_opt(input.address_line1, c.address_line1),
        address_line2: pick_opt(input.address_line2, c.address_line2),
        city: pick_opt(input.city, c.city),
        region: pick_opt(input.region, c.region),
        postal_code: pick_opt(input.postal_code, c.postal_code),
        next_check_number: pick(input.next_check_number, c.next_check_number),
        default_check_style: pick(input.default_check_style, c.default_check_style),
    };
    if !(1 <= m.fiscal_year_start_month && m.fiscal_year_start_month <= 12) {
        return Err(
            DbCommandError::Validation {
                message: "fiscal year start month must be between 1 and 12".to_owned(),
            },
        );
    }
    if !valid_check_style(m.default_check_style.as_str()) {
        return Err(
            DbCommandError::Validation {
                message: "defaultCheckStyle must be voucher_top, voucher_middle, voucher_bottom, or generic".to_owned(),
            },
        );
    }
    if m.next_invoice_number < 1 || m.next_bill_number < 1 {
        return Err(
            DbCommandError::Validation {
                message: "next invoice and bill numbers must be at least 1".to_owned(),
            },
        );
    }
    if m.next_check_number < 1 {
        return Err(
            DbCommandError::Validation { message: "nextCheckNumber must be at least 1".to_owned() },
        );
    }
    Ok(m)
}

/// An account as stored.
#[derive(Debug, Clone)]
pub struct AccountRecord {
    pub code: String,
    pub name: String,
    pub account_type: String,
    pub parent_id: Option<i64>,
    pub is_bank_cash: bool,
    pub is_active: bool,
    pub sort_order: i64,
}

/// A new account.
#[derive(Debug, Clone)]
pub struct AccountCreateInput {
    pub code: String,
    pub name: String,
    pub account_type: String,
    pub parent_id: Option<i64>,
    pub is_bank_cash: bool,
    pub sort_order: i64,
}

/// A partial update of account `id`: each field given replaces the stored one;
/// `clear_parent` removes the parent.
#[derive(Debug, Clone)]
pub struct AccountUpdateInput {
    pub id: i64,
    pub code: Option<String>,
    pub name: Option<String>,
    pub account_type: Option<String>,
    pub clear_parent: bool,
    pub parent_id: Option<i64>,
    pub is_bank_cash: Option<bool>,
    pub is_active: Option<bool>,
    pub sort_order: Option<i64>,
}

/// How many rows a change touched.
#[derive(Debug, Clone)]
pub struct RowsAffected {
    pub rows_affected: usize,
}

/// The account after the update: the parent is cleared when asked, else taken
/// from the update when given; every other given field replaces the stored one.
pub open spec fn merged_account(c: AccountRecord, u: AccountUpdateInput) -> AccountRecord {
    AccountRecord {
        code: given_or(u.code, c.code),
        name: given_or(u.name, c.name),
        account_type: given_or(u.account_type, c.account_type),
        parent_id: if u.clear_parent {
            None
        } else {
            given_or_opt(u.parent_id, c.parent_id)
        },
        is_bank_cash: given_or(u.is_bank_cash, c.is_bank_cash),
        is_active: given_or(u.is_active, c.is_active),
        sort_order: given_or(u.sort_order, c.sort_order),
    }
}

/// Merges a partial update into the stored account; an account that is not
/// stored is not found.
pub fn account_update(current: Option<AccountRecord>, input: AccountUpdateInput) -> (r: Result<
    AccountRecord,
    DbCommandError,
>)
    ensures
        current is None ==> (r matches Err(DbCommandError::NotFound { entity, id }) && entity@
            == "account"@ && id == input.id),
        current matches Some(c) ==> r == Ok::<AccountRecord, DbCommandError>(
            merged_account(c, input),
        ),
{
    let c = match current {
        None => {
            return Err(DbCommandError::NotFound { entity: "account".to_owned(), id: input.id });
        },
        Some(c) => c,
    };
    let parent_id = if input.clear_parent {
        None
    } else {
        pick_opt(input.parent_id, c.parent_id)
    };
    Ok(
        AccountRecord {
            code: pick(input.code, c.code),
            name: pick(input.name, c.name),
            account_type: pick(input.account_type, c.account_type),
            parent_id,
            is_bank_cash: pick(input.is_bank_cash, c.is_bank_cash),
            is_active: pick(input.is_active, c.is_active),
            sort_order: pick(input.sort_order, c.sort_order),
        },
    )
}

/// The count of rows a change touched, or not-found for `entity` `id` when it
/// touched none.
pub fn require_rows(entity: &str, id: i64, rows: usize) -> (r: Result<RowsAffected, DbCommandError>)
    ensures
        rows == 0 ==> (r matches Err(DbCommandError::NotFound { entity: e, id: i }) && e@
            == entity@ && i == id),
        rows > 0 ==> (r matches Ok(ra) && ra.rows_affected == rows),
{
    if rows == 0 {
        return Err(DbCommandError::NotFound { entity: entity.to_owned(), id });
    }
    Ok(RowsAffected { rows_affected: rows })
}

/// An update that gives no field leaves the company settings as they are.
pub proof fn law_empty_company_update_keeps_settings(c: CompanySettings)
    ensures
        merged_company(
            c,
            CompanyUpdateInput {
                name: None,
                legal_name: None,
                fiscal_year_start_month: None,
                base_currency_code: None,
                next_invoice_number: None,
                next_bill_number: None,
                address_line1: None,
                address_line2: None,
                city: None,
                region: None,
                postal_code: None,
                next_check_number: None,
                default_check_style: None,
            },
        ) == c,
{
}

/// An update that gives no field and keeps the parent leaves an account as it is.
pub proof fn law_empty_account_update_keeps_account(c: AccountRecord, id: i64)
    ensures
        merged_account(
            c,
            AccountUpdateInput {
                id,
                code: None,
                name: None,
                account_type: None,
                clear_parent: false,
                parent_id: None,
                is_bank_cash: None,
                is_active: None,
                sort_order: None,
            },
        ) == c,
{
}

/// Which accounts to list: only those of one type, only active ones, or only
/// those whose code or name contains a text.
#[derive(Debug, Clone, Default)]
pub struct AccountFilter {
    pub account_type: Option<String>,
    pub active_only: Option<bool>,
    pub search: Option<String>,
}

/// The query listing the accounts that `f` asks for, in chart order. Its
/// parameters are the company, then the type when one is given, then the search
/// text twice when one is given.
pub open spec fn account_list_sql_of(f: AccountFilter) -> Seq<char> {
    "SELECT id, company_id, code, name, account_type, parent_id, is_bank_cash, is_active, sort_order FROM account WHERE company_id = ?"@
        + (if f.active_only == Some(true) {
        " AND is_active = 1"@
    } else {
        Seq::empty()
    }) + (if f.account_type is Some {
        " AND account_type = ?"@
    } else {
        Seq::empty()
    }) + (if f.search is Some {
        " AND (code LIKE '%' || ? || '%' OR name LIKE '%' || ? || '%')"@
    } else {
        Seq::empty()
    }) + " ORDER BY sort_order, code"@
}

/// The query listing the accounts that `f` asks for (see [`account_list_sql_of`]).
pub fn account_list_sql(f: &AccountFilter) -> (r: String)
    ensures
        r@ == account_list_sql_of(*f),
{
    let active = match f.active_only {
        Some(b) => b,
        None => false,
    };
    let parts = [
        "SELECT id, company_id, code, name, account_type, parent_id, is_bank_cash, is_active, sort_order FROM account WHERE company_id = ?",
        if active {
            " AND is_active = 1"
        } else {
            ""
        },
        if f.account_type.is_some() {
            " AND account_type = ?"
        } else {
            ""
        },
        if f.search.is_some() {
            " AND (code LIKE '%' || ? || '%' OR name LIKE '%' || ? || '%')"
        } else {
            ""
        },
        " ORDER BY sort_order, code",
    ];
    let sql = join_strs(&parts);
    proof {
        reveal_with_fuel(concat_all, 6);
        reveal_strlit("");
    }
    sql
}

/// The printable check layouts are exactly voucher top, voucher middle, voucher
/// bottom and generic.
pub proof fn law_check_styles(s: Seq<char>)
    ensures
        is_check_style(s) <==> (s == "voucher_top"@ || s == "voucher_middle"@ || s
            == "voucher_bottom"@ || s == "generic"@),
        is_check_style("voucher_top"@),
        is_check_style("voucher_middle"@),
        is_check_style("voucher_bottom"@),
        is_check_style("generic"@),
{
}

/// A company update replaces exactly the fields it gives and keeps the others.
pub proof fn law_company_update_replaces_given_fields(c: CompanySettings, u: CompanyUpdateInput)
    ensures
        u.name matches Some(v) ==> merged_company(c, u).name == v,
        u.name is None ==> merged_company(c, u).name == c.name,
        u.legal_name matches Some(v) ==> merged_company(c, u).legal_name == Some(v),
        u.legal_name is None ==> merged_company(c, u).legal_name == c.legal_name,
        u.fiscal_year_start_month matches Some(v) ==> merged_company(c, u).fiscal_year_start_month == v,
        u.fiscal_year_start_month is None ==> merged_company(c, u).fiscal_year_start_month == c.fiscal_year_start_month,
        u.base_currency_code matches Some(v) ==> merged_company(c, u).base_currency_code == v,
        u.base_currency_code is None ==> merged_company(c, u).base_currency_code == c.base_currency_code,
        u.next_invoice_number matches Some(v) ==> merged_company(c, u).next_invoice_number == v,
        u.next_invoice_number is None ==> merged_company(c, u).next_invoice_number == c.next_invoice_number,
        u.next_bill_number matches Some(v) ==> merged_company(c, u).next_bill_number == v,
        u.next_bill_number is None ==> merged_company(c, u).next_bill_number == c.next_bill_number,
        u.address_line1 matches Some(v) ==> merged_company(c, u).address_line1 == Some(v),
        u.address_line1 is None ==> merged_company(c, u).address_line1 == c.address_line1,
        u.address_line2 matches Some(v) ==> merged_company(c, u).address_line2 == Some(v),
        u.address_line2 is None ==> merged_company(c, u).address_line2 == c.address_line2,
        u.city matches Some(v) ==> merged_company(c, u).city == Some(v),
        u.city is None ==> merged_company(c, u).city == c.city,
        u.region matches Some(v) ==> merged_company(c, u).region == Some(v),
        u.region is None ==> merged_company(c, u).region == c.region,
        u.postal_code matches Some(v) ==> merged_company(c, u).postal_code == Some(v),
        u.postal_code is None ==> merged_company(c, u).postal_code == c.postal_code,
        u.next_check_number matches Some(v) ==> merged_company(c, u).next_check_number == v,
        u.next_check_number is None ==> merged_company(c, u).next_check_number == c.next_check_number,
        u.default_check_style matches Some(v) ==> merged_company(c, u).default_check_style == v,
        u.default_check_style is None ==> merged_company(c, u).default_check_style == c.default_check_style,
{
}

/// Settings are accepted exactly when the fiscal year starts in a month 1..=12,
/// the check layout is printable, and the next invoice, bill and check numbers
/// are all at least 1.
pub proof fn law_company_settings_accepted(m: CompanySettings)
    ensures
        company_problem(m) is None <==> (1 <= m.fiscal_year_start_month <= 12 && (
        m.default_check_style@ == "voucher_top"@ || m.default_check_style@ == "voucher_middle"@
            || m.default_check_style@ == "voucher_bottom"@ || m.default_check_style@
            == "generic"@) && m.next_invoice_number >= 1 && m.next_bill_number >= 1
            && m.next_check_number >= 1),
{
}

/// An account update replaces exactly the fields it gives and keeps the others;
/// asking to clear the parent removes it whatever parent is given, and otherwise
/// a given parent replaces the stored one.
pub proof fn law_account_update_replaces_given_fields(c: AccountRecord, u: AccountUpdateInput)
    ensures
        u.code matches Some(v) ==> merged_account(c, u).code == v,
        u.code is None ==> merged_account(c, u).code == c.code,
        u.name matches Some(v) ==> merged_account(c, u).name == v,
        u.name is None ==> merged_account(c, u).name == c.name,
        u.account_type matches Some(v) ==> merged_account(c, u).account_type == v,
        u.account_type is None ==> merged_account(c, u).account_type == c.account_type,
        u.is_bank_cash matches Some(v) ==> merged_account(c, u).is_bank_cash == v,
        u.is_bank_cash is None ==> merged_account(c, u).is_bank_cash == c.is_bank_cash,
        u.is_active matches Some(v) ==> merged_account(c, u).is_active == v,
        u.is_active is None ==> merged_account(c, u).is_active == c.is_active,
        u.sort_order matches Some(v) ==> merged_account(c, u).sort_order == v,
        u.sort_order is None ==> merged_account(c, u).sort_order == c.sort_order,
        u.clear_parent ==> merged_account(c, u).parent_id is None,
        !u.clear_parent && u.parent_id is Some ==> merged_account(c, u).parent_id == u.parent_id,
        !u.clear_parent && u.parent_id is None ==> merged_account(c, u).parent_id == c.parent_id,
{
}

} // verus!

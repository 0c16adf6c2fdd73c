use kwikbooks::ledger::journal_limit;
use kwikbooks::accounts::{account_exists, account_id_by_code, active_account_of_type, active_bank_cash_asset};
use kwikbooks::allow_sale_without_inventory_check;
use kwikbooks::documents::{
    assign_check_number, bill_total, default_payment_method, default_terms, invoice_totals,
    trimmed_non_empty, vendor_payment_method, BillLineInput, VendorPaymentCreateInput,
};
use kwikbooks::error::DbCommandError;
use kwikbooks::ledger::AccountInfo;
use kwikbooks::maintenance::{check_backup_tables, check_restore, current_version, pending_migrations};
use kwikbooks::reports::require_date_range;
use kwikbooks::search::{append_hits, plan_search, sql_like_contains, SearchHit};
use kwikbooks::settings::{
    account_list_sql, AccountFilter, account_update, company_update, require_rows, valid_check_style, AccountRecord,
    AccountUpdateInput, CompanySettings, CompanyUpdateInput,
};

fn seeded_company() -> CompanySettings {
    CompanySettings {
        name: "My Company".to_string(),
        legal_name: None,
        fiscal_year_start_month: 1,
        base_currency_code: "USD".to_string(),
        next_invoice_number: 1,
        next_bill_number: 1,
        address_line1: None,
        address_line2: None,
        city: None,
        region: None,
        postal_code: None,
        next_check_number: 1,
        default_check_style: "voucher_top".to_string(),
    }
}

fn empty_company_update() -> CompanyUpdateInput {
    CompanyUpdateInput {
        name: None,
        legal_name: None,
        fiscal_year_start_month: None,
        base_currency_code: None,
        next_invoice_number: None,
        next_bill_number: None,
        address_line1: None,
        address_line2: None,
        city: None,
        region: None,
        postal_code: None,
        next_check_number: None,
        default_check_style: None,
    }
}

fn validation(r: Result<impl std::fmt::Debug, DbCommandError>) -> String {
    match r {
        Err(DbCommandError::Validation { message }) => message,
        other => panic!("expected validation, got {other:?}"),
    }
}

#[test]
fn company_update_impl_persists_partial_fields() {
    let input = CompanyUpdateInput {
        name: Some("Acme Books".into()),
        legal_name: Some("Acme LLC".into()),
        fiscal_year_start_month: Some(4),
        base_currency_code: None,
        next_invoice_number: Some(2000),
        next_bill_number: None,
        address_line1: Some("123 Main".into()),
        address_line2: None,
        city: Some("Portland".into()),
        region: Some("OR".into()),
        postal_code: Some("97201".into()),
        next_check_number: Some(4000),
        default_check_style: Some("voucher_middle".into()),
    };
    let row = company_update(Some(seeded_company()), input).expect("update");
    assert_eq!(row.name, "Acme Books");
    assert_eq!(row.legal_name.as_deref(), Some("Acme LLC"));
    assert_eq!(row.fiscal_year_start_month, 4);
    assert_eq!(row.next_invoice_number, 2000);
    assert_eq!(row.base_currency_code, "USD");
    assert_eq!(row.address_line1.as_deref(), Some("123 Main"));
    assert_eq!(row.city.as_deref(), Some("Portland"));
    assert_eq!(row.region.as_deref(), Some("OR"));
    assert_eq!(row.postal_code.as_deref(), Some("97201"));
    assert_eq!(row.next_check_number, 4000);
    assert_eq!(row.default_check_style, "voucher_middle");
}

#[test]
fn company_update_impl_rejects_invalid_fiscal_month() {
    let mut input = empty_company_update();
    input.fiscal_year_start_month = Some(13);
    let message = validation(company_update(Some(seeded_company()), input));
    assert!(message.contains("fiscal year"));
}

#[test]
fn company_update_checks_style_and_counters() {
    let mut input = empty_company_update();
    input.default_check_style = Some("fancy".into());
    assert_eq!(
        validation(company_update(Some(seeded_company()), input)),
        "defaultCheckStyle must be voucher_top, voucher_middle, voucher_bottom, or generic"
    );
    let mut input = empty_company_update();
    input.next_bill_number = Some(0);
    assert_eq!(
        validation(company_update(Some(seeded_company()), input)),
        "next invoice and bill numbers must be at least 1"
    );
    let mut input = empty_company_update();
    input.next_check_number = Some(0);
    assert_eq!(validation(company_update(Some(seeded_company()), input)), "nextCheckNumber must be at least 1");
    assert!(matches!(
        company_update(None, empty_company_update()),
        Err(DbCommandError::NotFound { id: 1, .. })
    ));
    let same = company_update(Some(seeded_company()), empty_company_update()).expect("no change");
    assert_eq!(same.name, "My Company");
    assert_eq!(same.default_check_style, "voucher_top");
    assert!(valid_check_style("generic"));
    assert!(!valid_check_style("Generic"));
}

fn rent_account() -> AccountRecord {
    AccountRecord {
        code: "6100".to_string(),
        name: "Rent".to_string(),
        account_type: "expense".to_string(),
        parent_id: Some(10),
        is_bank_cash: false,
        is_active: true,
        sort_order: 10,
    }
}

#[test]
fn account_create_get_update_and_deactivate_round_trip() {
    let update = AccountUpdateInput {
        id: 7,
        code: None,
        name: Some("Office rent".to_string()),
        account_type: None,
        clear_parent: false,
        parent_id: None,
        is_bank_cash: None,
        is_active: None,
        sort_order: None,
    };
    let got = account_update(Some(rent_account()), update).expect("update");
    assert_eq!(got.code, "6100");
    assert_eq!(got.name, "Office rent");
    assert!(got.is_active);
    assert_eq!(got.parent_id, Some(10));
    let deactivate = AccountUpdateInput {
        id: 7,
        code: None,
        name: None,
        account_type: None,
        clear_parent: true,
        parent_id: Some(3),
        is_bank_cash: None,
        is_active: Some(false),
        sort_order: None,
    };
    let off = account_update(Some(got), deactivate).expect("deactivate");
    assert!(!off.is_active);
    assert_eq!(off.parent_id, None);
}

#[test]
fn account_get_impl_maps_missing_account_to_not_found() {
    let update = AccountUpdateInput {
        id: 9999,
        code: None,
        name: None,
        account_type: None,
        clear_parent: false,
        parent_id: None,
        is_bank_cash: None,
        is_active: None,
        sort_order: None,
    };
    match account_update(None, update) {
        Err(DbCommandError::NotFound { entity, id }) => {
            assert_eq!(entity, "account");
            assert_eq!(id, 9999);
        }
        other => panic!("expected not_found error, got {other:?}"),
    }
    match require_rows("account", 9999, 0) {
        Err(DbCommandError::NotFound { entity, id }) => {
            assert_eq!(entity, "account");
            assert_eq!(id, 9999);
        }
        other => panic!("expected not_found error, got {other:?}"),
    }
    assert_eq!(require_rows("account", 1, 2).expect("rows").rows_affected, 2);
}

fn info(id: i64, code: &str, account_type: &str, bank: bool, active: bool) -> AccountInfo {
    AccountInfo {
        id,
        code: code.to_string(),
        name: code.to_string(),
        account_type: account_type.to_string(),
        is_bank_cash: bank,
        is_active: active,
    }
}

#[test]
fn account_lookups_follow_the_chart() {
    let chart = vec![
        info(1, "1000", "asset", true, true),
        info(2, "1010", "asset", true, false),
        info(3, "4000", "income", false, true),
        info(4, "1020", "liability", true, true),
    ];
    assert_eq!(account_id_by_code(&chart, "4000").expect("found"), 3);
    match account_id_by_code(&chart, "9999") {
        Err(DbCommandError::Invariant { message }) => {
            assert_eq!(message, "missing account code 9999 for company 1")
        }
        other => panic!("expected invariant error, got {other:?}"),
    }
    assert!(account_exists(&chart, 1));
    assert!(!account_exists(&chart, 2));
    assert!(!account_exists(&chart, 5));
    assert!(active_account_of_type(&chart, 3, "income"));
    assert!(!active_account_of_type(&chart, 2, "asset"));
    assert!(active_bank_cash_asset(&chart, 1));
    assert!(!active_bank_cash_asset(&chart, 2));
    assert!(!active_bank_cash_asset(&chart, 3));
    assert!(!active_bank_cash_asset(&chart, 4));
}

#[test]
fn customer_create_defaults_terms_days_to_30() {
    assert_eq!(default_terms(), 30);
}

#[test]
fn vendor_payment_create_input_defaults_method_to_other() {
    assert_eq!(default_payment_method(), "other");
}

fn vendor_payment(method: &str, amount: i64) -> VendorPaymentCreateInput {
    VendorPaymentCreateInput {
        vendor_id: 1,
        bank_account_id: 1,
        payment_date: "2026-06-01".to_string(),
        amount_minor: amount,
        memo: None,
        bill_id: None,
        payment_method: method.to_string(),
        check_number: None,
        payee_name: None,
    }
}

#[test]
fn vendor_payment_method_is_checked() {
    assert_eq!(vendor_payment_method(&vendor_payment(" Check ", 500)).expect("check"), "check");
    assert_eq!(
        validation(vendor_payment_method(&vendor_payment("wire", 500))),
        "paymentMethod must be check or other"
    );
    assert_eq!(
        validation(vendor_payment_method(&vendor_payment("other", 0))),
        "amount must be greater than zero"
    );
}

#[test]
fn check_payment_advances_next_check_number_when_using_sequence() {
    let seq = assign_check_number(&None, 500);
    assert_eq!(seq.number, "500");
    assert_eq!(seq.advance_to, Some(501));
    let typed = assign_check_number(&Some(" 500 ".to_string()), 500);
    assert_eq!(typed.number, "500");
    assert_eq!(typed.advance_to, Some(501));
    let other = assign_check_number(&Some("A-17".to_string()), 500);
    assert_eq!(other.number, "A-17");
    assert_eq!(other.advance_to, None);
    let blank = assign_check_number(&Some("   ".to_string()), 42);
    assert_eq!(blank.number, "42");
    assert_eq!(blank.advance_to, Some(43));
}

#[test]
fn document_totals_add_up() {
    let lines = vec![
        BillLineInput { description: "a".into(), amount_minor: 700, expense_account_id: 6 },
        BillLineInput { description: "b".into(), amount_minor: 200, expense_account_id: 6 },
    ];
    assert_eq!(bill_total(&lines), 900);
    assert_eq!(invoice_totals(&[5000, 125], 400), (5125, 5525));
    assert_eq!(invoice_totals(&[i64::MAX, 1], 0), (i64::MAX, i64::MAX));
    assert_eq!(trimmed_non_empty(&Some("  x ".to_string())), Some("x".to_string()));
    assert_eq!(trimmed_non_empty(&Some("  ".to_string())), None);
    assert!(allow_sale_without_inventory_check(Some(3)));
}

#[test]
fn run_migrations_twice_is_idempotent() {
    let known = [1, 2, 3, 4];
    let first = pending_migrations(&known, &[]);
    assert_eq!(first, vec![1, 2, 3, 4]);
    assert_eq!(current_version(&first), 4);
    assert!(pending_migrations(&known, &first).is_empty());
    assert_eq!(pending_migrations(&known, &[1, 3]), vec![2, 4]);
    assert_eq!(current_version(&[]), 0);
}

#[test]
fn validate_rejects_non_kwikbooks_sqlite() {
    assert_eq!(validation(check_backup_tables(0)), "backup is missing Kwikbooks core tables");
    assert!(check_backup_tables(3).is_ok());
}

#[test]
fn restore_rejects_same_path_source_and_destination() {
    assert_eq!(
        validation(check_restore(4, true)),
        "backup path must differ from the live database file"
    );
    assert_eq!(validation(check_restore(0, false)), "backup has no migration history");
    assert!(check_restore(4, false).is_ok());
}

#[test]
fn search_plans_escape_and_clamp() {
    assert_eq!(sql_like_contains("50%_a\\b"), "%50\\%\\_a\\\\b%");
    let p = plan_search("  Sales ", None).expect("plan");
    assert_eq!(p.query, "Sales");
    assert_eq!(p.pattern.as_deref(), Some("%Sales%"));
    assert_eq!(p.limit_per_category, 12);
    assert_eq!(plan_search("x", Some(500)).expect("plan").limit_per_category, 40);
    assert_eq!(plan_search("x", Some(-3)).expect("plan").limit_per_category, 1);
    assert_eq!(plan_search("   ", Some(5)).expect("plan").pattern, None);
    let long = "y".repeat(201);
    assert_eq!(validation(plan_search(&long, None)), "Search query is too long (max 200 characters).");
}

fn hit(id: i64) -> SearchHit {
    SearchHit { kind: "account".into(), id, title: format!("t{id}"), subtitle: None, path: "/accounts".into() }
}

#[test]
fn search_hits_stop_at_the_cap() {
    let mut hits: Vec<SearchHit> = (0..195).map(hit).collect();
    append_hits(&mut hits, (1000..1010).map(hit).collect());
    assert_eq!(hits.len(), 200);
    assert_eq!(hits[199].id, 1004);
    append_hits(&mut hits, vec![hit(5)]);
    assert_eq!(hits.len(), 200);
}

#[test]
fn trial_balance_dates_are_checked_in_order() {
    assert_eq!(validation(require_date_range("bad", "also bad")), "from date must be a valid date (YYYY-MM-DD)");
    assert_eq!(validation(require_date_range("2026-01-01", "bad")), "to date must be a valid date (YYYY-MM-DD)");
    assert_eq!(
        validation(require_date_range("2026-02-01", "2026-01-01")),
        "from date must be on or before to date"
    );
    assert!(require_date_range("2026-01-01", "2026-01-01").is_ok());
}

#[test]
fn list_journals_impl_defaults_limit_to_500() {
    assert_eq!(journal_limit(None), 500);
    assert_eq!(journal_limit(Some(0)), 1);
    assert_eq!(journal_limit(Some(9999)), 2000);
    assert_eq!(journal_limit(Some(25)), 25);
}

#[test]
fn account_list_query_follows_the_filter() {
    let base = "SELECT id, company_id, code, name, account_type, parent_id, is_bank_cash, is_active, sort_order FROM account WHERE company_id = ?";
    let all = AccountFilter { account_type: None, active_only: None, search: None };
    assert_eq!(account_list_sql(&all), format!("{base} ORDER BY sort_order, code"));
    let some = AccountFilter { account_type: Some("income".into()), active_only: Some(true), search: Some("Sal".into()) };
    assert_eq!(
        account_list_sql(&some),
        format!("{base} AND is_active = 1 AND account_type = ? AND (code LIKE '%' || ? || '%' OR name LIKE '%' || ? || '%') ORDER BY sort_order, code")
    );
    let inactive_too = AccountFilter { account_type: None, active_only: Some(false), search: None };
    assert_eq!(account_list_sql(&inactive_too), format!("{base} ORDER BY sort_order, code"));
}

use kwikbooks::import::bytes::decode_import_bytes;
use kwikbooks::error::DbCommandError;
use kwikbooks::import::iif::{map_qb_accnt_type, parse_iif, parse_money_minor, slug_code_of};
use kwikbooks::import::plan::{plan_import, ExistingLists, ImportPlan};
use kwikbooks::import::qb_csv::{map_csv_account_type, parse_csv, sniff_delimiter};
use kwikbooks::import::read_import;

fn chars(s: &str) -> Vec<char> {
    s.chars().collect()
}

/// The lists of a freshly created company: the seeded chart of accounts only.
fn seeded_lists() -> ExistingLists {
    ExistingLists {
        max_sort_order: 60,
        account_codes: ["1000", "1100", "2000", "2100", "4000", "5000"]
            .iter()
            .map(|s| s.to_string())
            .collect(),
        customer_names: vec![],
        vendor_names: vec![],
        item_names: vec![],
        income_accounts: vec![("sales".to_string(), 5)],
    }
}

fn run_import(content: &str, hint: &str) -> Result<ImportPlan, DbCommandError> {
    let parsed = read_import(content, hint)?;
    Ok(plan_import(&parsed, &seeded_lists()))
}

#[test]
fn parse_iif_accnt_and_invitem() {
    let s = "!ACCNT\tNAME\tACCNTTYPE\tACCNUM\nACCNT\tChecking\tBANK\t101\n!INVITEM\tNAME\tPRICE\tACCNT\nINVITEM\tWidget\t12.50\tSales\n";
    let (b, _, _) = parse_iif(s).expect("parse");
    assert_eq!(b.accounts.len(), 1);
    assert_eq!(b.accounts[0].code, "101");
    assert_eq!(b.accounts[0].account_type, "asset");
    assert!(b.accounts[0].is_bank_cash);
    assert_eq!(b.items.len(), 1);
    assert_eq!(b.items[0].unit_price_minor, 1250);
}

#[test]
fn parse_iif_contacts_and_unknown_sections() {
    let s = "TRNS\t1/1/2026\n!CUST\tNAME\tEMAIL\tPHONE1\nCUST\tAcme Co\tx@y.com\t555\n!VEND\tNAME\nVEND\tSupplies Inc\n!TRNS\tDATE\nTRNS\t1/2/2026\n";
    let (b, skipped, warnings) = parse_iif(s).expect("parse");
    assert_eq!(b.customers.len(), 1);
    assert_eq!(b.customers[0].display_name, "Acme Co");
    assert_eq!(b.customers[0].email.as_deref(), Some("x@y.com"));
    assert_eq!(b.vendors.len(), 1);
    assert_eq!(b.vendors[0].display_name, "Supplies Inc");
    assert_eq!(skipped, 1);
    assert_eq!(warnings, vec!["1 row(s) skipped (unsupported sections or malformed lines).".to_string()]);
}

#[test]
fn parse_money_minor_reads_dollars_and_cents() {
    assert_eq!(parse_money_minor(&chars("12.50")), Some(1250));
    assert_eq!(parse_money_minor(&chars("$1,234.5")), Some(123450));
    assert_eq!(parse_money_minor(&chars("-3")), Some(-300));
    assert_eq!(parse_money_minor(&chars("")), None);
    assert_eq!(parse_money_minor(&chars("abc")), None);
}

#[test]
fn account_type_mappings() {
    assert_eq!(map_qb_accnt_type(&chars("BANK")), ("asset", true));
    assert_eq!(map_qb_accnt_type(&chars("CREDITCARD")), ("liability", false));
    assert_eq!(map_qb_accnt_type(&chars("CCARD")), ("expense", false));
    assert_eq!(map_qb_accnt_type(&chars("INC")), ("income", false));
    assert_eq!(map_qb_accnt_type(&chars("EXP")), ("expense", false));
    assert_eq!(map_csv_account_type(&chars("Credit Card")), ("liability", false));
    assert_eq!(map_csv_account_type(&chars("Bank")), ("asset", true));
}

#[test]
fn slug_code_keeps_alphanumerics() {
    assert_eq!(slug_code_of(&chars("Office Supplies")), "QB-OfficeSupplies");
    assert_eq!(slug_code_of(&chars("!!")), "QB-QB");
}

#[test]
fn sniff_delimiter_prefers_tabs() {
    assert_eq!(sniff_delimiter("a\tb\tc,d\n"), b'\t');
    assert_eq!(sniff_delimiter("a\tb,c\n"), b',');
    assert_eq!(sniff_delimiter("a,b\n"), b',');
}

#[test]
fn parse_customer_csv_comma_delimited() {
    let csv = "Customer Name,Email,Phone\nAcme Corp,acme@test.com,555-0100\n";
    let (batch, skipped, warnings) = parse_csv(csv).unwrap();
    assert_eq!(skipped, 0);
    assert!(warnings.is_empty());
    assert_eq!(batch.customers.len(), 1);
    assert_eq!(batch.customers[0].display_name, "Acme Corp");
    assert_eq!(batch.customers[0].email.as_deref(), Some("acme@test.com"));
}

#[test]
fn parse_vendor_csv_tab_delimited() {
    let csv = "Vendor\tCompany Name\nOffice Mart\tOffice Mart LLC\n";
    let (batch, skipped, _) = parse_csv(csv).unwrap();
    assert_eq!(skipped, 0);
    assert_eq!(batch.vendors.len(), 1);
    assert_eq!(batch.vendors[0].display_name, "Office Mart");
}

#[test]
fn parse_account_csv_maps_type() {
    let csv = "Account Number,Account Name,Account Type\n1000,Cash,Bank\n6000,Utilities,Expense\n";
    let (batch, skipped, _) = parse_csv(csv).unwrap();
    assert_eq!(skipped, 0);
    assert_eq!(batch.accounts.len(), 2);
    assert_eq!(batch.accounts[0].code, "1000");
    assert!(batch.accounts[0].is_bank_cash);
    assert_eq!(batch.accounts[1].account_type, "expense");
}

#[test]
fn parse_credit_card_account_is_liability_not_bank_cash() {
    let csv = "Account Number,Account Name,Account Type\n2100,Visa,Credit Card\n";
    let (batch, skipped, _) = parse_csv(csv).unwrap();
    assert_eq!(skipped, 0);
    assert_eq!(batch.accounts.len(), 1);
    assert_eq!(batch.accounts[0].account_type, "liability");
    assert!(!batch.accounts[0].is_bank_cash);
}

#[test]
fn parse_csv_rejects_empty_headers() {
    assert!(parse_csv("\n").is_err());
}

#[test]
fn run_import_iif_minimal() {
    let iif = "!ACCNT\tNAME\tACCNTTYPE\tDESC\tACCNUM\nACCNT\tImport Test Income\tINC\t\t4100\n!CUST\tNAME\tEMAIL\nCUST\tAcme Co\tx@y.com\n";
    let s = run_import(iif, "test.iif").expect("import");
    assert_eq!(s.summary.format_detected, "iif");
    assert_eq!(s.summary.accounts_created, 1);
    assert_eq!(s.summary.customers_created, 1);
    assert_eq!(s.accounts[0].code, "4100");
    assert_eq!(s.accounts[0].sort_order, 61);
}

#[test]
fn run_import_csv_customers() {
    let csv = "Customer,Email,Phone\nBeta LLC,b@x.com,555\n";
    let s = run_import(csv, "cust.csv").expect("import");
    assert_eq!(s.summary.format_detected, "csv");
    assert_eq!(s.summary.customers_created, 1);
}

#[test]
fn import_skips_duplicates_with_warnings() {
    let iif = "!ACCNT\tNAME\tACCNTTYPE\tACCNUM\nACCNT\tSales\tINC\t4000\n!CUST\tNAME\nCUST\tAcme\nCUST\t acme \n!INVITEM\tNAME\tPRICE\tACCNT\nINVITEM\tWidget\t5\tsales\nINVITEM\tGadget\t7\tMissing\n";
    let s = run_import(iif, "x.iif").expect("import");
    assert_eq!(s.summary.accounts_created, 0);
    assert_eq!(s.summary.customers_created, 1);
    assert_eq!(s.summary.items_created, 2);
    assert_eq!(s.summary.rows_skipped, 2);
    assert_eq!(s.items[0].income_account_id, Some(5));
    assert_eq!(s.items[0].unit_price_minor, 500);
    assert_eq!(s.items[1].income_account_id, None);
    assert!(s.summary.warnings.contains(&"Skipped duplicate account code \"4000\".".to_string()));
    assert!(s.summary.warnings.contains(&"Skipped duplicate customer \"acme\".".to_string()));
    assert!(s
        .summary
        .warnings
        .contains(&"Item \"Gadget\": income account \"Missing\" not found (or not an income account); left unset.".to_string()));
}

#[test]
fn import_rejects_bank_downloads_and_unknown_files() {
    match read_import("OFXHEADER:100\n<OFX>", "bank.txt") {
        Err(DbCommandError::Validation { message }) => assert!(message.starts_with("OFX/QFX")),
        other => panic!("expected validation error, got {other:?}"),
    }
    match read_import("just some words", "notes") {
        Err(DbCommandError::Validation { message }) => {
            assert_eq!(message, "Could not detect a supported QuickBooks export (try .iif or .csv).")
        }
        other => panic!("expected validation error, got {other:?}"),
    }
    match read_import("!TRNS\tDATE\nTRNS\t1/1/2026\n", "x.iif") {
        Err(DbCommandError::Validation { message }) => {
            assert_eq!(message, "No importable rows found (accounts, customers, vendors, or items).")
        }
        other => panic!("expected validation error, got {other:?}"),
    }
}

#[test]
fn import_bytes_decode_utf16_and_utf8() {
    let utf16: Vec<u8> = vec![0xFF, 0xFE, b'!', 0, b'A', 0, 0xAC, 0x20];
    assert_eq!(decode_import_bytes(&utf16).expect("utf16"), "!A\u{20ac}");
    assert_eq!(
        validation(decode_import_bytes(&[0xFF, 0xFE, b'a'])),
        "UTF-16 file has odd byte length after BOM."
    );
    assert_eq!(decode_import_bytes("héllo".as_bytes()).expect("utf8"), "héllo");
    let msg = validation(decode_import_bytes(&[b'a', 0xFF, 0x00]));
    assert!(msg.starts_with("File is not valid UTF-8 (try re-exporting as UTF-8 CSV/IIF): "));
    assert!(msg.len() > "File is not valid UTF-8 (try re-exporting as UTF-8 CSV/IIF): ".len());
}

fn validation(r: Result<String, DbCommandError>) -> String {
    match r {
        Err(DbCommandError::Validation { message }) => message,
        other => panic!("expected validation error, got {other:?}"),
    }
}

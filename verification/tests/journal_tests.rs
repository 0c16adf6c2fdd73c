use kwikbooks::error::DbCommandError;
use kwikbooks::journal::{validate_balance, DraftJournalLine};

fn line(account_id: i64, line_number: i32, debit_minor: i64, credit_minor: i64) -> DraftJournalLine {
    DraftJournalLine { account_id, line_number, description: None, debit_minor, credit_minor }
}

#[test]
fn validate_balance_ok() {
    let lines = vec![line(1, 1, 100, 0), line(2, 2, 0, 100)];
    assert!(validate_balance(&lines).is_ok());
}

#[test]
fn validate_balance_rejects_mismatch() {
    let lines = vec![line(1, 1, 100, 0), line(2, 2, 0, 99)];
    assert!(validate_balance(&lines).is_err());
}

#[test]
fn validate_balance_rejects_both_debit_and_credit() {
    let lines = vec![line(1, 1, 10, 10)];
    assert!(validate_balance(&lines).is_err());
}

#[test]
fn validate_balance_rejects_negative_debit() {
    let lines = vec![line(1, 1, -1, 0), line(2, 2, 0, 1)];
    assert!(validate_balance(&lines).is_err());
}

#[test]
fn validate_balance_rejects_zero_line() {
    let lines = vec![line(1, 1, 0, 0)];
    assert!(validate_balance(&lines).is_err());
}

#[test]
fn validate_balance_reports_totals_when_unbalanced() {
    let lines = vec![line(1, 1, 100, 0), line(2, 2, 0, 99)];
    match validate_balance(&lines) {
        Err(DbCommandError::Invariant { message }) => {
            assert_eq!(message, "journal not balanced: debits 100 credits 99")
        }
        other => panic!("expected invariant error, got {other:?}"),
    }
}

#[test]
fn validate_balance_names_the_first_faulty_line() {
    let lines = vec![line(1, 1, 5, 5), line(2, 2, -1, 0)];
    match validate_balance(&lines) {
        Err(DbCommandError::Validation { message }) => {
            assert_eq!(message, "a journal line cannot have both debit and credit")
        }
        other => panic!("expected validation error, got {other:?}"),
    }
}

#[test]
fn error_display_and_code_texts() {
    let e = DbCommandError::NotFound { entity: "invoice".to_owned(), id: 9 };
    assert_eq!(e.to_display_string(), "invoice 9 not found");
    assert_eq!(e.code(), "not_found");
    let m = DbCommandError::Migration { version: 3, message: "boom".to_owned() };
    assert_eq!(m.to_display_string(), "migration 3: boom");
    assert_eq!(m.code(), "migration");
}

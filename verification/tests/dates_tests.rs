use kwikbooks::dates::require_iso_date;
use kwikbooks::error::DbCommandError;

#[test]
fn accepts_valid_iso_dates() {
    require_iso_date("d", "2026-01-05").unwrap();
    require_iso_date("d", "2024-02-29").unwrap();
}

#[test]
fn rejects_unpadded_and_invalid() {
    assert!(require_iso_date("d", "2026-1-5").is_err());
    assert!(require_iso_date("d", "2025-02-29").is_err());
    assert!(require_iso_date("d", "not-a-date").is_err());
}

#[test]
fn invalid_date_message_names_the_field() {
    match require_iso_date("issue date", "2026-13-01") {
        Err(DbCommandError::Validation { message }) => {
            assert_eq!(message, "issue date must be a valid date (YYYY-MM-DD)")
        }
        other => panic!("expected validation error, got {other:?}"),
    }
    assert!(require_iso_date("d", "2100-02-29").is_err());
    assert!(require_iso_date("d", "2000-02-29").is_ok());
}

#[test]
fn rejects_signed_date_fields() {
    assert!(require_iso_date("d", "2026-+1-05").is_err());
    assert!(require_iso_date("d", "+026-01-05").is_err());
    assert!(require_iso_date("d", "-026-01-05").is_err());
    assert!(require_iso_date("d", "2026-01-+5").is_err());
    assert!(require_iso_date("d", " 2026-01-05 ").is_ok());
}

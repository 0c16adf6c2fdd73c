//! The error type every command of the application reports.
use vstd::prelude::*;

use crate::num::{dec_int, fmt_i64};
use crate::text::{chars_of, concat, string_of};

verus! {

/// Error returned by database-backed commands, tagged by kind.
#[derive(Debug)]
pub enum DbCommandError {
    PathResolution { message: String },
    DatabaseOpen { message: String },
    Migration { version: i32, message: String },
    Sql { message: String },
    Validation { message: String },
    Invariant { message: String },
    Conflict { message: String },
    NotFound { entity: String, id: i64 },
}

/// The content of an error, as plain values.
pub enum ErrorView {
    PathResolution(Seq<char>),
    DatabaseOpen(Seq<char>),
    Migration(i32, Seq<char>),
    Sql(Seq<char>),
    Validation(Seq<char>),
    Invariant(Seq<char>),
    Conflict(Seq<char>),
    NotFound(Seq<char>, i64),
}

impl View for DbCommandError {
    type V = ErrorView;

    open spec fn view(&self) -> ErrorView {
        match self {
            DbCommandError::PathResolution { message } => ErrorView::PathResolution(message@),
            DbCommandError::DatabaseOpen { message } => ErrorView::DatabaseOpen(message@),
            DbCommandError::Migration { version, message } => ErrorView::Migration(
                *version,
                message@,
            ),
            DbCommandError::Sql { message } => ErrorView::Sql(message@),
            DbCommandError::Validation { message } => ErrorView::Validation(message@),
            DbCommandError::Invariant { message } => ErrorView::Invariant(message@),
            DbCommandError::Conflict { message } => ErrorView::Conflict(message@),
            DbCommandError::NotFound { entity, id } => ErrorView::NotFound(entity@, *id),
        }
    }
}

impl DbCommandError {
    /// The human-readable text of the error (what it displays as).
    pub open spec fn display_text(&self) -> Seq<char> {
        match self {
            DbCommandError::PathResolution { message } => message@,
            DbCommandError::DatabaseOpen { message } => message@,
            DbCommandError::Sql { message } => message@,
            DbCommandError::Validation { message } => message@,
            DbCommandError::Invariant { message } => message@,
            DbCommandError::Conflict { message } => message@,
            DbCommandError::Migration { version, message } => "migration "@ + dec_int(
                *version as int,
            ) + ": "@ + message@,
            DbCommandError::NotFound { entity, id } => entity@ + " "@ + dec_int(*id as int)
                + " not found"@,
        }
    }

    /// The snake-case tag of the error kind (`validation`, `not_found`, ...).
    pub open spec fn code_text(&self) -> Seq<char> {
        match self {
            DbCommandError::PathResolution { .. } => "path_resolution"@,
            DbCommandError::DatabaseOpen { .. } => "database_open"@,
            DbCommandError::Migration { .. } => "migration"@,
            DbCommandError::Sql { .. } => "sql"@,
            DbCommandError::Validation { .. } => "validation"@,
            DbCommandError::Invariant { .. } => "invariant"@,
            DbCommandError::Conflict { .. } => "conflict"@,
            DbCommandError::NotFound { .. } => "not_found"@,
        }
    }

    /// The text of the error: the message, `migration V: message`, or `entity ID not found`.
    pub fn to_display_string(&self) -> (r: String)
        ensures
            r@ == self.display_text(),
    {
        match self {
            DbCommandError::PathResolution { message } => message.clone(),
            DbCommandError::DatabaseOpen { message } => message.clone(),
            DbCommandError::Sql { message } => message.clone(),
            DbCommandError::Validation { message } => message.clone(),
            DbCommandError::Invariant { message } => message.clone(),
            DbCommandError::Conflict { message } => message.clone(),
            DbCommandError::Migration { version, message } => {
                let a = chars_of("migration ");
                let b = fmt_i64(*version as i64);
                let c = chars_of(": ");
                let d = chars_of(message.as_str());
                let ab = concat(&a, &b);
                let abc = concat(&ab, &c);
                let all = concat(&abc, &d);
                string_of(&all)
            },
            DbCommandError::NotFound { entity, id } => {
                let a = chars_of(entity.as_str());
                let b = chars_of(" ");
                let c = fmt_i64(*id);
                let d = chars_of(" not found");
                let ab = concat(&a, &b);
                let abc = concat(&ab, &c);
                let all = concat(&abc, &d);
                string_of(&all)
            },
        }
    }

    /// The snake-case tag of the error kind.
    pub fn code(&self) -> (r: &'static str)
        ensures
            r@ == self.code_text(),
    {
        match self {
            DbCommandError::PathResolution { .. } => "path_resolution",
            DbCommandError::DatabaseOpen { .. } => "database_open",
            DbCommandError::Migration { .. } => "migration",
            DbCommandError::Sql { .. } => "sql",
            DbCommandError::Validation { .. } => "validation",
            DbCommandError::Invariant { .. } => "invariant",
            DbCommandError::Conflict { .. } => "conflict",
            DbCommandError::NotFound { .. } => "not_found",
        }
    }
}

/// A validation error carrying `message`.
pub fn validation_error(message: &str) -> (e: DbCommandError)
    ensures
        e matches DbCommandError::Validation { message: m } && m@ == message@,
{
    DbCommandError::Validation { message: message.to_owned() }
}

/// An invariant error carrying `message`.
pub fn invariant_error(message: &str) -> (e: DbCommandError)
    ensures
        e matches DbCommandError::Invariant { message: m } && m@ == message@,
{
    DbCommandError::Invariant { message: message.to_owned() }
}

/// A conflict error carrying `message`.
pub fn conflict_error(message: &str) -> (e: DbCommandError)
    ensures
        e matches DbCommandError::Conflict { message: m } && m@ == message@,
{
    DbCommandError::Conflict { message: message.to_owned() }
}

/// A not-found error for `entity` number `id`.
pub fn not_found_error(entity: &str, id: i64) -> (e: DbCommandError)
    ensures
        e matches DbCommandError::NotFound { entity: en, id: i } && en@ == entity@ && i == id,
{
    DbCommandError::NotFound { entity: entity.to_owned(), id }
}

} // verus!

//! Verified core of a small double-entry bookkeeping application: journal
//! validation, posting plans, document lifecycles, financial reports, and the
//! parsers behind list import.
use vstd::prelude::*;

pub mod accounts;
pub mod balances;
pub mod dates;
pub mod documents;
pub mod error;
pub mod import;
pub mod ipc;
pub mod journal;
pub mod ledger;
pub mod lifecycle;
pub mod log_view;
pub mod logs;
pub mod maintenance;
pub mod num;
pub mod open_totals;
pub mod posting;
pub mod reports;
pub mod search;
pub mod settings;
pub mod support;
pub mod text;

verus! {

/// Whether selling an item may skip the quantity-on-hand check (always true: stock is not tracked).
pub fn allow_sale_without_inventory_check(item_id: Option<i64>) -> (r: bool)
    ensures
        r,
{
    true
}

} // verus!

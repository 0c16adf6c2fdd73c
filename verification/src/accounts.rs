//! Lookups in the chart of accounts that posting relies on.
use vstd::prelude::*;

use crate::error::DbCommandError;
use crate::ledger::AccountInfo;
use crate::text::{chars_of, concat, str_eq, string_of};

verus! {

/// The single company whose books this application keeps.
pub const COMPANY_ID: i64 = 1;

/// Index `i` holds the first account whose code is `code`.
pub open spec fn first_with_code(accounts: Seq<AccountInfo>, code: Seq<char>, i: int) -> bool {
    &&& 0 <= i < accounts.len()
    &&& accounts[i].code@ == code
    &&& forall|j: int| 0 <= j < i ==> accounts[j].code@ != code
}

/// Some account has code `code`.
pub open spec fn has_code(accounts: Seq<AccountInfo>, code: Seq<char>) -> bool {
    exists|i: int| 0 <= i < accounts.len() && accounts[i].code@ == code
}

/// The id of the first account whose code is `code`.
pub open spec fn id_of_code(accounts: Seq<AccountInfo>, code: Seq<char>) -> i64 {
    accounts[choose|i: int| first_with_code(accounts, code, i)].id
}

/// The message for a code that the chart lacks.
pub open spec fn missing_code_text(code: Seq<char>) -> Seq<char> {
    "missing account code "@ + code + " for company 1"@
}

/// An active account has id `id`.
pub open spec fn is_active_account(accounts: Seq<AccountInfo>, id: i64) -> bool {
    exists|i: int| 0 <= i < accounts.len() && accounts[i].id == id && accounts[i].is_active
}

/// An active account of type `t` has id `id`.
pub open spec fn is_active_of_type(accounts: Seq<AccountInfo>, id: i64, t: Seq<char>) -> bool {
    exists|i: int|
        0 <= i < accounts.len() && accounts[i].id == id && accounts[i].is_active
            && accounts[i].account_type@ == t
}

/// An active bank or cash asset account has id `id`.
pub open spec fn is_active_bank_cash(accounts: Seq<AccountInfo>, id: i64) -> bool {
    exists|i: int|
        0 <= i < accounts.len() && accounts[i].id == id && accounts[i].is_active
            && accounts[i].account_type@ == "asset"@ && accounts[i].is_bank_cash
}

pub(crate) proof fn lemma_first_unique(accounts: Seq<AccountInfo>, code: Seq<char>, i: int, k: int)
    requires
        first_with_code(accounts, code, i),
        first_with_code(accounts, code, k),
    ensures
        i == k,
{
    if i < k {
        assert(accounts[i].code@ != code);
    } else if k < i {
        assert(accounts[k].code@ != code);
    }
}

/// When account `i` has code `code`, some account is the first with that code.
pub(crate) proof fn lemma_first_exists(accounts: Seq<AccountInfo>, code: Seq<char>, i: int)
    requires
        0 <= i < accounts.len(),
        accounts[i].code@ == code,
    ensures
        exists|c: int| first_with_code(accounts, code, c),
    decreases i,
{
    if exists|j: int| 0 <= j < i && accounts[j].code@ == code {
        let j = choose|j: int| 0 <= j < i && accounts[j].code@ == code;
        lemma_first_exists(accounts, code, j);
    } else {
        assert(first_with_code(accounts, code, i));
    }
}

/// The id of the account with code `code`; an invariant error when the chart lacks it.
pub fn account_id_by_code(accounts: &[AccountInfo], code: &str) -> (r: Result<i64, DbCommandError>)
    ensures
        has_code(accounts@, code@) ==> r == Ok::<i64, DbCommandError>(id_of_code(accounts@, code@)),
        !has_code(accounts@, code@) ==> (r matches Err(DbCommandError::Invariant { message })
            && message@ == missing_code_text(code@)),
{
    let n = accounts.len();
    let mut i: usize = 0;
    while i < n
        invariant
            n == accounts@.len(),
            i <= n,
            forall|j: int| 0 <= j < i ==> accounts@[j].code@ != code@,
        decreases n - i,
    {
        if str_eq(accounts[i].code.as_str(), code) {
            proof {
                assert(first_with_code(accounts@, code@, i as int));
                let k = choose|k: int| first_with_code(accounts@, code@, k);
                lemma_first_unique(accounts@, code@, i as int, k);
            }
            return Ok(accounts[i].id);
        }
        i = i + 1;
    }
    let a = chars_of("missing account code ");
    let b = chars_of(code);
    let c = chars_of(" for company 1");
    let ab = concat(&a, &b);
    let all = concat(&ab, &c);
    Err(DbCommandError::Invariant { message: string_of(&all) })
}

/// Whether an active account has id `id`.
pub fn account_exists(accounts: &[AccountInfo], id: i64) -> (r: bool)
    ensures
        r == is_active_account(accounts@, id),
{
    let n = accounts.len();
    let mut i: usize = 0;
    while i < n
        invariant
            n == accounts@.len(),
            i <= n,
            forall|j: int| 0 <= j < i ==> !(accounts@[j].id == id && accounts@[j].is_active),
        decreases n - i,
    {
        if accounts[i].id == id && accounts[i].is_active {
            return true;
        }
        i = i + 1;
    }
    false
}

/// Whether an active account of type `account_type` has id `id`.
pub fn active_account_of_type(accounts: &[AccountInfo], id: i64, account_type: &str) -> (r: bool)
    ensures
        r == is_active_of_type(accounts@, id, account_type@),
{
    let n = accounts.len();
    let mut i: usize = 0;
    while i < n
        invariant
            n == accounts@.len(),
            i <= n,
            forall|j: int|
                0 <= j < i ==> !(accounts@[j].id == id && accounts@[j].is_active
                    && accounts@[j].account_type@ == account_type@),
        decreases n - i,
    {
        if accounts[i].id == id && accounts[i].is_active && str_eq(
            accounts[i].account_type.as_str(),
            account_type,
        ) {
            return true;
        }
        i = i + 1;
    }
    false
}

/// Whether an active bank or cash asset account has id `id`.
pub fn active_bank_cash_asset(accounts: &[AccountInfo], id: i64) -> (r: bool)
    ensures
        r == is_active_bank_cash(accounts@, id),
{
    let n = accounts.len();
    let mut i: usize = 0;
    while i < n
        invariant
            n == accounts@.len(),
            i <= n,
            forall|j: int|
                0 <= j < i ==> !(accounts@[j].id == id && accounts@[j].is_active
                    && accounts@[j].account_type@ == "asset"@ && accounts@[j].is_bank_cash),
        decreases n - i,
    {
        if accounts[i].id == id && accounts[i].is_active && accounts[i].is_bank_cash && str_eq(
            accounts[i].account_type.as_str(),
            "asset",
        ) {
            return true;
        }
        i = i + 1;
    }
    false
}

} // verus!

//! What an import creates: the rows of a parsed export that are new to the
//! books, with duplicates and unusable rows skipped and reported.
use vstd::prelude::*;

use crate::import::iif::{non_empty, opt_chars};
use crate::import::{
    opt_text, AccountRow, BatchRows, ContactRow, ItemRow, ParsedAccount, ParsedContact, ParsedImport,
    ParsedItem,
};
use crate::num::{dec, fmt_u64};
use crate::text::{
    concat_all, join_strs, views_of, chars_eq, chars_of, concat, str_eq, string_of, to_lower, trim, trim_chars, unicode_lower,
};

verus! {

/// What the books already hold, as read before an import.
#[derive(Debug, Clone)]
pub struct ExistingLists {
    pub max_sort_order: i64,
    /// Codes of the existing accounts, lower-cased.
    pub account_codes: Vec<String>,
    /// Names of the existing customers, trimmed and lower-cased.
    pub customer_names: Vec<String>,
    /// Names of the existing vendors, trimmed and lower-cased.
    pub vendor_names: Vec<String>,
    /// Names of the existing items, trimmed and lower-cased.
    pub item_names: Vec<String>,
    /// Trimmed, lower-cased name and id of each active income account.
    pub income_accounts: Vec<(String, i64)>,
}

/// An account to create.
#[derive(Debug, Clone)]
pub struct NewAccount {
    pub code: String,
    pub name: String,
    pub account_type: String,
    pub is_bank_cash: bool,
    pub sort_order: i64,
}

/// A customer or vendor to create.
#[derive(Debug, Clone)]
pub struct NewContact {
    pub display_name: String,
    pub email: Option<String>,
    pub phone: Option<String>,
}

/// An item to create.
#[derive(Debug, Clone)]
pub struct NewItem {
    pub name: String,
    pub unit_price_minor: i64,
    pub income_account_id: Option<i64>,
}

/// The outcome of an import as reported to the user.
#[derive(Debug, Clone)]
pub struct ImportSummary {
    pub format_detected: String,
    pub accounts_created: usize,
    pub customers_created: usize,
    pub vendors_created: usize,
    pub items_created: usize,
    pub rows_skipped: usize,
    pub warnings: Vec<String>,
}

/// Everything an import creates, and its summary.
#[derive(Debug, Clone)]
pub struct ImportPlan {
    pub summary: ImportSummary,
    pub accounts: Vec<NewAccount>,
    pub customers: Vec<NewContact>,
    pub vendors: Vec<NewContact>,
    pub items: Vec<NewItem>,
}

/// An account to create, as plain values.
pub struct NewAccountRow {
    pub code: Seq<char>,
    pub name: Seq<char>,
    pub account_type: Seq<char>,
    pub is_bank_cash: bool,
    pub sort_order: int,
}

/// An item to create, as plain values.
pub struct NewItemRow {
    pub name: Seq<char>,
    pub unit_price_minor: int,
    pub income_account_id: Option<i64>,
}

impl View for NewAccount {
    type V = NewAccountRow;

    open spec fn view(&self) -> NewAccountRow {
        NewAccountRow {
            code: self.code@,
            name: self.name@,
            account_type: self.account_type@,
            is_bank_cash: self.is_bank_cash,
            sort_order: self.sort_order as int,
        }
    }
}

impl View for NewContact {
    type V = ContactRow;

    open spec fn view(&self) -> ContactRow {
        ContactRow {
            display_name: self.display_name@,
            email: opt_text(self.email),
            phone: opt_text(self.phone),
        }
    }
}

impl View for NewItem {
    type V = NewItemRow;

    open spec fn view(&self) -> NewItemRow {
        NewItemRow {
            name: self.name@,
            unit_price_minor: self.unit_price_minor as int,
            income_account_id: self.income_account_id,
        }
    }
}

/// One section of an import in progress: the rows to create so far, the keys
/// already taken (existing and new), and the running skip count and warnings.
pub struct Phase<T> {
    pub made: Seq<T>,
    pub keys: Seq<Seq<char>>,
    pub skipped: int,
    pub warnings: Seq<Seq<char>>,
}

/// The texts of a list of strings.
pub open spec fn string_texts(v: Seq<String>) -> Seq<Seq<char>> {
    v.map_values(|s: String| s@)
}

/// The key that an account, customer, vendor or item is matched by: its trimmed,
/// lower-cased code or name.
pub open spec fn match_key(s: Seq<char>) -> Seq<char> {
    unicode_lower(trim(s))
}

/// Why an account cannot keep its bank/cash flag: only asset accounts are bank or cash.
pub open spec fn bank_flag_problem(is_bank_cash: bool, account_type: Seq<char>) -> Option<Seq<char>> {
    if is_bank_cash && account_type != "asset"@ {
        Some("only asset accounts can be bank or cash accounts"@)
    } else {
        None
    }
}

/// Takes one account row: one with an empty code, or a code already taken, is
/// skipped with a warning; otherwise it is created (trimmed, next in sort order),
/// without its bank/cash flag when only asset accounts may carry it.
pub open spec fn account_step(st: Phase<NewAccountRow>, a: AccountRow, sort0: int) -> Phase<
    NewAccountRow,
> {
    let key = match_key(a.code);
    if key.len() == 0 {
        Phase {
            skipped: st.skipped + 1,
            warnings: st.warnings.push("Skipped account with empty code."@),
            ..st
        }
    } else if st.keys.contains(key) {
        Phase {
            skipped: st.skipped + 1,
            warnings: st.warnings.push("Skipped duplicate account code \""@ + a.code + "\"."@),
            ..st
        }
    } else {
        let problem = bank_flag_problem(a.is_bank_cash, a.account_type);
        Phase {
            made: st.made.push(
                NewAccountRow {
                    code: trim(a.code),
                    name: trim(a.name),
                    account_type: a.account_type,
                    is_bank_cash: a.is_bank_cash && problem is None,
                    sort_order: sort0 + st.made.len() + 1,
                },
            ),
            keys: st.keys.push(key),
            warnings: match problem {
                Some(e) => st.warnings.push(
                    "Account \""@ + a.code + "\": "@ + e + " — imported without bank/cash."@,
                ),
                None => st.warnings,
            },
            ..st
        }
    }
}

/// The account section after taking `rows` in order.
pub open spec fn account_phase(rows: Seq<AccountRow>, start: Phase<NewAccountRow>, sort0: int) -> Phase<
    NewAccountRow,
>
    decreases rows.len(),
{
    if rows.len() == 0 {
        start
    } else {
        account_step(account_phase(rows.drop_last(), start, sort0), rows.last(), sort0)
    }
}

/// The trimmed text of an optional field, when not empty.
pub open spec fn trimmed_field(o: Option<Seq<char>>) -> Option<Seq<char>> {
    match o {
        Some(s) => non_empty(Some(trim(s))),
        None => None,
    }
}

/// Takes one customer or vendor row (`word` names which): one with an empty name
/// is skipped, one whose name is taken is skipped with a warning, and otherwise
/// it is created with its name, email and phone trimmed.
pub open spec fn contact_step(st: Phase<ContactRow>, c: ContactRow, word: Seq<char>) -> Phase<
    ContactRow,
> {
    let key = match_key(c.display_name);
    if key.len() == 0 {
        Phase { skipped: st.skipped + 1, ..st }
    } else if st.keys.contains(key) {
        Phase {
            skipped: st.skipped + 1,
            warnings: st.warnings.push(
                "Skipped duplicate "@ + word + " \""@ + c.display_name + "\"."@,
            ),
            ..st
        }
    } else {
        Phase {
            made: st.made.push(
                ContactRow {
                    display_name: trim(c.display_name),
                    email: trimmed_field(c.email),
                    phone: trimmed_field(c.phone),
                },
            ),
            keys: st.keys.push(key),
            ..st
        }
    }
}

/// The customer or vendor section after taking `rows` in order.
pub open spec fn contact_phase(rows: Seq<ContactRow>, start: Phase<ContactRow>, word: Seq<char>) -> Phase<
    ContactRow,
>
    decreases rows.len(),
{
    if rows.len() == 0 {
        start
    } else {
        contact_step(contact_phase(rows.drop_last(), start, word), rows.last(), word)
    }
}

/// The id paired with `key`, from the last pair that has it.
pub open spec fn lookup_last(pairs: Seq<(Seq<char>, i64)>, key: Seq<char>) -> Option<i64>
    decreases pairs.len(),
{
    if pairs.len() == 0 {
        None
    } else if pairs.last().0 == key {
        Some(pairs.last().1)
    } else {
        lookup_last(pairs.drop_last(), key)
    }
}

/// Takes one item row: one with an empty name is skipped, one whose name is taken
/// is skipped with a warning, and otherwise it is created with the income account
/// its row names, matched by name among the active income accounts (left unset,
/// with a warning, when none matches).
pub open spec fn item_step(st: Phase<NewItemRow>, it: ItemRow, income: Seq<(Seq<char>, i64)>) -> Phase<
    NewItemRow,
> {
    let key = match_key(it.name);
    if key.len() == 0 {
        Phase { skipped: st.skipped + 1, ..st }
    } else if st.keys.contains(key) {
        Phase {
            skipped: st.skipped + 1,
            warnings: st.warnings.push("Skipped duplicate item \""@ + it.name + "\"."@),
            ..st
        }
    } else {
        let income_name = trimmed_field(it.income_account_name);
        let income_id = match income_name {
            Some(n) => lookup_last(income, unicode_lower(n)),
            None => None,
        };
        Phase {
            made: st.made.push(
                NewItemRow {
                    name: trim(it.name),
                    unit_price_minor: it.unit_price_minor,
                    income_account_id: income_id,
                },
            ),
            keys: st.keys.push(key),
            warnings: match income_name {
                Some(n) => if income_id is None {
                    st.warnings.push(
                        "Item \""@ + it.name + "\": income account \""@ + n
                            + "\" not found (or not an income account); left unset."@,
                    )
                } else {
                    st.warnings
                },
                None => st.warnings,
            },
            ..st
        }
    }
}

/// The item section after taking `rows` in order.
pub open spec fn item_phase(rows: Seq<ItemRow>, start: Phase<NewItemRow>, income: Seq<(Seq<char>, i64)>) -> Phase<
    NewItemRow,
>
    decreases rows.len(),
{
    if rows.len() == 0 {
        start
    } else {
        item_step(item_phase(rows.drop_last(), start, income), rows.last(), income)
    }
}

/// The four sections of an import, taken in order: accounts, customers, vendors, items.
pub struct PlanRows {
    pub accounts: Phase<NewAccountRow>,
    pub customers: Phase<ContactRow>,
    pub vendors: Phase<ContactRow>,
    pub items: Phase<NewItemRow>,
}

/// The pairs of name and id of the income accounts.
pub open spec fn income_pairs(v: Seq<(String, i64)>) -> Seq<(Seq<char>, i64)> {
    v.map_values(|p: (String, i64)| (p.0@, p.1))
}

/// What importing `batch` (after `skipped` rows and `warnings` from reading the
/// file) into books holding `existing` creates.
pub open spec fn plan_rows(
    batch: BatchRows,
    skipped: int,
    warnings: Seq<Seq<char>>,
    existing: ExistingLists,
) -> PlanRows {
    let a = account_phase(
        batch.accounts,
        Phase {
            made: Seq::empty(),
            keys: string_texts(existing.account_codes@),
            skipped,
            warnings,
        },
        existing.max_sort_order as int,
    );
    let c = contact_phase(
        batch.customers,
        Phase {
            made: Seq::empty(),
            keys: string_texts(existing.customer_names@),
            skipped: a.skipped,
            warnings: a.warnings,
        },
        "customer"@,
    );
    let v = contact_phase(
        batch.vendors,
        Phase {
            made: Seq::empty(),
            keys: string_texts(existing.vendor_names@),
            skipped: c.skipped,
            warnings: c.warnings,
        },
        "vendor"@,
    );
    let i = item_phase(
        batch.items,
        Phase {
            made: Seq::empty(),
            keys: string_texts(existing.item_names@),
            skipped: v.skipped,
            warnings: v.warnings,
        },
        income_pairs(existing.income_accounts@),
    );
    PlanRows { accounts: a, customers: c, vendors: v, items: i }
}

/// The key an import matches a code or name by.
fn key_of(s: &str) -> (r: Vec<char>)
    ensures
        r@ == match_key(s@),
{
    let t = trim_chars(&chars_of(s));
    chars_of(to_lower(string_of(&t).as_str()).as_str())
}

/// Whether `key` is among `keys`.
fn key_taken(keys: &Vec<Vec<char>>, key: &[char]) -> (r: bool)
    ensures
        r == views_of(keys@).contains(key@),
{
    let n = keys.len();
    let mut k: usize = 0;
    while k < n
        invariant
            n == keys@.len(),
            k <= n,
            forall|j: int| 0 <= j < k ==> keys@[j]@ != key@,
        decreases n - k,
    {
        if chars_eq(&keys[k], key) {
            assert(views_of(keys@)[k as int] == key@);
            return true;
        }
        k = k + 1;
    }
    proof {
        assert forall|j: int| 0 <= j < views_of(keys@).len() implies views_of(keys@)[j] != key@ by {
            assert(views_of(keys@)[j] == keys@[j]@);
        }
    }
    false
}

/// The keys already taken, as character vectors.
fn key_list(v: &Vec<String>) -> (r: Vec<Vec<char>>)
    ensures
        views_of(r@) == string_texts(v@),
{
    let mut out: Vec<Vec<char>> = Vec::new();
    let n = v.len();
    let mut k: usize = 0;
    while k < n
        invariant
            n == v@.len(),
            k <= n,
            out@.len() == k,
            forall|j: int| 0 <= j < k ==> (#[trigger] out@[j])@ == v@[j]@,
        decreases n - k,
    {
        out.push(chars_of(v[k].as_str()));
        k = k + 1;
    }
    assert(views_of(out@) =~= string_texts(v@));
    out
}

fn trimmed_opt(o: &Option<String>) -> (r: Option<String>)
    ensures
        opt_text(r) == trimmed_field(opt_text(*o)),
{
    match o {
        Some(s) => {
            let t = trim_chars(&chars_of(s.as_str()));
            if t.len() > 0 {
                Some(string_of(&t))
            } else {
                None
            }
        },
        None => None,
    }
}

/// The account section of an import.
fn plan_accounts(
    rows: &Vec<ParsedAccount>,
    existing_codes: &Vec<String>,
    sort0: i64,
    skipped0: usize,
    warnings0: Vec<String>,
) -> (r: (Vec<NewAccount>, usize, Vec<String>))
    requires
        sort0 + rows@.len() <= i64::MAX,
        skipped0 + rows@.len() <= usize::MAX,
    ensures
        ({
            let ph = account_phase(
                rows@.map_values(|a: ParsedAccount| a@),
                Phase {
                    made: Seq::empty(),
                    keys: string_texts(existing_codes@),
                    skipped: skipped0 as int,
                    warnings: string_texts(warnings0@),
                },
                sort0 as int,
            );
            &&& r.0@.map_values(|a: NewAccount| a@) == ph.made
            &&& r.1 == ph.skipped
            &&& string_texts(r.2@) == ph.warnings
        }),
        r.1 <= skipped0 + rows@.len(),
{
    let ghost rs = rows@.map_values(|a: ParsedAccount| a@);
    let ghost start = Phase {
        made: Seq::<NewAccountRow>::empty(),
        keys: string_texts(existing_codes@),
        skipped: skipped0 as int,
        warnings: string_texts(warnings0@),
    };
    let mut made: Vec<NewAccount> = Vec::new();
    let mut keys = key_list(existing_codes);
    let mut skipped = skipped0;
    let mut warnings = warnings0;
    let n = rows.len();
    let mut i: usize = 0;
    assert(made@.map_values(|a: NewAccount| a@) =~= Seq::<NewAccountRow>::empty());
    while i < n
        invariant
            n == rows@.len(),
            rs == rows@.map_values(|a: ParsedAccount| a@),
            i <= n,
            sort0 + n <= i64::MAX,
            skipped0 + n <= usize::MAX,
            skipped <= skipped0 + i,
            made@.len() <= i,
            made@.map_values(|a: NewAccount| a@) == account_phase(rs.take(i as int), start, sort0 as int).made,
            views_of(keys@) == account_phase(rs.take(i as int), start, sort0 as int).keys,
            skipped == account_phase(rs.take(i as int), start, sort0 as int).skipped,
            string_texts(warnings@) == account_phase(rs.take(i as int), start, sort0 as int).warnings,
        decreases n - i,
    {
        assert(rs.take(i + 1).drop_last() == rs.take(i as int));
        assert(rs.take(i + 1).last() == rows@[i as int]@);
        let a = &rows[i];
        let key = key_of(a.code.as_str());
        if key.len() == 0 {
            skipped = skipped + 1;
            let ghost before = warnings@;
            warnings.push("Skipped account with empty code.".to_owned());
            assert(string_texts(warnings@) =~= string_texts(before).push(
                "Skipped account with empty code."@,
            ));
        } else if key_taken(&keys, &key) {
            skipped = skipped + 1;
            let parts = ["Skipped duplicate account code \"", a.code.as_str(), "\"."];
            let msg = join_strs(&parts);
            proof {
                reveal_with_fuel(concat_all, 4);
            }
            let ghost before = warnings@;
            warnings.push(msg);
            assert(string_texts(warnings@) =~= string_texts(before).push(msg@));
        } else {
            let problem = a.is_bank_cash && !str_eq(a.account_type.as_str(), "asset");
            if problem {
                let parts = [
                    "Account \"",
                    a.code.as_str(),
                    "\": ",
                    "only asset accounts can be bank or cash accounts",
                    " — imported without bank/cash.",
                ];
                let msg = join_strs(&parts);
                proof {
                    reveal_with_fuel(concat_all, 6);
                }
                let ghost before = warnings@;
                warnings.push(msg);
                assert(string_texts(warnings@) =~= string_texts(before).push(msg@));
            }
            let wide: i128 = sort0 as i128 + made.len() as i128 + 1;
            let sort_order: i64 = wide as i64;
            let row = NewAccount {
                code: string_of(&trim_chars(&chars_of(a.code.as_str()))),
                name: string_of(&trim_chars(&chars_of(a.name.as_str()))),
                account_type: a.account_type.clone(),
                is_bank_cash: a.is_bank_cash && !problem,
                sort_order,
            };
            let ghost before = made@;
            made.push(row);
            assert(made@.map_values(|x: NewAccount| x@) =~= before.map_values(|x: NewAccount| x@).push(row@));
            let ghost kb = keys@;
            keys.push(key);
            assert(views_of(keys@) =~= views_of(kb).push(key@));
        }
        i = i + 1;
    }
    assert(rs.take(n as int) == rs);
    (made, skipped, warnings)
}

/// The customer or vendor section of an import (`word` names which).
fn plan_contacts(
    rows: &Vec<ParsedContact>,
    existing_names: &Vec<String>,
    word: &str,
    skipped0: usize,
    warnings0: Vec<String>,
) -> (r: (Vec<NewContact>, usize, Vec<String>))
    requires
        skipped0 + rows@.len() <= usize::MAX,
    ensures
        ({
            let ph = contact_phase(
                rows@.map_values(|c: ParsedContact| c@),
                Phase {
                    made: Seq::empty(),
                    keys: string_texts(existing_names@),
                    skipped: skipped0 as int,
                    warnings: string_texts(warnings0@),
                },
                word@,
            );
            &&& r.0@.map_values(|c: NewContact| c@) == ph.made
            &&& r.1 == ph.skipped
            &&& string_texts(r.2@) == ph.warnings
        }),
        r.1 <= skipped0 + rows@.len(),
{
    let ghost rs = rows@.map_values(|c: ParsedContact| c@);
    let ghost start = Phase {
        made: Seq::<ContactRow>::empty(),
        keys: string_texts(existing_names@),
        skipped: skipped0 as int,
        warnings: string_texts(warnings0@),
    };
    let mut made: Vec<NewContact> = Vec::new();
    let mut keys = key_list(existing_names);
    let mut skipped = skipped0;
    let mut warnings = warnings0;
    let n = rows.len();
    let mut i: usize = 0;
    assert(made@.map_values(|c: NewContact| c@) =~= Seq::<ContactRow>::empty());
    while i < n
        invariant
            n == rows@.len(),
            rs == rows@.map_values(|c: ParsedContact| c@),
            i <= n,
            skipped0 + n <= usize::MAX,
            skipped <= skipped0 + i,
            made@.map_values(|c: NewContact| c@) == contact_phase(rs.take(i as int), start, word@).made,
            views_of(keys@) == contact_phase(rs.take(i as int), start, word@).keys,
            skipped == contact_phase(rs.take(i as int), start, word@).skipped,
            string_texts(warnings@) == contact_phase(rs.take(i as int), start, word@).warnings,
        decreases n - i,
    {
        assert(rs.take(i + 1).drop_last() == rs.take(i as int));
        assert(rs.take(i + 1).last() == rows@[i as int]@);
        let c = &rows[i];
        let key = key_of(c.display_name.as_str());
        if key.len() == 0 {
            skipped = skipped + 1;
        } else if key_taken(&keys, &key) {
            skipped = skipped + 1;
            let parts = ["Skipped duplicate ", word, " \"", c.display_name.as_str(), "\"."];
            let msg = join_strs(&parts);
            proof {
                reveal_with_fuel(concat_all, 6);
            }
            let ghost before = warnings@;
            warnings.push(msg);
            assert(string_texts(warnings@) =~= string_texts(before).push(msg@));
        } else {
            let row = NewContact {
                display_name: string_of(&trim_chars(&chars_of(c.display_name.as_str()))),
                email: trimmed_opt(&c.email),
                phone: trimmed_opt(&c.phone),
            };
            let ghost before = made@;
            made.push(row);
            assert(made@.map_values(|x: NewContact| x@) =~= before.map_values(|x: NewContact| x@).push(row@));
            let ghost kb = keys@;
            keys.push(key);
            assert(views_of(keys@) =~= views_of(kb).push(key@));
        }
        i = i + 1;
    }
    assert(rs.take(n as int) == rs);
    (made, skipped, warnings)
}

/// The id of the income account named `key`, from the last pair that has it.
fn lookup_income(pairs: &Vec<(String, i64)>, key: &[char]) -> (r: Option<i64>)
    ensures
        r == lookup_last(income_pairs(pairs@), key@),
{
    let ghost ps = income_pairs(pairs@);
    let mut k: usize = pairs.len();
    assert(ps.take(k as int) == ps);
    while k > 0
        invariant
            ps == income_pairs(pairs@),
            k <= pairs@.len(),
            lookup_last(ps, key@) == lookup_last(ps.take(k as int), key@),
        decreases k,
    {
        assert(ps.take(k as int).drop_last() == ps.take(k - 1));
        assert(ps.take(k as int).last() == ps[k - 1]);
        assert(ps[k - 1] == (pairs@[k - 1].0@, pairs@[k - 1].1));
        if str_eq(pairs[k - 1].0.as_str(), string_of(key).as_str()) {
            return Some(pairs[k - 1].1);
        }
        k = k - 1;
    }
    None
}

/// The item section of an import.
fn plan_items(
    rows: &Vec<ParsedItem>,
    existing_names: &Vec<String>,
    income: &Vec<(String, i64)>,
    skipped0: usize,
    warnings0: Vec<String>,
) -> (r: (Vec<NewItem>, usize, Vec<String>))
    requires
        skipped0 + rows@.len() <= usize::MAX,
    ensures
        ({
            let ph = item_phase(
                rows@.map_values(|it: ParsedItem| it@),
                Phase {
                    made: Seq::empty(),
                    keys: string_texts(existing_names@),
                    skipped: skipped0 as int,
                    warnings: string_texts(warnings0@),
                },
                income_pairs(income@),
            );
            &&& r.0@.map_values(|it: NewItem| it@) == ph.made
            &&& r.1 == ph.skipped
            &&& string_texts(r.2@) == ph.warnings
        }),
        r.1 <= skipped0 + rows@.len(),
{
    let ghost rs = rows@.map_values(|it: ParsedItem| it@);
    let ghost inc = income_pairs(income@);
    let ghost start = Phase {
        made: Seq::<NewItemRow>::empty(),
        keys: string_texts(existing_names@),
        skipped: skipped0 as int,
        warnings: string_texts(warnings0@),
    };
    let mut made: Vec<NewItem> = Vec::new();
    let mut keys = key_list(existing_names);
    let mut skipped = skipped0;
    let mut warnings = warnings0;
    let n = rows.len();
    let mut i: usize = 0;
    assert(made@.map_values(|it: NewItem| it@) =~= Seq::<NewItemRow>::empty());
    while i < n
        invariant
            n == rows@.len(),
            rs == rows@.map_values(|it: ParsedItem| it@),
            inc == income_pairs(income@),
            i <= n,
            skipped0 + n <= usize::MAX,
            skipped <= skipped0 + i,
            made@.map_values(|it: NewItem| it@) == item_phase(rs.take(i as int), start, inc).made,
            views_of(keys@) == item_phase(rs.take(i as int), start, inc).keys,
            skipped == item_phase(rs.take(i as int), start, inc).skipped,
            string_texts(warnings@) == item_phase(rs.take(i as int), start, inc).warnings,
        decreases n - i,
    {
        assert(rs.take(i + 1).drop_last() == rs.take(i as int));
        assert(rs.take(i + 1).last() == rows@[i as int]@);
        let it = &rows[i];
        let key = key_of(it.name.as_str());
        if key.len() == 0 {
            skipped = skipped + 1;
        } else if key_taken(&keys, &key) {
            skipped = skipped + 1;
            let parts = ["Skipped duplicate item \"", it.name.as_str(), "\"."];
            let msg = join_strs(&parts);
            proof {
                reveal_with_fuel(concat_all, 4);
            }
            let ghost before = warnings@;
            warnings.push(msg);
            assert(string_texts(warnings@) =~= string_texts(before).push(msg@));
        } else {
            let income_name = trimmed_opt(&it.income_account_name);
            let income_id = match &income_name {
                Some(nm) => {
                    let lk = chars_of(to_lower(nm.as_str()).as_str());
                    lookup_income(income, &lk)
                },
                None => None,
            };
            match &income_name {
                Some(nm) => {
                    if income_id.is_none() {
                        let parts = [
                            "Item \"",
                            it.name.as_str(),
                            "\": income account \"",
                            nm.as_str(),
                            "\" not found (or not an income account); left unset.",
                        ];
                        let msg = join_strs(&parts);
                        proof {
                            reveal_with_fuel(concat_all, 6);
                        }
                        let ghost before = warnings@;
                        warnings.push(msg);
                        assert(string_texts(warnings@) =~= string_texts(before).push(msg@));
                    }
                },
                None => {},
            }
            let row = NewItem {
                name: string_of(&trim_chars(&chars_of(it.name.as_str()))),
                unit_price_minor: it.unit_price_minor,
                income_account_id: income_id,
            };
            let ghost before = made@;
            made.push(row);
            assert(made@.map_values(|x: NewItem| x@) =~= before.map_values(|x: NewItem| x@).push(row@));
            let ghost kb = keys@;
            keys.push(key);
            assert(views_of(keys@) =~= views_of(kb).push(key@));
        }
        i = i + 1;
    }
    assert(rs.take(n as int) == rs);
    (made, skipped, warnings)
}

/// Plans an import of `parsed` into books holding `existing`: accounts first,
/// then customers, vendors and items, each section skipping rows without a
/// code or name and rows that repeat one already taken.
pub fn plan_import(parsed: &ParsedImport, existing: &ExistingLists) -> (r: ImportPlan)
    requires
        existing.max_sort_order + parsed.batch.accounts@.len() <= i64::MAX,
        parsed.skipped + parsed.batch.accounts@.len() + parsed.batch.customers@.len()
            + parsed.batch.vendors@.len() + parsed.batch.items@.len() <= usize::MAX,
    ensures
        ({
            let pr = plan_rows(
                parsed.batch@,
                parsed.skipped as int,
                string_texts(parsed.warnings@),
                *existing,
            );
            &&& r.accounts@.map_values(|a: NewAccount| a@) == pr.accounts.made
            &&& r.customers@.map_values(|c: NewContact| c@) == pr.customers.made
            &&& r.vendors@.map_values(|c: NewContact| c@) == pr.vendors.made
            &&& r.items@.map_values(|it: NewItem| it@) == pr.items.made
            &&& r.summary.format_detected@ == parsed.format@
            &&& r.summary.accounts_created == pr.accounts.made.len()
            &&& r.summary.customers_created == pr.customers.made.len()
            &&& r.summary.vendors_created == pr.vendors.made.len()
            &&& r.summary.items_created == pr.items.made.len()
            &&& r.summary.rows_skipped == pr.items.skipped
            &&& string_texts(r.summary.warnings@) == pr.items.warnings
        }),
{
    let b = &parsed.batch;
    let (accounts, sk1, w1) = plan_accounts(
        &b.accounts,
        &existing.account_codes,
        existing.max_sort_order,
        parsed.skipped,
        parsed.warnings.clone(),
    );
    let (customers, sk2, w2) = plan_contacts(
        &b.customers,
        &existing.customer_names,
        "customer",
        sk1,
        w1,
    );
    let (vendors, sk3, w3) = plan_contacts(&b.vendors, &existing.vendor_names, "vendor", sk2, w2);
    let (items, sk4, w4) = plan_items(
        &b.items,
        &existing.item_names,
        &existing.income_accounts,
        sk3,
        w3,
    );
    let summary = ImportSummary {
        format_detected: parsed.format.clone(),
        accounts_created: accounts.len(),
        customers_created: customers.len(),
        vendors_created: vendors.len(),
        items_created: items.len(),
        rows_skipped: sk4,
        warnings: w4,
    };
    ImportPlan { summary, accounts, customers, vendors, items }
}

/// The keys of the accounts to create.
pub open spec fn account_keys(made: Seq<NewAccountRow>) -> Seq<Seq<char>> {
    made.map_values(|m: NewAccountRow| unicode_lower(m.code))
}

/// The keys of the customers or vendors to create.
pub open spec fn contact_keys(made: Seq<ContactRow>) -> Seq<Seq<char>> {
    made.map_values(|m: ContactRow| unicode_lower(m.display_name))
}

/// The keys of the items to create.
pub open spec fn item_keys(made: Seq<NewItemRow>) -> Seq<Seq<char>> {
    made.map_values(|m: NewItemRow| unicode_lower(m.name))
}

/// No key occurs twice in `keys`.
pub open spec fn all_distinct(keys: Seq<Seq<char>>) -> bool {
    forall|i: int, j: int| 0 <= i < j < keys.len() ==> keys[i] != keys[j]
}

/// The keys `made` are distinct from one another and from every key in `prefix`.
pub open spec fn fresh_keys(prefix: Seq<Seq<char>>, made: Seq<Seq<char>>) -> bool {
    &&& all_distinct(made)
    &&& forall|i: int| 0 <= i < made.len() ==> !prefix.contains(#[trigger] made[i])
}

proof fn lemma_push_fresh(prefix: Seq<Seq<char>>, made: Seq<Seq<char>>, key: Seq<char>)
    requires
        fresh_keys(prefix, made),
        !(prefix + made).contains(key),
    ensures
        fresh_keys(prefix, made.push(key)),
        prefix + made.push(key) == (prefix + made).push(key),
{
    assert(prefix + made.push(key) =~= (prefix + made).push(key));
    let m2 = made.push(key);
    assert forall|i: int, j: int| 0 <= i < j < m2.len() implies m2[i] != m2[j] by {
        if j == m2.len() - 1 {
            assert((prefix + made)[prefix.len() + i] == made[i]);
        }
    }
    assert forall|i: int| 0 <= i < m2.len() implies !prefix.contains(#[trigger] m2[i]) by {
        if i == m2.len() - 1 && prefix.contains(key) {
            let j = choose|j: int| 0 <= j < prefix.len() && prefix[j] == key;
            assert((prefix + made)[j] == key);
        }
    }
}

proof fn lemma_empty_keys(prefix: Seq<Seq<char>>)
    ensures
        fresh_keys(prefix, Seq::empty()),
        prefix + Seq::<Seq<char>>::empty() == prefix,
{
    assert(prefix + Seq::<Seq<char>>::empty() =~= prefix);
}

proof fn lemma_account_phase(rows: Seq<AccountRow>, start: Phase<NewAccountRow>, sort0: int)
    requires
        start.made.len() == 0,
    ensures
        account_phase(rows, start, sort0).keys == start.keys + account_keys(
            account_phase(rows, start, sort0).made,
        ),
        fresh_keys(start.keys, account_keys(account_phase(rows, start, sort0).made)),
        account_phase(rows, start, sort0).made.len() + account_phase(rows, start, sort0).skipped
            - start.skipped == rows.len(),
    decreases rows.len(),
{
    if rows.len() == 0 {
        assert(account_keys(start.made) =~= Seq::<Seq<char>>::empty());
        lemma_empty_keys(start.keys);
    } else {
        lemma_account_phase(rows.drop_last(), start, sort0);
        let st = account_phase(rows.drop_last(), start, sort0);
        let a = rows.last();
        let key = match_key(a.code);
        if key.len() > 0 && !st.keys.contains(key) {
            let nxt = account_phase(rows, start, sort0);
            assert(account_keys(nxt.made) =~= account_keys(st.made).push(key));
            lemma_push_fresh(start.keys, account_keys(st.made), key);
        }
    }
}

/// The accounts an import creates are new: none shares its lower-cased code
/// with an account already in the chart or with another created account.
/// Every account row is either created or counted as skipped.
pub proof fn law_import_accounts_are_new(
    rows: Seq<AccountRow>,
    existing: Seq<Seq<char>>,
    skipped: int,
    warnings: Seq<Seq<char>>,
    sort0: int,
)
    ensures
        ({
            let ph = account_phase(
                rows,
                Phase { made: Seq::empty(), keys: existing, skipped, warnings },
                sort0,
            );
            &&& fresh_keys(existing, account_keys(ph.made))
            &&& ph.made.len() + (ph.skipped - skipped) == rows.len()
        }),
{
    lemma_account_phase(
        rows,
        Phase { made: Seq::<NewAccountRow>::empty(), keys: existing, skipped, warnings },
        sort0,
    );
}

proof fn lemma_contact_phase(rows: Seq<ContactRow>, start: Phase<ContactRow>, word: Seq<char>)
    requires
        start.made.len() == 0,
    ensures
        contact_phase(rows, start, word).keys == start.keys + contact_keys(
            contact_phase(rows, start, word).made,
        ),
        fresh_keys(start.keys, contact_keys(contact_phase(rows, start, word).made)),
        contact_phase(rows, start, word).made.len() + contact_phase(rows, start, word).skipped
            - start.skipped == rows.len(),
    decreases rows.len(),
{
    if rows.len() == 0 {
        assert(contact_keys(start.made) =~= Seq::<Seq<char>>::empty());
        lemma_empty_keys(start.keys);
    } else {
        lemma_contact_phase(rows.drop_last(), start, word);
        let st = contact_phase(rows.drop_last(), start, word);
        let c = rows.last();
        let key = match_key(c.display_name);
        if key.len() > 0 && !st.keys.contains(key) {
            let nxt = contact_phase(rows, start, word);
            assert(contact_keys(nxt.made) =~= contact_keys(st.made).push(key));
            lemma_push_fresh(start.keys, contact_keys(st.made), key);
        }
    }
}

/// The customers (or vendors) an import creates are new: none shares its
/// lower-cased name with an existing one or with another created one. Every
/// row is either created or counted as skipped.
pub proof fn law_import_contacts_are_new(
    rows: Seq<ContactRow>,
    existing: Seq<Seq<char>>,
    skipped: int,
    warnings: Seq<Seq<char>>,
    word: Seq<char>,
)
    ensures
        ({
            let ph = contact_phase(
                rows,
                Phase { made: Seq::empty(), keys: existing, skipped, warnings },
                word,
            );
            &&& fresh_keys(existing, contact_keys(ph.made))
            &&& ph.made.len() + (ph.skipped - skipped) == rows.len()
        }),
{
    lemma_contact_phase(
        rows,
        Phase { made: Seq::<ContactRow>::empty(), keys: existing, skipped, warnings },
        word,
    );
}

proof fn lemma_item_phase(rows: Seq<ItemRow>, start: Phase<NewItemRow>, income: Seq<(Seq<char>, i64)>)
    requires
        start.made.len() == 0,
    ensures
        item_phase(rows, start, income).keys == start.keys + item_keys(
            item_phase(rows, start, income).made,
        ),
        fresh_keys(start.keys, item_keys(item_phase(rows, start, income).made)),
        item_phase(rows, start, income).made.len() + item_phase(rows, start, income).skipped
            - start.skipped == rows.len(),
    decreases rows.len(),
{
    if rows.len() == 0 {
        assert(item_keys(start.made) =~= Seq::<Seq<char>>::empty());
        lemma_empty_keys(start.keys);
    } else {
        lemma_item_phase(rows.drop_last(), start, income);
        let st = item_phase(rows.drop_last(), start, income);
        let it = rows.last();
        let key = match_key(it.name);
        if key.len() > 0 && !st.keys.contains(key) {
            let nxt = item_phase(rows, start, income);
            assert(item_keys(nxt.made) =~= item_keys(st.made).push(key));
            lemma_push_fresh(start.keys, item_keys(st.made), key);
        }
    }
}

/// The items an import creates are new: none shares its lower-cased name with
/// an existing item or with another created item. Every item row is either
/// created or counted as skipped.
pub proof fn law_import_items_are_new(
    rows: Seq<ItemRow>,
    existing: Seq<Seq<char>>,
    skipped: int,
    warnings: Seq<Seq<char>>,
    income: Seq<(Seq<char>, i64)>,
)
    ensures
        ({
            let ph = item_phase(
                rows,
                Phase { made: Seq::empty(), keys: existing, skipped, warnings },
                income,
            );
            &&& fresh_keys(existing, item_keys(ph.made))
            &&& ph.made.len() + (ph.skipped - skipped) == rows.len()
        }),
{
    lemma_item_phase(
        rows,
        Phase { made: Seq::<NewItemRow>::empty(), keys: existing, skipped, warnings },
        income,
    );
}

} // verus!

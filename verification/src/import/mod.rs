//! List import from QuickBooks exports (IIF and CSV): the rows found in a file,
//! and the plan of what to create from them.
use vstd::prelude::*;

pub mod bytes;
pub mod iif;
pub mod plan;
pub mod qb_csv;

use crate::error::DbCommandError;
use crate::text::{
    ascii_lower, ascii_upper, chars_of, contains, contains_chars, drop_leading,
    drop_leading_chars, ends_with, ends_with_chars, slice_range, split_chars, split_on,
    starts_with, starts_with_chars, string_of, to_ascii_lower, to_ascii_upper, views_of,
};

verus! {

/// An account row read from an export.
#[derive(Debug, Clone)]
pub struct ParsedAccount {
    pub code: String,
    pub name: String,
    pub account_type: String,
    pub is_bank_cash: bool,
}

/// A customer or vendor row read from an export.
#[derive(Debug, Clone)]
pub struct ParsedContact {
    pub display_name: String,
    pub email: Option<String>,
    pub phone: Option<String>,
}

/// An item row read from an export.
#[derive(Debug, Clone)]
pub struct ParsedItem {
    pub name: String,
    pub unit_price_minor: i64,
    pub income_account_name: Option<String>,
}

/// Everything importable read from one export, in file order.
#[derive(Debug, Clone)]
pub struct ImportBatch {
    pub accounts: Vec<ParsedAccount>,
    pub customers: Vec<ParsedContact>,
    pub vendors: Vec<ParsedContact>,
    pub items: Vec<ParsedItem>,
}

/// An account row as plain values.
pub struct AccountRow {
    pub code: Seq<char>,
    pub name: Seq<char>,
    pub account_type: Seq<char>,
    pub is_bank_cash: bool,
}

/// A customer or vendor row as plain values.
pub struct ContactRow {
    pub display_name: Seq<char>,
    pub email: Option<Seq<char>>,
    pub phone: Option<Seq<char>>,
}

/// An item row as plain values.
pub struct ItemRow {
    pub name: Seq<char>,
    pub unit_price_minor: int,
    pub income_account_name: Option<Seq<char>>,
}

/// A batch as plain values.
pub struct BatchRows {
    pub accounts: Seq<AccountRow>,
    pub customers: Seq<ContactRow>,
    pub vendors: Seq<ContactRow>,
    pub items: Seq<ItemRow>,
}

/// The text of an optional string.
pub open spec fn opt_text(o: Option<String>) -> Option<Seq<char>> {
    match o {
        Some(s) => Some(s@),
        None => None,
    }
}

impl View for ParsedAccount {
    type V = AccountRow;

    open spec fn view(&self) -> AccountRow {
        AccountRow {
            code: self.code@,
            name: self.name@,
            account_type: self.account_type@,
            is_bank_cash: self.is_bank_cash,
        }
    }
}

impl View for ParsedContact {
    type V = ContactRow;

    open spec fn view(&self) -> ContactRow {
        ContactRow {
            display_name: self.display_name@,
            email: opt_text(self.email),
            phone: opt_text(self.phone),
        }
    }
}

impl View for ParsedItem {
    type V = ItemRow;

    open spec fn view(&self) -> ItemRow {
        ItemRow {
            name: self.name@,
            unit_price_minor: self.unit_price_minor as int,
            income_account_name: opt_text(self.income_account_name),
        }
    }
}

impl View for ImportBatch {
    type V = BatchRows;

    open spec fn view(&self) -> BatchRows {
        BatchRows {
            accounts: self.accounts@.map_values(|a: ParsedAccount| a@),
            customers: self.customers@.map_values(|c: ParsedContact| c@),
            vendors: self.vendors@.map_values(|c: ParsedContact| c@),
            items: self.items@.map_values(|i: ParsedItem| i@),
        }
    }
}

/// The first `n` characters of `s` (all of them when it is shorter).
pub open spec fn prefix(s: Seq<char>, n: int) -> Seq<char> {
    if s.len() > n {
        s.take(n)
    } else {
        s
    }
}

/// An ASCII whitespace character (what `char::is_ascii_whitespace` accepts).
pub open spec fn is_ascii_ws(c: char) -> bool {
    c == ' ' || c == '\t' || c == '\n' || c == '\x0C' || c == '\r'
}

/// `s` without its leading ASCII whitespace.
pub open spec fn trim_start_ascii(s: Seq<char>) -> Seq<char>
    decreases s.len(),
{
    if s.len() > 0 && is_ascii_ws(s[0]) {
        trim_start_ascii(s.drop_first())
    } else {
        s
    }
}

/// `s` without leading byte-order marks and then without leading ASCII whitespace.
pub open spec fn trimmed_start(s: Seq<char>) -> Seq<char> {
    trim_start_ascii(drop_leading(s, '\u{feff}'))
}

proof fn lemma_trim_start_ascii_skip(s: Seq<char>, i: int)
    requires
        0 <= i <= s.len(),
        forall|k: int| 0 <= k < i ==> is_ascii_ws(s[k]),
        i < s.len() ==> !is_ascii_ws(s[i]),
    ensures
        trim_start_ascii(s) == s.skip(i),
    decreases i,
{
    if i > 0 {
        lemma_trim_start_ascii_skip(s.drop_first(), i - 1);
        assert(s.drop_first().skip(i - 1) == s.skip(i));
    } else {
        assert(s.skip(0) == s);
    }
}

/// `v` without leading byte-order marks and then without leading ASCII whitespace.
pub fn trimmed_start_chars(v: &[char]) -> (r: Vec<char>)
    ensures
        r@ == trimmed_start(v@),
{
    let t = drop_leading_chars(v, '\u{feff}');
    let n = t.len();
    let mut i: usize = 0;
    while i < n && (t[i] == ' ' || t[i] == '\t' || t[i] == '\n' || t[i] == '\x0C' || t[i]
        == '\r')
        invariant
            n == t@.len(),
            i <= n,
            forall|k: int| 0 <= k < i ==> is_ascii_ws(t@[k]),
        decreases n - i,
    {
        i = i + 1;
    }
    proof {
        lemma_trim_start_ascii_skip(t@, i as int);
        assert(t@.skip(i as int) == t@.subrange(i as int, n as int));
    }
    slice_range(&t, i, n)
}

/// A file that looks like an IIF export: named `.iif`, or naming an account,
/// customer or vendor list section in its first 2048 characters.
pub open spec fn looks_like_iif(content: Seq<char>, hint_lower: Seq<char>) -> bool {
    let sample = prefix(content, 2048);
    ||| ends_with(hint_lower, ".iif"@)
    ||| contains(sample, "!ACCNT"@)
    ||| contains(sample, "!CUST"@)
    ||| contains(sample, "!VEND"@)
}

/// A file that looks like a CSV export: named `.csv` or `.txt`, or with a first
/// line that holds a comma and does not start with `!`.
pub open spec fn looks_like_csv(content: Seq<char>, hint_lower: Seq<char>) -> bool {
    let first = drop_leading(split_on(content, '\n')[0], '\u{feff}');
    ||| ends_with(hint_lower, ".csv"@)
    ||| ends_with(hint_lower, ".txt"@)
    ||| content.len() > 0 && contains(first, ","@) && !starts_with(first, "!"@)
}

/// A file that looks like an OFX or QFX bank download.
pub open spec fn looks_like_ofx(content: Seq<char>, hint_lower: Seq<char>) -> bool {
    ||| ends_with(hint_lower, ".ofx"@)
    ||| ends_with(hint_lower, ".qfx"@)
    ||| contains(ascii_upper(prefix(content, 64)), "OFXHEADER"@)
    ||| starts_with(trimmed_start(content), "<OFX"@)
}

fn prefix_chars(v: &[char], n: usize) -> (r: Vec<char>)
    ensures
        r@ == prefix(v@, n as int),
{
    if v.len() > n {
        let r = slice_range(v, 0, n);
        assert(v@.take(n as int) == v@.subrange(0, n as int));
        r
    } else {
        slice_range(v, 0, v.len())
    }
}

/// Whether a file looks like an IIF export.
pub fn is_iif_file(content: &[char], hint_lower: &[char]) -> (r: bool)
    ensures
        r == looks_like_iif(content@, hint_lower@),
{
    if ends_with_chars(hint_lower, &chars_of(".iif")) {
        return true;
    }
    let sample = prefix_chars(content, 2048);
    contains_chars(&sample, &chars_of("!ACCNT")) || contains_chars(&sample, &chars_of("!CUST"))
        || contains_chars(&sample, &chars_of("!VEND"))
}

/// Whether a file looks like a CSV export.
pub fn is_csv_file(content: &[char], hint_lower: &[char]) -> (r: bool)
    ensures
        r == looks_like_csv(content@, hint_lower@),
{
    if ends_with_chars(hint_lower, &chars_of(".csv")) || ends_with_chars(
        hint_lower,
        &chars_of(".txt"),
    ) {
        return true;
    }
    if content.len() == 0 {
        return false;
    }
    let lines = split_chars(content, '\n');
    assert(views_of(lines@)[0] == lines@[0]@);
    let first = drop_leading_chars(&lines[0], '\u{feff}');
    contains_chars(&first, &chars_of(",")) && !starts_with_chars(&first, &chars_of("!"))
}

/// Whether a file looks like an OFX or QFX bank download.
pub fn is_ofx_file(content: &[char], hint_lower: &[char]) -> (r: bool)
    ensures
        r == looks_like_ofx(content@, hint_lower@),
{
    ends_with_chars(hint_lower, &chars_of(".ofx")) || ends_with_chars(
        hint_lower,
        &chars_of(".qfx"),
    ) || contains_chars(&to_ascii_upper(&prefix_chars(content, 64)), &chars_of("OFXHEADER"))
        || starts_with_chars(&trimmed_start_chars(content), &chars_of("<OFX"))
}

/// A batch with no rows at all.
pub open spec fn batch_is_empty(b: BatchRows) -> bool {
    b.accounts.len() == 0 && b.customers.len() == 0 && b.vendors.len() == 0 && b.items.len() == 0
}

/// An export read from a file: its format (`iif` or `csv`), its rows, the rows
/// the reader skipped, and the reader's warnings.
#[derive(Debug, Clone)]
pub struct ParsedImport {
    pub format: String,
    pub batch: ImportBatch,
    pub skipped: usize,
    pub warnings: Vec<String>,
}

/// The message for a bank download.
pub open spec fn ofx_message() -> Seq<char> {
    "OFX/QFX bank downloads are not imported here — export Lists or Chart of Accounts as IIF or CSV from QuickBooks."@
}

/// The message for a file of no known format.
pub open spec fn unknown_format_message() -> Seq<char> {
    "Could not detect a supported QuickBooks export (try .iif or .csv)."@
}

/// The message for a file without importable rows.
pub open spec fn no_rows_message() -> Seq<char> {
    "No importable rows found (accounts, customers, vendors, or items)."@
}

/// `r` is the outcome of reading a file in `format` whose reader gave `rows`,
/// `skipped` and `warnings` (or an error): a validation error for a reader error
/// or for a file without rows, else the rows.
pub open spec fn import_read_is(
    r: Result<ParsedImport, DbCommandError>,
    format: Seq<char>,
    outcome: Result<(BatchRows, int, Seq<Seq<char>>), Seq<char>>,
) -> bool {
    match outcome {
        Err(e) => r matches Err(DbCommandError::Validation { message }) && message@ == e,
        Ok((rows, skipped, warnings)) => if batch_is_empty(rows) {
            r matches Err(DbCommandError::Validation { message }) && message@ == no_rows_message()
        } else {
            r matches Ok(p) && p.format@ == format && p.batch@ == rows && p.skipped == skipped
                && p.warnings@.map_values(|w: String| w@) == warnings
        },
    }
}

/// What the IIF reader makes of `t`.
pub open spec fn iif_outcome(t: Seq<char>) -> Result<(BatchRows, int, Seq<Seq<char>>), Seq<char>> {
    let sc = iif::iif_scan(split_on(t, '\n'));
    Ok(
        (
            sc.rows,
            sc.skipped,
            if sc.skipped > 0 {
                seq![iif::skipped_warning(sc.skipped as nat)]
            } else {
                Seq::empty()
            },
        ),
    )
}

/// What the CSV reader makes of `t`.
pub open spec fn csv_file_outcome(t: Seq<char>) -> Result<(BatchRows, int, Seq<Seq<char>>), Seq<char>> {
    match qb_csv::csv_table(t, qb_csv::delimiter_of(t)) {
        Err(e) => Err(e),
        Ok((h, recs)) => match qb_csv::csv_outcome(h, recs) {
            Err(e) => Err(e),
            Ok(sc) => Ok((sc.rows, sc.skipped, Seq::empty())),
        },
    }
}

/// Reads an export file: refuses bank downloads, reads IIF or CSV (judged by the
/// file name and the content, without leading byte-order marks), and refuses a
/// file of no known format or without importable rows.
pub fn read_import(content: &str, filename_hint: &str) -> (r: Result<ParsedImport, DbCommandError>)
    ensures
        ({
            let t = drop_leading(content@, '\u{feff}');
            let hint = ascii_lower(filename_hint@);
            if looks_like_ofx(t, hint) {
                r matches Err(DbCommandError::Validation { message }) && message@ == ofx_message()
            } else if looks_like_iif(t, hint) {
                import_read_is(r, "iif"@, iif_outcome(t))
            } else if looks_like_csv(t, hint) {
                import_read_is(r, "csv"@, csv_file_outcome(t))
            } else {
                r matches Err(DbCommandError::Validation { message }) && message@
                    == unknown_format_message()
            }
        }),
{
    let hint = to_ascii_lower(&chars_of(filename_hint));
    let t = drop_leading_chars(&chars_of(content), '\u{feff}');
    let text = string_of(&t);
    if is_ofx_file(&t, &hint) {
        return Err(
            DbCommandError::Validation {
                message: "OFX/QFX bank downloads are not imported here — export Lists or Chart of Accounts as IIF or CSV from QuickBooks.".to_owned(),
            },
        );
    }
    let (format, batch, skipped, warnings) = if is_iif_file(&t, &hint) {
        match iif::parse_iif(text.as_str()) {
            Ok((b, sk, w)) => {
                assert(w@.map_values(|x: String| x@) =~= (if sk > 0 {
                    seq![iif::skipped_warning(sk as nat)]
                } else {
                    Seq::<Seq<char>>::empty()
                }));
                ("iif", b, sk, w)
            },
            Err(e) => {
                return Err(DbCommandError::Validation { message: e });
            },
        }
    } else if is_csv_file(&t, &hint) {
        match qb_csv::parse_csv(text.as_str()) {
            Ok((b, sk, w)) => {
                assert(w@.map_values(|x: String| x@) =~= Seq::<Seq<char>>::empty());
                ("csv", b, sk, w)
            },
            Err(e) => {
                return Err(DbCommandError::Validation { message: e });
            },
        }
    } else {
        return Err(
            DbCommandError::Validation {
                message: "Could not detect a supported QuickBooks export (try .iif or .csv).".to_owned(),
            },
        );
    };
    if batch.accounts.len() == 0 && batch.customers.len() == 0 && batch.vendors.len() == 0
        && batch.items.len() == 0 {
        return Err(
            DbCommandError::Validation {
                message: "No importable rows found (accounts, customers, vendors, or items).".to_owned(),
            },
        );
    }
    Ok(ParsedImport { format: format.to_owned(), batch, skipped, warnings })
}

/// How an export is recognised: a name ending in `.iif`, or an `!ACCNT`, `!CUST`
/// or `!VEND` header near the start, marks an IIF file; a name ending in `.csv`
/// or `.txt` marks a CSV file; a name ending in `.ofx` or `.qfx`, or a text
/// starting with `<OFX`, marks a bank download.
pub proof fn law_export_kinds(content: Seq<char>, hint_lower: Seq<char>)
    ensures
        ends_with(hint_lower, ".iif"@) ==> looks_like_iif(content, hint_lower),
        contains(prefix(content, 2048), "!ACCNT"@) ==> looks_like_iif(content, hint_lower),
        contains(prefix(content, 2048), "!CUST"@) ==> looks_like_iif(content, hint_lower),
        contains(prefix(content, 2048), "!VEND"@) ==> looks_like_iif(content, hint_lower),
        ends_with(hint_lower, ".csv"@) ==> looks_like_csv(content, hint_lower),
        ends_with(hint_lower, ".txt"@) ==> looks_like_csv(content, hint_lower),
        ends_with(hint_lower, ".ofx"@) ==> looks_like_ofx(content, hint_lower),
        ends_with(hint_lower, ".qfx"@) ==> looks_like_ofx(content, hint_lower),
        starts_with(trimmed_start(content), "<OFX"@) ==> looks_like_ofx(content, hint_lower),
{
}

} // verus!

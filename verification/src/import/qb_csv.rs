//! CSV (comma- or tab-separated) QuickBooks list export reading.
use vstd::prelude::*;

use crate::import::iif::{money_minor, non_empty, parse_money_minor, slug_code, slug_code_of};
use crate::import::{
    AccountRow, BatchRows, ContactRow, ImportBatch, ItemRow, ParsedAccount, ParsedContact,
    ParsedItem,
};
use crate::text::{
    all_ascii, ascii_lower, chars_eq, chars_of, contains, contains_chars, drop_whitespace, ends_with, ends_with_chars,
    split_chars, split_on, string_of, to_lower, trim, trim_chars, unicode_lower, views_of,
    without_whitespace,
};

verus! {

/// What the `csv` reader (given delimiter, rows of any length, fields trimmed)
/// reads from `content`: the header row and the records, or the text of its error.
pub uninterp spec fn csv_table(content: Seq<char>, delimiter: u8) -> Result<
    (Seq<Seq<char>>, Seq<Seq<Seq<char>>>),
    Seq<char>,
>;

/// The texts of a row of strings.
pub open spec fn row_texts(r: Seq<String>) -> Seq<Seq<char>> {
    r.map_values(|s: String| s@)
}

/// The texts of a table read by the `csv` reader.
pub open spec fn table_view(r: Result<(Vec<String>, Vec<Vec<String>>), String>) -> Result<
    (Seq<Seq<char>>, Seq<Seq<Seq<char>>>),
    Seq<char>,
> {
    match r {
        Ok((h, rs)) => Ok((row_texts(h@), rs@.map_values(|row: Vec<String>| row_texts(row@)))),
        Err(e) => Err(e@),
    }
}

/// `csv::ReaderBuilder` with the given delimiter, flexible rows and trimmed
/// fields, reading `content`: its header row and records, or its error as text.
/// The result is named by `csv_table`; nothing more is claimed of it.
#[verifier::external_body]
fn read_csv_table(content: &str, delimiter: u8) -> (r: Result<(Vec<String>, Vec<Vec<String>>), String>)
    ensures
        table_view(r) == csv_table(content@, delimiter),
{
    let mut rdr = csv::ReaderBuilder::new().delimiter(delimiter).flexible(true).trim(
        csv::Trim::Fields,
    ).from_reader(content.as_bytes());
    let headers: Vec<String> = match rdr.headers() {
        Ok(h) => h.iter().map(|s| s.to_string()).collect(),
        Err(e) => return Err(e.to_string()),
    };
    let mut rows: Vec<Vec<String>> = Vec::new();
    for rec in rdr.records() {
        match rec {
            Ok(r) => rows.push(r.iter().map(|s| s.to_string()).collect()),
            Err(e) => return Err(e.to_string()),
        }
    }
    Ok((headers, rows))
}

/// Number of occurrences of `c` in `s`.
pub open spec fn count_char(s: Seq<char>, c: char) -> int
    decreases s.len(),
{
    if s.len() == 0 {
        0
    } else {
        count_char(s.drop_last(), c) + if s.last() == c {
            1int
        } else {
            0
        }
    }
}

/// The delimiter of a CSV export: tab when its first line has more tabs than
/// commas, comma otherwise.
pub open spec fn delimiter_of(content: Seq<char>) -> u8 {
    let first = split_on(content, '\n')[0];
    if count_char(first, '\t') > count_char(first, ',') {
        9u8
    } else {
        44u8
    }
}

fn count_chars(v: &[char], c: char) -> (r: usize)
    ensures
        r == count_char(v@, c),
{
    let mut n: usize = 0;
    let mut k: usize = 0;
    while k < v.len()
        invariant
            k <= v@.len(),
            n == count_char(v@.take(k as int), c),
            n <= k,
        decreases v@.len() - k,
    {
        assert(v@.take(k + 1).drop_last() == v@.take(k as int));
        assert(v@.take(k + 1).last() == v@[k as int]);
        if v[k] == c {
            n = n + 1;
        }
        k = k + 1;
    }
    assert(v@.take(v@.len() as int) == v@);
    n
}

/// The delimiter of a CSV export (see [`delimiter_of`]).
pub fn sniff_delimiter(content: &str) -> (r: u8)
    ensures
        r == delimiter_of(content@),
{
    let lines = split_chars(&chars_of(content), '\n');
    assert(views_of(lines@)[0] == lines@[0]@);
    let commas = count_chars(&lines[0], ',');
    let tabs = count_chars(&lines[0], '\t');
    if tabs > commas {
        9u8
    } else {
        44u8
    }
}

/// A CSV header as compared: trimmed, lower-cased, without whitespace.
pub open spec fn norm_csv(s: Seq<char>) -> Seq<char> {
    drop_whitespace(unicode_lower(trim(s)))
}

/// A CSV header as compared.
pub fn norm_header(v: &[char]) -> (r: Vec<char>)
    ensures
        r@ == norm_csv(v@),
{
    let t = trim_chars(v);
    let l = to_lower(string_of(&t).as_str());
    without_whitespace(&chars_of(l.as_str()))
}

/// `h` names one of `aliases`.
pub open spec fn col_hit(h: Seq<char>, aliases: Seq<Seq<char>>) -> bool {
    exists|k: int| 0 <= k < aliases.len() && norm_csv(h) == norm_csv(aliases[k])
}

/// `i` is the first column that names one of `aliases`.
pub open spec fn first_col(headers: Seq<Seq<char>>, aliases: Seq<Seq<char>>, i: int) -> bool {
    &&& 0 <= i < headers.len()
    &&& col_hit(headers[i], aliases)
    &&& forall|j: int| 0 <= j < i ==> !col_hit(#[trigger] headers[j], aliases)
}

/// The position of the first column that names one of `aliases`.
pub open spec fn col_index(headers: Seq<Seq<char>>, aliases: Seq<Seq<char>>) -> Option<int> {
    if exists|i: int| first_col(headers, aliases, i) {
        Some(choose|i: int| first_col(headers, aliases, i))
    } else {
        None
    }
}

proof fn lemma_first_col_unique(headers: Seq<Seq<char>>, aliases: Seq<Seq<char>>, i: int, k: int)
    requires
        first_col(headers, aliases, i),
        first_col(headers, aliases, k),
    ensures
        i == k,
{
    if i < k {
        assert(!col_hit(headers[i], aliases));
    } else if k < i {
        assert(!col_hit(headers[k], aliases));
    }
}

/// The position of the first column that names one of `aliases`.
pub fn col_idx(headers: &[Vec<char>], aliases: &[&str]) -> (r: Option<usize>)
    ensures
        crate::import::iif::opt_int(r) == col_index(
            views_of(headers@),
            crate::import::iif::texts(aliases@),
        ),
{
    let ghost hs = views_of(headers@);
    let ghost al = crate::import::iif::texts(aliases@);
    let n = headers.len();
    let mut i: usize = 0;
    while i < n
        invariant
            n == headers@.len(),
            hs == views_of(headers@),
            al == crate::import::iif::texts(aliases@),
            i <= n,
            forall|j: int| 0 <= j < i ==> !col_hit(#[trigger] hs[j], al),
        decreases n - i,
    {
        let nh = norm_header(&headers[i]);
        let m = aliases.len();
        let mut k: usize = 0;
        while k < m
            invariant
                n == headers@.len(),
                hs == views_of(headers@),
                al == crate::import::iif::texts(aliases@),
                i < n,
                m == aliases@.len(),
                k <= m,
                nh@ == norm_csv(hs[i as int]),
                forall|j: int| 0 <= j < i ==> !col_hit(#[trigger] hs[j], al),
                forall|j: int| 0 <= j < k ==> norm_csv(hs[i as int]) != norm_csv(al[j]),
            decreases m - k,
        {
            let na = norm_header(&chars_of(aliases[k]));
            if chars_eq(&nh, &na) {
                proof {
                    assert(al[k as int] == aliases@[k as int]@);
                    assert(col_hit(hs[i as int], al));
                    assert(first_col(hs, al, i as int));
                    let c = choose|c: int| first_col(hs, al, c);
                    lemma_first_col_unique(hs, al, i as int, c);
                }
                return Some(i);
            }
            k = k + 1;
        }
        i = i + 1;
    }
    proof {
        assert forall|c: int| !first_col(hs, al, c) by {
            if 0 <= c < hs.len() {
                assert(!col_hit(hs[c], al));
            }
        }
    }
    None
}

/// The kind of list a CSV export holds, judged from its headers.
#[derive(Debug, Clone, Copy, PartialEq, Eq, Structural)]
pub enum CsvProfile {
    Customers,
    Vendors,
    Accounts,
    Items,
    MixedLists,
}

/// A normalized header that names the customer.
pub open spec fn is_customer_col(h: Seq<char>, n: Seq<Seq<char>>) -> bool {
    ||| h == "customer"@
    ||| h == "fullname"@
    ||| ends_with(h, "customername"@)
    ||| h == "displayname"@ && exists|x: int| 0 <= x < n.len() && contains(n[x], "customer"@)
}

/// Some normalized header names the customer.
pub open spec fn has_customer_col(n: Seq<Seq<char>>) -> bool {
    exists|i: int| 0 <= i < n.len() && is_customer_col(n[i], n)
}

/// A normalized header that names the vendor.
pub open spec fn is_vendor_col(h: Seq<char>, n: Seq<Seq<char>>) -> bool {
    ||| h == "vendor"@
    ||| ends_with(h, "vendorname"@)
    ||| h == "companyname"@ && !has_customer_col(n)
}

/// A normalized header that names an account's name or type.
pub open spec fn is_account_name_col(h: Seq<char>) -> bool {
    contains(h, "account"@) && (contains(h, "name"@) || contains(h, "type"@))
}

/// A normalized header that names an account's number.
pub open spec fn is_account_number_col(h: Seq<char>) -> bool {
    contains(h, "account"@) && (contains(h, "number"@) || contains(h, "#"@))
}

/// A normalized header that names an item.
pub open spec fn is_item_col(h: Seq<char>) -> bool {
    ||| contains(h, "item"@) && (contains(h, "name"@) || h == "item"@)
    ||| h == "productservice"@
    ||| h == "product/service"@
}

/// The kind of list that normalized headers `n` describe: accounts when they name
/// an account's name or type and its number (and no customer or vendor), items
/// when they name an item (and no customer), then vendors, then customers, and a
/// mixed customer/vendor list otherwise.
pub open spec fn profile_of(n: Seq<Seq<char>>) -> CsvProfile {
    let cust = has_customer_col(n);
    let vend = exists|i: int| 0 <= i < n.len() && is_vendor_col(n[i], n);
    let account = (exists|i: int| 0 <= i < n.len() && is_account_name_col(n[i])) && (exists|
        i: int,
    |
        0 <= i < n.len() && is_account_number_col(n[i]));
    let item = exists|i: int| 0 <= i < n.len() && is_item_col(n[i]);
    if account && !cust && !vend {
        CsvProfile::Accounts
    } else if item && !cust {
        CsvProfile::Items
    } else if vend && !cust {
        CsvProfile::Vendors
    } else if cust {
        CsvProfile::Customers
    } else if vend {
        CsvProfile::Vendors
    } else {
        CsvProfile::MixedLists
    }
}

fn is_word(h: &[char], w: &str) -> (r: bool)
    ensures
        r == (h@ == w@),
{
    chars_eq(h, &chars_of(w))
}

fn has_text(h: &[char], w: &str) -> (r: bool)
    ensures
        r == contains(h@, w@),
{
    contains_chars(h, &chars_of(w))
}

/// The kind of list that a CSV export's headers describe (see [`profile_of`]).
pub fn detect_profile(headers: &[Vec<char>]) -> (r: CsvProfile)
    ensures
        r == profile_of(views_of(headers@).map_values(|h: Seq<char>| norm_csv(h))),
{
    let ghost n_spec = views_of(headers@).map_values(|h: Seq<char>| norm_csv(h));
    let mut n: Vec<Vec<char>> = Vec::new();
    let len = headers.len();
    let mut k: usize = 0;
    while k < len
        invariant
            len == headers@.len(),
            k <= len,
            n_spec == views_of(headers@).map_values(|h: Seq<char>| norm_csv(h)),
            n@.len() == k,
            forall|j: int| 0 <= j < k ==> (#[trigger] n@[j])@ == n_spec[j],
        decreases len - k,
    {
        n.push(norm_header(&headers[k]));
        k = k + 1;
    }
    assert(views_of(n@) =~= n_spec);
    let ghost ns = views_of(n@);
    let m = n.len();
    let mut any_customer_text = false;
    let mut i: usize = 0;
    while i < m
        invariant
            m == n@.len(),
            ns == views_of(n@),
            i <= m,
            any_customer_text == exists|x: int| 0 <= x < i && contains(ns[x], "customer"@),
        decreases m - i,
    {
        assert(ns[i as int] == n@[i as int]@);
        if has_text(&n[i], "customer") {
            any_customer_text = true;
        }
        i = i + 1;
    }
    let mut cust = false;
    let mut item = false;
    let mut acct_name = false;
    let mut acct_number = false;
    i = 0;
    while i < m
        invariant
            m == n@.len(),
            ns == views_of(n@),
            i <= m,
            any_customer_text == exists|x: int| 0 <= x < m && contains(ns[x], "customer"@),
            cust == exists|x: int| 0 <= x < i && is_customer_col(ns[x], ns),
            item == exists|x: int| 0 <= x < i && is_item_col(ns[x]),
            acct_name == exists|x: int| 0 <= x < i && is_account_name_col(ns[x]),
            acct_number == exists|x: int| 0 <= x < i && is_account_number_col(ns[x]),
        decreases m - i,
    {
        let h = &n[i];
        assert(ns[i as int] == h@);
        if is_word(h, "customer") || is_word(h, "fullname") || ends_with_chars(
            h,
            &chars_of("customername"),
        ) || (is_word(h, "displayname") && any_customer_text) {
            cust = true;
        }
        let has_account = has_text(h, "account");
        if has_account && (has_text(h, "name") || has_text(h, "type")) {
            acct_name = true;
        }
        if has_account && (has_text(h, "number") || has_text(h, "#")) {
            acct_number = true;
        }
        if (has_text(h, "item") && (has_text(h, "name") || is_word(h, "item"))) || is_word(
            h,
            "productservice",
        ) || is_word(h, "product/service") {
            item = true;
        }
        i = i + 1;
    }
    let mut vend = false;
    i = 0;
    while i < m
        invariant
            m == n@.len(),
            ns == views_of(n@),
            i <= m,
            cust == has_customer_col(ns),
            vend == exists|x: int| 0 <= x < i && is_vendor_col(ns[x], ns),
        decreases m - i,
    {
        let h = &n[i];
        assert(ns[i as int] == h@);
        if is_word(h, "vendor") || ends_with_chars(h, &chars_of("vendorname")) || (is_word(
            h,
            "companyname",
        ) && !cust) {
            vend = true;
        }
        i = i + 1;
    }
    if acct_name && acct_number && !cust && !vend {
        return CsvProfile::Accounts;
    }
    if item && !cust {
        return CsvProfile::Items;
    }
    if vend && !cust {
        return CsvProfile::Vendors;
    }
    if cust {
        return CsvProfile::Customers;
    }
    if vend {
        return CsvProfile::Vendors;
    }
    CsvProfile::MixedLists
}

/// The account type that a lower-cased CSV account type describes.
pub open spec fn csv_kind_of(u: Seq<char>) -> Seq<char> {
    if contains(u, "bank"@) || contains(u, "accounts receivable"@) || contains(
        u,
        "other current asset"@,
    ) || contains(u, "inventory"@) || contains(u, "fixed asset"@) || contains(u, "asset"@) {
        "asset"@
    } else if contains(u, "credit card"@) || contains(u, "accounts payable"@) || contains(
        u,
        "liabilit"@,
    ) || contains(u, "loan"@) {
        "liability"@
    } else if contains(u, "equity"@) {
        "equity"@
    } else if contains(u, "income"@) || contains(u, "revenue"@) {
        "income"@
    } else {
        "expense"@
    }
}

/// Whether a lower-cased CSV account type describes a bank or cash account.
pub open spec fn csv_bank_words(u: Seq<char>) -> bool {
    contains(u, "bank"@) || contains(u, "checking"@) || contains(u, "savings"@) || contains(
        u,
        "cash"@,
    )
}

/// The account type that a CSV account type describes.
pub open spec fn csv_kind(t: Seq<char>) -> Seq<char> {
    csv_kind_of(unicode_lower(trim(t)))
}

/// Whether a CSV account type describes a bank or cash account.
pub open spec fn csv_is_bank(t: Seq<char>) -> bool {
    csv_bank_words(unicode_lower(trim(t)))
}

/// Maps a CSV account type to an account type and whether it is bank or cash.
pub fn map_csv_account_type(t: &[char]) -> (r: (&'static str, bool))
    ensures
        r.0@ == csv_kind(t@),
        r.1 == csv_is_bank(t@),
        all_ascii(trim(t@)) ==> r.0@ == csv_kind_of(ascii_lower(trim(t@))),
        all_ascii(trim(t@)) ==> r.1 == csv_bank_words(ascii_lower(trim(t@))),
{
    let tt = trim_chars(t);
    let u = chars_of(to_lower(string_of(&tt).as_str()).as_str());
    let bank = has_text(&u, "bank") || has_text(&u, "checking") || has_text(&u, "savings")
        || has_text(&u, "cash");
    let kind = if has_text(&u, "bank") || has_text(&u, "accounts receivable") || has_text(
        &u,
        "other current asset",
    ) || has_text(&u, "inventory") || has_text(&u, "fixed asset") || has_text(&u, "asset") {
        "asset"
    } else if has_text(&u, "credit card") || has_text(&u, "accounts payable") || has_text(
        &u,
        "liabilit",
    ) || has_text(&u, "loan") {
        "liability"
    } else if has_text(&u, "equity") {
        "equity"
    } else if has_text(&u, "income") || has_text(&u, "revenue") {
        "income"
    } else {
        "expense"
    };
    (kind, bank)
}

/// The trimmed, non-empty value of the first column named by `aliases`.
pub open spec fn csv_field(rec: Seq<Seq<char>>, h: Seq<Seq<char>>, aliases: Seq<Seq<char>>) -> Option<
    Seq<char>,
> {
    match col_index(h, aliases) {
        Some(i) => if i < rec.len() {
            non_empty(Some(trim(rec[i])))
        } else {
            None
        },
        None => None,
    }
}

/// The trimmed, non-empty value of the first column named by `aliases`.
pub fn get_field(rec: &[Vec<char>], headers: &[Vec<char>], aliases: &[&str]) -> (r: Option<
    Vec<char>,
>)
    ensures
        crate::import::iif::opt_chars(r) == csv_field(
            views_of(rec@),
            views_of(headers@),
            crate::import::iif::texts(aliases@),
        ),
{
    match col_idx(headers, aliases) {
        None => None,
        Some(i) => {
            if i < rec.len() {
                assert(views_of(rec@)[i as int] == rec@[i as int]@);
                let t = trim_chars(&rec[i]);
                if t.len() > 0 {
                    Some(t)
                } else {
                    None
                }
            } else {
                None
            }
        },
    }
}

/// Column names of a customer's name.
pub open spec fn customer_name_cols() -> Seq<Seq<char>> {
    seq!["Customer"@, "Full Name"@, "Display Name"@, "Name"@, "Company Name"@, "Customer Name"@]
}

/// Column names of a vendor's name.
pub open spec fn vendor_name_cols() -> Seq<Seq<char>> {
    seq!["Vendor"@, "Company Name"@, "Full Name"@, "Display Name"@, "Name"@]
}

/// The customer on a CSV row, if it names one.
pub open spec fn customer_row(h: Seq<Seq<char>>, rec: Seq<Seq<char>>) -> Option<ContactRow> {
    match csv_field(rec, h, customer_name_cols()) {
        None => None,
        Some(name) => Some(
            ContactRow {
                display_name: name,
                email: csv_field(rec, h, seq!["Email"@, "E-mail"@, "E-Mail"@]),
                phone: csv_field(rec, h, seq!["Phone"@, "Mobile"@, "Main Phone"@, "Work Phone"@]),
            },
        ),
    }
}

/// The vendor on a CSV row, if it names one.
pub open spec fn vendor_row(h: Seq<Seq<char>>, rec: Seq<Seq<char>>) -> Option<ContactRow> {
    match csv_field(rec, h, vendor_name_cols()) {
        None => None,
        Some(name) => Some(
            ContactRow {
                display_name: name,
                email: csv_field(rec, h, seq!["Email"@, "E-mail"@]),
                phone: csv_field(rec, h, seq!["Phone"@, "Main Phone"@, "Work Phone"@]),
            },
        ),
    }
}

/// The account on a CSV row, if it names one.
pub open spec fn account_row(h: Seq<Seq<char>>, rec: Seq<Seq<char>>) -> Option<AccountRow> {
    match csv_field(rec, h, seq!["Account Name"@, "Name"@, "Full Name"@, "Description"@]) {
        None => None,
        Some(name) => {
            let code = match csv_field(
                rec,
                h,
                seq!["Account Number"@, "Acct No"@, "Number"@, "No."@, "Account #"@],
            ) {
                Some(c) => c,
                None => slug_code(name),
            };
            let t = match csv_field(
                rec,
                h,
                seq!["Account Type"@, "Type"@, "Detail Type"@, "Kind"@],
            ) {
                Some(x) => x,
                None => ""@,
            };
            Some(
                AccountRow {
                    code,
                    name,
                    account_type: csv_kind(t),
                    is_bank_cash: csv_is_bank(t),
                },
            )
        },
    }
}

/// The item on a CSV row, if it names one.
pub open spec fn item_row(h: Seq<Seq<char>>, rec: Seq<Seq<char>>) -> Option<ItemRow> {
    match csv_field(rec, h, seq!["Item Name"@, "Name"@, "Product/Service Name"@, "Item"@]) {
        None => None,
        Some(name) => {
            let price = match csv_field(
                rec,
                h,
                seq!["Sales Price"@, "Price"@, "Rate"@, "Amount"@],
            ) {
                Some(x) => x,
                None => ""@,
            };
            Some(
                ItemRow {
                    name,
                    unit_price_minor: match money_minor(price) {
                        Some(v) => v,
                        None => 0,
                    },
                    income_account_name: csv_field(
                        rec,
                        h,
                        seq!["Income Account"@, "Income"@, "Sales Account"@],
                    ),
                },
            )
        },
    }
}

fn opt_string(o: Option<Vec<char>>) -> (r: Option<String>)
    ensures
        crate::import::opt_text(r) == crate::import::iif::opt_chars(o),
{
    match o {
        Some(v) => Some(string_of(&v)),
        None => None,
    }
}

/// Reads the customer on a CSV row.
pub fn row_customer(headers: &[Vec<char>], rec: &[Vec<char>]) -> (r: Option<ParsedContact>)
    ensures
        crate::import::iif::contact_view(r) == customer_row(views_of(headers@), views_of(rec@)),
{
    let names = ["Customer", "Full Name", "Display Name", "Name", "Company Name", "Customer Name"];
    let emails = ["Email", "E-mail", "E-Mail"];
    let phones = ["Phone", "Mobile", "Main Phone", "Work Phone"];
    assert(crate::import::iif::texts(names@) =~= customer_name_cols());
    assert(crate::import::iif::texts(emails@) =~= seq!["Email"@, "E-mail"@, "E-Mail"@]);
    assert(crate::import::iif::texts(phones@) =~= seq![
        "Phone"@,
        "Mobile"@,
        "Main Phone"@,
        "Work Phone"@,
    ]);
    let name = match get_field(rec, headers, &names) {
        None => {
            return None;
        },
        Some(n) => n,
    };
    let email = opt_string(get_field(rec, headers, &emails));
    let phone = opt_string(get_field(rec, headers, &phones));
    Some(ParsedContact { display_name: string_of(&name), email, phone })
}

/// Reads the vendor on a CSV row.
pub fn row_vendor(headers: &[Vec<char>], rec: &[Vec<char>]) -> (r: Option<ParsedContact>)
    ensures
        crate::import::iif::contact_view(r) == vendor_row(views_of(headers@), views_of(rec@)),
{
    let names = ["Vendor", "Company Name", "Full Name", "Display Name", "Name"];
    let emails = ["Email", "E-mail"];
    let phones = ["Phone", "Main Phone", "Work Phone"];
    assert(crate::import::iif::texts(names@) =~= vendor_name_cols());
    assert(crate::import::iif::texts(emails@) =~= seq!["Email"@, "E-mail"@]);
    assert(crate::import::iif::texts(phones@) =~= seq!["Phone"@, "Main Phone"@, "Work Phone"@]);
    let name = match get_field(rec, headers, &names) {
        None => {
            return None;
        },
        Some(n) => n,
    };
    let email = opt_string(get_field(rec, headers, &emails));
    let phone = opt_string(get_field(rec, headers, &phones));
    Some(ParsedContact { display_name: string_of(&name), email, phone })
}

/// Reads the account on a CSV row.
pub fn row_account(headers: &[Vec<char>], rec: &[Vec<char>]) -> (r: Option<ParsedAccount>)
    ensures
        crate::import::iif::account_view(r) == account_row(views_of(headers@), views_of(rec@)),
{
    let names = ["Account Name", "Name", "Full Name", "Description"];
    let codes = ["Account Number", "Acct No", "Number", "No.", "Account #"];
    let types = ["Account Type", "Type", "Detail Type", "Kind"];
    assert(crate::import::iif::texts(names@) =~= seq![
        "Account Name"@,
        "Name"@,
        "Full Name"@,
        "Description"@,
    ]);
    assert(crate::import::iif::texts(codes@) =~= seq![
        "Account Number"@,
        "Acct No"@,
        "Number"@,
        "No."@,
        "Account #"@,
    ]);
    assert(crate::import::iif::texts(types@) =~= seq![
        "Account Type"@,
        "Type"@,
        "Detail Type"@,
        "Kind"@,
    ]);
    let name = match get_field(rec, headers, &names) {
        None => {
            return None;
        },
        Some(n) => n,
    };
    let code = match get_field(rec, headers, &codes) {
        Some(c) => string_of(&c),
        None => slug_code_of(&name),
    };
    let t = match get_field(rec, headers, &types) {
        Some(x) => x,
        None => {
            proof {
                reveal_strlit("");
            }
            Vec::new()
        },
    };
    assert(t@ == (match csv_field(
        views_of(rec@),
        views_of(headers@),
        seq!["Account Type"@, "Type"@, "Detail Type"@, "Kind"@],
    ) {
        Some(x) => x,
        None => ""@,
    }));
    let (kind, bank) = map_csv_account_type(&t);
    let account_type = kind.to_owned();
    Some(ParsedAccount { code, name: string_of(&name), account_type, is_bank_cash: bank })
}

/// Reads the item on a CSV row.
pub fn row_item(headers: &[Vec<char>], rec: &[Vec<char>]) -> (r: Option<ParsedItem>)
    ensures
        crate::import::iif::item_view(r) == item_row(views_of(headers@), views_of(rec@)),
{
    let names = ["Item Name", "Name", "Product/Service Name", "Item"];
    let prices = ["Sales Price", "Price", "Rate", "Amount"];
    let incomes = ["Income Account", "Income", "Sales Account"];
    assert(crate::import::iif::texts(names@) =~= seq![
        "Item Name"@,
        "Name"@,
        "Product/Service Name"@,
        "Item"@,
    ]);
    assert(crate::import::iif::texts(prices@) =~= seq![
        "Sales Price"@,
        "Price"@,
        "Rate"@,
        "Amount"@,
    ]);
    assert(crate::import::iif::texts(incomes@) =~= seq![
        "Income Account"@,
        "Income"@,
        "Sales Account"@,
    ]);
    let name = match get_field(rec, headers, &names) {
        None => {
            return None;
        },
        Some(n) => n,
    };
    let price = match get_field(rec, headers, &prices) {
        Some(x) => x,
        None => {
            proof {
                reveal_strlit("");
            }
            Vec::new()
        },
    };
    assert(price@ == (match csv_field(
        views_of(rec@),
        views_of(headers@),
        seq!["Sales Price"@, "Price"@, "Rate"@, "Amount"@],
    ) {
        Some(x) => x,
        None => ""@,
    }));
    let unit_price_minor = match parse_money_minor(&price) {
        Some(v) => v,
        None => 0,
    };
    let income_account_name = opt_string(get_field(rec, headers, &incomes));
    Some(ParsedItem { name: string_of(&name), unit_price_minor, income_account_name })
}

/// Where the reading of CSV records stands.
pub struct CsvScan {
    pub rows: BatchRows,
    pub skipped: int,
}

/// The scan with one more row skipped.
pub open spec fn skip_row(st: CsvScan) -> CsvScan {
    CsvScan { skipped: st.skipped + 1, ..st }
}

/// Reads one record as the profile says; a record with no row of that kind is skipped.
/// A mixed list takes a customer row, else a vendor row.
pub open spec fn csv_step(st: CsvScan, h: Seq<Seq<char>>, rec: Seq<Seq<char>>, profile: CsvProfile) -> CsvScan {
    let r = st.rows;
    match profile {
        CsvProfile::Customers => match customer_row(h, rec) {
            Some(c) => CsvScan { rows: BatchRows { customers: r.customers.push(c), ..r }, ..st },
            None => skip_row(st),
        },
        CsvProfile::Vendors => match vendor_row(h, rec) {
            Some(v) => CsvScan { rows: BatchRows { vendors: r.vendors.push(v), ..r }, ..st },
            None => skip_row(st),
        },
        CsvProfile::Accounts => match account_row(h, rec) {
            Some(a) => CsvScan { rows: BatchRows { accounts: r.accounts.push(a), ..r }, ..st },
            None => skip_row(st),
        },
        CsvProfile::Items => match item_row(h, rec) {
            Some(it) => CsvScan { rows: BatchRows { items: r.items.push(it), ..r }, ..st },
            None => skip_row(st),
        },
        CsvProfile::MixedLists => match customer_row(h, rec) {
            Some(c) => CsvScan { rows: BatchRows { customers: r.customers.push(c), ..r }, ..st },
            None => match vendor_row(h, rec) {
                Some(v) => CsvScan { rows: BatchRows { vendors: r.vendors.push(v), ..r }, ..st },
                None => skip_row(st),
            },
        },
    }
}

/// The state after reading `recs` in order.
pub open spec fn csv_scan(h: Seq<Seq<char>>, recs: Seq<Seq<Seq<char>>>, profile: CsvProfile) -> CsvScan
    decreases recs.len(),
{
    if recs.len() == 0 {
        CsvScan {
            rows: BatchRows {
                accounts: Seq::empty(),
                customers: Seq::empty(),
                vendors: Seq::empty(),
                items: Seq::empty(),
            },
            skipped: 0,
        }
    } else {
        csv_step(csv_scan(h, recs.drop_last(), profile), h, recs.last(), profile)
    }
}

/// What the rows of a CSV table give: an error for a missing header row, else
/// the rows of the kind that the headers describe.
pub open spec fn csv_outcome(h: Seq<Seq<char>>, recs: Seq<Seq<Seq<char>>>) -> Result<CsvScan, Seq<char>> {
    if h.len() == 0 {
        Err("CSV has no header row."@)
    } else {
        Ok(csv_scan(h, recs, profile_of(h.map_values(|x: Seq<char>| norm_csv(x)))))
    }
}

/// `r` is what [`csv_outcome`] says of the table.
pub open spec fn csv_result_is(
    r: Result<(ImportBatch, usize, Vec<String>), String>,
    outcome: Result<CsvScan, Seq<char>>,
) -> bool {
    match outcome {
        Err(e) => r matches Err(x) && x@ == e,
        Ok(sc) => r matches Ok((b, sk, w)) && b@ == sc.rows && sk == sc.skipped && w@.len() == 0,
    }
}

fn strings_to_chars(v: &[String]) -> (r: Vec<Vec<char>>)
    ensures
        views_of(r@) == row_texts(v@),
{
    let mut out: Vec<Vec<char>> = Vec::new();
    let n = v.len();
    let mut k: usize = 0;
    while k < n
        invariant
            n == v@.len(),
            k <= n,
            out@.len() == k,
            forall|j: int| 0 <= j < k ==> (#[trigger] out@[j])@ == v@[j]@,
        decreases n - k,
    {
        out.push(chars_of(v[k].as_str()));
        k = k + 1;
    }
    assert(views_of(out@) =~= row_texts(v@));
    out
}

/// Builds the batch from the header row and records of a CSV table: an error when
/// there is no header row, else the rows of the kind the headers describe.
pub fn csv_batch(headers: &[String], records: &[Vec<String>]) -> (r: Result<
    (ImportBatch, usize, Vec<String>),
    String,
>)
    ensures
        csv_result_is(
            r,
            csv_outcome(row_texts(headers@), records@.map_values(|row: Vec<String>| row_texts(row@))),
        ),
{
    if headers.len() == 0 {
        return Err("CSV has no header row.".to_owned());
    }
    let ghost recs = records@.map_values(|row: Vec<String>| row_texts(row@));
    let hv = strings_to_chars(headers);
    let ghost h = views_of(hv@);
    let profile = detect_profile(&hv);
    let mut batch = ImportBatch {
        accounts: Vec::new(),
        customers: Vec::new(),
        vendors: Vec::new(),
        items: Vec::new(),
    };
    let mut skipped: usize = 0;
    assert(batch@.accounts =~= Seq::<AccountRow>::empty());
    assert(batch@.customers =~= Seq::<ContactRow>::empty());
    assert(batch@.vendors =~= Seq::<ContactRow>::empty());
    assert(batch@.items =~= Seq::<ItemRow>::empty());
    let n = records.len();
    let mut i: usize = 0;
    while i < n
        invariant
            n == records@.len(),
            recs == records@.map_values(|row: Vec<String>| row_texts(row@)),
            h == views_of(hv@),
            h == row_texts(headers@),
            profile == profile_of(h.map_values(|x: Seq<char>| norm_csv(x))),
            i <= n,
            skipped <= i,
            batch@ == csv_scan(h, recs.take(i as int), profile).rows,
            skipped == csv_scan(h, recs.take(i as int), profile).skipped,
        decreases n - i,
    {
        assert(recs.take(i + 1).drop_last() == recs.take(i as int));
        assert(recs.take(i + 1).last() == row_texts(records@[i as int]@));
        let rec = strings_to_chars(&records[i]);
        match profile {
            CsvProfile::Customers => match row_customer(&hv, &rec) {
                Some(c) => {
                    let ghost before = batch@;
                    batch.customers.push(c);
                    assert(batch@.customers =~= before.customers.push(c@));
                },
                None => {
                    skipped = skipped + 1;
                },
            },
            CsvProfile::Vendors => match row_vendor(&hv, &rec) {
                Some(v) => {
                    let ghost before = batch@;
                    batch.vendors.push(v);
                    assert(batch@.vendors =~= before.vendors.push(v@));
                },
                None => {
                    skipped = skipped + 1;
                },
            },
            CsvProfile::Accounts => match row_account(&hv, &rec) {
                Some(a) => {
                    let ghost before = batch@;
                    batch.accounts.push(a);
                    assert(batch@.accounts =~= before.accounts.push(a@));
                },
                None => {
                    skipped = skipped + 1;
                },
            },
            CsvProfile::Items => match row_item(&hv, &rec) {
                Some(it) => {
                    let ghost before = batch@;
                    batch.items.push(it);
                    assert(batch@.items =~= before.items.push(it@));
                },
                None => {
                    skipped = skipped + 1;
                },
            },
            CsvProfile::MixedLists => match row_customer(&hv, &rec) {
                Some(c) => {
                    let ghost before = batch@;
                    batch.customers.push(c);
                    assert(batch@.customers =~= before.customers.push(c@));
                },
                None => match row_vendor(&hv, &rec) {
                    Some(v) => {
                        let ghost before = batch@;
                        batch.vendors.push(v);
                        assert(batch@.vendors =~= before.vendors.push(v@));
                    },
                    None => {
                        skipped = skipped + 1;
                    },
                },
            },
        }
        i = i + 1;
    }
    assert(recs.take(n as int) == recs);
    Ok((batch, skipped, Vec::new()))
}

/// Reads the list in a CSV export: the delimiter is sniffed from the first line,
/// the `csv` reader splits the rows, and [`csv_batch`] builds the batch.
pub fn parse_csv(content: &str) -> (r: Result<(ImportBatch, usize, Vec<String>), String>)
    ensures
        match csv_table(content@, delimiter_of(content@)) {
            Err(e) => r matches Err(x) && x@ == e,
            Ok((h, recs)) => csv_result_is(r, csv_outcome(h, recs)),
        },
{
    let delim = sniff_delimiter(content);
    match read_csv_table(content, delim) {
        Err(e) => Err(e),
        Ok((headers, records)) => csv_batch(&headers, &records),
    }
}

/// The CSV account types and the account type each becomes: any mention of a
/// bank, accounts receivable, other current assets, inventory, fixed assets or
/// assets makes an asset; otherwise credit cards, accounts payable, liabilities
/// and loans make a liability; otherwise equity makes equity; otherwise income
/// or revenue makes income; anything else is an expense. A mention of a bank,
/// checking, savings or cash makes a bank or cash account, and a bank account
/// is an asset.
pub proof fn law_csv_account_types(u: Seq<char>)
    ensures
        contains(u, "bank"@) || contains(u, "accounts receivable"@) || contains(
            u,
            "other current asset"@,
        ) || contains(u, "inventory"@) || contains(u, "fixed asset"@) || contains(u, "asset"@)
            ==> csv_kind_of(u) == "asset"@,
        (contains(u, "credit card"@) || contains(u, "accounts payable"@) || contains(
            u,
            "liabilit"@,
        ) || contains(u, "loan"@)) && !(contains(u, "bank"@) || contains(
            u,
            "accounts receivable"@,
        ) || contains(u, "other current asset"@) || contains(u, "inventory"@) || contains(
            u,
            "fixed asset"@,
        ) || contains(u, "asset"@)) ==> csv_kind_of(u) == "liability"@,
        csv_kind_of(u) == "asset"@ || csv_kind_of(u) == "liability"@ || csv_kind_of(u)
            == "equity"@ || csv_kind_of(u) == "income"@ || csv_kind_of(u) == "expense"@,
        csv_bank_words(u) <==> (contains(u, "bank"@) || contains(u, "checking"@) || contains(
            u,
            "savings"@,
        ) || contains(u, "cash"@)),
        contains(u, "bank"@) ==> csv_bank_words(u) && csv_kind_of(u) == "asset"@,
{
}

} // verus!

//! IIF (tab-separated QuickBooks list export) reading.
use vstd::prelude::*;

use crate::import::{
    AccountRow, BatchRows, ContactRow, ImportBatch, ItemRow, ParsedAccount, ParsedContact,
    ParsedItem,
};
use crate::num::{
    all_digits, dec, digits_value, fmt_u64, is_digit, lemma_digits_value_nonneg, parse_i64,
    parse_int_chars,
};
use crate::text::{
    drop_leading_chars, alphanumeric_only, ascii_alnum_only, chars_eq, chars_of, concat, drop_leading,
    keep_alphanumeric, keep_ascii_alnum, slice_range, split_chars, split_on, string_of,
    all_ascii, ascii_upper, to_ascii_upper, to_upper, trim, trim_chars, unicode_upper, views_of,
};

verus! {

/// A header name as compared: trimmed, upper-cased, letters and digits only.
pub open spec fn norm_iif(s: Seq<char>) -> Seq<char> {
    keep_alphanumeric(unicode_upper(trim(s)))
}

/// `h` names one of `aliases`.
pub open spec fn header_hit(h: Seq<char>, aliases: Seq<Seq<char>>) -> bool {
    exists|k: int| 0 <= k < aliases.len() && norm_iif(h) == norm_iif(aliases[k])
}

/// `i` is the first header that names one of `aliases`.
pub open spec fn first_hit(headers: Seq<Seq<char>>, aliases: Seq<Seq<char>>, i: int) -> bool {
    &&& 0 <= i < headers.len()
    &&& header_hit(headers[i], aliases)
    &&& forall|j: int| 0 <= j < i ==> !header_hit(#[trigger] headers[j], aliases)
}

/// The position of the first header that names one of `aliases`.
pub open spec fn header_index(headers: Seq<Seq<char>>, aliases: Seq<Seq<char>>) -> Option<int> {
    if exists|i: int| first_hit(headers, aliases, i) {
        Some(choose|i: int| first_hit(headers, aliases, i))
    } else {
        None
    }
}

/// The texts of a list of string slices.
pub open spec fn texts(v: Seq<&str>) -> Seq<Seq<char>> {
    v.map_values(|s: &str| s@)
}

/// A header name as compared.
fn normalize_header(v: &[char]) -> (r: Vec<char>)
    ensures
        r@ == norm_iif(v@),
{
    let t = trim_chars(v);
    let u = to_upper(string_of(&t).as_str());
    alphanumeric_only(&chars_of(u.as_str()))
}

proof fn lemma_first_hit_unique(headers: Seq<Seq<char>>, aliases: Seq<Seq<char>>, i: int, k: int)
    requires
        first_hit(headers, aliases, i),
        first_hit(headers, aliases, k),
    ensures
        i == k,
{
    if i < k {
        assert(!header_hit(headers[i], aliases));
    } else if k < i {
        assert(!header_hit(headers[k], aliases));
    }
}

/// The position of the first header that names one of `aliases`.
pub fn header_position(headers: &[Vec<char>], aliases: &[&str]) -> (r: Option<usize>)
    ensures
        opt_int(r) == header_index(views_of(headers@), texts(aliases@)),
{
    let ghost hs = views_of(headers@);
    let ghost al = texts(aliases@);
    let n = headers.len();
    let mut i: usize = 0;
    while i < n
        invariant
            n == headers@.len(),
            hs == views_of(headers@),
            al == texts(aliases@),
            i <= n,
            forall|j: int| 0 <= j < i ==> !header_hit(#[trigger] hs[j], al),
        decreases n - i,
    {
        let nh = normalize_header(&headers[i]);
        let m = aliases.len();
        let mut k: usize = 0;
        while k < m
            invariant
                n == headers@.len(),
                hs == views_of(headers@),
                al == texts(aliases@),
                i < n,
                m == aliases@.len(),
                k <= m,
                nh@ == norm_iif(hs[i as int]),
                forall|j: int| 0 <= j < i ==> !header_hit(#[trigger] hs[j], al),
                forall|j: int| 0 <= j < k ==> norm_iif(hs[i as int]) != norm_iif(al[j]),
            decreases m - k,
        {
            let na = normalize_header(&chars_of(aliases[k]));
            if chars_eq(&nh, &na) {
                proof {
                    assert(al[k as int] == aliases@[k as int]@);
                    assert(norm_iif(hs[i as int]) == norm_iif(al[k as int]));
                    assert(header_hit(hs[i as int], al));
                    assert(first_hit(hs, al, i as int));
                    let c = choose|c: int| first_hit(hs, al, c);
                    lemma_first_hit_unique(hs, al, i as int, c);
                }
                return Some(i);
            }
            k = k + 1;
        }
        i = i + 1;
    }
    proof {
        assert forall|c: int| !first_hit(hs, al, c) by {
            if 0 <= c < hs.len() {
                assert(!header_hit(hs[c], al));
            }
        }
    }
    None
}

/// The trimmed field after column `i` of the header (the line's first field is its
/// keyword), if the line has one.
pub open spec fn field_after(parts: Seq<Seq<char>>, i: Option<int>) -> Option<Seq<char>> {
    match i {
        Some(k) => if k + 1 < parts.len() {
            Some(trim(parts[k + 1]))
        } else {
            None
        },
        None => None,
    }
}

/// The field as it stands, without trimming.
pub open spec fn raw_field_after(parts: Seq<Seq<char>>, i: Option<int>) -> Option<Seq<char>> {
    match i {
        Some(k) => if k + 1 < parts.len() {
            Some(parts[k + 1])
        } else {
            None
        },
        None => None,
    }
}

/// Keeps a text only when it is not empty.
pub open spec fn non_empty(o: Option<Seq<char>>) -> Option<Seq<char>> {
    match o {
        Some(s) => if s.len() > 0 {
            Some(s)
        } else {
            None
        },
        None => None,
    }
}

fn opt_index(i: Option<usize>) -> (r: Option<usize>)
    ensures
        r == i,
{
    i
}

/// The trimmed field after column `i`.
fn field_at(parts: &[Vec<char>], i: Option<usize>, trimmed: bool) -> (r: Option<Vec<char>>)
    ensures
        trimmed ==> opt_chars(r) == field_after(views_of(parts@), opt_int(i)),
        !trimmed ==> opt_chars(r) == raw_field_after(views_of(parts@), opt_int(i)),
{
    match opt_index(i) {
        None => None,
        Some(k) => {
            if k < parts.len() && k + 1 < parts.len() {
                assert(views_of(parts@)[k + 1] == parts@[k + 1]@);
                if trimmed {
                    Some(trim_chars(&parts[k + 1]))
                } else {
                    Some(slice_range(&parts[k + 1], 0, parts[k + 1].len()))
                }
            } else {
                None
            }
        },
    }
}

/// An optional position as an integer.
pub open spec fn opt_int(i: Option<usize>) -> Option<int> {
    match i {
        Some(k) => Some(k as int),
        None => None,
    }
}

/// The text of optional characters.
pub open spec fn opt_chars(o: Option<Vec<char>>) -> Option<Seq<char>> {
    match o {
        Some(v) => Some(v@),
        None => None,
    }
}

fn non_empty_chars(o: Option<Vec<char>>) -> (r: Option<Vec<char>>)
    ensures
        opt_chars(r) == non_empty(opt_chars(o)),
{
    match o {
        Some(v) => if v.len() > 0 {
            Some(v)
        } else {
            None
        },
        None => None,
    }
}

fn opt_string(o: Option<Vec<char>>) -> (r: Option<String>)
    ensures
        crate::import::opt_text(r) == opt_chars(o),
{
    match o {
        Some(v) => Some(string_of(&v)),
        None => None,
    }
}

/// The code given to an account that has none: `QB-` and the first sixteen ASCII
/// letters and digits of its name (`QB-QB` when it has none).
pub open spec fn slug_code(name: Seq<char>) -> Seq<char> {
    let k = keep_ascii_alnum(name);
    let s = if k.len() > 16 {
        k.take(16)
    } else {
        k
    };
    "QB-"@ + if s.len() == 0 {
        "QB"@
    } else {
        s
    }
}

/// An account code made from an account name.
pub fn slug_code_of(name: &[char]) -> (r: String)
    ensures
        r@ == slug_code(name@),
{
    let k = ascii_alnum_only(name);
    let s = if k.len() > 16 {
        slice_range(&k, 0, 16)
    } else {
        k
    };
    let body = if s.len() == 0 {
        chars_of("QB")
    } else {
        s
    };
    assert(k@.take(16) == k@.subrange(0, 16));
    string_of(&concat(&chars_of("QB-"), &body))
}

/// `s` without its `$`, `,` and space characters.
pub open spec fn strip_money(s: Seq<char>) -> Seq<char>
    decreases s.len(),
{
    if s.len() == 0 {
        s
    } else if s.last() == '$' || s.last() == ',' || s.last() == ' ' {
        strip_money(s.drop_last())
    } else {
        strip_money(s.drop_last()).push(s.last())
    }
}

/// Two characters of cents: the first two given, padded on the right with `0`.
pub open spec fn cents_text(frac: Seq<char>) -> Seq<char> {
    if frac.len() >= 2 {
        frac.take(2)
    } else if frac.len() == 1 {
        frac.push('0')
    } else {
        "00"@
    }
}

/// An amount of money in minor units read from text such as `$1,234.5` or `-12.50`:
/// `$`, `,` and spaces are ignored, cents beyond two digits are dropped; none when
/// the text is not such an amount or the amount does not fit in `i64`.
pub open spec fn money_minor(s: Seq<char>) -> Option<int> {
    let t0 = strip_money(trim(s));
    let neg = t0.len() > 0 && t0[0] == '-';
    let t = if neg {
        drop_leading(t0, '-')
    } else {
        t0
    };
    if t.len() == 0 {
        None
    } else {
        let parts = crate::text::split_on(t, '.');
        let frac = if parts.len() > 1 {
            parts[1]
        } else {
            "0"@
        };
        match (parse_i64(parts[0]), parse_i64(cents_text(frac))) {
            (Some(whole), Some(cents)) => {
                let v = whole * 100 + cents;
                let signed = if neg {
                    -v
                } else {
                    v
                };
                if i64::MIN <= v <= i64::MAX && i64::MIN <= signed <= i64::MAX {
                    Some(signed)
                } else {
                    None
                }
            },
            _ => None,
        }
    }
}

fn strip_money_chars(v: &[char]) -> (r: Vec<char>)
    ensures
        r@ == strip_money(v@),
{
    let mut out: Vec<char> = Vec::new();
    let mut k: usize = 0;
    while k < v.len()
        invariant
            k <= v@.len(),
            out@ == strip_money(v@.take(k as int)),
        decreases v@.len() - k,
    {
        assert(v@.take(k + 1).drop_last() == v@.take(k as int));
        assert(v@.take(k + 1).last() == v@[k as int]);
        let c = v[k];
        if !(c == '$' || c == ',' || c == ' ') {
            out.push(c);
        }
        k = k + 1;
    }
    assert(v@.take(v@.len() as int) == v@);
    out
}

fn cents_chars(frac: &[char]) -> (r: Vec<char>)
    ensures
        r@ == cents_text(frac@),
{
    if frac.len() >= 2 {
        slice_range(frac, 0, 2)
    } else if frac.len() == 1 {
        let mut v = slice_range(frac, 0, 1);
        v.push('0');
        v
    } else {
        chars_of("00")
    }
}

/// Reads an amount of money in minor units (see [`money_minor`]).
pub fn parse_money_minor(s: &[char]) -> (r: Option<i64>)
    ensures
        match money_minor(s@) {
            Some(v) => r == Some(v as i64),
            None => r is None,
        },
{
    let t0 = strip_money_chars(&trim_chars(s));
    let neg = t0.len() > 0 && t0[0] == '-';
    let t = if neg {
        crate::text::drop_leading_chars(&t0, '-')
    } else {
        t0
    };
    if t.len() == 0 {
        return None;
    }
    let parts = crate::text::split_chars(&t, '.');
    assert(views_of(parts@)[0] == parts@[0]@);
    let frac = if parts.len() > 1 {
        assert(views_of(parts@)[1] == parts@[1]@);
        let f = slice_range(&parts[1], 0, parts[1].len());
        assert(f@ == parts@[1]@);
        f
    } else {
        chars_of("0")
    };
    assert(frac@ == (if views_of(parts@).len() > 1 {
        views_of(parts@)[1]
    } else {
        "0"@
    }));
    let whole = parse_int_chars(&parts[0], true, i64::MIN as i128, i64::MAX as i128);
    let cents = parse_int_chars(&cents_chars(&frac), true, i64::MIN as i128, i64::MAX as i128);
    match (whole, cents) {
        (Some(w), Some(c)) => {
            let v: i128 = w * 100 + c;
            if v < i64::MIN as i128 || v > i64::MAX as i128 {
                None
            } else if neg && v == i64::MIN as i128 {
                None
            } else if neg {
                Some(-(v as i64))
            } else {
                Some(v as i64)
            }
        },
        _ => None,
    }
}

/// The account type that an upper-cased QuickBooks IIF account type stands for.
pub open spec fn qb_kind_of(u: Seq<char>) -> Seq<char> {
    if u == "BANK"@ || u == "OCASSET"@ || u == "AR"@ || u == "INVASSET"@ || u == "FIXASSET"@ || u
        == "OASSET"@ || u == "OTHERASSET"@ || u == "UNDEPOSITEDFUNDS"@ || u == "UNDEPOSITED"@ {
        "asset"@
    } else if u == "AP"@ || u == "CREDITCARD"@ || u == "OCLIAB"@ || u == "LTLIAB"@ || u
        == "LONGTERMLIABILITY"@ {
        "liability"@
    } else if u == "EQUITY"@ {
        "equity"@
    } else if u == "INC"@ || u == "OINC"@ {
        "income"@
    } else {
        "expense"@
    }
}

/// Whether an upper-cased QuickBooks IIF account type is a bank or cash account.
pub open spec fn qb_bank_word(u: Seq<char>) -> bool {
    u == "BANK"@ || u == "UNDEPOSITEDFUNDS"@ || u == "UNDEPOSITED"@ || u == "SWIMMINGPOOLBANK"@
}

/// The account type that a QuickBooks IIF account type stands for.
pub open spec fn qb_kind(t: Seq<char>) -> Seq<char> {
    qb_kind_of(unicode_upper(trim(t)))
}

/// Whether a QuickBooks IIF account type is a bank or cash account.
pub open spec fn qb_is_bank(t: Seq<char>) -> bool {
    qb_bank_word(unicode_upper(trim(t)))
}

fn is_one_of(u: &[char], words: &[&str]) -> (r: bool)
    ensures
        r == exists|k: int| 0 <= k < words@.len() && u@ == words@[k]@,
{
    let n = words.len();
    let mut k: usize = 0;
    while k < n
        invariant
            n == words@.len(),
            k <= n,
            forall|j: int| 0 <= j < k ==> u@ != words@[j]@,
        decreases n - k,
    {
        if chars_eq(u, &chars_of(words[k])) {
            return true;
        }
        k = k + 1;
    }
    false
}

/// Maps a QuickBooks IIF account type to an account type and whether it is bank or cash.
pub fn map_qb_accnt_type(t: &[char]) -> (r: (&'static str, bool))
    ensures
        r.0@ == qb_kind(t@),
        r.1 == qb_is_bank(t@),
        all_ascii(trim(t@)) ==> r.0@ == qb_kind_of(ascii_upper(trim(t@))),
        all_ascii(trim(t@)) ==> r.1 == qb_bank_word(ascii_upper(trim(t@))),
{
    let tt = trim_chars(t);
    let u = chars_of(to_upper(string_of(&tt).as_str()).as_str());
    let bank_words = ["BANK", "UNDEPOSITEDFUNDS", "UNDEPOSITED", "SWIMMINGPOOLBANK"];
    let asset_words = [
        "BANK",
        "OCASSET",
        "AR",
        "INVASSET",
        "FIXASSET",
        "OASSET",
        "OTHERASSET",
        "UNDEPOSITEDFUNDS",
        "UNDEPOSITED",
    ];
    let liability_words = ["AP", "CREDITCARD", "OCLIAB", "LTLIAB", "LONGTERMLIABILITY"];
    let income_words = ["INC", "OINC"];
    let bank = is_one_of(&u, &bank_words);
    let kind = if is_one_of(&u, &asset_words) {
        "asset"
    } else if is_one_of(&u, &liability_words) {
        "liability"
    } else if chars_eq(&u, &chars_of("EQUITY")) {
        "equity"
    } else if is_one_of(&u, &income_words) {
        "income"
    } else {
        "expense"
    };
    (kind, bank)
}

/// The account on an `ACCNT` line, if the line names one.
pub open spec fn accnt_row(h: Seq<Seq<char>>, p: Seq<Seq<char>>) -> Option<AccountRow> {
    let ni = header_index(h, seq!["NAME"@]);
    let ti = header_index(h, seq!["ACCNTTYPE"@, "TYPE"@]);
    if ni is None || ti is None {
        None
    } else {
        match field_after(p, ni) {
            None => None,
            Some(name) => if name.len() == 0 {
                None
            } else {
                let t = match field_after(p, ti) {
                    Some(x) => x,
                    None => ""@,
                };
                let code = match non_empty(
                    field_after(p, header_index(h, seq!["ACCNUM"@, "ACCNO"@])),
                ) {
                    Some(c) => c,
                    None => slug_code(name),
                };
                Some(
                    AccountRow {
                        code,
                        name,
                        account_type: qb_kind(t),
                        is_bank_cash: qb_is_bank(t),
                    },
                )
            },
        }
    }
}

/// The customer or vendor on a line, if the line names one: its name from the
/// first header among `names`, its email, and its phone from the first among `phones`.
pub open spec fn contact_row(
    h: Seq<Seq<char>>,
    p: Seq<Seq<char>>,
    names: Seq<Seq<char>>,
    phones: Seq<Seq<char>>,
) -> Option<ContactRow> {
    let ni = header_index(h, names);
    if ni is None {
        None
    } else {
        match field_after(p, ni) {
            None => None,
            Some(name) => if name.len() == 0 {
                None
            } else {
                Some(
                    ContactRow {
                        display_name: name,
                        email: non_empty(field_after(p, header_index(h, seq!["EMAIL"@]))),
                        phone: non_empty(field_after(p, header_index(h, phones))),
                    },
                )
            },
        }
    }
}

/// The item on an `INVITEM` line, if the line names one.
pub open spec fn invitem_row(h: Seq<Seq<char>>, p: Seq<Seq<char>>) -> Option<ItemRow> {
    let ni = header_index(h, seq!["NAME"@]);
    if ni is None {
        None
    } else {
        match field_after(p, ni) {
            None => None,
            Some(name) => if name.len() == 0 {
                None
            } else {
                let price = match raw_field_after(p, header_index(h, seq!["PRICE"@, "SALESPRICE"@])) {
                    Some(x) => x,
                    None => ""@,
                };
                Some(
                    ItemRow {
                        name,
                        unit_price_minor: match money_minor(price) {
                            Some(v) => v,
                            None => 0,
                        },
                        income_account_name: non_empty(
                            field_after(
                                p,
                                header_index(h, seq!["ACCNT"@, "INCACCNT"@, "INCOMEACCOUNT"@]),
                            ),
                        ),
                    },
                )
            },
        }
    }
}

/// The optional view of a parsed account.
pub open spec fn account_view(o: Option<ParsedAccount>) -> Option<AccountRow> {
    match o {
        Some(a) => Some(a@),
        None => None,
    }
}

/// The optional view of a parsed contact.
pub open spec fn contact_view(o: Option<ParsedContact>) -> Option<ContactRow> {
    match o {
        Some(c) => Some(c@),
        None => None,
    }
}

/// The optional view of a parsed item.
pub open spec fn item_view(o: Option<ParsedItem>) -> Option<ItemRow> {
    match o {
        Some(i) => Some(i@),
        None => None,
    }
}

/// Reads the account on an `ACCNT` line.
pub fn parse_accnt_row(headers: &[Vec<char>], parts: &[Vec<char>]) -> (r: Option<ParsedAccount>)
    ensures
        account_view(r) == accnt_row(views_of(headers@), views_of(parts@)),
{
    let name_aliases = ["NAME"];
    assert(texts(name_aliases@) =~= seq!["NAME"@]);
    let type_aliases = ["ACCNTTYPE", "TYPE"];
    assert(texts(type_aliases@) =~= seq!["ACCNTTYPE"@, "TYPE"@]);
    let code_aliases = ["ACCNUM", "ACCNO"];
    assert(texts(code_aliases@) =~= seq!["ACCNUM"@, "ACCNO"@]);
    let ni = header_position(headers, &name_aliases);
    let ti = header_position(headers, &type_aliases);
    if ni.is_none() || ti.is_none() {
        return None;
    }
    let name = match field_at(parts, ni, true) {
        None => {
            return None;
        },
        Some(n) => n,
    };
    if name.len() == 0 {
        return None;
    }
    let t = match field_at(parts, ti, true) {
        Some(x) => x,
        None => {
            proof {
                reveal_strlit("");
            }
            Vec::new()
        },
    };
    assert(t@ == (match field_after(views_of(parts@), opt_int(ti)) {
        Some(x) => x,
        None => ""@,
    }));
    let (kind, bank) = map_qb_accnt_type(&t);
    let ci = header_position(headers, &code_aliases);
    let code = match non_empty_chars(field_at(parts, ci, true)) {
        Some(c) => string_of(&c),
        None => slug_code_of(&name),
    };
    let account_type = kind.to_owned();
    assert(account_type@ == qb_kind(t@));
    let r = ParsedAccount { code, name: string_of(&name), account_type, is_bank_cash: bank };
    assert(r@.name == name@);
    assert(r@.code == (match non_empty(field_after(views_of(parts@), opt_int(ci))) {
        Some(c) => c,
        None => slug_code(name@),
    }));
    Some(r)
}

/// Reads the customer or vendor on a line.
pub fn parse_contact_row(
    headers: &[Vec<char>],
    parts: &[Vec<char>],
    names: &[&str],
    phones: &[&str],
) -> (r: Option<ParsedContact>)
    ensures
        contact_view(r) == contact_row(
            views_of(headers@),
            views_of(parts@),
            texts(names@),
            texts(phones@),
        ),
{
    let email_aliases = ["EMAIL"];
    assert(texts(email_aliases@) =~= seq!["EMAIL"@]);
    let ni = header_position(headers, names);
    if ni.is_none() {
        return None;
    }
    let name = match field_at(parts, ni, true) {
        None => {
            return None;
        },
        Some(n) => n,
    };
    if name.len() == 0 {
        return None;
    }
    let ei = header_position(headers, &email_aliases);
    let pi = header_position(headers, phones);
    let email = opt_string(non_empty_chars(field_at(parts, ei, true)));
    let phone = opt_string(non_empty_chars(field_at(parts, pi, true)));
    Some(ParsedContact { display_name: string_of(&name), email, phone })
}

/// Reads the item on an `INVITEM` line.
pub fn parse_invitem_row(headers: &[Vec<char>], parts: &[Vec<char>]) -> (r: Option<ParsedItem>)
    ensures
        item_view(r) == invitem_row(views_of(headers@), views_of(parts@)),
{
    let name_aliases = ["NAME"];
    assert(texts(name_aliases@) =~= seq!["NAME"@]);
    let price_aliases = ["PRICE", "SALESPRICE"];
    assert(texts(price_aliases@) =~= seq!["PRICE"@, "SALESPRICE"@]);
    let income_aliases = ["ACCNT", "INCACCNT", "INCOMEACCOUNT"];
    assert(texts(income_aliases@) =~= seq!["ACCNT"@, "INCACCNT"@, "INCOMEACCOUNT"@]);
    let ni = header_position(headers, &name_aliases);
    if ni.is_none() {
        return None;
    }
    let name = match field_at(parts, ni, true) {
        None => {
            return None;
        },
        Some(n) => n,
    };
    if name.len() == 0 {
        return None;
    }
    let pi = header_position(headers, &price_aliases);
    let price = match field_at(parts, pi, false) {
        Some(x) => x,
        None => {
            proof {
                reveal_strlit("");
            }
            Vec::new()
        },
    };
    let unit_price_minor = match parse_money_minor(&price) {
        Some(v) => v,
        None => 0,
    };
    let ii = header_position(headers, &income_aliases);
    let income_account_name = opt_string(non_empty_chars(field_at(parts, ii, true)));
    Some(ParsedItem { name: string_of(&name), unit_price_minor, income_account_name })
}

/// The list sections of an IIF file that are read; every other section is skipped.
#[derive(Debug, Clone, Copy, PartialEq, Eq, Structural)]
pub enum IifSection {
    Accnt,
    Cust,
    Vend,
    Invitem,
    Skip,
}

/// The section that an upper-cased `!` header names.
pub open spec fn section_named(u: Seq<char>) -> IifSection {
    if u == "ACCNT"@ {
        IifSection::Accnt
    } else if u == "CUST"@ {
        IifSection::Cust
    } else if u == "VEND"@ {
        IifSection::Vend
    } else if u == "INVITEM"@ {
        IifSection::Invitem
    } else {
        IifSection::Skip
    }
}

/// An upper-cased keyword of a transaction line.
pub open spec fn is_transaction_head(u: Seq<char>) -> bool {
    u == "TRNS"@ || u == "SPL"@ || u == "ENDTRNS"@ || u == "TIMEACT"@
}

/// Where the reading of an IIF file stands after some of its lines.
pub struct IifScan {
    /// The section being read and its column headers.
    pub current: Option<(IifSection, Seq<Seq<char>>)>,
    pub rows: BatchRows,
    pub skipped: int,
}

/// The tab-separated fields of a line, each trimmed.
pub open spec fn iif_parts(raw: Seq<char>) -> Seq<Seq<char>> {
    split_on(trim(raw), '\t').map_values(|p: Seq<char>| trim(p))
}

/// The scan with one more row skipped.
pub open spec fn skip_one(st: IifScan) -> IifScan {
    IifScan { skipped: st.skipped + 1, ..st }
}

/// Reads one line: blank lines are ignored; a `!` line opens a section with its
/// headers; before any section only transaction lines count as skipped; in a
/// section, a line whose keyword matches the section adds its row (or is skipped
/// when it has none), a line of another keyword is skipped, and lines of skipped
/// sections are ignored.
pub open spec fn iif_step(st: IifScan, raw: Seq<char>) -> IifScan {
    if trim(raw).len() == 0 {
        st
    } else {
        let parts = iif_parts(raw);
        let head = parts[0];
        if head.len() > 0 && head[0] == '!' {
            IifScan {
                current: Some(
                    (section_named(unicode_upper(drop_leading(head, '!'))), parts.drop_first()),
                ),
                ..st
            }
        } else {
            match st.current {
                None => if is_transaction_head(unicode_upper(head)) {
                    skip_one(st)
                } else {
                    st
                },
                Some((sec, hdr)) => {
                    let kw = ascii_upper(head);
                    let r = st.rows;
                    match sec {
                        IifSection::Accnt => if kw != "ACCNT"@ {
                            skip_one(st)
                        } else {
                            match accnt_row(hdr, parts) {
                                Some(a) => IifScan {
                                    rows: BatchRows { accounts: r.accounts.push(a), ..r },
                                    ..st
                                },
                                None => skip_one(st),
                            }
                        },
                        IifSection::Cust => if kw != "CUST"@ {
                            skip_one(st)
                        } else {
                            match contact_row(
                                hdr,
                                parts,
                                seq!["NAME"@, "FULLNAME"@],
                                seq!["PHONE"@, "PHONE1"@, "WORKPHONE"@],
                            ) {
                                Some(c) => IifScan {
                                    rows: BatchRows { customers: r.customers.push(c), ..r },
                                    ..st
                                },
                                None => skip_one(st),
                            }
                        },
                        IifSection::Vend => if kw != "VEND"@ {
                            skip_one(st)
                        } else {
                            match contact_row(
                                hdr,
                                parts,
                                seq!["NAME"@, "FULLNAME"@, "COMPANYNAME"@],
                                seq!["PHONE"@, "PHONE1"@],
                            ) {
                                Some(c) => IifScan {
                                    rows: BatchRows { vendors: r.vendors.push(c), ..r },
                                    ..st
                                },
                                None => skip_one(st),
                            }
                        },
                        IifSection::Invitem => if kw != "INVITEM"@ {
                            skip_one(st)
                        } else {
                            match invitem_row(hdr, parts) {
                                Some(it) => IifScan {
                                    rows: BatchRows { items: r.items.push(it), ..r },
                                    ..st
                                },
                                None => skip_one(st),
                            }
                        },
                        IifSection::Skip => st,
                    }
                },
            }
        }
    }
}

/// The state after reading `lines` in order.
pub open spec fn iif_scan(lines: Seq<Seq<char>>) -> IifScan
    decreases lines.len(),
{
    if lines.len() == 0 {
        IifScan {
            current: None,
            rows: BatchRows {
                accounts: Seq::empty(),
                customers: Seq::empty(),
                vendors: Seq::empty(),
                items: Seq::empty(),
            },
            skipped: 0,
        }
    } else {
        iif_step(iif_scan(lines.drop_last()), lines.last())
    }
}

/// The warning about skipped rows.
pub open spec fn skipped_warning(n: nat) -> Seq<char> {
    dec(n) + " row(s) skipped (unsupported sections or malformed lines)."@
}

fn trim_each(parts: &Vec<Vec<char>>) -> (r: Vec<Vec<char>>)
    ensures
        views_of(r@) == views_of(parts@).map_values(|p: Seq<char>| trim(p)),
{
    let mut out: Vec<Vec<char>> = Vec::new();
    let n = parts.len();
    let mut k: usize = 0;
    while k < n
        invariant
            n == parts@.len(),
            k <= n,
            views_of(out@) == views_of(parts@.take(k as int)).map_values(|p: Seq<char>| trim(p)),
        decreases n - k,
    {
        let t = trim_chars(&parts[k]);
        let ghost old_views = views_of(out@);
        out.push(t);
        assert(views_of(out@) =~= old_views.push(t@));
        assert(views_of(parts@.take(k + 1)) =~= views_of(parts@.take(k as int)).push(
            parts@[k as int]@,
        ));
        assert(views_of(out@) =~= views_of(parts@.take(k + 1)).map_values(
            |p: Seq<char>| trim(p),
        ));
        k = k + 1;
    }
    assert(parts@.take(n as int) == parts@);
    out
}

/// The view of the section being read.
pub open spec fn current_view(c: Option<(IifSection, Vec<Vec<char>>)>) -> Option<
    (IifSection, Seq<Seq<char>>),
> {
    match c {
        Some((s, h)) => Some((s, views_of(h@))),
        None => None,
    }
}

/// Reads the lists of an IIF export: accounts, customers, vendors and items, in
/// file order, with the number of rows skipped and a warning when there are any.
pub fn parse_iif(content: &str) -> (r: Result<(ImportBatch, usize, Vec<String>), String>)
    ensures
        r matches Ok((b, sk, w)) && b@ == iif_scan(split_on(content@, '\n')).rows && sk
            == iif_scan(split_on(content@, '\n')).skipped && w@.len() == (if sk > 0 {
            1int
        } else {
            0
        }) && (sk > 0 ==> w@[0]@ == skipped_warning(sk as nat)),
{
    let lines = split_chars(&chars_of(content), '\n');
    let ghost ls = views_of(lines@);
    let mut batch = ImportBatch {
        accounts: Vec::new(),
        customers: Vec::new(),
        vendors: Vec::new(),
        items: Vec::new(),
    };
    let mut current: Option<(IifSection, Vec<Vec<char>>)> = None;
    let mut skipped: usize = 0;
    let n = lines.len();
    let mut i: usize = 0;
    assert(batch@.accounts =~= Seq::<AccountRow>::empty());
    assert(batch@.customers =~= Seq::<ContactRow>::empty());
    assert(batch@.vendors =~= Seq::<ContactRow>::empty());
    assert(batch@.items =~= Seq::<ItemRow>::empty());
    while i < n
        invariant
            n == lines@.len(),
            ls == views_of(lines@),
            ls == split_on(content@, '\n'),
            i <= n,
            skipped <= i,
            current_view(current) == iif_scan(ls.take(i as int)).current,
            batch@ == iif_scan(ls.take(i as int)).rows,
            skipped == iif_scan(ls.take(i as int)).skipped,
        decreases n - i,
    {
        let ghost st = iif_scan(ls.take(i as int));
        assert(ls.take(i + 1).drop_last() == ls.take(i as int));
        assert(ls.take(i + 1).last() == lines@[i as int]@);
        let line = trim_chars(&lines[i]);
        if line.len() == 0 {
            i = i + 1;
            continue;
        }
        let parts = trim_each(&split_chars(&line, '\t'));
        let ghost ps = iif_parts(lines@[i as int]@);
        assert(views_of(parts@) == ps);
        assert(ps.len() >= 1);
        assert(views_of(parts@)[0] == parts@[0]@);
        let head = &parts[0];
        if head.len() > 0 && head[0] == '!' {
            let name = to_upper(string_of(&drop_leading_chars(head, '!')).as_str());
            let nv = chars_of(name.as_str());
            let sec = if chars_eq(&nv, &chars_of("ACCNT")) {
                IifSection::Accnt
            } else if chars_eq(&nv, &chars_of("CUST")) {
                IifSection::Cust
            } else if chars_eq(&nv, &chars_of("VEND")) {
                IifSection::Vend
            } else if chars_eq(&nv, &chars_of("INVITEM")) {
                IifSection::Invitem
            } else {
                IifSection::Skip
            };
            let headers = slice_parts(&parts, 1);
            assert(views_of(headers@) == ps.drop_first());
            current = Some((sec, headers));
            i = i + 1;
            continue;
        }
        match &current {
            None => {
                let u = chars_of(to_upper(string_of(head).as_str()).as_str());
                let txn_words = ["TRNS", "SPL", "ENDTRNS", "TIMEACT"];
                if is_one_of(&u, &txn_words) {
                    skipped = skipped + 1;
                }
            },
            Some((sec, hdr)) => {
                let kw = to_ascii_upper(head);
                match sec {
                    IifSection::Accnt => {
                        if !chars_eq(&kw, &chars_of("ACCNT")) {
                            skipped = skipped + 1;
                        } else {
                            match parse_accnt_row(hdr, &parts) {
                                Some(a) => {
                                    let ghost before = batch@;
                                    batch.accounts.push(a);
                                    assert(batch@.accounts =~= before.accounts.push(a@));
                                },
                                None => {
                                    skipped = skipped + 1;
                                },
                            }
                        }
                    },
                    IifSection::Cust => {
                        if !chars_eq(&kw, &chars_of("CUST")) {
                            skipped = skipped + 1;
                        } else {
                            let names = ["NAME", "FULLNAME"];
                            let phones = ["PHONE", "PHONE1", "WORKPHONE"];
                            assert(texts(names@) =~= seq!["NAME"@, "FULLNAME"@]);
                            assert(texts(phones@) =~= seq!["PHONE"@, "PHONE1"@, "WORKPHONE"@]);
                            match parse_contact_row(hdr, &parts, &names, &phones) {
                                Some(c) => {
                                    let ghost before = batch@;
                                    batch.customers.push(c);
                                    assert(batch@.customers =~= before.customers.push(c@));
                                },
                                None => {
                                    skipped = skipped + 1;
                                },
                            }
                        }
                    },
                    IifSection::Vend => {
                        if !chars_eq(&kw, &chars_of("VEND")) {
                            skipped = skipped + 1;
                        } else {
                            let names = ["NAME", "FULLNAME", "COMPANYNAME"];
                            let phones = ["PHONE", "PHONE1"];
                            assert(texts(names@) =~= seq!["NAME"@, "FULLNAME"@, "COMPANYNAME"@]);
                            assert(texts(phones@) =~= seq!["PHONE"@, "PHONE1"@]);
                            match parse_contact_row(hdr, &parts, &names, &phones) {
                                Some(c) => {
                                    let ghost before = batch@;
                                    batch.vendors.push(c);
                                    assert(batch@.vendors =~= before.vendors.push(c@));
                                },
                                None => {
                                    skipped = skipped + 1;
                                },
                            }
                        }
                    },
                    IifSection::Invitem => {
                        if !chars_eq(&kw, &chars_of("INVITEM")) {
                            skipped = skipped + 1;
                        } else {
                            match parse_invitem_row(hdr, &parts) {
                                Some(it) => {
                                    let ghost before = batch@;
                                    batch.items.push(it);
                                    assert(batch@.items =~= before.items.push(it@));
                                },
                                None => {
                                    skipped = skipped + 1;
                                },
                            }
                        }
                    },
                    IifSection::Skip => {},
                }
            },
        }
        i = i + 1;
    }
    assert(ls.take(n as int) == ls);
    let mut warnings: Vec<String> = Vec::new();
    if skipped > 0 {
        let a = fmt_u64(skipped as u64);
        let b = chars_of(" row(s) skipped (unsupported sections or malformed lines).");
        warnings.push(string_of(&concat(&a, &b)));
    }
    Ok((batch, skipped, warnings))
}

/// The fields of `parts` from position `from` on.
fn slice_parts(parts: &Vec<Vec<char>>, from: usize) -> (r: Vec<Vec<char>>)
    requires
        from <= parts@.len(),
    ensures
        views_of(r@) == views_of(parts@).skip(from as int),
{
    let mut out: Vec<Vec<char>> = Vec::new();
    let n = parts.len();
    let mut k: usize = from;
    while k < n
        invariant
            n == parts@.len(),
            from <= k <= n,
            views_of(out@) == views_of(parts@).subrange(from as int, k as int),
        decreases n - k,
    {
        let c = slice_range(&parts[k], 0, parts[k].len());
        assert(c@ == parts@[k as int]@);
        let ghost old_views = views_of(out@);
        out.push(c);
        assert(views_of(out@) =~= old_views.push(c@));
        assert(views_of(out@) =~= views_of(parts@).subrange(from as int, k + 1));
        k = k + 1;
    }
    out
}

/// The QuickBooks IIF account types and the account type each becomes: the asset
/// types (bank, other current asset, accounts receivable, inventory, fixed and
/// other assets, undeposited funds) become assets; accounts payable, credit
/// cards and current or long-term liabilities become liabilities; equity stays
/// equity; income and other income become income; anything else is an expense.
/// Bank accounts and undeposited funds are the bank or cash accounts.
pub proof fn law_qb_account_types(u: Seq<char>)
    ensures
        u == "BANK"@ || u == "OCASSET"@ || u == "AR"@ || u == "INVASSET"@ || u == "FIXASSET"@
            || u == "OASSET"@ || u == "OTHERASSET"@ || u == "UNDEPOSITEDFUNDS"@ || u
            == "UNDEPOSITED"@ ==> qb_kind_of(u) == "asset"@,
        u == "AP"@ || u == "CREDITCARD"@ || u == "OCLIAB"@ || u == "LTLIAB"@ || u
            == "LONGTERMLIABILITY"@ ==> qb_kind_of(u) == "liability"@,
        u == "EQUITY"@ ==> qb_kind_of(u) == "equity"@,
        u == "INC"@ || u == "OINC"@ ==> qb_kind_of(u) == "income"@,
        u == "EXP"@ || u == "EXEXP"@ || u == "COGS"@ || u == "NONPOSTING"@ ==> qb_kind_of(u)
            == "expense"@,
        qb_bank_word(u) <==> (u == "BANK"@ || u == "UNDEPOSITEDFUNDS"@ || u == "UNDEPOSITED"@ || u
            == "SWIMMINGPOOLBANK"@),
        qb_bank_word(u) && u != "SWIMMINGPOOLBANK"@ ==> qb_kind_of(u) == "asset"@,
{
    reveal_strlit("BANK");
    reveal_strlit("OCASSET");
    reveal_strlit("AR");
    reveal_strlit("INVASSET");
    reveal_strlit("FIXASSET");
    reveal_strlit("OASSET");
    reveal_strlit("OTHERASSET");
    reveal_strlit("UNDEPOSITEDFUNDS");
    reveal_strlit("UNDEPOSITED");
    reveal_strlit("AP");
    reveal_strlit("CREDITCARD");
    reveal_strlit("OCLIAB");
    reveal_strlit("LTLIAB");
    reveal_strlit("LONGTERMLIABILITY");
    reveal_strlit("EQUITY");
    reveal_strlit("INC");
    reveal_strlit("OINC");
    reveal_strlit("EXP");
    reveal_strlit("EXEXP");
    reveal_strlit("COGS");
    reveal_strlit("NONPOSTING");
    if u == "AP"@ {
        assert(u.len() == 2 && u[0] == 'A' && u[1] == 'P');
        assert(qb_kind_of(u) == "liability"@);
    }
    if u == "CREDITCARD"@ {
        assert(u.len() == 10 && u[0] == 'C' && u[1] == 'R');
        assert(qb_kind_of(u) == "liability"@);
    }
    if u == "OCLIAB"@ {
        assert(u.len() == 6 && u[2] == 'L' && u[0] == 'O' && u[1] == 'C');
        assert(qb_kind_of(u) == "liability"@);
    }
    if u == "LTLIAB"@ {
        assert(u.len() == 6 && u[0] == 'L' && u[1] == 'T');
        assert(qb_kind_of(u) == "liability"@);
    }
    if u == "LONGTERMLIABILITY"@ {
        assert(u.len() == 17 && u[0] == 'L' && u[1] == 'O');
        assert(qb_kind_of(u) == "liability"@);
    }
    if u == "EQUITY"@ {
        assert(u.len() == 6 && u[0] == 'E' && u[1] == 'Q');
        assert(qb_kind_of(u) == "equity"@);
    }
    if u == "INC"@ {
        assert(u.len() == 3 && u[0] == 'I' && u[1] == 'N');
        assert(qb_kind_of(u) == "income"@);
    }
    if u == "OINC"@ {
        assert(u.len() == 4 && u[2] == 'N' && u[0] == 'O' && u[1] == 'I');
        assert(qb_kind_of(u) == "income"@);
    }
    if u == "EXP"@ {
        assert(u.len() == 3 && u[0] == 'E' && u[1] == 'X');
        assert(qb_kind_of(u) == "expense"@);
    }
    if u == "EXEXP"@ {
        assert(u.len() == 5 && u[0] == 'E' && u[1] == 'X');
        assert(qb_kind_of(u) == "expense"@);
    }
    if u == "COGS"@ {
        assert(u.len() == 4 && u[0] == 'C' && u[1] == 'O');
        assert(qb_kind_of(u) == "expense"@);
    }
    if u == "NONPOSTING"@ {
        assert(u.len() == 10 && u[0] == 'N' && u[1] == 'O');
        assert(qb_kind_of(u) == "expense"@);
    }
}

/// `s` holds none of the characters that amounts may be written with for
/// readability (`$`, `,` and spaces).
pub open spec fn no_money_marks(s: Seq<char>) -> bool {
    forall|i: int| 0 <= i < s.len() ==> s[i] != '$' && s[i] != ',' && s[i] != ' '
}

proof fn lemma_strip_money_plain(s: Seq<char>)
    requires
        no_money_marks(s),
    ensures
        strip_money(s) == s,
    decreases s.len(),
{
    if s.len() > 0 {
        let d = s.drop_last();
        assert(no_money_marks(d)) by {
            assert forall|i: int| 0 <= i < d.len() implies d[i] != '$' && d[i] != ',' && d[i] != ' ' by {
                assert(d[i] == s[i]);
            }
        }
        lemma_strip_money_plain(d);
        assert(s.last() == s[s.len() - 1]);
        assert(d.push(s.last()) =~= s);
    }
}

proof fn lemma_split_no_sep(x: Seq<char>, sep: char)
    requires
        forall|i: int| 0 <= i < x.len() ==> x[i] != sep,
    ensures
        split_on(x, sep) == seq![x],
    decreases x.len(),
{
    if x.len() > 0 {
        let d = x.drop_last();
        assert forall|i: int| 0 <= i < d.len() implies d[i] != sep by {
            assert(d[i] == x[i]);
        }
        lemma_split_no_sep(d, sep);
        assert(x.last() == x[x.len() - 1]);
        assert(d.push(x.last()) =~= x);
        assert(seq![d].update(0, d.push(x.last())) =~= seq![x]);
    } else {
        assert(x =~= Seq::<char>::empty());
    }
}

proof fn lemma_split_extend(p: Seq<char>, y: Seq<char>, sep: char)
    requires
        forall|i: int| 0 <= i < y.len() ==> y[i] != sep,
    ensures
        split_on(p + y, sep) == split_on(p, sep).update(
            split_on(p, sep).len() - 1,
            split_on(p, sep).last() + y,
        ),
        split_on(p, sep).len() >= 1,
    decreases y.len(),
{
    crate::text::lemma_split_nonempty(p, sep);
    let sp = split_on(p, sep);
    if y.len() == 0 {
        assert(p + y =~= p);
        assert(sp.last() + y =~= sp.last());
        assert(sp.update(sp.len() - 1, sp.last()) =~= sp);
    } else {
        let yd = y.drop_last();
        assert forall|i: int| 0 <= i < yd.len() implies yd[i] != sep by {
            assert(yd[i] == y[i]);
        }
        lemma_split_extend(p, yd, sep);
        assert((p + y).drop_last() =~= p + yd);
        assert((p + y).last() == y[y.len() - 1]);
        let rest = split_on(p + yd, sep);
        crate::text::lemma_split_nonempty(p + yd, sep);
        assert(rest.len() == sp.len());
        assert(rest.last() == sp.last() + yd);
        assert((sp.last() + yd).push(y[y.len() - 1]) =~= sp.last() + y);
        assert(rest.update(rest.len() - 1, rest.last().push(y[y.len() - 1])) =~= sp.update(
            sp.len() - 1,
            sp.last() + y,
        ));
    }
}

/// Whole amounts with cents: a run of digits, a point and two digits is read
/// as the digits times 100 plus the cents (in minor units), when that fits in `i64`.
pub proof fn law_money_with_cents(w: Seq<char>, c: Seq<char>)
    requires
        w.len() > 0,
        all_digits(w),
        c.len() == 2,
        all_digits(c),
        digits_value(w) * 100 + 99 <= i64::MAX,
    ensures
        money_minor(w + "."@ + c) == Some(digits_value(w) * 100 + digits_value(c)),
{
    reveal_strlit(".");
    let s = w + "."@ + c;
    assert(s.len() == w.len() + 3);
    assert(forall|i: int| 0 <= i < w.len() ==> s[i] == w[i]);
    assert(s[w.len() as int] == '.');
    assert(forall|i: int| 0 <= i < 2 ==> s[w.len() + 1 + i] == c[i]);
    assert(is_digit(w[0]) && is_digit(c[1]));
    assert(!crate::text::is_ws(s[0]));
    assert(crate::text::trim_start(s) == s);
    assert(s.last() == c[1]);
    assert(!crate::text::is_ws(s.last()));
    assert(crate::text::trim_end(s) == s);
    assert(trim(s) == s);
    assert(no_money_marks(s)) by {
        assert forall|i: int| 0 <= i < s.len() implies s[i] != '$' && s[i] != ',' && s[i] != ' ' by {
            if i < w.len() {
                assert(is_digit(w[i]));
            } else if i > w.len() {
                assert(is_digit(c[i - w.len() - 1]));
            }
        }
    }
    lemma_strip_money_plain(s);
    assert(s[0] != '-');
    assert forall|i: int| 0 <= i < w.len() implies w[i] != '.' by {
        assert(is_digit(w[i]));
    }
    assert forall|i: int| 0 <= i < c.len() implies c[i] != '.' by {
        assert(is_digit(c[i]));
    }
    lemma_split_no_sep(w, '.');
    assert(w + "."@ =~= w.push('.'));
    assert(split_on(w.push('.'), '.') == seq![w].push(Seq::<char>::empty())) by {
        assert(w.push('.').drop_last() =~= w);
    }
    lemma_split_extend(w.push('.'), c, '.');
    assert(w.push('.') + c =~= s);
    let parts = split_on(s, '.');
    assert(parts =~= seq![w, c]) by {
        assert(Seq::<char>::empty() + c =~= c);
    }
    lemma_digits_value_nonneg(w);
    lemma_digits_value_nonneg(c);
    assert(c.take(2) =~= c);
    assert(w[0] != '+');
    assert(c[0] != '+' && c[0] != '-');
    assert(digits_value(c) <= 99) by {
        let c0 = c.drop_last();
        assert(c0.drop_last() =~= Seq::<char>::empty());
        assert(c0.last() == c[0]);
        assert(c.last() == c[1]);
        assert(is_digit(c[0]) && is_digit(c[1]));
        assert((c[0] as u32) <= 57 && (c[1] as u32) <= 57);
        assert(c0.len() == 1);
        assert(digits_value(c0.drop_last()) == 0);
        assert(digits_value(c0) == (c[0] as u32) - 48);
        assert(digits_value(c) == digits_value(c0) * 10 + ((c[1] as u32) - 48));
    }
}

/// A generated account code is `QB-` followed by the name's ASCII letters and
/// digits, cut to sixteen, or by `QB` when the name has none: so it starts with
/// `QB-` and is four to nineteen characters long.
pub proof fn law_slug_code(name: Seq<char>)
    ensures
        slug_code(name).take(3) == "QB-"@,
        4 <= slug_code(name).len() <= 19,
        keep_ascii_alnum(name).len() == 0 ==> slug_code(name) == "QB-QB"@,
        0 < keep_ascii_alnum(name).len() <= 16 ==> slug_code(name) == "QB-"@ + keep_ascii_alnum(
            name,
        ),
        keep_ascii_alnum(name).len() > 16 ==> slug_code(name) == "QB-"@ + keep_ascii_alnum(
            name,
        ).take(16),
{
    reveal_strlit("QB-");
    reveal_strlit("QB");
    reveal_strlit("QB-QB");
    let k = keep_ascii_alnum(name);
    let t = if k.len() > 16 {
        k.take(16)
    } else {
        k
    };
    let tail = if t.len() == 0 {
        "QB"@
    } else {
        t
    };
    assert(("QB-"@ + tail).take(3) =~= "QB-"@);
    if t.len() == 0 {
        assert("QB-"@ + "QB"@ =~= "QB-QB"@);
    }
}

} // verus!

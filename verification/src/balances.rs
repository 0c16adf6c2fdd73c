//! Open receivables by customer and open payables by vendor: what each party
//! still owes (or is owed) after the posted payments.
use vstd::prelude::*;

use crate::error::DbCommandError;
use crate::import::opt_text;
use crate::journal::{sat_add, sat_add_i64};
use crate::ledger::{
    lemma_text_le_antisymmetric, lemma_text_le_total, lemma_text_le_transitive, text_le,
    text_le_chars,
};
use crate::num::{dec_int, fmt_i64};
use crate::text::{chars_eq, chars_of, concat, string_of, trim, trim_chars};

verus! {

/// A posted document (invoice or bill) that is neither a draft nor void.
#[derive(Debug, Clone)]
pub struct OpenDocument {
    pub id: i64,
    /// The customer or vendor it belongs to; a bill may name a payee instead.
    pub party_id: Option<i64>,
    /// The display name of that customer or vendor.
    pub party_name: Option<String>,
    /// The payee of a bill that has no vendor.
    pub payee_name: Option<String>,
    pub total_minor: i64,
}

/// A posted payment: who paid or was paid, the document it is applied to, if
/// any, and its amount.
#[derive(Debug, Clone)]
pub struct PostedPayment {
    pub party_id: i64,
    pub document_id: Option<i64>,
    pub amount_minor: i64,
}

/// What an open balance is kept by: a customer or vendor, or a bill owed to a
/// payee who is not a vendor.
#[derive(Debug, Clone, Copy, PartialEq, Eq, Structural)]
pub enum BalanceKey {
    Party(i64),
    PayeeBill(i64),
}

/// One line of an open-balance report.
#[derive(Debug, Clone)]
pub struct OpenBalance {
    pub key: BalanceKey,
    pub display_name: String,
    pub open_minor: i64,
}

/// `a - b` clamped to the `i64` range.
pub open spec fn sat_sub(a: int, b: int) -> int {
    if a - b > i64::MAX {
        i64::MAX as int
    } else if a - b < i64::MIN {
        i64::MIN as int
    } else {
        a - b
    }
}

/// `-a` clamped to the `i64` range.
pub open spec fn sat_neg(a: int) -> int {
    if -a > i64::MAX {
        i64::MAX as int
    } else {
        -a
    }
}

/// The key a document's balance is kept under.
pub open spec fn doc_key(d: OpenDocument) -> BalanceKey {
    match d.party_id {
        Some(p) => BalanceKey::Party(p),
        None => BalanceKey::PayeeBill(d.id),
    }
}

/// The name a document's balance is shown under: its party's name (or
/// `Vendor #ID`), else its payee when not blank (or `Payee bill #ID`).
pub open spec fn doc_name(d: OpenDocument) -> Seq<char> {
    match d.party_id {
        Some(p) => match d.party_name {
            Some(n) => n@,
            None => "Vendor #"@ + dec_int(p as int),
        },
        None => match d.payee_name {
            Some(n) => if trim(n@).len() > 0 {
                n@
            } else {
                "Payee bill #"@ + dec_int(d.id as int)
            },
            None => "Payee bill #"@ + dec_int(d.id as int),
        },
    }
}

/// Exact sum of the payments applied to document `id`.
pub open spec fn applied_sum(pays: Seq<PostedPayment>, id: i64) -> int
    decreases pays.len(),
{
    if pays.len() == 0 {
        0
    } else {
        applied_sum(pays.drop_last(), id) + if pays.last().document_id == Some(id) {
            pays.last().amount_minor as int
        } else {
            0
        }
    }
}

/// Exact sum of the unapplied payments of party `p`.
pub open spec fn unapplied_sum(pays: Seq<PostedPayment>, p: i64) -> int
    decreases pays.len(),
{
    if pays.len() == 0 {
        0
    } else {
        unapplied_sum(pays.drop_last(), p) + if pays.last().document_id is None
            && pays.last().party_id == p {
            pays.last().amount_minor as int
        } else {
            0
        }
    }
}

/// Party `p` made (or received) a payment applied to no document.
pub open spec fn has_unapplied(pays: Seq<PostedPayment>, p: i64) -> bool {
    exists|i: int| 0 <= i < pays.len() && pays[i].document_id is None && pays[i].party_id == p
}

/// Some document's balance is kept under `k`.
pub open spec fn has_doc(docs: Seq<OpenDocument>, k: BalanceKey) -> bool {
    exists|i: int| 0 <= i < docs.len() && doc_key(docs[i]) == k
}

/// What the documents kept under `k` leave open, in document order: each adds its
/// total less the payments applied to it (all arithmetic saturating).
pub open spec fn doc_balance(docs: Seq<OpenDocument>, pays: Seq<PostedPayment>, k: BalanceKey) -> int
    decreases docs.len(),
{
    if docs.len() == 0 {
        0
    } else {
        let prev = doc_balance(docs.drop_last(), pays, k);
        let d = docs.last();
        if doc_key(d) == k {
            sat_add(prev, sat_sub(d.total_minor as int, applied_sum(pays, d.id)))
        } else {
            prev
        }
    }
}

/// The open balance under `k`: what its documents leave open, less the party's
/// unapplied payments.
pub open spec fn balance_of(docs: Seq<OpenDocument>, pays: Seq<PostedPayment>, k: BalanceKey) -> int {
    match k {
        BalanceKey::Party(p) => if has_unapplied(pays, p) {
            if has_doc(docs, k) {
                sat_sub(doc_balance(docs, pays, k), unapplied_sum(pays, p))
            } else {
                sat_neg(unapplied_sum(pays, p))
            }
        } else {
            doc_balance(docs, pays, k)
        },
        BalanceKey::PayeeBill(_) => doc_balance(docs, pays, k),
    }
}

/// `i` is the first document kept under `k`.
pub open spec fn first_doc(docs: Seq<OpenDocument>, k: BalanceKey, i: int) -> bool {
    &&& 0 <= i < docs.len()
    &&& doc_key(docs[i]) == k
    &&& forall|j: int| 0 <= j < i ==> doc_key(#[trigger] docs[j]) != k
}

/// `i` is the first name entry for party `p`.
pub open spec fn first_name(names: Seq<(i64, String)>, p: i64, i: int) -> bool {
    &&& 0 <= i < names.len()
    &&& names[i].0 == p
    &&& forall|j: int| 0 <= j < i ==> (#[trigger] names[j]).0 != p
}

/// The name the balance under `k` is shown under: that of its first document, else
/// the party's name as stored.
pub open spec fn name_of(docs: Seq<OpenDocument>, names: Seq<(i64, String)>, k: BalanceKey) -> Option<
    Seq<char>,
> {
    if has_doc(docs, k) {
        Some(doc_name(docs[choose|i: int| first_doc(docs, k, i)]))
    } else {
        match k {
            BalanceKey::Party(p) => if exists|i: int| first_name(names, p, i) {
                Some(names[choose|i: int| first_name(names, p, i)].1@)
            } else {
                None
            },
            BalanceKey::PayeeBill(_) => None,
        }
    }
}

/// A key the report covers: one of a document, or the party of an unapplied payment.
pub open spec fn is_report_key(docs: Seq<OpenDocument>, pays: Seq<PostedPayment>, k: BalanceKey) -> bool {
    has_doc(docs, k) || (k matches BalanceKey::Party(p) && has_unapplied(pays, p))
}

/// Key order: parties by id, then payee bills by id.
pub open spec fn key_lt(a: BalanceKey, b: BalanceKey) -> bool {
    match (a, b) {
        (BalanceKey::Party(x), BalanceKey::Party(y)) => x < y,
        (BalanceKey::Party(_), BalanceKey::PayeeBill(_)) => true,
        (BalanceKey::PayeeBill(_), BalanceKey::Party(_)) => false,
        (BalanceKey::PayeeBill(x), BalanceKey::PayeeBill(y)) => x < y,
    }
}

/// Report order: by name, then by key.
pub open spec fn row_before(an: Seq<char>, ak: BalanceKey, bn: Seq<char>, bk: BalanceKey) -> bool {
    (text_le(an, bn) && an != bn) || (an == bn && key_lt(ak, bk))
}

/// Some party's payments add up beyond what `i64` holds.
pub open spec fn abs_total(pays: Seq<PostedPayment>) -> int
    decreases pays.len(),
{
    if pays.len() == 0 {
        0
    } else {
        abs_total(pays.drop_last()) + if pays.last().amount_minor < 0 {
            -(pays.last().amount_minor as int)
        } else {
            pays.last().amount_minor as int
        }
    }
}

/// The report lists exactly the keys with a non-zero balance, each with its name
/// and balance, in report order.
pub open spec fn is_open_report(
    out: Seq<OpenBalance>,
    docs: Seq<OpenDocument>,
    pays: Seq<PostedPayment>,
    names: Seq<(i64, String)>,
) -> bool {
    &&& forall|i: int|
        0 <= i < out.len() ==> {
            let e = #[trigger] out[i];
            &&& is_report_key(docs, pays, e.key)
            &&& e.open_minor == balance_of(docs, pays, e.key)
            &&& e.open_minor != 0
            &&& name_of(docs, names, e.key) == Some(e.display_name@)
        }
    &&& forall|k: BalanceKey|
        is_report_key(docs, pays, k) && balance_of(docs, pays, k) != 0 ==> exists|i: int|
            0 <= i < out.len() && (#[trigger] out[i]).key == k
    &&& forall|i: int, j: int|
        0 <= i < j < out.len() ==> row_before(
            (#[trigger] out[i]).display_name@,
            out[i].key,
            (#[trigger] out[j]).display_name@,
            out[j].key,
        )
}

proof fn lemma_row_total(an: Seq<char>, ak: BalanceKey, bn: Seq<char>, bk: BalanceKey)
    requires
        !(an == bn && ak == bk),
    ensures
        row_before(an, ak, bn, bk) || row_before(bn, bk, an, ak),
{
    lemma_text_le_total(an, bn);
}

proof fn lemma_sums_bounded(pays: Seq<PostedPayment>, id: i64, p: i64)
    ensures
        -abs_total(pays) <= applied_sum(pays, id) <= abs_total(pays),
        -abs_total(pays) <= unapplied_sum(pays, p) <= abs_total(pays),
        abs_total(pays) >= 0,
    decreases pays.len(),
{
    if pays.len() > 0 {
        lemma_sums_bounded(pays.drop_last(), id, p);
    }
}

/// The exact sum of the payments applied to document `id`.
fn applied_total(pays: &[PostedPayment], id: i64) -> (r: i64)
    requires
        abs_total(pays@) <= i64::MAX,
    ensures
        r == applied_sum(pays@, id),
{
    let mut acc: i128 = 0;
    let mut i: usize = 0;
    proof {
        lemma_abs_total_prefix(pays@, 0);
        assert(pays@.take(0) == Seq::<PostedPayment>::empty());
    }
    while i < pays.len()
        invariant
            i <= pays@.len(),
            abs_total(pays@) <= i64::MAX,
            acc == applied_sum(pays@.take(i as int), id),
            -abs_total(pays@.take(i as int)) <= acc <= abs_total(pays@.take(i as int)),
            abs_total(pays@.take(i as int)) <= abs_total(pays@),
        decreases pays@.len() - i,
    {
        assert(pays@.take(i + 1).drop_last() == pays@.take(i as int));
        proof {
            lemma_abs_total_prefix(pays@, i + 1);
        }
        if pays[i].document_id == Some(id) {
            acc = acc + pays[i].amount_minor as i128;
        }
        i = i + 1;
    }
    assert(pays@.take(pays@.len() as int) == pays@);
    proof {
        lemma_sums_bounded(pays@, id, 0);
    }
    acc as i64
}

/// The exact sum of the unapplied payments of party `p`.
fn unapplied_total(pays: &[PostedPayment], p: i64) -> (r: i64)
    requires
        abs_total(pays@) <= i64::MAX,
    ensures
        r == unapplied_sum(pays@, p),
{
    let mut acc: i128 = 0;
    let mut i: usize = 0;
    proof {
        lemma_abs_total_prefix(pays@, 0);
        assert(pays@.take(0) == Seq::<PostedPayment>::empty());
    }
    while i < pays.len()
        invariant
            i <= pays@.len(),
            abs_total(pays@) <= i64::MAX,
            acc == unapplied_sum(pays@.take(i as int), p),
            -abs_total(pays@.take(i as int)) <= acc <= abs_total(pays@.take(i as int)),
            abs_total(pays@.take(i as int)) <= abs_total(pays@),
        decreases pays@.len() - i,
    {
        assert(pays@.take(i + 1).drop_last() == pays@.take(i as int));
        proof {
            lemma_abs_total_prefix(pays@, i + 1);
        }
        if pays[i].document_id.is_none() && pays[i].party_id == p {
            acc = acc + pays[i].amount_minor as i128;
        }
        i = i + 1;
    }
    assert(pays@.take(pays@.len() as int) == pays@);
    proof {
        lemma_sums_bounded(pays@, 0, p);
    }
    acc as i64
}

proof fn lemma_abs_total_prefix(pays: Seq<PostedPayment>, k: int)
    requires
        0 <= k <= pays.len(),
    ensures
        abs_total(pays.take(k)) <= abs_total(pays),
    decreases pays.len() - k,
{
    if k < pays.len() {
        lemma_abs_total_prefix(pays, k + 1);
        assert(pays.take(k + 1).drop_last() == pays.take(k));
    } else {
        assert(pays.take(k) == pays);
    }
}

fn sat_sub_i64(a: i64, b: i64) -> (r: i64)
    ensures
        r == sat_sub(a as int, b as int),
{
    let d: i128 = a as i128 - b as i128;
    if d > i64::MAX as i128 {
        i64::MAX
    } else if d < i64::MIN as i128 {
        i64::MIN
    } else {
        d as i64
    }
}

fn key_of(d: &OpenDocument) -> (k: BalanceKey)
    ensures
        k == doc_key(*d),
{
    match d.party_id {
        Some(p) => BalanceKey::Party(p),
        None => BalanceKey::PayeeBill(d.id),
    }
}

fn name_of_doc(d: &OpenDocument) -> (r: String)
    ensures
        r@ == doc_name(*d),
{
    match d.party_id {
        Some(p) => match &d.party_name {
            Some(n) => n.clone(),
            None => string_of(&concat(&chars_of("Vendor #"), &fmt_i64(p))),
        },
        None => {
            let fallback = string_of(&concat(&chars_of("Payee bill #"), &fmt_i64(d.id)));
            match &d.payee_name {
                Some(n) => if trim_chars(&chars_of(n.as_str())).len() > 0 {
                    n.clone()
                } else {
                    fallback
                },
                None => fallback,
            }
        },
    }
}

proof fn lemma_push_keeps(s: Seq<BalanceKey>, v: BalanceKey)
    ensures
        forall|x: BalanceKey| s.contains(x) ==> #[trigger] s.push(v).contains(x),
{
    assert forall|x: BalanceKey| s.contains(x) implies #[trigger] s.push(v).contains(x) by {
        let i = choose|i: int| 0 <= i < s.len() && s[i] == x;
        assert(s.push(v)[i] == x);
    }
}

fn key_listed(keys: &Vec<BalanceKey>, k: BalanceKey) -> (r: bool)
    ensures
        r == keys@.contains(k),
{
    let mut i: usize = 0;
    while i < keys.len()
        invariant
            i <= keys@.len(),
            forall|j: int| 0 <= j < i ==> keys@[j] != k,
        decreases keys@.len() - i,
    {
        if keys[i] == k {
            return true;
        }
        i = i + 1;
    }
    false
}

/// The keys the report covers, each once.
fn report_keys(docs: &[OpenDocument], pays: &[PostedPayment]) -> (r: Vec<BalanceKey>)
    ensures
        forall|i: int, j: int| 0 <= i < j < r@.len() ==> r@[i] != r@[j],
        forall|i: int| 0 <= i < r@.len() ==> is_report_key(docs@, pays@, #[trigger] r@[i]),
        forall|k: BalanceKey| is_report_key(docs@, pays@, k) ==> r@.contains(k),
{
    let mut keys: Vec<BalanceKey> = Vec::new();
    let mut i: usize = 0;
    while i < docs.len()
        invariant
            i <= docs@.len(),
            forall|a: int, b: int| 0 <= a < b < keys@.len() ==> keys@[a] != keys@[b],
            forall|a: int| 0 <= a < keys@.len() ==> is_report_key(docs@, pays@, #[trigger] keys@[a]),
            forall|a: int| 0 <= a < i ==> keys@.contains(doc_key(#[trigger] docs@[a])),
        decreases docs@.len() - i,
    {
        let k = key_of(&docs[i]);
        if !key_listed(&keys, k) {
            let ghost before = keys@;
            keys.push(k);
            proof {
                lemma_push_keeps(before, k);
            }
            assert(keys@[keys@.len() - 1] == k);
        }
        assert(keys@.contains(k));
        i = i + 1;
    }
    let mut j: usize = 0;
    while j < pays.len()
        invariant
            j <= pays@.len(),
            forall|a: int, b: int| 0 <= a < b < keys@.len() ==> keys@[a] != keys@[b],
            forall|a: int| 0 <= a < keys@.len() ==> is_report_key(docs@, pays@, #[trigger] keys@[a]),
            forall|a: int| 0 <= a < docs@.len() ==> keys@.contains(doc_key(#[trigger] docs@[a])),
            forall|a: int|
                0 <= a < j && (#[trigger] pays@[a]).document_id is None ==> keys@.contains(
                    BalanceKey::Party(pays@[a].party_id),
                ),
        decreases pays@.len() - j,
    {
        if pays[j].document_id.is_none() {
            let k = BalanceKey::Party(pays[j].party_id);
            if !key_listed(&keys, k) {
                let ghost before = keys@;
                keys.push(k);
                proof {
                    lemma_push_keeps(before, k);
                }
                assert(keys@[keys@.len() - 1] == k);
            }
            assert(keys@.contains(k));
        }
        j = j + 1;
    }
    proof {
        assert forall|k: BalanceKey| is_report_key(docs@, pays@, k) implies keys@.contains(k) by {
            if has_doc(docs@, k) {
                let a = choose|a: int| 0 <= a < docs@.len() && doc_key(docs@[a]) == k;
                assert(keys@.contains(doc_key(docs@[a])));
            } else {
                let p = k->Party_0;
                let a = choose|a: int|
                    0 <= a < pays@.len() && pays@[a].document_id is None && pays@[a].party_id == p;
                assert(keys@.contains(BalanceKey::Party(pays@[a].party_id)));
            }
        }
    }
    keys
}

/// The name of the first document kept under `k`, if any.
fn first_doc_name(docs: &[OpenDocument], k: BalanceKey) -> (r: Option<String>)
    ensures
        r is Some <==> has_doc(docs@, k),
        r matches Some(n) ==> n@ == doc_name(docs@[choose|i: int| first_doc(docs@, k, i)]),
{
    let mut i: usize = 0;
    while i < docs.len()
        invariant
            i <= docs@.len(),
            forall|j: int| 0 <= j < i ==> doc_key(#[trigger] docs@[j]) != k,
        decreases docs@.len() - i,
    {
        if key_of(&docs[i]) == k {
            proof {
                assert(first_doc(docs@, k, i as int));
                let c = choose|c: int| first_doc(docs@, k, c);
                if c < i {
                    assert(doc_key(docs@[c]) != k);
                } else if c > i {
                    assert(doc_key(docs@[i as int]) != k);
                }
            }
            return Some(name_of_doc(&docs[i]));
        }
        i = i + 1;
    }
    None
}

/// The stored name of party `p`, if any.
fn lookup_name(names: &[(i64, String)], p: i64) -> (r: Option<String>)
    ensures
        r is Some <==> exists|i: int| first_name(names@, p, i),
        r matches Some(n) ==> n@ == names@[choose|i: int| first_name(names@, p, i)].1@,
{
    let mut i: usize = 0;
    while i < names.len()
        invariant
            i <= names@.len(),
            forall|j: int| 0 <= j < i ==> (#[trigger] names@[j]).0 != p,
        decreases names@.len() - i,
    {
        if names[i].0 == p {
            proof {
                assert(first_name(names@, p, i as int));
                let c = choose|c: int| first_name(names@, p, c);
                if c < i {
                    assert(names@[c].0 != p);
                } else if c > i {
                    assert(names@[i as int].0 != p);
                }
            }
            return Some(names[i].1.clone());
        }
        i = i + 1;
    }
    proof {
        assert forall|c: int| !first_name(names@, p, c) by {
            if 0 <= c < names@.len() {
                assert(names@[c].0 != p);
            }
        }
    }
    None
}

/// What the documents kept under `k` leave open.
fn doc_balance_of(docs: &[OpenDocument], pays: &[PostedPayment], k: BalanceKey) -> (r: i64)
    requires
        abs_total(pays@) <= i64::MAX,
    ensures
        r == doc_balance(docs@, pays@, k),
{
    let mut bal: i64 = 0;
    let mut i: usize = 0;
    while i < docs.len()
        invariant
            i <= docs@.len(),
            abs_total(pays@) <= i64::MAX,
            bal == doc_balance(docs@.take(i as int), pays@, k),
        decreases docs@.len() - i,
    {
        assert(docs@.take(i + 1).drop_last() == docs@.take(i as int));
        assert(docs@.take(i + 1).last() == docs@[i as int]);
        if key_of(&docs[i]) == k {
            let paid = applied_total(pays, docs[i].id);
            bal = sat_add_i64(bal, sat_sub_i64(docs[i].total_minor, paid));
        }
        i = i + 1;
    }
    assert(docs@.take(docs@.len() as int) == docs@);
    bal
}

/// Whether party `p` has a payment applied to no document.
fn any_unapplied(pays: &[PostedPayment], p: i64) -> (r: bool)
    ensures
        r == has_unapplied(pays@, p),
{
    let mut i: usize = 0;
    while i < pays.len()
        invariant
            i <= pays@.len(),
            forall|j: int|
                0 <= j < i ==> !((#[trigger] pays@[j]).document_id is None && pays@[j].party_id
                    == p),
        decreases pays@.len() - i,
    {
        if pays[i].document_id.is_none() && pays[i].party_id == p {
            return true;
        }
        i = i + 1;
    }
    false
}

/// Some party of an unapplied payment has neither a document nor a stored name.
pub open spec fn missing_name(
    docs: Seq<OpenDocument>,
    pays: Seq<PostedPayment>,
    names: Seq<(i64, String)>,
) -> bool {
    exists|p: i64|
        has_unapplied(pays, p) && !has_doc(docs, BalanceKey::Party(p)) && !(exists|i: int|
            first_name(names, p, i))
}

/// A report line that is right: its key is covered, its balance is the key's and
/// is not zero, and it bears the key's name.
pub open spec fn row_ok(
    e: OpenBalance,
    docs: Seq<OpenDocument>,
    pays: Seq<PostedPayment>,
    names: Seq<(i64, String)>,
) -> bool {
    &&& is_report_key(docs, pays, e.key)
    &&& e.open_minor == balance_of(docs, pays, e.key)
    &&& e.open_minor != 0
    &&& name_of(docs, names, e.key) == Some(e.display_name@)
}

fn before(a: &OpenBalance, b: &OpenBalance) -> (r: bool)
    ensures
        r == row_before(a.display_name@, a.key, b.display_name@, b.key),
{
    let an = chars_of(a.display_name.as_str());
    let bn = chars_of(b.display_name.as_str());
    if chars_eq(&an, &bn) {
        match (a.key, b.key) {
            (BalanceKey::Party(x), BalanceKey::Party(y)) => x < y,
            (BalanceKey::Party(_), BalanceKey::PayeeBill(_)) => true,
            (BalanceKey::PayeeBill(_), BalanceKey::Party(_)) => false,
            (BalanceKey::PayeeBill(x), BalanceKey::PayeeBill(y)) => x < y,
        }
    } else {
        text_le_chars(&an, &bn)
    }
}

/// The open balances of the parties of `docs` and `pays`: for each customer or
/// vendor (or payee bill) with documents or unapplied payments, what its
/// documents leave open after the payments applied to them, less its unapplied
/// payments; zero balances are left out, and lines are ordered by name, then by
/// key. A party with only unapplied payments takes its name from `names`; when
/// that has none, the report fails as the database lookup does.
pub fn open_balances(
    docs: &[OpenDocument],
    pays: &[PostedPayment],
    names: &[(i64, String)],
) -> (r: Result<Vec<OpenBalance>, DbCommandError>)
    requires
        abs_total(pays@) <= i64::MAX,
    ensures
        missing_name(docs@, pays@, names@) ==> (r matches Err(DbCommandError::Sql { message })
            && message@ == "Query returned no rows"@),
        !missing_name(docs@, pays@, names@) ==> (r matches Ok(out) && is_open_report(
            out@,
            docs@,
            pays@,
            names@,
        )),
{
    let keys = report_keys(docs, pays);
    let mut rows: Vec<OpenBalance> = Vec::new();
    let mut i: usize = 0;
    while i < keys.len()
        invariant
            i <= keys@.len(),
            abs_total(pays@) <= i64::MAX,
            forall|a: int, b: int| 0 <= a < b < keys@.len() ==> keys@[a] != keys@[b],
            forall|a: int| 0 <= a < keys@.len() ==> is_report_key(docs@, pays@, #[trigger] keys@[a]),
            forall|a: int| 0 <= a < rows@.len() ==> row_ok(#[trigger] rows@[a], docs@, pays@, names@),
            forall|a: int|
                0 <= a < rows@.len() ==> exists|b: int| 0 <= b < i && keys@[b] == (#[trigger] rows@[a]).key,
            forall|a: int, b: int| 0 <= a < b < rows@.len() ==> rows@[a].key != rows@[b].key,
            forall|b: int|
                0 <= b < i && balance_of(docs@, pays@, #[trigger] keys@[b]) != 0 ==> exists|a: int|
                    0 <= a < rows@.len() && rows@[a].key == keys@[b],
            forall|b: int| 0 <= b < i ==> name_of(docs@, names@, #[trigger] keys@[b]) is Some,
        decreases keys@.len() - i,
    {
        let k = keys[i];
        match row_for(docs, pays, names, k) {
            Err(e) => {
                return Err(e);
            },
            Ok(None) => {},
            Ok(Some(e)) => {
                let ghost before_rows = rows@;
                rows.push(e);
                proof {
                    lemma_rows_extend(before_rows, rows@, keys@, i as int, docs@, pays@);
                }
            },
        }
        i = i + 1;
    }
    proof {
        lemma_no_missing_name(keys@, docs@, pays@, names@);
    }
    let out = sort_rows(rows, Ghost(docs@), Ghost(pays@), Ghost(names@));
    proof {
        lemma_report_complete(keys@, rows@, out@, docs@, pays@);
    }
    Ok(out)
}

proof fn lemma_rows_extend(
    before_rows: Seq<OpenBalance>,
    rows: Seq<OpenBalance>,
    keys: Seq<BalanceKey>,
    i: int,
    docs: Seq<OpenDocument>,
    pays: Seq<PostedPayment>,
)
    requires
        0 <= i < keys.len(),
        rows.len() == before_rows.len() + 1,
        forall|a: int| 0 <= a < before_rows.len() ==> rows[a] == before_rows[a],
        rows[rows.len() - 1].key == keys[i],
        forall|a: int, b: int| 0 <= a < b < keys.len() ==> keys[a] != keys[b],
        forall|a: int|
            0 <= a < before_rows.len() ==> exists|b: int| 0 <= b < i && keys[b] == (#[trigger] before_rows[a]).key,
        forall|a: int, b: int| 0 <= a < b < before_rows.len() ==> before_rows[a].key != before_rows[b].key,
        forall|b: int|
            0 <= b < i && balance_of(docs, pays, #[trigger] keys[b]) != 0 ==> exists|a: int|
                0 <= a < before_rows.len() && before_rows[a].key == keys[b],
    ensures
        forall|a: int|
            0 <= a < rows.len() ==> exists|b: int| 0 <= b < i + 1 && keys[b] == (#[trigger] rows[a]).key,
        forall|a: int, b: int| 0 <= a < b < rows.len() ==> rows[a].key != rows[b].key,
        forall|b: int|
            0 <= b < i + 1 && balance_of(docs, pays, #[trigger] keys[b]) != 0 ==> exists|a: int|
                0 <= a < rows.len() && rows[a].key == keys[b],
{
    assert forall|a: int| 0 <= a < rows.len() implies exists|b: int|
        0 <= b < i + 1 && keys[b] == (#[trigger] rows[a]).key by {
        if a < before_rows.len() {
            assert(rows[a] == before_rows[a]);
            let b = choose|b: int| 0 <= b < i && keys[b] == before_rows[a].key;
        } else {
            assert(keys[i] == rows[a].key);
        }
    }
    assert forall|a: int, b: int| 0 <= a < b < rows.len() implies rows[a].key != rows[b].key by {
        if b == rows.len() - 1 {
            assert(rows[a] == before_rows[a]);
            let c = choose|c: int| 0 <= c < i && keys[c] == before_rows[a].key;
            assert(keys[c] != keys[i]);
        } else {
            assert(rows[a] == before_rows[a]);
            assert(rows[b] == before_rows[b]);
        }
    }
    assert forall|b: int|
        0 <= b < i + 1 && balance_of(docs, pays, #[trigger] keys[b]) != 0 implies exists|a: int|
        0 <= a < rows.len() && rows[a].key == keys[b] by {
        if b < i {
            let a = choose|a: int| 0 <= a < before_rows.len() && before_rows[a].key == keys[b];
            assert(rows[a] == before_rows[a]);
        } else {
            assert(rows[rows.len() - 1].key == keys[b]);
        }
    }
}

proof fn lemma_no_missing_name(
    keys: Seq<BalanceKey>,
    docs: Seq<OpenDocument>,
    pays: Seq<PostedPayment>,
    names: Seq<(i64, String)>,
)
    requires
        forall|k: BalanceKey| is_report_key(docs, pays, k) ==> keys.contains(k),
        forall|b: int| 0 <= b < keys.len() ==> name_of(docs, names, #[trigger] keys[b]) is Some,
    ensures
        !missing_name(docs, pays, names),
{
    if missing_name(docs, pays, names) {
        let p = choose|p: i64|
            has_unapplied(pays, p) && !has_doc(docs, BalanceKey::Party(p)) && !(exists|j: int|
                first_name(names, p, j));
        let k = BalanceKey::Party(p);
        assert(is_report_key(docs, pays, k));
        assert(keys.contains(k));
        let b = choose|b: int| 0 <= b < keys.len() && keys[b] == k;
        assert(name_of(docs, names, keys[b]) is Some);
        assert(name_of(docs, names, k) is None);
    }
}

proof fn lemma_report_complete(
    keys: Seq<BalanceKey>,
    rows: Seq<OpenBalance>,
    out: Seq<OpenBalance>,
    docs: Seq<OpenDocument>,
    pays: Seq<PostedPayment>,
)
    requires
        forall|k: BalanceKey| is_report_key(docs, pays, k) ==> keys.contains(k),
        forall|b: int|
            0 <= b < keys.len() && balance_of(docs, pays, #[trigger] keys[b]) != 0 ==> exists|a: int|
                0 <= a < rows.len() && rows[a].key == keys[b],
        forall|a: int|
            0 <= a < rows.len() ==> exists|b: int| 0 <= b < out.len() && out[b].key == (#[trigger] rows[a]).key,
    ensures
        forall|k: BalanceKey|
            is_report_key(docs, pays, k) && balance_of(docs, pays, k) != 0 ==> exists|i: int|
                0 <= i < out.len() && (#[trigger] out[i]).key == k,
{
    assert forall|k: BalanceKey|
        is_report_key(docs, pays, k) && balance_of(docs, pays, k) != 0 implies exists|i: int|
        0 <= i < out.len() && (#[trigger] out[i]).key == k by {
        assert(keys.contains(k));
        let b = choose|b: int| 0 <= b < keys.len() && keys[b] == k;
        assert(balance_of(docs, pays, keys[b]) != 0);
        let a = choose|a: int| 0 <= a < rows.len() && rows[a].key == keys[b];
        assert(exists|c: int| 0 <= c < out.len() && out[c].key == rows[a].key);
    }
}

/// The report line for key `k`, or none when its balance is zero; fails when
/// its party has neither a document nor a stored name.
fn row_for(
    docs: &[OpenDocument],
    pays: &[PostedPayment],
    names: &[(i64, String)],
    k: BalanceKey,
) -> (r: Result<Option<OpenBalance>, DbCommandError>)
    requires
        abs_total(pays@) <= i64::MAX,
        is_report_key(docs@, pays@, k),
    ensures
        r is Err <==> name_of(docs@, names@, k) is None,
        r matches Err(e) ==> (e matches DbCommandError::Sql { message } && message@
            == "Query returned no rows"@),
        r matches Ok(o) ==> ((o is Some <==> balance_of(docs@, pays@, k) != 0) && (o matches Some(
            e,
        ) ==> e.key == k && row_ok(e, docs@, pays@, names@))),
{
    let doc_name = first_doc_name(docs, k);
    let has_document = doc_name.is_some();
    let name = match doc_name {
        Some(n) => n,
        None => match k {
            BalanceKey::Party(p) => match lookup_name(names, p) {
                Some(n) => n,
                None => {
                    return Err(DbCommandError::Sql { message: "Query returned no rows".to_owned() });
                },
            },
            BalanceKey::PayeeBill(_) => {
                return Err(DbCommandError::Sql { message: "Query returned no rows".to_owned() });
            },
        },
    };
    let base = doc_balance_of(docs, pays, k);
    let bal = match k {
        BalanceKey::Party(p) => if any_unapplied(pays, p) {
            let u = unapplied_total(pays, p);
            if has_document {
                sat_sub_i64(base, u)
            } else if u == i64::MIN {
                i64::MAX
            } else {
                -u
            }
        } else {
            base
        },
        BalanceKey::PayeeBill(_) => base,
    };
    if bal == 0 {
        return Ok(None);
    }
    Ok(Some(OpenBalance { key: k, display_name: name, open_minor: bal }))
}

/// `rows` in report order (selection by least remaining line).
fn sort_rows(
    rows: Vec<OpenBalance>,
    Ghost(docs): Ghost<Seq<OpenDocument>>,
    Ghost(pays): Ghost<Seq<PostedPayment>>,
    Ghost(names): Ghost<Seq<(i64, String)>>,
) -> (r: Vec<OpenBalance>)
    requires
        forall|a: int| 0 <= a < rows@.len() ==> row_ok(#[trigger] rows@[a], docs, pays, names),
        forall|a: int, b: int| 0 <= a < b < rows@.len() ==> rows@[a].key != rows@[b].key,
    ensures
        forall|a: int| 0 <= a < r@.len() ==> row_ok(#[trigger] r@[a], docs, pays, names),
        forall|a: int|
            0 <= a < rows@.len() ==> exists|b: int| 0 <= b < r@.len() && r@[b].key == (#[trigger] rows@[a]).key,
        forall|i: int, j: int|
            0 <= i < j < r@.len() ==> row_before(
                (#[trigger] r@[i]).display_name@,
                r@[i].key,
                (#[trigger] r@[j]).display_name@,
                r@[j].key,
            ),
{
    let ghost orig = rows@;
    let mut rest = rows;
    let mut out: Vec<OpenBalance> = Vec::new();
    while rest.len() > 0
        invariant
            forall|a: int| 0 <= a < rest@.len() ==> row_ok(#[trigger] rest@[a], docs, pays, names),
            forall|a: int| 0 <= a < out@.len() ==> row_ok(#[trigger] out@[a], docs, pays, names),
            forall|a: int, b: int| 0 <= a < b < rest@.len() ==> rest@[a].key != rest@[b].key,
            forall|a: int, b: int| 0 <= a < out@.len() && 0 <= b < rest@.len() ==> out@[a].key != rest@[b].key,
            forall|a: int|
                0 <= a < orig.len() ==> (exists|b: int| 0 <= b < out@.len() && out@[b].key == (#[trigger] orig[a]).key)
                    || (exists|b: int| 0 <= b < rest@.len() && rest@[b].key == orig[a].key),
            forall|i: int, j: int|
                0 <= i < j < out@.len() ==> row_before(
                    (#[trigger] out@[i]).display_name@,
                    out@[i].key,
                    (#[trigger] out@[j]).display_name@,
                    out@[j].key,
                ),
            forall|i: int, j: int|
                0 <= i < out@.len() && 0 <= j < rest@.len() ==> row_before(
                    (#[trigger] out@[i]).display_name@,
                    out@[i].key,
                    (#[trigger] rest@[j]).display_name@,
                    rest@[j].key,
                ),
        decreases rest@.len(),
    {
        let mut m: usize = 0;
        let mut k: usize = 1;
        while k < rest.len()
            invariant
                0 < rest@.len(),
                m < rest@.len(),
                1 <= k <= rest@.len(),
                m < k,
                forall|j: int|
                    0 <= j < k ==> !row_before(
                        (#[trigger] rest@[j]).display_name@,
                        rest@[j].key,
                        rest@[m as int].display_name@,
                        rest@[m as int].key,
                    ),
            decreases rest@.len() - k,
        {
            if before(&rest[k], &rest[m]) {
                proof {
                    assert forall|j: int| 0 <= j < k + 1 implies !row_before(
                        (#[trigger] rest@[j]).display_name@,
                        rest@[j].key,
                        rest@[k as int].display_name@,
                        rest@[k as int].key,
                    ) by {
                        if j < k {
                            lemma_row_order(rest@[j], rest@[m as int], rest@[k as int]);
                        }
                    }
                }
                m = k;
            }
            k = k + 1;
        }
        let ghost rest_before = rest@;
        let ghost out_before = out@;
        let picked = rest.remove(m);
        proof {
            assert forall|j: int| 0 <= j < rest@.len() implies row_before(
                picked.display_name@,
                picked.key,
                (#[trigger] rest@[j]).display_name@,
                rest@[j].key,
            ) by {
                let jj = if j < m {
                    j
                } else {
                    j + 1
                };
                assert(rest@[j] == rest_before[jj]);
                assert(rest_before[jj].key != picked.key);
                lemma_row_total(
                    picked.display_name@,
                    picked.key,
                    rest@[j].display_name@,
                    rest@[j].key,
                );
            }
        }
        out.push(picked);
        proof {
            assert forall|a: int|
                0 <= a < orig.len() implies (exists|b: int| 0 <= b < out@.len() && out@[b].key == (#[trigger] orig[a]).key)
                    || (exists|b: int| 0 <= b < rest@.len() && rest@[b].key == orig[a].key) by {
                if exists|b: int| 0 <= b < out_before.len() && out_before[b].key == orig[a].key {
                    let b = choose|b: int| 0 <= b < out_before.len() && out_before[b].key == orig[a].key;
                    assert(out@[b] == out_before[b]);
                } else {
                    let b = choose|b: int| 0 <= b < rest_before.len() && rest_before[b].key == orig[a].key;
                    if b == m {
                        assert(out@[out@.len() - 1] == picked);
                    } else if b < m {
                        assert(rest@[b] == rest_before[b]);
                    } else {
                        assert(rest@[b - 1] == rest_before[b]);
                    }
                }
            }
            assert forall|a: int, b: int| 0 <= a < out@.len() && 0 <= b < rest@.len() implies out@[a].key != rest@[b].key by {
                let bb = if b < m {
                    b
                } else {
                    b + 1
                };
                assert(rest@[b] == rest_before[bb]);
                if a < out_before.len() {
                    assert(out@[a] == out_before[a]);
                } else {
                    assert(out@[a] == picked);
                }
            }
            assert forall|a: int, b: int| 0 <= a < b < rest@.len() implies rest@[a].key != rest@[b].key by {
                let aa = if a < m {
                    a
                } else {
                    a + 1
                };
                let bb = if b < m {
                    b
                } else {
                    b + 1
                };
                assert(rest@[a] == rest_before[aa]);
                assert(rest@[b] == rest_before[bb]);
            }
            assert forall|i: int, j: int|
                0 <= i < out@.len() && 0 <= j < rest@.len() implies row_before(
                    (#[trigger] out@[i]).display_name@,
                    out@[i].key,
                    (#[trigger] rest@[j]).display_name@,
                    rest@[j].key,
                ) by {
                let jj = if j < m {
                    j
                } else {
                    j + 1
                };
                assert(rest@[j] == rest_before[jj]);
                if i < out_before.len() {
                    assert(out@[i] == out_before[i]);
                }
            }
            assert forall|i: int, j: int|
                0 <= i < j < out@.len() implies row_before(
                    (#[trigger] out@[i]).display_name@,
                    out@[i].key,
                    (#[trigger] out@[j]).display_name@,
                    out@[j].key,
                ) by {
                assert(out@[i] == out_before[i]);
                if j < out_before.len() {
                    assert(out@[j] == out_before[j]);
                } else {
                    assert(rest_before[m as int] == picked);
                }
            }
            assert forall|a: int| 0 <= a < rest@.len() implies row_ok(#[trigger] rest@[a], docs, pays, names) by {
                let aa = if a < m {
                    a
                } else {
                    a + 1
                };
                assert(rest@[a] == rest_before[aa]);
            }
        }
    }
    out
}

proof fn lemma_row_order(a: OpenBalance, m: OpenBalance, k: OpenBalance)
    requires
        !row_before(a.display_name@, a.key, m.display_name@, m.key),
        row_before(k.display_name@, k.key, m.display_name@, m.key),
    ensures
        !row_before(a.display_name@, a.key, k.display_name@, k.key),
{
    if row_before(a.display_name@, a.key, k.display_name@, k.key) {
        lemma_row_trans(
            a.display_name@,
            a.key,
            k.display_name@,
            k.key,
            m.display_name@,
            m.key,
        );
    }
}

proof fn lemma_row_trans(
    an: Seq<char>,
    ak: BalanceKey,
    bn: Seq<char>,
    bk: BalanceKey,
    cn: Seq<char>,
    ck: BalanceKey,
)
    requires
        row_before(an, ak, bn, bk),
        row_before(bn, bk, cn, ck),
    ensures
        row_before(an, ak, cn, ck),
{
    if an != bn && bn != cn {
        lemma_text_le_transitive(an, bn, cn);
        if an == cn {
            lemma_text_le_antisymmetric(an, bn);
        }
    }
}

} // verus!

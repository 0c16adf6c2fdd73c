//! What the open-balance reports add up to: the document totals less the
//! payments posted against them, which the posting rules also put on the
//! receivable or payable control account.
use vstd::prelude::*;

use crate::balances::{
    abs_total, applied_sum, balance_of, doc_balance, doc_key, has_doc, has_unapplied, is_open_report,
    is_report_key, name_of, row_before, sat_neg, sat_sub, unapplied_sum, BalanceKey, OpenBalance,
    OpenDocument, PostedPayment,
};
use crate::journal::sat_add;

verus! {

/// The sum of `f` over the keys of `s`.
pub open spec fn sum_keys(s: Seq<BalanceKey>, f: spec_fn(BalanceKey) -> int) -> int
    decreases s.len(),
{
    if s.len() == 0 {
        0
    } else {
        sum_keys(s.drop_last(), f) + f(s.last())
    }
}

proof fn lemma_sum_remove(s: Seq<BalanceKey>, f: spec_fn(BalanceKey) -> int, i: int)
    requires
        0 <= i < s.len(),
    ensures
        sum_keys(s, f) == f(s[i]) + sum_keys(s.remove(i), f),
    decreases s.len(),
{
    if i < s.len() - 1 {
        let d = s.drop_last();
        lemma_sum_remove(d, f, i);
        assert(s.remove(i).drop_last() =~= d.remove(i));
        assert(s.remove(i).last() == s.last());
    } else {
        assert(s.remove(i) =~= s.drop_last());
    }
}

proof fn lemma_sum_all_zero(s: Seq<BalanceKey>, f: spec_fn(BalanceKey) -> int)
    requires
        forall|i: int| 0 <= i < s.len() ==> f(#[trigger] s[i]) == 0,
    ensures
        sum_keys(s, f) == 0,
    decreases s.len(),
{
    if s.len() > 0 {
        let d = s.drop_last();
        assert forall|i: int| 0 <= i < d.len() implies f(#[trigger] d[i]) == 0 by {
            assert(d[i] == s[i]);
        }
        lemma_sum_all_zero(d, f);
        assert(f(s[s.len() - 1]) == 0);
    }
}

/// Sums over two lists of distinct keys agree when they hold the same keys
/// on which `f` is not zero.
proof fn lemma_sum_same_support(s1: Seq<BalanceKey>, s2: Seq<BalanceKey>, f: spec_fn(BalanceKey) -> int)
    requires
        s1.no_duplicates(),
        s2.no_duplicates(),
        forall|x: BalanceKey| s1.contains(x) && f(x) != 0 ==> s2.contains(x),
        forall|x: BalanceKey| s2.contains(x) && f(x) != 0 ==> s1.contains(x),
    ensures
        sum_keys(s1, f) == sum_keys(s2, f),
    decreases s1.len(),
{
    if s1.len() == 0 {
        assert forall|i: int| 0 <= i < s2.len() implies f(#[trigger] s2[i]) == 0 by {
            if f(s2[i]) != 0 {
                assert(s2.contains(s2[i]));
            }
        }
        lemma_sum_all_zero(s2, f);
    } else {
        let x = s1.last();
        let d1 = s1.drop_last();
        assert(s1.contains(x));
        assert(!d1.contains(x)) by {
            if d1.contains(x) {
                let j = choose|j: int| 0 <= j < d1.len() && d1[j] == x;
                assert(s1[j] == s1[s1.len() - 1]);
            }
        }
        assert forall|y: BalanceKey| d1.contains(y) implies s1.contains(y) && y != x by {
            let j = choose|j: int| 0 <= j < d1.len() && d1[j] == y;
            assert(s1[j] == y);
        }
        assert forall|y: BalanceKey| s1.contains(y) && y != x implies d1.contains(y) by {
            let j = choose|j: int| 0 <= j < s1.len() && s1[j] == y;
            assert(j != s1.len() - 1);
            assert(d1[j] == y);
        }
        assert(d1.no_duplicates()) by {
            assert forall|a: int, b: int| 0 <= a < b < d1.len() implies d1[a] != d1[b] by {
                assert(d1[a] == s1[a] && d1[b] == s1[b]);
            }
        }
        if s2.contains(x) {
            let i = choose|i: int| 0 <= i < s2.len() && s2[i] == x;
            let d2 = s2.remove(i);
            lemma_sum_remove(s2, f, i);
            assert forall|y: BalanceKey| d2.contains(y) <==> (s2.contains(y) && y != x) by {
                if d2.contains(y) {
                    let j = choose|j: int| 0 <= j < d2.len() && d2[j] == y;
                    if j < i {
                        assert(s2[j] == y);
                        assert(j != i);
                    } else {
                        assert(s2[j + 1] == y);
                        assert(j + 1 != i);
                    }
                }
                if s2.contains(y) && y != x {
                    let j = choose|j: int| 0 <= j < s2.len() && s2[j] == y;
                    if j < i {
                        assert(d2[j] == y);
                    } else {
                        assert(j != i);
                        assert(d2[j - 1] == y);
                    }
                }
            }
            assert(d2.no_duplicates()) by {
                assert forall|a: int, b: int| 0 <= a < b < d2.len() implies d2[a] != d2[b] by {
                    let a2 = if a < i {
                        a
                    } else {
                        a + 1
                    };
                    let b2 = if b < i {
                        b
                    } else {
                        b + 1
                    };
                    assert(d2[a] == s2[a2] && d2[b] == s2[b2]);
                }
            }
            lemma_sum_same_support(d1, d2, f);
        } else {
            assert(f(x) == 0);
            lemma_sum_same_support(d1, s2, f);
        }
    }
}

/// Summing `[k == x] * c` over distinct keys gives `c` when `x` is among them, else 0.
proof fn lemma_sum_indicator(s: Seq<BalanceKey>, x: BalanceKey, c: int)
    requires
        s.no_duplicates(),
    ensures
        sum_keys(s, |k: BalanceKey| if k == x { c } else { 0 }) == if s.contains(x) {
            c
        } else {
            0
        },
    decreases s.len(),
{
    if s.len() > 0 {
        let d = s.drop_last();
        assert(d.no_duplicates()) by {
            assert forall|a: int, b: int| 0 <= a < b < d.len() implies d[a] != d[b] by {
                assert(d[a] == s[a] && d[b] == s[b]);
            }
        }
        lemma_sum_indicator(d, x, c);
        if s.last() == x {
            assert(!d.contains(x)) by {
                if d.contains(x) {
                    let j = choose|j: int| 0 <= j < d.len() && d[j] == x;
                    assert(s[j] == s[s.len() - 1]);
                }
            }
            assert(s.contains(x)) by {
                assert(s[s.len() - 1] == x);
            }
        } else {
            assert(d.contains(x) == s.contains(x)) by {
                if s.contains(x) {
                    let j = choose|j: int| 0 <= j < s.len() && s[j] == x;
                    assert(j != s.len() - 1);
                    assert(d[j] == x);
                }
                if d.contains(x) {
                    let j = choose|j: int| 0 <= j < d.len() && d[j] == x;
                    assert(s[j] == x);
                }
            }
        }
    }
}

/// Sums are linear: the sum of `f + g` is the sum of `f` plus the sum of `g`.
proof fn lemma_sum_add(s: Seq<BalanceKey>, f: spec_fn(BalanceKey) -> int, g: spec_fn(BalanceKey) -> int)
    ensures
        sum_keys(s, |k: BalanceKey| f(k) + g(k)) == sum_keys(s, f) + sum_keys(s, g),
    decreases s.len(),
{
    if s.len() > 0 {
        lemma_sum_add(s.drop_last(), f, g);
    }
}

/// Sums agree for functions that agree on the keys summed over.
proof fn lemma_sum_congruent(s: Seq<BalanceKey>, f: spec_fn(BalanceKey) -> int, g: spec_fn(BalanceKey) -> int)
    requires
        forall|i: int| 0 <= i < s.len() ==> f(#[trigger] s[i]) == g(s[i]),
    ensures
        sum_keys(s, f) == sum_keys(s, g),
    decreases s.len(),
{
    if s.len() > 0 {
        let d = s.drop_last();
        assert forall|i: int| 0 <= i < d.len() implies f(#[trigger] d[i]) == g(d[i]) by {
            assert(d[i] == s[i]);
        }
        lemma_sum_congruent(d, f, g);
        assert(f(s[s.len() - 1]) == g(s[s.len() - 1]));
    }
}

/// The keys of the documents, each once, in order of first appearance.
pub open spec fn doc_keys(docs: Seq<OpenDocument>) -> Seq<BalanceKey>
    decreases docs.len(),
{
    if docs.len() == 0 {
        Seq::empty()
    } else {
        let ks = doc_keys(docs.drop_last());
        let k = doc_key(docs.last());
        if ks.contains(k) {
            ks
        } else {
            ks.push(k)
        }
    }
}

/// `base` followed by the parties of unapplied payments that it does not list yet.
pub open spec fn with_payer_keys(base: Seq<BalanceKey>, pays: Seq<PostedPayment>) -> Seq<BalanceKey>
    decreases pays.len(),
{
    if pays.len() == 0 {
        base
    } else {
        let ks = with_payer_keys(base, pays.drop_last());
        let q = pays.last();
        let k = BalanceKey::Party(q.party_id);
        if q.document_id is None && !ks.contains(k) {
            ks.push(k)
        } else {
            ks
        }
    }
}

/// Every key a report covers, each once.
pub open spec fn all_report_keys(docs: Seq<OpenDocument>, pays: Seq<PostedPayment>) -> Seq<BalanceKey> {
    with_payer_keys(doc_keys(docs), pays)
}

proof fn lemma_push_new(s: Seq<BalanceKey>, k: BalanceKey)
    requires
        s.no_duplicates(),
        !s.contains(k),
    ensures
        s.push(k).no_duplicates(),
        forall|y: BalanceKey| s.push(k).contains(y) <==> (s.contains(y) || y == k),
{
    let t = s.push(k);
    assert forall|a: int, b: int| 0 <= a < b < t.len() implies t[a] != t[b] by {
        if b == t.len() - 1 {
            assert(t[a] == s[a]);
        } else {
            assert(t[a] == s[a] && t[b] == s[b]);
        }
    }
    assert forall|y: BalanceKey| t.contains(y) <==> (s.contains(y) || y == k) by {
        if t.contains(y) {
            let j = choose|j: int| 0 <= j < t.len() && t[j] == y;
            if j < s.len() {
                assert(s[j] == y);
            }
        }
        if s.contains(y) {
            let j = choose|j: int| 0 <= j < s.len() && s[j] == y;
            assert(t[j] == y);
        }
        if y == k {
            assert(t[s.len() as int] == k);
        }
    }
}

proof fn lemma_has_doc_step(docs: Seq<OpenDocument>, k: BalanceKey)
    requires
        docs.len() > 0,
    ensures
        has_doc(docs, k) <==> (has_doc(docs.drop_last(), k) || doc_key(docs.last()) == k),
{
    let d = docs.drop_last();
    if has_doc(docs, k) {
        let i = choose|i: int| 0 <= i < docs.len() && doc_key(docs[i]) == k;
        if i < d.len() {
            assert(doc_key(d[i]) == k);
        }
    }
    if has_doc(d, k) {
        let i = choose|i: int| 0 <= i < d.len() && doc_key(d[i]) == k;
        assert(doc_key(docs[i]) == k);
    }
    if doc_key(docs.last()) == k {
        assert(doc_key(docs[docs.len() - 1]) == k);
    }
}

proof fn lemma_has_unapplied_step(pays: Seq<PostedPayment>, p: i64)
    requires
        pays.len() > 0,
    ensures
        has_unapplied(pays, p) <==> (has_unapplied(pays.drop_last(), p) || (
        pays.last().document_id is None && pays.last().party_id == p)),
{
    let d = pays.drop_last();
    if has_unapplied(pays, p) {
        let i = choose|i: int| 0 <= i < pays.len() && pays[i].document_id is None && pays[i].party_id == p;
        if i < d.len() {
            assert(d[i] == pays[i]);
        }
    }
    if has_unapplied(d, p) {
        let i = choose|i: int| 0 <= i < d.len() && d[i].document_id is None && d[i].party_id == p;
        assert(pays[i] == d[i]);
    }
    if pays.last().document_id is None && pays.last().party_id == p {
        assert(pays[pays.len() - 1] == pays.last());
    }
}

proof fn lemma_doc_keys(docs: Seq<OpenDocument>)
    ensures
        doc_keys(docs).no_duplicates(),
        forall|k: BalanceKey| doc_keys(docs).contains(k) <==> has_doc(docs, k),
    decreases docs.len(),
{
    if docs.len() > 0 {
        let d = docs.drop_last();
        lemma_doc_keys(d);
        let k = doc_key(docs.last());
        if !doc_keys(d).contains(k) {
            lemma_push_new(doc_keys(d), k);
        }
        assert forall|y: BalanceKey| doc_keys(docs).contains(y) <==> has_doc(docs, y) by {
            lemma_has_doc_step(docs, y);
        }
    } else {
        assert forall|y: BalanceKey| doc_keys(docs).contains(y) <==> has_doc(docs, y) by {}
    }
}

proof fn lemma_payer_keys(base: Seq<BalanceKey>, pays: Seq<PostedPayment>)
    requires
        base.no_duplicates(),
    ensures
        with_payer_keys(base, pays).no_duplicates(),
        forall|k: BalanceKey|
            with_payer_keys(base, pays).contains(k) <==> (base.contains(k) || (k matches BalanceKey::Party(
                p,
            ) && has_unapplied(pays, p))),
    decreases pays.len(),
{
    if pays.len() > 0 {
        let d = pays.drop_last();
        lemma_payer_keys(base, d);
        let ks = with_payer_keys(base, d);
        let q = pays.last();
        let k = BalanceKey::Party(q.party_id);
        if q.document_id is None && !ks.contains(k) {
            lemma_push_new(ks, k);
        }
        assert forall|y: BalanceKey|
            with_payer_keys(base, pays).contains(y) <==> (base.contains(y) || (y matches BalanceKey::Party(
                p,
            ) && has_unapplied(pays, p))) by {
            assert(ks.contains(y) <==> (base.contains(y) || (y matches BalanceKey::Party(p)
                && has_unapplied(d, p))));
            if let BalanceKey::Party(p) = y {
                lemma_has_unapplied_step(pays, p);
            }
            if q.document_id is None && !ks.contains(k) {
                assert(ks.push(k).contains(y) <==> (ks.contains(y) || y == k));
            }
        }
    } else {
        assert forall|y: BalanceKey|
            with_payer_keys(base, pays).contains(y) <==> (base.contains(y) || (y matches BalanceKey::Party(
                p,
            ) && has_unapplied(pays, p))) by {}
    }
}

proof fn lemma_report_keys(docs: Seq<OpenDocument>, pays: Seq<PostedPayment>)
    ensures
        all_report_keys(docs, pays).no_duplicates(),
        forall|k: BalanceKey| all_report_keys(docs, pays).contains(k) <==> is_report_key(docs, pays, k),
{
    lemma_doc_keys(docs);
    lemma_payer_keys(doc_keys(docs), pays);
}

/// What the documents kept under `k` leave open, exactly: their totals less the
/// payments applied to them.
pub open spec fn doc_net(docs: Seq<OpenDocument>, pays: Seq<PostedPayment>, k: BalanceKey) -> int
    decreases docs.len(),
{
    if docs.len() == 0 {
        0
    } else {
        doc_net(docs.drop_last(), pays, k) + if doc_key(docs.last()) == k {
            docs.last().total_minor - applied_sum(pays, docs.last().id)
        } else {
            0
        }
    }
}

/// The sum of the document totals.
pub open spec fn docs_total(docs: Seq<OpenDocument>) -> int
    decreases docs.len(),
{
    if docs.len() == 0 {
        0
    } else {
        docs_total(docs.drop_last()) + docs.last().total_minor
    }
}

/// The sum of the payments applied to each document.
pub open spec fn applied_to_docs(docs: Seq<OpenDocument>, pays: Seq<PostedPayment>) -> int
    decreases docs.len(),
{
    if docs.len() == 0 {
        0
    } else {
        applied_to_docs(docs.drop_last(), pays) + applied_sum(pays, docs.last().id)
    }
}

/// The sum of the payments applied to no document.
pub open spec fn unapplied_total(pays: Seq<PostedPayment>) -> int
    decreases pays.len(),
{
    if pays.len() == 0 {
        0
    } else {
        unapplied_total(pays.drop_last()) + if pays.last().document_id is None {
            pays.last().amount_minor as int
        } else {
            0
        }
    }
}

/// The unapplied payments counted against key `k`.
pub open spec fn unapplied_of(pays: Seq<PostedPayment>, k: BalanceKey) -> int {
    match k {
        BalanceKey::Party(p) => unapplied_sum(pays, p),
        BalanceKey::PayeeBill(_) => 0,
    }
}

proof fn lemma_sum_doc_net(ks: Seq<BalanceKey>, docs: Seq<OpenDocument>, pays: Seq<PostedPayment>)
    requires
        ks.no_duplicates(),
        forall|i: int| 0 <= i < docs.len() ==> ks.contains(doc_key(#[trigger] docs[i])),
    ensures
        sum_keys(ks, |k: BalanceKey| doc_net(docs, pays, k)) == docs_total(docs) - applied_to_docs(
            docs,
            pays,
        ),
    decreases docs.len(),
{
    if docs.len() > 0 {
        let d = docs.drop_last();
        assert forall|i: int| 0 <= i < d.len() implies ks.contains(doc_key(#[trigger] d[i])) by {
            assert(d[i] == docs[i]);
        }
        lemma_sum_doc_net(ks, d, pays);
        let x = doc_key(docs.last());
        let c = docs.last().total_minor - applied_sum(pays, docs.last().id);
        let f_old = |k: BalanceKey| doc_net(d, pays, k);
        let ind = |k: BalanceKey| if k == x {
            c
        } else {
            0
        };
        lemma_sum_add(ks, f_old, ind);
        lemma_sum_congruent(ks, |k: BalanceKey| doc_net(docs, pays, k), |k: BalanceKey| f_old(k) + ind(k));
        lemma_sum_indicator(ks, x, c);
        assert(ks.contains(doc_key(docs[docs.len() - 1])));
        assert(sum_keys(ks, f_old) == docs_total(d) - applied_to_docs(d, pays));
        assert(sum_keys(ks, ind) == c);
        assert(sum_keys(ks, |k: BalanceKey| f_old(k) + ind(k)) == sum_keys(ks, f_old) + sum_keys(ks, ind));
        assert(sum_keys(ks, |k: BalanceKey| doc_net(docs, pays, k)) == sum_keys(ks, |k: BalanceKey| f_old(k) + ind(k)));
    } else {
        lemma_sum_all_zero(ks, |k: BalanceKey| doc_net(docs, pays, k));
    }
}

proof fn lemma_sum_unapplied(ks: Seq<BalanceKey>, pays: Seq<PostedPayment>)
    requires
        ks.no_duplicates(),
        forall|p: i64| has_unapplied(pays, p) ==> ks.contains(BalanceKey::Party(p)),
    ensures
        sum_keys(ks, |k: BalanceKey| unapplied_of(pays, k)) == unapplied_total(pays),
    decreases pays.len(),
{
    if pays.len() > 0 {
        let d = pays.drop_last();
        let q = pays.last();
        assert forall|p: i64| has_unapplied(d, p) implies ks.contains(BalanceKey::Party(p)) by {
            lemma_has_unapplied_step(pays, p);
        }
        lemma_sum_unapplied(ks, d);
        let x = BalanceKey::Party(q.party_id);
        let c = if q.document_id is None {
            q.amount_minor as int
        } else {
            0
        };
        let f_old = |k: BalanceKey| unapplied_of(d, k);
        let ind = |k: BalanceKey| if k == x {
            c
        } else {
            0
        };
        lemma_sum_add(ks, f_old, ind);
        lemma_sum_congruent(ks, |k: BalanceKey| unapplied_of(pays, k), |k: BalanceKey| f_old(k) + ind(k));
        lemma_sum_indicator(ks, x, c);
        if q.document_id is None {
            lemma_has_unapplied_step(pays, q.party_id);
        }
    } else {
        lemma_sum_all_zero(ks, |k: BalanceKey| unapplied_of(pays, k));
    }
}

/// `|x|`.
pub open spec fn abs(x: int) -> int {
    if x < 0 {
        -x
    } else {
        x
    }
}

/// The sum of the absolute document totals.
pub open spec fn abs_docs(docs: Seq<OpenDocument>) -> int
    decreases docs.len(),
{
    if docs.len() == 0 {
        0
    } else {
        abs_docs(docs.drop_last()) + abs(docs.last().total_minor as int)
    }
}

/// The sum over the documents of the absolute payments applied to each.
pub open spec fn abs_applied(docs: Seq<OpenDocument>, pays: Seq<PostedPayment>) -> int
    decreases docs.len(),
{
    if docs.len() == 0 {
        0
    } else {
        abs_applied(docs.drop_last(), pays) + abs(applied_sum(pays, docs.last().id))
    }
}

/// No two documents share an id.
pub open spec fn distinct_doc_ids(docs: Seq<OpenDocument>) -> bool {
    forall|i: int, j: int| 0 <= i < j < docs.len() ==> (#[trigger] docs[i]).id != (#[trigger] docs[j]).id
}

/// Some document has id `x`.
pub open spec fn lists_id(docs: Seq<OpenDocument>, x: i64) -> bool {
    exists|i: int| 0 <= i < docs.len() && docs[i].id == x
}

/// The part of a payment that lands on a listed document.
pub open spec fn lands_on(docs: Seq<OpenDocument>, q: PostedPayment) -> int {
    match q.document_id {
        Some(x) => if lists_id(docs, x) {
            abs(q.amount_minor as int)
        } else {
            0
        },
        None => 0,
    }
}

proof fn lemma_applied_push(pays: Seq<PostedPayment>, q: PostedPayment, id: i64)
    ensures
        applied_sum(pays.push(q), id) == applied_sum(pays, id) + if q.document_id == Some(id) {
            q.amount_minor as int
        } else {
            0
        },
        unapplied_sum(pays.push(q), id) == unapplied_sum(pays, id) + if q.document_id is None
            && q.party_id == id {
            q.amount_minor as int
        } else {
            0
        },
{
    assert(pays.push(q).drop_last() =~= pays);
}

proof fn lemma_abs_applied_push(docs: Seq<OpenDocument>, pays: Seq<PostedPayment>, q: PostedPayment)
    requires
        distinct_doc_ids(docs),
    ensures
        abs_applied(docs, pays.push(q)) <= abs_applied(docs, pays) + lands_on(docs, q),
        abs_applied(docs, pays) >= 0,
    decreases docs.len(),
{
    if docs.len() > 0 {
        let d = docs.drop_last();
        let e = docs.last();
        assert(distinct_doc_ids(d)) by {
            assert forall|i: int, j: int| 0 <= i < j < d.len() implies (#[trigger] d[i]).id
                != (#[trigger] d[j]).id by {
                assert(d[i] == docs[i] && d[j] == docs[j]);
            }
        }
        lemma_abs_applied_push(d, pays, q);
        lemma_applied_push(pays, q, e.id);
        if let Some(x) = q.document_id {
            if x == e.id {
                assert(lists_id(docs, x)) by {
                    assert(docs[docs.len() - 1].id == x);
                }
                assert(!lists_id(d, x)) by {
                    if lists_id(d, x) {
                        let i = choose|i: int| 0 <= i < d.len() && d[i].id == x;
                        assert(docs[i].id == docs[docs.len() - 1].id);
                    }
                }
            } else if lists_id(d, x) {
                let i = choose|i: int| 0 <= i < d.len() && d[i].id == x;
                assert(docs[i].id == x);
            }
        }
    }
}

/// The payments applied to the documents and the unapplied payments of one
/// party together weigh no more than all payments.
proof fn lemma_payment_weight(docs: Seq<OpenDocument>, pays: Seq<PostedPayment>, p: i64)
    requires
        distinct_doc_ids(docs),
    ensures
        abs_applied(docs, pays) + abs(unapplied_sum(pays, p)) <= abs_total(pays),
        abs_applied(docs, pays) >= 0,
    decreases pays.len(),
{
    lemma_abs_applied_nonneg(docs, pays);
    if pays.len() == 0 {
        lemma_abs_applied_zero(docs, pays);
    } else {
        let d = pays.drop_last();
        let q = pays.last();
        assert(pays =~= d.push(q));
        lemma_payment_weight(docs, d, p);
        lemma_abs_applied_push(docs, d, q);
        lemma_applied_push(d, q, p);
    }
}

proof fn lemma_abs_applied_nonneg(docs: Seq<OpenDocument>, pays: Seq<PostedPayment>)
    ensures
        abs_applied(docs, pays) >= 0,
    decreases docs.len(),
{
    if docs.len() > 0 {
        lemma_abs_applied_nonneg(docs.drop_last(), pays);
    }
}

proof fn lemma_abs_applied_zero(docs: Seq<OpenDocument>, pays: Seq<PostedPayment>)
    requires
        pays.len() == 0,
    ensures
        abs_applied(docs, pays) == 0,
    decreases docs.len(),
{
    if docs.len() > 0 {
        lemma_abs_applied_zero(docs.drop_last(), pays);
    }
}

proof fn lemma_doc_net_no_doc(docs: Seq<OpenDocument>, pays: Seq<PostedPayment>, k: BalanceKey)
    requires
        !has_doc(docs, k),
    ensures
        doc_net(docs, pays, k) == 0,
    decreases docs.len(),
{
    if docs.len() > 0 {
        lemma_has_doc_step(docs, k);
        lemma_doc_net_no_doc(docs.drop_last(), pays, k);
    }
}

proof fn lemma_unapplied_none(pays: Seq<PostedPayment>, p: i64)
    requires
        !has_unapplied(pays, p),
    ensures
        unapplied_sum(pays, p) == 0,
    decreases pays.len(),
{
    if pays.len() > 0 {
        lemma_has_unapplied_step(pays, p);
        lemma_unapplied_none(pays.drop_last(), p);
    }
}

/// Without overflow, the saturating document balance is the exact one.
proof fn lemma_doc_balance_exact(docs: Seq<OpenDocument>, pays: Seq<PostedPayment>, k: BalanceKey)
    requires
        abs_docs(docs) + abs_applied(docs, pays) <= i64::MAX,
    ensures
        doc_balance(docs, pays, k) == doc_net(docs, pays, k),
        abs(doc_net(docs, pays, k)) <= abs_docs(docs) + abs_applied(docs, pays),
        abs_docs(docs) >= 0,
        abs_applied(docs, pays) >= 0,
    decreases docs.len(),
{
    if docs.len() > 0 {
        lemma_doc_balance_exact(docs.drop_last(), pays, k);
    }
}

/// Without overflow, each report balance is exact: what the key's documents
/// leave open less the unapplied payments counted against it.
proof fn lemma_balance_exact(docs: Seq<OpenDocument>, pays: Seq<PostedPayment>, k: BalanceKey)
    requires
        distinct_doc_ids(docs),
        abs_docs(docs) + abs_total(pays) <= i64::MAX,
    ensures
        balance_of(docs, pays, k) == doc_net(docs, pays, k) - unapplied_of(pays, k),
{
    let p = match k {
        BalanceKey::Party(p) => p,
        BalanceKey::PayeeBill(b) => b,
    };
    lemma_payment_weight(docs, pays, p);
    lemma_doc_balance_exact(docs, pays, k);
    if let BalanceKey::Party(p) = k {
        if has_unapplied(pays, p) {
            if !has_doc(docs, k) {
                lemma_doc_net_no_doc(docs, pays, k);
            }
        } else {
            lemma_unapplied_none(pays, p);
        }
    }
}

/// The sum of the report's balances.
pub open spec fn rows_total(out: Seq<OpenBalance>) -> int
    decreases out.len(),
{
    if out.len() == 0 {
        0
    } else {
        rows_total(out.drop_last()) + out.last().open_minor
    }
}

/// The keys of the report's lines.
pub open spec fn row_keys(out: Seq<OpenBalance>) -> Seq<BalanceKey> {
    out.map_values(|e: OpenBalance| e.key)
}

proof fn lemma_rows_as_keys(out: Seq<OpenBalance>, f: spec_fn(BalanceKey) -> int)
    requires
        forall|i: int| 0 <= i < out.len() ==> (#[trigger] out[i]).open_minor == f(out[i].key),
    ensures
        rows_total(out) == sum_keys(row_keys(out), f),
    decreases out.len(),
{
    if out.len() > 0 {
        let d = out.drop_last();
        assert forall|i: int| 0 <= i < d.len() implies (#[trigger] d[i]).open_minor == f(d[i].key) by {
            assert(d[i] == out[i]);
        }
        lemma_rows_as_keys(d, f);
        assert(row_keys(out).drop_last() =~= row_keys(d));
        assert(out[out.len() - 1].open_minor == f(out[out.len() - 1].key));
    }
}

proof fn lemma_sum_sub(s: Seq<BalanceKey>, f: spec_fn(BalanceKey) -> int, g: spec_fn(BalanceKey) -> int)
    ensures
        sum_keys(s, |k: BalanceKey| f(k) - g(k)) == sum_keys(s, f) - sum_keys(s, g),
    decreases s.len(),
{
    if s.len() > 0 {
        lemma_sum_sub(s.drop_last(), f, g);
    }
}

/// The open balances add up to what the documents leave open: the sum of the
/// report's lines is the sum of the document totals, less the payments applied
/// to the documents, less the payments applied to none: the amounts that the
/// posting laws of [`crate::posting`] put on and take off the receivable (or
/// payable) control account. Documents have distinct ids, and amounts stay
/// within what `i64` holds.
pub proof fn law_open_balances_add_up(
    docs: Seq<OpenDocument>,
    pays: Seq<PostedPayment>,
    names: Seq<(i64, String)>,
    out: Seq<OpenBalance>,
)
    requires
        distinct_doc_ids(docs),
        abs_docs(docs) + abs_total(pays) <= i64::MAX,
        is_open_report(out, docs, pays, names),
    ensures
        rows_total(out) == docs_total(docs) - applied_to_docs(docs, pays) - unapplied_total(pays),
{
    let ks = all_report_keys(docs, pays);
    lemma_report_keys(docs, pays);
    let bal = |k: BalanceKey| balance_of(docs, pays, k);
    let net = |k: BalanceKey| doc_net(docs, pays, k);
    let un = |k: BalanceKey| unapplied_of(pays, k);
    assert forall|i: int| 0 <= i < out.len() implies (#[trigger] out[i]).open_minor == bal(out[i].key) by {}
    lemma_rows_as_keys(out, bal);
    let rk = row_keys(out);
    assert(rk.no_duplicates()) by {
        assert forall|a: int, b: int| 0 <= a < b < rk.len() implies rk[a] != rk[b] by {
            assert(rk[a] == out[a].key && rk[b] == out[b].key);
            assert(row_before(out[a].display_name@, out[a].key, out[b].display_name@, out[b].key));
            if out[a].key == out[b].key {
                assert(name_of(docs, names, out[a].key) == Some(out[a].display_name@));
                assert(name_of(docs, names, out[b].key) == Some(out[b].display_name@));
            }
        }
    }
    assert forall|x: BalanceKey| rk.contains(x) && bal(x) != 0 implies ks.contains(x) by {
        let i = choose|i: int| 0 <= i < rk.len() && rk[i] == x;
        assert(rk[i] == out[i].key);
        assert(is_report_key(docs, pays, out[i].key));
    }
    assert forall|x: BalanceKey| ks.contains(x) && bal(x) != 0 implies rk.contains(x) by {
        assert(is_report_key(docs, pays, x) && balance_of(docs, pays, x) != 0);
        let i = choose|i: int| 0 <= i < out.len() && (#[trigger] out[i]).key == x;
        assert(rk[i] == x);
    }
    lemma_sum_same_support(rk, ks, bal);
    assert forall|i: int| 0 <= i < ks.len() implies bal(#[trigger] ks[i]) == (|k: BalanceKey| net(k) - un(
        k,
    ))(ks[i]) by {
        lemma_balance_exact(docs, pays, ks[i]);
    }
    lemma_sum_congruent(ks, bal, |k: BalanceKey| net(k) - un(k));
    lemma_sum_sub(ks, net, un);
    assert forall|i: int| 0 <= i < docs.len() implies ks.contains(doc_key(#[trigger] docs[i])) by {
        let k = doc_key(docs[i]);
        assert(has_doc(docs, k));
        assert(is_report_key(docs, pays, k));
    }
    lemma_sum_doc_net(ks, docs, pays);
    assert forall|p: i64| has_unapplied(pays, p) implies ks.contains(BalanceKey::Party(p)) by {
        assert(is_report_key(docs, pays, BalanceKey::Party(p)));
    }
    lemma_sum_unapplied(ks, pays);
}

} // verus!

//! Journal lines and the double-entry balance rule every journal must meet.
use vstd::prelude::*;

use crate::error::DbCommandError;
use crate::num::{dec_int, fmt_i64};
use crate::text::{chars_of, concat, string_of};

verus! {

/// One line of a journal that is about to be written.
#[derive(Debug, Clone)]
pub struct DraftJournalLine {
    pub account_id: i64,
    pub line_number: i32,
    pub description: Option<String>,
    pub debit_minor: i64,
    pub credit_minor: i64,
}

/// `a + b` clamped to the `i64` range (what `i64::saturating_add` computes).
pub open spec fn sat_add(a: int, b: int) -> int {
    if a + b > i64::MAX {
        i64::MAX as int
    } else if a + b < i64::MIN {
        i64::MIN as int
    } else {
        a + b
    }
}

/// `a + b` clamped to the `i64` range.
pub fn sat_add_i64(a: i64, b: i64) -> (r: i64)
    ensures
        r == sat_add(a as int, b as int),
{
    let s: i128 = a as i128 + b as i128;
    if s > i64::MAX as i128 {
        i64::MAX
    } else if s < i64::MIN as i128 {
        i64::MIN
    } else {
        s as i64
    }
}

/// What is wrong with a single line, if anything: a negative amount, both sides
/// set, or neither side set (checked in that order).
pub open spec fn line_problem(l: DraftJournalLine) -> Option<Seq<char>> {
    if l.debit_minor < 0 || l.credit_minor < 0 {
        Some("debit/credit must be non-negative"@)
    } else if l.debit_minor > 0 && l.credit_minor > 0 {
        Some("a journal line cannot have both debit and credit"@)
    } else if l.debit_minor == 0 && l.credit_minor == 0 {
        Some("a journal line must have debit or credit"@)
    } else {
        None
    }
}

/// The problem of the first faulty line, in line order.
pub open spec fn first_problem(lines: Seq<DraftJournalLine>) -> Option<Seq<char>>
    decreases lines.len(),
{
    if lines.len() == 0 {
        None
    } else if first_problem(lines.drop_last()) is Some {
        first_problem(lines.drop_last())
    } else {
        line_problem(lines.last())
    }
}

/// Running total of the debits, saturating at the `i64` bounds.
pub open spec fn debit_total(lines: Seq<DraftJournalLine>) -> int
    decreases lines.len(),
{
    if lines.len() == 0 {
        0
    } else {
        sat_add(debit_total(lines.drop_last()), lines.last().debit_minor as int)
    }
}

/// Running total of the credits, saturating at the `i64` bounds.
pub open spec fn credit_total(lines: Seq<DraftJournalLine>) -> int
    decreases lines.len(),
{
    if lines.len() == 0 {
        0
    } else {
        sat_add(credit_total(lines.drop_last()), lines.last().credit_minor as int)
    }
}

/// Exact sum of the debits.
pub open spec fn sum_debits(lines: Seq<DraftJournalLine>) -> int
    decreases lines.len(),
{
    if lines.len() == 0 {
        0
    } else {
        sum_debits(lines.drop_last()) + lines.last().debit_minor
    }
}

/// Exact sum of the credits.
pub open spec fn sum_credits(lines: Seq<DraftJournalLine>) -> int
    decreases lines.len(),
{
    if lines.len() == 0 {
        0
    } else {
        sum_credits(lines.drop_last()) + lines.last().credit_minor
    }
}

/// The journal passes the balance rule: every line has exactly one positive side
/// and the (saturating) totals of both sides agree.
pub open spec fn journal_is_balanced(lines: Seq<DraftJournalLine>) -> bool {
    first_problem(lines) is None && debit_total(lines) == credit_total(lines)
}

/// The message for totals that disagree.
pub open spec fn unbalanced_text(dr: int, cr: int) -> Seq<char> {
    "journal not balanced: debits "@ + dec_int(dr) + " credits "@ + dec_int(cr)
}

/// Checks the balance rule: each line non-negative with exactly one side set,
/// and total debits equal to total credits.
pub fn validate_balance(lines: &[DraftJournalLine]) -> (r: Result<(), DbCommandError>)
    ensures
        first_problem(lines@) matches Some(m) ==> (r matches Err(
            DbCommandError::Validation { message },
        ) && message@ == m),
        first_problem(lines@) is None && debit_total(lines@) != credit_total(lines@) ==> (r matches Err(
            DbCommandError::Invariant { message },
        ) && message@ == unbalanced_text(debit_total(lines@), credit_total(lines@))),
        r is Ok <==> journal_is_balanced(lines@),
{
    let mut dr: i64 = 0;
    let mut cr: i64 = 0;
    let n = lines.len();
    let mut i: usize = 0;
    while i < n
        invariant
            n == lines@.len(),
            i <= n,
            first_problem(lines@.take(i as int)) is None,
            dr == debit_total(lines@.take(i as int)),
            cr == credit_total(lines@.take(i as int)),
            0 <= dr,
            0 <= cr,
        decreases n - i,
    {
        let l = &lines[i];
        let ghost pre = lines@.take(i as int);
        let ghost next = lines@.take(i as int + 1);
        assert(next.drop_last() == pre);
        assert(next.last() == lines@[i as int]);
        if l.debit_minor < 0 || l.credit_minor < 0 {
            proof {
                lemma_first_problem_extends(lines@, i as int);
            }
            return Err(
                DbCommandError::Validation {
                    message: "debit/credit must be non-negative".to_owned(),
                },
            );
        }
        if l.debit_minor > 0 && l.credit_minor > 0 {
            proof {
                lemma_first_problem_extends(lines@, i as int);
            }
            return Err(
                DbCommandError::Validation {
                    message: "a journal line cannot have both debit and credit".to_owned(),
                },
            );
        }
        if l.debit_minor == 0 && l.credit_minor == 0 {
            proof {
                lemma_first_problem_extends(lines@, i as int);
            }
            return Err(
                DbCommandError::Validation {
                    message: "a journal line must have debit or credit".to_owned(),
                },
            );
        }
        dr = if dr > i64::MAX - l.debit_minor {
            i64::MAX
        } else {
            dr + l.debit_minor
        };
        cr = if cr > i64::MAX - l.credit_minor {
            i64::MAX
        } else {
            cr + l.credit_minor
        };
        i = i + 1;
    }
    assert(lines@.take(n as int) == lines@);
    if dr != cr {
        let a = chars_of("journal not balanced: debits ");
        let b = fmt_i64(dr);
        let c = chars_of(" credits ");
        let d = fmt_i64(cr);
        let ab = concat(&a, &b);
        let abc = concat(&ab, &c);
        let all = concat(&abc, &d);
        return Err(DbCommandError::Invariant { message: string_of(&all) });
    }
    Ok(())
}

/// Once a prefix has a faulty line, every longer prefix reports that same problem;
/// and the first faulty line `i` after a clean prefix decides the whole sequence.
proof fn lemma_first_problem_extends(lines: Seq<DraftJournalLine>, i: int)
    requires
        0 <= i < lines.len(),
        first_problem(lines.take(i)) is None,
        line_problem(lines[i]) is Some,
    ensures
        first_problem(lines) == line_problem(lines[i]),
{
    assert(lines.take(i + 1).drop_last() == lines.take(i));
    lemma_first_problem_stable(lines, i + 1);
}

proof fn lemma_first_problem_stable(lines: Seq<DraftJournalLine>, k: int)
    requires
        0 < k <= lines.len(),
        first_problem(lines.take(k)) is Some,
    ensures
        first_problem(lines) == first_problem(lines.take(k)),
    decreases lines.len() - k,
{
    if k < lines.len() {
        assert(lines.take(k + 1).drop_last() == lines.take(k));
        lemma_first_problem_stable(lines, k + 1);
    } else {
        assert(lines.take(k) == lines);
    }
}

/// Saturating totals of non-negative amounts equal the exact totals while those stay within `i64`.
proof fn lemma_totals_exact(lines: Seq<DraftJournalLine>)
    requires
        forall|k: int| 0 <= k < lines.len() ==> lines[k].debit_minor >= 0 && lines[k].credit_minor
            >= 0,
        sum_debits(lines) <= i64::MAX,
        sum_credits(lines) <= i64::MAX,
    ensures
        debit_total(lines) == sum_debits(lines),
        credit_total(lines) == sum_credits(lines),
        sum_debits(lines) >= 0,
        sum_credits(lines) >= 0,
    decreases lines.len(),
{
    if lines.len() > 0 {
        let p = lines.drop_last();
        assert(forall|k: int| 0 <= k < p.len() ==> p[k] == lines[k]);
        assert(lines.last() == lines[lines.len() - 1]);
        lemma_totals_exact(p);
    }
}

/// A journal that passes the balance rule, and whose amounts add up within `i64`,
/// has exactly as much on the debit side as on the credit side.
pub proof fn law_balanced_journal_debits_equal_credits(lines: Seq<DraftJournalLine>)
    requires
        journal_is_balanced(lines),
        sum_debits(lines) <= i64::MAX,
        sum_credits(lines) <= i64::MAX,
    ensures
        sum_debits(lines) == sum_credits(lines),
{
    lemma_no_problem_nonneg(lines);
    lemma_totals_exact(lines);
}

/// With no faulty line, every amount is non-negative.
pub proof fn lemma_no_problem_nonneg(lines: Seq<DraftJournalLine>)
    requires
        first_problem(lines) is None,
    ensures
        forall|k: int| 0 <= k < lines.len() ==> lines[k].debit_minor >= 0 && lines[k].credit_minor
            >= 0,
    decreases lines.len(),
{
    if lines.len() > 0 {
        let p = lines.drop_last();
        lemma_no_problem_nonneg(p);
        assert forall|k: int| 0 <= k < lines.len() implies lines[k].debit_minor >= 0
            && lines[k].credit_minor >= 0 by {
            if k < p.len() {
                assert(p[k] == lines[k]);
            }
        }
    }
}

/// A line with exactly one side set: a positive debit and no credit, or a
/// positive credit and no debit.
pub open spec fn one_sided(l: DraftJournalLine) -> bool {
    (l.debit_minor > 0 && l.credit_minor == 0) || (l.credit_minor > 0 && l.debit_minor == 0)
}

proof fn lemma_no_problem_one_sided(lines: Seq<DraftJournalLine>)
    ensures
        first_problem(lines) is None <==> forall|k: int|
            0 <= k < lines.len() ==> one_sided(#[trigger] lines[k]),
    decreases lines.len(),
{
    if lines.len() > 0 {
        let p = lines.drop_last();
        lemma_no_problem_one_sided(p);
        assert(lines.last() == lines[lines.len() - 1]);
        if forall|k: int| 0 <= k < lines.len() ==> one_sided(#[trigger] lines[k]) {
            assert forall|k: int| 0 <= k < p.len() implies one_sided(#[trigger] p[k]) by {
                assert(p[k] == lines[k]);
            }
        }
        if first_problem(lines) is None {
            assert forall|k: int| 0 <= k < lines.len() implies one_sided(#[trigger] lines[k]) by {
                if k < p.len() {
                    assert(p[k] == lines[k]);
                }
            }
        }
    }
}

/// The balance rule in plain terms: a journal passes it exactly when every line
/// has one positive side and nothing on the other, and its debits add up to its
/// credits (for journals whose sides add up within `i64`).
pub proof fn law_balance_rule(lines: Seq<DraftJournalLine>)
    requires
        sum_debits(lines) <= i64::MAX,
        sum_credits(lines) <= i64::MAX,
    ensures
        journal_is_balanced(lines) <==> ((forall|k: int|
            0 <= k < lines.len() ==> one_sided(#[trigger] lines[k])) && sum_debits(lines)
            == sum_credits(lines)),
{
    lemma_no_problem_one_sided(lines);
    if first_problem(lines) is None {
        lemma_no_problem_nonneg(lines);
        lemma_totals_exact(lines);
    }
}

} // verus!

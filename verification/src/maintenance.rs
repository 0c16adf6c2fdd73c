//! Keeping the database file in shape: which schema migrations still have to
//! run, the schema version, and the checks a backup must pass to be restored.
use vstd::prelude::*;

use crate::error::DbCommandError;

verus! {

/// Where the database file lives.
#[derive(Debug, Clone)]
pub struct DbState {
    pub db_path: String,
}

/// The database file and its schema version after start-up.
#[derive(Debug, Clone)]
pub struct DbInitResponse {
    pub db_path: String,
    pub migration_version: i32,
}

/// The schema version before and after running the pending migrations.
#[derive(Debug, Clone)]
pub struct MigrateResponse {
    pub migration_version_before: i32,
    pub migration_version_after: i32,
}

/// The answer to a health check.
#[derive(Debug, Clone)]
pub struct HealthResponse {
    pub ok: bool,
    pub sqlite_ok: bool,
    pub migration_version: i32,
}

/// The answer to checking a backup file before restoring it.
#[derive(Debug, Clone)]
pub struct BackupValidateResponse {
    pub ok: bool,
    pub migration_version: i32,
}

/// The versions of `known` that `applied` lacks, in the order of `known`.
pub open spec fn pending_of(known: Seq<i32>, applied: Seq<i32>) -> Seq<i32>
    decreases known.len(),
{
    if known.len() == 0 {
        known
    } else if applied.contains(known.last()) {
        pending_of(known.drop_last(), applied)
    } else {
        pending_of(known.drop_last(), applied).push(known.last())
    }
}

fn is_applied(applied: &[i32], v: i32) -> (r: bool)
    ensures
        r == applied@.contains(v),
{
    let mut i: usize = 0;
    while i < applied.len()
        invariant
            i <= applied@.len(),
            forall|j: int| 0 <= j < i ==> applied@[j] != v,
        decreases applied@.len() - i,
    {
        if applied[i] == v {
            return true;
        }
        i = i + 1;
    }
    false
}

/// The migrations still to run: those of `known` (in order) not yet `applied`.
pub fn pending_migrations(known: &[i32], applied: &[i32]) -> (r: Vec<i32>)
    ensures
        r@ == pending_of(known@, applied@),
{
    let mut out: Vec<i32> = Vec::new();
    let mut i: usize = 0;
    while i < known.len()
        invariant
            i <= known@.len(),
            out@ == pending_of(known@.take(i as int), applied@),
        decreases known@.len() - i,
    {
        assert(known@.take(i + 1).drop_last() == known@.take(i as int));
        assert(known@.take(i + 1).last() == known@[i as int]);
        if !is_applied(applied, known[i]) {
            out.push(known[i]);
        }
        i = i + 1;
    }
    assert(known@.take(known@.len() as int) == known@);
    out
}

/// The highest applied version, or 0 when none is.
pub open spec fn version_of(applied: Seq<i32>) -> int
    decreases applied.len(),
{
    if applied.len() == 0 {
        0
    } else if version_of(applied.drop_last()) >= applied.last() {
        version_of(applied.drop_last())
    } else {
        applied.last() as int
    }
}

/// The schema version: the highest applied migration, or 0 when none is.
pub fn current_version(applied: &[i32]) -> (r: i32)
    ensures
        r == version_of(applied@),
{
    let mut best: i32 = 0;
    let mut i: usize = 0;
    while i < applied.len()
        invariant
            i <= applied@.len(),
            best == version_of(applied@.take(i as int)),
        decreases applied@.len() - i,
    {
        assert(applied@.take(i + 1).drop_last() == applied@.take(i as int));
        assert(applied@.take(i + 1).last() == applied@[i as int]);
        if applied[i] > best {
            best = applied[i];
        }
        i = i + 1;
    }
    assert(applied@.take(applied@.len() as int) == applied@);
    best
}

proof fn lemma_pending_members(known: Seq<i32>, applied: Seq<i32>)
    ensures
        forall|v: i32| pending_of(known, applied).contains(v) <==> (known.contains(v) && !applied.contains(v)),
    decreases known.len(),
{
    if known.len() > 0 {
        lemma_pending_members(known.drop_last(), applied);
        let d = known.drop_last();
        let l = known.last();
        assert forall|v: i32| pending_of(known, applied).contains(v) <==> (known.contains(v)
            && !applied.contains(v)) by {
            if known.contains(v) && v != l {
                let i = choose|i: int| 0 <= i < known.len() && known[i] == v;
                assert(d[i] == v);
            }
            if d.contains(v) {
                let i = choose|i: int| 0 <= i < d.len() && d[i] == v;
                assert(known[i] == v);
            }
            if pending_of(known, applied).contains(v) && !applied.contains(l) {
                let p = pending_of(d, applied);
                if v != l {
                    let i = choose|i: int| 0 <= i < p.push(l).len() && p.push(l)[i] == v;
                    assert(p[i] == v);
                }
            }
            if !applied.contains(l) && pending_of(d, applied).contains(v) {
                let p = pending_of(d, applied);
                let i = choose|i: int| 0 <= i < p.len() && p[i] == v;
                assert(p.push(l)[i] == v);
            }
            if !applied.contains(l) && v == l {
                let p = pending_of(d, applied);
                assert(p.push(l)[p.len() as int] == l);
            }
            assert(known[known.len() - 1] == l);
        }
    } else {
        assert forall|v: i32| !known.contains(v) by {}
    }
}

/// Running the pending migrations is idempotent: once they are recorded as
/// applied, none is pending any more.
pub proof fn law_migrations_idempotent(known: Seq<i32>, applied: Seq<i32>)
    ensures
        pending_of(known, applied + pending_of(known, applied)).len() == 0,
{
    let after = applied + pending_of(known, applied);
    lemma_pending_members(known, applied);
    lemma_pending_members(known, after);
    if pending_of(known, after).len() > 0 {
        let v = pending_of(known, after)[0];
        assert(pending_of(known, after).contains(v));
        if applied.contains(v) {
            let i = choose|i: int| 0 <= i < applied.len() && applied[i] == v;
            assert(after[i] == v);
            assert(after.contains(v));
        } else {
            assert(pending_of(known, applied).contains(v));
            let i = choose|i: int| 0 <= i < pending_of(known, applied).len() && pending_of(known, applied)[i] == v;
            assert(after[applied.len() + i] == v);
            assert(after.contains(v));
        }
    }
}

/// Checks that a file holds the core tables of the books (`company`, `account`
/// and the migration log); `core_tables` is how many of the three it has.
pub fn check_backup_tables(core_tables: i64) -> (r: Result<(), DbCommandError>)
    ensures
        core_tables < 3 ==> (r matches Err(DbCommandError::Validation { message }) && message@
            == "backup is missing Kwikbooks core tables"@),
        core_tables >= 3 ==> r is Ok,
{
    if core_tables < 3 {
        return Err(
            DbCommandError::Validation {
                message: "backup is missing Kwikbooks core tables".to_owned(),
            },
        );
    }
    Ok(())
}

/// Checks that a backup may replace the live books: it must have a migration
/// history, and it must not be the live file itself.
pub fn check_restore(backup_version: i32, same_file_as_live: bool) -> (r: Result<(), DbCommandError>)
    ensures
        backup_version < 1 ==> (r matches Err(DbCommandError::Validation { message }) && message@
            == "backup has no migration history"@),
        backup_version >= 1 && same_file_as_live ==> (r matches Err(
            DbCommandError::Validation { message },
        ) && message@ == "backup path must differ from the live database file"@),
        backup_version >= 1 && !same_file_as_live ==> r is Ok,
{
    if backup_version < 1 {
        return Err(
            DbCommandError::Validation { message: "backup has no migration history".to_owned() },
        );
    }
    if same_file_as_live {
        return Err(
            DbCommandError::Validation {
                message: "backup path must differ from the live database file".to_owned(),
            },
        );
    }
    Ok(())
}

/// The migrations still to run are exactly the known versions that have not been
/// applied: every one of them is known and unapplied, and every known, unapplied
/// version is among them.
pub proof fn law_pending_are_known_and_unapplied(known: Seq<i32>, applied: Seq<i32>, v: i32)
    ensures
        pending_of(known, applied).contains(v) <==> (known.contains(v) && !applied.contains(v)),
    decreases known.len(),
{
    if known.len() > 0 {
        let d = known.drop_last();
        law_pending_are_known_and_unapplied(d, applied, v);
        assert(known =~= d.push(known.last()));
        if d.contains(v) {
            let i = choose|i: int| 0 <= i < d.len() && d[i] == v;
            assert(known[i] == v);
        }
        if known.contains(v) && !d.contains(v) {
            let i = choose|i: int| 0 <= i < known.len() && known[i] == v;
            if i < d.len() {
                assert(d[i] == v);
            }
            assert(known.last() == v);
        }
        let p = pending_of(d, applied);
        if !applied.contains(known.last()) {
            assert(p.push(known.last()).contains(v) <==> (p.contains(v) || known.last() == v)) by {
                if p.push(known.last()).contains(v) {
                    let i = choose|i: int| 0 <= i < p.len() + 1 && p.push(known.last())[i] == v;
                    if i < p.len() {
                        assert(p[i] == v);
                    }
                }
                if p.contains(v) {
                    let i = choose|i: int| 0 <= i < p.len() && p[i] == v;
                    assert(p.push(known.last())[i] == v);
                }
                assert(p.push(known.last())[p.len() as int] == known.last());
            }
        }
    }
}

} // verus!

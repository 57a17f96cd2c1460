//! The runner: which units are still to apply, and a run of them against a
//! database, recorded in its ledger.
use vstd::prelude::*;

use crate::name::{lemma_name_lt_irreflexive, lemma_name_lt_transitive, name_lt};
use crate::name::{compare_names, NameOrder};
use crate::schema::{
    apply_op, apply_ops, column_def, create_table, is_column, is_create_table, key_column, ColumnDefault, ColumnSpec,
    ColumnType, SchemaModel, SchemaOp,
};
use crate::unit::{sorted_by_name, unit_names, AppliedMigrationRecord, MigrationError, MigrationUnit};

verus! {

/// The units of `units` whose names are not in `applied`, in the same order.
pub open spec fn pending(units: Seq<MigrationUnit>, applied: Set<Seq<char>>) -> Seq<MigrationUnit>
    decreases units.len(),
{
    if units.len() == 0 {
        Seq::empty()
    } else {
        let rest = pending(units.drop_last(), applied);
        if applied.contains(units.last().name@) {
            rest
        } else {
            rest.push(units.last())
        }
    }
}

/// Each pending unit is a unit of `units` whose name is not applied.
pub proof fn lemma_pending_members(units: Seq<MigrationUnit>, applied: Set<Seq<char>>)
    ensures
        forall|i: int| #![trigger pending(units, applied)[i]] 0 <= i < pending(units, applied).len() ==> {
            &&& !applied.contains(pending(units, applied)[i].name@)
            &&& units.contains(pending(units, applied)[i])
        },
    decreases units.len(),
{
    if units.len() > 0 {
        lemma_pending_members(units.drop_last(), applied);
        let rest = pending(units.drop_last(), applied);
        assert forall|i: int| 0 <= i < pending(units, applied).len() implies units.contains(
            #[trigger] pending(units, applied)[i],
        ) by {
            if i < rest.len() {
                let j = choose|j: int| 0 <= j < units.drop_last().len() && units.drop_last()[j] == rest[i];
                assert(units[j] == rest[i]);
            } else {
                assert(units[units.len() - 1] == pending(units, applied)[i]);
            }
        }
    }
}

/// The pending units keep the order of the registry: ascending by name.
pub proof fn lemma_pending_sorted(units: Seq<MigrationUnit>, applied: Set<Seq<char>>)
    requires
        sorted_by_name(units),
    ensures
        sorted_by_name(pending(units, applied)),
    decreases units.len(),
{
    if units.len() > 0 {
        let init = units.drop_last();
        assert(sorted_by_name(init)) by {
            assert forall|i: int, j: int| 0 <= i < j < init.len() implies name_lt(#[trigger] init[i].name@, #[trigger] init[j].name@) by {
                assert(init[i] == units[i] && init[j] == units[j]);
            }
        }
        lemma_pending_sorted(init, applied);
        lemma_pending_members(init, applied);
        let rest = pending(init, applied);
        let x = units.last();
        if !applied.contains(x.name@) {
            assert forall|i: int| 0 <= i < rest.len() implies name_lt(#[trigger] rest[i].name@, x.name@) by {
                assert(init.contains(rest[i]));
                let j = choose|j: int| 0 <= j < init.len() && init[j] == rest[i];
                assert(units[j] == rest[i]);
            }
            let p = rest.push(x);
            assert forall|i: int, j: int| 0 <= i < j < p.len() implies name_lt(#[trigger] p[i].name@, #[trigger] p[j].name@) by {
                if j < rest.len() {
                    assert(p[i] == rest[i] && p[j] == rest[j]);
                } else {
                    assert(p[i] == rest[i] && p[j] == x);
                }
            }
        }
    }
}

/// Nothing applied yet: every unit is pending, in registry order.
pub proof fn lemma_pending_fresh(units: Seq<MigrationUnit>)
    ensures
        pending(units, Set::empty()) == units,
    decreases units.len(),
{
    if units.len() > 0 {
        lemma_pending_fresh(units.drop_last());
        assert(units.drop_last().push(units.last()) =~= units);
    }
}

/// On a fresh database, of two units the one with the smaller name is
/// applied first: it stands earlier among the pending units.
pub proof fn lemma_fresh_run_order(units: Seq<MigrationUnit>, a: int, b: int)
    requires
        sorted_by_name(units),
        0 <= a < units.len(),
        0 <= b < units.len(),
        name_lt(units[a].name@, units[b].name@),
    ensures
        pending(units, Set::empty()) == units,
        a < b,
{
    lemma_pending_fresh(units);
    if b < a {
        assert(name_lt(units[b].name@, units[a].name@));
        lemma_name_lt_transitive(units[a].name@, units[b].name@, units[a].name@);
        lemma_name_lt_irreflexive(units[a].name@);
    } else if a == b {
        lemma_name_lt_irreflexive(units[a].name@);
    }
}

/// Which units are pending depends only on which of their names are applied.
proof fn lemma_pending_agree(units: Seq<MigrationUnit>, a: Set<Seq<char>>, b: Set<Seq<char>>)
    requires
        forall|i: int| 0 <= i < units.len() ==> (a.contains(#[trigger] units[i].name@) <==> b.contains(units[i].name@)),
    ensures
        pending(units, a) == pending(units, b),
    decreases units.len(),
{
    if units.len() > 0 {
        let init = units.drop_last();
        assert forall|i: int| 0 <= i < init.len() implies (a.contains(#[trigger] init[i].name@) <==> b.contains(init[i].name@)) by {
            assert(init[i] == units[i]);
        }
        lemma_pending_agree(init, a, b);
        assert(a.contains(units[units.len() - 1].name@) <==> b.contains(units[units.len() - 1].name@));
    }
}

/// After the first `k` pending units have been recorded, the pending units
/// are the rest, starting with the one that comes next.
pub proof fn lemma_pending_resume(units: Seq<MigrationUnit>, applied: Set<Seq<char>>, k: int)
    requires
        sorted_by_name(units),
        0 <= k <= pending(units, applied).len(),
    ensures
        pending(units, applied.union(unit_names(pending(units, applied).take(k)).to_set()))
            == pending(units, applied).skip(k),
    decreases units.len(),
{
    let pend = pending(units, applied);
    let done = unit_names(pend.take(k)).to_set();
    if units.len() == 0 {
        assert(pend.skip(k) =~= Seq::<MigrationUnit>::empty());
    } else {
        let init = units.drop_last();
        let x = units.last();
        assert(sorted_by_name(init)) by {
            assert forall|i: int, j: int| 0 <= i < j < init.len() implies name_lt(#[trigger] init[i].name@, #[trigger] init[j].name@) by {
                assert(init[i] == units[i] && init[j] == units[j]);
            }
        }
        let rest = pending(init, applied);
        lemma_pending_members(init, applied);
        // the last name differs from every earlier one
        assert forall|i: int| 0 <= i < init.len() implies #[trigger] init[i].name@ != x.name@ by {
            assert(init[i] == units[i]);
            assert(name_lt(units[i].name@, units[units.len() - 1].name@));
            lemma_name_lt_irreflexive(x.name@);
        }
        if applied.contains(x.name@) {
            lemma_pending_resume(init, applied, k);
            assert(pend == rest);
        } else if k <= rest.len() {
            lemma_pending_resume(init, applied, k);
            assert(pend.take(k) =~= rest.take(k));
            assert(!done.contains(x.name@)) by {
                if done.contains(x.name@) {
                    let i = choose|i: int| 0 <= i < unit_names(pend.take(k)).len() && unit_names(pend.take(k))[i] == x.name@;
                    assert(init.contains(rest[i]));
                    let j = choose|j: int| 0 <= j < init.len() && init[j] == rest[i];
                    assert(init[j].name@ == x.name@);
                }
            }
            assert(pend.skip(k) =~= rest.skip(k).push(x));
        } else {
            // every pending unit is recorded, the last one included
            lemma_pending_resume(init, applied, rest.len() as int);
            assert(pend.take(k) =~= pend);
            assert(rest.take(rest.len() as int) =~= rest);
            let all_rest = applied.union(unit_names(rest).to_set());
            assert(unit_names(pend) =~= unit_names(rest).push(x.name@));
            assert forall|i: int| 0 <= i < init.len() implies (all_rest.contains(#[trigger] init[i].name@) <==> applied.union(done).contains(init[i].name@)) by {
                assert(unit_names(pend).to_set() =~= unit_names(rest).to_set().insert(x.name@)) by {
                    assert forall|t: Seq<char>| unit_names(pend).to_set().contains(t) <==> unit_names(rest).to_set().insert(x.name@).contains(t) by {
                        if unit_names(pend).to_set().contains(t) {
                            let j = choose|j: int| 0 <= j < unit_names(pend).len() && unit_names(pend)[j] == t;
                            if j < rest.len() {
                                assert(unit_names(rest)[j] == t);
                            }
                        }
                        if unit_names(rest).to_set().contains(t) {
                            let j = choose|j: int| 0 <= j < unit_names(rest).len() && unit_names(rest)[j] == t;
                            assert(unit_names(pend)[j] == t);
                        }
                        if t == x.name@ {
                            assert(unit_names(pend)[rest.len() as int] == t);
                        }
                    }
                }
            }
            lemma_pending_agree(init, all_rest, applied.union(done));
            assert(rest.skip(rest.len() as int) =~= Seq::<MigrationUnit>::empty());
            assert(pend.skip(k) =~= Seq::<MigrationUnit>::empty());
            assert(applied.union(done).contains(x.name@)) by {
                assert(unit_names(pend)[rest.len() as int] == x.name@);
            }
        }
    }
}

/// The names that a ledger records.
pub open spec fn ledger_set(ledger: Seq<AppliedMigrationRecord>) -> Set<Seq<char>> {
    Set::new(|t: Seq<char>| exists|i: int| 0 <= i < ledger.len() && #[trigger] ledger[i].name@ == t)
}

/// The names of a ledger, in the order of its records.
pub open spec fn ledger_names(ledger: Seq<AppliedMigrationRecord>) -> Seq<Seq<char>> {
    ledger.map_values(|r: AppliedMigrationRecord| r.name@)
}

/// One record per name, and times that never go back.
pub open spec fn ledger_wf(ledger: Seq<AppliedMigrationRecord>) -> bool {
    &&& ledger_names(ledger).no_duplicates()
    &&& forall|i: int, j: int| 0 <= i <= j < ledger.len() ==> #[trigger] ledger[i].applied_at <= #[trigger] ledger[j].applied_at
}

/// The schema after applying each unit of `units` in turn, or `None` where
/// one of them fails.
pub open spec fn apply_units(s: SchemaModel, units: Seq<MigrationUnit>) -> Option<SchemaModel>
    decreases units.len(),
{
    if units.len() == 0 {
        Some(s)
    } else {
        match apply_units(s, units.drop_last()) {
            Some(m) => apply_ops(m, units.last().apply@),
            None => None,
        }
    }
}

/// Running one more operation after a sequence.
pub proof fn lemma_apply_ops_push(s: SchemaModel, ops: Seq<SchemaOp>, op: SchemaOp)
    ensures
        apply_ops(s, ops.push(op)) == match apply_ops(s, ops) {
            Some(m) => apply_op(m, op),
            None => None,
        },
    decreases ops.len(),
{
    if ops.len() == 0 {
        assert(ops.push(op).drop_first() =~= Seq::<SchemaOp>::empty());
        assert(ops.push(op)[0] == op);
        match apply_op(s, op) {
            Some(s1) => {
                assert(apply_ops(s1, Seq::<SchemaOp>::empty()) == Some(s1));
            },
            None => {},
        }
    } else {
        assert(ops.push(op).drop_first() =~= ops.drop_first().push(op));
        assert(ops.push(op)[0] == ops[0]);
        match apply_op(s, ops[0]) {
            Some(s1) => lemma_apply_ops_push(s1, ops.drop_first(), op),
            None => {},
        }
    }
}

/// Running a sequence after another is running their concatenation.
pub proof fn lemma_apply_ops_append(s: SchemaModel, a: Seq<SchemaOp>, b: Seq<SchemaOp>)
    ensures
        apply_ops(s, a + b) == match apply_ops(s, a) {
            Some(m) => apply_ops(m, b),
            None => None,
        },
    decreases a.len(),
{
    if a.len() == 0 {
        assert(a + b =~= b);
    } else {
        assert((a + b).drop_first() =~= a.drop_first() + b);
        assert((a + b)[0] == a[0]);
        match apply_op(s, a[0]) {
            Some(s1) => lemma_apply_ops_append(s1, a.drop_first(), b),
            None => {},
        }
    }
}

/// The position of the last unit of `units` whose name `applied` holds, if
/// any: the unit that a revert undoes.
pub fn last_recorded(units: &Vec<MigrationUnit>, applied: &Vec<String>) -> (r: Option<usize>)
    ensures
        ({
            let done = Set::new(|t: Seq<char>| exists|i: int| 0 <= i < applied@.len() && #[trigger] applied@[i]@ == t);
            match r {
                None => forall|k: int| 0 <= k < units@.len() ==> !done.contains(#[trigger] units@[k].name@),
                Some(i) => {
                    &&& i < units@.len()
                    &&& done.contains(units@[i as int].name@)
                    &&& forall|k: int| i < k < units@.len() ==> !done.contains(#[trigger] units@[k].name@)
                },
            }
        }),
{
    let ghost done = Set::new(|t: Seq<char>| exists|i: int| 0 <= i < applied@.len() && #[trigger] applied@[i]@ == t);
    let mut k: usize = units.len();
    while k > 0
        invariant
            k <= units@.len(),
            done == Set::new(|t: Seq<char>| exists|i: int| 0 <= i < applied@.len() && #[trigger] applied@[i]@ == t),
            forall|q: int| k <= q < units@.len() ==> !done.contains(#[trigger] units@[q].name@),
        decreases k,
    {
        let c = k - 1;
        let mut i: usize = 0;
        while i < applied.len()
            invariant
                i <= applied@.len(),
                c < units@.len(),
                c + 1 == k,
                done == Set::new(|t: Seq<char>| exists|i: int| 0 <= i < applied@.len() && #[trigger] applied@[i]@ == t),
                forall|q: int| k <= q < units@.len() ==> !done.contains(#[trigger] units@[q].name@),
                forall|j: int| 0 <= j < i ==> #[trigger] applied@[j]@ != units@[c as int].name@,
            decreases applied.len() - i,
        {
            if compare_names(applied[i].as_str(), units[c].name.as_str()) == NameOrder::Equal {
                proof {
                    assert(applied@[i as int]@ == units@[c as int].name@);
                    assert(done.contains(units@[c as int].name@));
                }
                return Some(c);
            }
            i = i + 1;
        }
        k = c;
    }
    None
}

/// The positions of the units whose names the ledger lacks, in ascending
/// order: the work of a run.
pub fn pending_units(units: &Vec<MigrationUnit>, applied: &Vec<String>) -> (r: Vec<usize>)
    ensures
        forall|i: int| 0 <= i < r@.len() ==> #[trigger] r@[i] < units@.len(),
        forall|i: int, j: int| 0 <= i < j < r@.len() ==> #[trigger] r@[i] < #[trigger] r@[j],
        r@.map_values(|k: usize| units@[k as int]) == pending(
            units@,
            Set::new(|t: Seq<char>| exists|i: int| 0 <= i < applied@.len() && #[trigger] applied@[i]@ == t),
        ),
{
    let ghost done = Set::new(|t: Seq<char>| exists|i: int| 0 <= i < applied@.len() && #[trigger] applied@[i]@ == t);
    let mut out: Vec<usize> = Vec::new();
    let mut k: usize = 0;
    proof {
        assert(units@.subrange(0, 0) =~= Seq::<MigrationUnit>::empty());
        assert(out@.map_values(|k: usize| units@[k as int]) =~= Seq::<MigrationUnit>::empty());
    }
    while k < units.len()
        invariant
            k <= units@.len(),
            done == Set::new(|t: Seq<char>| exists|i: int| 0 <= i < applied@.len() && #[trigger] applied@[i]@ == t),
            forall|i: int| 0 <= i < out@.len() ==> #[trigger] out@[i] < k,
            forall|i: int, j: int| 0 <= i < j < out@.len() ==> #[trigger] out@[i] < #[trigger] out@[j],
            out@.map_values(|k: usize| units@[k as int]) == pending(units@.subrange(0, k as int), done),
        decreases units.len() - k,
    {
        let mut found = false;
        let mut i: usize = 0;
        while i < applied.len()
            invariant
                i <= applied@.len(),
                k < units@.len(),
                found <==> exists|j: int| 0 <= j < i && #[trigger] applied@[j]@ == units@[k as int].name@,
            decreases applied.len() - i,
        {
            if compare_names(applied[i].as_str(), units[k].name.as_str()) == NameOrder::Equal {
                found = true;
            }
            i = i + 1;
        }
        proof {
            let sub = units@.subrange(0, k + 1);
            assert(sub.drop_last() =~= units@.subrange(0, k as int));
            assert(sub.last() == units@[k as int]);
            assert(found == done.contains(units@[k as int].name@));
        }
        if !found {
            let ghost before = out@;
            out.push(k);
            proof {
                assert(out@.map_values(|k: usize| units@[k as int]) =~= before.map_values(|k: usize| units@[k as int]).push(units@[k as int]));
            }
        }
        k = k + 1;
    }
    proof {
        assert(units@.subrange(0, units@.len() as int) =~= units@);
    }
    out
}

/// Reads a catalog count of matching columns, as introspection returns it
/// while `unit` runs: present when at least one matches. A missing or
/// negative count cannot come from a sound catalog and is an introspection
/// error.
pub fn presence_from_count(unit: &str, count: Option<i64>) -> (r: Result<bool, MigrationError>)
    ensures
        match count {
            Some(n) if n >= 0 => r == Ok::<bool, MigrationError>(n >= 1),
            _ => r matches Err(MigrationError::Introspection { unit: u, .. }) && u@ == unit@,
        },
{
    match count {
        Some(n) => {
            if n >= 0 {
                Ok(n >= 1)
            } else {
                Err(MigrationError::Introspection { unit: unit.to_owned(), message: "negative column count".to_owned() })
            }
        },
        None => Err(MigrationError::Introspection { unit: unit.to_owned(), message: "no column count".to_owned() }),
    }
}

/// What a run against a live database does next.
#[derive(Clone, Copy, Debug, PartialEq, Eq, Structural)]
pub enum RunAction {
    /// Apply the unit at this position of the registry.
    Apply(usize),
    /// Record in the ledger the unit at this position, which was applied.
    Record(usize),
    /// Every pending unit was applied and recorded; this many of them.
    Finished(usize),
    /// The unit at this position failed; the run is over.
    Stopped(usize),
}

/// What happened to the last action.
#[derive(Clone, Copy, Debug, PartialEq, Eq, Structural)]
pub enum RunEvent {
    Applied,
    Failed,
    Recorded,
}

/// The state of a run against a live database: the pending positions, how
/// many of them were applied and recorded, and whether the current one
/// awaits its record or has failed.
#[derive(Debug)]
pub struct RunPlan {
    work: Vec<usize>,
    done: usize,
    recording: bool,
    failed: bool,
}

impl RunPlan {
    /// The pending positions, in order.
    pub closed spec fn work(&self) -> Seq<usize> {
        self.work@
    }

    /// How many of them were applied and recorded.
    pub closed spec fn done(&self) -> nat {
        self.done as nat
    }

    /// The current unit was applied and awaits its record.
    pub closed spec fn recording(&self) -> bool {
        self.recording
    }

    /// The current unit failed.
    pub closed spec fn failed(&self) -> bool {
        self.failed
    }

    #[verifier::type_invariant]
    spec fn inv(&self) -> bool {
        &&& self.done <= self.work@.len()
        &&& (self.recording || self.failed) ==> self.done < self.work@.len()
        &&& !(self.recording && self.failed)
    }

    /// A run of the pending positions `work`, as `pending_units` gives them.
    pub fn new(work: Vec<usize>) -> (r: RunPlan)
        ensures
            r.work() == work@,
            r.done() == 0,
            !r.recording(),
            !r.failed(),
    {
        RunPlan { work, done: 0, recording: false, failed: false }
    }

    /// The next action: apply the next unit, record the one just applied,
    /// or end, at the first failure or once every unit is recorded.
    pub fn action(&self) -> (r: RunAction)
        ensures
            self.done() <= self.work().len(),
            self.failed() ==> self.done() < self.work().len() && r == RunAction::Stopped(self.work()[self.done() as int]),
            !self.failed() && self.recording() ==> self.done() < self.work().len() && r == RunAction::Record(self.work()[self.done() as int]),
            !self.failed() && !self.recording() && self.done() < self.work().len() ==> r == RunAction::Apply(self.work()[self.done() as int]),
            !self.failed() && !self.recording() && self.done() == self.work().len() ==> r == RunAction::Finished(self.work().len() as usize),
    {
        proof {
            use_type_invariant(self);
        }
        if self.failed {
            RunAction::Stopped(self.work[self.done])
        } else if self.recording {
            RunAction::Record(self.work[self.done])
        } else if self.done < self.work.len() {
            RunAction::Apply(self.work[self.done])
        } else {
            RunAction::Finished(self.work.len())
        }
    }

    /// Takes in what the last action led to. A unit is recorded only after
    /// it was applied, the next one is applied only after that record, and
    /// nothing follows a failure. An event that does not answer the current
    /// action changes nothing.
    pub fn observe(&mut self, e: RunEvent)
        ensures
            final(self).work() == old(self).work(),
            ({
                let applying = !old(self).failed() && !old(self).recording() && old(self).done() < old(self).work().len();
                let recording = !old(self).failed() && old(self).recording();
                if applying && e == RunEvent::Applied {
                    final(self).done() == old(self).done() && final(self).recording() && !final(self).failed()
                } else if applying && e == RunEvent::Failed {
                    final(self).done() == old(self).done() && !final(self).recording() && final(self).failed()
                } else if recording && e == RunEvent::Recorded {
                    final(self).done() == old(self).done() + 1 && !final(self).recording() && !final(self).failed()
                } else {
                    final(self).done() == old(self).done() && final(self).recording() == old(self).recording()
                        && final(self).failed() == old(self).failed()
                }
            }),
    {
        proof {
            use_type_invariant(&*self);
        }
        let applying = !self.failed && !self.recording && self.done < self.work.len();
        let recording = !self.failed && self.recording;
        if applying && e == RunEvent::Applied {
            self.recording = true;
        } else if applying && e == RunEvent::Failed {
            self.failed = true;
        } else if recording && e == RunEvent::Recorded {
            let len = self.work.len();
            assert(self.done < len);
            let next = self.done + 1;
            self.recording = false;
            self.done = next;
        }
    }
}

/// The name of the ledger table.
pub fn ledger_table_name() -> (r: String)
    ensures
        r@ == "migration_ledger"@,
{
    "migration_ledger".to_owned()
}

/// The creation of the ledger table: `name`, a text key, and `applied_at`,
/// a non-null integer time in seconds. Like every creation it is guarded, so the runner issues
/// it before each run.
pub fn ledger_table() -> (r: SchemaOp)
    ensures
        is_create_table(r, "migration_ledger"@, 2),
        r matches SchemaOp::CreateTable(t)
            && is_column(t.columns@[0], "name"@, ColumnType::VarChar, false, ColumnDefault::Absent, true, false)
            && is_column(t.columns@[1], "applied_at"@, ColumnType::BigInteger, false, ColumnDefault::Absent, false, false),
{
    let mut columns: Vec<ColumnSpec> = Vec::new();
    columns.push(key_column("name", ColumnType::VarChar, false));
    columns.push(column_def("applied_at", ColumnType::BigInteger, false, ColumnDefault::Absent));
    create_table("migration_ledger", columns)
}

} // verus!

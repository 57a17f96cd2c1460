//! A database held in memory, with its ledger: runs and reverts against it
//! go exactly as the engine prescribes.
use vstd::prelude::*;

use crate::memory::MemorySchema;
use crate::name::{compare_names, lemma_name_lt_irreflexive, name_lt, NameOrder};
use crate::registry::Registry;
use crate::runner::{
    apply_units, last_recorded, lemma_apply_ops_append, lemma_apply_ops_push, lemma_pending_members, lemma_pending_resume,
    lemma_pending_sorted, ledger_names, ledger_set, ledger_wf, pending, pending_units,
};
use crate::schema::{apply_op, apply_ops, empty_model, op_table, table_of, SchemaModel, SchemaOp};
use crate::unit::{
    sorted_by_name, unit_names, AppliedMigrationRecord, DdlFailure, MigrationError, MigrationUnit,
};

verus! {

/// The time to record for the next ledger row: the time now, or the time of
/// the last row where the clock went back.
pub fn next_timestamp(ledger: &Vec<AppliedMigrationRecord>, now: u64) -> (r: u64)
    ensures
        r >= now,
        ledger@.len() > 0 ==> r >= ledger@.last().applied_at,
        ledger@.len() == 0 ==> r == now,
        ledger@.len() > 0 ==> r == if now >= ledger@.last().applied_at { now } else { ledger@.last().applied_at },
{
    if ledger.len() == 0 {
        now
    } else {
        let last = ledger[ledger.len() - 1].applied_at;
        if now >= last {
            now
        } else {
            last
        }
    }
}

/// Runs `ops` in order, guarded; stops at the first that fails and gives its
/// position.
fn apply_ops_in(schema: &mut MemorySchema, ops: &Vec<SchemaOp>) -> (r: Result<(), usize>)
    ensures
        r is Ok ==> apply_ops(old(schema).model(), ops@) == Some(final(schema).model()),
        r matches Err(j) ==> {
            &&& j < ops@.len()
            &&& apply_ops(old(schema).model(), ops@.take(j as int)) == Some(final(schema).model())
            &&& apply_op(final(schema).model(), ops@[j as int]) is None
            &&& apply_ops(old(schema).model(), ops@) is None
        },
{
    let ghost start = schema.model();
    let mut j: usize = 0;
    proof {
        assert(ops@.take(0) =~= Seq::<SchemaOp>::empty());
    }
    while j < ops.len()
        invariant
            j <= ops@.len(),
            start == old(schema).model(),
            apply_ops(start, ops@.take(j as int)) == Some(schema.model()),
        decreases ops.len() - j,
    {
        let ghost before = schema.model();
        if !schema.apply(&ops[j]) {
            proof {
                assert(ops@ =~= ops@.take(j + 1) + ops@.skip(j + 1));
                assert(ops@.take(j + 1) =~= ops@.take(j as int).push(ops@[j as int]));
                lemma_apply_ops_push(start, ops@.take(j as int), ops@[j as int]);
                lemma_apply_ops_append(start, ops@.take(j + 1), ops@.skip(j + 1));
            }
            return Err(j);
        }
        proof {
            assert(ops@.take(j + 1) =~= ops@.take(j as int).push(ops@[j as int]));
            lemma_apply_ops_push(start, ops@.take(j as int), ops@[j as int]);
        }
        j = j + 1;
    }
    proof {
        assert(ops@.take(ops@.len() as int) =~= ops@);
    }
    Ok(())
}

proof fn lemma_ledger_set_names(l: Seq<AppliedMigrationRecord>)
    ensures
        ledger_set(l) == ledger_names(l).to_set(),
{
    assert forall|t: Seq<char>| ledger_set(l).contains(t) <==> ledger_names(l).to_set().contains(t) by {
        if ledger_set(l).contains(t) {
            let i = choose|i: int| 0 <= i < l.len() && #[trigger] l[i].name@ == t;
            assert(ledger_names(l)[i] == t);
        }
        if ledger_names(l).to_set().contains(t) {
            let i = choose|i: int| 0 <= i < ledger_names(l).len() && ledger_names(l)[i] == t;
            assert(l[i].name@ == t);
        }
    }
    assert(ledger_set(l) =~= ledger_names(l).to_set());
}

proof fn lemma_concat_to_set(a: Seq<Seq<char>>, b: Seq<Seq<char>>)
    ensures
        (a + b).to_set() == a.to_set().union(b.to_set()),
{
    assert forall|t: Seq<char>| (a + b).to_set().contains(t) <==> a.to_set().union(b.to_set()).contains(t) by {
        if (a + b).to_set().contains(t) {
            let i = choose|i: int| 0 <= i < (a + b).len() && (a + b)[i] == t;
            if i < a.len() {
                assert(a[i] == t);
            } else {
                assert(b[i - a.len()] == t);
            }
        }
        if a.to_set().contains(t) {
            let i = choose|i: int| 0 <= i < a.len() && a[i] == t;
            assert((a + b)[i] == t);
        }
        if b.to_set().contains(t) {
            let i = choose|i: int| 0 <= i < b.len() && b[i] == t;
            assert((a + b)[a.len() + i] == t);
        }
    }
    assert((a + b).to_set() =~= a.to_set().union(b.to_set()));
}

/// A database held in memory: its schema and its ledger.
#[derive(Debug)]
pub struct MemoryDatabase {
    schema: MemorySchema,
    ledger: Vec<AppliedMigrationRecord>,
}

impl MemoryDatabase {
    /// The shape of the schema.
    pub closed spec fn schema_model(&self) -> SchemaModel {
        self.schema.model()
    }

    /// The ledger rows, in the order they were written.
    pub closed spec fn ledger_view(&self) -> Seq<AppliedMigrationRecord> {
        self.ledger@
    }

    /// An empty database with an empty ledger.
    pub fn new() -> (r: MemoryDatabase)
        ensures
            r.schema_model() == empty_model(),
            r.ledger_view().len() == 0,
            ledger_wf(r.ledger_view()),
    {
        let r = MemoryDatabase { schema: MemorySchema::new(), ledger: Vec::new() };
        proof {
            assert(ledger_names(r.ledger@) =~= Seq::<Seq<char>>::empty());
        }
        r
    }

    /// The schema.
    pub fn schema(&self) -> (r: &MemorySchema)
        ensures
            r.model() == self.schema_model(),
    {
        &self.schema
    }

    /// Runs one guarded operation outside any unit, as an administrator
    /// editing the schema by hand would; the ledger is left alone.
    pub fn apply(&mut self, op: &SchemaOp) -> (r: bool)
        ensures
            final(self).ledger_view() == old(self).ledger_view(),
            match apply_op(old(self).schema_model(), *op) {
                Some(m) => r && final(self).schema_model() == m,
                None => !r && final(self).schema_model() == old(self).schema_model(),
            },
    {
        self.schema.apply(op)
    }

    /// The ledger rows.
    pub fn ledger(&self) -> (r: &Vec<AppliedMigrationRecord>)
        ensures
            r@ == self.ledger_view(),
    {
        &self.ledger
    }

    /// The names that the ledger records, in its order.
    pub fn applied_names(&self) -> (r: Vec<String>)
        ensures
            r@.len() == self.ledger_view().len(),
            forall|i: int| 0 <= i < r@.len() ==> #[trigger] r@[i]@ == self.ledger_view()[i].name@,
    {
        let mut out: Vec<String> = Vec::new();
        let mut i: usize = 0;
        while i < self.ledger.len()
            invariant
                i <= self.ledger@.len(),
                out@.len() == i,
                forall|k: int| 0 <= k < i ==> #[trigger] out@[k]@ == self.ledger@[k].name@,
            decreases self.ledger.len() - i,
        {
            out.push(self.ledger[i].name.clone());
            i = i + 1;
        }
        out
    }

    /// Applies, in ascending name order, every unit of `registry` that the
    /// ledger does not record, and records each one as it succeeds, at the
    /// time `now` (or the time of the last row, where the clock went back).
    /// Stops at the first unit that fails; the units before it stay applied
    /// and recorded.
    pub fn run(&mut self, registry: &Registry, now: u64) -> (r: Result<usize, MigrationError>)
        requires
            ledger_wf(old(self).ledger_view()),
        ensures
            ledger_wf(final(self).ledger_view()),
            ({
                let pend = pending(registry@, ledger_set(old(self).ledger_view()));
                match r {
                    Ok(n) => {
                        &&& n == pend.len()
                        &&& final(self).ledger_view().take(old(self).ledger_view().len() as int) == old(self).ledger_view()
                        &&& ledger_names(final(self).ledger_view()) == ledger_names(old(self).ledger_view()) + unit_names(pend)
                        &&& apply_units(old(self).schema_model(), pend) == Some(final(self).schema_model())
                        &&& pending(registry@, ledger_set(final(self).ledger_view())).len() == 0
                        &&& forall|i: int| old(self).ledger_view().len() <= i < final(self).ledger_view().len()
                            ==> #[trigger] final(self).ledger_view()[i].applied_at >= now
                    },
                    Err(e) => exists|k: int, j: int| {
                        &&& 0 <= k < pend.len()
                        &&& 0 <= j < pend[k].apply@.len()
                        &&& final(self).ledger_view().take(old(self).ledger_view().len() as int) == old(self).ledger_view()
                        &&& ledger_names(final(self).ledger_view()) == ledger_names(old(self).ledger_view()) + unit_names(pend.take(k))
                        &&& pending(registry@, ledger_set(final(self).ledger_view())) == pend.skip(k)
                        &&& (match apply_units(old(self).schema_model(), pend.take(k)) {
                            Some(m) => apply_ops(m, pend[k].apply@.take(j)) == Some(final(self).schema_model()),
                            None => false,
                        })
                        &&& apply_op(final(self).schema_model(), #[trigger] pend[k].apply@[j]) is None
                        &&& e matches MigrationError::DdlExecution { unit, cause: DdlFailure::MissingTable { table } }
                        &&& unit@ == pend[k].name@
                        &&& table@ == op_table(pend[k].apply@[j])
                    },
                }
            }),
    {
        let units = registry.ordered_units();
        let applied = self.applied_names();
        let ghost done = ledger_set(self.ledger@);
        proof {
            assert(Set::new(|t: Seq<char>| exists|i: int| 0 <= i < applied@.len() && #[trigger] applied@[i]@ == t) =~= done) by {
                assert forall|t: Seq<char>| done.contains(t) implies exists|i: int| 0 <= i < applied@.len() && #[trigger] applied@[i]@ == t by {
                    let i = choose|i: int| 0 <= i < self.ledger@.len() && #[trigger] self.ledger@[i].name@ == t;
                    assert(applied@[i]@ == t);
                }
            }
        }
        let idx = pending_units(units, &applied);
        let ghost pend = pending(units@, done);
        let ghost s0 = self.schema.model();
        let ghost l0 = self.ledger@;
        proof {
            lemma_pending_sorted(units@, done);
            lemma_pending_members(units@, done);
            assert(pend.take(0) =~= Seq::<MigrationUnit>::empty());
            assert(l0.take(l0.len() as int) =~= l0);
            assert(unit_names(pend.take(0)) =~= Seq::<Seq<char>>::empty());
            assert(ledger_names(l0) + unit_names(pend.take(0)) =~= ledger_names(l0));
        }
        let mut c: usize = 0;
        while c < idx.len()
            invariant
                c <= idx@.len(),
                idx@.len() == pend.len(),
                units@ == registry@,
                sorted_by_name(units@),
                forall|i: int| 0 <= i < idx@.len() ==> #[trigger] idx@[i] < units@.len(),
                idx@.map_values(|k: usize| units@[k as int]) == pend,
                pend == pending(registry@, done),
                done == ledger_set(l0),
                l0 == old(self).ledger@,
                s0 == old(self).schema.model(),
                ledger_wf(l0),
                sorted_by_name(pend),
                forall|i: int| #![trigger pend[i]] 0 <= i < pend.len() ==> !done.contains(pend[i].name@),
                self.ledger@.len() == l0.len() + c,
                self.ledger@.take(l0.len() as int) == l0,
                ledger_names(self.ledger@) == ledger_names(l0) + unit_names(pend.take(c as int)),
                ledger_wf(self.ledger@),
                forall|i: int| l0.len() <= i < self.ledger@.len() ==> #[trigger] self.ledger@[i].applied_at >= now,
                apply_units(s0, pend.take(c as int)) == Some(self.schema.model()),
            decreases idx.len() - c,
        {
            let u = &units[idx[c]];
            proof {
                assert(pend[c as int] == units@[idx@[c as int] as int]);
            }
            let ghost sk = self.schema.model();
            match apply_ops_in(&mut self.schema, &u.apply) {
                Err(j) => {
                    let table = table_of(&u.apply[j]);
                    let unit = u.name.clone();
                    proof {
                        lemma_ledger_set_names(self.ledger@);
                        lemma_ledger_set_names(l0);
                        lemma_concat_to_set(ledger_names(l0), unit_names(pend.take(c as int)));
                        lemma_pending_resume(registry@, done, c as int);
                        assert(apply_op(self.schema.model(), pend[c as int].apply@[j as int]) is None);
                    }
                    return Err(MigrationError::DdlExecution { unit, cause: DdlFailure::MissingTable { table } });
                },
                Ok(()) => {},
            }
            let ts = next_timestamp(&self.ledger, now);
            let rec = AppliedMigrationRecord { name: u.name.clone(), applied_at: ts };
            let ghost lb = self.ledger@;
            self.ledger.push(rec);
            proof {
                assert(self.ledger@.take(l0.len() as int) =~= lb.take(l0.len() as int));
                let n = pend[c as int].name@;
                assert(pend.take(c + 1) =~= pend.take(c as int).push(pend[c as int]));
                assert(pend.take(c + 1).drop_last() =~= pend.take(c as int));
                assert(unit_names(pend.take(c + 1)) =~= unit_names(pend.take(c as int)).push(n));
                assert(ledger_names(self.ledger@) =~= ledger_names(lb).push(n));
                assert(ledger_names(self.ledger@) =~= ledger_names(l0) + unit_names(pend.take(c + 1)));
                assert forall|i: int| 0 <= i < ledger_names(lb).len() implies #[trigger] ledger_names(lb)[i] != n by {
                    if i < l0.len() {
                        assert(ledger_names(l0)[i] == ledger_names(lb)[i]);
                        assert(l0[i].name@ == ledger_names(lb)[i]);
                        if ledger_names(lb)[i] == n {
                            assert(done.contains(n));
                        }
                    } else {
                        let q = i - l0.len();
                        assert(ledger_names(lb)[i] == unit_names(pend.take(c as int))[q]);
                        assert(name_lt(pend[q].name@, pend[c as int].name@));
                        lemma_name_lt_irreflexive(n);
                    }
                }
                assert forall|i: int, j: int| 0 <= i <= j < self.ledger@.len() implies #[trigger] self.ledger@[i].applied_at <= #[trigger] self.ledger@[j].applied_at by {
                    if j == self.ledger@.len() - 1 && i < j {
                        assert(lb[i].applied_at <= lb.last().applied_at);
                    }
                }
            }
            c = c + 1;
        }
        proof {
            assert(pend.take(c as int) =~= pend);
            lemma_ledger_set_names(self.ledger@);
            lemma_ledger_set_names(l0);
            lemma_concat_to_set(ledger_names(l0), unit_names(pend));
            lemma_pending_resume(registry@, done, pend.len() as int);
        }
        Ok(idx.len())
    }

    /// Where the ledger records `name`, if it does.
    fn ledger_position(&self, name: &str) -> (r: Option<usize>)
        ensures
            r matches Some(p) ==> p < self.ledger@.len() && self.ledger@[p as int].name@ == name@,
            r is None ==> !ledger_set(self.ledger@).contains(name@),
    {
        let mut i: usize = 0;
        while i < self.ledger.len()
            invariant
                i <= self.ledger@.len(),
                forall|k: int| 0 <= k < i ==> #[trigger] self.ledger@[k].name@ != name@,
            decreases self.ledger.len() - i,
        {
            if compare_names(self.ledger[i].name.as_str(), name) == NameOrder::Equal {
                return Some(i);
            }
            i = i + 1;
        }
        None
    }

    /// Reverts the applied unit that comes last in `registry`, and removes
    /// its ledger row once its revert operations have succeeded. It succeeds
    /// exactly when they do. Where no unit of `registry` is recorded, nothing
    /// changes. Where a revert operation fails, the schema stays where it
    /// stopped and the ledger keeps the row.
    pub fn revert_last(&mut self, registry: &Registry) -> (r: Result<(), MigrationError>)
        requires
            ledger_wf(old(self).ledger_view()),
        ensures
            ledger_wf(final(self).ledger_view()),
            ({
                let units = registry@;
                let done = ledger_set(old(self).ledger_view());
                if forall|k: int| 0 <= k < units.len() ==> !done.contains(#[trigger] units[k].name@) {
                    &&& r is Ok
                    &&& final(self).ledger_view() == old(self).ledger_view()
                    &&& final(self).schema_model() == old(self).schema_model()
                } else {
                    exists|i: int| {
                        &&& 0 <= i < units.len()
                        &&& done.contains(#[trigger] units[i].name@)
                        &&& forall|k: int| i < k < units.len() ==> !done.contains(#[trigger] units[k].name@)
                        &&& (r is Ok <==> apply_ops(old(self).schema_model(), units[i].revert@) is Some)
                        &&& match r {
                            Ok(()) => {
                                &&& apply_ops(old(self).schema_model(), units[i].revert@) == Some(final(self).schema_model())
                                &&& exists|p: int| 0 <= p < old(self).ledger_view().len()
                                    && #[trigger] old(self).ledger_view()[p].name@ == units[i].name@
                                    && final(self).ledger_view() == old(self).ledger_view().remove(p)
                            },
                            Err(e) => exists|j: int| {
                                &&& 0 <= j < units[i].revert@.len()
                                &&& final(self).ledger_view() == old(self).ledger_view()
                                &&& apply_ops(old(self).schema_model(), units[i].revert@.take(j)) == Some(final(self).schema_model())
                                &&& apply_op(final(self).schema_model(), #[trigger] units[i].revert@[j]) is None
                                &&& e matches MigrationError::DdlExecution { unit, cause: DdlFailure::MissingTable { table } }
                                &&& unit@ == units[i].name@
                                &&& table@ == op_table(units[i].revert@[j])
                            },
                        }
                    }
                }
            }),
    {
        let units = registry.ordered_units();
        let applied = self.applied_names();
        proof {
            let done = ledger_set(self.ledger@);
            assert(Set::new(|t: Seq<char>| exists|i: int| 0 <= i < applied@.len() && #[trigger] applied@[i]@ == t) =~= done) by {
                assert forall|t: Seq<char>| done.contains(t) implies exists|i: int| 0 <= i < applied@.len() && #[trigger] applied@[i]@ == t by {
                    let i = choose|i: int| 0 <= i < self.ledger@.len() && #[trigger] self.ledger@[i].name@ == t;
                    assert(applied@[i]@ == t);
                }
            }
        }
        let i = match last_recorded(units, &applied) {
            None => {
                return Ok(());
            },
            Some(i) => i,
        };
        let p = match self.ledger_position(units[i].name.as_str()) {
            Some(p) => p,
            None => {
                return Ok(());
            },
        };
        let u = &units[i];
        match apply_ops_in(&mut self.schema, &u.revert) {
            Err(j) => {
                let table = table_of(&u.revert[j]);
                let unit = u.name.clone();
                return Err(MigrationError::DdlExecution { unit, cause: DdlFailure::MissingTable { table } });
            },
            Ok(()) => {},
        }
        let ghost lb = self.ledger@;
        let _removed = self.ledger.remove(p);
        proof {
            let la = self.ledger@;
            assert(ledger_names(la) =~= ledger_names(lb).remove(p as int));
            assert forall|a: int, b: int| 0 <= a < b < ledger_names(la).len() implies ledger_names(la)[a] != ledger_names(la)[b] by {
                let a1 = if a < p { a } else { a + 1 };
                let b1 = if b < p { b } else { b + 1 };
                assert(ledger_names(la)[a] == ledger_names(lb)[a1]);
                assert(ledger_names(la)[b] == ledger_names(lb)[b1]);
            }
            assert forall|a: int, b: int| 0 <= a <= b < la.len() implies #[trigger] la[a].applied_at <= #[trigger] la[b].applied_at by {
                let a1 = if a < p { a } else { a + 1 };
                let b1 = if b < p { b } else { b + 1 };
                assert(la[a] == lb[a1] && la[b] == lb[b1]);
            }
        }
        Ok(())
    }
}

} // verus!

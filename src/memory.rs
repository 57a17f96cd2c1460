//! A schema held in memory: the engine's own model of a database, on which
//! runs can be rehearsed and checked.
use vstd::prelude::*;

use crate::name::{compare_names, NameOrder};
use crate::schema::{column_exists, should_execute, apply_op, statement_effect, table_columns, table_columns_upto, target_present, SchemaModel, SchemaOp, TableSpec, empty_model};

verus! {

/// Two names, such as a table and one of its columns or indexes.
#[derive(Debug)]
pub struct Pair {
    pub first: String,
    pub second: String,
}

impl Pair {
    /// Copies both names.
    pub fn duplicate(&self) -> (r: Pair)
        ensures
            r.first@ == self.first@,
            r.second@ == self.second@,
    {
        Pair { first: self.first.clone(), second: self.second.clone() }
    }
}

/// The names that a pair holds.
pub open spec fn pair_view(f: Pair) -> (Seq<char>, Seq<char>) {
    (f.first@, f.second@)
}

/// The set of pairs that a sequence holds.
pub open spec fn pair_set(v: Seq<Pair>) -> Set<(Seq<char>, Seq<char>)> {
    Set::new(|p: (Seq<char>, Seq<char>)| exists|i: int| 0 <= i < v.len() && #[trigger] pair_view(v[i]) == p)
}

/// The set of names that a sequence holds.
pub open spec fn name_set(v: Seq<String>) -> Set<Seq<char>> {
    Set::new(|t: Seq<char>| exists|i: int| 0 <= i < v.len() && #[trigger] v[i]@ == t)
}

proof fn lemma_pair_set_push(v: Seq<Pair>, x: Pair)
    ensures
        pair_set(v.push(x)) == pair_set(v).insert(pair_view(x)),
{
    assert forall|p: (Seq<char>, Seq<char>)| #[trigger] pair_set(v.push(x)).contains(p) implies pair_set(v).insert(pair_view(x)).contains(p) by {
        let i = choose|i: int| 0 <= i < v.push(x).len() && #[trigger] pair_view(v.push(x)[i]) == p;
        if i < v.len() {
            assert(pair_view(v[i]) == p);
        }
    }
    assert forall|p: (Seq<char>, Seq<char>)| #[trigger] pair_set(v).insert(pair_view(x)).contains(p) implies pair_set(v.push(x)).contains(p) by {
        if p == pair_view(x) {
            assert(pair_view(v.push(x)[v.len() as int]) == p);
        } else {
            let i = choose|i: int| 0 <= i < v.len() && #[trigger] pair_view(v[i]) == p;
            assert(pair_view(v.push(x)[i]) == p);
        }
    }
    assert(pair_set(v.push(x)) =~= pair_set(v).insert(pair_view(x)));
}

proof fn lemma_name_set_push(v: Seq<String>, x: String)
    ensures
        name_set(v.push(x)) == name_set(v).insert(x@),
{
    assert forall|t: Seq<char>| #[trigger] name_set(v.push(x)).contains(t) implies name_set(v).insert(x@).contains(t) by {
        let i = choose|i: int| 0 <= i < v.push(x).len() && #[trigger] v.push(x)[i]@ == t;
        if i < v.len() {
            assert(v[i]@ == t);
        }
    }
    assert forall|t: Seq<char>| #[trigger] name_set(v).insert(x@).contains(t) implies name_set(v.push(x)).contains(t) by {
        if t == x@ {
            assert(v.push(x)[v.len() as int]@ == t);
        } else {
            let i = choose|i: int| 0 <= i < v.len() && #[trigger] v[i]@ == t;
            assert(v.push(x)[i]@ == t);
        }
    }
    assert(name_set(v.push(x)) =~= name_set(v).insert(x@));
}

/// Whether the sequence holds `(a, b)`.
fn find_pair(v: &Vec<Pair>, a: &str, b: &str) -> (r: bool)
    ensures
        r == pair_set(v@).contains((a@, b@)),
{
    let mut i: usize = 0;
    while i < v.len()
        invariant
            i <= v@.len(),
            forall|k: int| 0 <= k < i ==> #[trigger] pair_view(v@[k]) != (a@, b@),
        decreases v.len() - i,
    {
        if compare_names(v[i].first.as_str(), a) == NameOrder::Equal && compare_names(
            v[i].second.as_str(),
            b,
        ) == NameOrder::Equal {
            assert(pair_view(v@[i as int]) == (a@, b@));
            return true;
        }
        i = i + 1;
    }
    false
}

/// The pairs of `v` but `(a, b)`.
fn pairs_without(v: &Vec<Pair>, a: &str, b: &str) -> (r: Vec<Pair>)
    ensures
        pair_set(r@) == pair_set(v@).remove((a@, b@)),
{
    let mut out: Vec<Pair> = Vec::new();
    let mut i: usize = 0;
    proof {
        assert(pair_set(out@) =~= pair_set(v@.subrange(0, 0)).remove((a@, b@)));
    }
    while i < v.len()
        invariant
            i <= v@.len(),
            pair_set(out@) == pair_set(v@.subrange(0, i as int)).remove((a@, b@)),
        decreases v.len() - i,
    {
        let ghost before = out@;
        proof {
            assert(v@.subrange(0, i + 1) =~= v@.subrange(0, i as int).push(v@[i as int]));
            lemma_pair_set_push(v@.subrange(0, i as int), v@[i as int]);
        }
        if compare_names(v[i].first.as_str(), a) == NameOrder::Equal && compare_names(
            v[i].second.as_str(),
            b,
        ) == NameOrder::Equal {
            proof {
                assert(pair_set(v@.subrange(0, i + 1)).remove((a@, b@)) =~= pair_set(
                    v@.subrange(0, i as int),
                ).remove((a@, b@)));
            }
        } else {
            let f = v[i].duplicate();
            out.push(f);
            proof {
                lemma_pair_set_push(before, f);
                assert(pair_set(v@.subrange(0, i + 1)).remove((a@, b@)) =~= pair_set(
                    v@.subrange(0, i as int),
                ).remove((a@, b@)).insert(pair_view(v@[i as int])));
            }
        }
        i = i + 1;
    }
    proof {
        assert(v@.subrange(0, v@.len() as int) =~= v@);
    }
    out
}

/// The pairs of `v` whose first name is not `a`.
fn pairs_off(v: &Vec<Pair>, a: &str) -> (r: Vec<Pair>)
    ensures
        pair_set(r@) == pair_set(v@).filter(|p: (Seq<char>, Seq<char>)| p.0 != a@),
{
    let ghost keep = |p: (Seq<char>, Seq<char>)| p.0 != a@;
    let mut out: Vec<Pair> = Vec::new();
    let mut i: usize = 0;
    proof {
        assert(pair_set(out@) =~= pair_set(v@.subrange(0, 0)).filter(keep));
    }
    while i < v.len()
        invariant
            i <= v@.len(),
            keep == (|p: (Seq<char>, Seq<char>)| p.0 != a@),
            pair_set(out@) == pair_set(v@.subrange(0, i as int)).filter(keep),
        decreases v.len() - i,
    {
        let ghost before = out@;
        proof {
            assert(v@.subrange(0, i + 1) =~= v@.subrange(0, i as int).push(v@[i as int]));
            lemma_pair_set_push(v@.subrange(0, i as int), v@[i as int]);
        }
        if compare_names(v[i].first.as_str(), a) == NameOrder::Equal {
            proof {
                assert(pair_set(v@.subrange(0, i + 1)).filter(keep) =~= pair_set(
                    v@.subrange(0, i as int),
                ).filter(keep));
            }
        } else {
            let f = v[i].duplicate();
            out.push(f);
            proof {
                lemma_pair_set_push(before, f);
                assert(pair_set(v@.subrange(0, i + 1)).filter(keep) =~= pair_set(
                    v@.subrange(0, i as int),
                ).filter(keep).insert(pair_view(v@[i as int])));
            }
        }
        i = i + 1;
    }
    proof {
        assert(v@.subrange(0, v@.len() as int) =~= v@);
    }
    out
}

/// Whether the sequence holds the name `t`.
fn find_name(v: &Vec<String>, t: &str) -> (r: bool)
    ensures
        r == name_set(v@).contains(t@),
{
    let mut i: usize = 0;
    while i < v.len()
        invariant
            i <= v@.len(),
            forall|k: int| 0 <= k < i ==> #[trigger] v@[k]@ != t@,
        decreases v.len() - i,
    {
        if compare_names(v[i].as_str(), t) == NameOrder::Equal {
            return true;
        }
        i = i + 1;
    }
    false
}

/// The names of `v` but `t`.
fn names_without(v: &Vec<String>, t: &str) -> (r: Vec<String>)
    ensures
        name_set(r@) == name_set(v@).remove(t@),
{
    let mut out: Vec<String> = Vec::new();
    let mut i: usize = 0;
    proof {
        assert(name_set(out@) =~= name_set(v@.subrange(0, 0)).remove(t@));
    }
    while i < v.len()
        invariant
            i <= v@.len(),
            name_set(out@) == name_set(v@.subrange(0, i as int)).remove(t@),
        decreases v.len() - i,
    {
        let ghost before = out@;
        proof {
            assert(v@.subrange(0, i + 1) =~= v@.subrange(0, i as int).push(v@[i as int]));
            lemma_name_set_push(v@.subrange(0, i as int), v@[i as int]);
        }
        if compare_names(v[i].as_str(), t) == NameOrder::Equal {
            proof {
                assert(name_set(v@.subrange(0, i + 1)).remove(t@) =~= name_set(
                    v@.subrange(0, i as int),
                ).remove(t@));
            }
        } else {
            let f = v[i].clone();
            out.push(f);
            proof {
                lemma_name_set_push(before, f);
                assert(name_set(v@.subrange(0, i + 1)).remove(t@) =~= name_set(
                    v@.subrange(0, i as int),
                ).remove(t@).insert(v@[i as int]@));
            }
        }
        i = i + 1;
    }
    proof {
        assert(v@.subrange(0, v@.len() as int) =~= v@);
    }
    out
}

/// A schema held in memory: its tables, `(table, column)` pairs and
/// `(table, index)` pairs.
#[derive(Debug)]
pub struct MemorySchema {
    tables: Vec<String>,
    columns: Vec<Pair>,
    indexes: Vec<Pair>,
}

impl MemorySchema {
    /// The shape that this schema holds.
    pub closed spec fn model(&self) -> SchemaModel {
        SchemaModel {
            tables: name_set(self.tables@),
            columns: pair_set(self.columns@),
            indexes: pair_set(self.indexes@),
        }
    }

    /// A schema with no table.
    pub fn new() -> (r: MemorySchema)
        ensures
            r.model() == empty_model(),
    {
        let r = MemorySchema { tables: Vec::new(), columns: Vec::new(), indexes: Vec::new() };
        proof {
            assert(r.model().tables =~= Set::empty());
            assert(r.model().columns =~= Set::empty());
            assert(r.model().indexes =~= Set::empty());
        }
        r
    }

    /// Whether table `t` exists.
    pub fn has_table(&self, t: &str) -> (r: bool)
        ensures
            r == self.model().tables.contains(t@),
    {
        find_name(&self.tables, t)
    }

    /// Whether table `t` has column `c`.
    pub fn has_column(&self, t: &str, c: &str) -> (r: bool)
        ensures
            r == self.model().columns.contains((t@, c@)),
    {
        find_pair(&self.columns, t, c)
    }

    /// Whether table `t` has index `i`.
    pub fn has_index(&self, t: &str, i: &str) -> (r: bool)
        ensures
            r == self.model().indexes.contains((t@, i@)),
    {
        find_pair(&self.indexes, t, i)
    }

    /// Introspection: the names of the columns of table `t`.
    pub fn column_names(&self, t: &str) -> (r: Vec<String>)
        ensures
            forall|c: Seq<char>| name_set(r@).contains(c) <==> self.model().columns.contains((t@, c)),
    {
        let mut out: Vec<String> = Vec::new();
        let mut i: usize = 0;
        while i < self.columns.len()
            invariant
                i <= self.columns@.len(),
                forall|c: Seq<char>| name_set(out@).contains(c) <==> pair_set(self.columns@.subrange(0, i as int)).contains((t@, c)),
            decreases self.columns.len() - i,
        {
            let ghost before = out@;
            proof {
                assert(self.columns@.subrange(0, i + 1) =~= self.columns@.subrange(0, i as int).push(self.columns@[i as int]));
                lemma_pair_set_push(self.columns@.subrange(0, i as int), self.columns@[i as int]);
            }
            if compare_names(self.columns[i].first.as_str(), t) == NameOrder::Equal {
                let c = self.columns[i].second.clone();
                out.push(c);
                proof {
                    lemma_name_set_push(before, c);
                }
            }
            i = i + 1;
        }
        proof {
            assert(self.columns@.subrange(0, self.columns@.len() as int) =~= self.columns@);
        }
        out
    }

    /// Whether the target of `op` is present: what introspection reports
    /// before `op` is run.
    pub fn target_present(&self, op: &SchemaOp) -> (r: bool)
        ensures
            r == target_present(self.model(), *op),
    {
        match op {
            SchemaOp::AddColumn { table, column } => {
                let names = self.column_names(table.as_str());
                let r = column_exists(&names, column.name.as_str());
                proof {
                    assert(r == name_set(names@).contains(column.name@));
                }
                r
            },
            SchemaOp::DropColumn { table, column } => {
                let names = self.column_names(table.as_str());
                let r = column_exists(&names, column.as_str());
                proof {
                    assert(r == name_set(names@).contains(column@));
                }
                r
            },
            SchemaOp::CreateTable(t) => self.has_table(t.name.as_str()),
            SchemaOp::DropTable { table } => self.has_table(table.as_str()),
            SchemaOp::CreateIndex(i) => self.has_index(i.table.as_str(), i.name.as_str()),
            SchemaOp::DropIndex { table, name } => self.has_index(table.as_str(), name.as_str()),
        }
    }

    /// Runs the statement of `op` unconditionally; `false` where it fails,
    /// and then nothing changes.
    pub fn execute(&mut self, op: &SchemaOp) -> (r: bool)
        ensures
            match statement_effect(old(self).model(), *op) {
                Some(m) => r && final(self).model() == m,
                None => !r && final(self).model() == old(self).model(),
            },
    {
        match op {
            SchemaOp::AddColumn { table, column } => {
                if !self.has_table(table.as_str()) {
                    return false;
                }
                let f = Pair { first: table.clone(), second: column.name.clone() };
                proof {
                    lemma_pair_set_push(self.columns@, f);
                }
                self.columns.push(f);
                true
            },
            SchemaOp::DropColumn { table, column } => {
                self.columns = pairs_without(&self.columns, table.as_str(), column.as_str());
                true
            },
            SchemaOp::CreateTable(t) => {
                self.create_table(t);
                true
            },
            SchemaOp::DropTable { table } => {
                self.tables = names_without(&self.tables, table.as_str());
                self.columns = pairs_off(&self.columns, table.as_str());
                self.indexes = pairs_off(&self.indexes, table.as_str());
                true
            },
            SchemaOp::CreateIndex(i) => {
                if !self.has_table(i.table.as_str()) {
                    return false;
                }
                let f = Pair { first: i.table.clone(), second: i.name.clone() };
                proof {
                    lemma_pair_set_push(self.indexes@, f);
                }
                self.indexes.push(f);
                true
            },
            SchemaOp::DropIndex { table, name } => {
                self.indexes = pairs_without(&self.indexes, table.as_str(), name.as_str());
                true
            },
        }
    }

    fn create_table(&mut self, t: &TableSpec)
        ensures
            final(self).model() == (SchemaModel {
                tables: old(self).model().tables.insert(t.name@),
                columns: old(self).model().columns.union(table_columns(*t)),
                ..old(self).model()
            }),
    {
        let name = t.name.clone();
        proof {
            lemma_name_set_push(self.tables@, name);
        }
        self.tables.push(name);
        let ghost start = self.columns@;
        let mut k: usize = 0;
        proof {
            assert(pair_set(self.columns@) =~= pair_set(start).union(table_columns_upto(*t, 0)));
        }
        while k < t.columns.len()
            invariant
                k <= t.columns@.len(),
                name_set(self.tables@) == old(self).model().tables.insert(t.name@),
                self.indexes@ == old(self).indexes@,
                start == old(self).columns@,
                pair_set(self.columns@) == pair_set(start).union(table_columns_upto(*t, k as int)),
            decreases t.columns.len() - k,
        {
            let f = Pair { first: t.name.clone(), second: t.columns[k].name.clone() };
            proof {
                lemma_pair_set_push(self.columns@, f);
                assert(table_columns_upto(*t, k + 1) =~= table_columns_upto(*t, k as int).insert(pair_view(f)));
                assert(pair_set(start).union(table_columns_upto(*t, k + 1)) =~= pair_set(start).union(table_columns_upto(*t, k as int)).insert(pair_view(f)));
            }
            self.columns.push(f);
            k = k + 1;
        }
    }

    /// Runs `op` guarded by introspection: the statement is issued only
    /// where its effect is not yet in place. `false` where it fails, and
    /// then nothing changes.
    pub fn apply(&mut self, op: &SchemaOp) -> (r: bool)
        ensures
            match apply_op(old(self).model(), *op) {
                Some(m) => r && final(self).model() == m,
                None => !r && final(self).model() == old(self).model(),
            },
    {
        let present = self.target_present(op);
        if should_execute(op, present) {
            self.execute(op)
        } else {
            true
        }
    }
}

} // verus!

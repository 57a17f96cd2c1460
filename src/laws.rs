//! Laws of whole units: what applying and reverting them does to a schema.
use vstd::prelude::*;

use crate::runner::lemma_apply_ops_push;
use crate::schema::{apply_op, apply_ops, SchemaModel, SchemaOp};
use crate::unit::mirrors;

verus! {

/// The `(table, column)` pair that a column addition adds.
pub open spec fn added_pair(op: SchemaOp) -> (Seq<char>, Seq<char>) {
    match op {
        SchemaOp::AddColumn { table, column } => (table@, column.name@),
        _ => (Seq::empty(), Seq::empty()),
    }
}

/// The pairs that a sequence of column additions adds.
pub open spec fn added_pairs(ops: Seq<SchemaOp>) -> Set<(Seq<char>, Seq<char>)> {
    Set::new(|p: (Seq<char>, Seq<char>)| exists|i: int| 0 <= i < ops.len() && #[trigger] added_pair(ops[i]) == p)
}

/// `ops` adds columns only, each to a table of `s` that lacks it, and no
/// two of them the same.
pub open spec fn fresh_column_additions(s: SchemaModel, ops: Seq<SchemaOp>) -> bool {
    &&& forall|i: int| 0 <= i < ops.len() ==> (#[trigger] ops[i]) is AddColumn
    &&& forall|i: int| 0 <= i < ops.len() ==> s.tables.contains((#[trigger] added_pair(ops[i])).0)
    &&& forall|i: int| 0 <= i < ops.len() ==> !s.columns.contains(#[trigger] added_pair(ops[i]))
    &&& forall|i: int, j: int| 0 <= i < ops.len() && 0 <= j < ops.len() && i != j ==> #[trigger] added_pair(ops[i]) != #[trigger] added_pair(ops[j])
}

/// Applying a unit that adds fresh columns, then its revert, gives back the
/// schema as it was; in between, exactly those columns were added.
pub proof fn lemma_column_unit_revert(s: SchemaModel, up: Seq<SchemaOp>, down: Seq<SchemaOp>)
    requires
        fresh_column_additions(s, up),
        mirrors(up, down),
    ensures
        apply_ops(s, up) == Some(SchemaModel { columns: s.columns.union(added_pairs(up)), ..s }),
        apply_ops(apply_ops(s, up)->0, down) == Some(s),
    decreases up.len(),
{
    if up.len() == 0 {
        assert(s.columns.union(added_pairs(up)) =~= s.columns);
        assert(SchemaModel { columns: s.columns.union(added_pairs(up)), ..s } == s);
    } else {
        let n = up.len();
        let init = up.drop_last();
        let a = up.last();
        let rest = down.drop_first();
        assert(init.push(a) =~= up);
        assert forall|i: int| 0 <= i < init.len() implies #[trigger] init[i] == up[i] by {}
        assert(fresh_column_additions(s, init)) by {
            assert forall|i: int, j: int| 0 <= i < init.len() && 0 <= j < init.len() && i != j implies #[trigger] added_pair(init[i]) != #[trigger] added_pair(init[j]) by {
                assert(init[i] == up[i] && init[j] == up[j]);
            }
            assert forall|i: int| 0 <= i < init.len() implies (#[trigger] init[i]) is AddColumn && s.tables.contains(added_pair(init[i]).0) && !s.columns.contains(added_pair(init[i])) by {
                assert(init[i] == up[i]);
            }
        }
        assert(mirrors(init, rest)) by {
            assert forall|i: int| 0 <= i < init.len() implies crate::unit::undoes(#[trigger] init[i], rest[init.len() - 1 - i]) by {
                assert(init[i] == up[i]);
                assert(rest[init.len() - 1 - i] == down[up.len() - 1 - i]);
            }
        }
        lemma_column_unit_revert(s, init, rest);
        let m0 = SchemaModel { columns: s.columns.union(added_pairs(init)), ..s };
        lemma_apply_ops_push(s, init, a);
        let pa = added_pair(a);
        assert(a == up[n - 1]);
        assert(!m0.columns.contains(pa)) by {
            if added_pairs(init).contains(pa) {
                let i = choose|i: int| 0 <= i < init.len() && #[trigger] added_pair(init[i]) == pa;
                assert(added_pair(up[i]) == added_pair(up[n - 1]));
            }
        }
        let m = SchemaModel { columns: m0.columns.insert(pa), ..s };
        assert(apply_op(m0, a) == Some(m));
        assert(added_pairs(up) =~= added_pairs(init).insert(pa)) by {
            assert forall|p: (Seq<char>, Seq<char>)| added_pairs(up).contains(p) implies added_pairs(init).insert(pa).contains(p) by {
                let i = choose|i: int| 0 <= i < up.len() && #[trigger] added_pair(up[i]) == p;
                if i < n - 1 {
                    assert(added_pair(init[i]) == p);
                }
            }
            assert forall|p: (Seq<char>, Seq<char>)| added_pairs(init).insert(pa).contains(p) implies added_pairs(up).contains(p) by {
                if p == pa {
                    assert(added_pair(up[n - 1]) == p);
                } else {
                    let i = choose|i: int| 0 <= i < init.len() && #[trigger] added_pair(init[i]) == p;
                    assert(added_pair(up[i]) == p);
                }
            }
        }
        assert(m.columns =~= s.columns.union(added_pairs(up)));
        // the first step of the revert drops the column added last
        assert(crate::unit::undoes(up[n - 1], down[0]));
        assert(apply_op(m, down[0]) == Some(m0)) by {
            assert(m0.columns.insert(pa).remove(pa) =~= m0.columns);
        }
        assert(apply_ops(m, down) == apply_ops(m0, rest));
    }
}

} // verus!

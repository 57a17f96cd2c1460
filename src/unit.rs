//! Migration units, ledger records and the errors of the engine.
use vstd::prelude::*;

use crate::name::name_lt;
use crate::schema::{SchemaOp, is_additive, well_authored_op};

verus! {

/// One named schema change, with the operations that apply it and those
/// that revert it.
#[derive(Debug)]
pub struct MigrationUnit {
    pub name: String,
    pub apply: Vec<SchemaOp>,
    pub revert: Vec<SchemaOp>,
}

/// A ledger row: a unit that was applied, and when.
#[derive(Debug)]
pub struct AppliedMigrationRecord {
    pub name: String,
    pub applied_at: u64,
}

/// Why a schema statement failed.
#[derive(Debug)]
pub enum DdlFailure {
    /// The statement needs a table that does not exist.
    MissingTable { table: String },
    /// The database refused the statement, for the reason given.
    Refused { message: String },
}

/// The errors of the engine. Those raised while a unit runs carry its name.
#[derive(Debug)]
pub enum MigrationError {
    /// The database cannot be reached.
    Connection { message: String },
    /// Introspection gave a result that cannot be read.
    Introspection { unit: String, message: String },
    /// A schema statement of a unit failed.
    DdlExecution { unit: String, cause: DdlFailure },
    /// Two units were registered under one name.
    DuplicateMigrationName { name: String },
}

/// The names of a sequence of units, in order.
pub open spec fn unit_names(units: Seq<MigrationUnit>) -> Seq<Seq<char>> {
    units.map_values(|u: MigrationUnit| u.name@)
}

/// Strictly ascending by name.
pub open spec fn sorted_by_name(units: Seq<MigrationUnit>) -> bool {
    forall|i: int, j: int| 0 <= i < j < units.len() ==> name_lt(#[trigger] units[i].name@, #[trigger] units[j].name@)
}

/// Each operation of `ops` only adds.
pub open spec fn all_additive(ops: Seq<SchemaOp>) -> bool {
    forall|i: int| 0 <= i < ops.len() ==> is_additive(#[trigger] ops[i])
}

/// No operation of `ops` adds a non-null column without a default.
pub open spec fn all_well_authored(ops: Seq<SchemaOp>) -> bool {
    forall|i: int| 0 <= i < ops.len() ==> well_authored_op(#[trigger] ops[i])
}

/// `b` undoes `a`: it drops the column, table or index that `a` adds.
pub open spec fn undoes(a: SchemaOp, b: SchemaOp) -> bool {
    match (a, b) {
        (SchemaOp::AddColumn { table, column }, SchemaOp::DropColumn { table: t, column: c }) =>
            table@ == t@ && column.name@ == c@,
        (SchemaOp::CreateTable(def), SchemaOp::DropTable { table }) => def.name@ == table@,
        (SchemaOp::CreateIndex(i), SchemaOp::DropIndex { table, name }) =>
            i.table@ == table@ && i.name@ == name@,
        _ => false,
    }
}

/// `down` undoes `up` step by step, last step first.
pub open spec fn mirrors(up: Seq<SchemaOp>, down: Seq<SchemaOp>) -> bool {
    &&& up.len() == down.len()
    &&& forall|i: int| 0 <= i < up.len() ==> undoes(#[trigger] up[i], down[up.len() - 1 - i])
}

} // verus!

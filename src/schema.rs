//! Declarative schema operations and the model of a schema they act on.
use vstd::prelude::*;

use crate::name::{compare_names, NameOrder};

verus! {

/// The storage type of a column_def, fixed when a unit is written.
#[derive(Clone, Copy, Debug, PartialEq, Eq, Structural)]
pub enum ColumnType {
    Boolean,
    Integer,
    BigInteger,
    Text,
    VarChar,
    Binary,
    Timestamp,
}

/// The value that existing and new rows take when none is given.
#[derive(Clone, Copy, Debug, PartialEq, Eq, Structural)]
pub enum ColumnDefault {
    Absent,
    Bool(bool),
    Int(i64),
    CurrentTimestamp,
}

/// A column definition: name, type, nullability, default and key flags.
#[derive(Clone, Debug)]
pub struct ColumnSpec {
    pub name: String,
    pub ty: ColumnType,
    pub nullable: bool,
    pub default: ColumnDefault,
    pub primary_key: bool,
    pub auto_increment: bool,
}

/// A table definition for table creation.
#[derive(Clone, Debug)]
pub struct TableSpec {
    pub name: String,
    pub columns: Vec<ColumnSpec>,
}

/// An index definition for index creation.
#[derive(Clone, Debug)]
pub struct IndexSpec {
    pub name: String,
    pub table: String,
    pub columns: Vec<String>,
    pub unique: bool,
}

/// One schema change. Each is executed only when introspection shows that
/// its effect is not yet in place.
#[derive(Clone, Debug)]
pub enum SchemaOp {
    AddColumn { table: String, column: ColumnSpec },
    DropColumn { table: String, column: String },
    CreateTable(TableSpec),
    DropTable { table: String },
    CreateIndex(IndexSpec),
    DropIndex { table: String, name: String },
}

/// The shape of a schema: its tables, its `(table, column)` pairs and its
/// `(table, index)` pairs.
pub ghost struct SchemaModel {
    pub tables: Set<Seq<char>>,
    pub columns: Set<(Seq<char>, Seq<char>)>,
    pub indexes: Set<(Seq<char>, Seq<char>)>,
}

/// The schema with nothing in it.
pub open spec fn empty_model() -> SchemaModel {
    SchemaModel { tables: Set::empty(), columns: Set::empty(), indexes: Set::empty() }
}

/// The `(table, column)` pairs that creating `t` brings.
pub open spec fn table_columns(t: TableSpec) -> Set<(Seq<char>, Seq<char>)> {
    table_columns_upto(t, t.columns@.len() as int)
}

/// The `(table, column)` pairs of the first `k` columns of `t`.
pub open spec fn table_columns_upto(t: TableSpec, k: int) -> Set<(Seq<char>, Seq<char>)> {
    Set::new(
        |p: (Seq<char>, Seq<char>)|
            p.0 == t.name@ && exists|i: int| 0 <= i < k && #[trigger] t.columns@[i].name@ == p.1,
    )
}

/// Adds, creates and nothing else.
pub open spec fn is_additive(op: SchemaOp) -> bool {
    match op {
        SchemaOp::AddColumn { .. } | SchemaOp::CreateTable(_) | SchemaOp::CreateIndex(_) => true,
        _ => false,
    }
}

/// Whether the object that `op` adds or removes is present in `s`: what
/// introspection reports before the operation.
pub open spec fn target_present(s: SchemaModel, op: SchemaOp) -> bool {
    match op {
        SchemaOp::AddColumn { table, column } => s.columns.contains((table@, column.name@)),
        SchemaOp::DropColumn { table, column } => s.columns.contains((table@, column@)),
        SchemaOp::CreateTable(t) => s.tables.contains(t.name@),
        SchemaOp::DropTable { table } => s.tables.contains(table@),
        SchemaOp::CreateIndex(i) => s.indexes.contains((i.table@, i.name@)),
        SchemaOp::DropIndex { table, name } => s.indexes.contains((table@, name@)),
    }
}

/// Whether the statement of `op` is to be issued, given what introspection
/// reported: an addition only when absent, a removal only when present.
pub open spec fn executes(op: SchemaOp, present: bool) -> bool {
    if is_additive(op) {
        !present
    } else {
        present
    }
}

/// The statement of `op` itself, run on `s`: `None` where it fails.
pub open spec fn statement_effect(s: SchemaModel, op: SchemaOp) -> Option<SchemaModel> {
    match op {
        SchemaOp::AddColumn { table, column } => if s.tables.contains(table@) {
            Some(SchemaModel { columns: s.columns.insert((table@, column.name@)), ..s })
        } else {
            None
        },
        SchemaOp::DropColumn { table, column } => Some(
            SchemaModel { columns: s.columns.remove((table@, column@)), ..s },
        ),
        SchemaOp::CreateTable(t) => Some(
            SchemaModel {
                tables: s.tables.insert(t.name@),
                columns: s.columns.union(table_columns(t)),
                ..s
            },
        ),
        SchemaOp::DropTable { table } => Some(
            SchemaModel {
                tables: s.tables.remove(table@),
                columns: s.columns.filter(|p: (Seq<char>, Seq<char>)| p.0 != table@),
                indexes: s.indexes.filter(|p: (Seq<char>, Seq<char>)| p.0 != table@),
            },
        ),
        SchemaOp::CreateIndex(i) => if s.tables.contains(i.table@) {
            Some(SchemaModel { indexes: s.indexes.insert((i.table@, i.name@)), ..s })
        } else {
            None
        },
        SchemaOp::DropIndex { table, name } => Some(
            SchemaModel { indexes: s.indexes.remove((table@, name@)), ..s },
        ),
    }
}

/// The guarded operation: introspect, then issue the statement or skip it.
pub open spec fn apply_op(s: SchemaModel, op: SchemaOp) -> Option<SchemaModel> {
    if executes(op, target_present(s, op)) {
        statement_effect(s, op)
    } else {
        Some(s)
    }
}

/// A sequence of guarded operations, stopping at the first failure.
pub open spec fn apply_ops(s: SchemaModel, ops: Seq<SchemaOp>) -> Option<SchemaModel>
    decreases ops.len(),
{
    if ops.len() == 0 {
        Some(s)
    } else {
        match apply_op(s, ops[0]) {
            Some(s1) => apply_ops(s1, ops.drop_first()),
            None => None,
        }
    }
}

/// The table that `op` acts on.
pub open spec fn op_table(op: SchemaOp) -> Seq<char> {
    match op {
        SchemaOp::AddColumn { table, .. } => table@,
        SchemaOp::DropColumn { table, .. } => table@,
        SchemaOp::CreateTable(t) => t.name@,
        SchemaOp::DropTable { table } => table@,
        SchemaOp::CreateIndex(i) => i.table@,
        SchemaOp::DropIndex { table, .. } => table@,
    }
}

/// The name of the table that `op` acts on.
pub fn table_of(op: &SchemaOp) -> (r: String)
    ensures
        r@ == op_table(*op),
{
    match op {
        SchemaOp::AddColumn { table, .. } => table.clone(),
        SchemaOp::DropColumn { table, .. } => table.clone(),
        SchemaOp::CreateTable(t) => t.name.clone(),
        SchemaOp::DropTable { table } => table.clone(),
        SchemaOp::CreateIndex(i) => i.table.clone(),
        SchemaOp::DropIndex { table, .. } => table.clone(),
    }
}

/// Decides whether the statement of `op` is to be issued, given whether
/// introspection found its target.
pub fn should_execute(op: &SchemaOp, present: bool) -> (r: bool)
    ensures
        r == executes(*op, present),
{
    match op {
        SchemaOp::AddColumn { .. } | SchemaOp::CreateTable(_) | SchemaOp::CreateIndex(_) => !present,
        _ => present,
    }
}

/// Whether `column` is among the column names that introspection listed for
/// a table.
pub fn column_exists(columns: &Vec<String>, column: &str) -> (r: bool)
    ensures
        r == exists|i: int| 0 <= i < columns@.len() && #[trigger] columns@[i]@ == column@,
{
    let mut i: usize = 0;
    while i < columns.len()
        invariant
            i <= columns@.len(),
            forall|k: int| 0 <= k < i ==> #[trigger] columns@[k]@ != column@,
        decreases columns.len() - i,
    {
        if compare_names(columns[i].as_str(), column) == NameOrder::Equal {
            return true;
        }
        i = i + 1;
    }
    false
}

/// Whether a column without a default may not be null: adding such a column
/// to a table with rows cannot succeed, so units never do it.
pub open spec fn well_authored_op(op: SchemaOp) -> bool {
    match op {
        SchemaOp::AddColumn { column, .. } => !column.nullable ==> column.default != ColumnDefault::Absent,
        _ => true,
    }
}

/// `op` adds column `name` to `table` with the given type, nullability and
/// default, outside any key.
pub open spec fn is_add_column(
    op: SchemaOp,
    table: Seq<char>,
    name: Seq<char>,
    ty: ColumnType,
    nullable: bool,
    default: ColumnDefault,
) -> bool {
    &&& op matches SchemaOp::AddColumn { table: t, column: c }
    &&& t@ == table
    &&& c.name@ == name
    &&& c.ty == ty
    &&& c.nullable == nullable
    &&& c.default == default
    &&& !c.primary_key
    &&& !c.auto_increment
}

/// `op` drops column `name` of `table`.
pub open spec fn is_drop_column(op: SchemaOp, table: Seq<char>, name: Seq<char>) -> bool {
    op matches SchemaOp::DropColumn { table: t, column: c } && t@ == table && c@ == name
}

/// `op` creates table `name` with `n` columns.
pub open spec fn is_create_table(op: SchemaOp, name: Seq<char>, n: nat) -> bool {
    op matches SchemaOp::CreateTable(t) && t.name@ == name && t.columns@.len() == n
}

/// `c` is column `name` with the given type, nullability, default and key
/// flags.
pub open spec fn is_column(
    c: ColumnSpec,
    name: Seq<char>,
    ty: ColumnType,
    nullable: bool,
    default: ColumnDefault,
    primary_key: bool,
    auto_increment: bool,
) -> bool {
    &&& c.name@ == name
    &&& c.ty == ty
    &&& c.nullable == nullable
    &&& c.default == default
    &&& c.primary_key == primary_key
    &&& c.auto_increment == auto_increment
}

/// `op` creates an index on exactly the columns `cols`, in that order.
pub open spec fn index_columns_are(op: SchemaOp, cols: Seq<Seq<char>>) -> bool {
    &&& op matches SchemaOp::CreateIndex(i)
    &&& i.columns@.len() == cols.len()
    &&& forall|k: int| 0 <= k < cols.len() ==> #[trigger] i.columns@[k]@ == cols[k]
}

/// `op` drops table `name`.
pub open spec fn is_drop_table(op: SchemaOp, name: Seq<char>) -> bool {
    op matches SchemaOp::DropTable { table } && table@ == name
}

/// `op` creates index `name` on `n` columns of `table`, unique or not.
pub open spec fn is_create_index(op: SchemaOp, table: Seq<char>, name: Seq<char>, n: nat, unique: bool) -> bool {
    &&& op matches SchemaOp::CreateIndex(i)
    &&& i.table@ == table
    &&& i.name@ == name
    &&& i.columns@.len() == n
    &&& i.unique == unique
}

/// `op` drops index `name` of `table`.
pub open spec fn is_drop_index(op: SchemaOp, table: Seq<char>, name: Seq<char>) -> bool {
    op matches SchemaOp::DropIndex { table: t, name: n } && t@ == table && n@ == name
}

/// A column definition.
pub fn column_def(name: &str, ty: ColumnType, nullable: bool, default: ColumnDefault) -> (r: ColumnSpec)
    ensures
        r.name@ == name@,
        r.ty == ty,
        r.nullable == nullable,
        r.default == default,
        !r.primary_key,
        !r.auto_increment,
{
    ColumnSpec { name: name.to_owned(), ty, nullable, default, primary_key: false, auto_increment: false }
}

/// A primary-key column definition: not null, no default.
pub fn key_column(name: &str, ty: ColumnType, auto_increment: bool) -> (r: ColumnSpec)
    ensures
        r.name@ == name@,
        r.ty == ty,
        !r.nullable,
        r.default == ColumnDefault::Absent,
        r.primary_key,
        r.auto_increment == auto_increment,
{
    ColumnSpec { name: name.to_owned(), ty, nullable: false, default: ColumnDefault::Absent, primary_key: true, auto_increment }
}

/// The operation that adds a column to `table`.
pub fn add_column(table: &str, name: &str, ty: ColumnType, nullable: bool, default: ColumnDefault) -> (r: SchemaOp)
    ensures
        is_add_column(r, table@, name@, ty, nullable, default),
{
    SchemaOp::AddColumn { table: table.to_owned(), column: column_def(name, ty, nullable, default) }
}

/// The operation that drops a column of `table`.
pub fn drop_column(table: &str, name: &str) -> (r: SchemaOp)
    ensures
        is_drop_column(r, table@, name@),
{
    SchemaOp::DropColumn { table: table.to_owned(), column: name.to_owned() }
}

/// The operation that creates table `name` with `columns`.
pub fn create_table(name: &str, columns: Vec<ColumnSpec>) -> (r: SchemaOp)
    ensures
        is_create_table(r, name@, columns@.len()),
        r matches SchemaOp::CreateTable(t) && t.columns@ == columns@,
{
    SchemaOp::CreateTable(TableSpec { name: name.to_owned(), columns })
}

/// The operation that drops table `name`.
pub fn drop_table(name: &str) -> (r: SchemaOp)
    ensures
        is_drop_table(r, name@),
{
    SchemaOp::DropTable { table: name.to_owned() }
}

/// The operation that creates index `name` on `columns` of `table`.
pub fn create_index(table: &str, name: &str, columns: Vec<String>, unique: bool) -> (r: SchemaOp)
    ensures
        is_create_index(r, table@, name@, columns@.len(), unique),
        r matches SchemaOp::CreateIndex(i) && i.columns@ == columns@,
{
    SchemaOp::CreateIndex(IndexSpec { name: name.to_owned(), table: table.to_owned(), columns, unique })
}

/// The operation that drops index `name` of `table`.
pub fn drop_index(table: &str, name: &str) -> (r: SchemaOp)
    ensures
        is_drop_index(r, table@, name@),
{
    SchemaOp::DropIndex { table: table.to_owned(), name: name.to_owned() }
}

/// Everything in `a` is in `b`.
pub open spec fn model_within(a: SchemaModel, b: SchemaModel) -> bool {
    &&& a.tables.subset_of(b.tables)
    &&& a.columns.subset_of(b.columns)
    &&& a.indexes.subset_of(b.indexes)
}

proof fn lemma_additive_op_grows(s: SchemaModel, op: SchemaOp)
    requires
        is_additive(op),
        apply_op(s, op) is Some,
    ensures
        model_within(s, apply_op(s, op)->0),
        target_present(apply_op(s, op)->0, op),
{
}

proof fn lemma_additive_ops_grow(s: SchemaModel, ops: Seq<SchemaOp>)
    requires
        forall|i: int| 0 <= i < ops.len() ==> is_additive(#[trigger] ops[i]),
        apply_ops(s, ops) is Some,
    ensures
        model_within(s, apply_ops(s, ops)->0),
        forall|i: int| 0 <= i < ops.len() ==> target_present(apply_ops(s, ops)->0, #[trigger] ops[i]),
    decreases ops.len(),
{
    if ops.len() > 0 {
        let m = apply_op(s, ops[0])->0;
        let rest = ops.drop_first();
        assert(is_additive(ops[0]));
        lemma_additive_op_grows(s, ops[0]);
        assert forall|i: int| 0 <= i < rest.len() implies is_additive(#[trigger] rest[i]) by {
            assert(rest[i] == ops[i + 1]);
        }
        lemma_additive_ops_grow(m, rest);
        let s1 = apply_ops(s, ops)->0;
        assert forall|i: int| 0 <= i < ops.len() implies target_present(s1, #[trigger] ops[i]) by {
            if i > 0 {
                assert(rest[i - 1] == ops[i]);
            }
        }
    }
}

proof fn lemma_present_ops_keep(s: SchemaModel, ops: Seq<SchemaOp>)
    requires
        forall|i: int| 0 <= i < ops.len() ==> is_additive(#[trigger] ops[i]),
        forall|i: int| 0 <= i < ops.len() ==> target_present(s, #[trigger] ops[i]),
    ensures
        apply_ops(s, ops) == Some(s),
    decreases ops.len(),
{
    if ops.len() > 0 {
        let rest = ops.drop_first();
        assert(is_additive(ops[0]) && target_present(s, ops[0]));
        assert forall|i: int| 0 <= i < rest.len() implies is_additive(#[trigger] rest[i]) && target_present(s, rest[i]) by {
            assert(rest[i] == ops[i + 1]);
        }
        lemma_present_ops_keep(s, rest);
    }
}

/// Applying operations that only add a second time, right after they
/// succeeded, changes nothing and cannot fail: every guard finds its object
/// already present.
pub proof fn lemma_additive_ops_idempotent(s: SchemaModel, ops: Seq<SchemaOp>)
    requires
        forall|i: int| 0 <= i < ops.len() ==> is_additive(#[trigger] ops[i]),
        apply_ops(s, ops) is Some,
    ensures
        apply_ops(apply_ops(s, ops)->0, ops) == apply_ops(s, ops),
{
    lemma_additive_ops_grow(s, ops);
    lemma_present_ops_keep(apply_ops(s, ops)->0, ops);
}

/// Adding a column that a table lacks, then dropping it, gives back the
/// schema as it was.
pub proof fn lemma_add_then_drop_column(s: SchemaModel, add: SchemaOp, drop: SchemaOp, table: Seq<char>, name: Seq<char>)
    requires
        add matches SchemaOp::AddColumn { table: t, column: c } && t@ == table && c.name@ == name,
        is_drop_column(drop, table, name),
        s.tables.contains(table),
        !s.columns.contains((table, name)),
    ensures
        apply_op(s, add) is Some,
        apply_op(s, add)->0.columns.contains((table, name)),
        apply_op(apply_op(s, add)->0, drop) == Some(s),
{
    let m = apply_op(s, add)->0;
    assert(m.columns.remove((table, name)) =~= s.columns);
}

} // verus!

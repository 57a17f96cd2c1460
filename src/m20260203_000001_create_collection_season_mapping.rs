//! Creates `collection_season_mapping`, which maps a collection to a season
//! of its uploader's base path, with its lookup indexes.
use vstd::prelude::*;

use crate::schema::{
    column_def, create_index, create_table, drop_index, drop_table, index_columns_are, is_column,
    is_create_index, is_create_table, is_drop_index, is_drop_table, key_column, ColumnDefault,
    ColumnSpec, ColumnType, SchemaOp, TableSpec,
};
use crate::unit::{all_additive, all_well_authored, mirrors, MigrationUnit};

verus! {

/// The table that the unit creates: every column, in order, with its type,
/// nullability, default and key flags.
pub open spec fn table_shape(t: TableSpec) -> bool {
    &&& t.name@ == "collection_season_mapping"@
    &&& t.columns@.len() == 10
    &&& is_column(t.columns@[0], "id"@, ColumnType::Integer, false, ColumnDefault::Absent, true, true)
    &&& is_column(t.columns@[1], "collection_id"@, ColumnType::Integer, false, ColumnDefault::Absent, false, false)
    &&& is_column(t.columns@[2], "up_mid"@, ColumnType::BigInteger, false, ColumnDefault::Absent, false, false)
    &&& is_column(t.columns@[3], "base_path"@, ColumnType::VarChar, false, ColumnDefault::Absent, false, false)
    &&& is_column(t.columns@[4], "pub_year"@, ColumnType::Integer, false, ColumnDefault::Absent, false, false)
    &&& is_column(t.columns@[5], "pub_quarter"@, ColumnType::Integer, false, ColumnDefault::Absent, false, false)
    &&& is_column(t.columns@[6], "season_id"@, ColumnType::Integer, false, ColumnDefault::Absent, false, false)
    &&& is_column(t.columns@[7], "reference_pubtime"@, ColumnType::Timestamp, false, ColumnDefault::Absent, false, false)
    &&& is_column(t.columns@[8], "created_at"@, ColumnType::Timestamp, false, ColumnDefault::CurrentTimestamp, false, false)
    &&& is_column(t.columns@[9], "updated_at"@, ColumnType::Timestamp, false, ColumnDefault::CurrentTimestamp, false, false)
}

/// The unit that creates the collection-to-season mapping.
#[derive(Clone, Copy, Debug)]
pub struct Migration;

impl Migration {
    /// The unit's name.
    pub fn name(&self) -> (r: String)
        ensures
            r@ == "m20260203_000001_create_collection_season_mapping"@,
    {
        "m20260203_000001_create_collection_season_mapping".to_owned()
    }

    /// Creates the table, then its indexes.
    pub fn up(&self) -> (r: Vec<SchemaOp>)
        ensures
            r@.len() == 4,
            is_create_table(r@[0], "collection_season_mapping"@, 10),
            r@[0] matches SchemaOp::CreateTable(t) && table_shape(t),
            is_create_index(r@[1], "collection_season_mapping"@, "idx_collection_season_map_collection_id"@, 1, true),
            index_columns_are(r@[1], seq!["collection_id"@]),
            is_create_index(r@[2], "collection_season_mapping"@, "idx_collection_season_map_group_quarter"@, 4, false),
            index_columns_are(r@[2], seq!["up_mid"@, "base_path"@, "pub_year"@, "pub_quarter"@]),
            is_create_index(r@[3], "collection_season_mapping"@, "idx_collection_season_map_group_season"@, 3, false),
            index_columns_are(r@[3], seq!["up_mid"@, "base_path"@, "season_id"@]),
    {
        let mut columns: Vec<ColumnSpec> = Vec::new();
        columns.push(key_column("id", ColumnType::Integer, true));
        columns.push(column_def("collection_id", ColumnType::Integer, false, ColumnDefault::Absent));
        columns.push(column_def("up_mid", ColumnType::BigInteger, false, ColumnDefault::Absent));
        columns.push(column_def("base_path", ColumnType::VarChar, false, ColumnDefault::Absent));
        columns.push(column_def("pub_year", ColumnType::Integer, false, ColumnDefault::Absent));
        columns.push(column_def("pub_quarter", ColumnType::Integer, false, ColumnDefault::Absent));
        columns.push(column_def("season_id", ColumnType::Integer, false, ColumnDefault::Absent));
        columns.push(column_def("reference_pubtime", ColumnType::Timestamp, false, ColumnDefault::Absent));
        columns.push(column_def("created_at", ColumnType::Timestamp, false, ColumnDefault::CurrentTimestamp));
        columns.push(column_def("updated_at", ColumnType::Timestamp, false, ColumnDefault::CurrentTimestamp));
        let mut r: Vec<SchemaOp> = Vec::new();
        r.push(create_table("collection_season_mapping", columns));
        let mut on: Vec<String> = Vec::new();
        on.push("collection_id".to_owned());
        r.push(create_index("collection_season_mapping", "idx_collection_season_map_collection_id", on, true));
        let mut on: Vec<String> = Vec::new();
        on.push("up_mid".to_owned());
        on.push("base_path".to_owned());
        on.push("pub_year".to_owned());
        on.push("pub_quarter".to_owned());
        r.push(create_index("collection_season_mapping", "idx_collection_season_map_group_quarter", on, false));
        let mut on: Vec<String> = Vec::new();
        on.push("up_mid".to_owned());
        on.push("base_path".to_owned());
        on.push("season_id".to_owned());
        r.push(create_index("collection_season_mapping", "idx_collection_season_map_group_season", on, false));
        r
    }

    /// Drops the indexes, last one first, then the table.
    pub fn down(&self) -> (r: Vec<SchemaOp>)
        ensures
            r@.len() == 4,
            is_drop_index(r@[0], "collection_season_mapping"@, "idx_collection_season_map_group_season"@),
            is_drop_index(r@[1], "collection_season_mapping"@, "idx_collection_season_map_group_quarter"@),
            is_drop_index(r@[2], "collection_season_mapping"@, "idx_collection_season_map_collection_id"@),
            is_drop_table(r@[3], "collection_season_mapping"@),
    {
        let mut r: Vec<SchemaOp> = Vec::new();
        r.push(drop_index("collection_season_mapping", "idx_collection_season_map_group_season"));
        r.push(drop_index("collection_season_mapping", "idx_collection_season_map_group_quarter"));
        r.push(drop_index("collection_season_mapping", "idx_collection_season_map_collection_id"));
        r.push(drop_table("collection_season_mapping"));
        r
    }

    /// The unit: only additions on apply, each undone on revert.
    pub fn unit(&self) -> (r: MigrationUnit)
        ensures
            r.name@ == "m20260203_000001_create_collection_season_mapping"@,
            all_additive(r.apply@),
            all_well_authored(r.apply@),
            mirrors(r.apply@, r.revert@),
    {
        MigrationUnit { name: self.name(), apply: self.up(), revert: self.down() }
    }
}

} // verus!

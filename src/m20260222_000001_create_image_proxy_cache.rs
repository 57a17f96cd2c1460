//! Creates `image_proxy_cache`, which keeps proxied images with their
//! expiry, and indexes on its expiry and update times.
use vstd::prelude::*;

use crate::schema::{
    column_def, create_index, create_table, drop_index, drop_table, index_columns_are, is_column,
    is_create_index, is_create_table, is_drop_index, is_drop_table, key_column, ColumnDefault,
    ColumnSpec, ColumnType, SchemaOp, TableSpec,
};
use crate::unit::{all_additive, all_well_authored, mirrors, MigrationUnit};

verus! {

/// The table that the unit creates: every column, in order, with its type,
/// nullability, default and key flags.
pub open spec fn table_shape(t: TableSpec) -> bool {
    &&& t.name@ == "image_proxy_cache"@
    &&& t.columns@.len() == 8
    &&& is_column(t.columns@[0], "cache_key"@, ColumnType::VarChar, false, ColumnDefault::Absent, true, false)
    &&& is_column(t.columns@[1], "url"@, ColumnType::Text, false, ColumnDefault::Absent, false, false)
    &&& is_column(t.columns@[2], "content_type"@, ColumnType::VarChar, false, ColumnDefault::Absent, false, false)
    &&& is_column(t.columns@[3], "image_data"@, ColumnType::Binary, false, ColumnDefault::Absent, false, false)
    &&& is_column(t.columns@[4], "etag"@, ColumnType::VarChar, false, ColumnDefault::Absent, false, false)
    &&& is_column(t.columns@[5], "cached_at_unix"@, ColumnType::BigInteger, false, ColumnDefault::Absent, false, false)
    &&& is_column(t.columns@[6], "expires_at_unix"@, ColumnType::BigInteger, false, ColumnDefault::Absent, false, false)
    &&& is_column(t.columns@[7], "updated_at_unix"@, ColumnType::BigInteger, false, ColumnDefault::Absent, false, false)
}

/// The unit that creates the image proxy cache.
#[derive(Clone, Copy, Debug)]
pub struct Migration;

impl Migration {
    /// The unit's name.
    pub fn name(&self) -> (r: String)
        ensures
            r@ == "m20260222_000001_create_image_proxy_cache"@,
    {
        "m20260222_000001_create_image_proxy_cache".to_owned()
    }

    /// Creates the table, then its indexes.
    pub fn up(&self) -> (r: Vec<SchemaOp>)
        ensures
            r@.len() == 3,
            is_create_table(r@[0], "image_proxy_cache"@, 8),
            r@[0] matches SchemaOp::CreateTable(t) && table_shape(t),
            is_create_index(r@[1], "image_proxy_cache"@, "idx_image_proxy_cache_expires_at"@, 1, false),
            index_columns_are(r@[1], seq!["expires_at_unix"@]),
            is_create_index(r@[2], "image_proxy_cache"@, "idx_image_proxy_cache_updated_at"@, 1, false),
            index_columns_are(r@[2], seq!["updated_at_unix"@]),
    {
        let mut columns: Vec<ColumnSpec> = Vec::new();
        columns.push(key_column("cache_key", ColumnType::VarChar, false));
        columns.push(column_def("url", ColumnType::Text, false, ColumnDefault::Absent));
        columns.push(column_def("content_type", ColumnType::VarChar, false, ColumnDefault::Absent));
        columns.push(column_def("image_data", ColumnType::Binary, false, ColumnDefault::Absent));
        columns.push(column_def("etag", ColumnType::VarChar, false, ColumnDefault::Absent));
        columns.push(column_def("cached_at_unix", ColumnType::BigInteger, false, ColumnDefault::Absent));
        columns.push(column_def("expires_at_unix", ColumnType::BigInteger, false, ColumnDefault::Absent));
        columns.push(column_def("updated_at_unix", ColumnType::BigInteger, false, ColumnDefault::Absent));
        let mut r: Vec<SchemaOp> = Vec::new();
        r.push(create_table("image_proxy_cache", columns));
        let mut on: Vec<String> = Vec::new();
        on.push("expires_at_unix".to_owned());
        r.push(create_index("image_proxy_cache", "idx_image_proxy_cache_expires_at", on, false));
        let mut on: Vec<String> = Vec::new();
        on.push("updated_at_unix".to_owned());
        r.push(create_index("image_proxy_cache", "idx_image_proxy_cache_updated_at", on, false));
        r
    }

    /// Drops the indexes, last one first, then the table.
    pub fn down(&self) -> (r: Vec<SchemaOp>)
        ensures
            r@.len() == 3,
            is_drop_index(r@[0], "image_proxy_cache"@, "idx_image_proxy_cache_updated_at"@),
            is_drop_index(r@[1], "image_proxy_cache"@, "idx_image_proxy_cache_expires_at"@),
            is_drop_table(r@[2], "image_proxy_cache"@),
    {
        let mut r: Vec<SchemaOp> = Vec::new();
        r.push(drop_index("image_proxy_cache", "idx_image_proxy_cache_updated_at"));
        r.push(drop_index("image_proxy_cache", "idx_image_proxy_cache_expires_at"));
        r.push(drop_table("image_proxy_cache"));
        r
    }

    /// The unit: only additions on apply, each undone on revert.
    pub fn unit(&self) -> (r: MigrationUnit)
        ensures
            r.name@ == "m20260222_000001_create_image_proxy_cache"@,
            all_additive(r.apply@),
            all_well_authored(r.apply@),
            mirrors(r.apply@, r.revert@),
    {
        MigrationUnit { name: self.name(), apply: self.up(), revert: self.down() }
    }
}

} // verus!

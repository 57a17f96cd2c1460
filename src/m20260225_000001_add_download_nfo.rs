//! Adds `download_nfo`, a non-null boolean that defaults to true, to each
//! video source table, so that sources keep writing NFO files.
use vstd::prelude::*;

use crate::schema::{
    add_column, drop_column, is_add_column, is_drop_column, ColumnDefault, ColumnType, SchemaOp,
};
use crate::unit::{all_additive, all_well_authored, mirrors, MigrationUnit};

verus! {

/// The unit that adds the NFO download switch.
#[derive(Clone, Copy, Debug)]
pub struct Migration;

impl Migration {
    /// The unit's name.
    pub fn name(&self) -> (r: String)
        ensures
            r@ == "m20260225_000001_add_download_nfo"@,
    {
        "m20260225_000001_add_download_nfo".to_owned()
    }

    /// Adds the column to `collection`, `favorite`, `submission`, `watch_later` and `video_source`, in that order.
    pub fn up(&self) -> (r: Vec<SchemaOp>)
        ensures
            r@.len() == 5,
            is_add_column(r@[0], "collection"@, "download_nfo"@, ColumnType::Boolean, false, ColumnDefault::Bool(true)),
            is_add_column(r@[1], "favorite"@, "download_nfo"@, ColumnType::Boolean, false, ColumnDefault::Bool(true)),
            is_add_column(r@[2], "submission"@, "download_nfo"@, ColumnType::Boolean, false, ColumnDefault::Bool(true)),
            is_add_column(r@[3], "watch_later"@, "download_nfo"@, ColumnType::Boolean, false, ColumnDefault::Bool(true)),
            is_add_column(r@[4], "video_source"@, "download_nfo"@, ColumnType::Boolean, false, ColumnDefault::Bool(true)),
    {
        let mut r: Vec<SchemaOp> = Vec::new();
        r.push(add_column("collection", "download_nfo", ColumnType::Boolean, false, ColumnDefault::Bool(true)));
        r.push(add_column("favorite", "download_nfo", ColumnType::Boolean, false, ColumnDefault::Bool(true)));
        r.push(add_column("submission", "download_nfo", ColumnType::Boolean, false, ColumnDefault::Bool(true)));
        r.push(add_column("watch_later", "download_nfo", ColumnType::Boolean, false, ColumnDefault::Bool(true)));
        r.push(add_column("video_source", "download_nfo", ColumnType::Boolean, false, ColumnDefault::Bool(true)));
        r
    }

    /// Drops the column from the same tables, last one first.
    pub fn down(&self) -> (r: Vec<SchemaOp>)
        ensures
            r@.len() == 5,
            is_drop_column(r@[0], "video_source"@, "download_nfo"@),
            is_drop_column(r@[1], "watch_later"@, "download_nfo"@),
            is_drop_column(r@[2], "submission"@, "download_nfo"@),
            is_drop_column(r@[3], "favorite"@, "download_nfo"@),
            is_drop_column(r@[4], "collection"@, "download_nfo"@),
    {
        let mut r: Vec<SchemaOp> = Vec::new();
        r.push(drop_column("video_source", "download_nfo"));
        r.push(drop_column("watch_later", "download_nfo"));
        r.push(drop_column("submission", "download_nfo"));
        r.push(drop_column("favorite", "download_nfo"));
        r.push(drop_column("collection", "download_nfo"));
        r
    }

    /// The unit: only additions on apply, each undone on revert.
    pub fn unit(&self) -> (r: MigrationUnit)
        ensures
            r.name@ == "m20260225_000001_add_download_nfo"@,
            all_additive(r.apply@),
            all_well_authored(r.apply@),
            mirrors(r.apply@, r.revert@),
    {
        MigrationUnit { name: self.name(), apply: self.up(), revert: self.down() }
    }
}

} // verus!

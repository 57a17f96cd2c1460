//! Adds `ai_rename_rename_parent_dir`, a non-null boolean that defaults to
//! false, to each video source table.
use vstd::prelude::*;

use crate::schema::{
    add_column, drop_column, is_add_column, is_drop_column, ColumnDefault, ColumnType, SchemaOp,
};
use crate::unit::{all_additive, all_well_authored, mirrors, MigrationUnit};

verus! {

/// The unit that adds the parent-directory renaming switch.
#[derive(Clone, Copy, Debug)]
pub struct Migration;

impl Migration {
    /// The unit's name.
    pub fn name(&self) -> (r: String)
        ensures
            r@ == "m20260202_000001_add_ai_rename_parent_dir"@,
    {
        "m20260202_000001_add_ai_rename_parent_dir".to_owned()
    }

    /// Adds the column to `favorite`, `collection`, `submission`,
    /// `watch_later` and `video_source`, in that order.
    pub fn up(&self) -> (r: Vec<SchemaOp>)
        ensures
            r@.len() == 5,
            is_add_column(r@[0], "favorite"@, "ai_rename_rename_parent_dir"@, ColumnType::Boolean, false, ColumnDefault::Bool(false)),
            is_add_column(r@[1], "collection"@, "ai_rename_rename_parent_dir"@, ColumnType::Boolean, false, ColumnDefault::Bool(false)),
            is_add_column(r@[2], "submission"@, "ai_rename_rename_parent_dir"@, ColumnType::Boolean, false, ColumnDefault::Bool(false)),
            is_add_column(r@[3], "watch_later"@, "ai_rename_rename_parent_dir"@, ColumnType::Boolean, false, ColumnDefault::Bool(false)),
            is_add_column(r@[4], "video_source"@, "ai_rename_rename_parent_dir"@, ColumnType::Boolean, false, ColumnDefault::Bool(false)),
    {
        let mut r: Vec<SchemaOp> = Vec::new();
        r.push(add_column("favorite", "ai_rename_rename_parent_dir", ColumnType::Boolean, false, ColumnDefault::Bool(false)));
        r.push(add_column("collection", "ai_rename_rename_parent_dir", ColumnType::Boolean, false, ColumnDefault::Bool(false)));
        r.push(add_column("submission", "ai_rename_rename_parent_dir", ColumnType::Boolean, false, ColumnDefault::Bool(false)));
        r.push(add_column("watch_later", "ai_rename_rename_parent_dir", ColumnType::Boolean, false, ColumnDefault::Bool(false)));
        r.push(add_column("video_source", "ai_rename_rename_parent_dir", ColumnType::Boolean, false, ColumnDefault::Bool(false)));
        r
    }

    /// Drops the column from the same tables, last one first.
    pub fn down(&self) -> (r: Vec<SchemaOp>)
        ensures
            r@.len() == 5,
            is_drop_column(r@[0], "video_source"@, "ai_rename_rename_parent_dir"@),
            is_drop_column(r@[1], "watch_later"@, "ai_rename_rename_parent_dir"@),
            is_drop_column(r@[2], "submission"@, "ai_rename_rename_parent_dir"@),
            is_drop_column(r@[3], "collection"@, "ai_rename_rename_parent_dir"@),
            is_drop_column(r@[4], "favorite"@, "ai_rename_rename_parent_dir"@),
    {
        let mut r: Vec<SchemaOp> = Vec::new();
        r.push(drop_column("video_source", "ai_rename_rename_parent_dir"));
        r.push(drop_column("watch_later", "ai_rename_rename_parent_dir"));
        r.push(drop_column("submission", "ai_rename_rename_parent_dir"));
        r.push(drop_column("collection", "ai_rename_rename_parent_dir"));
        r.push(drop_column("favorite", "ai_rename_rename_parent_dir"));
        r
    }

    /// The unit: only additions on apply, each undone on revert.
    pub fn unit(&self) -> (r: MigrationUnit)
        ensures
            r.name@ == "m20260202_000001_add_ai_rename_parent_dir"@,
            all_additive(r.apply@),
            all_well_authored(r.apply@),
            mirrors(r.apply@, r.revert@),
    {
        MigrationUnit { name: self.name(), apply: self.up(), revert: self.down() }
    }
}

} // verus!

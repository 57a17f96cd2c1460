//! Adds the submission membership state of a video and when it was checked.
use vstd::prelude::*;

use crate::schema::{
    add_column, drop_column, is_add_column, is_drop_column, ColumnDefault, ColumnType, SchemaOp,
};
use crate::unit::{all_additive, all_well_authored, mirrors, MigrationUnit};

verus! {

/// The unit that adds the submission membership columns of `video`.
#[derive(Clone, Copy, Debug)]
pub struct Migration;

impl Migration {
    /// The unit's name.
    pub fn name(&self) -> (r: String)
        ensures
            r@ == "m20260222_000002_add_video_submission_membership_state"@,
    {
        "m20260222_000002_add_video_submission_membership_state".to_owned()
    }

    /// Adds the state, a non-null integer that defaults to zero, then the nullable check time.
    pub fn up(&self) -> (r: Vec<SchemaOp>)
        ensures
            r@.len() == 2,
            is_add_column(r@[0], "video"@, "submission_membership_state"@, ColumnType::Integer, false, ColumnDefault::Int(0)),
            is_add_column(r@[1], "video"@, "submission_membership_checked_at"@, ColumnType::BigInteger, true, ColumnDefault::Absent),
    {
        let mut r: Vec<SchemaOp> = Vec::new();
        r.push(add_column("video", "submission_membership_state", ColumnType::Integer, false, ColumnDefault::Int(0)));
        r.push(add_column("video", "submission_membership_checked_at", ColumnType::BigInteger, true, ColumnDefault::Absent));
        r
    }

    /// Drops the same columns, last one first.
    pub fn down(&self) -> (r: Vec<SchemaOp>)
        ensures
            r@.len() == 2,
            is_drop_column(r@[0], "video"@, "submission_membership_checked_at"@),
            is_drop_column(r@[1], "video"@, "submission_membership_state"@),
    {
        let mut r: Vec<SchemaOp> = Vec::new();
        r.push(drop_column("video", "submission_membership_checked_at"));
        r.push(drop_column("video", "submission_membership_state"));
        r
    }

    /// The unit: only additions on apply, each undone on revert.
    pub fn unit(&self) -> (r: MigrationUnit)
        ensures
            r.name@ == "m20260222_000002_add_video_submission_membership_state"@,
            all_additive(r.apply@),
            all_well_authored(r.apply@),
            mirrors(r.apply@, r.revert@),
    {
        MigrationUnit { name: self.name(), apply: self.up(), revert: self.down() }
    }
}

} // verus!

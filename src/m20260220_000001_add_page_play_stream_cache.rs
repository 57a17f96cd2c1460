//! Adds the nullable play-stream cache columns to `page`.
use vstd::prelude::*;

use crate::schema::{
    add_column, drop_column, is_add_column, is_drop_column, ColumnDefault, ColumnType, SchemaOp,
};
use crate::unit::{all_additive, all_well_authored, mirrors, MigrationUnit};

verus! {

/// The unit that adds the play-stream cache of a page.
#[derive(Clone, Copy, Debug)]
pub struct Migration;

impl Migration {
    /// The unit's name.
    pub fn name(&self) -> (r: String)
        ensures
            r@ == "m20260220_000001_add_page_play_stream_cache"@,
    {
        "m20260220_000001_add_page_play_stream_cache".to_owned()
    }

    /// Adds the video, audio and subtitle stream columns and their update time.
    pub fn up(&self) -> (r: Vec<SchemaOp>)
        ensures
            r@.len() == 4,
            is_add_column(r@[0], "page"@, "play_video_streams"@, ColumnType::Text, true, ColumnDefault::Absent),
            is_add_column(r@[1], "page"@, "play_audio_streams"@, ColumnType::Text, true, ColumnDefault::Absent),
            is_add_column(r@[2], "page"@, "play_subtitle_streams"@, ColumnType::Text, true, ColumnDefault::Absent),
            is_add_column(r@[3], "page"@, "play_streams_updated_at"@, ColumnType::VarChar, true, ColumnDefault::Absent),
    {
        let mut r: Vec<SchemaOp> = Vec::new();
        r.push(add_column("page", "play_video_streams", ColumnType::Text, true, ColumnDefault::Absent));
        r.push(add_column("page", "play_audio_streams", ColumnType::Text, true, ColumnDefault::Absent));
        r.push(add_column("page", "play_subtitle_streams", ColumnType::Text, true, ColumnDefault::Absent));
        r.push(add_column("page", "play_streams_updated_at", ColumnType::VarChar, true, ColumnDefault::Absent));
        r
    }

    /// Drops the same columns, last one first.
    pub fn down(&self) -> (r: Vec<SchemaOp>)
        ensures
            r@.len() == 4,
            is_drop_column(r@[0], "page"@, "play_streams_updated_at"@),
            is_drop_column(r@[1], "page"@, "play_subtitle_streams"@),
            is_drop_column(r@[2], "page"@, "play_audio_streams"@),
            is_drop_column(r@[3], "page"@, "play_video_streams"@),
    {
        let mut r: Vec<SchemaOp> = Vec::new();
        r.push(drop_column("page", "play_streams_updated_at"));
        r.push(drop_column("page", "play_subtitle_streams"));
        r.push(drop_column("page", "play_audio_streams"));
        r.push(drop_column("page", "play_video_streams"));
        r
    }

    /// The unit: only additions on apply, each undone on revert.
    pub fn unit(&self) -> (r: MigrationUnit)
        ensures
            r.name@ == "m20260220_000001_add_page_play_stream_cache"@,
            all_additive(r.apply@),
            all_well_authored(r.apply@),
            mirrors(r.apply@, r.revert@),
    {
        MigrationUnit { name: self.name(), apply: self.up(), revert: self.down() }
    }
}

} // verus!

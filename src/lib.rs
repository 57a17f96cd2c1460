//! A versioned schema-migration engine.
//!
//! Migration units are declarative sequences of schema operations. Every
//! operation is guarded by introspection, so re-running a unit against a
//! database that already reflects it is harmless. The runner applies the
//! units that the ledger does not list yet, in ascending name order, and
//! records each success in the ledger.
pub mod database;
pub mod laws;
pub mod m20260202_000001_add_ai_rename_parent_dir;
pub mod m20260203_000001_create_collection_season_mapping;
pub mod m20260220_000001_add_page_play_stream_cache;
pub mod m20260222_000001_create_image_proxy_cache;
pub mod m20260222_000002_add_video_submission_membership_state;
pub mod m20260225_000001_add_download_nfo;
pub mod memory;
pub mod name;
pub mod registry;
pub mod runner;
pub mod schema;
pub mod unit;

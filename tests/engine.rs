use bili_sync_migration::database::{next_timestamp, MemoryDatabase};
use bili_sync_migration::m20260202_000001_add_ai_rename_parent_dir as add_ai_rename_parent_dir;
use bili_sync_migration::m20260203_000001_create_collection_season_mapping as create_collection_season_mapping;
use bili_sync_migration::m20260225_000001_add_download_nfo as add_download_nfo;
use bili_sync_migration::memory::MemorySchema;
use bili_sync_migration::name::{compare_names, NameOrder};
use bili_sync_migration::registry::{registered_units, Registry};
use bili_sync_migration::runner::{
    last_recorded, ledger_table, ledger_table_name, pending_units, presence_from_count, RunAction,
    RunEvent, RunPlan,
};
use bili_sync_migration::schema::{
    add_column, column_def, column_exists, create_index, create_table, drop_column, key_column,
    should_execute, table_of, ColumnDefault, ColumnType, SchemaOp,
};
use bili_sync_migration::unit::{AppliedMigrationRecord, DdlFailure, MigrationError, MigrationUnit};

fn create_items() -> SchemaOp {
    create_table("items", vec![key_column("id", ColumnType::Integer, true)])
}

fn add_note() -> SchemaOp {
    add_column("items", "note", ColumnType::Text, true, ColumnDefault::Absent)
}

fn index_note() -> SchemaOp {
    create_index("items", "idx_items_note", vec!["note".to_string()], false)
}

fn unit(name: &str, apply: Vec<SchemaOp>, revert: Vec<SchemaOp>) -> MigrationUnit {
    MigrationUnit { name: name.to_string(), apply, revert }
}

fn three_units() -> Vec<MigrationUnit> {
    vec![
        unit("0001_create_table", vec![create_items()], vec![]),
        unit("0002_add_col", vec![add_note()], vec![drop_column("items", "note")]),
        unit("0003_add_index", vec![index_note()], vec![]),
    ]
}

fn names(db: &MemoryDatabase) -> Vec<String> {
    db.ledger().iter().map(|r| r.name.clone()).collect()
}

#[test]
fn fresh_run_applies_three_then_none() {
    let registry = Registry::new(three_units()).unwrap();
    let mut db = MemoryDatabase::new();
    assert_eq!(db.run(&registry, 10).unwrap(), 3);
    assert_eq!(names(&db), vec!["0001_create_table", "0002_add_col", "0003_add_index"]);
    assert!(db.schema().has_table("items"));
    assert!(db.schema().has_column("items", "note"));
    assert!(db.schema().has_index("items", "idx_items_note"));
    assert_eq!(db.run(&registry, 20).unwrap(), 0);
    assert_eq!(db.ledger().len(), 3);
}

#[test]
fn unit_applied_twice_gives_same_schema() {
    let ops = vec![create_items(), add_note(), index_note()];
    let mut once = MemorySchema::new();
    let mut twice = MemorySchema::new();
    for op in &ops {
        assert!(once.apply(op));
        assert!(twice.apply(op));
    }
    for op in &ops {
        assert!(twice.apply(op));
    }
    assert_eq!(once.column_names("items"), twice.column_names("items"));
    assert_eq!(twice.column_names("items"), vec!["id".to_string(), "note".to_string()]);
    assert!(twice.has_index("items", "idx_items_note"));
}

#[test]
fn registry_orders_units_by_name() {
    let mut units = three_units();
    units.reverse();
    let registry = Registry::new(units).unwrap();
    let order: Vec<&str> = registry.ordered_units().iter().map(|u| u.name.as_str()).collect();
    assert_eq!(order, vec!["0001_create_table", "0002_add_col", "0003_add_index"]);
    let mut db = MemoryDatabase::new();
    assert_eq!(db.run(&registry, 1).unwrap(), 3);
    assert_eq!(names(&db), vec!["0001_create_table", "0002_add_col", "0003_add_index"]);
}

#[test]
fn duplicate_names_are_refused() {
    let units = vec![
        unit("0001_a", vec![create_items()], vec![]),
        unit("0002_b", vec![], vec![]),
        unit("0001_a", vec![add_note()], vec![]),
    ];
    match Registry::new(units) {
        Err(MigrationError::DuplicateMigrationName { name }) => assert_eq!(name, "0001_a"),
        other => panic!("unexpected: {:?}", other),
    }
}

#[test]
fn failed_unit_is_retried_alone_after_repair() {
    let units = vec![
        unit("0001_create_table", vec![create_items()], vec![]),
        unit("0002_add_elsewhere", vec![add_column("other", "flag", ColumnType::Boolean, false, ColumnDefault::Bool(false))], vec![]),
        unit("0003_add_index", vec![index_note(), add_note()], vec![]),
    ];
    let registry = Registry::new(units).unwrap();
    let mut db = MemoryDatabase::new();
    match db.run(&registry, 5) {
        Err(MigrationError::DdlExecution { unit, cause: DdlFailure::MissingTable { table } }) => {
            assert_eq!(unit, "0002_add_elsewhere");
            assert_eq!(table, "other");
        },
        other => panic!("unexpected: {:?}", other),
    }
    assert_eq!(names(&db), vec!["0001_create_table"]);
    let applied: Vec<String> = names(&db);
    assert_eq!(pending_units(registry.ordered_units(), &applied), vec![1, 2]);
    assert!(db.apply(&create_table("other", vec![])));
    assert_eq!(db.run(&registry, 6).unwrap(), 2);
    assert_eq!(names(&db), vec!["0001_create_table", "0002_add_elsewhere", "0003_add_index"]);
    assert!(db.schema().has_column("other", "flag"));
}

#[test]
fn revert_removes_added_column() {
    let registry = Registry::new(three_units()).unwrap();
    let mut db = MemoryDatabase::new();
    assert!(db.apply(&create_items()));
    let before = db.schema().column_names("items");
    let only_column = Registry::new(vec![unit("0002_add_col", vec![add_note()], vec![drop_column("items", "note")])]).unwrap();
    assert_eq!(db.run(&only_column, 1).unwrap(), 1);
    assert!(db.schema().has_column("items", "note"));
    db.revert_last(&only_column).unwrap();
    assert_eq!(db.schema().column_names("items"), before);
    assert_eq!(db.ledger().len(), 0);
    assert!(db.revert_last(&registry).is_ok());
}

#[test]
fn revert_last_takes_the_latest_unit() {
    let registry = Registry::new(three_units()).unwrap();
    let mut db = MemoryDatabase::new();
    db.run(&registry, 3).unwrap();
    db.revert_last(&Registry::new(vec![
        unit("0001_create_table", vec![], vec![]),
        unit("0003_add_index", vec![], vec![bili_sync_migration::schema::drop_index("items", "idx_items_note")]),
    ]).unwrap()).unwrap();
    assert_eq!(names(&db), vec!["0001_create_table", "0002_add_col"]);
    assert!(!db.schema().has_index("items", "idx_items_note"));
}

#[test]
fn ledger_times_never_go_back() {
    let mut db = MemoryDatabase::new();
    let first = Registry::new(vec![unit("0001_create_table", vec![create_items()], vec![])]).unwrap();
    db.run(&first, 100).unwrap();
    let registry = Registry::new(three_units()).unwrap();
    assert_eq!(db.run(&registry, 50).unwrap(), 2);
    let times: Vec<u64> = db.ledger().iter().map(|r| r.applied_at).collect();
    assert_eq!(times, vec![100, 100, 100]);
    let later = Registry::new(vec![unit("0004_more", vec![], vec![])]).unwrap();
    db.run(&later, 150).unwrap();
    assert_eq!(db.ledger()[3].applied_at, 150);
}

#[test]
fn next_timestamp_values() {
    let empty: Vec<AppliedMigrationRecord> = vec![];
    assert_eq!(next_timestamp(&empty, 7), 7);
    let one = vec![AppliedMigrationRecord { name: "a".to_string(), applied_at: 9 }];
    assert_eq!(next_timestamp(&one, 7), 9);
    assert_eq!(next_timestamp(&one, 12), 12);
}

#[test]
fn missing_index_table_fails() {
    let registry = Registry::new(vec![unit("0001_index", vec![index_note()], vec![])]).unwrap();
    let mut db = MemoryDatabase::new();
    assert!(matches!(db.run(&registry, 1), Err(MigrationError::DdlExecution { .. })));
    assert_eq!(db.ledger().len(), 0);
}

#[test]
fn registered_units_run_on_existing_sources() {
    let registry = Registry::new(registered_units()).unwrap();
    assert_eq!(registry.ordered_units().len(), 6);
    let mut db = MemoryDatabase::new();
    for t in ["favorite", "collection", "submission", "watch_later", "video_source", "page", "video"] {
        assert!(db.apply(&create_table(t, vec![])));
    }
    // a column that an administrator already added is left alone
    assert!(db.apply(&add_column("favorite", "download_nfo", ColumnType::Boolean, false, ColumnDefault::Bool(true))));
    assert_eq!(db.run(&registry, 1).unwrap(), 6);
    assert!(db.schema().has_column("video_source", "ai_rename_rename_parent_dir"));
    assert!(db.schema().has_column("favorite", "download_nfo"));
    assert!(db.schema().has_column("page", "play_streams_updated_at"));
    assert!(db.schema().has_column("video", "submission_membership_state"));
    assert!(db.schema().has_index("collection_season_mapping", "idx_collection_season_map_group_season"));
    assert!(db.schema().has_index("image_proxy_cache", "idx_image_proxy_cache_updated_at"));
    assert_eq!(db.run(&registry, 2).unwrap(), 0);
    db.revert_last(&registry).unwrap();
    assert!(!db.schema().has_column("collection", "download_nfo"));
    assert_eq!(db.ledger().len(), 5);
}

#[test]
fn unit_payloads_match_their_names() {
    let u = add_ai_rename_parent_dir::Migration.unit();
    assert_eq!(u.name, "m20260202_000001_add_ai_rename_parent_dir");
    assert_eq!(u.apply.len(), 5);
    let t = create_collection_season_mapping::Migration.up();
    match &t[0] {
        SchemaOp::CreateTable(spec) => assert_eq!(spec.columns.len(), 10),
        other => panic!("unexpected: {:?}", other),
    }
    let d = add_download_nfo::Migration.down();
    assert_eq!(table_of(&d[0]), "video_source");
}

#[test]
fn name_comparison() {
    assert_eq!(compare_names("0001_a", "0002_a"), NameOrder::Less);
    assert_eq!(compare_names("0002", "0001_zzz"), NameOrder::Greater);
    assert_eq!(compare_names("abc", "abc"), NameOrder::Equal);
    assert_eq!(compare_names("ab", "abc"), NameOrder::Less);
    assert_eq!(compare_names("", ""), NameOrder::Equal);
}

#[test]
fn column_lookup_and_guards() {
    let cols = vec!["id".to_string(), "name".to_string()];
    assert!(column_exists(&cols, "name"));
    assert!(!column_exists(&cols, "nam"));
    assert!(!column_exists(&vec![], "id"));
    assert!(should_execute(&add_note(), false));
    assert!(!should_execute(&add_note(), true));
    assert!(should_execute(&drop_column("items", "note"), true));
    assert!(!should_execute(&drop_column("items", "note"), false));
}

#[test]
fn introspection_counts() {
    assert!(presence_from_count("u", Some(1)).unwrap());
    assert!(presence_from_count("u", Some(3)).unwrap());
    assert!(!presence_from_count("u", Some(0)).unwrap());
    match presence_from_count("u", None) {
        Err(MigrationError::Introspection { unit, .. }) => assert_eq!(unit, "u"),
        other => panic!("unexpected: {:?}", other),
    }
    assert!(presence_from_count("u", Some(-1)).is_err());
}

#[test]
fn ledger_table_shape() {
    assert_eq!(ledger_table_name(), "migration_ledger");
    let mut s = MemorySchema::new();
    assert!(s.apply(&ledger_table()));
    assert!(s.apply(&ledger_table()));
    assert_eq!(s.column_names("migration_ledger"), vec!["name".to_string(), "applied_at".to_string()]);
    let c = column_def("x", ColumnType::Boolean, false, ColumnDefault::Bool(true));
    assert!(!c.primary_key);
}

#[test]
fn revert_failure_keeps_ledger_and_names_step() {
    let registry = Registry::new(vec![unit(
        "0001_create_table",
        vec![create_items()],
        vec![add_column("gone", "x", ColumnType::Integer, true, ColumnDefault::Absent)],
    )])
    .unwrap();
    let mut db = MemoryDatabase::new();
    db.run(&registry, 4).unwrap();
    match db.revert_last(&registry) {
        Err(MigrationError::DdlExecution { unit, cause: DdlFailure::MissingTable { table } }) => {
            assert_eq!(unit, "0001_create_table");
            assert_eq!(table, "gone");
        },
        other => panic!("unexpected: {:?}", other),
    }
    assert_eq!(names(&db), vec!["0001_create_table"]);
    assert!(db.schema().has_table("items"));
}

#[test]
fn second_run_keeps_rows() {
    let registry = Registry::new(three_units()).unwrap();
    let mut db = MemoryDatabase::new();
    db.run(&registry, 10).unwrap();
    let before: Vec<(String, u64)> = db.ledger().iter().map(|r| (r.name.clone(), r.applied_at)).collect();
    assert_eq!(db.run(&registry, 99).unwrap(), 0);
    let after: Vec<(String, u64)> = db.ledger().iter().map(|r| (r.name.clone(), r.applied_at)).collect();
    assert_eq!(before, after);
}

#[test]
fn last_recorded_picks_latest_in_registry() {
    let units = three_units();
    let applied = vec!["0002_add_col".to_string(), "0001_create_table".to_string()];
    assert_eq!(last_recorded(&units, &applied), Some(1));
    assert_eq!(last_recorded(&units, &vec!["other".to_string()]), None);
    assert_eq!(last_recorded(&units, &vec![]), None);
}

#[test]
fn run_plan_steps() {
    let mut plan = RunPlan::new(vec![1, 2]);
    assert_eq!(plan.action(), RunAction::Apply(1));
    plan.observe(RunEvent::Recorded);
    assert_eq!(plan.action(), RunAction::Apply(1));
    plan.observe(RunEvent::Applied);
    assert_eq!(plan.action(), RunAction::Record(1));
    plan.observe(RunEvent::Recorded);
    assert_eq!(plan.action(), RunAction::Apply(2));
    plan.observe(RunEvent::Failed);
    assert_eq!(plan.action(), RunAction::Stopped(2));
    plan.observe(RunEvent::Applied);
    assert_eq!(plan.action(), RunAction::Stopped(2));
    let mut empty = RunPlan::new(vec![]);
    assert_eq!(empty.action(), RunAction::Finished(0));
    empty.observe(RunEvent::Applied);
    assert_eq!(empty.action(), RunAction::Finished(0));
    let mut two = RunPlan::new(vec![0]);
    two.observe(RunEvent::Applied);
    two.observe(RunEvent::Recorded);
    assert_eq!(two.action(), RunAction::Finished(1));
}

#[test]
fn created_tables_have_their_columns() {
    let ops = create_collection_season_mapping::Migration.up();
    match &ops[0] {
        SchemaOp::CreateTable(t) => {
            assert_eq!(t.columns[0].name, "id");
            assert!(t.columns[0].primary_key && t.columns[0].auto_increment);
            assert_eq!(t.columns[3].ty, ColumnType::VarChar);
            assert_eq!(t.columns[9].default, ColumnDefault::CurrentTimestamp);
        },
        other => panic!("unexpected: {:?}", other),
    }
    match &ops[2] {
        SchemaOp::CreateIndex(i) => assert_eq!(i.columns, vec!["up_mid", "base_path", "pub_year", "pub_quarter"]),
        other => panic!("unexpected: {:?}", other),
    }
}

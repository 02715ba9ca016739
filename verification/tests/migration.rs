use dashmap::DashMap;
use rustlog::collections::StringSet;
use rustlog::migration::{
    insert_calls, ConfigParsing, InsertCall, MigrationStep, OldConfig, UserTablesMigration,
    CREATE_CHANNEL_TABLE, CREATE_OPT_OUT_TABLE,
};

fn s(text: &str) -> String {
    text.to_string()
}

fn parsing() -> ConfigParsing {
    let migration = UserTablesMigration { config: &() };
    let MigrationStep::Execute { sql, then } = migration.run() else {
        panic!("no statement")
    };
    assert_eq!(sql, CREATE_CHANNEL_TABLE);
    let MigrationStep::Execute { sql, then } = then.resume(Ok::<(), String>(())).unwrap() else {
        panic!("no second statement")
    };
    assert_eq!(sql, CREATE_OPT_OUT_TABLE);
    let MigrationStep::LoadConfig(then) = then.resume(Ok::<(), String>(())).unwrap() else {
        panic!("no file")
    };
    let MigrationStep::ParseConfig { text, then } = then.resume(Ok::<_, String>(s("{}"))).unwrap() else {
        panic!("no parsing")
    };
    assert_eq!(text, "{}");
    then
}

fn describe(call: &InsertCall) -> String {
    match call {
        InsertCall::OpenChannel => s("open channel"),
        InsertCall::WriteChannel { channel_id } => format!("channel {channel_id}"),
        InsertCall::OpenOptOut => s("open opt_out"),
        InsertCall::WriteOptOut { user_id, state } => format!("opt_out {user_id} {state}"),
        InsertCall::End => s("end"),
    }
}

fn run(config: OldConfig) -> Vec<String> {
    let mut calls = Vec::new();
    let mut step = parsing().resume(Ok::<_, String>(config)).unwrap();
    loop {
        step = match step {
            MigrationStep::Insert { call, then } => {
                calls.push(describe(&call));
                then.resume(Ok::<(), String>(())).unwrap()
            }
            MigrationStep::SaveConfig(then) => then.resume(Err(s("read-only"))),
            MigrationStep::Done => return calls,
            _ => panic!("unexpected step"),
        };
    }
}

#[test]
fn the_tables_are_created() {
    assert_eq!(
        CREATE_CHANNEL_TABLE.trim(),
        "CREATE TABLE IF NOT EXISTS channel\n(\n    channel_id String CODEC(ZSTD(8))\n)\nENGINE ReplacingMergeTree\nORDER BY channel_id;"
    );
    assert_eq!(
        CREATE_OPT_OUT_TABLE.trim(),
        "CREATE TABLE IF NOT EXISTS opt_out\n(\n    user_id String CODEC(ZSTD(8)),\n    state UInt8 CODEC(ZSTD(1))\n)\nENGINE ReplacingMergeTree\nORDER BY user_id;"
    );
}

#[test]
fn legacy_values_are_written() {
    let mut channels = StringSet::new();
    channels.insert(s("1"));
    channels.insert(s("2"));
    let opt_out = DashMap::new();
    opt_out.insert(s("7"), true);
    opt_out.insert(s("8"), false);
    let mut calls = run(OldConfig { channels, opt_out });
    assert_eq!(calls.len(), 8);
    calls[1..3].sort();
    calls[5..7].sort();
    assert_eq!(
        calls,
        vec![
            s("open channel"),
            s("channel 1"),
            s("channel 2"),
            s("end"),
            s("open opt_out"),
            s("opt_out 7 true"),
            s("opt_out 8 false"),
            s("end"),
        ]
    );
}

#[test]
fn nothing_is_inserted_without_legacy_values() {
    assert!(run(OldConfig { channels: StringSet::new(), opt_out: DashMap::new() }).is_empty());
    let opt_out = DashMap::new();
    opt_out.insert(s("7"), true);
    assert_eq!(
        run(OldConfig { channels: StringSet::new(), opt_out }),
        vec![s("open opt_out"), s("opt_out 7 true"), s("end")]
    );
}

#[test]
fn rows_keep_their_order() {
    let calls = insert_calls(vec![s("b"), s("a")], vec![(s("d"), false), (s("c"), true)]);
    let calls: Vec<String> = calls.iter().map(describe).collect();
    assert_eq!(
        calls,
        vec![
            s("open channel"),
            s("channel b"),
            s("channel a"),
            s("end"),
            s("open opt_out"),
            s("opt_out d false"),
            s("opt_out c true"),
            s("end"),
        ]
    );
}

#[test]
fn the_migration_stops_at_the_first_error() {
    let migration = UserTablesMigration { config: &() };
    let MigrationStep::Execute { then, .. } = migration.run() else {
        panic!("no statement")
    };
    let error = then.resume(Err(s("down"))).err().unwrap();
    assert_eq!((error.context, error.error), (None, s("down")));

    let MigrationStep::Execute { then, .. } = migration.run() else {
        panic!("no statement")
    };
    let MigrationStep::Execute { then, .. } = then.resume(Ok::<(), String>(())).unwrap() else {
        panic!("no second statement")
    };
    let MigrationStep::LoadConfig(then) = then.resume(Ok::<(), String>(())).unwrap() else {
        panic!("no file")
    };
    let error = then.resume(Err(s("missing"))).err().unwrap();
    assert_eq!(error.context, Some("Failed to load legacy config values"));
    assert_eq!(error.error, "missing");

    let error = parsing().resume(Err(s("no json"))).err().unwrap();
    assert_eq!(error.context, Some("Config deserialization error"));
    assert_eq!(error.error, "no json");

    let mut channels = StringSet::new();
    channels.insert(s("1"));
    let config = OldConfig { channels, opt_out: DashMap::new() };
    let MigrationStep::Insert { then, .. } = parsing().resume(Ok::<_, String>(config)).unwrap() else {
        panic!("no insert")
    };
    let error = then.resume(Err(s("down"))).err().unwrap();
    assert_eq!((error.context, error.error), (None, s("down")));
}

use replibyte::catalog::{Backup, IndexFile, ReadOptions};
use replibyte::config::{
    configure_bridge, plan_backup, plan_restore, Config, ConnectionUri, DestinationAdapter,
    DestinationConfig, SourceAdapter, SourceConfig,
};
use replibyte::envelope::{apply_envelope, cipher, compress, decompress, open_envelope};
use replibyte::errors::CoreError;
use replibyte::progress::ProgressMonitor;
use replibyte::report::{empty_catalog_notice, human_size, list_backups, u64_string, Listing};
use replibyte::tasks::{Bridge, FullBackupTask, FullRestoreTask};
use replibyte::transformer::{
    list_transformers, transform_value, DumpUnit, SkipRule, TransformerKind, TransformerPipeline,
    TransformerRule,
};

#[test]
fn read_from_postgres() {}

fn backup(name: &str, created_at: u64) -> Backup {
    Backup {
        directory_name: name.to_string(),
        size: 10,
        created_at,
        compressed: false,
        encrypted: false,
    }
}

fn postgres_uri() -> ConnectionUri {
    ConnectionUri::Postgres {
        host: "localhost".to_string(),
        port: 5432,
        username: "root".to_string(),
        password: "password".to_string(),
        database: "db".to_string(),
    }
}

fn mysql_uri() -> ConnectionUri {
    ConnectionUri::Mysql {
        host: "localhost".to_string(),
        port: 3306,
        username: "root".to_string(),
        password: "password".to_string(),
        database: "db".to_string(),
    }
}

fn source_config(uri: ConnectionUri) -> SourceConfig {
    SourceConfig {
        connection_uri: uri,
        compression: None,
        encryption_key: None,
        transformers: Vec::new(),
        skip: Vec::new(),
    }
}

fn destination_config(uri: ConnectionUri) -> DestinationConfig {
    DestinationConfig { connection_uri: uri, compression: None, encryption_key: None }
}

#[test]
fn compress_exact_runs() {
    let data = vec![5u8, 5, 5, 7];
    assert_eq!(compress(&data), vec![3u8, 5, 1, 7]);
}

#[test]
fn compress_long_run_is_split() {
    let data = vec![9u8; 300];
    let packed = compress(&data);
    assert_eq!(packed, vec![255u8, 9, 45, 9]);
    assert_eq!(decompress(&packed), data);
}

#[test]
fn envelope_round_trip_all_toggle_combinations() {
    let data: Vec<u8> = (0u8..=255).chain([0u8, 0, 0, 7, 7]).collect();
    let key: Option<Vec<u8>> = Some(b"secret-key".to_vec());
    let no_key: Option<Vec<u8>> = None;
    for compressed in [false, true] {
        for encrypted in [false, true] {
            let k = if encrypted { &key } else { &no_key };
            let stored = apply_envelope(&data, compressed, k);
            assert_eq!(open_envelope(&stored, compressed, k), data);
        }
    }
}

#[test]
fn cipher_is_its_own_inverse_and_scrambles() {
    let data = vec![1u8, 2, 3, 4, 5];
    let key = vec![0x5au8, 0xa5];
    let once = cipher(&data, &key);
    assert_ne!(once, data);
    assert_eq!(cipher(&once, &key), data);
}

#[test]
fn empty_catalog_shows_notice_and_no_rows() {
    let index = IndexFile { backups: Vec::new() };
    assert!(matches!(list_backups(&index, 1000), Listing::Empty));
    assert_eq!(empty_catalog_notice(), "<empty> no backups available");
}

#[test]
fn listing_orders_newest_first() {
    let index = IndexFile { backups: vec![backup("dump-100", 100), backup("dump-200", 200)] };
    match list_backups(&index, 1000) {
        Listing::Empty => panic!("two backups must list as rows"),
        Listing::Rows(rows) => {
            assert_eq!(rows.len(), 2);
            assert_eq!(rows[0].name, "dump-200");
            assert_eq!(rows[1].name, "dump-100");
        }
    }
}

#[test]
fn listing_row_contents() {
    let now: u64 = 10_000_000;
    let mut b = backup("dump-1", now - 3_600_000);
    b.size = 1500;
    b.compressed = true;
    b.encrypted = false;
    let index = IndexFile { backups: vec![b] };
    match list_backups(&index, now) {
        Listing::Empty => panic!("one backup must list as a row"),
        Listing::Rows(rows) => {
            assert_eq!(rows[0].name, "dump-1");
            assert_eq!(rows[0].size, "1.5 kB");
            assert_eq!(rows[0].when, "1 hour ago");
            assert!(rows[0].compressed);
            assert!(!rows[0].encrypted);
        }
    }
}

#[test]
fn latest_selects_newest_created_at() {
    let index = IndexFile { backups: vec![backup("dump-100", 100), backup("dump-200", 200)] };
    let idx = index.resolve_read(&ReadOptions::Latest).unwrap();
    assert_eq!(index.backups[idx].directory_name, "dump-200");
}

#[test]
fn latest_tie_breaks_by_directory_name() {
    let index = IndexFile { backups: vec![backup("dump-a", 100), backup("dump-b", 100)] };
    let idx = index.resolve_read(&ReadOptions::Latest).unwrap();
    assert_eq!(index.backups[idx].directory_name, "dump-b");
}

#[test]
fn latest_on_empty_catalog_is_an_error() {
    let index = IndexFile { backups: Vec::new() };
    let err = index.resolve_read(&ReadOptions::Latest).unwrap_err();
    assert!(matches!(err, CoreError::NoBackupsAvailable));
    assert_eq!(err.describe(), "no backups available");
}

#[test]
fn lookup_by_unknown_name_reports_the_name() {
    let index = IndexFile { backups: vec![backup("dump-100", 100)] };
    let err = index
        .resolve_read(&ReadOptions::Backup { name: "dump-9".to_string() })
        .unwrap_err();
    match &err {
        CoreError::BackupNotFound(n) => assert_eq!(n, "dump-9"),
        _ => panic!("unknown names must report BackupNotFound"),
    }
    assert_eq!(err.describe(), "backup 'dump-9' not found");
}

#[test]
fn backup_without_source_block_fails_with_missing_source() {
    let config = Config { source: None, destination: None };
    let err = plan_backup(&config, &None).unwrap_err();
    assert!(matches!(err, CoreError::MissingSource));
    assert_eq!(err.describe(), "missing <source> object in the configuration file");
}

#[test]
fn restore_without_destination_block_fails() {
    let config = Config { source: None, destination: None };
    let err = plan_restore(&config, false).unwrap_err();
    assert!(matches!(err, CoreError::MissingDestination));
    assert_eq!(
        err.describe(),
        "missing <destination> object in the configuration file"
    );
}

#[test]
fn mysql_paths_fail_as_not_implemented() {
    let config = Config {
        source: Some(source_config(mysql_uri())),
        destination: Some(destination_config(mysql_uri())),
    };
    assert!(matches!(plan_backup(&config, &None), Err(CoreError::NotImplemented)));
    assert!(matches!(plan_restore(&config, false), Err(CoreError::NotImplemented)));
}

#[test]
fn source_type_override_accepts_both_postgres_spellings() {
    let config = Config { source: Some(source_config(postgres_uri())), destination: None };
    let a = plan_backup(&config, &Some("postgres".to_string())).unwrap();
    assert!(matches!(a, SourceAdapter::PostgresStdin));
    let b = plan_backup(&config, &Some("postgresql".to_string())).unwrap();
    assert!(matches!(b, SourceAdapter::PostgresStdin));
}

#[test]
fn unrecognized_source_type_reports_the_token() {
    let config = Config { source: Some(source_config(postgres_uri())), destination: None };
    let err = plan_backup(&config, &Some("oracle".to_string())).unwrap_err();
    match &err {
        CoreError::UnrecognizedSourceType(v) => assert_eq!(v, "oracle"),
        _ => panic!("unknown source types must be rejected"),
    }
    assert_eq!(err.describe(), "source type 'oracle' not recognized");
}

#[test]
fn direct_output_restore_suppresses_progress() {
    let config = Config { source: None, destination: Some(destination_config(postgres_uri())) };
    let (adapter, progress) = plan_restore(&config, true).unwrap();
    assert!(matches!(adapter, DestinationAdapter::PostgresStdout));
    assert!(!progress);
    let (adapter, progress) = plan_restore(&config, false).unwrap();
    assert!(matches!(adapter, DestinationAdapter::Postgres));
    assert!(progress);
}

#[test]
fn masked_email_differs_and_is_never_empty() {
    let rule = TransformerRule {
        database: "app".to_string(),
        table: "users".to_string(),
        column: "email".to_string(),
        kind: TransformerKind::Mask,
    };
    let pipeline = TransformerPipeline::new(vec![rule], Vec::new());
    for value in ["john@example.com", "a", "*", "***"] {
        let unit = DumpUnit {
            database: "app".to_string(),
            table: "users".to_string(),
            column: "email".to_string(),
            value: value.to_string(),
        };
        let out = pipeline.apply_unit(&unit).expect("masked units stay in the stream");
        assert_ne!(out.value, value);
        assert!(!out.value.is_empty());
        assert_eq!(out.value, "*".repeat(value.len() + 1));
    }
}

#[test]
fn unmatched_units_pass_through_byte_identical() {
    let rule = TransformerRule {
        database: "app".to_string(),
        table: "users".to_string(),
        column: "email".to_string(),
        kind: TransformerKind::Mask,
    };
    let pipeline = TransformerPipeline::new(vec![rule], Vec::new());
    let unit = DumpUnit {
        database: "app".to_string(),
        table: "users".to_string(),
        column: "name".to_string(),
        value: "Jane".to_string(),
    };
    let out = pipeline.apply_unit(&unit).unwrap();
    assert_eq!(out.value, "Jane");
}

#[test]
fn skipped_units_are_absent_from_the_stream() {
    let skip = SkipRule {
        database: "app".to_string(),
        table: "secrets".to_string(),
        column: None,
    };
    let pipeline = TransformerPipeline::new(Vec::new(), vec![skip]);
    let kept = DumpUnit {
        database: "app".to_string(),
        table: "users".to_string(),
        column: "name".to_string(),
        value: "Jane".to_string(),
    };
    let dropped = DumpUnit {
        database: "app".to_string(),
        table: "secrets".to_string(),
        column: "token".to_string(),
        value: "SECRET-REDACTED".to_string(),
    };
    let out = pipeline.apply_stream(&vec![kept, dropped]);
    assert_eq!(out.len(), 1);
    assert_eq!(out[0].value, "Jane");
}

#[test]
fn transform_value_keep_first_char() {
    let keep = TransformerKind::KeepFirstChar;
    assert_eq!(transform_value(&keep, &"Jane".to_string()), "J");
    assert_eq!(transform_value(&keep, &"".to_string()), "");
    let redacted = TransformerKind::Redacted;
    assert_eq!(transform_value(&redacted, &"Jane".to_string()), "***");
}

#[test]
fn transformer_listing_names_every_rule() {
    let rows = list_transformers();
    assert_eq!(rows.len(), 3);
    assert_eq!(rows[0].0, "mask");
    assert_eq!(rows[1].0, "keep-first-char");
    assert_eq!(rows[2].0, "redacted");
    for (_, description) in &rows {
        assert!(!description.is_empty());
    }
}

#[test]
fn backup_task_reports_running_totals_and_catalogs_once() {
    let bridge = Bridge::new();
    let chunks = vec![vec![1u8, 2], vec![3u8], vec![4u8, 5, 6]];
    let task = FullBackupTask::new(bridge, chunks, 0);
    let (bridge, backup, events) = task.run("dump-1".to_string(), 42);
    assert_eq!(events, vec![(2, 0), (3, 0), (6, 0)]);
    for w in events.windows(2) {
        assert!(w[0].0 <= w[1].0);
    }
    assert_eq!(events.last().unwrap().0, 6);
    assert_eq!(backup.directory_name, "dump-1");
    assert_eq!(backup.created_at, 42);
    assert_eq!(bridge.index.backups.len(), 1);
}

#[test]
fn restore_returns_what_backup_wrote() {
    let mut bridge = Bridge::new();
    bridge.set_compression(true);
    bridge.set_encryption_key(Some("secret".to_string()));
    let data: Vec<u8> = b"INSERT INTO users VALUES ('Jane');".to_vec();
    let backup = bridge.write(&data, "dump-7".to_string(), 7);
    assert!(backup.compressed);
    assert!(backup.encrypted);
    let task = FullRestoreTask::new(bridge, ReadOptions::Latest);
    let (bridge, result) = task.run();
    let (restored, events) = result.unwrap();
    assert_eq!(restored, data);
    assert_eq!(events, vec![(data.len(), data.len())]);
    assert_eq!(bridge.index.backups.len(), 1);
}

#[test]
fn restore_latest_equals_restore_by_newest_name() {
    let mut bridge = Bridge::new();
    bridge.write(&vec![1u8, 1], "dump-100".to_string(), 100);
    bridge.write(&vec![2u8, 2], "dump-200".to_string(), 200);
    let by_latest = bridge.read(&ReadOptions::Latest).unwrap();
    let by_name = bridge
        .read(&ReadOptions::Backup { name: "dump-200".to_string() })
        .unwrap();
    assert_eq!(by_latest, by_name);
    assert_eq!(by_latest, vec![2u8, 2]);
}

#[test]
fn encrypted_backup_without_key_cannot_be_read() {
    let mut bridge = Bridge::new();
    bridge.set_encryption_key(Some("secret".to_string()));
    bridge.write(&vec![1u8, 2, 3], "dump-1".to_string(), 1);
    bridge.set_encryption_key(None);
    let err = bridge.read(&ReadOptions::Latest).unwrap_err();
    assert!(matches!(err, CoreError::MissingEncryptionKey));
}

#[test]
fn empty_encryption_key_disables_encryption() {
    let mut bridge = Bridge::new();
    bridge.set_encryption_key(Some("".to_string()));
    let backup = bridge.write(&vec![1u8], "dump-1".to_string(), 1);
    assert!(!backup.encrypted);
}

#[test]
fn later_config_block_wins_envelope_settings() {
    let config = Config {
        source: Some(SourceConfig {
            connection_uri: postgres_uri(),
            compression: Some(false),
            encryption_key: Some("from-source".to_string()),
            transformers: Vec::new(),
            skip: Vec::new(),
        }),
        destination: Some(DestinationConfig {
            connection_uri: postgres_uri(),
            compression: None,
            encryption_key: None,
        }),
    };
    let mut bridge = Bridge::new();
    configure_bridge(&mut bridge, &config);
    let backup = bridge.write(&vec![1u8, 1, 1], "dump-1".to_string(), 1);
    assert!(backup.compressed);
    assert!(!backup.encrypted);
}

#[test]
fn human_size_formats_each_unit() {
    assert_eq!(human_size(0), "0 B");
    assert_eq!(human_size(999), "999 B");
    assert_eq!(human_size(1500), "1.5 kB");
    assert_eq!(human_size(2_300_000), "2.3 MB");
    assert_eq!(human_size(7_000_000_000), "7.0 GB");
    assert_eq!(human_size(1_200_000_000_000), "1.2 TB");
}

#[test]
fn u64_string_writes_decimal() {
    assert_eq!(u64_string(0), "0");
    assert_eq!(u64_string(10), "10");
    assert_eq!(u64_string(1234567890), "1234567890");
}

#[test]
fn progress_monitor_switches_styles_and_tracks_values() {
    let mut monitor = ProgressMonitor::new();
    let frame = monitor.observe(Some((10, 0)));
    assert!(!frame.set_spinner && !frame.set_bar);
    assert_eq!(frame.set_length, None);
    assert_eq!(frame.position, 10);
    let frame = monitor.observe(Some((20, 100)));
    assert!(!frame.set_spinner && !frame.set_bar);
    assert_eq!(frame.set_length, Some(100));
    assert_eq!(frame.position, 20);
    let frame = monitor.observe(None);
    assert!(frame.set_bar);
    assert_eq!(frame.set_length, None);
    assert_eq!(frame.position, 20);
}

#[test]
fn decompress_ignores_trailing_lone_byte() {
    assert_eq!(decompress(&vec![2u8, 7, 9]), vec![7u8, 7]);
}

#[test]
fn transformed_stream_keeps_order_and_drops_skipped() {
    let rule = TransformerRule {
        database: "app".to_string(),
        table: "users".to_string(),
        column: "email".to_string(),
        kind: TransformerKind::Mask,
    };
    let skip = SkipRule {
        database: "app".to_string(),
        table: "users".to_string(),
        column: Some("password".to_string()),
    };
    let unit = |column: &str, value: &str| DumpUnit {
        database: "app".to_string(),
        table: "users".to_string(),
        column: column.to_string(),
        value: value.to_string(),
    };
    let pipeline = TransformerPipeline::new(vec![rule], vec![skip]);
    let out = pipeline.apply_stream(&vec![
        unit("name", "Jane"),
        unit("email", "jane@example.com"),
        unit("password", "SECRET-REDACTED"),
        unit("name", "Joe"),
    ]);
    assert_eq!(out.len(), 3);
    assert_eq!(out[0].value, "Jane");
    assert_eq!(out[1].value, "*".repeat(17));
    assert_eq!(out[2].value, "Joe");
}

#[test]
fn read_by_exact_name_picks_that_backup() {
    let mut bridge = Bridge::new();
    bridge.write(&vec![1u8, 1], "dump-100".to_string(), 100);
    bridge.write(&vec![2u8, 2], "dump-200".to_string(), 200);
    let data = bridge
        .read(&ReadOptions::Backup { name: "dump-100".to_string() })
        .unwrap();
    assert_eq!(data, vec![1u8, 1]);
}

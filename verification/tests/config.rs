use recall::config::{ClipboardConfig, Config, StorageConfig, WriterConfig};

fn vars(pairs: &[(&str, &str)]) -> Vec<(String, String)> {
    pairs.iter().map(|(k, v)| (k.to_string(), v.to_string())).collect()
}

#[test]
fn defaults_without_environment() {
    let c = Config::from_env(&[], "0.1.0");
    assert_eq!(c.app.name, "Recall");
    assert_eq!(c.app.version, "0.1.0");
    assert!(!c.app.debug);
    assert_eq!(c.clipboard.poll_interval_ms, 150);
    assert_eq!(c.clipboard.max_payload_bytes, 50 * 1024);
    assert_eq!(c.clipboard.preview_chars, 2048);
    assert_eq!(c.clipboard.preview_max_dim, 512);
    assert_eq!(c.storage.database_path, "recall.db");
    assert!(c.storage.enable_wal);
    assert_eq!(c.storage.cache_size, -64000);
    assert_eq!(c.storage.query_limit, 1000);
    assert_eq!(c.writer.batch_size, 50);
    assert_eq!(c.writer.flush_interval_ms, 200);
    assert_eq!(c.writer.max_queue_size, 10_000);
}

#[test]
fn environment_overrides() {
    let v = vars(&[
        ("CLIPBOARD_POLL_INTERVAL_MS", "+300"),
        ("CLIPBOARD_PREVIEW_MAX_DIM", "4294967296"),
        ("DATABASE_PATH", "/tmp/x.db"),
        ("DB_CACHE_SIZE_KB", "-2147483648"),
        ("DB_QUERY_LIMIT", "-5"),
        ("WRITER_BATCH_SIZE", "7"),
        ("DEBUG", "TrUe"),
    ]);
    let c = Config::from_env(&v, "2.0");
    assert_eq!(c.clipboard.poll_interval_ms, 300);
    assert_eq!(c.clipboard.preview_max_dim, 512);
    assert_eq!(c.storage.database_path, "/tmp/x.db");
    assert_eq!(c.storage.cache_size, i32::MIN);
    assert_eq!(c.storage.query_limit, 1000);
    assert_eq!(c.writer.batch_size, 7);
    assert!(c.app.debug);
}

#[test]
fn unparsable_values_fall_back() {
    let v = vars(&[
        ("CLIPBOARD_MAX_PAYLOAD_BYTES", " 12"),
        ("CLIPBOARD_PREVIEW_CHARS", ""),
        ("DB_CACHE_SIZE_KB", "-2147483649"),
        ("WRITER_FLUSH_INTERVAL_MS", "18446744073709551616"),
        ("WRITER_MAX_QUEUE_SIZE", "1_000"),
        ("DEBUG", "yes"),
    ]);
    let c = Config::from_env(&v, "1");
    assert_eq!(c.clipboard.max_payload_bytes, 50 * 1024);
    assert_eq!(c.clipboard.preview_chars, 2048);
    assert_eq!(c.storage.cache_size, -64000);
    assert_eq!(c.writer.flush_interval_ms, 200);
    assert_eq!(c.writer.max_queue_size, 10_000);
    assert!(!c.app.debug);
}

#[test]
fn first_entry_of_a_variable_wins() {
    let v = vars(&[("WRITER_BATCH_SIZE", "3"), ("WRITER_BATCH_SIZE", "4")]);
    assert_eq!(WriterConfig::from_env(&v).batch_size, 3);
    assert_eq!(
        WriterConfig::from_env(&vars(&[("WRITER_FLUSH_INTERVAL_MS", "18446744073709551615")])).flush_interval_ms,
        u64::MAX
    );
}

#[test]
fn builder_changes_only_what_is_set() {
    let c = Config::builder(&[], "1")
        .clipboard_poll_interval(10)
        .database_path("test.db".to_string())
        .writer_batch_size(2)
        .writer_flush_interval(5)
        .build();
    assert_eq!(c.clipboard.poll_interval_ms, 10);
    assert_eq!(c.clipboard.preview_chars, 2048);
    assert_eq!(c.storage.database_path, "test.db");
    assert_eq!(c.storage.cache_size, -64000);
    assert_eq!(c.writer.batch_size, 2);
    assert_eq!(c.writer.flush_interval_ms, 5);
    assert_eq!(c.writer.max_queue_size, 10_000);
}

#[test]
fn section_constructors() {
    let v = vars(&[("CLIPBOARD_POLL_INTERVAL_MS", "99"), ("DB_QUERY_LIMIT", "5")]);
    assert_eq!(ClipboardConfig::from_env(&v).poll_interval_ms, 99);
    assert_eq!(StorageConfig::from_env(&v).query_limit, 5);
}

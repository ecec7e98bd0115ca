//! Centralized configuration: every tunable value of the application in
//! one structure, with overrides taken from the process environment.
//!
//! The environment is handed in as the list of its variables, so that the
//! same environment always gives the same configuration.
use vstd::prelude::*;

use crate::digits::{decimal, lemma_parse_decimal, parse_unsigned, parse_unsigned_chars, parse_i32_spec, parse_i32_chars};
use crate::text::{chars_of, same_text, unicode_lowercase, to_lowercase_string};

verus! {

/// The value of variable `name` in `vars`: that of its first entry.
pub open spec fn env_lookup(vars: Seq<(String, String)>, name: Seq<char>) -> Option<Seq<char>>
    decreases vars.len(),
{
    if vars.len() == 0 {
        None
    } else if vars[0].0@ == name {
        Some(vars[0].1@)
    } else {
        env_lookup(vars.drop_first(), name)
    }
}

/// Variable `name` parsed as an unsigned integer no larger than `max`,
/// or `default` where it is unset or does not parse.
pub open spec fn env_unsigned_or(
    vars: Seq<(String, String)>,
    name: Seq<char>,
    max: nat,
    default: nat,
) -> nat {
    match env_lookup(vars, name) {
        Some(v) => match parse_unsigned(v, max) {
            Some(n) => n,
            None => default,
        },
        None => default,
    }
}

/// The text of variable `name`, or `default` where it is unset.
pub open spec fn env_text_or(vars: Seq<(String, String)>, name: Seq<char>, default: Seq<char>) -> Seq<char> {
    match env_lookup(vars, name) {
        Some(v) => v,
        None => default,
    }
}

/// Variable `name` parsed as an `i32`, or `default`.
pub open spec fn env_i32_or(vars: Seq<(String, String)>, name: Seq<char>, default: i32) -> i32 {
    match env_lookup(vars, name) {
        Some(v) => match parse_i32_spec(v) {
            Some(n) => n,
            None => default,
        },
        None => default,
    }
}

/// Looks up variable `name` in `vars`.
pub fn env_var<'a>(vars: &'a [(String, String)], name: &str) -> (r: Option<&'a String>)
    ensures
        match r {
            Some(v) => env_lookup(vars@, name@) == Some(v@),
            None => env_lookup(vars@, name@) is None,
        },
{
    let mut i: usize = 0;
    assert(vars@.skip(0) =~= vars@);
    while i < vars.len()
        invariant
            i <= vars@.len(),
            env_lookup(vars@, name@) == env_lookup(vars@.skip(i as int), name@),
        decreases vars@.len() - i,
    {
        let ghost rest = vars@.skip(i as int);
        assert(rest[0] == vars@[i as int]);
        assert(rest.drop_first() =~= vars@.skip(i + 1));
        if same_text(vars[i].0.as_str(), name) {
            return Some(&vars[i].1);
        }
        i = i + 1;
    }
    None
}

fn env_unsigned(vars: &[(String, String)], name: &str, max: u64, default: u64) -> (r: u64)
    requires
        default <= max,
    ensures
        r == env_unsigned_or(vars@, name@, max as nat, default as nat),
        r <= max,
{
    match env_var(vars, name) {
        Some(v) => {
            let cs = chars_of(v.as_str());
            match parse_unsigned_chars(cs.as_slice(), max) {
                Some(n) => {
                    assert(parse_unsigned(v@, max as nat) == Some(n as nat));
                    n
                },
                None => default,
            }
        },
        None => default,
    }
}

fn env_i32(vars: &[(String, String)], name: &str, default: i32) -> (r: i32)
    ensures
        r == env_i32_or(vars@, name@, default),
{
    match env_var(vars, name) {
        Some(v) => {
            let cs = chars_of(v.as_str());
            match parse_i32_chars(cs.as_slice()) {
                Some(n) => n,
                None => default,
            }
        },
        None => default,
    }
}

/// Application configuration
#[derive(Debug)]
pub struct Config {
    pub app: AppConfig,
    pub clipboard: ClipboardConfig,
    pub storage: StorageConfig,
    pub writer: WriterConfig,
}

/// Application-level configuration
#[derive(Debug)]
pub struct AppConfig {
    /// Application name
    pub name: String,
    /// Application version
    pub version: String,
    /// Enable debug logging
    pub debug: bool,
}

/// Clipboard monitoring configuration
#[derive(Debug)]
pub struct ClipboardConfig {
    /// Poll interval for clipboard changes (milliseconds)
    pub poll_interval_ms: u64,
    /// Maximum clipboard payload size (bytes)
    pub max_payload_bytes: usize,
    /// Number of characters to keep for text preview
    pub preview_chars: usize,
    /// Maximum dimension for image previews (pixels)
    pub preview_max_dim: u32,
}

/// Storage (database) configuration
#[derive(Debug)]
pub struct StorageConfig {
    /// SQLite database path (relative or absolute)
    pub database_path: String,
    /// Enable WAL mode (crash-safe)
    pub enable_wal: bool,
    /// SQLite cache size in pages (negative = KB)
    pub cache_size: i32,
    /// Query result limit (max events per query)
    pub query_limit: u32,
}

/// Event writer (batching) configuration
#[derive(Debug)]
pub struct WriterConfig {
    /// Events to batch before writing
    pub batch_size: usize,
    /// Flush interval (milliseconds)
    pub flush_interval_ms: u64,
    /// Maximum queue size before backpressure
    pub max_queue_size: usize,
}

impl ClipboardConfig {
    /// The clipboard settings that `vars` give: each variable that is set
    /// and parses overrides its default.
    pub open spec fn spec_from_env(vars: Seq<(String, String)>) -> ClipboardConfig {
        ClipboardConfig {
            poll_interval_ms: env_unsigned_or(
                vars,
                "CLIPBOARD_POLL_INTERVAL_MS"@,
                u64::MAX as nat,
                150,
            ) as u64,
            max_payload_bytes: env_unsigned_or(
                vars,
                "CLIPBOARD_MAX_PAYLOAD_BYTES"@,
                usize::MAX as nat,
                50 * 1024,
            ) as usize,
            preview_chars: env_unsigned_or(
                vars,
                "CLIPBOARD_PREVIEW_CHARS"@,
                usize::MAX as nat,
                2048,
            ) as usize,
            preview_max_dim: env_unsigned_or(
                vars,
                "CLIPBOARD_PREVIEW_MAX_DIM"@,
                u32::MAX as nat,
                512,
            ) as u32,
        }
    }

    /// Clipboard settings from the environment `vars`, with defaults of
    /// 150 ms polling, 50 KiB payloads, 2048 preview characters and
    /// 512-pixel previews.
    pub fn from_env(vars: &[(String, String)]) -> (r: ClipboardConfig)
        ensures
            r == ClipboardConfig::spec_from_env(vars@),
    {
        ClipboardConfig {
            poll_interval_ms: env_unsigned(vars, "CLIPBOARD_POLL_INTERVAL_MS", u64::MAX, 150),
            max_payload_bytes: env_unsigned(
                vars,
                "CLIPBOARD_MAX_PAYLOAD_BYTES",
                usize::MAX as u64,
                50 * 1024,
            ) as usize,
            preview_chars: env_unsigned(vars, "CLIPBOARD_PREVIEW_CHARS", usize::MAX as u64, 2048)
                as usize,
            preview_max_dim: env_unsigned(vars, "CLIPBOARD_PREVIEW_MAX_DIM", u32::MAX as u64, 512)
                as u32,
        }
    }
}

/// The first entry named `name` gives the variable's value; where no entry
/// has that name, the variable is unset.
pub proof fn law_env_lookup_first_entry(vars: Seq<(String, String)>, name: Seq<char>, i: int)
    ensures
        0 <= i < vars.len() && vars[i].0@ == name && (forall|j: int| 0 <= j < i ==> #[trigger] vars[j].0@ != name)
            ==> env_lookup(vars, name) == Some(vars[i].1@),
        (forall|j: int| 0 <= j < vars.len() ==> #[trigger] vars[j].0@ != name) ==> env_lookup(vars, name) is None,
    decreases vars.len(),
{
    if vars.len() > 0 {
        let rest = vars.drop_first();
        law_env_lookup_first_entry(rest, name, i - 1);
        if 0 < i < vars.len() && vars[i].0@ == name && (forall|j: int| 0 <= j < i ==> #[trigger] vars[j].0@ != name) {
            assert(vars[0].0@ != name);
            assert(rest[i - 1] == vars[i]);
            assert forall|j: int| 0 <= j < i - 1 implies #[trigger] rest[j].0@ != name by {
                assert(rest[j] == vars[j + 1]);
            }
        }
        if forall|j: int| 0 <= j < vars.len() ==> #[trigger] vars[j].0@ != name {
            assert(vars[0].0@ != name);
            assert forall|j: int| 0 <= j < rest.len() implies #[trigger] rest[j].0@ != name by {
                assert(rest[j] == vars[j + 1]);
            }
        }
    }
}

/// Each clipboard setting is read from its own variable: set to the decimal
/// text of a value that fits, the setting takes that value; unset, or set
/// to text that does not parse, it keeps its default (150 ms polling,
/// 51 200-byte payloads, 2048 preview characters, 512-pixel previews).
pub proof fn law_clipboard_settings_from_env(vars: Seq<(String, String)>, v: nat)
    ensures
        env_lookup(vars, "CLIPBOARD_POLL_INTERVAL_MS"@) == Some(decimal(v)) && v <= u64::MAX ==> ClipboardConfig::spec_from_env(
            vars,
        ).poll_interval_ms == v,
        env_lookup(vars, "CLIPBOARD_POLL_INTERVAL_MS"@) is None ==> ClipboardConfig::spec_from_env(vars).poll_interval_ms == 150,
        (env_lookup(vars, "CLIPBOARD_POLL_INTERVAL_MS"@) matches Some(s) && parse_unsigned(s, u64::MAX as nat) is None)
            ==> ClipboardConfig::spec_from_env(vars).poll_interval_ms == 150,
        env_lookup(vars, "CLIPBOARD_MAX_PAYLOAD_BYTES"@) == Some(decimal(v)) && v <= usize::MAX ==> ClipboardConfig::spec_from_env(
            vars,
        ).max_payload_bytes == v,
        env_lookup(vars, "CLIPBOARD_MAX_PAYLOAD_BYTES"@) is None ==> ClipboardConfig::spec_from_env(vars).max_payload_bytes == 51200,
        (env_lookup(vars, "CLIPBOARD_MAX_PAYLOAD_BYTES"@) matches Some(s) && parse_unsigned(s, usize::MAX as nat) is None)
            ==> ClipboardConfig::spec_from_env(vars).max_payload_bytes == 51200,
        env_lookup(vars, "CLIPBOARD_PREVIEW_CHARS"@) == Some(decimal(v)) && v <= usize::MAX ==> ClipboardConfig::spec_from_env(
            vars,
        ).preview_chars == v,
        env_lookup(vars, "CLIPBOARD_PREVIEW_CHARS"@) is None ==> ClipboardConfig::spec_from_env(vars).preview_chars == 2048,
        (env_lookup(vars, "CLIPBOARD_PREVIEW_CHARS"@) matches Some(s) && parse_unsigned(s, usize::MAX as nat) is None)
            ==> ClipboardConfig::spec_from_env(vars).preview_chars == 2048,
        env_lookup(vars, "CLIPBOARD_PREVIEW_MAX_DIM"@) == Some(decimal(v)) && v <= u32::MAX ==> ClipboardConfig::spec_from_env(
            vars,
        ).preview_max_dim == v,
        env_lookup(vars, "CLIPBOARD_PREVIEW_MAX_DIM"@) is None ==> ClipboardConfig::spec_from_env(vars).preview_max_dim == 512,
        (env_lookup(vars, "CLIPBOARD_PREVIEW_MAX_DIM"@) matches Some(s) && parse_unsigned(s, u32::MAX as nat) is None)
            ==> ClipboardConfig::spec_from_env(vars).preview_max_dim == 512,
{
    if env_lookup(vars, "CLIPBOARD_POLL_INTERVAL_MS"@) == Some(decimal(v)) && v <= u64::MAX {
        lemma_parse_decimal(v, u64::MAX as nat);
    }
    if env_lookup(vars, "CLIPBOARD_MAX_PAYLOAD_BYTES"@) == Some(decimal(v)) && v <= usize::MAX {
        lemma_parse_decimal(v, usize::MAX as nat);
    }
    if env_lookup(vars, "CLIPBOARD_PREVIEW_CHARS"@) == Some(decimal(v)) && v <= usize::MAX {
        lemma_parse_decimal(v, usize::MAX as nat);
    }
    if env_lookup(vars, "CLIPBOARD_PREVIEW_MAX_DIM"@) == Some(decimal(v)) && v <= u32::MAX {
        lemma_parse_decimal(v, u32::MAX as nat);
    }
}

impl StorageConfig {
    /// Storage settings from the environment `vars`, with defaults of
    /// `recall.db`, WAL on, a 64 MB cache and 1000 rows per query.
    pub fn from_env(vars: &[(String, String)]) -> (r: StorageConfig)
        ensures
            r.database_path@ == env_text_or(vars@, "DATABASE_PATH"@, "recall.db"@),
            r.enable_wal,
            r.cache_size == env_i32_or(vars@, "DB_CACHE_SIZE_KB"@, -64000i32),
            r.query_limit == env_unsigned_or(vars@, "DB_QUERY_LIMIT"@, u32::MAX as nat, 1000),
    {
        let database_path = match env_var(vars, "DATABASE_PATH") {
            Some(p) => p.clone(),
            None => String::from_str("recall.db"),
        };
        StorageConfig {
            database_path,
            enable_wal: true,
            cache_size: env_i32(vars, "DB_CACHE_SIZE_KB", -64000),
            query_limit: env_unsigned(vars, "DB_QUERY_LIMIT", u32::MAX as u64, 1000) as u32,
        }
    }
}


impl WriterConfig {
    /// Writer settings from the environment `vars`, with defaults of
    /// batches of 50, a 200 ms flush interval and a queue of 10 000.
    pub fn from_env(vars: &[(String, String)]) -> (r: WriterConfig)
        ensures
            r.batch_size == env_unsigned_or(vars@, "WRITER_BATCH_SIZE"@, usize::MAX as nat, 50),
            r.flush_interval_ms == env_unsigned_or(
                vars@,
                "WRITER_FLUSH_INTERVAL_MS"@,
                u64::MAX as nat,
                200,
            ),
            r.max_queue_size == env_unsigned_or(
                vars@,
                "WRITER_MAX_QUEUE_SIZE"@,
                usize::MAX as nat,
                10_000,
            ),
    {
        WriterConfig {
            batch_size: env_unsigned(vars, "WRITER_BATCH_SIZE", usize::MAX as u64, 50) as usize,
            flush_interval_ms: env_unsigned(vars, "WRITER_FLUSH_INTERVAL_MS", u64::MAX, 200),
            max_queue_size: env_unsigned(vars, "WRITER_MAX_QUEUE_SIZE", usize::MAX as u64, 10_000)
                as usize,
        }
    }
}

/// Whether `vars` turn debug logging on: `DEBUG` is set and lowercases to `true`.
pub open spec fn env_debug(vars: Seq<(String, String)>) -> bool {
    match env_lookup(vars, "DEBUG"@) {
        Some(v) => unicode_lowercase(v) == "true"@,
        None => false,
    }
}

impl AppConfig {
    /// The application settings: name `Recall`, the given version, and
    /// debug logging as `DEBUG` asks.
    pub fn from_env(vars: &[(String, String)], version: &str) -> (r: AppConfig)
        ensures
            r.name@ == "Recall"@,
            r.version@ == version@,
            r.debug == env_debug(vars@),
    {
        let debug = match env_var(vars, "DEBUG") {
            Some(v) => {
                let lower = to_lowercase_string(v.as_str());
                same_text(lower.as_str(), "true")
            },
            None => false,
        };
        AppConfig { name: String::from_str("Recall"), version: String::from_str(version), debug }
    }
}

impl Config {
    /// Load configuration from the environment `vars` and the defaults;
    /// `version` is the application's package version.
    pub fn from_env(vars: &[(String, String)], version: &str) -> (r: Config)
        ensures
            r.app.name@ == "Recall"@,
            r.app.version@ == version@,
            r.app.debug == env_debug(vars@),
            r.clipboard == ClipboardConfig::spec_from_env(vars@),
            r.storage.database_path@ == env_text_or(vars@, "DATABASE_PATH"@, "recall.db"@),
            r.storage.enable_wal,
            r.storage.cache_size == env_i32_or(vars@, "DB_CACHE_SIZE_KB"@, -64000i32),
            r.storage.query_limit == env_unsigned_or(
                vars@,
                "DB_QUERY_LIMIT"@,
                u32::MAX as nat,
                1000,
            ),
            r.writer.batch_size == env_unsigned_or(
                vars@,
                "WRITER_BATCH_SIZE"@,
                usize::MAX as nat,
                50,
            ),
            r.writer.flush_interval_ms == env_unsigned_or(
                vars@,
                "WRITER_FLUSH_INTERVAL_MS"@,
                u64::MAX as nat,
                200,
            ),
            r.writer.max_queue_size == env_unsigned_or(
                vars@,
                "WRITER_MAX_QUEUE_SIZE"@,
                usize::MAX as nat,
                10_000,
            ),
    {
        Config {
            app: AppConfig::from_env(vars, version),
            clipboard: ClipboardConfig::from_env(vars),
            storage: StorageConfig::from_env(vars),
            writer: WriterConfig::from_env(vars),
        }
    }

    /// A builder that starts from the configuration `from_env` gives.
    pub fn builder(vars: &[(String, String)], version: &str) -> (r: ConfigBuilder)
        ensures
            r@.app.name@ == "Recall"@,
            r@.app.version@ == version@,
            r@.app.debug == env_debug(vars@),
            r@.clipboard == ClipboardConfig::spec_from_env(vars@),
            r@.storage.database_path@ == env_text_or(vars@, "DATABASE_PATH"@, "recall.db"@),
            r@.storage.enable_wal,
            r@.storage.cache_size == env_i32_or(vars@, "DB_CACHE_SIZE_KB"@, -64000i32),
            r@.storage.query_limit == env_unsigned_or(
                vars@,
                "DB_QUERY_LIMIT"@,
                u32::MAX as nat,
                1000,
            ),
            r@.writer.batch_size == env_unsigned_or(
                vars@,
                "WRITER_BATCH_SIZE"@,
                usize::MAX as nat,
                50,
            ),
            r@.writer.flush_interval_ms == env_unsigned_or(
                vars@,
                "WRITER_FLUSH_INTERVAL_MS"@,
                u64::MAX as nat,
                200,
            ),
            r@.writer.max_queue_size == env_unsigned_or(
                vars@,
                "WRITER_MAX_QUEUE_SIZE"@,
                usize::MAX as nat,
                10_000,
            ),
    {
        ConfigBuilder { config: Config::from_env(vars, version) }
    }
}

/// Configuration builder for testing
pub struct ConfigBuilder {
    config: Config,
}

impl View for ConfigBuilder {
    type V = Config;

    /// The configuration the builder holds so far.
    closed spec fn view(&self) -> Config {
        self.config
    }
}

impl ConfigBuilder {
    /// Sets the clipboard poll interval; nothing else changes.
    pub fn clipboard_poll_interval(self, interval_ms: u64) -> (r: ConfigBuilder)
        ensures
            r@ == (Config {
                clipboard: ClipboardConfig { poll_interval_ms: interval_ms, ..self@.clipboard },
                ..self@
            }),
    {
        let mut b = self;
        b.config.clipboard.poll_interval_ms = interval_ms;
        b
    }

    /// Sets the database path; nothing else changes.
    pub fn database_path(self, path: String) -> (r: ConfigBuilder)
        ensures
            r@ == (Config { storage: StorageConfig { database_path: path, ..self@.storage }, ..self@ }),
    {
        let mut b = self;
        b.config.storage.database_path = path;
        b
    }

    /// Sets the writer batch size; nothing else changes.
    pub fn writer_batch_size(self, size: usize) -> (r: ConfigBuilder)
        ensures
            r@ == (Config { writer: WriterConfig { batch_size: size, ..self@.writer }, ..self@ }),
    {
        let mut b = self;
        b.config.writer.batch_size = size;
        b
    }

    /// Sets the writer flush interval; nothing else changes.
    pub fn writer_flush_interval(self, ms: u64) -> (r: ConfigBuilder)
        ensures
            r@ == (Config {
                writer: WriterConfig { flush_interval_ms: ms, ..self@.writer },
                ..self@
            }),
    {
        let mut b = self;
        b.config.writer.flush_interval_ms = ms;
        b
    }

    /// The configuration built so far.
    pub fn build(self) -> (r: Config)
        ensures
            r == self@,
    {
        self.config
    }
}

} // verus!

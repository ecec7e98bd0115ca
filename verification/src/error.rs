//! Errors of the application and of its storage.
use vstd::prelude::*;

verus! {

/// Unified application error type
#[derive(Debug)]
pub struct AppError {
    pub code: String,
    pub message: String,
    pub details: Option<String>,
}

impl AppError {
    /// How the error reads: `code: message`, followed by ` (details)`
    /// where there are details.
    pub open spec fn text(&self) -> Seq<char> {
        self.code@ + ": "@ + self.message@ + match self.details {
            Some(d) => " ("@ + d@ + ")"@,
            None => Seq::empty(),
        }
    }

    /// The error as text, as its `Display` writes it.
    pub fn to_string(&self) -> (r: String)
        ensures
            r@ == self.text(),
    {
        let mut s = self.code.clone();
        s.append(": ");
        s.append(self.message.as_str());
        match &self.details {
            Some(d) => {
                s.append(" (");
                s.append(d.as_str());
                s.append(")");
            },
            None => {},
        }
        s
    }

    /// An error with the given code, message and details.
    pub fn new(code: &str, message: &str, details: Option<String>) -> (r: AppError)
        ensures
            r.code@ == code@,
            r.message@ == message@,
            r.details == details,
    {
        AppError { code: String::from_str(code), message: String::from_str(message), details }
    }
}

/// Storage-related errors, each with the text of its cause.
#[derive(Debug)]
pub enum StorageError {
    DatabaseError(String),
    SerializationError(String),
    IoError(String),
    PcapError(String),
    SchemaError(String),
    EventInsertionError(String),
}

impl StorageError {
    /// How the error reads.
    pub open spec fn text(&self) -> Seq<char> {
        match self {
            StorageError::DatabaseError(m) => "Database error: "@ + m@,
            StorageError::SerializationError(m) => "Serialization error: "@ + m@,
            StorageError::IoError(m) => "IO error: "@ + m@,
            StorageError::PcapError(m) => "PCAP error: "@ + m@,
            StorageError::SchemaError(m) => "Schema initialization failed: "@ + m@,
            StorageError::EventInsertionError(m) => "Event insertion failed: "@ + m@,
        }
    }

    /// The error as text.
    pub fn to_string(&self) -> (r: String)
        ensures
            r@ == self.text(),
    {
        let (prefix, m) = match self {
            StorageError::DatabaseError(m) => ("Database error: ", m),
            StorageError::SerializationError(m) => ("Serialization error: ", m),
            StorageError::IoError(m) => ("IO error: ", m),
            StorageError::PcapError(m) => ("PCAP error: ", m),
            StorageError::SchemaError(m) => ("Schema initialization failed: ", m),
            StorageError::EventInsertionError(m) => ("Event insertion failed: ", m),
        };
        let mut s = String::from_str(prefix);
        s.append(m.as_str());
        s
    }

    /// The code, message and details that the application reports for
    /// this storage error.
    pub open spec fn report(&self) -> (Seq<char>, Seq<char>, Seq<char>) {
        match self {
            StorageError::DatabaseError(m) => ("DB_ERROR"@, "Database operation failed"@, m@),
            StorageError::SerializationError(m) => (
                "SERIALIZATION_ERROR"@,
                "Failed to serialize/deserialize data"@,
                m@,
            ),
            StorageError::IoError(m) => ("IO_ERROR"@, "IO operation failed"@, m@),
            StorageError::PcapError(m) => ("PCAP_ERROR"@, "PCAP operation failed"@, m@),
            StorageError::SchemaError(m) => ("SCHEMA_ERROR"@, "Schema initialization failed"@, m@),
            StorageError::EventInsertionError(m) => ("INSERT_ERROR"@, "Failed to insert event"@, m@),
        }
    }
}

impl From<StorageError> for AppError {
    /// The application error that reports a storage error: its code and
    /// message by kind, and the cause's text as details.
    fn from(err: StorageError) -> (r: AppError)
        ensures
            r.code@ == err.report().0,
            r.message@ == err.report().1,
            r.details matches Some(d) && d@ == err.report().2,
    {
        let (code, message, details) = match err {
            StorageError::DatabaseError(m) => ("DB_ERROR", "Database operation failed", m),
            StorageError::SerializationError(m) => (
                "SERIALIZATION_ERROR",
                "Failed to serialize/deserialize data",
                m,
            ),
            StorageError::IoError(m) => ("IO_ERROR", "IO operation failed", m),
            StorageError::PcapError(m) => ("PCAP_ERROR", "PCAP operation failed", m),
            StorageError::SchemaError(m) => ("SCHEMA_ERROR", "Schema initialization failed", m),
            StorageError::EventInsertionError(m) => ("INSERT_ERROR", "Failed to insert event", m),
        };
        AppError::new(code, message, Some(details))
    }
}

/// The result of `from` cannot be written as a spec value (its text fields
/// are `String`s), so `from` states it in its own `ensures` instead.
impl vstd::std_specs::convert::FromSpecImpl<StorageError> for AppError {
    open spec fn obeys_from_spec() -> bool {
        false
    }

    open spec fn from_spec(err: StorageError) -> AppError {
        arbitrary()
    }
}

} // verus!

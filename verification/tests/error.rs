use recall::error::{AppError, StorageError};
use recall::writer::{queue_rejection_error, QueueRejection};

#[test]
fn test_app_error_display() {
    let err = AppError {
        code: "TEST".to_string(),
        message: "msg".to_string(),
        details: None,
    };
    assert_eq!(err.to_string(), "TEST: msg");
}

#[test]
fn app_error_display_with_details() {
    let err = AppError {
        code: "TEST_ERROR".to_string(),
        message: "Test message".to_string(),
        details: Some("Test details".to_string()),
    };
    assert_eq!(err.to_string(), "TEST_ERROR: Test message (Test details)");
}

fn report(e: StorageError) -> (String, String, Option<String>) {
    let a = AppError::from(e);
    (a.code, a.message, a.details)
}

#[test]
fn storage_errors_map_to_app_errors() {
    assert_eq!(
        report(StorageError::DatabaseError("locked".to_string())),
        ("DB_ERROR".to_string(), "Database operation failed".to_string(), Some("locked".to_string()))
    );
    assert_eq!(
        report(StorageError::SerializationError("bad".to_string())).0,
        "SERIALIZATION_ERROR"
    );
    assert_eq!(report(StorageError::IoError("io".to_string())).1, "IO operation failed");
    assert_eq!(report(StorageError::PcapError("p".to_string())).0, "PCAP_ERROR");
    assert_eq!(
        report(StorageError::SchemaError("s".to_string())),
        ("SCHEMA_ERROR".to_string(), "Schema initialization failed".to_string(), Some("s".to_string()))
    );
    assert_eq!(
        report(StorageError::EventInsertionError("i".to_string())),
        ("INSERT_ERROR".to_string(), "Failed to insert event".to_string(), Some("i".to_string()))
    );
}

#[test]
fn storage_error_text() {
    assert_eq!(StorageError::DatabaseError("x".to_string()).to_string(), "Database error: x");
    assert_eq!(
        StorageError::EventInsertionError("y".to_string()).to_string(),
        "Event insertion failed: y"
    );
    assert_eq!(StorageError::SchemaError("z".to_string()).to_string(), "Schema initialization failed: z");
}

#[test]
fn queue_rejections_name_the_event() {
    assert_eq!(
        queue_rejection_error(QueueRejection::QueueFull, "e1").to_string(),
        "Event insertion failed: Event queue full, dropped event e1"
    );
    assert_eq!(
        queue_rejection_error(QueueRejection::ChannelClosed, "e2").to_string(),
        "Event insertion failed: Failed to queue event e2: channel closed"
    );
    assert_eq!(
        queue_rejection_error(QueueRejection::WriterClosed, "e3").to_string(),
        "Event insertion failed: Event writer channel closed"
    );
}

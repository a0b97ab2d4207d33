use prompts_cli::AppError;

#[test]
fn each_kind_has_its_heading() {
    assert_eq!(AppError::Io("disk full".to_string()).message(), "I/O error: disk full");
    assert_eq!(
        AppError::Json("expected value".to_string()).message(),
        "JSON serialization/deserialization error: expected value"
    );
    assert_eq!(
        AppError::Config("missing field".to_string()).message(),
        "Configuration error: missing field"
    );
    assert_eq!(
        AppError::Storage("Invalid storage type".to_string()).message(),
        "Storage error: Invalid storage type"
    );
    assert_eq!(
        AppError::Anyhow("Could not find config directory".to_string()).message(),
        "An unexpected error occurred: Could not find config directory"
    );
    assert_eq!(AppError::Io(String::new()).message(), "I/O error: ");
}

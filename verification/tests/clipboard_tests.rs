use translator::clipboard::ClipboardError;

#[test]
fn test_clipboard_error_display() {
    let error = ClipboardError::from("Test error".to_string());
    assert_eq!(error.display_string(), "Test error");
}

#[test]
fn test_clipboard_error_debug() {
    let error = ClipboardError::from("Test error".to_string());
    assert_eq!(error.debug_string(), "ClipboardError(Test error)");
}

#[test]
fn test_clipboard_error_trait() {
    let error = ClipboardError::from("Test error".to_string());
    assert_eq!(error.message, "Test error");
}

use md_translate::error::MdTranslateError;

#[test]
fn test_ollama_error_display() {
    let err = MdTranslateError::OllamaError("timeout".to_string());
    assert_eq!(err.message(), "Ollama API error: timeout");
}

#[test]
fn test_cache_error_display() {
    let err = MdTranslateError::CacheError("invalid checksum".to_string());
    assert!(err.message().contains("Cache error"));
}

#[test]
fn test_markdown_error_display() {
    let err = MdTranslateError::MarkdownError("parse failure".to_string());
    assert!(err.message().contains("Markdown parsing error"));
}

#[test]
fn test_network_error_display() {
    let err = MdTranslateError::OllamaError("Network timeout".to_string());
    let display = err.message();
    assert!(display.contains("Ollama API error"));
    assert!(display.contains("Network timeout"));
}

#[test]
fn error_messages_name_each_kind() {
    assert_eq!(MdTranslateError::IoError("x".to_string()).message(), "IO error: x");
    assert_eq!(MdTranslateError::NetworkError("y".to_string()).message(), "Network error: y");
    assert_eq!(MdTranslateError::SerdeError("z".to_string()).message(), "Serialization error: z");
    assert_eq!(MdTranslateError::CacheError("c".to_string()).message(), "Cache error: c");
    assert_eq!(
        MdTranslateError::MarkdownError("m".to_string()).message(),
        "Markdown parsing error: m"
    );
}

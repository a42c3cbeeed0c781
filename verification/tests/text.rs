use prek_sarif::error::SarifError;
use prek_sarif::text::{has_prefix, has_suffix, is_blank, joined, same_text, strip_prefix};

#[test]
fn blank_bytes() {
    assert!(is_blank(b""));
    assert!(is_blank(b" \t\r\n\x0c"));
    assert!(!is_blank(b" a "));
    assert!(!is_blank(b"\x0b"));
}

#[test]
fn text_comparisons() {
    assert!(same_text("abc", "abc"));
    assert!(!same_text("abc", "abd"));
    assert!(!same_text("ab", "abc"));
    assert!(has_suffix("tool.nim", ".nim"));
    assert!(!has_suffix("nim", ".nim"));
    assert!(has_prefix("embedded://x", "embedded://"));
    assert!(!has_prefix("embed", "embedded://"));
    assert_eq!(strip_prefix("héllo", "h"), Some("éllo".to_string()));
    assert_eq!(strip_prefix("héllo", "x"), None);
    assert_eq!(joined("a", "é"), "aé");
}

#[test]
fn error_messages() {
    assert_eq!(
        SarifError::EmptyAdaptor.message(),
        "Adaptor YAML must specify either `flags` or `binary`"
    );
    assert_eq!(
        SarifError::NotSarif.message(),
        "Output is not SARIF: missing `runs` array"
    );
    assert_eq!(SarifError::InvalidJson("eof".to_string()).message(), "eof");
    assert_eq!(
        SarifError::EmbeddedYaml {
            hook_id: "h".to_string(),
            detail: "d".to_string()
        }
        .message(),
        "Failed to parse embedded adaptor yaml for `h`"
    );
}

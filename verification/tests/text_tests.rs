use drova_launcher::text::eq_ignore_ascii_case;
use drova_launcher::text::str_eq;
use drova_launcher::text::trim_str;
use drova_launcher::text::truncate_chars;
use drova_launcher::text::unwrap_outer_quotes;

#[test]
fn test_truncate_chars_unicode_safe() {
    let text = "Оставьте позади руины московского метро";
    let truncated = truncate_chars(text, 10);
    assert_eq!(truncated.chars().count(), 10);
    assert!(text.starts_with(&truncated));
}

#[test]
fn test_truncate_chars_exact() {
    assert_eq!(truncate_chars("Оставьте позади", 8), "Оставьте");
    assert_eq!(truncate_chars("short", 100), "short");
    assert_eq!(truncate_chars("", 5), "");
    assert_eq!(truncate_chars("abcdef", 0), "");
}

#[test]
fn test_str_eq() {
    assert!(str_eq("рабочий стол", "рабочий стол"));
    assert!(!str_eq("desktop", "desktop2"));
    assert!(!str_eq("Desktop", "desktop"));
    assert!(str_eq("", ""));
}

#[test]
fn test_eq_ignore_ascii_case() {
    assert!(eq_ignore_ascii_case("ready", "READY"));
    assert!(eq_ignore_ascii_case("ReAdY", "rEaDy"));
    assert!(!eq_ignore_ascii_case("READY", "READY "));
    assert!(!eq_ignore_ascii_case("NOT_READY", "READY"));
}

#[test]
fn test_trim_str() {
    assert_eq!(trim_str("  -fullscreen \t"), "-fullscreen");
    assert_eq!(trim_str("   \t "), "");
    assert_eq!(trim_str("no-space"), "no-space");
}

#[test]
fn test_unwrap_outer_quotes() {
    assert_eq!(unwrap_outer_quotes("\"-custom -x\""), "-custom -x");
    assert_eq!(unwrap_outer_quotes("'-custom'"), "-custom");
    assert_eq!(unwrap_outer_quotes("-custom"), "-custom");
    assert_eq!(unwrap_outer_quotes("\"half"), "\"half");
    assert_eq!(unwrap_outer_quotes("\"mixed'"), "\"mixed'");
    assert_eq!(unwrap_outer_quotes("\""), "\"");
    assert_eq!(unwrap_outer_quotes("\"\""), "");
}

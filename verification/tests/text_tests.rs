use quizlet_anki_export::get_help_message;
use quizlet_anki_export::stealth_user_agent;
use quizlet_anki_export::text::{derive_filename, ends_with_str, trim_str};

#[test]
fn trim_removes_surrounding_whitespace() {
    assert_eq!(trim_str("  French Basics \t\n"), "French Basics");
    assert_eq!(trim_str("untouched"), "untouched");
    assert_eq!(trim_str("   "), "");
    assert_eq!(trim_str(""), "");
    assert_eq!(trim_str(" inner  space kept "), "inner  space kept");
}

#[test]
fn ends_with_matches_suffixes() {
    assert!(ends_with_str("name.apkg", ".apkg"));
    assert!(!ends_with_str("name.apk", ".apkg"));
    assert!(!ends_with_str("g", ".apkg"));
    assert!(ends_with_str(".apkg", ".apkg"));
}

#[test]
fn filename_from_suffixed_title() {
    assert_eq!(
        derive_filename("French Basics Flashcards | Quizlet", None),
        "French Basics.apkg"
    );
}

#[test]
fn filename_from_plain_title() {
    assert_eq!(derive_filename("My Set", None), "My Set.apkg");
}

#[test]
fn filename_from_explicit_output() {
    assert_eq!(derive_filename("ignored", Some("chosen".to_string())), "chosen.apkg");
    assert_eq!(
        derive_filename("ignored", Some("chosen.apkg".to_string())),
        "chosen.apkg"
    );
}

#[test]
fn help_message_names_the_program() {
    assert_eq!(
        get_help_message(),
        "Usage: ./quizlet-anki-export <Quizlet-Url> <(Output-File.apkg)>"
    );
}

#[test]
fn user_agent_is_browser_like() {
    assert!(stealth_user_agent().starts_with("Mozilla/5.0"));
}

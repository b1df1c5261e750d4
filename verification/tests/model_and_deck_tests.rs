use quizlet_anki_export::deck::{assemble, AssemblyError};
use quizlet_anki_export::extract::extract_document;
use quizlet_anki_export::model::{DocModel, ExtractionError, Field, TermEntry, TermPair};
use quizlet_anki_export::package::build_package;

fn pair(term: &str, definition: &str) -> TermPair {
    TermPair { term: term.to_string(), definition: definition.to_string() }
}

fn entry(small: Field, large: Field) -> TermEntry {
    TermEntry { small, large }
}

fn text(s: &str) -> Field {
    Field::Text(s.to_string())
}

#[test]
fn document_model_two_entries() {
    let doc = DocModel {
        title: Some("French Basics Flashcards | Quizlet".to_string()),
        primary: Some(vec![
            entry(text("Bonjour"), text("Hello")),
            entry(text("Merci"), text("Thanks")),
        ]),
        fallback: None,
    };
    let (pairs, title) = extract_document(&doc).unwrap();
    assert_eq!(pairs, vec![pair("Bonjour", "Hello"), pair("Merci", "Thanks")]);
    assert_eq!(title, "French Basics Flashcards | Quizlet");
}

#[test]
fn document_model_missing_section() {
    let doc = DocModel {
        title: Some("Set".to_string()),
        primary: None,
        fallback: Some(vec![Some("A".to_string()), Some("1".to_string())]),
    };
    assert_eq!(extract_document(&doc), Err(ExtractionError::MissingSection));
}

#[test]
fn document_model_missing_small_side() {
    let doc = DocModel {
        title: Some("Set".to_string()),
        primary: Some(vec![entry(Field::Missing, text("Hello"))]),
        fallback: None,
    };
    assert_eq!(extract_document(&doc), Err(ExtractionError::MissingTermField));
}

#[test]
fn document_model_empty_small_text() {
    let doc = DocModel {
        title: Some("Set".to_string()),
        primary: Some(vec![entry(Field::NoText, text("Hello"))]),
        fallback: None,
    };
    assert_eq!(extract_document(&doc), Err(ExtractionError::EmptyFieldText));
}

#[test]
fn document_model_first_error_wins() {
    let doc = DocModel {
        title: Some("Set".to_string()),
        primary: Some(vec![
            entry(text("ok"), text("fine")),
            entry(text("x"), Field::Missing),
            entry(Field::Missing, Field::Missing),
        ]),
        fallback: None,
    };
    assert_eq!(extract_document(&doc), Err(ExtractionError::MissingDefinitionField));
}

#[test]
fn document_model_odd_fallback() {
    let doc = DocModel {
        title: Some("Set".to_string()),
        primary: Some(vec![]),
        fallback: Some(vec![
            Some("A".to_string()),
            Some("1".to_string()),
            Some("C".to_string()),
        ]),
    };
    let (pairs, _) = extract_document(&doc).unwrap();
    assert_eq!(pairs, vec![pair("A", "1")]);
}

#[test]
fn document_model_missing_title() {
    let doc = DocModel { title: None, primary: Some(vec![]), fallback: None };
    assert_eq!(extract_document(&doc), Err(ExtractionError::MissingTitle));
}

#[test]
fn assemble_round_trip() {
    let pairs = vec![pair("Bonjour", "Hello"), pair("Merci", "Thanks")];
    let deck = assemble(42, "French", "desc", &pairs).unwrap();
    assert_eq!(deck.id, 42);
    assert_eq!(deck.title, "French");
    assert_eq!(deck.description, "desc");
    assert_eq!(deck.cards.len(), 2);
    assert_eq!(deck.cards[0].front, "Bonjour");
    assert_eq!(deck.cards[0].back, "Hello");
    assert_eq!(deck.cards[1].front, "Merci");
    assert_eq!(deck.cards[1].back, "Thanks");

    let again = assemble(7, "French", "desc", &pairs).unwrap();
    assert_eq!(again.cards.len(), deck.cards.len());
    assert_eq!(again.cards[0].front, deck.cards[0].front);
    assert_eq!(again.cards[1].back, deck.cards[1].back);
}

#[test]
fn assemble_rejects_empty_field() {
    let pairs = vec![pair("ok", "fine"), pair("", "empty front")];
    assert_eq!(assemble(1, "t", "d", &pairs).unwrap_err(), AssemblyError::InvalidCard);
}

#[test]
fn package_builds_from_assembled_deck() {
    let pairs = vec![pair("Bonjour", "Hello")];
    let deck = assemble(99, "French", "desc", &pairs).unwrap();
    // Runs the real packaging collaborator over the assembled deck.
    let _package = build_package(&deck);
}

#[test]
fn error_messages_name_the_cause() {
    assert_eq!(ExtractionError::MissingSection.message(), "can't select the term list");
    assert_eq!(ExtractionError::MissingTitle.message(), "couldn't find the page title");
}

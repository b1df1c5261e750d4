use quizlet_anki_export::model::ExtractionError;
use quizlet_anki_export::scan::extract;
use quizlet_anki_export::text::derive_filename;

fn term_div(small: &str, large: &str) -> String {
    format!(
        "<div aria-label=\"Term\"><div class=\"SetPageTerm-smallSide\"><span>{}</span></div><div class=\"SetPageTerm-largeSide\"><span>{}</span></div></div>",
        small, large
    )
}

fn page(title: &str, section_body: Option<&str>, fallback_spans: Option<&[&str]>) -> String {
    let mut html = String::from("<!DOCTYPE html><html><head>");
    if !title.is_empty() {
        html.push_str(&format!("<title>{}</title>", title));
    }
    html.push_str("</head><body>");
    if let Some(body) = section_body {
        html.push_str(&format!(
            "<section class=\"SetPageTerms-termsList\">{}</section>",
            body
        ));
    }
    if let Some(spans) = fallback_spans {
        html.push_str("<div class=\"SetPage-terms\"><div style=\"display:none\">");
        for s in spans {
            html.push_str(&format!("<span>{}</span>", s));
        }
        html.push_str("</div></div>");
    }
    html.push_str("</body></html>");
    html
}

#[test]
fn scenario_two_primary_entries() {
    let body = format!("{}{}", term_div("Bonjour", "Hello"), term_div("Merci", "Thanks"));
    let html = page("French Basics Flashcards | Quizlet", Some(&body), None);
    let (pairs, title) = extract(&html).unwrap();
    assert_eq!(pairs.len(), 2);
    assert_eq!(pairs[0].term, "Bonjour");
    assert_eq!(pairs[0].definition, "Hello");
    assert_eq!(pairs[1].term, "Merci");
    assert_eq!(pairs[1].definition, "Thanks");
    assert_eq!(title, "French Basics Flashcards | Quizlet");
    assert_eq!(derive_filename(&title, None), "French Basics.apkg");
}

#[test]
fn scenario_empty_primary_with_fallback() {
    let html = page("Set Flashcards | Quizlet", Some(""), Some(&["A", "1", "B", "2"]));
    let (pairs, _) = extract(&html).unwrap();
    assert_eq!(pairs.len(), 2);
    assert_eq!(pairs[0].term, "A");
    assert_eq!(pairs[0].definition, "1");
    assert_eq!(pairs[1].term, "B");
    assert_eq!(pairs[1].definition, "2");
}

#[test]
fn scenario_odd_fallback_discards_last() {
    let html = page("Set", Some(""), Some(&["A", "1", "B", "2", "C"]));
    let (pairs, _) = extract(&html).unwrap();
    assert_eq!(pairs.len(), 2);
    assert_eq!(pairs[0].term, "A");
    assert_eq!(pairs[0].definition, "1");
    assert_eq!(pairs[1].term, "B");
    assert_eq!(pairs[1].definition, "2");
}

#[test]
fn scenario_missing_large_side() {
    let body = "<div aria-label=\"Term\"><div class=\"SetPageTerm-smallSide\"><span>Bonjour</span></div></div>";
    let html = page("Set", Some(body), None);
    assert_eq!(extract(&html), Err(ExtractionError::MissingDefinitionField));
}

#[test]
fn missing_section_fails_despite_fallback() {
    let html = page("Set", None, Some(&["A", "1"]));
    assert_eq!(extract(&html), Err(ExtractionError::MissingSection));
}

#[test]
fn missing_title_is_fatal() {
    let body = term_div("Bonjour", "Hello");
    let html = page("", Some(&body), None);
    assert_eq!(extract(&html), Err(ExtractionError::MissingTitle));
}

#[test]
fn fallback_span_without_text_is_fatal() {
    let mut html = String::from(
        "<html><head><title>Set</title></head><body><section class=\"SetPageTerms-termsList\"></section>",
    );
    html.push_str("<div class=\"SetPage-terms\"><div style=\"display:none\">");
    html.push_str("<span>A</span><span></span>");
    html.push_str("</div></div></body></html>");
    assert_eq!(extract(&html), Err(ExtractionError::EmptyFieldText));
}

#[test]
fn primary_pairs_precede_fallback_pairs() {
    let body = term_div("front", "back");
    let html = page("Order Flashcards | Quizlet", Some(&body), Some(&["x", "y"]));
    let (pairs, _) = extract(&html).unwrap();
    assert_eq!(pairs.len(), 2);
    assert_eq!(pairs[0].term, "front");
    assert_eq!(pairs[0].definition, "back");
    assert_eq!(pairs[1].term, "x");
    assert_eq!(pairs[1].definition, "y");
}

#[test]
fn title_is_trimmed() {
    let body = term_div("a", "b");
    let html = page("  Space Set  ", Some(&body), None);
    let (_, title) = extract(&html).unwrap();
    assert_eq!(title, "Space Set");
}

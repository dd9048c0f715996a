use meilisearch_cli::document::{is_false, Document, SerializationType};
use meilisearch_cli::interactive::TerminalApp;

#[test]
fn new_document_is_blank() {
    let d = Document::new();
    assert_eq!(d.id, "");
    assert_eq!(d.origid, "");
    assert!(d.authors.is_empty());
    assert_eq!(d.body, "");
    assert_eq!(d.serialization_type, SerializationType::Storage);
    assert_eq!(d.date, 0);
    assert!(!d.latest);
    assert_eq!(d.revision, 0);
    assert_eq!(d.title, "");
    assert!(d.tags.is_empty());
    assert_eq!(d.weight, 0);
    assert_eq!(d.views, 0);
    assert_eq!(d.filename, "");
}

#[test]
fn serialization_type_defaults_to_storage() {
    assert_eq!(SerializationType::default(), SerializationType::Storage);
}

#[test]
fn is_false_yields_the_flag() {
    assert!(is_false(&true));
    assert!(!is_false(&false));
}

fn app_with_matches(n: usize) -> TerminalApp {
    let mut app = TerminalApp::default();
    for i in 0..n {
        let mut d = Document::new();
        d.id = format!("doc-{}", i);
        d.title = format!("Title {}", i);
        app.matches.push(d);
    }
    app
}

#[test]
fn cursor_moves_down_and_wraps() {
    let mut app = app_with_matches(3);
    assert_eq!(app.selected, None);
    app.next();
    assert_eq!(app.selected, Some(0));
    app.next();
    assert_eq!(app.selected, Some(1));
    app.next();
    assert_eq!(app.selected, Some(2));
    app.next();
    assert_eq!(app.selected, Some(0));
}

#[test]
fn cursor_moves_up_and_wraps() {
    let mut app = app_with_matches(3);
    app.previous();
    assert_eq!(app.selected, Some(0));
    app.previous();
    assert_eq!(app.selected, Some(2));
    app.previous();
    assert_eq!(app.selected, Some(1));
}

#[test]
fn selection_reports_the_document_id() {
    let mut app = app_with_matches(3);
    assert!(app.get_selected().is_empty());
    app.next();
    app.next();
    assert_eq!(app.get_selected(), vec![String::from("doc-1")]);
}

use rustimate::requests::line_is_blank;
use rustimate::completion::CompletionKind;
use rustimate::parser::RustimateParser;
use rustimate::requests::{
    completion_request, document_diagnostics, get_line_context, hover_content, hover_markdown,
    EDITOR_HOVER, PRESENTATION_HOVER, TERMINAL_HOVER,
};

fn rust_parser() -> RustimateParser {
    let language: tree_sitter::Language = tree_sitter_rust::LANGUAGE.into();
    RustimateParser::new(&language)
}

#[test]
fn line_context_keeps_white_space() {
    let text = "scene \"a\" {\n  mode: editor \r\n}";
    assert_eq!(get_line_context(text, 0), "scene \"a\" {");
    assert_eq!(get_line_context(text, 1), "  mode: editor ");
    assert_eq!(get_line_context(text, 2), "}");
    assert_eq!(get_line_context(text, 3), "");
    assert_eq!(get_line_context("", 0), "");
}

#[test]
fn hover_documents_the_mode_a_line_sets() {
    assert_eq!(hover_markdown("  mode: presentation"), Some(PRESENTATION_HOVER));
    assert_eq!(hover_markdown("mode: editor"), Some(EDITOR_HOVER));
    assert_eq!(hover_markdown("mode: terminal"), Some(TERMINAL_HOVER));
    assert_eq!(hover_markdown("mode:editor"), None);
    assert_eq!(hover_markdown("animation: typewriter"), None);
    assert_eq!(
        PRESENTATION_HOVER,
        "### Presentation Mode\nOptimized for slides with large text and fade transitions."
    );
}

#[test]
fn hover_reads_the_requested_line() {
    let text = "scene \"a\" {\n  mode: terminal\n}\n";
    assert_eq!(hover_content(text, 1).as_deref(), Some(TERMINAL_HOVER));
    assert_eq!(hover_content(text, 0), None);
    assert_eq!(hover_content(text, 9), None);
}

#[test]
fn no_completion_on_a_blank_line() {
    let mut parser = rust_parser();
    let text = "fn main() {}\n   \t\n";
    assert!(completion_request(&mut parser, text, 1, 2).is_none());
    assert!(completion_request(&mut parser, text, 7, 0).is_none());
}

#[test]
fn completion_at_top_level_of_a_parsed_document() {
    let mut parser = rust_parser();
    let text = "fn main() {}\n";
    let items = completion_request(&mut parser, text, 0, 3).expect("items");
    let labels: Vec<&str> = items.iter().map(|c| c.label.as_str()).collect();
    assert_eq!(labels, vec!["scene", "config", "scene snippet"]);
    assert_eq!(items[2].kind, CompletionKind::Snippet);
}

#[test]
fn document_diagnostics_of_a_parsed_document() {
    let mut parser = rust_parser();
    let ds = document_diagnostics(&mut parser, "fn main() {}\n").expect("parses");
    assert!(ds.is_empty());
}

#[test]
fn blank_lines_are_recognised() {
    let text = "scene \"a\" {\n \t \n}";
    assert!(!line_is_blank(text, 0));
    assert!(line_is_blank(text, 1));
    assert!(!line_is_blank(text, 2));
    assert!(line_is_blank(text, 3));
}

#[test]
fn completion_inside_a_function_is_at_top_level() {
    let mut parser = rust_parser();
    let text = "fn main() {\n    let x = 1;\n}\n";
    let items = completion_request(&mut parser, text, 1, 8).expect("items");
    let labels: Vec<&str> = items.iter().map(|c| c.label.as_str()).collect();
    assert_eq!(labels, vec!["scene", "config", "scene snippet"]);
}

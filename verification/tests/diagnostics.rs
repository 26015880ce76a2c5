use rustimate::diagnostics::scenes_fit;
use rustimate::diagnostics::{
    collect_diagnostics, scene_diagnostics, scene_has_mode, to_position, NodeSummary, Position,
    Range, Severity, DIAGNOSTIC_SOURCE, MISSING_MODE_MESSAGE,
};
use rustimate::parser::RustimateParser;

/// The top-level node that the Rustimate grammar gives for a document made of
/// one scene block, which spans from `start` to `end`.
fn scene_node<'a>(src: &'a str, start: (usize, usize), end: (usize, usize)) -> NodeSummary<'a> {
    let text = src.trim();
    NodeSummary { kind: "scene_block", text: Some(text), start, end }
}

#[test]
fn detects_missing_mode() {
    let src = r#"
scene "hello" {
}
"#;

    let nodes = vec![scene_node(src, (1, 0), (2, 1))];

    let diagnostics = scene_diagnostics(&nodes);

    assert_eq!(diagnostics.len(), 1);
}

#[test]
fn valid_scene_has_no_error() {
    let src = r#"
scene "hello" {
  mode: presentation
}
"#;

    let nodes = vec![scene_node(src, (1, 0), (3, 1))];

    let diagnostics = scene_diagnostics(&nodes);

    assert_eq!(diagnostics.len(), 0);
}

#[test]
fn missing_mode_diagnostic_covers_the_scene() {
    let src = "scene \"a\" {\n}\n";
    let nodes = vec![
        NodeSummary { kind: "config_block", text: None, start: (0, 0), end: (0, 0) },
        scene_node(src, (4, 2), (5, 1)),
    ];
    let diagnostics = scene_diagnostics(&nodes);
    assert_eq!(diagnostics.len(), 1);
    let d = &diagnostics[0];
    assert_eq!(
        d.range,
        Range { start: Position { line: 4, character: 2 }, end: Position { line: 5, character: 1 } }
    );
    assert_eq!(d.severity, Severity::Error);
    assert_eq!(d.message, "Scene must declare a mode");
    assert_eq!(d.source, "rustimate");
    assert_eq!(MISSING_MODE_MESSAGE, "Scene must declare a mode");
    assert_eq!(DIAGNOSTIC_SOURCE, "rustimate");
}

#[test]
fn one_diagnostic_per_scene_without_mode_in_order() {
    let nodes = vec![
        NodeSummary { kind: "scene_block", text: Some("scene \"a\" {}"), start: (0, 0), end: (0, 12) },
        NodeSummary { kind: "scene_block", text: Some("scene \"b\" { mode: editor }"), start: (1, 0), end: (1, 26) },
        NodeSummary { kind: "scene_block", text: None, start: (2, 0), end: (2, 5) },
        NodeSummary { kind: "comment", text: Some("// no mode"), start: (3, 0), end: (3, 10) },
    ];
    let diagnostics = scene_diagnostics(&nodes);
    let lines: Vec<u32> = diagnostics.iter().map(|d| d.range.start.line).collect();
    assert_eq!(lines, vec![0, 2]);
}

#[test]
fn scene_mode_needs_readable_text_with_mode_colon() {
    assert!(scene_has_mode(Some("scene \"x\" { mode: editor }")));
    assert!(!scene_has_mode(Some("scene \"x\" { mode editor }")));
    assert!(!scene_has_mode(None));
}

#[test]
fn positions_truncate_to_32_bits() {
    assert_eq!(to_position((3, 7)), Position { line: 3, character: 7 });
    assert_eq!(to_position(((1usize << 32) + 5, 9)), Position { line: 5, character: 9 });
}

#[test]
fn collect_diagnostics_on_a_tree_without_scenes() {
    let language: tree_sitter::Language = tree_sitter_rust::LANGUAGE.into();
    let mut parser = RustimateParser::new(&language);
    let src = "fn scene() {}\nstruct Mode;\n";
    let tree = parser.parse(src).expect("parses");
    assert!(collect_diagnostics(&tree, src).is_empty());
}

#[test]
fn top_level_nodes_of_a_parsed_tree_fit_their_source() {
    let language: tree_sitter::Language = tree_sitter_rust::LANGUAGE.into();
    let mut parser = RustimateParser::new(&language);
    let src = "fn a() {}\n";
    let tree = parser.parse(src).expect("parses");
    assert!(scenes_fit(&tree, src));
    assert!(scenes_fit(&tree, ""));
}

use rustimate::parser::{node_at_position, RustimateParser};
use rustimate::syntax::{node_fits, node_text, text_in_range};

#[test]
fn text_in_range_reads_whole_characters_only() {
    let src = "aé😀z";
    assert_eq!(text_in_range(src, 0, 3), Some("aé"));
    assert_eq!(text_in_range(src, 1, 3), Some("é"));
    assert_eq!(text_in_range(src, 0, 2), None);
    assert_eq!(text_in_range(src, 2, 3), None);
    assert_eq!(text_in_range(src, 3, 7), Some("😀"));
    assert_eq!(text_in_range(src, 3, 5), None);
    assert_eq!(text_in_range(src, 8, 8), Some(""));
    assert_eq!(text_in_range(src, 0, 8), Some(src));
}

#[test]
fn node_text_reads_the_source_a_node_covers() {
    let language: tree_sitter::Language = tree_sitter_rust::LANGUAGE.into();
    let mut parser = RustimateParser::new(&language);
    let src = "fn scène() {}\n";
    let tree = parser.parse(src).expect("parses");
    let node = node_at_position(&tree, 0, 4).expect("a node");
    assert!(node_fits(node, src));
    assert_eq!(node_text(node, src), Some("scène"));
    assert!(!node_fits(node, "fn"));
}

use rustimate::parser::scene_properties_fit_in;
use rustimate::parser::{
    context_for_kind, context_of_kinds, detect_scene_mode, find_block_context, mode_in_text,
    mode_of_property_texts, node_at_position, BlockContext, RustimateParser,
};

fn rust_parser() -> RustimateParser {
    let language: tree_sitter::Language = tree_sitter_rust::LANGUAGE.into();
    RustimateParser::new(&language)
}

#[test]
fn block_kinds_map_to_contexts() {
    assert_eq!(context_for_kind("scene_block"), Some(BlockContext::Scene));
    assert_eq!(context_for_kind("code_block"), Some(BlockContext::Code));
    assert_eq!(context_for_kind("config_block"), Some(BlockContext::Config));
    assert_eq!(context_for_kind("source_file"), Some(BlockContext::Top));
    assert_eq!(context_for_kind("mode_property"), None);
    assert_eq!(context_for_kind("scene"), None);
}

#[test]
fn innermost_block_decides_the_context() {
    assert_eq!(
        context_of_kinds(&vec!["identifier", "code_block", "scene_block", "source_file"]),
        BlockContext::Code
    );
    assert_eq!(context_of_kinds(&vec!["string", "scene_block", "source_file"]), BlockContext::Scene);
    assert_eq!(context_of_kinds(&vec!["config_block"]), BlockContext::Config);
    assert_eq!(context_of_kinds(&vec!["identifier", "ERROR"]), BlockContext::Unknown);
    assert_eq!(context_of_kinds(&vec![]), BlockContext::Unknown);
}

#[test]
fn mode_text_names_a_mode_by_priority() {
    assert_eq!(mode_in_text("mode: presentation").as_deref(), Some("presentation"));
    assert_eq!(mode_in_text("mode: editor").as_deref(), Some("editor"));
    assert_eq!(mode_in_text("mode: terminal").as_deref(), Some("terminal"));
    assert_eq!(mode_in_text("mode: editor presentation").as_deref(), Some("presentation"));
    assert_eq!(mode_in_text("mode: slides"), None);
}

#[test]
fn first_property_that_names_a_mode_decides() {
    assert_eq!(mode_of_property_texts(&vec![]), None);
    assert_eq!(
        mode_of_property_texts(&vec![Some("mode: x"), Some("mode: terminal"), Some("mode: editor")])
            .as_deref(),
        Some("terminal")
    );
    assert_eq!(mode_of_property_texts(&vec![Some("mode: x"), None, Some("mode: editor")]), None);
    assert_eq!(mode_of_property_texts(&vec![Some("mode: editor"), None]).as_deref(), Some("editor"));
}

#[test]
fn parser_walks_a_real_tree() {
    let mut parser = rust_parser();
    let text = "fn main() {\n    let x = 1;\n}\n";
    let tree = parser.parse(text).expect("parses");
    let node = node_at_position(&tree, 1, 8).expect("a node at (1, 8)");
    assert_eq!(node.kind(), "identifier");
    assert_eq!(find_block_context(node), BlockContext::Top);
    assert_eq!(detect_scene_mode(node, text), None);
    let root = node_at_position(&tree, 5, 0).expect("the root spans the end");
    assert_eq!(root.kind(), "source_file");
    assert_eq!(find_block_context(root), BlockContext::Top);
}

#[test]
fn parse_always_gives_a_tree_and_the_root_outside_it() {
    let mut parser = rust_parser();
    for text in ["", "fn", "}}}", "fn main() {}\n"] {
        let tree = parser.parse(text).expect("a tree");
        let root = tree.root_node();
        let outside = node_at_position(&tree, 40, 0).expect("a node");
        assert_eq!(outside, root);
    }
}

#[test]
fn scene_mode_needs_fitting_properties() {
    let mut parser = rust_parser();
    let text = "fn main() {}\n";
    let tree = parser.parse(text).expect("parses");
    let node = node_at_position(&tree, 0, 3).expect("a node");
    assert!(scene_properties_fit_in(node, text));
    assert_eq!(detect_scene_mode(node, text), None);
}

#[test]
fn try_new_accepts_a_supported_grammar() {
    let language: tree_sitter::Language = tree_sitter_rust::LANGUAGE.into();
    assert!((13..=15).contains(&language.abi_version()));
    assert!(RustimateParser::try_new(&language).is_some());
}

#[test]
fn node_at_position_past_the_end_is_the_root() {
    let mut parser = rust_parser();
    let tree = parser.parse("fn a() {}\n").expect("a tree");
    assert_eq!(node_at_position(&tree, 3, 0), Some(tree.root_node()));
    assert_eq!(node_at_position(&tree, 0, 500), Some(tree.root_node()));
}

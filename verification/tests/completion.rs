use rustimate::completion::{completions, keyword, scene_snippet, CompletionKind, SCENE_SNIPPET_TEXT};
use rustimate::parser::BlockContext;

fn labels(context: BlockContext, mode: Option<&str>) -> Vec<String> {
    completions(context, mode.map(|m| m.to_string())).into_iter().map(|c| c.label).collect()
}

#[test]
fn keyword_inserts_name_and_colon() {
    let k = keyword("mode");
    assert_eq!(k.label, "mode");
    assert_eq!(k.kind, CompletionKind::Keyword);
    assert_eq!(k.insert_text.as_deref(), Some("mode:"));
    assert_eq!(k.detail, None);
    assert!(!k.snippet_format);
}

#[test]
fn snippet_inserts_a_scene_block() {
    let s = scene_snippet();
    assert_eq!(s.label, "scene snippet");
    assert_eq!(s.kind, CompletionKind::Snippet);
    assert!(s.snippet_format);
    assert_eq!(s.insert_text.as_deref(), Some(SCENE_SNIPPET_TEXT));
    assert_eq!(
        SCENE_SNIPPET_TEXT,
        "scene \"${1:name}\" {\n    mode: ${2|presentation,editor,terminal|}\n}"
    );
}

#[test]
fn top_level_offers_scene_config_and_snippet() {
    assert_eq!(labels(BlockContext::Top, None), vec!["scene", "config", "scene snippet"]);
    assert_eq!(labels(BlockContext::Top, Some("editor")), vec!["scene", "config", "scene snippet"]);
}

#[test]
fn scene_items_depend_on_mode() {
    assert_eq!(labels(BlockContext::Scene, None), vec!["mode", "animation"]);
    assert_eq!(
        labels(BlockContext::Scene, Some("presentation")),
        vec!["mode", "animation", "text", "transition"]
    );
    assert_eq!(
        labels(BlockContext::Scene, Some("editor")),
        vec!["mode", "animation", "theme", "editor", "code"]
    );
    assert_eq!(labels(BlockContext::Scene, Some("terminal")), vec!["mode", "animation", "terminal"]);
    assert_eq!(labels(BlockContext::Scene, Some("slides")), vec!["mode", "animation"]);
}

#[test]
fn code_config_and_unknown_items() {
    assert_eq!(labels(BlockContext::Code, None), vec!["file", "lines", "highlight"]);
    assert_eq!(labels(BlockContext::Config, None), vec!["scene", "config"]);
    assert_eq!(labels(BlockContext::Unknown, Some("editor")), vec!["scene", "config"]);
}

#[test]
fn every_keyword_item_inserts_its_label_and_colon() {
    for context in [BlockContext::Top, BlockContext::Scene, BlockContext::Code, BlockContext::Config, BlockContext::Unknown] {
        for mode in [None, Some("presentation"), Some("editor"), Some("terminal")] {
            for item in completions(context, mode.map(|m| m.to_string())) {
                if item.kind == CompletionKind::Keyword {
                    assert_eq!(item.insert_text, Some(format!("{}:", item.label)));
                }
            }
        }
    }
}

#[test]
fn snippet_is_offered_only_at_top_level() {
    for context in [BlockContext::Top, BlockContext::Scene, BlockContext::Code, BlockContext::Config, BlockContext::Unknown] {
        for mode in [None, Some("presentation"), Some("editor"), Some("terminal")] {
            let has_snippet = completions(context, mode.map(|m| m.to_string()))
                .iter()
                .any(|c| c.kind == CompletionKind::Snippet);
            assert_eq!(has_snippet, context == BlockContext::Top);
        }
    }
}

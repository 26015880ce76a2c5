use rustimate::completion::CompletionKind;
use rustimate::line_scan::{
    create_completion, get_active_mode, get_current_block, line_completions, mode_hover,
    trimmed_line_context, MODE_HOVER, SCENE_TEMPLATE_TEXT,
};

const DOC: &str = "config {\n}\nscene \"a\" {\n  mode: editor\n  code {\n    file: x\n  }\n}\n";

fn labels(text: &str, line: usize) -> Option<Vec<String>> {
    line_completions(text, line).map(|items| items.into_iter().map(|c| c.label).collect())
}

#[test]
fn current_block_is_the_nearest_opening_line() {
    assert_eq!(get_current_block(DOC, 0), "config");
    assert_eq!(get_current_block(DOC, 1), "config");
    assert_eq!(get_current_block(DOC, 2), "scene");
    assert_eq!(get_current_block(DOC, 3), "scene");
    assert_eq!(get_current_block(DOC, 5), "code");
    assert_eq!(get_current_block(DOC, 7), "code");
    assert_eq!(get_current_block(DOC, 8), "top");
    assert_eq!(get_current_block("text \"x\"\n", 0), "top");
    assert_eq!(get_current_block("scene code {\n", 0), "code");
}

#[test]
fn trimmed_line_context_drops_surrounding_space() {
    assert_eq!(trimmed_line_context(DOC, 3), "mode: editor");
    assert_eq!(trimmed_line_context(DOC, 100), "");
}

#[test]
fn active_mode_scans_upwards() {
    assert_eq!(get_active_mode(DOC, 5), "editor");
    assert_eq!(get_active_mode(DOC, 3), "editor");
    assert_eq!(get_active_mode("mode: terminal\nx\n", 1), "terminal");
    assert_eq!(get_active_mode("a\nb\n", 1), "none");
    let mut far = String::from("scene \"a\" {\nmode: presentation\n");
    for _ in 0..12 {
        far.push_str("text \"t\"\n");
    }
    assert_eq!(get_active_mode(&far, 13), "presentation");
    let mut farther = String::from("mode: presentation\nscene \"a\" {\n");
    for _ in 0..12 {
        farther.push_str("text \"t\"\n");
    }
    assert_eq!(get_active_mode(&farther, 13), "none");
}

#[test]
fn property_item_has_label_and_detail() {
    let c = create_completion("mode:", "Set display mode", None);
    assert_eq!(c.label, "mode:");
    assert_eq!(c.detail.as_deref(), Some("Set display mode"));
    assert_eq!(c.kind, CompletionKind::Property);
    assert_eq!(c.insert_text, None);
    assert_eq!(c.documentation, None);
    let d = create_completion("theme:", "Set syntax theme", Some("**dark** or light"));
    assert_eq!(d.documentation.as_deref(), Some("**dark** or light"));
}

#[test]
fn line_completions_follow_the_line_and_block() {
    assert_eq!(labels("scene \"intro", 0), None);
    assert_eq!(labels("  mode:", 0), Some(vec!["editor".into(), "presentation".into(), "terminal".into()]));
    assert_eq!(labels("scene \"a\" {\n  \n}", 1), Some(vec!["mode:".into(), "theme:".into(), "code".into()]));
    assert_eq!(labels("scene \"a\" {\n", 0), Some(vec![]));
    assert_eq!(labels("code {\n  f\n}", 1), Some(vec!["file:".into(), "lines:".into()]));
    assert_eq!(labels("code {\n", 0), Some(vec![]));
    let top = line_completions("x\n", 0).expect("items");
    assert_eq!(top.len(), 2);
    assert_eq!(top[0].label, "scene");
    assert_eq!(top[1].label, "scene-template");
    assert_eq!(top[1].insert_text.as_deref(), Some(SCENE_TEMPLATE_TEXT));
    assert!(top[1].snippet_format);
}

#[test]
fn mode_hover_on_mode_lines() {
    assert_eq!(mode_hover(DOC, 3).as_deref(), Some(MODE_HOVER));
    assert_eq!(mode_hover(DOC, 2), None);
    assert_eq!(mode_hover(DOC, 50), None);
}

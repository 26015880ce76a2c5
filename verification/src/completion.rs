//! The completion items offered at a position, from the enclosing block and
//! the mode of the enclosing scene.

use vstd::prelude::*;
use crate::parser::{opt_string_view, BlockContext};
use crate::text::str_equal;

verus! {

/// What a completion item inserts.
#[derive(Debug, Clone, Copy, PartialEq, Eq, Structural)]
pub enum CompletionKind {
    Keyword,
    Snippet,
    Property,
}

/// A completion item: a label, its kind, an optional one-line detail, optional
/// markdown documentation and the text it inserts, which `snippet_format`
/// marks as a snippet with placeholders.
#[derive(Debug, Clone)]
pub struct Completion {
    pub label: String,
    pub kind: CompletionKind,
    pub detail: Option<String>,
    pub documentation: Option<String>,
    pub insert_text: Option<String>,
    pub snippet_format: bool,
}

/// The mathematical content of a `Completion`.
pub struct CompletionView {
    pub label: Seq<char>,
    pub kind: CompletionKind,
    pub detail: Option<Seq<char>>,
    pub documentation: Option<Seq<char>>,
    pub insert_text: Option<Seq<char>>,
    pub snippet_format: bool,
}

impl View for Completion {
    type V = CompletionView;

    open spec fn view(&self) -> CompletionView {
        CompletionView {
            label: self.label@,
            kind: self.kind,
            detail: opt_string_view(self.detail),
            documentation: opt_string_view(self.documentation),
            insert_text: opt_string_view(self.insert_text),
            snippet_format: self.snippet_format,
        }
    }
}

/// The views of a list of completion items.
pub open spec fn completion_views(items: Seq<Completion>) -> Seq<CompletionView> {
    items.map_values(|c: Completion| c@)
}

/// The text of the scene snippet: a scene block with placeholders for its
/// name and a choice of mode.
pub const SCENE_SNIPPET_TEXT: &'static str = "scene \"${1:name}\" {\n    mode: ${2|presentation,editor,terminal|}\n}";

/// A keyword item: labelled `name`, inserting `name` followed by a colon.
pub open spec fn keyword_item(name: Seq<char>) -> CompletionView {
    CompletionView {
        label: name,
        kind: CompletionKind::Keyword,
        detail: None,
        documentation: None,
        insert_text: Some(name + ":"@),
        snippet_format: false,
    }
}

/// The item that inserts a whole scene block.
pub open spec fn scene_snippet_item() -> CompletionView {
    CompletionView {
        label: "scene snippet"@,
        kind: CompletionKind::Snippet,
        detail: None,
        documentation: None,
        insert_text: Some(SCENE_SNIPPET_TEXT@),
        snippet_format: true,
    }
}

/// The keywords that a scene in the given mode accepts beyond `mode` and
/// `animation`.
pub open spec fn mode_keywords(mode: Option<Seq<char>>) -> Seq<Seq<char>> {
    match mode {
        Some(m) => if m == "presentation"@ {
            seq!["text"@, "transition"@]
        } else if m == "editor"@ {
            seq!["theme"@, "editor"@, "code"@]
        } else if m == "terminal"@ {
            seq!["terminal"@]
        } else {
            seq![]
        },
        None => seq![],
    }
}

/// The completion items offered in a block context, in a scene of the given
/// mode.
pub open spec fn completions_for(context: BlockContext, mode: Option<Seq<char>>) -> Seq<
    CompletionView,
> {
    match context {
        BlockContext::Top => seq![
            keyword_item("scene"@),
            keyword_item("config"@),
            scene_snippet_item(),
        ],
        BlockContext::Scene => seq![keyword_item("mode"@), keyword_item("animation"@)]
            + mode_keywords(mode).map_values(|k: Seq<char>| keyword_item(k)),
        BlockContext::Code => seq![
            keyword_item("file"@),
            keyword_item("lines"@),
            keyword_item("highlight"@),
        ],
        _ => seq![keyword_item("scene"@), keyword_item("config"@)],
    }
}

/// A keyword item for `name`.
pub fn keyword(name: &str) -> (c: Completion)
    ensures
        c@ == keyword_item(name@),
{
    let mut insert = String::from_str(name);
    insert.append(":");
    Completion {
        label: String::from_str(name),
        kind: CompletionKind::Keyword,
        detail: None,
        documentation: None,
        insert_text: Some(insert),
        snippet_format: false,
    }
}

/// The item that inserts a whole scene block.
pub fn scene_snippet() -> (c: Completion)
    ensures
        c@ == scene_snippet_item(),
{
    Completion {
        label: String::from_str("scene snippet"),
        kind: CompletionKind::Snippet,
        detail: None,
        documentation: None,
        insert_text: Some(String::from_str(SCENE_SNIPPET_TEXT)),
        snippet_format: true,
    }
}

/// The keywords that a scene in `mode` accepts beyond `mode` and `animation`,
/// appended to `items`.
fn push_mode_keywords(items: &mut Vec<Completion>, mode: &Option<String>)
    ensures
        completion_views(final(items)@) == completion_views(old(items)@) + mode_keywords(
            opt_string_view(*mode),
        ).map_values(|k: Seq<char>| keyword_item(k)),
{
    let ghost start = completion_views(items@);
    if let Some(m) = mode {
        if str_equal(m.as_str(), "presentation") {
            items.push(keyword("text"));
            items.push(keyword("transition"));
        } else if str_equal(m.as_str(), "editor") {
            items.push(keyword("theme"));
            items.push(keyword("editor"));
            items.push(keyword("code"));
        } else if str_equal(m.as_str(), "terminal") {
            items.push(keyword("terminal"));
        }
    }
    assert(completion_views(items@) =~= start + mode_keywords(opt_string_view(*mode)).map_values(
        |k: Seq<char>| keyword_item(k),
    ));
}

/// The completion items offered in `context`, for a scene in `mode`.
pub fn completions(context: BlockContext, mode: Option<String>) -> (items: Vec<Completion>)
    ensures
        completion_views(items@) == completions_for(context, opt_string_view(mode)),
        items.len() == completions_for(context, opt_string_view(mode)).len(),
        forall|k: int|
            0 <= k < items.len() ==> (#[trigger] items@[k])@ == completions_for(
                context,
                opt_string_view(mode),
            )[k],
{
    let mut items: Vec<Completion> = Vec::new();
    match context {
        BlockContext::Top => {
            items.push(keyword("scene"));
            items.push(keyword("config"));
            items.push(scene_snippet());
        },
        BlockContext::Scene => {
            items.push(keyword("mode"));
            items.push(keyword("animation"));
            push_mode_keywords(&mut items, &mode);
        },
        BlockContext::Code => {
            items.push(keyword("file"));
            items.push(keyword("lines"));
            items.push(keyword("highlight"));
        },
        _ => {
            items.push(keyword("scene"));
            items.push(keyword("config"));
        },
    }
    assert(completion_views(items@) =~= completions_for(context, opt_string_view(mode)));
    assert(completion_views(items@).len() == items.len());
    assert forall|k: int| 0 <= k < items.len() implies (#[trigger] items@[k])@ == completions_for(
        context,
        opt_string_view(mode),
    )[k] by {
        assert(completion_views(items@)[k] == items@[k]@);
    }
    items
}


/// Inside a scene, `mode` and `animation` are always offered first, and they
/// are all that is offered until the scene's mode is known.
pub proof fn law_scene_items_start_with_mode_and_animation(mode: Option<Seq<char>>)
    ensures
        completions_for(BlockContext::Scene, None) == seq![
            keyword_item("mode"@),
            keyword_item("animation"@),
        ],
        completions_for(BlockContext::Scene, mode).len() >= 2,
        completions_for(BlockContext::Scene, mode).take(2) == completions_for(
            BlockContext::Scene,
            None,
        ),
{
    let base = seq![keyword_item("mode"@), keyword_item("animation"@)];
    let extra = mode_keywords(mode).map_values(|k: Seq<char>| keyword_item(k));
    assert(mode_keywords(None).map_values(|k: Seq<char>| keyword_item(k)) =~= Seq::<
        CompletionView,
    >::empty());
    assert(completions_for(BlockContext::Scene, None) =~= base);
    assert((base + extra).take(2) =~= base);
}

/// Every keyword item inserts its label followed by a colon, and is inserted
/// as plain text.
pub proof fn law_keywords_insert_label_and_colon(
    context: BlockContext,
    mode: Option<Seq<char>>,
    k: int,
)
    requires
        0 <= k < completions_for(context, mode).len(),
        completions_for(context, mode)[k].kind == CompletionKind::Keyword,
    ensures
        completions_for(context, mode)[k].insert_text == Some(
            completions_for(context, mode)[k].label + ":"@,
        ),
        !completions_for(context, mode)[k].snippet_format,
{
    if context == BlockContext::Scene && k >= 2 {
        let extra = mode_keywords(mode).map_values(|kw: Seq<char>| keyword_item(kw));
        assert(completions_for(context, mode)[k] == extra[k - 2]);
    }
}

/// The scene snippet is offered at the top level of a document and nowhere
/// else.
pub proof fn law_snippet_only_at_top(context: BlockContext, mode: Option<Seq<char>>)
    ensures
        (exists|k: int|
            0 <= k < completions_for(context, mode).len() && (#[trigger] completions_for(
                context,
                mode,
            )[k]) == scene_snippet_item()) <==> context == BlockContext::Top,
{
    let items = completions_for(context, mode);
    if context == BlockContext::Top {
        assert(items[2] == scene_snippet_item());
    } else {
        assert forall|k: int| 0 <= k < items.len() implies items[k].kind
            == CompletionKind::Keyword by {
            if context == BlockContext::Scene && k >= 2 {
                let extra = mode_keywords(mode).map_values(|kw: Seq<char>| keyword_item(kw));
                assert(items[k] == extra[k - 2]);
            }
        }
    }
}

} // verus!

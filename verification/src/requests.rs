//! What the language server answers: the text of a line, the hover text for
//! a line, the completion items at a position and a document's diagnostics.

use vstd::prelude::*;
use vstd::string::StrSliceExecFns;
use vstd::string::StringSliceAdditionalSpecFns;
use crate::completion::{keyword_item, law_scene_items_start_with_mode_and_animation, scene_snippet_item, completion_views, completions, completions_for, Completion, CompletionView};
use crate::diagnostics::{
    collect_diagnostics, diagnostic_views, scenes_fit, top_level_scenes_fit, tree_diagnostics,
    Diagnostic, DiagnosticView, Severity, DIAGNOSTIC_SOURCE, MISSING_MODE_MESSAGE,
};
use crate::parser::{
    law_node_opening_block_decides, ancestors_of, block_context_of, detect_scene_mode, find_block_context, node_at_position,
    opt_string_view, scene_mode_of, scene_properties_fit, scene_properties_fit_in,
    RustimateParser,
};
use crate::syntax::{node_type, descendant_at, root_of, tree_grammar, tree_text};
use crate::text::{has_infix, line_spans, lines_of, str_contains, to_chars, trim, trim_range};

verus! {

/// Line `n` of a list of lines, or the empty line past its end.
pub open spec fn line_or_empty(lines: Seq<Seq<char>>, n: int) -> Seq<char> {
    if 0 <= n < lines.len() {
        lines[n]
    } else {
        Seq::<char>::empty()
    }
}

/// A line that holds nothing but white space.
pub open spec fn is_blank(line: Seq<char>) -> bool {
    trim(line).len() == 0
}

/// The character range of line `line` of `chars`, or an empty range past the
/// last line.
fn line_range(chars: &Vec<char>, line: usize) -> (r: (usize, usize))
    ensures
        r.0 <= r.1 <= chars.len(),
        chars@.subrange(r.0 as int, r.1 as int) == line_or_empty(lines_of(chars@), line as int),
{
    let spans = line_spans(chars);
    if line < spans.len() {
        assert(spans@[line as int].0 <= spans@[line as int].1 <= chars.len());
        spans[line]
    } else {
        assert(chars@.subrange(0, 0) =~= Seq::<char>::empty());
        (0, 0)
    }
}

/// Line `line` of `text` (counted from zero, without its line ending), or the
/// empty string past the last line.
pub fn get_line_context(text: &str, line: usize) -> (r: String)
    ensures
        r@ == line_or_empty(lines_of(text@), line as int),
{
    let chars = to_chars(text);
    let (a, b) = line_range(&chars, line);
    String::from_str(text.substring_char(a, b))
}

/// The hover text on the presentation mode.
pub const PRESENTATION_HOVER: &'static str = "### Presentation Mode\nOptimized for slides with large text and fade transitions.";

/// The hover text on the editor mode.
pub const EDITOR_HOVER: &'static str = "### Editor Mode\nDisplays a code editor window with syntax highlighting and line numbers.";

/// The hover text on the terminal mode.
pub const TERMINAL_HOVER: &'static str = "### Terminal Mode\nSimulates a command-line interface session.";

/// The hover text for a line: the documentation of the first mode, in the
/// order presentation, editor, terminal, that the line sets.
pub open spec fn hover_for_line(line: Seq<char>) -> Option<Seq<char>> {
    if has_infix(line, "mode: presentation"@) {
        Some(PRESENTATION_HOVER@)
    } else if has_infix(line, "mode: editor"@) {
        Some(EDITOR_HOVER@)
    } else if has_infix(line, "mode: terminal"@) {
        Some(TERMINAL_HOVER@)
    } else {
        None
    }
}

/// The hover text for a line that sets a mode.
pub fn hover_markdown(line: &str) -> (r: Option<&'static str>)
    ensures
        r matches Some(m) ==> hover_for_line(line@) == Some(m@),
        r is None ==> hover_for_line(line@) is None,
{
    if str_contains(line, "mode: presentation") {
        Some(PRESENTATION_HOVER)
    } else if str_contains(line, "mode: editor") {
        Some(EDITOR_HOVER)
    } else if str_contains(line, "mode: terminal") {
        Some(TERMINAL_HOVER)
    } else {
        None
    }
}

/// The hover text for line `line` of `text`.
pub fn hover_content(text: &str, line: usize) -> (r: Option<String>)
    ensures
        opt_string_view(r) == hover_for_line(line_or_empty(lines_of(text@), line as int)),
{
    let current = get_line_context(text, line);
    match hover_markdown(current.as_str()) {
        Some(m) => Some(String::from_str(m)),
        None => None,
    }
}

/// `tree` was parsed with `grammar` from the bytes of `text`.
pub open spec fn parsed_from(tree: &tree_sitter::Tree, grammar: tree_sitter::Language, text: &str) -> bool {
    tree_grammar(tree) == grammar && tree_text(tree) == text.spec_bytes()
}

/// The views of an optional list of completion items.
pub open spec fn opt_completion_views(r: Option<Vec<Completion>>) -> Option<Seq<CompletionView>> {
    match r {
        Some(items) => Some(completion_views(items@)),
        None => None,
    }
}

/// The completion items at (`line`, `column`) of `text` parsed as `tree`:
/// those of the innermost block around the node there, for the mode of the
/// scenes around it; `None` where a `mode_property` of those scenes lies
/// beyond the end of `text` (a tree parsed from another text).
pub open spec fn completions_at(tree: &tree_sitter::Tree, text: &str, line: usize, column: usize) -> Option<
    Seq<CompletionView>,
> {
    let node = descendant_at(root_of(tree), line, column);
    if scene_properties_fit(ancestors_of(node), text.spec_bytes().len()) {
        Some(completions_for(block_context_of(node), scene_mode_of(node, text.spec_bytes())))
    } else {
        None
    }
}

/// The completion items at a position are those of the block that the node
/// found at that position opens: a scene's items begin with `mode` and
/// `animation`, a code block's are `file`, `lines` and `highlight`, and the
/// whole file's are `scene`, `config` and the scene snippet.
pub proof fn law_completion_follows_node_at_position(
    tree: &tree_sitter::Tree,
    text: &str,
    line: usize,
    column: usize,
)
    requires
        scene_properties_fit(
            ancestors_of(descendant_at(root_of(tree), line, column)),
            text.spec_bytes().len(),
        ),
    ensures
        node_type(descendant_at(root_of(tree), line, column)) == "scene_block"@ ==> {
            &&& completions_at(tree, text, line, column) is Some
            &&& completions_at(tree, text, line, column)->0.len() >= 2
            &&& completions_at(tree, text, line, column)->0[0] == keyword_item("mode"@)
            &&& completions_at(tree, text, line, column)->0[1] == keyword_item("animation"@)
        },
        node_type(descendant_at(root_of(tree), line, column)) == "code_block"@ ==> completions_at(
            tree,
            text,
            line,
            column,
        ) == Some(
            seq![keyword_item("file"@), keyword_item("lines"@), keyword_item("highlight"@)],
        ),
        node_type(descendant_at(root_of(tree), line, column)) == "source_file"@ ==> completions_at(
            tree,
            text,
            line,
            column,
        ) == Some(seq![keyword_item("scene"@), keyword_item("config"@), scene_snippet_item()]),
{
    let node = descendant_at(root_of(tree), line, column);
    law_node_opening_block_decides(node);
    law_scene_items_start_with_mode_and_animation(scene_mode_of(node, text.spec_bytes()));
    let items = completions_for(block_context_of(node), scene_mode_of(node, text.spec_bytes()));
    if node_type(node) == "scene_block"@ {
        assert(items[0] == items.take(2)[0]);
        assert(items[1] == items.take(2)[1]);
    }
}

/// Whether line `line` of `text` holds nothing but white space (or lies
/// past the last line).
pub fn line_is_blank(text: &str, line: usize) -> (r: bool)
    ensures
        r == is_blank(line_or_empty(lines_of(text@), line as int)),
{
    let chars = to_chars(text);
    let (a, b) = line_range(&chars, line);
    let (ta, tb) = trim_range(&chars, a, b);
    ta == tb
}

/// The completion items at (`line`, `character`) of `text`: none on a blank
/// line; otherwise the items of the innermost block around the node at that
/// position in the tree parsed from `text`, for the mode of the scenes around
/// it.
pub fn completion_request(
    parser: &mut RustimateParser,
    text: &str,
    line: usize,
    character: usize,
) -> (r: Option<Vec<Completion>>)
    ensures
        is_blank(line_or_empty(lines_of(text@), line as int)) ==> r is None,
        !is_blank(line_or_empty(lines_of(text@), line as int)) ==> exists|tree: &tree_sitter::Tree|
            parsed_from(tree, old(parser).grammar(), text) && opt_completion_views(r)
                == #[trigger] completions_at(tree, text, line, character),
        final(parser).grammar() == old(parser).grammar(),
{
    if line_is_blank(text, line) {
        return None;
    }
    let tree = match parser.parse(text) {
        Some(t) => t,
        None => {
            return None;
        },
    };
    let node = match node_at_position(&tree, line, character) {
        Some(n) => n,
        None => {
            return None;
        },
    };
    if !scene_properties_fit_in(node, text) {
        assert(completions_at(&tree, text, line, character) is None);
        return None;
    }
    let context = find_block_context(node);
    let mode = detect_scene_mode(node, text);
    let ghost mode_view = opt_string_view(mode);
    let items = completions(context, mode);
    assert(opt_completion_views(Some(items)) == completions_at(&tree, text, line, character));
    Some(items)
}

/// The views of an optional list of diagnostics.
pub open spec fn opt_diagnostic_views(r: Option<Vec<Diagnostic>>) -> Option<Seq<DiagnosticView>> {
    match r {
        Some(ds) => Some(diagnostic_views(ds@)),
        None => None,
    }
}

/// The diagnostics of `text` parsed as `tree`: an error over each top-level
/// scene that does not declare a mode; `None` where a top-level scene lies
/// beyond the end of `text` (a tree parsed from another text).
pub open spec fn diagnostics_of(tree: &tree_sitter::Tree, text: &str) -> Option<Seq<DiagnosticView>> {
    if top_level_scenes_fit(tree, text.spec_bytes().len()) {
        Some(tree_diagnostics(tree, text.spec_bytes()))
    } else {
        None
    }
}

/// The diagnostics of `text`: an error over each top-level scene of the tree
/// parsed from it, with the parser's grammar, that does not declare a mode.
pub fn document_diagnostics(parser: &mut RustimateParser, text: &str) -> (r: Option<
    Vec<Diagnostic>,
>)
    ensures
        exists|tree: &tree_sitter::Tree|
            parsed_from(tree, old(parser).grammar(), text) && opt_diagnostic_views(r)
                == #[trigger] diagnostics_of(tree, text),
        final(parser).grammar() == old(parser).grammar(),
        r matches Some(ds) ==> forall|k: int|
            0 <= k < ds.len() ==> {
                &&& (#[trigger] ds@[k]).severity == Severity::Error
                &&& ds@[k].message@ == MISSING_MODE_MESSAGE@
                &&& ds@[k].source@ == DIAGNOSTIC_SOURCE@
            },
{
    let tree = match parser.parse(text) {
        Some(t) => t,
        None => {
            return None;
        },
    };
    if scenes_fit(&tree, text) {
        let ds = collect_diagnostics(&tree, text);
        assert(opt_diagnostic_views(Some(ds)) == diagnostics_of(&tree, text));
        Some(ds)
    } else {
        assert(diagnostics_of(&tree, text) is None);
        None
    }
}

} // verus!

//! Line-based reading of a document, without a syntax tree: the enclosing
//! block and scene mode found by scanning the lines above a position, and the
//! completion and hover answers built on them.

use vstd::prelude::*;
use crate::completion::{completion_views, Completion, CompletionKind, CompletionView};
use crate::parser::opt_string_view;
use crate::requests::line_or_empty;
use crate::text::{
    occurs_at, has_infix, has_prefix, has_suffix, line_spans, lines_of, range_contains, range_ends_with,
    range_starts_with, to_chars, trim, trim_range,
};

verus! {

/// The block that a (trimmed) line opens: a `code`, `scene` or `config` line
/// that also holds `{`, tried in that order.
pub open spec fn block_opened_by(line: Seq<char>) -> Option<Seq<char>> {
    let t = trim(line);
    if has_infix(t, "code"@) && has_infix(t, "{"@) {
        Some("code"@)
    } else if has_infix(t, "scene"@) && has_infix(t, "{"@) {
        Some("scene"@)
    } else if has_infix(t, "config"@) && has_infix(t, "{"@) {
        Some("config"@)
    } else {
        None
    }
}

/// The block opened by the nearest of the first `n` lines, scanning upwards
/// from line `n - 1`; `top` when none of them opens one.
pub open spec fn block_above(lines: Seq<Seq<char>>, n: int) -> Seq<char>
    decreases n,
{
    if n <= 0 {
        "top"@
    } else {
        match block_opened_by(lines[n - 1]) {
            Some(b) => b,
            None => block_above(lines, n - 1),
        }
    }
}

proof fn lemma_block_names(lines: Seq<Seq<char>>, n: int)
    ensures
        block_above(lines, n) == "top"@ || block_above(lines, n) == "code"@ || block_above(
            lines,
            n,
        ) == "scene"@ || block_above(lines, n) == "config"@,
    decreases n,
{
    if n > 0 {
        lemma_block_names(lines, n - 1);
    }
}

/// The block around line `line` of `text`: the one opened by the nearest line
/// at or above it, `top` when there is none or `line` is past the end.
pub open spec fn current_block(text: Seq<char>, line: int) -> Seq<char> {
    let lines = lines_of(text);
    if line < 0 || line >= lines.len() {
        "top"@
    } else {
        block_above(lines, line + 1)
    }
}

/// A line that opens no block lies in the same block as the line above it.
pub proof fn law_block_carries_down(text: Seq<char>, line: int)
    requires
        0 < line < lines_of(text).len(),
        block_opened_by(lines_of(text)[line]) is None,
    ensures
        current_block(text, line) == current_block(text, line - 1),
{
}

/// A line that opens a block lies in that block, whatever the lines above.
pub proof fn law_opening_line_decides(text: Seq<char>, line: int)
    requires
        0 <= line < lines_of(text).len(),
        block_opened_by(lines_of(text)[line]) is Some,
    ensures
        Some(current_block(text, line)) == block_opened_by(lines_of(text)[line]),
{
}

/// The patterns that the scans look for.
struct Patterns {
    code: Vec<char>,
    scene: Vec<char>,
    config: Vec<char>,
    brace: Vec<char>,
    mode_colon: Vec<char>,
    mode_colon_space: Vec<char>,
    presentation: Vec<char>,
    editor: Vec<char>,
    terminal: Vec<char>,
}

impl Patterns {
    spec fn wf(&self) -> bool {
        &&& self.code@ == "code"@
        &&& self.scene@ == "scene"@
        &&& self.config@ == "config"@
        &&& self.brace@ == "{"@
        &&& self.mode_colon@ == "mode:"@
        &&& self.mode_colon_space@ == "mode: "@
        &&& self.presentation@ == "mode: presentation"@
        &&& self.editor@ == "mode: editor"@
        &&& self.terminal@ == "mode: terminal"@
    }

    fn new() -> (p: Patterns)
        ensures
            p.wf(),
    {
        Patterns {
            code: to_chars("code"),
            scene: to_chars("scene"),
            config: to_chars("config"),
            brace: to_chars("{"),
            mode_colon: to_chars("mode:"),
            mode_colon_space: to_chars("mode: "),
            presentation: to_chars("mode: presentation"),
            editor: to_chars("mode: editor"),
            terminal: to_chars("mode: terminal"),
        }
    }
}

/// The block that the line `chars[lo..hi]` opens.
fn block_of_range(chars: &Vec<char>, lo: usize, hi: usize, p: &Patterns) -> (r: Option<
    &'static str,
>)
    requires
        lo <= hi <= chars.len(),
        p.wf(),
    ensures
        r matches Some(b) ==> block_opened_by(chars@.subrange(lo as int, hi as int)) == Some(b@),
        r is None ==> block_opened_by(chars@.subrange(lo as int, hi as int)) is None,
{
    let (a, b) = trim_range(chars, lo, hi);
    let brace = range_contains(chars, a, b, &p.brace);
    if range_contains(chars, a, b, &p.code) && brace {
        Some("code")
    } else if range_contains(chars, a, b, &p.scene) && brace {
        Some("scene")
    } else if range_contains(chars, a, b, &p.config) && brace {
        Some("config")
    } else {
        None
    }
}

/// The block around line `line` of `text`, found by scanning upwards for the
/// nearest line that opens a `code`, `scene` or `config` block.
pub fn get_current_block(text: &str, line: usize) -> (r: &'static str)
    ensures
        r@ == current_block(text@, line as int),
        r@ == "top"@ || r@ == "code"@ || r@ == "scene"@ || r@ == "config"@,
{
    proof {
        lemma_block_names(lines_of(text@), line + 1);
    }
    let chars = to_chars(text);
    let spans = line_spans(&chars);
    let ghost lines = lines_of(text@);
    if line >= spans.len() {
        return "top";
    }
    let p = Patterns::new();
    let mut n: usize = line + 1;
    while n > 0
        invariant
            n <= spans.len(),
            spans.len() == lines.len(),
            lines == lines_of(chars@),
            p.wf(),
            current_block(text@, line as int) == block_above(lines, n as int),
            forall|i: int|
                0 <= i < spans.len() ==> {
                    &&& #[trigger] spans@[i].0 <= spans@[i].1 <= chars.len()
                    &&& chars@.subrange(spans@[i].0 as int, spans@[i].1 as int) == lines[i]
                },
        decreases n,
    {
        let (a, b) = spans[n - 1];
        assert(spans@[n - 1].0 <= spans@[n - 1].1 <= chars.len());
        if let Some(block) = block_of_range(&chars, a, b, &p) {
            return block;
        }
        n = n - 1;
    }
    "top"
}

/// Line `line` of `text` without its surrounding white space, or the empty
/// string past the last line.
pub fn trimmed_line_context(text: &str, line: usize) -> (r: String)
    ensures
        r@ == trim(line_or_empty(lines_of(text@), line as int)),
{
    let chars = to_chars(text);
    let (a, b) = trimmed_line_range(&chars, line);
    String::from_str(vstd::string::StrSliceExecFns::substring_char(text, a, b))
}

/// The character range of line `line` of `chars` without its surrounding
/// white space (an empty range past the last line).
fn trimmed_line_range(chars: &Vec<char>, line: usize) -> (r: (usize, usize))
    ensures
        r.0 <= r.1 <= chars.len(),
        chars@.subrange(r.0 as int, r.1 as int) == trim(
            line_or_empty(lines_of(chars@), line as int),
        ),
{
    let spans = line_spans(chars);
    let (a, b) = if line < spans.len() {
        assert(spans@[line as int].0 <= spans@[line as int].1 <= chars.len());
        spans[line]
    } else {
        assert(chars@.subrange(0, 0) =~= Seq::<char>::empty());
        (0, 0)
    };
    trim_range(chars, a, b)
}


/// The mode that a (trimmed) line sets, tried in the order presentation,
/// editor, terminal.
pub open spec fn mode_set_by(line: Seq<char>) -> Option<Seq<char>> {
    if has_infix(line, "mode: presentation"@) {
        Some("presentation"@)
    } else if has_infix(line, "mode: editor"@) {
        Some("editor"@)
    } else if has_infix(line, "mode: terminal"@) {
        Some("terminal"@)
    } else {
        None
    }
}

/// The mode found by scanning lines `n - 1` down to 0 of `lines` for the scan
/// that starts at line `line`: the first line that sets a mode decides, and a
/// line that holds `scene` more than ten lines above `line` ends the scan with
/// `none`.
pub open spec fn active_mode_above(lines: Seq<Seq<char>>, line: int, n: int) -> Seq<char>
    decreases n,
{
    if n <= 0 {
        "none"@
    } else {
        let t = trim(lines[n - 1]);
        if has_infix(t, "scene"@) && n - 1 < line - 10 {
            "none"@
        } else {
            match mode_set_by(t) {
                Some(m) => m,
                None => active_mode_above(lines, line, n - 1),
            }
        }
    }
}

/// Scanning lines `n - 1` down to 0 of `lines`, a line that holds `scene`
/// comes before any line that sets a mode.
pub open spec fn scan_meets_scene(lines: Seq<Seq<char>>, n: int) -> bool
    decreases n,
{
    if n <= 0 {
        false
    } else {
        let t = trim(lines[n - 1]);
        if has_infix(t, "scene"@) {
            true
        } else if mode_set_by(t) is Some {
            false
        } else {
            scan_meets_scene(lines, n - 1)
        }
    }
}

/// The scan from line `line` meets a line that holds `scene` while `line` is
/// under ten, where the distance `line - 10` has no value in `usize`.
pub open spec fn active_mode_scan_underflows(lines: Seq<Seq<char>>, line: int, n: int) -> bool {
    line < 10 && scan_meets_scene(lines, n)
}

/// The mode that the (trimmed) line `chars[lo..hi]` sets.
fn mode_of_range(chars: &Vec<char>, lo: usize, hi: usize, p: &Patterns) -> (r: Option<
    &'static str,
>)
    requires
        lo <= hi <= chars.len(),
        p.wf(),
    ensures
        r matches Some(m) ==> mode_set_by(chars@.subrange(lo as int, hi as int)) == Some(m@),
        r is None ==> mode_set_by(chars@.subrange(lo as int, hi as int)) is None,
{
    if range_contains(chars, lo, hi, &p.presentation) {
        Some("presentation")
    } else if range_contains(chars, lo, hi, &p.editor) {
        Some("editor")
    } else if range_contains(chars, lo, hi, &p.terminal) {
        Some("terminal")
    } else {
        None
    }
}

/// The mode in force at line `line` of `text`, found by scanning upwards for
/// a line that sets one, but not past a scene header more than ten lines up;
/// `none` when the scan finds none.
pub fn get_active_mode(text: &str, line: usize) -> (r: &'static str)
    requires
        line < lines_of(text@).len(),
        !active_mode_scan_underflows(lines_of(text@), line as int, line + 1),
    ensures
        r@ == active_mode_above(lines_of(text@), line as int, line + 1),
{
    let chars = to_chars(text);
    let spans = line_spans(&chars);
    let ghost lines = lines_of(text@);
    let p = Patterns::new();
    let mut n: usize = line + 1;
    while n > 0
        invariant
            n <= spans.len(),
            line < spans.len(),
            spans.len() == lines.len(),
            lines == lines_of(chars@),
            lines == lines_of(text@),
            p.wf(),
            active_mode_above(lines, line as int, line + 1) == active_mode_above(
                lines,
                line as int,
                n as int,
            ),
            !active_mode_scan_underflows(lines, line as int, n as int),
            forall|i: int|
                0 <= i < spans.len() ==> {
                    &&& #[trigger] spans@[i].0 <= spans@[i].1 <= chars.len()
                    &&& chars@.subrange(spans@[i].0 as int, spans@[i].1 as int) == lines[i]
                },
        decreases n,
    {
        let i = n - 1;
        let (a, b) = spans[i];
        assert(spans@[i as int].0 <= spans@[i as int].1 <= chars.len());
        let (ta, tb) = trim_range(&chars, a, b);
        if range_contains(&chars, ta, tb, &p.scene) && i < line - 10 {
            return "none";
        }
        if let Some(m) = mode_of_range(&chars, ta, tb, &p) {
            return m;
        }
        n = i;
    }
    "none"
}

/// A property item: a label with a one-line detail and optional markdown
/// documentation.
pub open spec fn documented_property_item(
    label: Seq<char>,
    detail: Seq<char>,
    documentation: Option<Seq<char>>,
) -> CompletionView {
    CompletionView {
        label,
        kind: CompletionKind::Property,
        detail: Some(detail),
        documentation,
        insert_text: None,
        snippet_format: false,
    }
}

/// A property item: a label with a one-line detail and nothing else.
pub open spec fn property_item(label: Seq<char>, detail: Seq<char>) -> CompletionView {
    CompletionView {
        label,
        kind: CompletionKind::Property,
        detail: Some(detail),
        documentation: None,
        insert_text: None,
        snippet_format: false,
    }
}

/// The text of the scene template: a scene block with a placeholder for its
/// name and the cursor inside.
pub const SCENE_TEMPLATE_TEXT: &'static str = "scene \"${1:name}\" {\n\t$0\n}";

/// The snippet item that inserts a scene template.
pub open spec fn scene_template_item() -> CompletionView {
    CompletionView {
        label: "scene-template"@,
        kind: CompletionKind::Snippet,
        detail: Some("Full scene block template"@),
        documentation: None,
        insert_text: Some(SCENE_TEMPLATE_TEXT@),
        snippet_format: true,
    }
}

/// The items that a line-based reading offers at line `line` of `text`:
/// nothing while a scene header is still being typed, the three modes after
/// `mode:`, otherwise the properties of the enclosing scene or code block, or
/// at the top level a scene and a scene template.
pub open spec fn line_completions_for(text: Seq<char>, line: int) -> Option<Seq<CompletionView>> {
    let current = trim(line_or_empty(lines_of(text), line));
    let block = current_block(text, line);
    if has_prefix(current, "scene"@) && !has_infix(current, "{"@) {
        None
    } else if has_suffix(current, "mode:"@) || has_suffix(current, "mode: "@) {
        Some(
            seq![
                property_item("editor"@, "Standard code editor"@),
                property_item("presentation"@, "Slide view"@),
                property_item("terminal"@, "Interactive terminal"@),
            ],
        )
    } else if block == "scene"@ {
        if !has_infix(current, "scene"@) {
            Some(
                seq![
                    property_item("mode:"@, "Set display mode"@),
                    property_item("theme:"@, "Set syntax theme"@),
                    property_item("code"@, "Add a code block"@),
                ],
            )
        } else {
            Some(seq![])
        }
    } else if block == "code"@ {
        if !has_infix(current, "code"@) {
            Some(
                seq![
                    property_item("file:"@, "Source file path"@),
                    property_item("lines:"@, "Line range"@),
                ],
            )
        } else {
            Some(seq![])
        }
    } else {
        Some(
            seq![
                property_item("scene"@, "Start a new scene: scene \"name\" { }"@),
                scene_template_item(),
            ],
        )
    }
}

/// Inside a scene block, on a line that holds no `scene` and does not end
/// with `mode:` or `mode: `, the line-based reading offers exactly `mode:`,
/// `theme:` and `code`, whatever else the line holds.
pub proof fn law_scene_properties_while_typing(text: Seq<char>, line: int)
    requires
        current_block(text, line) == "scene"@,
        !has_infix(trim(line_or_empty(lines_of(text), line)), "scene"@),
        !has_suffix(trim(line_or_empty(lines_of(text), line)), "mode:"@),
        !has_suffix(trim(line_or_empty(lines_of(text), line)), "mode: "@),
    ensures
        line_completions_for(text, line) == Some(
            seq![
                property_item("mode:"@, "Set display mode"@),
                property_item("theme:"@, "Set syntax theme"@),
                property_item("code"@, "Add a code block"@),
            ],
        ),
{
    let current = trim(line_or_empty(lines_of(text), line));
    if has_prefix(current, "scene"@) {
        assert(occurs_at(current, "scene"@, 0));
    }
}

/// Inside a code block, on a line that holds no `code`, does not end with
/// `mode:` or `mode: ` and is no scene header being typed, the line-based
/// reading offers exactly `file:` and `lines:`, whatever else the line holds.
pub proof fn law_code_properties_while_typing(text: Seq<char>, line: int)
    requires
        current_block(text, line) == "code"@,
        !has_infix(trim(line_or_empty(lines_of(text), line)), "code"@),
        !has_suffix(trim(line_or_empty(lines_of(text), line)), "mode:"@),
        !has_suffix(trim(line_or_empty(lines_of(text), line)), "mode: "@),
        !(has_prefix(trim(line_or_empty(lines_of(text), line)), "scene"@) && !has_infix(
            trim(line_or_empty(lines_of(text), line)),
            "{"@,
        )),
    ensures
        line_completions_for(text, line) == Some(
            seq![
                property_item("file:"@, "Source file path"@),
                property_item("lines:"@, "Line range"@),
            ],
        ),
{
    reveal_strlit("code");
    reveal_strlit("scene");
    assert("code"@ != "scene"@) by {
        assert("code"@.len() != "scene"@.len());
    }
}

/// A property item labelled `label` with the detail `detail` and, where
/// given, the markdown documentation `doc`.
pub fn create_completion(label: &str, detail: &str, doc: Option<&str>) -> (c: Completion)
    ensures
        c@ == documented_property_item(
            label@,
            detail@,
            match doc {
                Some(d) => Some(d@),
                None => None,
            },
        ),
{
    Completion {
        label: String::from_str(label),
        kind: CompletionKind::Property,
        detail: Some(String::from_str(detail)),
        documentation: match doc {
            Some(d) => Some(String::from_str(d)),
            None => None,
        },
        insert_text: None,
        snippet_format: false,
    }
}

/// The items that a line-based reading offers at line `line` of `text`.
pub fn line_completions(text: &str, line: usize) -> (r: Option<Vec<Completion>>)
    ensures
        r matches Some(items) ==> line_completions_for(text@, line as int) == Some(
            completion_views(items@),
        ),
        r is None ==> line_completions_for(text@, line as int) is None,
{
    let chars = to_chars(text);
    let (a, b) = trimmed_line_range(&chars, line);
    let block = get_current_block(text, line);
    let p = Patterns::new();
    let ghost current = chars@.subrange(a as int, b as int);
    if range_starts_with(&chars, a, b, &p.scene) && !range_contains(&chars, a, b, &p.brace) {
        return None;
    }
    let mut items: Vec<Completion> = Vec::new();
    if range_ends_with(&chars, a, b, &p.mode_colon) || range_ends_with(
        &chars,
        a,
        b,
        &p.mode_colon_space,
    ) {
        items.push(create_completion("editor", "Standard code editor", None));
        items.push(create_completion("presentation", "Slide view", None));
        items.push(create_completion("terminal", "Interactive terminal", None));
    } else if crate::text::str_equal(block, "scene") {
        if !range_contains(&chars, a, b, &p.scene) {
            items.push(create_completion("mode:", "Set display mode", None));
            items.push(create_completion("theme:", "Set syntax theme", None));
            items.push(create_completion("code", "Add a code block", None));
        }
    } else if crate::text::str_equal(block, "code") {
        if !range_contains(&chars, a, b, &p.code) {
            items.push(create_completion("file:", "Source file path", None));
            items.push(create_completion("lines:", "Line range", None));
        }
    } else {
        items.push(create_completion("scene", "Start a new scene: scene \"name\" { }", None));
        items.push(
            Completion {
                label: String::from_str("scene-template"),
                kind: CompletionKind::Snippet,
                detail: Some(String::from_str("Full scene block template")),
                documentation: None,
                insert_text: Some(String::from_str(SCENE_TEMPLATE_TEXT)),
                snippet_format: true,
            },
        );
    }
    assert(line_completions_for(text@, line as int) == Some(completion_views(items@)));
    Some(items)
}

/// The hover text on a line that sets a mode.
pub const MODE_HOVER: &'static str = "### mode\nDefines the visual context for the current scene.\n- **editor**: Code with line numbers.\n- **presentation**: Clean content.";

/// The hover text that a line-based reading gives for line `line` of `text`:
/// the documentation of `mode` on a line that holds `mode:`.
pub fn mode_hover(text: &str, line: usize) -> (r: Option<String>)
    ensures
        opt_string_view(r) == (if has_infix(trim(line_or_empty(lines_of(text@), line as int)), "mode:"@) {
            Some(MODE_HOVER@)
        } else {
            None
        }),
{
    let chars = to_chars(text);
    let (a, b) = trimmed_line_range(&chars, line);
    let p = Patterns::new();
    if range_contains(&chars, a, b, &p.mode_colon) {
        Some(String::from_str(MODE_HOVER))
    } else {
        None
    }
}

} // verus!

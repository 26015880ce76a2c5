//! Diagnostics for a parsed document: every top-level scene must declare a
//! mode.

use vstd::prelude::*;
use vstd::string::StringSliceAdditionalSpecFns;
use crate::syntax::{
    child_count_of, child_of, end_point_of, fits_in, node_child, node_child_count, node_end_point,
    node_fits, node_kind, node_start_point, node_text, node_type, opt_str_view, root_node, root_of,
    start_point_of, text_of,
};
use crate::text::{has_infix, str_contains, str_equal};

verus! {

/// A position in a document: zero-based line and character.
#[derive(Debug, Clone, Copy, PartialEq, Eq, Structural)]
pub struct Position {
    pub line: u32,
    pub character: u32,
}

/// The span of a document between two positions.
#[derive(Debug, Clone, Copy, PartialEq, Eq, Structural)]
pub struct Range {
    pub start: Position,
    pub end: Position,
}

/// How serious a diagnostic is.
#[derive(Debug, Clone, Copy, PartialEq, Eq, Structural)]
pub enum Severity {
    Error,
    Warning,
    Information,
    Hint,
}

/// A problem reported on a span of a document.
#[derive(Debug, Clone)]
pub struct Diagnostic {
    pub range: Range,
    pub severity: Severity,
    pub message: String,
    pub source: String,
}

/// The mathematical content of a `Diagnostic`.
pub struct DiagnosticView {
    pub range: Range,
    pub severity: Severity,
    pub message: Seq<char>,
    pub source: Seq<char>,
}

impl View for Diagnostic {
    type V = DiagnosticView;

    open spec fn view(&self) -> DiagnosticView {
        DiagnosticView {
            range: self.range,
            severity: self.severity,
            message: self.message@,
            source: self.source@,
        }
    }
}

/// The views of a list of diagnostics.
pub open spec fn diagnostic_views(items: Seq<Diagnostic>) -> Seq<DiagnosticView> {
    items.map_values(|d: Diagnostic| d@)
}

/// What the diagnostics read of a top-level syntax node: its type, its text
/// (`None` where the source bytes it covers are not valid UTF-8) and the
/// (row, column) points where it starts and ends.
#[derive(Debug, Clone, Copy)]
pub struct NodeSummary<'a> {
    pub kind: &'a str,
    pub text: Option<&'a str>,
    pub start: (usize, usize),
    pub end: (usize, usize),
}

/// The mathematical content of a `NodeSummary`.
pub struct NodeFacts {
    pub kind: Seq<char>,
    pub text: Option<Seq<char>>,
    pub start: (usize, usize),
    pub end: (usize, usize),
}

impl<'a> View for NodeSummary<'a> {
    type V = NodeFacts;

    open spec fn view(&self) -> NodeFacts {
        NodeFacts {
            kind: self.kind@,
            text: opt_str_view(self.text),
            start: self.start,
            end: self.end,
        }
    }
}

/// The views of a list of node summaries.
pub open spec fn summary_views(nodes: Seq<NodeSummary>) -> Seq<NodeFacts> {
    nodes.map_values(|n: NodeSummary| n@)
}

/// The message of the diagnostic on a scene without a mode.
pub const MISSING_MODE_MESSAGE: &'static str = "Scene must declare a mode";

/// The source named in every diagnostic of this library.
pub const DIAGNOSTIC_SOURCE: &'static str = "rustimate";

/// The position of a (row, column) point; each coordinate is truncated to 32
/// bits, as the protocol's positions are.
pub open spec fn point_position(point: (usize, usize)) -> Position {
    Position { line: point.0 as u32, character: point.1 as u32 }
}

/// A scene's text declares a mode: it is readable and holds `mode:`.
pub open spec fn text_declares_mode(text: Option<Seq<char>>) -> bool {
    match text {
        Some(t) => has_infix(t, "mode:"@),
        None => false,
    }
}

/// The node is a scene that does not declare a mode.
pub open spec fn lacks_mode(node: NodeFacts) -> bool {
    node.kind == "scene_block"@ && !text_declares_mode(node.text)
}

/// The diagnostic on a scene without a mode, over the scene's whole span.
pub open spec fn missing_mode_diagnostic(node: NodeFacts) -> DiagnosticView {
    DiagnosticView {
        range: Range { start: point_position(node.start), end: point_position(node.end) },
        severity: Severity::Error,
        message: MISSING_MODE_MESSAGE@,
        source: DIAGNOSTIC_SOURCE@,
    }
}

/// One diagnostic for each scene without a mode, in the order of the nodes.
pub open spec fn expected_diagnostics(nodes: Seq<NodeFacts>) -> Seq<DiagnosticView>
    decreases nodes.len(),
{
    if nodes.len() == 0 {
        seq![]
    } else {
        let rest = expected_diagnostics(nodes.drop_last());
        if lacks_mode(nodes.last()) {
            rest.push(missing_mode_diagnostic(nodes.last()))
        } else {
            rest
        }
    }
}

/// Whether a scene's text declares a mode.
pub fn scene_has_mode(text: Option<&str>) -> (r: bool)
    ensures
        r == text_declares_mode(opt_str_view(text)),
{
    match text {
        Some(t) => str_contains(t, "mode:"),
        None => false,
    }
}

/// The position of a (row, column) point.
pub fn to_position(point: (usize, usize)) -> (p: Position)
    ensures
        p == point_position(point),
{
    Position {
        line: #[verifier::truncate] (point.0 as u32),
        character: #[verifier::truncate] (point.1 as u32),
    }
}

/// The diagnostics on a list of top-level nodes: one error for each scene
/// that does not declare a mode.
pub fn scene_diagnostics(nodes: &Vec<NodeSummary>) -> (r: Vec<Diagnostic>)
    ensures
        diagnostic_views(r@) == expected_diagnostics(summary_views(nodes@)),
{
    let mut r: Vec<Diagnostic> = Vec::new();
    let mut i: usize = 0;
    let ghost facts = summary_views(nodes@);
    assert(facts.take(0) =~= Seq::<NodeFacts>::empty());
    assert(diagnostic_views(r@) =~= Seq::<DiagnosticView>::empty());
    while i < nodes.len()
        invariant
            i <= nodes.len(),
            facts == summary_views(nodes@),
            diagnostic_views(r@) == expected_diagnostics(facts.take(i as int)),
        decreases nodes.len() - i,
    {
        let node = nodes[i];
        assert(facts.take(i + 1).drop_last() =~= facts.take(i as int));
        assert(facts.take(i + 1).last() == node@);
        let ghost before = r@;
        if str_equal(node.kind, "scene_block") && !scene_has_mode(node.text) {
            r.push(
                Diagnostic {
                    range: Range { start: to_position(node.start), end: to_position(node.end) },
                    severity: Severity::Error,
                    message: String::from_str(MISSING_MODE_MESSAGE),
                    source: String::from_str(DIAGNOSTIC_SOURCE),
                },
            );
            assert(diagnostic_views(r@) =~= diagnostic_views(before).push(
                missing_mode_diagnostic(node@),
            ));
        }
        i = i + 1;
    }
    assert(facts.take(nodes.len() as int) =~= facts);
    r
}

/// Every expected diagnostic is a missing-mode error on one of the nodes, and
/// there are no more of them than nodes.
pub proof fn lemma_expected_diagnostics_shape(nodes: Seq<NodeFacts>)
    ensures
        expected_diagnostics(nodes).len() <= nodes.len(),
        forall|k: int|
            0 <= k < expected_diagnostics(nodes).len() ==> {
                let d = #[trigger] expected_diagnostics(nodes)[k];
                &&& d.severity == Severity::Error
                &&& d.message == MISSING_MODE_MESSAGE@
                &&& d.source == DIAGNOSTIC_SOURCE@
            },
    decreases nodes.len(),
{
    if nodes.len() > 0 {
        lemma_expected_diagnostics_shape(nodes.drop_last());
    }
}

/// A document whose top-level scenes all declare a mode raises no
/// diagnostic.
pub proof fn law_declared_modes_raise_nothing(nodes: Seq<NodeFacts>)
    requires
        forall|i: int|
            0 <= i < nodes.len() && (#[trigger] nodes[i]).kind == "scene_block"@
                ==> text_declares_mode(nodes[i].text),
    ensures
        expected_diagnostics(nodes).len() == 0,
    decreases nodes.len(),
{
    if nodes.len() > 0 {
        assert forall|i: int|
            0 <= i < nodes.drop_last().len() && (#[trigger] nodes.drop_last()[i]).kind
                == "scene_block"@ implies text_declares_mode(nodes.drop_last()[i].text) by {
            assert(nodes.drop_last()[i] == nodes[i]);
        }
        law_declared_modes_raise_nothing(nodes.drop_last());
        assert(!lacks_mode(nodes[nodes.len() - 1]));
    }
}

/// There is exactly one diagnostic for each top-level scene without a mode,
/// in the order of the scenes, each over its scene's span.
pub proof fn law_one_diagnostic_per_scene_without_mode(nodes: Seq<NodeFacts>)
    ensures
        expected_diagnostics(nodes) == nodes.filter(|n: NodeFacts| lacks_mode(n)).map_values(
            |n: NodeFacts| missing_mode_diagnostic(n),
        ),
    decreases nodes.len(),
{
    reveal_with_fuel(Seq::<_>::filter, 1);
    if nodes.len() > 0 {
        law_one_diagnostic_per_scene_without_mode(nodes.drop_last());
        let pred = |n: NodeFacts| lacks_mode(n);
        let f = |n: NodeFacts| missing_mode_diagnostic(n);
        let rest = nodes.drop_last().filter(pred);
        if lacks_mode(nodes.last()) {
            assert(rest.push(nodes.last()).map_values(f) =~= rest.map_values(f).push(
                f(nodes.last()),
            ));
        }
    } else {
        assert(nodes.filter(|n: NodeFacts| lacks_mode(n)) =~= Seq::<NodeFacts>::empty());
        assert(nodes.filter(|n: NodeFacts| lacks_mode(n)).map_values(
            |n: NodeFacts| missing_mode_diagnostic(n),
        ) =~= Seq::<DiagnosticView>::empty());
    }
}

/// What the diagnostics read of a node of a tree parsed from `source`: its
/// type, its text where it is a scene, and its start and end points.
pub open spec fn node_facts(node: tree_sitter::Node, source: Seq<u8>) -> NodeFacts {
    NodeFacts {
        kind: node_type(node),
        text: if node_type(node) == "scene_block"@ {
            text_of(node, source)
        } else {
            None
        },
        start: start_point_of(node),
        end: end_point_of(node),
    }
}

/// The facts of the first `n` children of `root` (children that tree-sitter
/// does not give are skipped).
pub open spec fn children_facts(root: tree_sitter::Node, source: Seq<u8>, n: nat) -> Seq<NodeFacts>
    decreases n,
{
    if n == 0 {
        seq![]
    } else {
        let rest = children_facts(root, source, (n - 1) as nat);
        match child_of(root, (n - 1) as usize) {
            Some(c) => rest.push(node_facts(c, source)),
            None => rest,
        }
    }
}

/// The facts of the top-level nodes of `tree`, in order.
pub open spec fn top_level_facts(tree: &tree_sitter::Tree, source: Seq<u8>) -> Seq<NodeFacts> {
    children_facts(root_of(tree), source, child_count_of(root_of(tree)) as nat)
}

/// The diagnostics of `tree`, parsed from `source`.
pub open spec fn tree_diagnostics(tree: &tree_sitter::Tree, source: Seq<u8>) -> Seq<
    DiagnosticView,
> {
    expected_diagnostics(top_level_facts(tree, source))
}

/// Every top-level scene among the first `n` children of `root` fits in a
/// source of `len` bytes, so that its text can be read.
pub open spec fn scenes_fit_upto(root: tree_sitter::Node, len: nat, n: nat) -> bool {
    forall|i: int|
        0 <= i < n ==> match #[trigger] child_of(root, i as usize) {
            Some(c) => node_type(c) == "scene_block"@ ==> fits_in(c, len),
            None => true,
        }
}

/// Every top-level scene of `tree` fits in a source of `len` bytes.
pub open spec fn top_level_scenes_fit(tree: &tree_sitter::Tree, len: nat) -> bool {
    scenes_fit_upto(root_of(tree), len, child_count_of(root_of(tree)) as nat)
}

/// There is exactly one diagnostic for each top-level scene of a tree that
/// does not declare a mode, in order, over the scene's span.
pub proof fn law_tree_one_diagnostic_per_scene_without_mode(
    tree: &tree_sitter::Tree,
    source: Seq<u8>,
)
    ensures
        tree_diagnostics(tree, source) == top_level_facts(tree, source).filter(
            |n: NodeFacts| lacks_mode(n),
        ).map_values(|n: NodeFacts| missing_mode_diagnostic(n)),
{
    law_one_diagnostic_per_scene_without_mode(top_level_facts(tree, source));
}

proof fn lemma_child_in_facts(
    root: tree_sitter::Node,
    source: Seq<u8>,
    n: nat,
    i: usize,
    c: tree_sitter::Node,
)
    requires
        i < n,
        child_of(root, i) == Some(c),
    ensures
        exists|j: int|
            0 <= j < children_facts(root, source, n).len() && children_facts(root, source, n)[j]
                == node_facts(c, source),
    decreases n,
{
    let facts = children_facts(root, source, n);
    if i == n - 1 {
        assert(facts[facts.len() - 1] == node_facts(c, source));
    } else {
        lemma_child_in_facts(root, source, (n - 1) as nat, i, c);
        let rest = children_facts(root, source, (n - 1) as nat);
        let j = choose|j: int| 0 <= j < rest.len() && rest[j] == node_facts(c, source);
        assert(facts[j] == rest[j]);
    }
}

proof fn lemma_lacking_is_reported(nodes: Seq<NodeFacts>, j: int)
    requires
        0 <= j < nodes.len(),
        lacks_mode(nodes[j]),
    ensures
        exists|k: int|
            0 <= k < expected_diagnostics(nodes).len() && expected_diagnostics(nodes)[k]
                == missing_mode_diagnostic(nodes[j]),
    decreases nodes.len(),
{
    let ds = expected_diagnostics(nodes);
    if j == nodes.len() - 1 {
        assert(ds[ds.len() - 1] == missing_mode_diagnostic(nodes[j]));
    } else {
        lemma_lacking_is_reported(nodes.drop_last(), j);
        let rest = expected_diagnostics(nodes.drop_last());
        let k = choose|k: int| 0 <= k < rest.len() && rest[k] == missing_mode_diagnostic(
            nodes.drop_last()[j],
        );
        assert(ds[k] == rest[k]);
    }
}

/// Every top-level scene of a tree whose text does not hold `mode:` is
/// reported: one of the tree's diagnostics is the missing-mode error over
/// that scene's span.
pub proof fn law_every_top_level_scene_without_mode_is_reported(
    tree: &tree_sitter::Tree,
    source: Seq<u8>,
    i: usize,
    c: tree_sitter::Node,
)
    requires
        i < child_count_of(root_of(tree)),
        child_of(root_of(tree), i) == Some(c),
        node_type(c) == "scene_block"@,
        !text_declares_mode(text_of(c, source)),
    ensures
        exists|k: int|
            0 <= k < tree_diagnostics(tree, source).len() && tree_diagnostics(tree, source)[k]
                == (DiagnosticView {
                range: Range {
                    start: point_position(start_point_of(c)),
                    end: point_position(end_point_of(c)),
                },
                severity: Severity::Error,
                message: MISSING_MODE_MESSAGE@,
                source: DIAGNOSTIC_SOURCE@,
            }),
{
    let root = root_of(tree);
    let facts = top_level_facts(tree, source);
    lemma_child_in_facts(root, source, child_count_of(root) as nat, i, c);
    let j = choose|j: int| 0 <= j < facts.len() && facts[j] == node_facts(c, source);
    lemma_lacking_is_reported(facts, j);
    let ds = tree_diagnostics(tree, source);
    let k = choose|k: int| 0 <= k < ds.len() && ds[k] == missing_mode_diagnostic(facts[j]);
    assert(missing_mode_diagnostic(facts[j]) == (DiagnosticView {
        range: Range {
            start: point_position(start_point_of(c)),
            end: point_position(end_point_of(c)),
        },
        severity: Severity::Error,
        message: MISSING_MODE_MESSAGE@,
        source: DIAGNOSTIC_SOURCE@,
    }));
    assert(0 <= k < ds.len());
}

proof fn lemma_reported_lacks(nodes: Seq<NodeFacts>, k: int)
    requires
        0 <= k < expected_diagnostics(nodes).len(),
    ensures
        exists|j: int|
            0 <= j < nodes.len() && lacks_mode(nodes[j]) && expected_diagnostics(nodes)[k]
                == missing_mode_diagnostic(nodes[j]),
    decreases nodes.len(),
{
    let rest = expected_diagnostics(nodes.drop_last());
    if k < rest.len() {
        lemma_reported_lacks(nodes.drop_last(), k);
        let j = choose|j: int|
            0 <= j < nodes.drop_last().len() && lacks_mode(nodes.drop_last()[j])
                && rest[k] == missing_mode_diagnostic(nodes.drop_last()[j]);
        assert(nodes[j] == nodes.drop_last()[j]);
    } else {
        assert(nodes[nodes.len() - 1] == nodes.last());
    }
}

proof fn lemma_facts_from_children(root: tree_sitter::Node, source: Seq<u8>, n: nat, j: int)
    requires
        0 <= j < children_facts(root, source, n).len(),
    ensures
        exists|i: usize|
            i < n && #[trigger] child_of(root, i) is Some && children_facts(root, source, n)[j]
                == node_facts(child_of(root, i)->0, source),
    decreases n,
{
    let rest = children_facts(root, source, (n - 1) as nat);
    if j < rest.len() {
        lemma_facts_from_children(root, source, (n - 1) as nat, j);
    } else {
        assert(child_of(root, (n - 1) as usize) is Some);
    }
}

/// Every diagnostic of a tree is the missing-mode error over a top-level
/// scene whose text does not hold `mode:`.
pub proof fn law_every_report_is_a_top_level_scene_without_mode(
    tree: &tree_sitter::Tree,
    source: Seq<u8>,
    k: int,
)
    requires
        0 <= k < tree_diagnostics(tree, source).len(),
    ensures
        exists|i: usize|
            i < child_count_of(root_of(tree)) && #[trigger] child_of(root_of(tree), i) is Some && {
                let c = child_of(root_of(tree), i)->0;
                &&& node_type(c) == "scene_block"@
                &&& !text_declares_mode(text_of(c, source))
                &&& tree_diagnostics(tree, source)[k].range == Range {
                    start: point_position(start_point_of(c)),
                    end: point_position(end_point_of(c)),
                }
            },
{
    let root = root_of(tree);
    let facts = top_level_facts(tree, source);
    lemma_reported_lacks(facts, k);
    let j = choose|j: int|
        0 <= j < facts.len() && lacks_mode(facts[j]) && expected_diagnostics(facts)[k]
            == missing_mode_diagnostic(facts[j]);
    lemma_facts_from_children(root, source, child_count_of(root) as nat, j);
}

/// The summary of a node of a tree parsed from `source`: only a scene's
/// text is read.
fn summarize<'a>(node: tree_sitter::Node<'_>, source: &'a str) -> (s: NodeSummary<'a>)
    requires
        node_type(node) == "scene_block"@ ==> fits_in(node, source.spec_bytes().len()),
    ensures
        s@ == node_facts(node, source.spec_bytes()),
{
    let kind: &'static str = node_kind(node);
    let text = if str_equal(kind, "scene_block") {
        node_text(node, source)
    } else {
        None
    };
    NodeSummary { kind, text, start: node_start_point(node), end: node_end_point(node) }
}

/// Whether every top-level scene of `tree` lies within `source`, as it does
/// where `tree` was parsed from `source`.
pub fn scenes_fit(tree: &tree_sitter::Tree, source: &str) -> (r: bool)
    ensures
        r == top_level_scenes_fit(tree, source.spec_bytes().len()),
{
    let root = root_node(tree);
    let count = node_child_count(root);
    let mut i: usize = 0;
    while i < count
        invariant
            i <= count,
            root == root_of(tree),
            count == child_count_of(root),
            scenes_fit_upto(root, source.spec_bytes().len(), i as nat),
        decreases count - i,
    {
        assert(child_of(root, i) == child_of(root, (i as int) as usize));
        if let Some(child) = node_child(root, i) {
            if str_equal(node_kind(child), "scene_block") && !node_fits(child, source) {
                return false;
            }
        }
        i = i + 1;
    }
    true
}

/// The diagnostics on a tree parsed from `source`: an error over each
/// top-level scene whose text does not hold `mode:`. Each top-level scene
/// must lie within `source`, as it does in the tree parsed from `source`.
pub fn collect_diagnostics(tree: &tree_sitter::Tree, source: &str) -> (r: Vec<Diagnostic>)
    requires
        top_level_scenes_fit(tree, source.spec_bytes().len()),
    ensures
        diagnostic_views(r@) == tree_diagnostics(tree, source.spec_bytes()),
        forall|k: int|
            0 <= k < r.len() ==> {
                &&& (#[trigger] r@[k]).severity == Severity::Error
                &&& r@[k].message@ == MISSING_MODE_MESSAGE@
                &&& r@[k].source@ == DIAGNOSTIC_SOURCE@
            },
{
    let root = root_node(tree);
    let count = node_child_count(root);
    let ghost bytes = source.spec_bytes();
    let mut nodes: Vec<NodeSummary> = Vec::new();
    let mut i: usize = 0;
    assert(summary_views(nodes@) =~= children_facts(root, bytes, 0));
    while i < count
        invariant
            i <= count,
            root == root_of(tree),
            count == child_count_of(root),
            bytes == source.spec_bytes(),
            scenes_fit_upto(root, bytes.len(), count as nat),
            summary_views(nodes@) == children_facts(root, bytes, i as nat),
        decreases count - i,
    {
        let ghost before = nodes@;
        assert(child_of(root, i) == child_of(root, (i as int) as usize));
        if let Some(child) = node_child(root, i) {
            let summary = summarize(child, source);
            nodes.push(summary);
            assert(summary_views(nodes@) =~= summary_views(before).push(summary@));
        }
        i = i + 1;
    }
    let r = scene_diagnostics(&nodes);
    proof {
        lemma_expected_diagnostics_shape(summary_views(nodes@));
        assert forall|k: int| 0 <= k < r.len() implies {
            &&& (#[trigger] r@[k]).severity == Severity::Error
            &&& r@[k].message@ == MISSING_MODE_MESSAGE@
            &&& r@[k].source@ == DIAGNOSTIC_SOURCE@
        } by {
            assert(diagnostic_views(r@)[k] == r@[k]@);
        }
    }
    r
}

} // verus!

//! Parsing Rustimate documents and reading the syntax tree around a cursor:
//! which block encloses a node, and which mode its scene declares.

use vstd::prelude::*;
use vstd::string::StringSliceAdditionalSpecFns;
use crate::syntax::{
    language_abi, loaded_grammar, tree_grammar, tree_text, MIN_COMPATIBLE_ABI, NEWEST_ABI, node_fits, abi_supported, assign_language, child_count_of, child_of, descendant_at, descendant_at_point,
    end_point_of, fits_in, language_abi_version, new_parser, node_child, node_child_count,
    node_kind, node_parent, node_text, node_type, opt_str_view, parent_of, parse_text,
    point_before, root_node, root_of, start_point_of, text_of, LoadedParser,
};
use crate::text::{has_infix, str_contains, str_equal};

verus! {

/// The kind of block that encloses a position in a document.
#[derive(Debug, Clone, Copy, PartialEq, Eq, Structural)]
pub enum BlockContext {
    Top,
    Scene,
    Code,
    Config,
    Unknown,
}

/// The block context that a syntax node of type `kind` opens, if any.
pub open spec fn context_of_kind(kind: Seq<char>) -> Option<BlockContext> {
    if kind == "scene_block"@ {
        Some(BlockContext::Scene)
    } else if kind == "code_block"@ {
        Some(BlockContext::Code)
    } else if kind == "config_block"@ {
        Some(BlockContext::Config)
    } else if kind == "source_file"@ {
        Some(BlockContext::Top)
    } else {
        None
    }
}

/// The context of the innermost block in an ancestry, listed from a node up
/// to the root: `Unknown` when no node in it opens a block.
pub open spec fn context_of_ancestry(kinds: Seq<Seq<char>>) -> BlockContext
    decreases kinds.len(),
{
    if kinds.len() == 0 {
        BlockContext::Unknown
    } else {
        match context_of_kind(kinds[0]) {
            Some(c) => c,
            None => context_of_ancestry(kinds.drop_first()),
        }
    }
}

/// The views of a list of strings.
pub open spec fn str_views(items: Seq<&str>) -> Seq<Seq<char>> {
    items.map_values(|s: &str| s@)
}

/// The block context that a syntax node of type `kind` opens, if any.
pub fn context_for_kind(kind: &str) -> (r: Option<BlockContext>)
    ensures
        r == context_of_kind(kind@),
{
    if str_equal(kind, "scene_block") {
        Some(BlockContext::Scene)
    } else if str_equal(kind, "code_block") {
        Some(BlockContext::Code)
    } else if str_equal(kind, "config_block") {
        Some(BlockContext::Config)
    } else if str_equal(kind, "source_file") {
        Some(BlockContext::Top)
    } else {
        None
    }
}

/// The context of the innermost block, given the node types from a node up to
/// the root.
pub fn context_of_kinds(kinds: &Vec<&str>) -> (r: BlockContext)
    ensures
        r == context_of_ancestry(str_views(kinds@)),
{
    let ghost all = str_views(kinds@);
    let mut i: usize = 0;
    assert(all.skip(0) =~= all);
    while i < kinds.len()
        invariant
            i <= kinds.len(),
            all == str_views(kinds@),
            context_of_ancestry(all) == context_of_ancestry(all.skip(i as int)),
        decreases kinds.len() - i,
    {
        assert(all.skip(i as int)[0] == kinds@[i as int]@);
        assert(all.skip(i as int).drop_first() =~= all.skip(i + 1));
        if let Some(c) = context_for_kind(kinds[i]) {
            return c;
        }
        i = i + 1;
    }
    BlockContext::Unknown
}

/// The mode that the text of a `mode_property` node names, tried in the order
/// presentation, editor, terminal.
pub open spec fn mode_of_text(text: Seq<char>) -> Option<Seq<char>> {
    if has_infix(text, "presentation"@) {
        Some("presentation"@)
    } else if has_infix(text, "editor"@) {
        Some("editor"@)
    } else if has_infix(text, "terminal"@) {
        Some("terminal"@)
    } else {
        None
    }
}

/// The mode declared by a list of `mode_property` texts, read in order: the
/// first that names a mode decides, and an unreadable text (`None`) ends the
/// search with no mode.
pub open spec fn mode_of_properties(texts: Seq<Option<Seq<char>>>) -> Option<Seq<char>>
    decreases texts.len(),
{
    if texts.len() == 0 {
        None
    } else {
        match texts[0] {
            None => None,
            Some(t) => match mode_of_text(t) {
                Some(m) => Some(m),
                None => mode_of_properties(texts.drop_first()),
            },
        }
    }
}

/// The views of a list of optional strings.
pub open spec fn opt_str_views(items: Seq<Option<&str>>) -> Seq<Option<Seq<char>>> {
    items.map_values(|o: Option<&str>| match o {
        Some(s) => Some(s@),
        None => None,
    })
}

/// The view of an optional `String`.
pub open spec fn opt_string_view(o: Option<String>) -> Option<Seq<char>> {
    match o {
        Some(s) => Some(s@),
        None => None,
    }
}

/// The mode that the text of a `mode_property` node names, if any.
pub fn mode_in_text(text: &str) -> (r: Option<String>)
    ensures
        opt_string_view(r) == mode_of_text(text@),
{
    if str_contains(text, "presentation") {
        Some(String::from_str("presentation"))
    } else if str_contains(text, "editor") {
        Some(String::from_str("editor"))
    } else if str_contains(text, "terminal") {
        Some(String::from_str("terminal"))
    } else {
        None
    }
}

/// The mode declared by the `mode_property` texts of the enclosing scenes,
/// listed from the innermost scene outwards.
pub fn mode_of_property_texts(texts: &Vec<Option<&str>>) -> (r: Option<String>)
    ensures
        opt_string_view(r) == mode_of_properties(opt_str_views(texts@)),
{
    let ghost all = opt_str_views(texts@);
    let mut i: usize = 0;
    assert(all.skip(0) =~= all);
    while i < texts.len()
        invariant
            i <= texts.len(),
            all == opt_str_views(texts@),
            mode_of_properties(all) == mode_of_properties(all.skip(i as int)),
        decreases texts.len() - i,
    {
        assert(all.skip(i as int).drop_first() =~= all.skip(i + 1));
        match texts[i] {
            None => {
                return None;
            },
            Some(t) => {
                let m = mode_in_text(t);
                if m.is_some() {
                    return m;
                }
            },
        }
        i = i + 1;
    }
    None
}

/// The context is `Unknown` exactly when no node of the ancestry opens a
/// block; otherwise it is the block of the innermost node that opens one.
pub proof fn law_innermost_block_decides(kinds: Seq<Seq<char>>)
    ensures
        context_of_ancestry(kinds) == BlockContext::Unknown <==> forall|i: int|
            0 <= i < kinds.len() ==> (#[trigger] context_of_kind(kinds[i])) is None,
        forall|i: int|
            0 <= i < kinds.len() && (#[trigger] context_of_kind(kinds[i])) is Some && (forall|
                j: int,
            | 0 <= j < i ==> context_of_kind(kinds[j]) is None) ==> context_of_ancestry(kinds)
                == context_of_kind(kinds[i])->0,
    decreases kinds.len(),
{
    if kinds.len() > 0 {
        law_innermost_block_decides(kinds.drop_first());
        assert forall|i: int| 0 < i < kinds.len() implies kinds[i] == kinds.drop_first()[i
            - 1] by {}
        if context_of_kind(kinds[0]) is None {
            assert forall|i: int|
                0 <= i < kinds.len() && (#[trigger] context_of_kind(kinds[i])) is Some && (forall|
                    j: int,
                | 0 <= j < i ==> context_of_kind(kinds[j]) is None) implies context_of_ancestry(
                kinds,
            ) == context_of_kind(kinds[i])->0 by {
                assert(i > 0);
                assert(kinds.drop_first()[i - 1] == kinds[i]);
                assert forall|j: int| 0 <= j < i - 1 implies context_of_kind(
                    kinds.drop_first()[j],
                ) is None by {
                    assert(kinds.drop_first()[j] == kinds[j + 1]);
                }
            }
            if forall|i: int| 0 <= i < kinds.drop_first().len() ==> (#[trigger] context_of_kind(
                kinds.drop_first()[i],
            )) is None {
                assert forall|i: int| 0 <= i < kinds.len() implies (#[trigger] context_of_kind(
                    kinds[i],
                )) is None by {
                    if i > 0 {
                        assert(kinds.drop_first()[i - 1] == kinds[i]);
                    }
                }
            }
        }
    }
}

/// The text is readable and names mode `m`.
pub open spec fn names_mode(text: Option<Seq<char>>, m: Seq<char>) -> bool {
    match text {
        Some(t) => mode_of_text(t) == Some(m),
        None => false,
    }
}

/// A detected mode is one of the three modes, and some readable
/// `mode_property` text names it.
pub proof fn law_detected_mode_is_named(texts: Seq<Option<Seq<char>>>)
    ensures
        mode_of_properties(texts) matches Some(m) ==> {
            &&& m == "presentation"@ || m == "editor"@ || m == "terminal"@
            &&& exists|i: int| 0 <= i < texts.len() && names_mode(#[trigger] texts[i], m)
        },
    decreases texts.len(),
{
    if texts.len() > 0 {
        law_detected_mode_is_named(texts.drop_first());
        if let Some(m) = mode_of_properties(texts) {
            if let Some(t) = texts[0] {
                if mode_of_text(t) is None {
                    let i = choose|i: int|
                        0 <= i < texts.drop_first().len() && names_mode(
                            #[trigger] texts.drop_first()[i],
                            m,
                        );
                    assert(texts[i + 1] == texts.drop_first()[i]);
                }
            }
        }
    }
}

/// A node and its ancestors, innermost first, as far as `fuel` parent steps
/// reach.
pub open spec fn ancestry(node: tree_sitter::Node, fuel: nat) -> Seq<tree_sitter::Node>
    decreases fuel,
{
    if fuel == 0 {
        seq![node]
    } else {
        match parent_of(node) {
            Some(p) => seq![node] + ancestry(p, (fuel - 1) as nat),
            None => seq![node],
        }
    }
}

/// A node and its ancestors up to the root, innermost first. The walk stops
/// after `usize::MAX` parent steps, which no tree in memory reaches.
pub open spec fn ancestors_of(node: tree_sitter::Node) -> Seq<tree_sitter::Node> {
    ancestry(node, usize::MAX as nat)
}

/// The type names of a list of nodes.
pub open spec fn node_types(nodes: Seq<tree_sitter::Node>) -> Seq<Seq<char>> {
    nodes.map_values(|n: tree_sitter::Node| node_type(n))
}

/// The context of the innermost block around `node` in its tree.
pub open spec fn block_context_of(node: tree_sitter::Node) -> BlockContext {
    context_of_ancestry(node_types(ancestors_of(node)))
}

/// The texts of the `mode_property` nodes among the first `n` children of
/// `scene`, in order.
pub open spec fn property_texts(scene: tree_sitter::Node, source: Seq<u8>, n: nat) -> Seq<
    Option<Seq<char>>,
>
    decreases n,
{
    if n == 0 {
        seq![]
    } else {
        let rest = property_texts(scene, source, (n - 1) as nat);
        match child_of(scene, (n - 1) as usize) {
            Some(c) => if node_type(c) == "mode_property"@ {
                rest.push(text_of(c, source))
            } else {
                rest
            },
            None => rest,
        }
    }
}

/// The `mode_property` texts of a node that is a scene; none for any other
/// node.
pub open spec fn scene_property_texts(node: tree_sitter::Node, source: Seq<u8>) -> Seq<
    Option<Seq<char>>,
> {
    if node_type(node) == "scene_block"@ {
        property_texts(node, source, child_count_of(node) as nat)
    } else {
        seq![]
    }
}

/// The `mode_property` texts of the scenes among `nodes`, in the order of
/// the nodes.
pub open spec fn enclosing_property_texts(nodes: Seq<tree_sitter::Node>, source: Seq<u8>) -> Seq<
    Option<Seq<char>>,
>
    decreases nodes.len(),
{
    if nodes.len() == 0 {
        seq![]
    } else {
        enclosing_property_texts(nodes.drop_last(), source) + scene_property_texts(
            nodes.last(),
            source,
        )
    }
}

/// Every `mode_property` child among the first `n` children of `scene` fits
/// in a source of `len` bytes.
pub open spec fn properties_fit_upto(scene: tree_sitter::Node, len: nat, n: nat) -> bool {
    forall|i: int|
        0 <= i < n ==> match #[trigger] child_of(scene, i as usize) {
            Some(c) => node_type(c) == "mode_property"@ ==> fits_in(c, len),
            None => true,
        }
}

/// Every `mode_property` child of every scene among `nodes` fits in a source
/// of `len` bytes, so that its text can be read.
pub open spec fn scene_properties_fit(nodes: Seq<tree_sitter::Node>, len: nat) -> bool {
    forall|k: int|
        0 <= k < nodes.len() && node_type(#[trigger] nodes[k]) == "scene_block"@
            ==> properties_fit_upto(nodes[k], len, child_count_of(nodes[k]) as nat)
}

/// The mode that the scenes around `node` declare: the first `mode_property`
/// text, innermost scene first, that names a mode.
pub open spec fn scene_mode_of(node: tree_sitter::Node, source: Seq<u8>) -> Option<Seq<char>> {
    mode_of_properties(enclosing_property_texts(ancestors_of(node), source))
}

proof fn lemma_ancestry_settles(node: tree_sitter::Node, fuel: nat)
    requires
        parent_of(ancestry(node, fuel).last()) is None,
    ensures
        ancestry(node, fuel + 1) == ancestry(node, fuel),
    decreases fuel,
{
    if fuel > 0 {
        if let Some(p) = parent_of(node) {
            assert(ancestry(node, fuel).last() == ancestry(p, (fuel - 1) as nat).last());
            lemma_ancestry_settles(p, (fuel - 1) as nat);
        }
    }
}

/// A node that opens no block lies in the same block as its parent, where
/// the parent's ancestors reach the root within the walk's bound.
pub proof fn law_block_context_of_parent(node: tree_sitter::Node, parent: tree_sitter::Node)
    requires
        context_of_kind(node_type(node)) is None,
        parent_of(node) == Some(parent),
        parent_of(ancestry(parent, (usize::MAX - 1) as nat).last()) is None,
    ensures
        block_context_of(node) == block_context_of(parent),
{
    let rest = ancestry(parent, (usize::MAX - 1) as nat);
    lemma_ancestry_settles(parent, (usize::MAX - 1) as nat);
    assert(ancestors_of(node) == seq![node] + rest);
    assert(node_types(seq![node] + rest).drop_first() =~= node_types(rest));
    assert(ancestors_of(parent) == rest);
}

/// A node that opens a block lies in that block, whatever its ancestors.
pub proof fn law_node_opening_block_decides(node: tree_sitter::Node)
    ensures
        node_type(node) == "scene_block"@ ==> block_context_of(node) == BlockContext::Scene,
        node_type(node) == "code_block"@ ==> block_context_of(node) == BlockContext::Code,
        node_type(node) == "config_block"@ ==> block_context_of(node) == BlockContext::Config,
        node_type(node) == "source_file"@ ==> block_context_of(node) == BlockContext::Top,
{
    let a = ancestors_of(node);
    assert(a[0] == node);
    assert(a.len() > 0);
    assert(node_types(a)[0] == node_type(node));
    reveal_strlit("scene_block");
    reveal_strlit("code_block");
    reveal_strlit("config_block");
    assert("code_block"@ != "scene_block"@) by {
        assert("code_block"@.len() != "scene_block"@.len());
    }
    assert("config_block"@ != "scene_block"@) by {
        assert("config_block"@.len() != "scene_block"@.len());
    }
    assert("config_block"@ != "code_block"@) by {
        assert("config_block"@.len() != "code_block"@.len());
    }
    reveal_strlit("source_file");
    assert("source_file"@ != "scene_block"@) by {
        assert("source_file"@[1] != "scene_block"@[1]);
    }
    assert("source_file"@ != "code_block"@) by {
        assert("source_file"@.len() != "code_block"@.len());
    }
    assert("source_file"@ != "config_block"@) by {
        assert("source_file"@.len() != "config_block"@.len());
    }
}

proof fn lemma_enclosing_prepend(
    n: tree_sitter::Node,
    rest: Seq<tree_sitter::Node>,
    source: Seq<u8>,
)
    ensures
        enclosing_property_texts(seq![n] + rest, source) == scene_property_texts(n, source)
            + enclosing_property_texts(rest, source),
    decreases rest.len(),
{
    let s = seq![n] + rest;
    if rest.len() == 0 {
        assert(s.drop_last() =~= Seq::<tree_sitter::Node>::empty());
        assert(s.last() == n);
        assert(enclosing_property_texts(Seq::<tree_sitter::Node>::empty(), source)
            =~= Seq::<Option<Seq<char>>>::empty());
        assert(enclosing_property_texts(s, source) =~= scene_property_texts(n, source));
        assert(scene_property_texts(n, source) + enclosing_property_texts(rest, source)
            =~= scene_property_texts(n, source));
    } else {
        assert(s.drop_last() =~= seq![n] + rest.drop_last());
        assert(s.last() == rest.last());
        lemma_enclosing_prepend(n, rest.drop_last(), source);
        assert(enclosing_property_texts(s, source) =~= scene_property_texts(n, source) + (
        enclosing_property_texts(rest.drop_last(), source) + scene_property_texts(
            rest.last(),
            source,
        )));
    }
}

/// The ancestors of a node are the node followed by its parent's ancestors,
/// where those reach the root within the walk's bound.
proof fn lemma_ancestors_step(node: tree_sitter::Node, parent: tree_sitter::Node)
    requires
        parent_of(node) == Some(parent),
        parent_of(ancestry(parent, (usize::MAX - 1) as nat).last()) is None,
    ensures
        ancestors_of(node) == seq![node] + ancestors_of(parent),
{
    lemma_ancestry_settles(parent, (usize::MAX - 1) as nat);
}

/// The scene mode is inherited down the tree: a node that is not a scene
/// has the mode of its parent (where the parent's ancestors reach the root
/// within the walk's bound).
pub proof fn law_scene_mode_inherited(
    node: tree_sitter::Node,
    parent: tree_sitter::Node,
    source: Seq<u8>,
)
    requires
        node_type(node) != "scene_block"@,
        parent_of(node) == Some(parent),
        parent_of(ancestry(parent, (usize::MAX - 1) as nat).last()) is None,
    ensures
        scene_mode_of(node, source) == scene_mode_of(parent, source),
{
    lemma_ancestors_step(node, parent);
    lemma_enclosing_prepend(node, ancestors_of(parent), source);
    assert(scene_property_texts(node, source) + enclosing_property_texts(
        ancestors_of(parent),
        source,
    ) =~= enclosing_property_texts(ancestors_of(parent), source));
}

proof fn lemma_first_property(
    scene: tree_sitter::Node,
    source: Seq<u8>,
    i: usize,
    c: tree_sitter::Node,
    n: nat,
)
    requires
        i < n,
        child_of(scene, i) == Some(c),
        node_type(c) == "mode_property"@,
        forall|j: usize|
            j < i ==> match #[trigger] child_of(scene, j) {
                Some(d) => node_type(d) != "mode_property"@,
                None => true,
            },
    ensures
        property_texts(scene, source, n).len() > 0,
        property_texts(scene, source, n)[0] == text_of(c, source),
    decreases n,
{
    if n - 1 > i {
        lemma_first_property(scene, source, i, c, (n - 1) as nat);
    } else {
        assert(n - 1 == i);
        lemma_no_property_before(scene, source, i, i as nat);
    }
}

proof fn lemma_no_property_before(scene: tree_sitter::Node, source: Seq<u8>, i: usize, n: nat)
    requires
        n <= i,
        forall|j: usize|
            j < i ==> match #[trigger] child_of(scene, j) {
                Some(d) => node_type(d) != "mode_property"@,
                None => true,
            },
    ensures
        property_texts(scene, source, n).len() == 0,
    decreases n,
{
    if n > 0 {
        lemma_no_property_before(scene, source, i, (n - 1) as nat);
        assert(child_of(scene, (n - 1) as usize) == child_of(scene, (n - 1) as usize));
    }
}

/// In a scene, the first `mode_property` child decides the scene's mode where
/// its text is readable and names a mode.
pub proof fn law_first_mode_property_decides(
    scene: tree_sitter::Node,
    source: Seq<u8>,
    i: usize,
    c: tree_sitter::Node,
    t: Seq<char>,
)
    requires
        node_type(scene) == "scene_block"@,
        i < child_count_of(scene),
        child_of(scene, i) == Some(c),
        node_type(c) == "mode_property"@,
        text_of(c, source) == Some(t),
        mode_of_text(t) is Some,
        forall|j: usize|
            j < i ==> match #[trigger] child_of(scene, j) {
                Some(d) => node_type(d) != "mode_property"@,
                None => true,
            },
    ensures
        scene_mode_of(scene, source) == mode_of_text(t),
{
    lemma_first_property(scene, source, i, c, child_count_of(scene) as nat);
    let a = ancestors_of(scene);
    assert(a == seq![scene] + a.drop_first()) by {
        assert(a[0] == scene);
        assert(a =~= seq![scene] + a.drop_first());
    }
    lemma_enclosing_prepend(scene, a.drop_first(), source);
    let texts = enclosing_property_texts(a, source);
    assert(texts[0] == Some(t));
}

/// A parser for Rustimate documents.
pub struct RustimateParser {
    parser: LoadedParser,
}

impl RustimateParser {
    /// The grammar this parser parses with.
    pub closed spec fn grammar(&self) -> tree_sitter::Language {
        loaded_grammar(self.parser)
    }

    /// A parser for the given Rustimate grammar, whose ABI version
    /// tree-sitter must support.
    pub fn new(language: &tree_sitter::Language) -> (r: RustimateParser)
        requires
            abi_supported(language_abi_version(*language)),
        ensures
            r.grammar() == *language,
    {
        RustimateParser { parser: assign_language(new_parser(), language).unwrap() }
    }

    /// A parser for the given Rustimate grammar, or `None` exactly where
    /// tree-sitter does not support the grammar's ABI version.
    pub fn try_new(language: &tree_sitter::Language) -> (r: Option<RustimateParser>)
        ensures
            r is Some <==> abi_supported(language_abi_version(*language)),
            r matches Some(p) ==> p.grammar() == *language,
    {
        let version = language_abi(language);
        if MIN_COMPATIBLE_ABI <= version && version <= NEWEST_ABI {
            Some(RustimateParser::new(language))
        } else {
            None
        }
    }

    /// The syntax tree of `text`, parsed with this parser's grammar; a parser
    /// with a grammar always gives one.
    pub fn parse(&mut self, text: &str) -> (t: Option<tree_sitter::Tree>)
        ensures
            t is Some,
            t matches Some(tree) ==> tree_grammar(&tree) == old(self).grammar() && tree_text(&tree)
                == text.spec_bytes(),
            final(self).grammar() == old(self).grammar(),
    {
        parse_text(&mut self.parser, text)
    }
}

/// The smallest node of `tree` that spans the position (`line`, `column`); the
/// root where the position (with coordinates that fit in 32 bits, as
/// tree-sitter keeps them) lies outside it.
pub fn node_at_position(tree: &tree_sitter::Tree, line: usize, column: usize) -> (n: Option<
    tree_sitter::Node<'_>,
>)
    ensures
        n == Some(descendant_at(root_of(tree), line, column)),
        line <= u32::MAX && column <= u32::MAX && (point_before(
            (line, column),
            start_point_of(root_of(tree)),
        ) || point_before(end_point_of(root_of(tree)), (line, column))) ==> n == Some(
            root_of(tree),
        ),
{
    let root = root_node(tree);
    descendant_at_point(root, line, column)
}

/// The parent of `node`, or `None` at the root or once `steps` ancestors have
/// been visited. The step count only bounds the walk for the proof of
/// termination: a tree that fits in memory has fewer than `usize::MAX` levels.
fn step_up<'t>(node: tree_sitter::Node<'t>, steps: usize) -> (p: Option<tree_sitter::Node<'t>>)
    ensures
        p == (if steps == usize::MAX {
            None
        } else {
            parent_of(node)
        }),
{
    if steps == usize::MAX {
        None
    } else {
        node_parent(node)
    }
}

/// `node` and its ancestors, innermost first.
fn ancestors<'t>(node: tree_sitter::Node<'t>) -> (v: Vec<tree_sitter::Node<'t>>)
    ensures
        v@ == ancestors_of(node),
{
    let mut v: Vec<tree_sitter::Node<'t>> = Vec::new();
    let mut current = node;
    let mut steps: usize = 0;
    assert(Seq::<tree_sitter::Node>::empty() + ancestry(node, usize::MAX as nat) =~= ancestors_of(
        node,
    ));
    loop
        invariant_except_break
            v@ + ancestry(current, (usize::MAX - steps) as nat) == ancestors_of(node),
        ensures
            v@ == ancestors_of(node),
        decreases usize::MAX - steps,
    {
        let ghost before = v@;
        let ghost fuel = (usize::MAX - steps) as nat;
        v.push(current);
        match step_up(current, steps) {
            Some(parent) => {
                assert(ancestry(current, fuel) == seq![current] + ancestry(
                    parent,
                    (fuel - 1) as nat,
                ));
                assert(before + (seq![current] + ancestry(parent, (fuel - 1) as nat)) =~= v@
                    + ancestry(parent, (fuel - 1) as nat));
                current = parent;
                steps = steps + 1;
            },
            None => {
                assert(ancestry(current, fuel) == seq![current]);
                assert(before + seq![current] =~= v@);
                break;
            },
        }
    }
    v
}

/// The context of the innermost block that encloses `node`: the first of
/// `node` and its ancestors that is a scene, code or config block or the
/// whole file.
pub fn find_block_context(node: tree_sitter::Node<'_>) -> (r: BlockContext)
    ensures
        r == block_context_of(node),
{
    let nodes = ancestors(node);
    let mut kinds: Vec<&'static str> = Vec::new();
    let mut i: usize = 0;
    while i < nodes.len()
        invariant
            i <= nodes.len(),
            nodes@ == ancestors_of(node),
            str_views(kinds@) == node_types(nodes@.take(i as int)),
        decreases nodes.len() - i,
    {
        let ghost before = kinds@;
        kinds.push(node_kind(nodes[i]));
        assert(str_views(kinds@) =~= str_views(before).push(node_type(nodes@[i as int])));
        assert(node_types(nodes@.take(i + 1)) =~= node_types(nodes@.take(i as int)).push(
            node_type(nodes@[i as int]),
        ));
        i = i + 1;
    }
    assert(nodes@.take(nodes.len() as int) =~= nodes@);
    context_of_kinds(&kinds)
}

/// The texts of the `mode_property` children of `scene`, in order, appended
/// to `texts`.
fn mode_property_texts<'a>(
    scene: tree_sitter::Node<'_>,
    source: &'a str,
    texts: &mut Vec<Option<&'a str>>,
)
    requires
        properties_fit_upto(scene, source.spec_bytes().len(), child_count_of(scene) as nat),
    ensures
        opt_str_views(final(texts)@) == opt_str_views(old(texts)@) + property_texts(
            scene,
            source.spec_bytes(),
            child_count_of(scene) as nat,
        ),
{
    let count = node_child_count(scene);
    let mut i: usize = 0;
    let ghost start = opt_str_views(texts@);
    assert(start + property_texts(scene, source.spec_bytes(), 0) =~= start);
    while i < count
        invariant
            i <= count,
            count == child_count_of(scene),
            properties_fit_upto(scene, source.spec_bytes().len(), count as nat),
            opt_str_views(texts@) == start + property_texts(scene, source.spec_bytes(), i as nat),
        decreases count - i,
    {
        let ghost before = texts@;
        let ghost rest = property_texts(scene, source.spec_bytes(), i as nat);
        assert(child_of(scene, i) == child_of(scene, (i as int) as usize));
        if let Some(child) = node_child(scene, i) {
            if str_equal(node_kind(child), "mode_property") {
                let t = node_text(child, source);
                texts.push(t);
                assert(opt_str_views(texts@) =~= opt_str_views(before).push(opt_str_view(t)));
                assert(start + rest.push(text_of(child, source.spec_bytes())) =~= (start
                    + rest).push(text_of(child, source.spec_bytes())));
            }
        }
        i = i + 1;
    }
}

/// Whether every `mode_property` child of `scene` lies within `source`.
fn scene_properties_fit_check(scene: tree_sitter::Node<'_>, source: &str) -> (r: bool)
    ensures
        r == properties_fit_upto(scene, source.spec_bytes().len(), child_count_of(scene) as nat),
{
    let count = node_child_count(scene);
    let mut i: usize = 0;
    while i < count
        invariant
            i <= count,
            count == child_count_of(scene),
            properties_fit_upto(scene, source.spec_bytes().len(), i as nat),
        decreases count - i,
    {
        assert(child_of(scene, i) == child_of(scene, (i as int) as usize));
        if let Some(child) = node_child(scene, i) {
            if str_equal(node_kind(child), "mode_property") && !node_fits(child, source) {
                return false;
            }
        }
        i = i + 1;
    }
    true
}

/// Whether every `mode_property` child of every scene around `node` lies
/// within `source`, as it does where the tree was parsed from `source`.
pub fn scene_properties_fit_in(node: tree_sitter::Node<'_>, source: &str) -> (r: bool)
    ensures
        r == scene_properties_fit(ancestors_of(node), source.spec_bytes().len()),
{
    let nodes = ancestors(node);
    let ghost len = source.spec_bytes().len();
    let mut i: usize = 0;
    while i < nodes.len()
        invariant
            i <= nodes.len(),
            nodes@ == ancestors_of(node),
            len == source.spec_bytes().len(),
            scene_properties_fit(nodes@.take(i as int), len),
        decreases nodes.len() - i,
    {
        let current = nodes[i];
        if str_equal(node_kind(current), "scene_block") && !scene_properties_fit_check(
            current,
            source,
        ) {
            assert(nodes@[i as int] == current);
            return false;
        }
        assert forall|k: int|
            0 <= k < i + 1 && node_type(#[trigger] nodes@.take(i + 1)[k]) == "scene_block"@
                implies properties_fit_upto(
                nodes@.take(i + 1)[k],
                len,
                child_count_of(nodes@.take(i + 1)[k]) as nat,
            ) by {
            if k < i {
                assert(nodes@.take(i + 1)[k] == nodes@.take(i as int)[k]);
            }
        }
        i = i + 1;
    }
    assert(nodes@.take(nodes.len() as int) =~= nodes@);
    true
}

/// The mode that the scene around `node` declares: the texts of the
/// `mode_property` children of each enclosing `scene_block`, innermost
/// first, read as `mode_of_property_texts` reads them. Each such child must
/// lie within `source`, as it does in the tree parsed from `source`.
pub fn detect_scene_mode(node: tree_sitter::Node<'_>, source: &str) -> (r: Option<String>)
    requires
        scene_properties_fit(ancestors_of(node), source.spec_bytes().len()),
    ensures
        opt_string_view(r) == scene_mode_of(node, source.spec_bytes()),
        r matches Some(m) ==> m@ == "presentation"@ || m@ == "editor"@ || m@ == "terminal"@,
{
    let nodes = ancestors(node);
    let ghost bytes = source.spec_bytes();
    let mut texts: Vec<Option<&str>> = Vec::new();
    let mut i: usize = 0;
    assert(opt_str_views(texts@) =~= enclosing_property_texts(nodes@.take(0), bytes));
    while i < nodes.len()
        invariant
            i <= nodes.len(),
            nodes@ == ancestors_of(node),
            bytes == source.spec_bytes(),
            scene_properties_fit(nodes@, bytes.len()),
            opt_str_views(texts@) == enclosing_property_texts(nodes@.take(i as int), bytes),
        decreases nodes.len() - i,
    {
        let ghost before = opt_str_views(texts@);
        let current = nodes[i];
        assert(nodes@.take(i + 1).drop_last() =~= nodes@.take(i as int));
        assert(nodes@.take(i + 1).last() == current);
        if str_equal(node_kind(current), "scene_block") {
            assert(node_type(nodes@[i as int]) == "scene_block"@);
            mode_property_texts(current, source, &mut texts);
        } else {
            assert(before + scene_property_texts(current, bytes) =~= before);
        }
        i = i + 1;
    }
    assert(nodes@.take(nodes.len() as int) =~= nodes@);
    proof {
        law_detected_mode_is_named(opt_str_views(texts@));
    }
    mode_of_property_texts(&texts)
}

} // verus!

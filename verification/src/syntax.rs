//! The boundary to the `tree-sitter` crate: its types, declared so that the
//! library can hold them, and one trusted wrapper per method that the
//! library calls. Each wrapper's doc comment says what its contract claims.

use vstd::prelude::*;
use vstd::utf8::{decode_utf8, encode_utf8_decode_utf8, valid_utf8};
use vstd::string::StringSliceAdditionalSpecFns;

verus! {

/// `tree_sitter::Language`, the grammar a parser is built from.
#[verifier::external_type_specification]
#[verifier::external_body]
pub struct ExLanguage(tree_sitter::Language);

/// `tree_sitter::Parser`.
#[verifier::external_type_specification]
#[verifier::external_body]
pub struct ExParser(tree_sitter::Parser);

/// `tree_sitter::Tree`, the syntax tree of one document.
#[verifier::external_type_specification]
#[verifier::external_body]
pub struct ExTree(tree_sitter::Tree);

/// `tree_sitter::Node`, a handle on one node of a `Tree`.
#[verifier::external_type_specification]
#[verifier::external_body]
pub struct ExNode<'tree>(tree_sitter::Node<'tree>);

/// The ABI version of a grammar, as `tree_sitter::Language::abi_version`
/// gives it.
pub uninterp spec fn language_abi_version(language: tree_sitter::Language) -> usize;

/// The oldest grammar ABI that this version of tree-sitter accepts
/// (`tree_sitter::MIN_COMPATIBLE_LANGUAGE_VERSION`).
pub const MIN_COMPATIBLE_ABI: usize = 13;

/// The newest grammar ABI that this version of tree-sitter accepts
/// (`tree_sitter::LANGUAGE_VERSION`).
pub const NEWEST_ABI: usize = 15;

/// tree-sitter accepts a grammar of this ABI version.
pub open spec fn abi_supported(version: usize) -> bool {
    MIN_COMPATIBLE_ABI <= version <= NEWEST_ABI
}

/// The type name of a node, as `tree_sitter::Node::kind` gives it.
pub uninterp spec fn node_type(node: tree_sitter::Node) -> Seq<char>;

/// The parent of a node, as `tree_sitter::Node::parent` gives it.
pub uninterp spec fn parent_of(node: tree_sitter::Node) -> Option<tree_sitter::Node>;

/// The number of children of a node, as `tree_sitter::Node::child_count`
/// gives it.
pub uninterp spec fn child_count_of(node: tree_sitter::Node) -> usize;

/// Child `i` of a node, as `tree_sitter::Node::child` gives it.
pub uninterp spec fn child_of(node: tree_sitter::Node, i: usize) -> Option<tree_sitter::Node>;

/// The offset of a node's first byte, as `tree_sitter::Node::start_byte`
/// gives it.
pub uninterp spec fn start_byte_of(node: tree_sitter::Node) -> usize;

/// The offset just past a node's last byte, as `tree_sitter::Node::end_byte`
/// gives it.
pub uninterp spec fn end_byte_of(node: tree_sitter::Node) -> usize;

/// The (row, column) where a node starts, as `tree_sitter::Node::start_position`
/// gives it.
pub uninterp spec fn start_point_of(node: tree_sitter::Node) -> (usize, usize);

/// The (row, column) where a node ends, as `tree_sitter::Node::end_position`
/// gives it.
pub uninterp spec fn end_point_of(node: tree_sitter::Node) -> (usize, usize);

/// The root node of a tree, as `tree_sitter::Tree::root_node` gives it.
pub uninterp spec fn root_of(tree: &tree_sitter::Tree) -> tree_sitter::Node;

/// The smallest node within `node` that spans the point (`row`, `column`), as
/// `tree_sitter::Node::descendant_for_point_range` gives it for the empty
/// range at that point.
pub uninterp spec fn descendant_at(node: tree_sitter::Node, row: usize, column: usize) -> tree_sitter::Node;

/// The grammar a tree was parsed with: the language that
/// `tree_sitter::Parser::parse` assigned to the tree it returned.
pub uninterp spec fn tree_grammar(tree: &tree_sitter::Tree) -> tree_sitter::Language;

/// The bytes a tree was parsed from: the text handed to
/// `tree_sitter::Parser::parse` that returned it.
pub uninterp spec fn tree_text(tree: &tree_sitter::Tree) -> Seq<u8>;

/// The grammar that `tree_sitter::Parser::set_language` assigned to a
/// loaded parser.
pub uninterp spec fn loaded_grammar(parser: LoadedParser) -> tree_sitter::Language;

/// Point `a` comes before point `b`: an earlier row, or the same row and an
/// earlier column, as tree-sitter orders points.
pub open spec fn point_before(a: (usize, usize), b: (usize, usize)) -> bool {
    a.0 < b.0 || (a.0 == b.0 && a.1 < b.1)
}

/// A `tree_sitter::Parser` that has a grammar assigned; only
/// `assign_language` makes one, and nothing sets a timeout, a cancellation
/// flag or a progress callback on it.
pub struct LoadedParser {
    parser: tree_sitter::Parser,
}

/// Calls `tree_sitter::Language::abi_version`.
#[verifier::external_body]
pub(crate) fn language_abi(language: &tree_sitter::Language) -> (v: usize)
    ensures
        v == language_abi_version(*language),
{
    language.abi_version()
}

/// Calls `tree_sitter::Parser::new`. Nothing is claimed of the new parser.
#[verifier::external_body]
pub(crate) fn new_parser() -> (p: tree_sitter::Parser) {
    tree_sitter::Parser::new()
}

/// Calls `tree_sitter::Parser::set_language`, which, as its source shows,
/// succeeds exactly when the grammar's ABI version lies between
/// `MIN_COMPATIBLE_LANGUAGE_VERSION` and `LANGUAGE_VERSION`; on success the
/// parser comes back as a `LoadedParser` that carries that grammar.
#[verifier::external_body]
pub(crate) fn assign_language(
    parser: tree_sitter::Parser,
    language: &tree_sitter::Language,
) -> (loaded: Option<LoadedParser>)
    ensures
        loaded is Some <==> abi_supported(language_abi_version(*language)),
        loaded matches Some(p) ==> loaded_grammar(p) == *language,
{
    let mut parser = parser;
    match parser.set_language(language) {
        Ok(()) => Some(LoadedParser { parser }),
        Err(_) => None,
    }
}

/// Calls `tree_sitter::Parser::parse` on the bytes of `text`, with no earlier
/// tree. Its source returns `None` only for a parser without a language, a
/// wasm grammar without a store (not built here), or a timeout, cancellation
/// flag or progress callback, none of which a `LoadedParser` has: so a tree
/// comes back, parsed with the parser's grammar from the bytes of `text`;
/// the parser keeps its grammar. Left unsaid: the shape of the tree, which
/// the grammar decides and which the names over its nodes stand for.
#[verifier::external_body]
pub(crate) fn parse_text(parser: &mut LoadedParser, text: &str) -> (t: Option<tree_sitter::Tree>)
    ensures
        t is Some,
        t matches Some(tree) ==> tree_grammar(&tree) == loaded_grammar(*old(parser))
            && tree_text(&tree) == text.spec_bytes(),
        loaded_grammar(*final(parser)) == loaded_grammar(*old(parser)),
{
    parser.parser.parse(text, None)
}

/// Calls `tree_sitter::Tree::root_node`.
#[verifier::external_body]
pub(crate) fn root_node<'t>(tree: &'t tree_sitter::Tree) -> (n: tree_sitter::Node<'t>)
    ensures
        n == root_of(tree),
{
    tree.root_node()
}

/// Calls `tree_sitter::Node::kind`: the node's type name in the grammar.
#[verifier::external_body]
pub(crate) fn node_kind(node: tree_sitter::Node<'_>) -> (k: &'static str)
    ensures
        k@ == node_type(node),
{
    node.kind()
}

/// Calls `tree_sitter::Node::parent`.
#[verifier::external_body]
pub(crate) fn node_parent<'t>(node: tree_sitter::Node<'t>) -> (p: Option<tree_sitter::Node<'t>>)
    ensures
        p == parent_of(node),
{
    node.parent()
}

/// Calls `tree_sitter::Node::child_count`.
#[verifier::external_body]
pub(crate) fn node_child_count(node: tree_sitter::Node<'_>) -> (n: usize)
    ensures
        n == child_count_of(node),
{
    node.child_count()
}

/// Calls `tree_sitter::Node::child` with index `i`.
#[verifier::external_body]
pub(crate) fn node_child<'t>(node: tree_sitter::Node<'t>, i: usize) -> (c: Option<
    tree_sitter::Node<'t>,
>)
    ensures
        c == child_of(node, i),
{
    node.child(i)
}

/// Calls `tree_sitter::Node::start_byte`.
#[verifier::external_body]
pub(crate) fn node_start_byte(node: tree_sitter::Node<'_>) -> (b: usize)
    ensures
        b == start_byte_of(node),
{
    node.start_byte()
}

/// Calls `tree_sitter::Node::end_byte`.
#[verifier::external_body]
pub(crate) fn node_end_byte(node: tree_sitter::Node<'_>) -> (b: usize)
    ensures
        b == end_byte_of(node),
{
    node.end_byte()
}

/// Calls `tree_sitter::Node::start_position` and gives its row and column.
#[verifier::external_body]
pub(crate) fn node_start_point(node: tree_sitter::Node<'_>) -> (p: (usize, usize))
    ensures
        p == start_point_of(node),
{
    let point = node.start_position();
    (point.row, point.column)
}

/// Calls `tree_sitter::Node::end_position` and gives its row and column.
#[verifier::external_body]
pub(crate) fn node_end_point(node: tree_sitter::Node<'_>) -> (p: (usize, usize))
    ensures
        p == end_point_of(node),
{
    let point = node.end_position();
    (point.row, point.column)
}

/// Calls `tree_sitter::Node::descendant_for_point_range` with the empty range
/// at (`row`, `column`). Its source starts from `node` itself and only steps
/// down, so a node always comes back; and where the point's coordinates fit
/// in 32 bits (tree-sitter truncates them to 32 bits) and it lies before
/// `node`'s start or after its end, that node is `node` itself.
#[verifier::external_body]
pub(crate) fn descendant_at_point<'t>(
    node: tree_sitter::Node<'t>,
    row: usize,
    column: usize,
) -> (d: Option<tree_sitter::Node<'t>>)
    ensures
        d == Some(descendant_at(node, row, column)),
        row <= u32::MAX && column <= u32::MAX && (point_before((row, column), start_point_of(node))
            || point_before(end_point_of(node), (row, column))) ==> d == Some(node),
{
    let point = tree_sitter::Point { row, column };
    node.descendant_for_point_range(point, point)
}

/// Calls `std::str::from_utf8`, which, as its documentation says, succeeds
/// exactly when the bytes are valid UTF-8 and then views the same bytes.
#[verifier::external_body]
pub(crate) fn str_from_utf8(bytes: &[u8]) -> (s: Option<&str>)
    ensures
        s is Some <==> valid_utf8(bytes@),
        s matches Some(t) ==> t.spec_bytes() == bytes@,
{
    std::str::from_utf8(bytes).ok()
}


/// The characters of `source[start..end]` (byte offsets), or `None` where
/// those bytes are not valid UTF-8.
pub open spec fn decoded_slice(source: Seq<u8>, start: int, end: int) -> Option<Seq<char>> {
    let bytes = source.subrange(start, end);
    if valid_utf8(bytes) {
        Some(decode_utf8(bytes))
    } else {
        None
    }
}

/// The text of `source` between the byte offsets `start` and `end`, as
/// `tree_sitter::Node::utf8_text` reads a node's text: `None` where those
/// bytes are not valid UTF-8 (a bound that splits a character).
pub fn text_in_range<'a>(source: &'a str, start: usize, end: usize) -> (t: Option<&'a str>)
    requires
        start <= end <= source.spec_bytes().len(),
    ensures
        t is Some <==> decoded_slice(source.spec_bytes(), start as int, end as int) is Some,
        t matches Some(text) ==> Some(text@) == decoded_slice(
            source.spec_bytes(),
            start as int,
            end as int,
        ),
{
    let bytes = source.as_bytes();
    let slice = &bytes[start..end];
    let r = str_from_utf8(slice);
    if let Some(text) = r {
        proof {
            encode_utf8_decode_utf8(text@);
        }
    }
    r
}

/// The node's byte range lies within a source of `len` bytes.
pub open spec fn fits_in(node: tree_sitter::Node, len: nat) -> bool {
    start_byte_of(node) <= end_byte_of(node) <= len
}

/// The text of a node that fits in `source`: the decoding of its bytes, or
/// `None` where they are not valid UTF-8.
pub open spec fn text_of(node: tree_sitter::Node, source: Seq<u8>) -> Option<Seq<char>> {
    decoded_slice(source, start_byte_of(node) as int, end_byte_of(node) as int)
}

/// The view of an optional string.
pub open spec fn opt_str_view(o: Option<&str>) -> Option<Seq<char>> {
    match o {
        Some(s) => Some(s@),
        None => None,
    }
}

/// The text that `node` covers in `source`, as `tree_sitter::Node::utf8_text`
/// reads it: `None` where those bytes are not valid UTF-8.
pub fn node_text<'a>(node: tree_sitter::Node<'_>, source: &'a str) -> (t: Option<&'a str>)
    requires
        fits_in(node, source.spec_bytes().len()),
    ensures
        opt_str_view(t) == text_of(node, source.spec_bytes()),
{
    let start = node_start_byte(node);
    let end = node_end_byte(node);
    text_in_range(source, start, end)
}

/// Whether `node`'s byte range lies within `source`.
pub fn node_fits(node: tree_sitter::Node<'_>, source: &str) -> (r: bool)
    ensures
        r == fits_in(node, source.spec_bytes().len()),
{
    let start = node_start_byte(node);
    let end = node_end_byte(node);
    let len = source.as_bytes().len();
    start <= end && end <= len
}

} // verus!

//! Syntax trees as plain data.
//!
//! The parser and the query engine are tree-sitter's. What they make of a
//! text is named as a function of plain values: the grammar's identity
//! ([`GrammarId`]), the query text and the source text ([`parsed_node`],
//! [`query_matches`], ...). A parse is copied, node by node in document
//! (pre-)order, into a [`SyntaxTree`], whose nodes the filters of the language
//! modules read, and query captures are resolved to nodes of that copy; both
//! steps are verified against those names.
use vstd::prelude::*;
use vstd::hash_map::HashMapWithView;
use vstd::string::StringSliceAdditionalSpecFns;
use streaming_iterator::StreamingIterator;
use tree_sitter::{Language, LanguageError, Parser, Query, QueryCursor, QueryError, Tree};
use crate::text::{byte_range_string, byte_range_text, has_suffix, str_ends_with, str_equals};

verus! {

broadcast use vstd::std_specs::hash::group_hash_axioms;

// ---------------------------------------------------------------------------
// Outside types
// ---------------------------------------------------------------------------

#[verifier::external_type_specification]
#[verifier::external_body]
pub struct ExLanguage(Language);

#[verifier::external_type_specification]
#[verifier::external_body]
pub struct ExLanguageError(LanguageError);

#[verifier::external_type_specification]
#[verifier::external_body]
pub struct ExParser(Parser);

#[verifier::external_type_specification]
#[verifier::external_body]
pub struct ExTree(Tree);

#[verifier::external_type_specification]
#[verifier::external_body]
pub struct ExQuery(Query);

#[verifier::external_type_specification]
#[verifier::external_body]
pub struct ExQueryError(QueryError);

// ---------------------------------------------------------------------------
// Grammars and what tree-sitter makes of them
// ---------------------------------------------------------------------------

/// The grammars of the supported languages.
#[derive(Debug, Clone, Copy, PartialEq, Eq, Structural)]
pub enum GrammarId {
    Rust,
    Python,
    TypeScript,
    Tsx,
    JavaScript,
    Go,
    Java,
    CSharp,
    Ruby,
    Php,
    Bash,
    Kotlin,
    Lua,
}

/// The value of a node as a pre-order traversal meets it.
pub ghost struct NodeView {
    pub kind: Seq<char>,
    pub field: Option<Seq<char>>,
    pub depth: usize,
    pub start_byte: usize,
    pub end_byte: usize,
    pub row: usize,
    pub column: usize,
}

/// Whether tree-sitter's parser accepts `grammar` (`Parser::set_language`),
/// which depends on the grammar's ABI version alone.
pub uninterp spec fn grammar_accepted(grammar: GrammarId) -> bool;

/// The number of nodes of the tree into which `grammar` parses `source`
/// (`Node::descendant_count` of its root).
pub uninterp spec fn parsed_node_count(grammar: GrammarId, source: Seq<char>) -> nat;

/// Node `index`, in pre-order, of the tree into which `grammar` parses `source`.
pub uninterp spec fn parsed_node(grammar: GrammarId, source: Seq<char>, index: int) -> NodeView;

/// Whether `query` compiles for `grammar` (`Query::new`).
pub uninterp spec fn query_compiles(grammar: GrammarId, query: Seq<char>) -> bool;

/// The capture names of `query` compiled for `grammar`, by capture index
/// (`Query::capture_names`).
pub uninterp spec fn query_capture_names_of(grammar: GrammarId, query: Seq<char>) -> Seq<
    Seq<char>,
>;

/// The captures of the matches of `query` on the tree into which `grammar`
/// parses `source`, in the order tree-sitter's query cursor yields them, as
/// (capture index, start byte, end byte, kind) of the captured node.
pub uninterp spec fn query_matches(grammar: GrammarId, query: Seq<char>, source: Seq<char>) -> Seq<
    (usize, usize, usize, Seq<char>),
>;

/// The tree-sitter grammar `grammar` is: the `LANGUAGE` constant of its crate
/// (`LANGUAGE_PHP` for PHP, `LANGUAGE_TYPESCRIPT` and `LANGUAGE_TSX` for
/// TypeScript and TSX). Nothing is stated of the handle itself.
#[verifier::external_body]
pub(crate) fn grammar_language(grammar: GrammarId) -> Language {
    match grammar {
        GrammarId::Rust => tree_sitter_rust::LANGUAGE.into(),
        GrammarId::Python => tree_sitter_python::LANGUAGE.into(),
        GrammarId::TypeScript => tree_sitter_typescript::LANGUAGE_TYPESCRIPT.into(),
        GrammarId::Tsx => tree_sitter_typescript::LANGUAGE_TSX.into(),
        GrammarId::JavaScript => tree_sitter_javascript::LANGUAGE.into(),
        GrammarId::Go => tree_sitter_go::LANGUAGE.into(),
        GrammarId::Java => tree_sitter_java::LANGUAGE.into(),
        GrammarId::CSharp => tree_sitter_c_sharp::LANGUAGE.into(),
        GrammarId::Ruby => tree_sitter_ruby::LANGUAGE.into(),
        GrammarId::Php => tree_sitter_php::LANGUAGE_PHP.into(),
        GrammarId::Bash => tree_sitter_bash::LANGUAGE.into(),
        GrammarId::Kotlin => tree_sitter_kotlin_ng::LANGUAGE.into(),
        GrammarId::Lua => tree_sitter_lua::LANGUAGE.into(),
    }
}

/// A parser that was set to a grammar and accepted it. Only [`new_parser`]
/// makes one.
pub struct GrammarParser {
    parser: Parser,
    grammar: GrammarId,
}

/// A source text together with the tree that a grammar parsed it into. Only
/// [`parse_text`] makes one, so the tree is always the parse of the text.
pub struct ParsedSource {
    tree: Tree,
    grammar: GrammarId,
    source: String,
}

impl ParsedSource {
    /// The grammar the text was parsed with.
    pub closed spec fn grammar(&self) -> GrammarId {
        self.grammar
    }

    /// The text that was parsed.
    pub closed spec fn text(&self) -> Seq<char> {
        self.source@
    }

    /// The grammar the text was parsed with.
    pub fn grammar_id(&self) -> (r: GrammarId)
        ensures
            r == self.grammar(),
    {
        self.grammar
    }
}

/// A query compiled for a grammar, with its text. Only [`new_query`] makes one.
pub struct CompiledQuery {
    query: Query,
    grammar: GrammarId,
    text: String,
}

/// `Parser::new`, then `Parser::set_language` with the grammar: `Ok` exactly
/// when tree-sitter accepts the grammar.
#[verifier::external_body]
fn new_parser(grammar: GrammarId) -> (r: Result<GrammarParser, LanguageError>)
    ensures
        r is Ok == grammar_accepted(grammar),
        r matches Ok(p) ==> p.grammar == grammar,
{
    let mut parser = Parser::new();
    match parser.set_language(&grammar_language(grammar)) {
        Ok(()) => Ok(GrammarParser { parser, grammar }),
        Err(e) => Err(e),
    }
}

/// `Parser::parse` of the whole text, with no previous tree and no options:
/// it gives a tree whenever the parser has a grammar, as a `GrammarParser`
/// has.
#[verifier::external_body]
fn parse_text(p: &mut GrammarParser, source: &str) -> (r: Option<ParsedSource>)
    ensures
        r is Some,
        r matches Some(parsed) ==> parsed.grammar == old(p).grammar && parsed.source@ == source@,
{
    match p.parser.parse(source, None) {
        Some(tree) => Some(ParsedSource { tree, grammar: p.grammar, source: source.to_owned() }),
        None => None,
    }
}

/// `Node::descendant_count` of the root: the number of nodes of the parse.
#[verifier::external_body]
fn node_count(p: &ParsedSource) -> (r: usize)
    ensures
        r == parsed_node_count(p.grammar, p.source@),
{
    p.tree.root_node().descendant_count()
}

/// Node `index`, in pre-order, of the parse, read through a `TreeCursor`
/// moved there with `goto_descendant`: its kind, the field it stands in, its
/// depth, byte range and start position.
#[verifier::external_body]
fn node_record(p: &ParsedSource, index: usize) -> (r: NodeRecord)
    requires
        index < parsed_node_count(p.grammar, p.source@),
    ensures
        r@ == parsed_node(p.grammar, p.source@, index as int),
{
    let mut cursor = p.tree.walk();
    cursor.goto_descendant(index);
    let node = cursor.node();
    let start = node.start_position();
    NodeRecord {
        kind: node.kind().to_owned(),
        field: cursor.field_name().map(|name| name.to_owned()),
        depth: cursor.depth() as usize,
        start_byte: node.start_byte(),
        end_byte: node.end_byte(),
        row: start.row,
        column: start.column,
    }
}

/// `Query::new` for the grammar: `Ok` exactly when the query compiles.
#[verifier::external_body]
fn new_query(grammar: GrammarId, text: &str) -> (r: Result<CompiledQuery, QueryError>)
    ensures
        r is Ok == query_compiles(grammar, text@),
        r matches Ok(q) ==> q.grammar == grammar && q.text@ == text@,
{
    match Query::new(&grammar_language(grammar), text) {
        Ok(query) => Ok(CompiledQuery { query, grammar, text: text.to_owned() }),
        Err(e) => Err(e),
    }
}

/// `Query::capture_names`: the names of the query's captures, by capture index.
#[verifier::external_body]
fn query_capture_names(q: &CompiledQuery) -> (r: Vec<String>)
    ensures
        r@.map_values(|n: String| n@) == query_capture_names_of(q.grammar, q.text@),
{
    q.query.capture_names().iter().map(|name| name.to_string()).collect()
}

/// `QueryCursor::matches` over the whole parse, the query's text predicates
/// read from the parsed text: each capture of each match, in the order the
/// cursor yields them, as (capture index, start byte, end byte, kind).
#[verifier::external_body]
fn run_query(q: &CompiledQuery, p: &ParsedSource) -> (r: Vec<(usize, usize, usize, String)>)
    requires
        q.grammar == p.grammar,
    ensures
        raw_captures_view(r@) == query_matches(q.grammar, q.text@, p.source@),
{
    let mut cursor = QueryCursor::new();
    let mut matches = cursor.matches(&q.query, p.tree.root_node(), p.source.as_bytes());
    let mut captures = Vec::new();
    while let Some(m) = matches.next() {
        for c in m.captures() {
            let node = c.node;
            captures.push((c.index as usize, node.start_byte(), node.end_byte(), node.kind().to_owned()));
        }
    }
    captures
}

/// The values of raw captures.
pub open spec fn raw_captures_view(raw: Seq<(usize, usize, usize, String)>) -> Seq<
    (usize, usize, usize, Seq<char>),
> {
    raw.map_values(|c: (usize, usize, usize, String)| (c.0, c.1, c.2, c.3@))
}

// ---------------------------------------------------------------------------
// The plain model
// ---------------------------------------------------------------------------

/// One node of a syntax tree.
pub struct SyntaxNode {
    /// The grammar's name for the node's type.
    pub kind: String,
    /// The field under which the node stands in its parent.
    pub field: Option<String>,
    /// The index of the parent node.
    pub parent: Option<usize>,
    /// Byte offset of the node's first byte in the source.
    pub start_byte: usize,
    /// Byte offset just past the node's last byte.
    pub end_byte: usize,
    /// Number of line breaks before the node.
    pub row: usize,
    /// Byte offset of the node's start in its line.
    pub column: usize,
}

/// A syntax tree whose nodes are stored in document order: a node comes
/// before its descendants, and siblings come in source order.
pub struct SyntaxTree {
    pub nodes: Vec<SyntaxNode>,
}

/// A query capture: a node of a [`SyntaxTree`] and the capture's name.
pub struct Capture {
    pub node: usize,
    pub name: String,
}

/// The value of a [`SyntaxNode`].
pub ghost struct NodeModel {
    pub kind: Seq<char>,
    pub field: Option<Seq<char>>,
    pub parent: Option<usize>,
    pub start_byte: usize,
    pub end_byte: usize,
    pub row: usize,
    pub column: usize,
}

/// The value of a [`SyntaxTree`]: its nodes in document order.
pub ghost struct TreeView {
    pub nodes: Seq<NodeModel>,
}

/// The value of an optional string.
pub open spec fn field_view(f: Option<String>) -> Option<Seq<char>> {
    match f {
        Some(name) => Some(name@),
        None => None,
    }
}

impl View for SyntaxNode {
    type V = NodeModel;

    open spec fn view(&self) -> NodeModel {
        NodeModel {
            kind: self.kind@,
            field: field_view(self.field),
            parent: self.parent,
            start_byte: self.start_byte,
            end_byte: self.end_byte,
            row: self.row,
            column: self.column,
        }
    }
}

impl View for SyntaxTree {
    type V = TreeView;

    open spec fn view(&self) -> TreeView {
        TreeView { nodes: self.nodes@.map_values(|n: SyntaxNode| n@) }
    }
}

/// The nodes and names of captures.
pub open spec fn captures_view(captures: Seq<Capture>) -> Seq<(int, Seq<char>)> {
    captures.map_values(|c: Capture| (c.node as int, c.name@))
}

/// The errors of parsing and querying source text.
#[derive(Debug, PartialEq, Eq, Structural)]
pub enum SyntaxError {
    /// The grammar cannot be assigned to a parser.
    LanguageRejected,
    /// The parser produced no tree.
    ParseFailed,
    /// The query does not compile for the grammar.
    InvalidQuery,
}

impl SyntaxError {
    /// The text of [`SyntaxError::message`].
    pub open spec fn spec_message(&self) -> Seq<char> {
        match self {
            SyntaxError::LanguageRejected => "Failed to set language"@,
            SyntaxError::ParseFailed => "Failed to parse source"@,
            SyntaxError::InvalidQuery => "Invalid query syntax"@,
        }
    }

    /// A short description of the error.
    pub fn message(&self) -> (r: &'static str)
        ensures
            r@ == self.spec_message(),
    {
        match self {
            SyntaxError::LanguageRejected => "Failed to set language",
            SyntaxError::ParseFailed => "Failed to parse source",
            SyntaxError::InvalidQuery => "Invalid query syntax",
        }
    }
}

impl TreeView {
    pub open spec fn len(&self) -> nat {
        self.nodes.len()
    }

    pub open spec fn kind(&self, i: int) -> Seq<char> {
        self.nodes[i].kind
    }

    pub open spec fn parent(&self, i: int) -> Option<usize> {
        self.nodes[i].parent
    }

    /// Every parent comes before its child.
    pub open spec fn wf(&self) -> bool {
        forall|i: int|
            #![trigger self.nodes[i]]
            0 <= i < self.nodes.len() ==> (self.nodes[i].parent matches Some(p) ==> p < i)
    }

    /// `c` is a child of `p`.
    pub open spec fn is_child(&self, p: int, c: int) -> bool {
        0 <= c < self.len() && self.parent(c) == Some(p as usize)
    }

    /// The text of node `i` in the source whose bytes are `bytes`.
    pub open spec fn text(&self, i: int, bytes: Seq<u8>) -> Seq<char> {
        byte_range_text(bytes, self.nodes[i].start_byte as int, self.nodes[i].end_byte as int)
    }

    /// The kind of the parent of node `i`, or `"unknown"` for the root.
    pub open spec fn parent_kind(&self, i: int) -> Seq<char> {
        match self.parent(i) {
            Some(p) => self.kind(p as int),
            None => "unknown"@,
        }
    }

    /// The first child of `p` at index `j` or later whose kind is `k`.
    pub open spec fn first_child_with_kind_from(&self, p: int, k: Seq<char>, j: int) -> Option<int>
        decreases self.len() - j,
    {
        if j < 0 || j >= self.len() {
            None
        } else if self.is_child(p, j) && self.kind(j) == k {
            Some(j)
        } else {
            self.first_child_with_kind_from(p, k, j + 1)
        }
    }

    /// The first child of `p` whose kind is `k`.
    pub open spec fn first_child_with_kind(&self, p: int, k: Seq<char>) -> Option<int> {
        self.first_child_with_kind_from(p, k, 0)
    }

    /// The first child of `p` at index `j` or later that stands in field `f`.
    pub open spec fn first_child_in_field_from(&self, p: int, f: Seq<char>, j: int) -> Option<int>
        decreases self.len() - j,
    {
        if j < 0 || j >= self.len() {
            None
        } else if self.is_child(p, j) && (self.nodes[j].field matches Some(name) && name == f) {
            Some(j)
        } else {
            self.first_child_in_field_from(p, f, j + 1)
        }
    }

    /// The first child of `p` that stands in field `f` (`Node::child_by_field_name`).
    pub open spec fn first_child_in_field(&self, p: int, f: Seq<char>) -> Option<int> {
        self.first_child_in_field_from(p, f, 0)
    }

    /// The last child of `p` with index below `j`.
    pub open spec fn last_child_before(&self, p: int, j: int) -> Option<int>
        decreases j,
    {
        if j <= 0 {
            None
        } else if self.is_child(p, j - 1) {
            Some(j - 1)
        } else {
            self.last_child_before(p, j - 1)
        }
    }

    /// The sibling right before node `i` (`Node::prev_sibling`).
    pub open spec fn prev_sibling(&self, i: int) -> Option<int> {
        match self.parent(i) {
            Some(p) => self.last_child_before(p as int, i),
            None => None,
        }
    }

    /// The nearest proper ancestor of `i` whose kind is `k`.
    pub open spec fn ancestor_with_kind(&self, i: int, k: Seq<char>) -> Option<int>
        decreases i,
    {
        match self.parent(i) {
            Some(p) => if p < i && 0 <= p {
                if self.kind(p as int) == k {
                    Some(p as int)
                } else {
                    self.ancestor_with_kind(p as int, k)
                }
            } else {
                None
            },
            None => None,
        }
    }

    /// Captures name nodes of this tree.
    pub open spec fn captures_in(&self, captures: Seq<(int, Seq<char>)>) -> bool {
        forall|j: int| 0 <= j < captures.len() ==> 0 <= #[trigger] captures[j].0 < self.len()
    }
}


impl SyntaxTree {
    pub open spec fn len(&self) -> nat {
        self.nodes@.len()
    }

    #[verifier::inline]
    pub open spec fn wf(&self) -> bool {
        self@.wf()
    }

    #[verifier::inline]
    pub open spec fn kind(&self, i: int) -> Seq<char> {
        self@.kind(i)
    }

    #[verifier::inline]
    pub open spec fn parent(&self, i: int) -> Option<usize> {
        self@.parent(i)
    }

    #[verifier::inline]
    pub open spec fn is_child(&self, p: int, c: int) -> bool {
        self@.is_child(p, c)
    }

    #[verifier::inline]
    pub open spec fn text(&self, i: int, bytes: Seq<u8>) -> Seq<char> {
        self@.text(i, bytes)
    }

    #[verifier::inline]
    pub open spec fn parent_kind(&self, i: int) -> Seq<char> {
        self@.parent_kind(i)
    }

    #[verifier::inline]
    pub open spec fn first_child_with_kind(&self, p: int, k: Seq<char>) -> Option<int> {
        self@.first_child_with_kind(p, k)
    }

    #[verifier::inline]
    pub open spec fn first_child_with_kind_from(&self, p: int, k: Seq<char>, j: int) -> Option<int> {
        self@.first_child_with_kind_from(p, k, j)
    }

    #[verifier::inline]
    pub open spec fn first_child_in_field(&self, p: int, f: Seq<char>) -> Option<int> {
        self@.first_child_in_field(p, f)
    }

    #[verifier::inline]
    pub open spec fn first_child_in_field_from(&self, p: int, f: Seq<char>, j: int) -> Option<int> {
        self@.first_child_in_field_from(p, f, j)
    }

    #[verifier::inline]
    pub open spec fn last_child_before(&self, p: int, j: int) -> Option<int> {
        self@.last_child_before(p, j)
    }

    #[verifier::inline]
    pub open spec fn prev_sibling(&self, i: int) -> Option<int> {
        self@.prev_sibling(i)
    }

    #[verifier::inline]
    pub open spec fn ancestor_with_kind(&self, i: int, k: Seq<char>) -> Option<int> {
        self@.ancestor_with_kind(i, k)
    }
}

// ---------------------------------------------------------------------------
// Lemmas
// ---------------------------------------------------------------------------

pub proof fn lemma_first_child_with_kind_from(t: TreeView, p: int, k: Seq<char>, j: int)
    requires
        0 <= j,
    ensures
        match t.first_child_with_kind_from(p, k, j) {
            Some(c) => j <= c && t.is_child(p, c) && t.kind(c) == k && forall|d: int|
                j <= d < c ==> !(#[trigger] t.is_child(p, d) && t.kind(d) == k),
            None => forall|d: int| j <= d ==> !(#[trigger] t.is_child(p, d) && t.kind(d) == k),
        },
    decreases t.len() - j,
{
    if j < t.len() && !(t.is_child(p, j) && t.kind(j) == k) {
        lemma_first_child_with_kind_from(t, p, k, j + 1);
    }
}

pub proof fn lemma_ancestor_with_kind(t: TreeView, i: int, k: Seq<char>)
    ensures
        t.ancestor_with_kind(i, k) matches Some(a) ==> 0 <= a < i && t.kind(a) == k,
    decreases i,
{
    match t.parent(i) {
        Some(p) => if p < i && 0 <= p && t.kind(p as int) != k {
            lemma_ancestor_with_kind(t, p as int, k);
        },
        None => {},
    }
}

// ---------------------------------------------------------------------------
// Reading the tree
// ---------------------------------------------------------------------------

impl SyntaxTree {
    /// The number of nodes.
    pub fn node_count(&self) -> (r: usize)
        ensures
            r == self.len(),
    {
        self.nodes.len()
    }

    /// The parent of node `i`.
    pub fn parent_of(&self, i: usize) -> (r: Option<usize>)
        requires
            i < self.len(),
        ensures
            r == self.parent(i as int),
    {
        self.nodes[i].parent
    }

    /// Whether node `i` has kind `k`.
    pub fn kind_is(&self, i: usize, k: &str) -> (r: bool)
        requires
            i < self.len(),
        ensures
            r == (self.kind(i as int) == k@),
    {
        str_equals(self.nodes[i].kind.as_str(), k)
    }

    /// Whether node `i`'s kind ends with `suffix`.
    pub fn kind_ends_with(&self, i: usize, suffix: &str) -> (r: bool)
        requires
            i < self.len(),
        ensures
            r == has_suffix(self.kind(i as int), suffix@),
    {
        str_ends_with(self.nodes[i].kind.as_str(), suffix)
    }

    /// The text of node `i` in `source`.
    pub fn node_text(&self, i: usize, source: &str) -> (r: String)
        requires
            i < self.len(),
        ensures
            r@ == self.text(i as int, source.spec_bytes()),
    {
        byte_range_string(source, self.nodes[i].start_byte, self.nodes[i].end_byte)
    }

    /// The kind of the parent of node `i`, or `"unknown"` for the root.
    pub fn parent_kind_of(&self, i: usize) -> (r: String)
        requires
            self.wf(),
            i < self.len(),
        ensures
            r@ == self.parent_kind(i as int),
    {
        match self.nodes[i].parent {
            Some(p) => {
                assert(self@.nodes[i as int] == self.nodes@[i as int]@);
                assert(self.nodes@[i as int].parent == Some(p));
                self.nodes[p].kind.clone()
            },
            None => "unknown".to_owned(),
        }
    }

    /// The first child of `p` whose kind is `k`.
    pub fn child_with_kind(&self, p: usize, k: &str) -> (r: Option<usize>)
        ensures
            r matches Some(c) ==> c < self.len(),
            match r {
                Some(c) => self.first_child_with_kind(p as int, k@) == Some(c as int),
                None => self.first_child_with_kind(p as int, k@) is None,
            },
    {
        let mut j: usize = 0;
        while j < self.nodes.len()
            invariant
                j <= self.len(),
                self.first_child_with_kind(p as int, k@) == self.first_child_with_kind_from(
                    p as int,
                    k@,
                    j as int,
                ),
            decreases self.nodes.len() - j,
        {
            if self.nodes[j].parent == Some(p) && self.kind_is(j, k) {
                return Some(j);
            }
            j = j + 1;
        }
        None
    }

    /// The first child of `p` that stands in field `f` (`Node::child_by_field_name`).
    pub fn child_in_field(&self, p: usize, f: &str) -> (r: Option<usize>)
        ensures
            r matches Some(c) ==> c < self.len(),
            match r {
                Some(c) => self.first_child_in_field(p as int, f@) == Some(c as int),
                None => self.first_child_in_field(p as int, f@) is None,
            },
    {
        let mut j: usize = 0;
        while j < self.nodes.len()
            invariant
                j <= self.len(),
                self.first_child_in_field(p as int, f@) == self.first_child_in_field_from(
                    p as int,
                    f@,
                    j as int,
                ),
            decreases self.nodes.len() - j,
        {
            if self.nodes[j].parent == Some(p) {
                match &self.nodes[j].field {
                    Some(name) => {
                        if str_equals(name.as_str(), f) {
                            return Some(j);
                        }
                    },
                    None => {},
                }
            }
            j = j + 1;
        }
        None
    }

    /// The sibling right before node `i` (`Node::prev_sibling`).
    pub fn prev_sibling_of(&self, i: usize) -> (r: Option<usize>)
        requires
            i < self.len(),
        ensures
            match r {
                Some(s) => s < i && self.prev_sibling(i as int) == Some(s as int),
                None => self.prev_sibling(i as int) is None,
            },
    {
        match self.nodes[i].parent {
            None => None,
            Some(p) => {
                let mut j: usize = i;
                while j > 0
                    invariant
                        j <= i < self.len(),
                        self.parent(i as int) == Some(p),
                        self.prev_sibling(i as int) == self.last_child_before(p as int, j as int),
                    decreases j,
                {
                    if self.nodes[j - 1].parent == Some(p) {
                        return Some(j - 1);
                    }
                    j = j - 1;
                }
                None
            },
        }
    }

    /// The nearest proper ancestor of node `i` whose kind is `k`.
    pub fn ancestor_of_kind(&self, i: usize, k: &str) -> (r: Option<usize>)
        requires
            self.wf(),
            i < self.len(),
        ensures
            match r {
                Some(a) => a < i && self.ancestor_with_kind(i as int, k@) == Some(a as int),
                None => self.ancestor_with_kind(i as int, k@) is None,
            },
    {
        proof {
            lemma_ancestor_with_kind(self@, i as int, k@);
        }
        let mut cur: usize = i;
        loop
            invariant
                self.wf(),
                cur <= i < self.len(),
                self.ancestor_with_kind(i as int, k@) == self.ancestor_with_kind(cur as int, k@),
            decreases cur,
        {
            match self.nodes[cur].parent {
                None => {
                    return None;
                },
                Some(p) => {
                    assert(self.nodes@[cur as int].parent == Some(p));
                    if self.kind_is(p, k) {
                        return Some(p);
                    }
                    cur = p;
                },
            }
        }
    }
}

// ---------------------------------------------------------------------------
// Building the model from tree-sitter
// ---------------------------------------------------------------------------

/// One node of a parsed tree as a pre-order traversal meets it.
pub struct NodeRecord {
    /// The grammar's name for the node's type.
    pub kind: String,
    /// The field under which the node stands in its parent.
    pub field: Option<String>,
    /// The number of the node's ancestors.
    pub depth: usize,
    pub start_byte: usize,
    pub end_byte: usize,
    pub row: usize,
    pub column: usize,
}

impl View for NodeRecord {
    type V = NodeView;

    open spec fn view(&self) -> NodeView {
        NodeView {
            kind: self.kind@,
            field: field_view(self.field),
            depth: self.depth,
            start_byte: self.start_byte,
            end_byte: self.end_byte,
            row: self.row,
            column: self.column,
        }
    }
}

/// The values of a sequence of records.
pub open spec fn records_view(records: Seq<NodeRecord>) -> Seq<NodeView> {
    records.map_values(|r: NodeRecord| r@)
}

/// The depths of a sequence of nodes.
pub open spec fn node_depths(nodes: Seq<NodeView>) -> Seq<usize> {
    nodes.map_values(|v: NodeView| v.depth)
}

/// Among the first `n` nodes of a pre-order sequence of depths, scanning back
/// from the last: the nearest node at depth `up`, unless a node shallower than
/// that comes first.
pub open spec fn nearest_at_depth(depths: Seq<usize>, up: int, n: int) -> Option<int>
    decreases n,
{
    if n <= 0 {
        None
    } else if depths[n - 1] == up {
        Some(n - 1)
    } else if depths[n - 1] < up {
        None
    } else {
        nearest_at_depth(depths, up, n - 1)
    }
}

/// The parent of node `i` in a pre-order sequence of depths: the nearest
/// earlier node one level up; none at depth 0.
pub open spec fn parent_by_depth(depths: Seq<usize>, i: int) -> Option<int> {
    if depths[i] == 0 {
        None
    } else {
        nearest_at_depth(depths, depths[i] - 1, i)
    }
}

/// An index as a `usize`.
pub open spec fn as_index(o: Option<int>) -> Option<usize> {
    match o {
        Some(j) => Some(j as usize),
        None => None,
    }
}

/// The tree whose nodes, in pre-order, are `nodes`: each node hangs under the
/// nearest earlier node one level up.
pub open spec fn tree_of_nodes(nodes: Seq<NodeView>) -> TreeView {
    TreeView {
        nodes: Seq::new(
            nodes.len(),
            |i: int|
                NodeModel {
                    kind: nodes[i].kind,
                    field: nodes[i].field,
                    parent: as_index(parent_by_depth(node_depths(nodes), i)),
                    start_byte: nodes[i].start_byte,
                    end_byte: nodes[i].end_byte,
                    row: nodes[i].row,
                    column: nodes[i].column,
                },
        ),
    }
}

/// The nodes, in pre-order, of the tree into which `grammar` parses `source`.
pub open spec fn parsed_nodes(grammar: GrammarId, source: Seq<char>) -> Seq<NodeView> {
    Seq::new(parsed_node_count(grammar, source), |i: int| parsed_node(grammar, source, i))
}

/// The tree into which `grammar` parses `source`.
pub open spec fn parsed_tree(grammar: GrammarId, source: Seq<char>) -> TreeView {
    tree_of_nodes(parsed_nodes(grammar, source))
}

proof fn lemma_nearest_at_depth_bound(depths: Seq<usize>, up: int, n: int)
    ensures
        nearest_at_depth(depths, up, n) matches Some(j) ==> 0 <= j < n,
    decreases n,
{
    if n > 0 {
        lemma_nearest_at_depth_bound(depths, up, n - 1);
    }
}

/// Every tree built from nodes is well formed: parents come first.
pub proof fn lemma_tree_of_nodes_wf(nodes: Seq<NodeView>)
    ensures
        tree_of_nodes(nodes).wf(),
{
    assert forall|i: int|
        #![trigger tree_of_nodes(nodes).nodes[i]]
        0 <= i < tree_of_nodes(nodes).nodes.len() implies (tree_of_nodes(nodes).nodes[i].parent matches Some(
        p,
    ) ==> p < i) by {
        let depths = node_depths(nodes);
        if depths[i] != 0 {
            lemma_nearest_at_depth_bound(depths, depths[i] - 1, i);
        }
    }
}

/// A copy of an optional string.
fn copy_field(field: &Option<String>) -> (r: Option<String>)
    ensures
        r == *field,
{
    match field {
        Some(name) => Some(name.clone()),
        None => None,
    }
}

/// Builds the tree whose nodes, in pre-order, the records describe: each node
/// hangs under the nearest earlier node one level up.
pub fn tree_from_records(records: &Vec<NodeRecord>) -> (t: SyntaxTree)
    ensures
        t.wf(),
        t@ == tree_of_nodes(records_view(records@)),
{
    let ghost views = records_view(records@);
    let ghost depths = node_depths(views);
    let ghost target = tree_of_nodes(views);
    let mut nodes: Vec<SyntaxNode> = Vec::new();
    // open[k]: the node at depth k under which a node at depth k + 1 would hang.
    let mut open: Vec<Option<usize>> = Vec::new();
    let mut i: usize = 0;
    while i < records.len()
        invariant
            i <= records@.len(),
            views == records_view(records@),
            depths == node_depths(views),
            target == tree_of_nodes(views),
            nodes@.len() == i,
            forall|j: int| 0 <= j < i ==> #[trigger] nodes@[j]@ == target.nodes[j],
            forall|k: int|
                0 <= k < open@.len() ==> #[trigger] open@[k] == as_index(
                    nearest_at_depth(depths, k, i as int),
                ),
            forall|k: int|
                #![trigger nearest_at_depth(depths, k, i as int)]
                k >= open@.len() ==> nearest_at_depth(depths, k, i as int) is None,
        decreases records@.len() - i,
    {
        let r = &records[i];
        let d = r.depth;
        assert(depths[i as int] == d);
        let parent = if d >= 1 && d - 1 < open.len() {
            open[d - 1]
        } else {
            None
        };
        proof {
            if d >= 1 {
                assert(parent_by_depth(depths, i as int) == nearest_at_depth(
                    depths,
                    d - 1,
                    i as int,
                ));
                if d - 1 >= open@.len() {
                    assert(nearest_at_depth(depths, d - 1, i as int) is None);
                }
            }
        }
        assert(parent == as_index(parent_by_depth(depths, i as int)));
        let ghost before = open@;
        while open.len() > d
            invariant
                open@.len() <= before.len(),
                open@.len() >= d || open@.len() == before.len(),
                forall|k: int| 0 <= k < open@.len() ==> #[trigger] open@[k] == before[k],
            decreases open.len(),
        {
            open.pop();
        }
        while open.len() < d
            invariant
                open@.len() <= d,
                open@.len() >= before.len() || open@.len() >= d,
                forall|k: int|
                    0 <= k < open@.len() ==> #[trigger] open@[k] == (if k < before.len() {
                        before[k]
                    } else {
                        None
                    }),
            decreases d - open.len(),
        {
            open.push(None);
        }
        open.push(Some(i));
        proof {
            assert forall|k: int| 0 <= k < open@.len() implies #[trigger] open@[k] == as_index(
                nearest_at_depth(depths, k, i + 1),
            ) by {
                if k < d {
                    assert(nearest_at_depth(depths, k, i + 1) == nearest_at_depth(
                        depths,
                        k,
                        i as int,
                    ));
                    if k >= before.len() {
                        assert(nearest_at_depth(depths, k, i as int) is None);
                    }
                }
            }
            assert forall|k: int|
                #![trigger nearest_at_depth(depths, k, i + 1)]
                k >= open@.len() implies nearest_at_depth(depths, k, i + 1) is None by {}
        }
        let node = SyntaxNode {
            kind: r.kind.clone(),
            field: copy_field(&r.field),
            parent,
            start_byte: r.start_byte,
            end_byte: r.end_byte,
            row: r.row,
            column: r.column,
        };
        assert(node@ == target.nodes[i as int]);
        nodes.push(node);
        i = i + 1;
    }
    let t = SyntaxTree { nodes };
    assert(t@.nodes =~= target.nodes) by {
        assert forall|j: int| 0 <= j < t@.nodes.len() implies t@.nodes[j] == target.nodes[j] by {
            assert(t@.nodes[j] == nodes@[j]@);
        }
    }
    proof {
        lemma_tree_of_nodes_wf(views);
    }
    t
}

/// Copies a parse into a [`SyntaxTree`]: its nodes in pre-order, each under
/// the nearest earlier node one level up.
pub fn copy_tree(parsed: &ParsedSource) -> (t: SyntaxTree)
    ensures
        t.wf(),
        t@ == parsed_tree(parsed.grammar(), parsed.text()),
{
    let count = node_count(parsed);
    let mut records: Vec<NodeRecord> = Vec::new();
    for i in 0..count
        invariant
            count == parsed_node_count(parsed.grammar(), parsed.text()),
            records_view(records@) == parsed_nodes(parsed.grammar(), parsed.text()).take(
                i as int,
            ),
    {
        let record = node_record(parsed, i);
        let ghost before = records@;
        records.push(record);
        assert(records_view(records@) =~= parsed_nodes(parsed.grammar(), parsed.text()).take(
            i + 1,
        )) by {
            assert(records@ == before.push(record));
            assert(records_view(records@) =~= records_view(before).push(record@));
            assert(parsed_nodes(parsed.grammar(), parsed.text())[i as int] == parsed_node(
                parsed.grammar(),
                parsed.text(),
                i as int,
            ));
        }
    }
    assert(records_view(records@) =~= parsed_nodes(parsed.grammar(), parsed.text()));
    tree_from_records(&records)
}

/// Parses `source` with `grammar`. It fails exactly when tree-sitter does not
/// accept the grammar.
pub fn parse_source(grammar: GrammarId, source: &str) -> (r: Result<ParsedSource, SyntaxError>)
    ensures
        match r {
            Ok(parsed) => grammar_accepted(grammar) && parsed.grammar() == grammar
                && parsed.text() == source@,
            Err(e) => !grammar_accepted(grammar) && e == SyntaxError::LanguageRejected,
        },
{
    let mut parser = match new_parser(grammar) {
        Ok(p) => p,
        Err(_) => {
            return Err(SyntaxError::LanguageRejected);
        },
    };
    match parse_text(&mut parser, source) {
        Some(parsed) => Ok(parsed),
        None => Err(SyntaxError::ParseFailed),
    }
}

// ---------------------------------------------------------------------------
// Resolving query captures
// ---------------------------------------------------------------------------

/// Among the first `n` nodes of `t`, the last one whose byte range is
/// `[start, end)` and whose kind is `kind`.
pub open spec fn node_matching(t: TreeView, start: usize, end: usize, kind: Seq<char>, n: int) -> Option<
    int,
>
    decreases n,
{
    if n <= 0 {
        None
    } else if t.nodes[n - 1].start_byte == start && t.nodes[n - 1].end_byte == end && t.nodes[n
        - 1].kind == kind {
        Some(n - 1)
    } else {
        node_matching(t, start, end, kind, n - 1)
    }
}

/// The captures that raw captures (capture index, start byte, end byte, kind)
/// stand for in `t`, given the capture names by index: the node is the last
/// one of `t` with that range and kind. Raw captures whose index or node is
/// unknown stand for none.
pub open spec fn resolved_captures(
    t: TreeView,
    names: Seq<Seq<char>>,
    raw: Seq<(usize, usize, usize, Seq<char>)>,
) -> Seq<(int, Seq<char>)>
    decreases raw.len(),
{
    if raw.len() == 0 {
        seq![]
    } else {
        let (index, start, end, kind) = raw.last();
        let earlier = resolved_captures(t, names, raw.drop_last());
        match node_matching(t, start, end, kind, t.nodes.len() as int) {
            Some(node) => if index < names.len() {
                earlier.push((node, names[index as int]))
            } else {
                earlier
            },
            None => earlier,
        }
    }
}

/// The captures of `query` on the tree into which `grammar` parses `source`,
/// as nodes of that tree and capture names.
pub open spec fn parsed_captures(grammar: GrammarId, query: Seq<char>, source: Seq<char>) -> Seq<
    (int, Seq<char>),
> {
    resolved_captures(
        parsed_tree(grammar, source),
        query_capture_names_of(grammar, query),
        query_matches(grammar, query, source),
    )
}

/// The indices below `n` of the nodes of `t` that start at byte `start`, in order.
pub open spec fn starting_at(t: TreeView, start: usize, n: int) -> Seq<usize>
    decreases n,
{
    if n <= 0 {
        seq![]
    } else if t.nodes[n - 1].start_byte == start {
        starting_at(t, start, n - 1).push((n - 1) as usize)
    } else {
        starting_at(t, start, n - 1)
    }
}

/// The last of the nodes `b` of `t` whose range ends at `end` and whose kind is `kind`.
pub open spec fn last_in(t: TreeView, b: Seq<usize>, end: usize, kind: Seq<char>) -> Option<int>
    decreases b.len(),
{
    if b.len() == 0 {
        None
    } else if t.nodes[b.last() as int].end_byte == end && t.nodes[b.last() as int].kind == kind {
        Some(b.last() as int)
    } else {
        last_in(t, b.drop_last(), end, kind)
    }
}

proof fn lemma_node_matching_by_start(t: TreeView, start: usize, end: usize, kind: Seq<char>, n: int)
    requires
        n <= t.nodes.len(),
        t.nodes.len() <= usize::MAX,
    ensures
        node_matching(t, start, end, kind, n) == last_in(t, starting_at(t, start, n), end, kind),
        node_matching(t, start, end, kind, n) matches Some(j) ==> 0 <= j < n,
        forall|k: int|
            0 <= k < starting_at(t, start, n).len() ==> #[trigger] starting_at(t, start, n)[k] < n,
    decreases n,
{
    if n > 0 {
        lemma_node_matching_by_start(t, start, end, kind, n - 1);
        let b = starting_at(t, start, n - 1);
        if t.nodes[n - 1].start_byte == start {
            assert(b.push((n - 1) as usize).drop_last() =~= b);
        }
    }
}

/// Resolves raw captures (capture index, start byte, end byte, kind) to
/// captures of `t`: the node is the last one of `t` with that range and kind,
/// the name the capture name with that index. Raw captures whose index or node
/// is unknown are left out.
pub fn resolve_captures(
    t: &SyntaxTree,
    names: &Vec<String>,
    raw: &Vec<(usize, usize, usize, String)>,
) -> (r: Vec<Capture>)
    ensures
        t@.captures_in(captures_view(r@)),
        captures_view(r@) == resolved_captures(
            t@,
            names@.map_values(|n: String| n@),
            raw_captures_view(raw@),
        ),
{
    let ghost names_view = names@.map_values(|n: String| n@);
    let ghost raw_view = raw_captures_view(raw@);
    let ghost tv = t@;
    let mut by_start: HashMapWithView<usize, Vec<usize>> = HashMapWithView::new();
    let mut i: usize = 0;
    while i < t.nodes.len()
        invariant
            i <= t.nodes@.len(),
            tv == t@,
            forall|s: usize|
                #![trigger by_start@.contains_key(s)]
                if by_start@.contains_key(s) {
                    by_start@[s]@ == starting_at(tv, s, i as int)
                } else {
                    starting_at(tv, s, i as int).len() == 0
                },
        decreases t.nodes@.len() - i,
    {
        let s = t.nodes[i].start_byte;
        assert(tv.nodes[i as int].start_byte == s);
        let mut bucket = match by_start.remove(&s) {
            Some(b) => b,
            None => Vec::new(),
        };
        bucket.push(i);
        by_start.insert(s, bucket);
        assert forall|x: usize|
            #![trigger by_start@.contains_key(x)]
            if by_start@.contains_key(x) {
                by_start@[x]@ == starting_at(tv, x, i + 1)
            } else {
                starting_at(tv, x, i + 1).len() == 0
            } by {
            if x != s {
                assert(starting_at(tv, x, i + 1) == starting_at(tv, x, i as int));
            }
        }
        i = i + 1;
    }
    let mut captures: Vec<Capture> = Vec::new();
    let total = t.nodes.len();
    assert(tv.nodes.len() == total);
    let mut j: usize = 0;
    while j < raw.len()
        invariant
            j <= raw@.len(),
            tv == t@,
            tv.nodes.len() <= usize::MAX,
            names_view == names@.map_values(|n: String| n@),
            raw_view == raw_captures_view(raw@),
            forall|s: usize|
                #![trigger by_start@.contains_key(s)]
                if by_start@.contains_key(s) {
                    by_start@[s]@ == starting_at(tv, s, tv.nodes.len() as int)
                } else {
                    starting_at(tv, s, tv.nodes.len() as int).len() == 0
                },
            tv.captures_in(captures_view(captures@)),
            captures_view(captures@) == resolved_captures(tv, names_view, raw_view.take(j as int)),
        decreases raw@.len() - j,
    {
        let (index, start, end, kind) = (raw[j].0, raw[j].1, raw[j].2, &raw[j].3);
        assert(raw_view[j as int] == (index, start, end, kind@));
        proof {
            assert(raw_view.take(j + 1).drop_last() =~= raw_view.take(j as int));
            lemma_node_matching_by_start(tv, start, end, kind@, tv.nodes.len() as int);
        }
        let ghost bucket_view = starting_at(tv, start, tv.nodes.len() as int);
        let mut found: Option<usize> = None;
        if by_start.contains_key(&start) {
            match by_start.get(&start) {
                Some(bucket) => {
                    let mut k: usize = bucket.len();
                    assert(bucket_view.take(bucket_view.len() as int) =~= bucket_view);
                    while k > 0
                        invariant_except_break
                            found is None,
                            last_in(tv, bucket_view, end, kind@) == last_in(
                                tv,
                                bucket_view.take(k as int),
                                end,
                                kind@,
                            ),
                        invariant
                            k <= bucket@.len(),
                            bucket@ == bucket_view,
                            forall|m: int|
                                0 <= m < bucket_view.len() ==> #[trigger] bucket_view[m]
                                    < tv.nodes.len(),
                            tv == t@,
                        ensures
                            as_index(last_in(tv, bucket_view, end, kind@)) == found,
                        decreases k,
                    {
                        let node = bucket[k - 1];
                        assert(bucket_view.take(k as int).drop_last() =~= bucket_view.take(k - 1));
                        assert(bucket_view.take(k as int).last() == node);
                        assert(tv.nodes[node as int] == t.nodes@[node as int]@);
                        if t.nodes[node].end_byte == end && str_equals(
                            t.nodes[node].kind.as_str(),
                            kind.as_str(),
                        ) {
                            found = Some(node);
                            break;
                        }
                        k = k - 1;
                        if k == 0 {
                            assert(bucket_view.take(0) =~= Seq::<usize>::empty());
                        }
                    }
                },
                None => {},
            }
        } else {
            assert(bucket_view =~= Seq::<usize>::empty());
        }
        assert(as_index(last_in(tv, bucket_view, end, kind@)) == found);
        let ghost before = captures@;
        match found {
            Some(node) => {
                if index < names.len() {
                    captures.push(Capture { node, name: names[index].clone() });
                    proof {
                        assert(captures_view(captures@) =~= captures_view(before).push(
                            (node as int, names_view[index as int]),
                        ));
                    }
                }
            },
            None => {},
        }
        j = j + 1;
    }
    proof {
        assert(raw_view.take(raw@.len() as int) =~= raw_view);
    }
    captures
}

/// Runs `query` on a parse, whose copy is `t`, and resolves its captures to
/// nodes of `t`. It fails exactly when the query does not compile for the
/// parse's grammar.
pub fn query_captures(query: &str, parsed: &ParsedSource, t: &SyntaxTree) -> (r: Result<
    Vec<Capture>,
    SyntaxError,
>)
    ensures
        match r {
            Ok(captures) => {
                &&& query_compiles(parsed.grammar(), query@)
                &&& t@.captures_in(captures_view(captures@))
                &&& captures_view(captures@) == resolved_captures(
                    t@,
                    query_capture_names_of(parsed.grammar(), query@),
                    query_matches(parsed.grammar(), query@, parsed.text()),
                )
            },
            Err(e) => !query_compiles(parsed.grammar(), query@) && e == SyntaxError::InvalidQuery,
        },
{
    let q = match new_query(parsed.grammar_id(), query) {
        Ok(q) => q,
        Err(_) => {
            return Err(SyntaxError::InvalidQuery);
        },
    };
    let names = query_capture_names(&q);
    let raw = run_query(&q, parsed);
    Ok(resolve_captures(t, &names, &raw))
}

} // verus!

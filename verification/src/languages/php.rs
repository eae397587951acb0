use vstd::prelude::*;
use vstd::string::StringSliceAdditionalSpecFns;
use tree_sitter::Language;
use crate::languages::{file_name, file_name_of, single_reference, strings_view, LanguageSupport};
use crate::syntax::{grammar_language, GrammarId, SyntaxTree, TreeView};
use crate::text::{has_infix, has_prefix, has_suffix, str_contains, str_ends_with, str_starts_with};

verus! {

/// PHP.
pub struct PhpLanguage;

/// The first of at most `steps` proper ancestors of `i` whose kind ends in
/// `_declaration`.
pub open spec fn enclosing_declaration_within(tree: TreeView, i: int, steps: nat) -> Option<int>
    decreases steps,
{
    if steps == 0 {
        None
    } else {
        match tree.parent(i) {
            None => None,
            Some(p) => if has_suffix(tree.kind(p as int), "_declaration"@) {
                Some(p as int)
            } else {
                enclosing_declaration_within(tree, p as int, (steps - 1) as nat)
            },
        }
    }
}

/// The declaration that owns the name at node `i`, among its four nearest
/// ancestors (name, method declaration; name, const element, const declaration).
pub open spec fn enclosing_declaration_spec(tree: TreeView, i: int) -> Option<int> {
    enclosing_declaration_within(tree, i, 4)
}

fn enclosing_declaration(tree: &SyntaxTree, i: usize) -> (r: Option<usize>)
    requires
        tree.wf(),
        i < tree.len(),
    ensures
        match r {
            Some(d) => d < tree.len() && enclosing_declaration_spec(tree@, i as int) == Some(
                d as int,
            ),
            None => enclosing_declaration_spec(tree@, i as int) is None,
        },
{
    let mut cur = i;
    let mut steps: usize = 4;
    while steps > 0
        invariant
            tree.wf(),
            cur < tree.len(),
            enclosing_declaration_within(tree@, cur as int, steps as nat)
                == enclosing_declaration_spec(tree@, i as int),
        decreases steps,
    {
        match tree.parent_of(cur) {
            None => {
                return None;
            },
            Some(p) => {
                assert(tree@.nodes[cur as int].parent == Some(p));
                if tree.kind_ends_with(p, "_declaration") {
                    return Some(p);
                }
                cur = p;
                steps = steps - 1;
            },
        }
    }
    None
}

/// The definitions query.
pub const DEFINITIONS_QUERY: &'static str = r#"
        (function_definition name: (name) @def)
        (class_declaration name: (name) @def)
        (interface_declaration name: (name) @def)
        (trait_declaration name: (name) @def)
        (enum_declaration name: (name) @def)
        (enum_case name: (name) @def)
        (method_declaration name: (name) @def)
        (const_declaration (const_element (name) @def))
        "#;

/// The references query: (name) covers calls, static/member access, type hints,
/// `new`, and `use` imports.
pub const REFERENCES_QUERY: &'static str = r#"
        (name) @ref
        "#;

impl LanguageSupport for PhpLanguage {
    /// Magic methods (`__construct`, `__get`, ...).
    open spec fn spec_should_ignore(&self, name: Seq<char>) -> bool {
        has_prefix(name, "__"@)
    }

    /// PHPUnit layouts.
    open spec fn spec_is_test_file(&self, path: Seq<char>) -> bool {
        has_suffix(file_name(path), "Test.php"@) || has_prefix(path, "tests/"@) || has_infix(
            path,
            "/tests/"@,
        )
    }

    open spec fn spec_should_skip_node(&self, tree: TreeView, node: int, source: Seq<u8>) -> bool {
        false
    }

    /// Members with an explicit `public` visibility; members without a
    /// modifier and top-level functions and classes stay reportable.
    open spec fn spec_is_public(&self, tree: TreeView, node: int, source: Seq<u8>) -> bool {
        match enclosing_declaration_spec(tree, node) {
            Some(d) => exists|c: int|
                tree.is_child(d, c) && tree.kind(c) == "visibility_modifier"@ && has_prefix(
                    tree.text(c, source),
                    "public"@,
                ),
            None => false,
        }
    }

    open spec fn spec_grammar(&self) -> GrammarId {
        GrammarId::Php
    }

    open spec fn spec_definitions_query(&self) -> Seq<char> {
        DEFINITIONS_QUERY@
    }

    open spec fn spec_references_query(&self) -> Seq<char> {
        REFERENCES_QUERY@
    }

    open spec fn spec_normalize_reference(&self, capture: Seq<char>, text: Seq<char>) -> Seq<
        Seq<char>,
    > {
        seq![text]
    }

    fn language(&self) -> Language {
        grammar_language(GrammarId::Php)
    }

    fn grammar(&self) -> (r: GrammarId) {
        GrammarId::Php
    }

    fn definitions_query(&self) -> &'static str {
        DEFINITIONS_QUERY
    }

    fn references_query(&self) -> &'static str {
        REFERENCES_QUERY
    }

    fn should_ignore(&self, name: &str) -> (r: bool) {
        str_starts_with(name, "__")
    }

    fn is_test_file(&self, path: &str) -> (r: bool) {
        let filename = file_name_of(path);
        str_ends_with(filename.as_str(), "Test.php") || str_starts_with(path, "tests/")
            || str_contains(path, "/tests/")
    }

    fn should_skip_node(&self, tree: &SyntaxTree, node: usize, source: &str) -> (r: bool) {
        false
    }

    fn is_public(&self, tree: &SyntaxTree, node: usize, source: &str) -> (r: bool) {
        match enclosing_declaration(tree, node) {
            None => false,
            Some(d) => {
                let mut c: usize = 0;
                while c < tree.node_count()
                    invariant
                        c <= tree.len(),
                        enclosing_declaration_spec(tree@, node as int) == Some(d as int),
                        forall|e: int|
                            0 <= e < c ==> !(tree.is_child(d as int, e) && tree.kind(e)
                                == "visibility_modifier"@ && has_prefix(
                                tree.text(e, source.spec_bytes()),
                                "public"@,
                            )),
                    decreases tree.len() - c,
                {
                    if tree.parent_of(c) == Some(d) && tree.kind_is(c, "visibility_modifier") {
                        let text = tree.node_text(c, source);
                        if str_starts_with(text.as_str(), "public") {
                            assert(tree.is_child(d as int, c as int));
                            return true;
                        }
                    }
                    c = c + 1;
                }
                false
            },
        }
    }

    fn normalize_reference(&self, capture: &str, text: &str) -> (r: Vec<String>) {
        single_reference(text)
    }
}

} // verus!

use vstd::prelude::*;
use vstd::string::StringSliceAdditionalSpecFns;
use tree_sitter::Language;
use crate::languages::{file_name, file_name_of, single_reference, strings_view, LanguageSupport};
use crate::syntax::{grammar_language, GrammarId, SyntaxTree, TreeView};
use crate::text::{has_infix, has_prefix, has_suffix, str_contains, str_ends_with, str_starts_with};

verus! {

/// Lua.
pub struct LuaLanguage;

/// The name is a field of a module table (`function M.foo()`, `function M:bar()`,
/// `M.foo = function()`): Lua's way of exporting.
pub open spec fn module_field(tree: TreeView, node: int) -> bool {
    match tree.parent(node) {
        Some(p) => tree.kind(p as int) == "dot_index_expression"@ || tree.kind(p as int)
            == "method_index_expression"@,
        None => false,
    }
}

/// The definitions query.
pub const DEFINITIONS_QUERY: &'static str = r#"
        (function_declaration name: (identifier) @def)
        (function_declaration name: (dot_index_expression field: (identifier) @def))
        (function_declaration name: (method_index_expression method: (identifier) @def))
        (variable_declaration (assignment_statement (variable_list name: (identifier) @def)))
        (assignment_statement
          (variable_list name: (dot_index_expression field: (identifier) @def))
          (expression_list (function_definition)))
        "#;

/// The references query.
pub const REFERENCES_QUERY: &'static str = r#"
        (identifier) @ref
        "#;

impl LanguageSupport for LuaLanguage {
    /// Intentionally unused locals and metamethods such as `__index`.
    open spec fn spec_should_ignore(&self, name: Seq<char>) -> bool {
        has_prefix(name, "_"@)
    }

    /// busted and plain test layouts.
    open spec fn spec_is_test_file(&self, path: Seq<char>) -> bool {
        let filename = file_name(path);
        has_infix(path, "test_"@) || has_infix(path, "/tests/"@) || has_prefix(path, "tests/"@)
            || has_suffix(filename, "_spec.lua"@) || has_infix(path, "/spec/"@) || has_prefix(
            path,
            "spec/"@,
        )
    }

    open spec fn spec_should_skip_node(&self, tree: TreeView, node: int, source: Seq<u8>) -> bool {
        false
    }

    open spec fn spec_is_public(&self, tree: TreeView, node: int, source: Seq<u8>) -> bool {
        module_field(tree, node)
    }

    open spec fn spec_grammar(&self) -> GrammarId {
        GrammarId::Lua
    }

    open spec fn spec_definitions_query(&self) -> Seq<char> {
        DEFINITIONS_QUERY@
    }

    open spec fn spec_references_query(&self) -> Seq<char> {
        REFERENCES_QUERY@
    }

    open spec fn spec_normalize_reference(&self, capture: Seq<char>, text: Seq<char>) -> Seq<
        Seq<char>,
    > {
        seq![text]
    }

    fn language(&self) -> Language {
        grammar_language(GrammarId::Lua)
    }

    fn grammar(&self) -> (r: GrammarId) {
        GrammarId::Lua
    }

    fn definitions_query(&self) -> &'static str {
        DEFINITIONS_QUERY
    }

    fn references_query(&self) -> &'static str {
        REFERENCES_QUERY
    }

    fn should_ignore(&self, name: &str) -> (r: bool) {
        str_starts_with(name, "_")
    }

    fn is_test_file(&self, path: &str) -> (r: bool) {
        let filename = file_name_of(path);
        str_contains(path, "test_") || str_contains(path, "/tests/") || str_starts_with(
            path,
            "tests/",
        ) || str_ends_with(filename.as_str(), "_spec.lua") || str_contains(path, "/spec/")
            || str_starts_with(path, "spec/")
    }

    fn should_skip_node(&self, tree: &SyntaxTree, node: usize, source: &str) -> (r: bool) {
        false
    }

    fn is_public(&self, tree: &SyntaxTree, node: usize, source: &str) -> (r: bool) {
        match tree.parent_of(node) {
            Some(p) => {
                assert(tree@.nodes[node as int].parent == Some(p));
                tree.kind_is(p, "dot_index_expression") || tree.kind_is(p, "method_index_expression")
            },
            None => false,
        }
    }

    fn normalize_reference(&self, capture: &str, text: &str) -> (r: Vec<String>) {
        single_reference(text)
    }
}

} // verus!

use vstd::prelude::*;
use vstd::string::StringSliceAdditionalSpecFns;
use tree_sitter::Language;
use crate::languages::{default_is_test_file, default_test_path, single_reference, strings_view, LanguageSupport};
use crate::syntax::{grammar_language, GrammarId, SyntaxTree, TreeView};
use crate::text::{has_prefix, str_equals, str_starts_with};

verus! {

/// Python.
pub struct PythonLanguage;

/// The definitions query.
pub const DEFINITIONS_QUERY: &'static str = r#"
        (function_definition name: (identifier) @def)
        (class_definition name: (identifier) @def)
        (module (expression_statement (assignment left: (identifier) @def)))
        "#;

/// The references query.
pub const REFERENCES_QUERY: &'static str = r#"
        (identifier) @ref
        "#;

impl LanguageSupport for PythonLanguage {
    /// `main`, test functions and classes (`test_*`, `Test*`) and dunder names.
    open spec fn spec_should_ignore(&self, name: Seq<char>) -> bool {
        name == "main"@ || has_prefix(name, "test_"@) || has_prefix(name, "Test"@) || has_prefix(
            name,
            "__"@,
        )
    }

    open spec fn spec_is_test_file(&self, path: Seq<char>) -> bool {
        default_test_path(path)
    }

    open spec fn spec_should_skip_node(&self, tree: TreeView, node: int, source: Seq<u8>) -> bool {
        false
    }

    open spec fn spec_is_public(&self, tree: TreeView, node: int, source: Seq<u8>) -> bool {
        false
    }

    open spec fn spec_grammar(&self) -> GrammarId {
        GrammarId::Python
    }

    open spec fn spec_definitions_query(&self) -> Seq<char> {
        DEFINITIONS_QUERY@
    }

    open spec fn spec_references_query(&self) -> Seq<char> {
        REFERENCES_QUERY@
    }

    open spec fn spec_normalize_reference(&self, capture: Seq<char>, text: Seq<char>) -> Seq<
        Seq<char>,
    > {
        seq![text]
    }

    fn language(&self) -> Language {
        grammar_language(GrammarId::Python)
    }

    fn grammar(&self) -> (r: GrammarId) {
        GrammarId::Python
    }

    fn definitions_query(&self) -> &'static str {
        DEFINITIONS_QUERY
    }

    fn references_query(&self) -> &'static str {
        REFERENCES_QUERY
    }

    fn should_ignore(&self, name: &str) -> (r: bool) {
        str_equals(name, "main") || str_starts_with(name, "test_") || str_starts_with(name, "Test")
            || str_starts_with(name, "__")
    }

    fn is_test_file(&self, path: &str) -> (r: bool) {
        default_is_test_file(path)
    }

    fn should_skip_node(&self, tree: &SyntaxTree, node: usize, source: &str) -> (r: bool) {
        false
    }

    fn is_public(&self, tree: &SyntaxTree, node: usize, source: &str) -> (r: bool) {
        false
    }

    fn normalize_reference(&self, capture: &str, text: &str) -> (r: Vec<String>) {
        single_reference(text)
    }
}

} // verus!

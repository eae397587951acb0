use vstd::prelude::*;
use vstd::string::StringSliceAdditionalSpecFns;
use tree_sitter::Language;
use crate::languages::typescript::{exported, is_exported, is_js_test_file, js_test_path};
use crate::languages::{single_reference, strings_view, LanguageSupport};
use crate::syntax::{grammar_language, GrammarId, SyntaxTree, TreeView};
use crate::text::{has_prefix, str_starts_with};

verus! {

/// JavaScript (and JSX).
pub struct JavaScriptLanguage;

/// The definitions query.
pub const DEFINITIONS_QUERY: &'static str = r#"
        (function_declaration name: (identifier) @def)
        (generator_function_declaration name: (identifier) @def)
        (class_declaration name: (identifier) @def)
        (program (lexical_declaration (variable_declarator name: (identifier) @def)))
        (program (variable_declaration (variable_declarator name: (identifier) @def)))
        (program (export_statement declaration: (lexical_declaration (variable_declarator name: (identifier) @def))))
        (program (export_statement declaration: (variable_declaration (variable_declarator name: (identifier) @def))))
        "#;

/// The references query.
pub const REFERENCES_QUERY: &'static str = r#"
        (identifier) @ref
        (property_identifier) @ref
        (shorthand_property_identifier) @ref
        (shorthand_property_identifier_pattern) @ref
        "#;

impl LanguageSupport for JavaScriptLanguage {
    /// The `_name` convention for intentionally unused names.
    open spec fn spec_should_ignore(&self, name: Seq<char>) -> bool {
        has_prefix(name, "_"@)
    }

    open spec fn spec_is_test_file(&self, path: Seq<char>) -> bool {
        js_test_path(path)
    }

    open spec fn spec_should_skip_node(&self, tree: TreeView, node: int, source: Seq<u8>) -> bool {
        false
    }

    open spec fn spec_is_public(&self, tree: TreeView, node: int, source: Seq<u8>) -> bool {
        exported(tree, node)
    }

    open spec fn spec_grammar(&self) -> GrammarId {
        GrammarId::JavaScript
    }

    open spec fn spec_definitions_query(&self) -> Seq<char> {
        DEFINITIONS_QUERY@
    }

    open spec fn spec_references_query(&self) -> Seq<char> {
        REFERENCES_QUERY@
    }

    open spec fn spec_normalize_reference(&self, capture: Seq<char>, text: Seq<char>) -> Seq<
        Seq<char>,
    > {
        seq![text]
    }

    fn language(&self) -> Language {
        grammar_language(GrammarId::JavaScript)
    }

    fn grammar(&self) -> (r: GrammarId) {
        GrammarId::JavaScript
    }

    fn definitions_query(&self) -> &'static str {
        DEFINITIONS_QUERY
    }

    fn references_query(&self) -> &'static str {
        REFERENCES_QUERY
    }

    fn should_ignore(&self, name: &str) -> (r: bool) {
        str_starts_with(name, "_")
    }

    fn is_test_file(&self, path: &str) -> (r: bool) {
        is_js_test_file(path)
    }

    fn should_skip_node(&self, tree: &SyntaxTree, node: usize, source: &str) -> (r: bool) {
        false
    }

    fn is_public(&self, tree: &SyntaxTree, node: usize, source: &str) -> (r: bool) {
        is_exported(tree, node)
    }

    fn normalize_reference(&self, capture: &str, text: &str) -> (r: Vec<String>) {
        single_reference(text)
    }
}

} // verus!

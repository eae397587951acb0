use vstd::prelude::*;
use vstd::string::StringSliceAdditionalSpecFns;
use tree_sitter::Language;
use crate::languages::{default_is_test_file, default_test_path, single_reference, strings_view, LanguageSupport};
use crate::syntax::{grammar_language, GrammarId, SyntaxTree, TreeView};
use crate::text::str_equals;

verus! {

/// The definitions query: both `function f` and `f()` forms have the name
/// field.
pub const DEFINITIONS_QUERY: &'static str = r#"
        (function_definition name: (word) @def)
        "#;

/// The references query. Plain commands are (command name: (command_name
/// (word))) and bare arguments (`trap cleanup EXIT`) are (word) nodes, so one
/// pattern covers both. Quoted arguments are not captured.
pub const REFERENCES_QUERY: &'static str = r#"
        (word) @ref
        "#;

/// Bash.
pub struct BashLanguage;

impl LanguageSupport for BashLanguage {
    /// The conventional entry point `main`.
    open spec fn spec_should_ignore(&self, name: Seq<char>) -> bool {
        name == "main"@
    }

    open spec fn spec_is_test_file(&self, path: Seq<char>) -> bool {
        default_test_path(path)
    }

    open spec fn spec_should_skip_node(&self, tree: TreeView, node: int, source: Seq<u8>) -> bool {
        false
    }

    open spec fn spec_is_public(&self, tree: TreeView, node: int, source: Seq<u8>) -> bool {
        false
    }

    open spec fn spec_grammar(&self) -> GrammarId {
        GrammarId::Bash
    }

    open spec fn spec_definitions_query(&self) -> Seq<char> {
        DEFINITIONS_QUERY@
    }

    open spec fn spec_references_query(&self) -> Seq<char> {
        REFERENCES_QUERY@
    }

    open spec fn spec_normalize_reference(&self, capture: Seq<char>, text: Seq<char>) -> Seq<
        Seq<char>,
    > {
        seq![text]
    }

    fn language(&self) -> Language {
        grammar_language(GrammarId::Bash)
    }

    fn grammar(&self) -> (r: GrammarId) {
        GrammarId::Bash
    }

    fn definitions_query(&self) -> &'static str {
        DEFINITIONS_QUERY
    }

    fn references_query(&self) -> &'static str {
        REFERENCES_QUERY
    }

    fn should_ignore(&self, name: &str) -> (r: bool) {
        str_equals(name, "main")
    }

    fn is_test_file(&self, path: &str) -> (r: bool) {
        default_is_test_file(path)
    }

    fn should_skip_node(&self, tree: &SyntaxTree, node: usize, source: &str) -> (r: bool) {
        false
    }

    fn is_public(&self, tree: &SyntaxTree, node: usize, source: &str) -> (r: bool) {
        false
    }

    fn normalize_reference(&self, capture: &str, text: &str) -> (r: Vec<String>) {
        single_reference(text)
    }
}

} // verus!

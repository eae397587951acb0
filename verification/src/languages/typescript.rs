use vstd::prelude::*;
use vstd::string::StringSliceAdditionalSpecFns;
use tree_sitter::Language;
use crate::languages::{single_reference, strings_view, LanguageSupport};
use crate::syntax::{grammar_language, GrammarId, SyntaxTree, TreeView};
use crate::text::{has_infix, has_prefix, has_suffix, str_contains, str_ends_with, str_starts_with};

verus! {

/// TypeScript, or TSX when `tsx` is set.
pub struct TypeScriptLanguage {
    pub tsx: bool,
}

/// The node stands inside an `export` statement.
pub open spec fn exported(tree: TreeView, node: int) -> bool {
    tree.ancestor_with_kind(node, "export_statement"@) is Some
}

/// Test-file conventions shared by TypeScript and JavaScript.
pub open spec fn js_test_path(path: Seq<char>) -> bool {
    has_infix(path, ".test."@) || has_infix(path, ".spec."@) || has_infix(path, "__tests__/"@)
}

/// Whether the node stands inside an `export` statement.
pub fn is_exported(tree: &SyntaxTree, node: usize) -> (r: bool)
    requires
        tree.wf(),
        node < tree.len(),
    ensures
        r == exported(tree@, node as int),
{
    tree.ancestor_of_kind(node, "export_statement").is_some()
}

/// Test-file conventions shared by TypeScript and JavaScript.
pub fn is_js_test_file(path: &str) -> (r: bool)
    ensures
        r == js_test_path(path@),
{
    str_contains(path, ".test.") || str_contains(path, ".spec.") || str_contains(path, "__tests__/")
}

/// The definitions query.
pub const DEFINITIONS_QUERY: &'static str = r#"
        (function_declaration name: (identifier) @def)
        (generator_function_declaration name: (identifier) @def)
        (class_declaration name: (type_identifier) @def)
        (abstract_class_declaration name: (type_identifier) @def)
        (interface_declaration name: (type_identifier) @def)
        (type_alias_declaration name: (type_identifier) @def)
        (enum_declaration name: (identifier) @def)
        (program (lexical_declaration (variable_declarator name: (identifier) @def)))
        (program (variable_declaration (variable_declarator name: (identifier) @def)))
        (program (export_statement declaration: (lexical_declaration (variable_declarator name: (identifier) @def))))
        (program (export_statement declaration: (variable_declaration (variable_declarator name: (identifier) @def))))
        "#;

/// The references query.
pub const REFERENCES_QUERY: &'static str = r#"
        (identifier) @ref
        (type_identifier) @ref
        (property_identifier) @ref
        (shorthand_property_identifier) @ref
        (shorthand_property_identifier_pattern) @ref
        "#;

impl LanguageSupport for TypeScriptLanguage {
    /// The `_name` convention for intentionally unused names.
    open spec fn spec_should_ignore(&self, name: Seq<char>) -> bool {
        has_prefix(name, "_"@)
    }

    /// Test files, and ambient declaration files (`.d.ts`), which only refer.
    open spec fn spec_is_test_file(&self, path: Seq<char>) -> bool {
        js_test_path(path) || has_suffix(path, ".d.ts"@)
    }

    open spec fn spec_should_skip_node(&self, tree: TreeView, node: int, source: Seq<u8>) -> bool {
        false
    }

    open spec fn spec_is_public(&self, tree: TreeView, node: int, source: Seq<u8>) -> bool {
        exported(tree, node)
    }

    open spec fn spec_grammar(&self) -> GrammarId {
        if self.tsx {
            GrammarId::Tsx
        } else {
            GrammarId::TypeScript
        }
    }

    open spec fn spec_definitions_query(&self) -> Seq<char> {
        DEFINITIONS_QUERY@
    }

    open spec fn spec_references_query(&self) -> Seq<char> {
        REFERENCES_QUERY@
    }

    open spec fn spec_normalize_reference(&self, capture: Seq<char>, text: Seq<char>) -> Seq<
        Seq<char>,
    > {
        seq![text]
    }

    fn language(&self) -> Language {
        grammar_language(self.grammar())
    }

    fn grammar(&self) -> (r: GrammarId) {
        if self.tsx {
            GrammarId::Tsx
        } else {
            GrammarId::TypeScript
        }
    }

    fn definitions_query(&self) -> &'static str {
        DEFINITIONS_QUERY
    }

    fn references_query(&self) -> &'static str {
        REFERENCES_QUERY
    }

    fn should_ignore(&self, name: &str) -> (r: bool) {
        str_starts_with(name, "_")
    }

    fn is_test_file(&self, path: &str) -> (r: bool) {
        is_js_test_file(path) || str_ends_with(path, ".d.ts")
    }

    fn should_skip_node(&self, tree: &SyntaxTree, node: usize, source: &str) -> (r: bool) {
        false
    }

    fn is_public(&self, tree: &SyntaxTree, node: usize, source: &str) -> (r: bool) {
        is_exported(tree, node)
    }

    fn normalize_reference(&self, capture: &str, text: &str) -> (r: Vec<String>) {
        single_reference(text)
    }
}

} // verus!

use vstd::prelude::*;
use vstd::string::StringSliceAdditionalSpecFns;
use tree_sitter::Language;
use crate::languages::{single_reference, strings_view, LanguageSupport};
use crate::symbols::{file_definitions, law_ignored_names_are_never_definitions};
use crate::syntax::{grammar_language, parsed_captures, parsed_tree, GrammarId, SyntaxTree, TreeView};
use crate::text::{
    chars_of, has_prefix, has_suffix, is_uppercase, str_ends_with, str_equals, str_starts_with,
    unicode_uppercase,
};

verus! {

/// Go.
pub struct GoLanguage;

/// Go exports a name by capitalizing it.
pub open spec fn exported_name(name: Seq<char>) -> bool {
    name.len() > 0 && unicode_uppercase(name[0])
}

/// The definitions query.
pub const DEFINITIONS_QUERY: &'static str = r#"
        (function_declaration name: (identifier) @def)
        (method_declaration name: (field_identifier) @def)
        (source_file (type_declaration (type_spec name: (type_identifier) @def)))
        (source_file (type_declaration (type_alias name: (type_identifier) @def)))
        (source_file (const_declaration (const_spec name: (identifier) @def)))
        (source_file (var_declaration (var_spec name: (identifier) @def)))
        (source_file (var_declaration (var_spec_list (var_spec name: (identifier) @def))))
        "#;

/// The references query.
pub const REFERENCES_QUERY: &'static str = r#"
        (identifier) @ref
        (type_identifier) @ref
        (field_identifier) @ref
        (package_identifier) @ref
        "#;

impl LanguageSupport for GoLanguage {
    /// Entry points, the blank identifier and what `go test` runs.
    open spec fn spec_should_ignore(&self, name: Seq<char>) -> bool {
        name == "main"@ || name == "init"@ || name == "_"@ || has_prefix(name, "Test"@) || has_prefix(
            name,
            "Benchmark"@,
        ) || has_prefix(name, "Fuzz"@) || has_prefix(name, "Example"@)
    }

    open spec fn spec_is_test_file(&self, path: Seq<char>) -> bool {
        has_suffix(path, "_test.go"@)
    }

    open spec fn spec_should_skip_node(&self, tree: TreeView, node: int, source: Seq<u8>) -> bool {
        false
    }

    open spec fn spec_is_public(&self, tree: TreeView, node: int, source: Seq<u8>) -> bool {
        exported_name(tree.text(node, source))
    }

    open spec fn spec_grammar(&self) -> GrammarId {
        GrammarId::Go
    }

    open spec fn spec_definitions_query(&self) -> Seq<char> {
        DEFINITIONS_QUERY@
    }

    open spec fn spec_references_query(&self) -> Seq<char> {
        REFERENCES_QUERY@
    }

    open spec fn spec_normalize_reference(&self, capture: Seq<char>, text: Seq<char>) -> Seq<
        Seq<char>,
    > {
        seq![text]
    }

    fn language(&self) -> Language {
        grammar_language(GrammarId::Go)
    }

    fn grammar(&self) -> (r: GrammarId) {
        GrammarId::Go
    }

    fn definitions_query(&self) -> &'static str {
        DEFINITIONS_QUERY
    }

    fn references_query(&self) -> &'static str {
        REFERENCES_QUERY
    }

    fn should_ignore(&self, name: &str) -> (r: bool) {
        str_equals(name, "main") || str_equals(name, "init") || str_equals(name, "_")
            || str_starts_with(name, "Test") || str_starts_with(name, "Benchmark")
            || str_starts_with(name, "Fuzz") || str_starts_with(name, "Example")
    }

    fn is_test_file(&self, path: &str) -> (r: bool) {
        str_ends_with(path, "_test.go")
    }

    fn should_skip_node(&self, tree: &SyntaxTree, node: usize, source: &str) -> (r: bool) {
        false
    }

    fn is_public(&self, tree: &SyntaxTree, node: usize, source: &str) -> (r: bool) {
        let name = tree.node_text(node, source);
        let chars = chars_of(name.as_str());
        chars.len() > 0 && is_uppercase(chars[0])
    }

    fn normalize_reference(&self, capture: &str, text: &str) -> (r: Vec<String>) {
        single_reference(text)
    }
}

// ---------------------------------------------------------------------------
// Laws
// ---------------------------------------------------------------------------

/// Go's entry points, initialisers, the blank identifier `_` and the
/// functions the test tool calls (`Test*`, `Benchmark*`, `Fuzz*`, `Example*`)
/// are never reported: no definition of a Go file carries such a name.
pub proof fn law_go_entry_points_and_blank_are_never_definitions(
    path: Seq<char>,
    source: Seq<char>,
    include_public: bool,
    name: Seq<char>,
)
    requires
        name == "main"@ || name == "init"@ || name == "_"@ || has_prefix(name, "Test"@)
            || has_prefix(name, "Benchmark"@) || has_prefix(name, "Fuzz"@) || has_prefix(
            name,
            "Example"@,
        ),
    ensures
        forall|k: int|
            0 <= k < file_definitions(path, source, GoLanguage, include_public).len() ==> (
            #[trigger] file_definitions(path, source, GoLanguage, include_public)[k]).name != name,
{
    law_ignored_names_are_never_definitions(
        parsed_tree(GoLanguage.spec_grammar(), source),
        parsed_captures(GoLanguage.spec_grammar(), GoLanguage.spec_definitions_query(), source),
        path,
        source,
        GoLanguage,
        include_public,
    );
}

} // verus!

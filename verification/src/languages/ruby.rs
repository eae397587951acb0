use vstd::prelude::*;
use vstd::string::StringSliceAdditionalSpecFns;
use tree_sitter::Language;
use crate::languages::{file_name, file_name_of, single_reference, strings_view, LanguageSupport};
use crate::syntax::{grammar_language, GrammarId, SyntaxTree, TreeView};
use crate::text::{
    chars_of, chars_strip_leading, has_infix, has_prefix, has_suffix, str_contains, str_ends_with,
    str_equals, str_starts_with, string_from_chars, strip_leading,
};

verus! {

/// Ruby.
pub struct RubyLanguage;

/// The definitions query: Operator/setter methods (`def ==`, `def foo=`)
/// deliberately not captured.
pub const DEFINITIONS_QUERY: &'static str = r#"
        (method name: (identifier) @def)
        (singleton_method name: (identifier) @def)
        (class name: (constant) @def)
        (class name: (scope_resolution name: (constant) @def))
        (module name: (constant) @def)
        (module name: (scope_resolution name: (constant) @def))
        (assignment left: (constant) @def)
        "#;

/// The references query: Symbols (`:foo`, `foo:` hash keys) and string
/// arguments to dynamic dispatch (`send "foo"`, `define_method("foo")`) count
/// as references.
pub const REFERENCES_QUERY: &'static str = r#"
        (identifier) @ref
        (constant) @ref
        (simple_symbol) @simple_symbol
        (hash_key_symbol) @ref
        (call method: (identifier) @_m
              arguments: (argument_list (string (string_content) @ref))
              (#match? @_m "^(send|public_send|define_method|method|respond_to\\?)$"))
        "#;

impl LanguageSupport for RubyLanguage {
    /// Methods that Ruby itself calls.
    open spec fn spec_should_ignore(&self, name: Seq<char>) -> bool {
        name == "initialize"@ || name == "method_missing"@ || name == "respond_to_missing?"@
    }

    /// RSpec and minitest layouts.
    open spec fn spec_is_test_file(&self, path: Seq<char>) -> bool {
        let filename = file_name(path);
        has_suffix(filename, "_spec.rb"@) || has_suffix(filename, "_test.rb"@) || has_prefix(
            path,
            "spec/"@,
        ) || has_prefix(path, "test/"@) || has_infix(path, "/spec/"@) || has_infix(path, "/test/"@)
    }

    open spec fn spec_should_skip_node(&self, tree: TreeView, node: int, source: Seq<u8>) -> bool {
        false
    }

    open spec fn spec_is_public(&self, tree: TreeView, node: int, source: Seq<u8>) -> bool {
        false
    }

    /// A symbol (`:name`) stands for the name without its colons.
    open spec fn spec_grammar(&self) -> GrammarId {
        GrammarId::Ruby
    }

    open spec fn spec_definitions_query(&self) -> Seq<char> {
        DEFINITIONS_QUERY@
    }

    open spec fn spec_references_query(&self) -> Seq<char> {
        REFERENCES_QUERY@
    }

    open spec fn spec_normalize_reference(&self, capture: Seq<char>, text: Seq<char>) -> Seq<
        Seq<char>,
    > {
        if capture == "simple_symbol"@ {
            seq![strip_leading(text, ':')]
        } else {
            seq![text]
        }
    }

    fn language(&self) -> Language {
        grammar_language(GrammarId::Ruby)
    }

    fn grammar(&self) -> (r: GrammarId) {
        GrammarId::Ruby
    }

    fn definitions_query(&self) -> &'static str {
        DEFINITIONS_QUERY
    }

    fn references_query(&self) -> &'static str {
        REFERENCES_QUERY
    }

    fn should_ignore(&self, name: &str) -> (r: bool) {
        str_equals(name, "initialize") || str_equals(name, "method_missing") || str_equals(
            name,
            "respond_to_missing?",
        )
    }

    fn is_test_file(&self, path: &str) -> (r: bool) {
        let filename = file_name_of(path);
        str_ends_with(filename.as_str(), "_spec.rb") || str_ends_with(filename.as_str(), "_test.rb")
            || str_starts_with(path, "spec/") || str_starts_with(path, "test/") || str_contains(
            path,
            "/spec/",
        ) || str_contains(path, "/test/")
    }

    fn should_skip_node(&self, tree: &SyntaxTree, node: usize, source: &str) -> (r: bool) {
        false
    }

    fn is_public(&self, tree: &SyntaxTree, node: usize, source: &str) -> (r: bool) {
        false
    }

    fn normalize_reference(&self, capture: &str, text: &str) -> (r: Vec<String>) {
        if str_equals(capture, "simple_symbol") {
            let chars = chars_of(text);
            let name = chars_strip_leading(chars.as_slice(), ':');
            let mut r: Vec<String> = Vec::new();
            r.push(string_from_chars(name.as_slice()));
            assert(strings_view(r@) =~= seq![strip_leading(text@, ':')]);
            r
        } else {
            single_reference(text)
        }
    }
}

} // verus!

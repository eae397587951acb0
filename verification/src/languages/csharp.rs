use vstd::prelude::*;
use vstd::string::StringSliceAdditionalSpecFns;
use tree_sitter::Language;
use crate::languages::{single_reference, strings_view, LanguageSupport};
use crate::syntax::{grammar_language, GrammarId, SyntaxTree, TreeView};
use crate::text::{after_last, has_infix, has_suffix, str_after_last, str_contains, str_ends_with, str_equals};

verus! {

/// C#.
pub struct CSharpLanguage;

/// The last `.`-segment of an attribute name (`Xunit.Fact` gives `Fact`).
pub open spec fn attribute_simple_name_spec(name: Seq<char>) -> Seq<char> {
    after_last(name, "."@)
}

/// Attributes that mark a method as run by a test framework.
pub open spec fn skip_attribute(name: Seq<char>) -> bool {
    let simple = attribute_simple_name_spec(name);
    simple == "Test"@ || simple == "Fact"@ || simple == "Theory"@ || simple == "TestMethod"@
}

/// Node `a` is an attribute whose name is a test-framework attribute.
pub open spec fn skipping_attribute(tree: TreeView, a: int, source: Seq<u8>) -> bool {
    tree.kind(a) == "attribute"@ && match tree.first_child_in_field(a, "name"@) {
        Some(n) => skip_attribute(tree.text(n, source)),
        None => false,
    }
}

/// Node `l` is an attribute list that holds a test-framework attribute.
pub open spec fn skipping_attribute_list(tree: TreeView, l: int, source: Seq<u8>) -> bool {
    tree.kind(l) == "attribute_list"@ && exists|a: int|
        tree.is_child(l, a) && skipping_attribute(tree, a, source)
}

/// The last `.`-segment of an attribute name.
pub fn attribute_simple_name(name: &str) -> (r: String)
    ensures
        r@ == attribute_simple_name_spec(name@),
{
    str_after_last(name, ".")
}

/// Whether an attribute with this name marks a method as run by a test framework.
pub fn is_skip_attribute(name: &str) -> (r: bool)
    ensures
        r == skip_attribute(name@),
{
    let simple = attribute_simple_name(name);
    let s = simple.as_str();
    str_equals(s, "Test") || str_equals(s, "Fact") || str_equals(s, "Theory") || str_equals(
        s,
        "TestMethod",
    )
}

fn is_skipping_attribute(tree: &SyntaxTree, a: usize, source: &str) -> (r: bool)
    requires
        a < tree.len(),
    ensures
        r == skipping_attribute(tree@, a as int, source.spec_bytes()),
{
    if !tree.kind_is(a, "attribute") {
        return false;
    }
    match tree.child_in_field(a, "name") {
        Some(n) => {
            let name = tree.node_text(n, source);
            is_skip_attribute(name.as_str())
        },
        None => false,
    }
}

fn is_skipping_attribute_list(tree: &SyntaxTree, l: usize, source: &str) -> (r: bool)
    requires
        l < tree.len(),
    ensures
        r == skipping_attribute_list(tree@, l as int, source.spec_bytes()),
{
    if !tree.kind_is(l, "attribute_list") {
        return false;
    }
    let mut a: usize = 0;
    while a < tree.node_count()
        invariant
            a <= tree.len(),
            tree.kind(l as int) == "attribute_list"@,
            forall|d: int|
                0 <= d < a ==> !(tree.is_child(l as int, d) && skipping_attribute(
                    tree@,
                    d,
                    source.spec_bytes(),
                )),
        decreases tree.len() - a,
    {
        if tree.parent_of(a) == Some(l) && is_skipping_attribute(tree, a, source) {
            assert(tree.is_child(l as int, a as int));
            return true;
        }
        a = a + 1;
    }
    false
}

/// The definitions query.
pub const DEFINITIONS_QUERY: &'static str = r#"
        (class_declaration name: (identifier) @def)
        (interface_declaration name: (identifier) @def)
        (struct_declaration name: (identifier) @def)
        (enum_declaration name: (identifier) @def)
        (record_declaration name: (identifier) @def)
        (method_declaration name: (identifier) @def)
        (property_declaration name: (identifier) @def)
        "#;

/// The references query.
pub const REFERENCES_QUERY: &'static str = r#"
        (identifier) @ref
        "#;

impl LanguageSupport for CSharpLanguage {
    /// The entry point `Main`.
    open spec fn spec_should_ignore(&self, name: Seq<char>) -> bool {
        name == "Main"@
    }

    open spec fn spec_is_test_file(&self, path: Seq<char>) -> bool {
        has_suffix(path, "Test.cs"@) || has_suffix(path, "Tests.cs"@) || has_infix(path, "/tests/"@)
    }

    /// Methods attributed for a test framework.
    open spec fn spec_should_skip_node(&self, tree: TreeView, node: int, source: Seq<u8>) -> bool {
        match tree.parent(node) {
            Some(p) => tree.kind(p as int) == "method_declaration"@ && exists|l: int|
                tree.is_child(p as int, l) && skipping_attribute_list(tree, l, source),
            None => false,
        }
    }

    /// Declarations with the `public` modifier.
    open spec fn spec_is_public(&self, tree: TreeView, node: int, source: Seq<u8>) -> bool {
        match tree.parent(node) {
            Some(p) => exists|c: int|
                tree.is_child(p as int, c) && tree.kind(c) == "modifier"@ && tree.text(c, source)
                    == "public"@,
            None => false,
        }
    }

    open spec fn spec_grammar(&self) -> GrammarId {
        GrammarId::CSharp
    }

    open spec fn spec_definitions_query(&self) -> Seq<char> {
        DEFINITIONS_QUERY@
    }

    open spec fn spec_references_query(&self) -> Seq<char> {
        REFERENCES_QUERY@
    }

    open spec fn spec_normalize_reference(&self, capture: Seq<char>, text: Seq<char>) -> Seq<
        Seq<char>,
    > {
        seq![text]
    }

    fn language(&self) -> Language {
        grammar_language(GrammarId::CSharp)
    }

    fn grammar(&self) -> (r: GrammarId) {
        GrammarId::CSharp
    }

    fn definitions_query(&self) -> &'static str {
        DEFINITIONS_QUERY
    }

    fn references_query(&self) -> &'static str {
        REFERENCES_QUERY
    }

    fn should_ignore(&self, name: &str) -> (r: bool) {
        str_equals(name, "Main")
    }

    fn is_test_file(&self, path: &str) -> (r: bool) {
        str_ends_with(path, "Test.cs") || str_ends_with(path, "Tests.cs") || str_contains(
            path,
            "/tests/",
        )
    }

    fn should_skip_node(&self, tree: &SyntaxTree, node: usize, source: &str) -> (r: bool) {
        match tree.parent_of(node) {
            None => false,
            Some(p) => {
                assert(tree@.nodes[node as int].parent == Some(p));
                if !tree.kind_is(p, "method_declaration") {
                    return false;
                }
                let mut l: usize = 0;
                while l < tree.node_count()
                    invariant
                        l <= tree.len(),
                        tree.parent(node as int) == Some(p),
                        tree.kind(p as int) == "method_declaration"@,
                        forall|d: int|
                            0 <= d < l ==> !(tree.is_child(p as int, d) && skipping_attribute_list(
                                tree@,
                                d,
                                source.spec_bytes(),
                            )),
                    decreases tree.len() - l,
                {
                    if tree.parent_of(l) == Some(p) && is_skipping_attribute_list(tree, l, source) {
                        assert(tree.is_child(p as int, l as int));
                        return true;
                    }
                    l = l + 1;
                }
                false
            },
        }
    }

    fn is_public(&self, tree: &SyntaxTree, node: usize, source: &str) -> (r: bool) {
        match tree.parent_of(node) {
            None => false,
            Some(p) => {
                assert(tree@.nodes[node as int].parent == Some(p));
                let mut c: usize = 0;
                while c < tree.node_count()
                    invariant
                        c <= tree.len(),
                        tree.parent(node as int) == Some(p),
                        forall|d: int|
                            0 <= d < c ==> !(tree.is_child(p as int, d) && tree.kind(d)
                                == "modifier"@ && tree.text(d, source.spec_bytes()) == "public"@),
                    decreases tree.len() - c,
                {
                    if tree.parent_of(c) == Some(p) && tree.kind_is(c, "modifier") {
                        let text = tree.node_text(c, source);
                        if str_equals(text.as_str(), "public") {
                            assert(tree.is_child(p as int, c as int));
                            return true;
                        }
                    }
                    c = c + 1;
                }
                false
            },
        }
    }

    fn normalize_reference(&self, capture: &str, text: &str) -> (r: Vec<String>) {
        single_reference(text)
    }
}

} // verus!

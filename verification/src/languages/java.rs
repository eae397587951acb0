use vstd::prelude::*;
use vstd::string::StringSliceAdditionalSpecFns;
use tree_sitter::Language;
use crate::languages::{file_name, file_name_of, single_reference, strings_view, LanguageSupport};
use crate::syntax::{grammar_language, GrammarId, SyntaxTree, TreeView};
use crate::text::{
    after_last, has_infix, has_prefix, has_suffix, str_after_last, str_contains, str_ends_with,
    str_equals, str_starts_with,
};

verus! {

/// Java.
pub struct JavaLanguage;

/// The last `.`-segment of an annotation name (`org.junit.Test` gives `Test`).
pub open spec fn annotation_simple_name_spec(name: Seq<char>) -> Seq<char> {
    after_last(name, "."@)
}

/// Annotations of test frameworks, and `@Override` (overrides are called
/// through the supertype).
pub open spec fn skip_annotation(name: Seq<char>) -> bool {
    let simple = annotation_simple_name_spec(name);
    simple == "Test"@ || simple == "ParameterizedTest"@ || simple == "RepeatedTest"@ || simple
        == "Override"@
}

/// Node `p` can be the declaration that owns a name: its kind ends in
/// `_declaration`, or it has a `modifiers` child.
pub open spec fn declaration_like(tree: TreeView, p: int) -> bool {
    has_suffix(tree.kind(p), "_declaration"@) || tree.first_child_with_kind(p, "modifiers"@) is Some
}

/// The first of at most `steps` proper ancestors of `i` that is declaration-like.
pub open spec fn enclosing_declaration_within(tree: TreeView, i: int, steps: nat) -> Option<int>
    decreases steps,
{
    if steps == 0 {
        None
    } else {
        match tree.parent(i) {
            None => None,
            Some(p) => if declaration_like(tree, p as int) {
                Some(p as int)
            } else {
                enclosing_declaration_within(tree, p as int, (steps - 1) as nat)
            },
        }
    }
}

/// The declaration that owns the name at node `i`, looked for among its four
/// nearest ancestors (identifier, variable declarator, field declaration, ...).
pub open spec fn enclosing_declaration_spec(tree: TreeView, i: int) -> Option<int> {
    enclosing_declaration_within(tree, i, 4)
}

/// The `modifiers` node of the declaration that owns node `i`.
pub open spec fn modifiers_of(tree: TreeView, i: int) -> Option<int> {
    match enclosing_declaration_spec(tree, i) {
        Some(d) => tree.first_child_with_kind(d, "modifiers"@),
        None => None,
    }
}

/// Child `c` of a `modifiers` node is an annotation that marks its declaration
/// as called from elsewhere.
pub open spec fn skipping_annotation(tree: TreeView, c: int, source: Seq<u8>) -> bool {
    (tree.kind(c) == "marker_annotation"@ || tree.kind(c) == "annotation"@) && match tree.first_child_in_field(
        c,
        "name"@,
    ) {
        Some(n) => skip_annotation(tree.text(n, source)),
        None => false,
    }
}

/// The last `.`-segment of an annotation name.
pub fn annotation_simple_name(name: &str) -> (r: String)
    ensures
        r@ == annotation_simple_name_spec(name@),
{
    str_after_last(name, ".")
}

/// Whether an annotation with this name marks its declaration as called from
/// elsewhere.
pub fn is_skip_annotation(name: &str) -> (r: bool)
    ensures
        r == skip_annotation(name@),
{
    let simple = annotation_simple_name(name);
    let s = simple.as_str();
    str_equals(s, "Test") || str_equals(s, "ParameterizedTest") || str_equals(s, "RepeatedTest")
        || str_equals(s, "Override")
}

/// The declaration that owns the name at node `i`.
fn enclosing_declaration(tree: &SyntaxTree, i: usize) -> (r: Option<usize>)
    requires
        tree.wf(),
        i < tree.len(),
    ensures
        match r {
            Some(d) => d < tree.len() && enclosing_declaration_spec(tree@, i as int) == Some(
                d as int,
            ),
            None => enclosing_declaration_spec(tree@, i as int) is None,
        },
{
    let mut cur = i;
    let mut steps: usize = 4;
    while steps > 0
        invariant
            tree.wf(),
            cur < tree.len(),
            enclosing_declaration_within(tree@, cur as int, steps as nat)
                == enclosing_declaration_spec(tree@, i as int),
        decreases steps,
    {
        match tree.parent_of(cur) {
            None => {
                return None;
            },
            Some(p) => {
                assert(tree@.nodes[cur as int].parent == Some(p));
                if tree.kind_ends_with(p, "_declaration") || tree.child_with_kind(
                    p,
                    "modifiers",
                ).is_some() {
                    return Some(p);
                }
                cur = p;
                steps = steps - 1;
            },
        }
    }
    None
}

/// The `modifiers` node of the declaration that owns node `i`.
fn modifiers_node(tree: &SyntaxTree, i: usize) -> (r: Option<usize>)
    requires
        tree.wf(),
        i < tree.len(),
    ensures
        match r {
            Some(m) => m < tree.len() && modifiers_of(tree@, i as int) == Some(m as int),
            None => modifiers_of(tree@, i as int) is None,
        },
{
    match enclosing_declaration(tree, i) {
        Some(d) => tree.child_with_kind(d, "modifiers"),
        None => None,
    }
}

/// Whether child `c` of a `modifiers` node is a skipping annotation.
fn is_skipping_annotation(tree: &SyntaxTree, c: usize, source: &str) -> (r: bool)
    requires
        c < tree.len(),
    ensures
        r == skipping_annotation(tree@, c as int, source.spec_bytes()),
{
    if tree.kind_is(c, "marker_annotation") || tree.kind_is(c, "annotation") {
        match tree.child_in_field(c, "name") {
            Some(n) => {
                let name = tree.node_text(n, source);
                is_skip_annotation(name.as_str())
            },
            None => false,
        }
    } else {
        false
    }
}

/// The definitions query: Constructors deliberately excluded: they are
/// referenced via the class name.
pub const DEFINITIONS_QUERY: &'static str = r#"
        (class_declaration name: (identifier) @def)
        (interface_declaration name: (identifier) @def)
        (enum_declaration name: (identifier) @def)
        (record_declaration name: (identifier) @def)
        (annotation_type_declaration name: (identifier) @def)
        (method_declaration name: (identifier) @def)
        (field_declaration declarator: (variable_declarator name: (identifier) @def))
        "#;

/// The references query.
pub const REFERENCES_QUERY: &'static str = r#"
        (identifier) @ref
        (type_identifier) @ref
        "#;

impl LanguageSupport for JavaLanguage {
    /// Entry points and the `Object` methods that are called implicitly.
    open spec fn spec_should_ignore(&self, name: Seq<char>) -> bool {
        name == "main"@ || name == "toString"@ || name == "equals"@ || name == "hashCode"@
    }

    /// Maven/Gradle test sources and `*Test.java`/`Test*.java` files.
    open spec fn spec_is_test_file(&self, path: Seq<char>) -> bool {
        let filename = file_name(path);
        has_infix(path, "/src/test/"@) || has_suffix(filename, "Test.java"@) || (has_prefix(
            filename,
            "Test"@,
        ) && has_suffix(filename, ".java"@))
    }

    /// Declarations annotated for a test framework or with `@Override`.
    open spec fn spec_should_skip_node(&self, tree: TreeView, node: int, source: Seq<u8>) -> bool {
        match modifiers_of(tree, node) {
            Some(m) => exists|c: int| tree.is_child(m, c) && skipping_annotation(tree, c, source),
            None => false,
        }
    }

    /// Declarations with the `public` modifier.
    open spec fn spec_is_public(&self, tree: TreeView, node: int, source: Seq<u8>) -> bool {
        match modifiers_of(tree, node) {
            Some(m) => exists|c: int| tree.is_child(m, c) && tree.text(c, source) == "public"@,
            None => false,
        }
    }

    open spec fn spec_grammar(&self) -> GrammarId {
        GrammarId::Java
    }

    open spec fn spec_definitions_query(&self) -> Seq<char> {
        DEFINITIONS_QUERY@
    }

    open spec fn spec_references_query(&self) -> Seq<char> {
        REFERENCES_QUERY@
    }

    open spec fn spec_normalize_reference(&self, capture: Seq<char>, text: Seq<char>) -> Seq<
        Seq<char>,
    > {
        seq![text]
    }

    fn language(&self) -> Language {
        grammar_language(GrammarId::Java)
    }

    fn grammar(&self) -> (r: GrammarId) {
        GrammarId::Java
    }

    fn definitions_query(&self) -> &'static str {
        DEFINITIONS_QUERY
    }

    fn references_query(&self) -> &'static str {
        REFERENCES_QUERY
    }

    fn should_ignore(&self, name: &str) -> (r: bool) {
        str_equals(name, "main") || str_equals(name, "toString") || str_equals(name, "equals")
            || str_equals(name, "hashCode")
    }

    fn is_test_file(&self, path: &str) -> (r: bool) {
        let filename = file_name_of(path);
        str_contains(path, "/src/test/") || str_ends_with(filename.as_str(), "Test.java") || (
        str_starts_with(filename.as_str(), "Test") && str_ends_with(filename.as_str(), ".java"))
    }

    fn should_skip_node(&self, tree: &SyntaxTree, node: usize, source: &str) -> (r: bool) {
        match modifiers_node(tree, node) {
            None => false,
            Some(m) => {
                let mut c: usize = 0;
                while c < tree.node_count()
                    invariant
                        c <= tree.len(),
                        modifiers_of(tree@, node as int) == Some(m as int),
                        forall|d: int|
                            0 <= d < c ==> !(tree.is_child(m as int, d) && skipping_annotation(
                                tree@,
                                d,
                                source.spec_bytes(),
                            )),
                    decreases tree.len() - c,
                {
                    if tree.parent_of(c) == Some(m) && is_skipping_annotation(tree, c, source) {
                        assert(tree.is_child(m as int, c as int));
                        return true;
                    }
                    c = c + 1;
                }
                false
            },
        }
    }

    fn is_public(&self, tree: &SyntaxTree, node: usize, source: &str) -> (r: bool) {
        match modifiers_node(tree, node) {
            None => false,
            Some(m) => {
                let mut c: usize = 0;
                while c < tree.node_count()
                    invariant
                        c <= tree.len(),
                        modifiers_of(tree@, node as int) == Some(m as int),
                        forall|d: int|
                            0 <= d < c ==> !(tree.is_child(m as int, d) && tree.text(
                                d,
                                source.spec_bytes(),
                            ) == "public"@),
                    decreases tree.len() - c,
                {
                    if tree.parent_of(c) == Some(m) {
                        let text = tree.node_text(c, source);
                        if str_equals(text.as_str(), "public") {
                            assert(tree.is_child(m as int, c as int));
                            return true;
                        }
                    }
                    c = c + 1;
                }
                false
            },
        }
    }

    fn normalize_reference(&self, capture: &str, text: &str) -> (r: Vec<String>) {
        single_reference(text)
    }
}

// ---------------------------------------------------------------------------
// Laws
// ---------------------------------------------------------------------------

/// Maven and Gradle test sources are test files: every path with a
/// `/src/test/` directory in it, whatever its file name.
pub proof fn law_java_test_sources_are_test_files(path: Seq<char>)
    requires
        has_infix(path, "/src/test/"@),
    ensures
        JavaLanguage.spec_is_test_file(path),
{
}

/// Files named `*Test.java` or `Test*.java` are test files, wherever they are.
pub proof fn law_java_test_file_names_are_test_files(path: Seq<char>)
    requires
        has_suffix(file_name(path), "Test.java"@) || (has_prefix(file_name(path), "Test"@)
            && has_suffix(file_name(path), ".java"@)),
    ensures
        JavaLanguage.spec_is_test_file(path),
{
}

} // verus!

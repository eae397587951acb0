use vstd::prelude::*;
use vstd::string::StringSliceAdditionalSpecFns;
use tree_sitter::Language;
use crate::languages::{file_name, file_name_of, single_reference, strings_view, LanguageSupport};
use crate::syntax::{grammar_language, lemma_first_child_with_kind_from, GrammarId, SyntaxTree, TreeView};
use crate::text::{has_infix, has_prefix, has_suffix, str_contains, str_ends_with, str_equals, str_starts_with};

verus! {

/// Kotlin.
pub struct KotlinLanguage;

/// Kinds of the declarations that own the names the definitions query captures.
pub open spec fn declaration_kind(kind: Seq<char>) -> bool {
    kind == "function_declaration"@ || kind == "class_declaration"@ || kind
        == "object_declaration"@ || kind == "property_declaration"@ || kind == "type_alias"@
}

/// The first of at most `steps` proper ancestors of `i` that is a declaration.
pub open spec fn enclosing_declaration_within(tree: TreeView, i: int, steps: nat) -> Option<int>
    decreases steps,
{
    if steps == 0 {
        None
    } else {
        match tree.parent(i) {
            None => None,
            Some(p) => if declaration_kind(tree.kind(p as int)) {
                Some(p as int)
            } else {
                enclosing_declaration_within(tree, p as int, (steps - 1) as nat)
            },
        }
    }
}

/// The declaration that owns the name at node `i` (identifier, variable
/// declaration, property declaration, ...), among its four nearest ancestors.
pub open spec fn enclosing_declaration_spec(tree: TreeView, i: int) -> Option<int> {
    enclosing_declaration_within(tree, i, 4)
}

/// Child `c` of a `modifiers` node is a test-framework annotation or `override`.
pub open spec fn skipping_modifier(tree: TreeView, c: int, source: Seq<u8>) -> bool {
    let text = tree.text(c, source);
    (tree.kind(c) == "annotation"@ && has_infix(text, "Test"@)) || text == "override"@
}

/// Child `c` of a `modifiers` node makes its declaration private or internal.
pub open spec fn restricting_modifier(tree: TreeView, c: int, source: Seq<u8>) -> bool {
    tree.kind(c) == "visibility_modifier"@ && (tree.text(c, source) == "private"@ || tree.text(
        c,
        source,
    ) == "internal"@)
}

/// Kinds of the nodes in which declarations are members rather than locals.
pub open spec fn declaration_context(kind: Seq<char>) -> bool {
    kind == "source_file"@ || kind == "class_body"@ || kind == "enum_class_body"@
}

fn enclosing_declaration(tree: &SyntaxTree, i: usize) -> (r: Option<usize>)
    requires
        tree.wf(),
        i < tree.len(),
    ensures
        match r {
            Some(d) => d < tree.len() && enclosing_declaration_spec(tree@, i as int) == Some(
                d as int,
            ),
            None => enclosing_declaration_spec(tree@, i as int) is None,
        },
{
    let mut cur = i;
    let mut steps: usize = 4;
    while steps > 0
        invariant
            tree.wf(),
            cur < tree.len(),
            enclosing_declaration_within(tree@, cur as int, steps as nat)
                == enclosing_declaration_spec(tree@, i as int),
        decreases steps,
    {
        match tree.parent_of(cur) {
            None => {
                return None;
            },
            Some(p) => {
                assert(tree@.nodes[cur as int].parent == Some(p));
                if tree.kind_is(p, "function_declaration") || tree.kind_is(p, "class_declaration")
                    || tree.kind_is(p, "object_declaration") || tree.kind_is(
                    p,
                    "property_declaration",
                ) || tree.kind_is(p, "type_alias") {
                    return Some(p);
                }
                cur = p;
                steps = steps - 1;
            },
        }
    }
    None
}

fn is_skipping_modifier(tree: &SyntaxTree, c: usize, source: &str) -> (r: bool)
    requires
        c < tree.len(),
    ensures
        r == skipping_modifier(tree@, c as int, source.spec_bytes()),
{
    let text = tree.node_text(c, source);
    (tree.kind_is(c, "annotation") && str_contains(text.as_str(), "Test")) || str_equals(
        text.as_str(),
        "override",
    )
}

fn is_restricting_modifier(tree: &SyntaxTree, c: usize, source: &str) -> (r: bool)
    requires
        c < tree.len(),
    ensures
        r == restricting_modifier(tree@, c as int, source.spec_bytes()),
{
    if !tree.kind_is(c, "visibility_modifier") {
        return false;
    }
    let text = tree.node_text(c, source);
    str_equals(text.as_str(), "private") || str_equals(text.as_str(), "internal")
}

/// The definitions query.
pub const DEFINITIONS_QUERY: &'static str = r#"
        (function_declaration name: (identifier) @def)
        (class_declaration name: (identifier) @def)
        (object_declaration name: (identifier) @def)
        (property_declaration (variable_declaration (identifier) @def))
        (type_alias type: (identifier) @def)
        "#;

/// The references query.
pub const REFERENCES_QUERY: &'static str = r#"
        (identifier) @ref
        "#;

impl LanguageSupport for KotlinLanguage {
    /// The entry point `main`.
    open spec fn spec_should_ignore(&self, name: Seq<char>) -> bool {
        name == "main"@
    }

    /// Gradle test sources, `*Test.kt` files and the common conventions.
    open spec fn spec_is_test_file(&self, path: Seq<char>) -> bool {
        has_infix(path, "/src/test/"@) || has_prefix(path, "src/test/"@) || has_suffix(
            file_name(path),
            "Test.kt"@,
        ) || has_infix(path, "test_"@) || has_infix(path, "/tests/"@)
    }

    /// Declarations annotated for a test framework, and overrides (called
    /// through the supertype).
    open spec fn spec_should_skip_node(&self, tree: TreeView, node: int, source: Seq<u8>) -> bool {
        match enclosing_declaration_spec(tree, node) {
            Some(d) => match tree.first_child_with_kind(d, "modifiers"@) {
                Some(m) => exists|c: int| tree.is_child(m, c) && skipping_modifier(tree, c, source),
                None => false,
            },
            None => false,
        }
    }

    /// Member declarations are public unless marked `private` or `internal`;
    /// function-local declarations never are.
    open spec fn spec_is_public(&self, tree: TreeView, node: int, source: Seq<u8>) -> bool {
        match enclosing_declaration_spec(tree, node) {
            Some(d) => {
                &&& match tree.parent(d) {
                    Some(q) => declaration_context(tree.kind(q as int)),
                    None => false,
                }
                &&& match tree.first_child_with_kind(d, "modifiers"@) {
                    Some(m) => !exists|c: int|
                        tree.is_child(m, c) && restricting_modifier(tree, c, source),
                    None => true,
                }
            },
            None => false,
        }
    }

    open spec fn spec_grammar(&self) -> GrammarId {
        GrammarId::Kotlin
    }

    open spec fn spec_definitions_query(&self) -> Seq<char> {
        DEFINITIONS_QUERY@
    }

    open spec fn spec_references_query(&self) -> Seq<char> {
        REFERENCES_QUERY@
    }

    open spec fn spec_normalize_reference(&self, capture: Seq<char>, text: Seq<char>) -> Seq<
        Seq<char>,
    > {
        seq![text]
    }

    fn language(&self) -> Language {
        grammar_language(GrammarId::Kotlin)
    }

    fn grammar(&self) -> (r: GrammarId) {
        GrammarId::Kotlin
    }

    fn definitions_query(&self) -> &'static str {
        DEFINITIONS_QUERY
    }

    fn references_query(&self) -> &'static str {
        REFERENCES_QUERY
    }

    fn should_ignore(&self, name: &str) -> (r: bool) {
        str_equals(name, "main")
    }

    fn is_test_file(&self, path: &str) -> (r: bool) {
        let filename = file_name_of(path);
        str_contains(path, "/src/test/") || str_starts_with(path, "src/test/") || str_ends_with(
            filename.as_str(),
            "Test.kt",
        ) || str_contains(path, "test_") || str_contains(path, "/tests/")
    }

    fn should_skip_node(&self, tree: &SyntaxTree, node: usize, source: &str) -> (r: bool) {
        let d = match enclosing_declaration(tree, node) {
            Some(d) => d,
            None => {
                return false;
            },
        };
        let m = match tree.child_with_kind(d, "modifiers") {
            Some(m) => m,
            None => {
                return false;
            },
        };
        let mut c: usize = 0;
        while c < tree.node_count()
            invariant
                c <= tree.len(),
                enclosing_declaration_spec(tree@, node as int) == Some(d as int),
                tree.first_child_with_kind(d as int, "modifiers"@) == Some(m as int),
                forall|e: int|
                    0 <= e < c ==> !(tree.is_child(m as int, e) && skipping_modifier(
                        tree@,
                        e,
                        source.spec_bytes(),
                    )),
            decreases tree.len() - c,
        {
            if tree.parent_of(c) == Some(m) && is_skipping_modifier(tree, c, source) {
                assert(tree.is_child(m as int, c as int));
                return true;
            }
            c = c + 1;
        }
        false
    }

    fn is_public(&self, tree: &SyntaxTree, node: usize, source: &str) -> (r: bool) {
        let d = match enclosing_declaration(tree, node) {
            Some(d) => d,
            None => {
                return false;
            },
        };
        let in_context = match tree.parent_of(d) {
            Some(q) => {
                assert(tree@.nodes[d as int].parent == Some(q));
                tree.kind_is(q, "source_file") || tree.kind_is(q, "class_body") || tree.kind_is(
                    q,
                    "enum_class_body",
                )
            },
            None => false,
        };
        if !in_context {
            return false;
        }
        let m = match tree.child_with_kind(d, "modifiers") {
            Some(m) => m,
            None => {
                return true;
            },
        };
        let mut c: usize = 0;
        while c < tree.node_count()
            invariant
                c <= tree.len(),
                enclosing_declaration_spec(tree@, node as int) == Some(d as int),
                tree.first_child_with_kind(d as int, "modifiers"@) == Some(m as int),
                match tree.parent(d as int) {
                    Some(q) => declaration_context(tree.kind(q as int)),
                    None => false,
                },
                forall|e: int|
                    0 <= e < c ==> !(tree.is_child(m as int, e) && restricting_modifier(
                        tree@,
                        e,
                        source.spec_bytes(),
                    )),
            decreases tree.len() - c,
        {
            if tree.parent_of(c) == Some(m) && is_restricting_modifier(tree, c, source) {
                assert(tree.is_child(m as int, c as int));
                return false;
            }
            c = c + 1;
        }
        true
    }

    fn normalize_reference(&self, capture: &str, text: &str) -> (r: Vec<String>) {
        single_reference(text)
    }
}

// ---------------------------------------------------------------------------
// Laws
// ---------------------------------------------------------------------------

/// Kotlin declarations are public by default: a declaration at the top level
/// of a file, in a class body or in an enum class body is public unless one of
/// its `modifiers` says `private` or `internal`.
pub proof fn law_kotlin_members_are_public_by_default(
    tree: TreeView,
    node: int,
    source: Seq<u8>,
    decl: int,
    context: usize,
)
    requires
        enclosing_declaration_spec(tree, node) == Some(decl),
        tree.parent(decl) == Some(context),
        tree.kind(context as int) == "source_file"@ || tree.kind(context as int) == "class_body"@
            || tree.kind(context as int) == "enum_class_body"@,
        forall|m: int, c: int|
            tree.is_child(decl, m) && tree.kind(m) == "modifiers"@ && #[trigger] tree.is_child(m, c)
                ==> !(tree.kind(c) == "visibility_modifier"@ && (tree.text(c, source) == "private"@
                || tree.text(c, source) == "internal"@)),
    ensures
        KotlinLanguage.spec_is_public(tree, node, source),
{
    lemma_first_child_with_kind_from(tree, decl, "modifiers"@, 0);
    match tree.first_child_with_kind(decl, "modifiers"@) {
        Some(m) => {
            assert forall|c: int| !(tree.is_child(m, c) && restricting_modifier(tree, c, source)) by {
                if tree.is_child(m, c) {
                    assert(tree.is_child(decl, m) && tree.kind(m) == "modifiers"@);
                }
            }
        },
        None => {},
    }
}

/// A Kotlin declaration marked `private` or `internal` is never public.
pub proof fn law_kotlin_restricted_declarations_are_not_public(
    tree: TreeView,
    node: int,
    source: Seq<u8>,
    decl: int,
    c: int,
)
    requires
        enclosing_declaration_spec(tree, node) == Some(decl),
        tree.first_child_with_kind(decl, "modifiers"@) matches Some(m) && tree.is_child(m, c),
        tree.kind(c) == "visibility_modifier"@,
        tree.text(c, source) == "private"@ || tree.text(c, source) == "internal"@,
    ensures
        !KotlinLanguage.spec_is_public(tree, node, source),
{
}

} // verus!

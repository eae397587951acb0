use vstd::prelude::*;
use vstd::string::StringSliceAdditionalSpecFns;
use tree_sitter::Language;
use crate::languages::{default_is_test_file, default_test_path, single_reference, strings_view, LanguageSupport};
use crate::syntax::{grammar_language, GrammarId, SyntaxTree, TreeView};
use crate::text::{
    after_last, chars_of, chars_strip_leading, chars_strip_trailing, find_from, first_occurrence,
    has_infix, has_prefix, is_alphabetic, is_alphanumeric, lemma_first_occurrence, str_after_last,
    str_contains, str_equals, str_starts_with, string_from_chars, trim_char, unicode_alphabetic,
    unicode_alphanumeric, occurs_at, first_occurrence_from, lemma_first_occurrence_from,
};

verus! {

broadcast use vstd::seq_lib::group_seq_properties;

/// Rust.
pub struct RustLanguage;

// ---------------------------------------------------------------------------
// Identifiers and format strings
// ---------------------------------------------------------------------------

/// A Rust identifier: a letter or `_`, then letters, digits and `_`.
pub open spec fn valid_identifier(s: Seq<char>) -> bool {
    &&& s.len() > 0
    &&& unicode_alphabetic(s[0]) || s[0] == '_'
    &&& forall|i: int| 0 <= i < s.len() ==> unicode_alphanumeric(#[trigger] s[i]) || s[i] == '_'
}

/// `start` as a mathematical index.
pub open spec fn index_opt(start: Option<usize>) -> Option<int> {
    match start {
        Some(s) => Some(s as int),
        None => None,
    }
}

/// The width and precision arguments (`name$`) of a format spec, scanning from
/// index `i` with an identifier run that began at `start`.
pub open spec fn dollar_args_from(spec: Seq<char>, i: int, start: Option<int>) -> Seq<Seq<char>>
    decreases spec.len() - i,
{
    if i < 0 || i >= spec.len() {
        seq![]
    } else if unicode_alphanumeric(spec[i]) || spec[i] == '_' {
        dollar_args_from(spec, i + 1, if start is Some { start } else { Some(i) })
    } else {
        let found = match start {
            Some(st) => if spec[i] == '$' && valid_identifier(spec.subrange(st, i)) {
                seq![spec.subrange(st, i)]
            } else {
                seq![]
            },
            None => seq![],
        };
        found + dollar_args_from(spec, i + 1, None)
    }
}

/// The identifiers a format group (`{...}` without braces) refers to: the
/// argument before the first `:` if it is an identifier, then the `name$`
/// arguments of the spec after it.
pub open spec fn group_args(group: Seq<char>) -> Seq<Seq<char>> {
    let colon = first_occurrence(group, seq![':']);
    let arg = if colon < 0 {
        group
    } else {
        group.subrange(0, colon)
    };
    let spec = if colon < 0 {
        Seq::<char>::empty()
    } else {
        group.subrange(colon + 1, group.len() as int)
    };
    (if valid_identifier(arg) {
        seq![arg]
    } else {
        seq![]
    }) + dollar_args_from(spec, 0, None)
}

/// The identifiers used as inline format arguments in a string literal's raw
/// text: `"query={QUERY}"` gives `QUERY`, `"{x:>w$}"` gives `x` and `w`;
/// positional (`{}`, `{0}`) and escaped (`{{name}}`) groups give nothing.
pub open spec fn format_args(s: Seq<char>) -> Seq<Seq<char>>
    decreases s.len(),
{
    let open = first_occurrence(s, seq!['{']);
    if open < 0 || open >= s.len() {
        seq![]
    } else if open + 1 < s.len() && s[open + 1] == '{' {
        format_args(s.subrange(open + 2, s.len() as int))
    } else {
        let after = s.subrange(open + 1, s.len() as int);
        let close = first_occurrence(after, seq!['}']);
        if close < 0 || close >= after.len() {
            seq![]
        } else {
            group_args(after.subrange(0, close)) + format_args(
                after.subrange(close + 1, after.len() as int),
            )
        }
    }
}

/// The names an attribute string stands for: the last `::` segment of the
/// text between its quotes, if that is an identifier
/// (`"defaults::default_fn"` gives `default_fn`).
pub open spec fn attribute_string_names(text: Seq<char>) -> Seq<Seq<char>> {
    let leaf = after_last(trim_char(text, '"'), "::"@);
    if valid_identifier(leaf) {
        seq![leaf]
    } else {
        seq![]
    }
}

/// The characters `s[a..b]`.
fn copy_range(s: &[char], a: usize, b: usize) -> (r: Vec<char>)
    requires
        a <= b <= s.len(),
    ensures
        r@ == s@.subrange(a as int, b as int),
{
    let mut r: Vec<char> = Vec::new();
    let mut j = a;
    while j < b
        invariant
            a <= j <= b <= s.len(),
            r@ == s@.subrange(a as int, j as int),
        decreases b - j,
    {
        r.push(s[j]);
        j = j + 1;
        assert(r@ =~= s@.subrange(a as int, j as int));
    }
    r
}

/// Whether `s` is a Rust identifier.
pub fn is_valid_identifier(s: &str) -> (r: bool)
    ensures
        r == valid_identifier(s@),
{
    let chars = chars_of(s);
    identifier_chars(chars.as_slice())
}

/// Whether the characters `s` form a Rust identifier.
fn identifier_chars(s: &[char]) -> (r: bool)
    ensures
        r == valid_identifier(s@),
{
    if s.len() == 0 {
        return false;
    }
    if !(is_alphabetic(s[0]) || s[0] == '_') {
        return false;
    }
    let mut i: usize = 0;
    while i < s.len()
        invariant
            i <= s.len(),
            forall|k: int| 0 <= k < i ==> unicode_alphanumeric(#[trigger] s@[k]) || s@[k] == '_',
        decreases s.len() - i,
    {
        if !(is_alphanumeric(s[i]) || s[i] == '_') {
            return false;
        }
        i = i + 1;
    }
    true
}

/// The `name$` arguments of a format spec.
fn dollar_args(spec: &[char]) -> (r: Vec<String>)
    ensures
        strings_view(r@) == dollar_args_from(spec@, 0, None),
{
    let mut out: Vec<String> = Vec::new();
    let mut start: Option<usize> = None;
    let mut i: usize = 0;
    while i < spec.len()
        invariant
            i <= spec.len(),
            start matches Some(st) ==> st <= i,
            strings_view(out@) + dollar_args_from(spec@, i as int, index_opt(start))
                == dollar_args_from(spec@, 0, None),
        decreases spec.len() - i,
    {
        let c = spec[i];
        let ghost old_out = strings_view(out@);
        if is_alphanumeric(c) || c == '_' {
            if start.is_none() {
                start = Some(i);
            }
        } else {
            if c == '$' {
                match start {
                    Some(st) => {
                        let id = copy_range(spec, st, i);
                        if identifier_chars(id.as_slice()) {
                            out.push(string_from_chars(id.as_slice()));
                        }
                    },
                    None => {},
                }
            }
            proof {
                let found = match index_opt(start) {
                    Some(st) => if spec@[i as int] == '$' && valid_identifier(
                        spec@.subrange(st, i as int),
                    ) {
                        seq![spec@.subrange(st, i as int)]
                    } else {
                        seq![]
                    },
                    None => seq![],
                };
                assert(strings_view(out@) =~= old_out + found);
            }
            start = None;
        }
        i = i + 1;
    }
    out
}

/// The identifiers a format group refers to.
fn group_args_exec(group: &[char]) -> (r: Vec<String>)
    ensures
        strings_view(r@) == group_args(group@),
{
    let colon: [char; 1] = [':'];
    assert(colon@ == seq![':']);
    proof {
        lemma_first_occurrence(group@, seq![':']);
    }
    let glen = group.len();
    let (arg, spec) = match find_from(group, colon.as_slice(), 0) {
        Some(c) => (copy_range(group, 0, c), copy_range(group, c + 1, group.len())),
        None => (copy_range(group, 0, group.len()), Vec::new()),
    };
    proof {
        assert(group@.subrange(0, group@.len() as int) =~= group@);
    }
    let mut r: Vec<String> = Vec::new();
    if identifier_chars(arg.as_slice()) {
        r.push(string_from_chars(arg.as_slice()));
    }
    let ghost first = strings_view(r@);
    let mut rest = dollar_args(spec.as_slice());
    let ghost second = strings_view(rest@);
    r.append(&mut rest);
    assert(strings_view(r@) =~= first + second);
    r
}

/// The identifiers used as inline format arguments in a string literal's raw text.
pub fn extract_format_args(s: &str) -> (r: Vec<String>)
    ensures
        strings_view(r@) == format_args(s@),
{
    let open_brace: [char; 1] = ['{'];
    let close_brace: [char; 1] = ['}'];
    assert(open_brace@ == seq!['{']);
    assert(close_brace@ == seq!['}']);
    let mut out: Vec<String> = Vec::new();
    let mut rest = chars_of(s);
    assert(strings_view(out@) =~= Seq::<Seq<char>>::empty());
    loop
        invariant
            open_brace@ == seq!['{'],
            close_brace@ == seq!['}'],
            strings_view(out@) + format_args(rest@) == format_args(s@),
        decreases rest@.len(),
    {
        proof {
            lemma_first_occurrence(rest@, seq!['{']);
        }
        match find_from(rest.as_slice(), open_brace.as_slice(), 0) {
            None => {
                assert(format_args(rest@) =~= Seq::<Seq<char>>::empty());
                assert(strings_view(out@) + format_args(rest@) =~= strings_view(out@));
                return out;
            },
            Some(open) => {
                let n = rest.len();
                if open + 1 < n && rest[open + 1] == '{' {
                    rest = copy_range(rest.as_slice(), open + 2, rest.len());
                } else {
                    let after = copy_range(rest.as_slice(), open + 1, rest.len());
                    proof {
                        lemma_first_occurrence(after@, seq!['}']);
                    }
                    match find_from(after.as_slice(), close_brace.as_slice(), 0) {
                        None => {
                            assert(format_args(rest@) =~= Seq::<Seq<char>>::empty());
                            assert(strings_view(out@) + format_args(rest@) =~= strings_view(
                                out@,
                            ));
                            return out;
                        },
                        Some(close) => {
                            let group = copy_range(after.as_slice(), 0, close);
                            let ghost before = strings_view(out@);
                            let mut found = group_args_exec(group.as_slice());
                            let ghost added = strings_view(found@);
                            out.append(&mut found);
                            let next = copy_range(after.as_slice(), close + 1, after.len());
                            proof {
                                assert(strings_view(out@) =~= before + added);
                                assert(format_args(rest@) == added + format_args(next@));
                                assert(strings_view(out@) + format_args(next@) =~= before
                                    + format_args(rest@));
                            }
                            rest = next;
                        },
                    }
                }
            },
        }
    }
}

/// The names an attribute string literal stands for.
fn attribute_string_references(text: &str) -> (r: Vec<String>)
    ensures
        strings_view(r@) == attribute_string_names(text@),
{
    let chars = chars_of(text);
    let inner_start = chars_strip_leading(chars.as_slice(), '"');
    let inner = chars_strip_trailing(inner_start.as_slice(), '"');
    let inner_string = string_from_chars(inner.as_slice());
    let leaf = str_after_last(inner_string.as_str(), "::");
    let leaf_chars = chars_of(leaf.as_str());
    let mut r: Vec<String> = Vec::new();
    if identifier_chars(leaf_chars.as_slice()) {
        r.push(leaf);
    }
    assert(strings_view(r@) =~= attribute_string_names(text@));
    r
}

// ---------------------------------------------------------------------------
// Definitions that are used from elsewhere
// ---------------------------------------------------------------------------

/// Attribute text that marks a definition as used: `#[test]`,
/// `#[allow(unused)]`, `#[allow(dead_code)]` and the like.
pub open spec fn skip_attribute_text(text: Seq<char>) -> bool {
    has_infix(text, "test"@) || (has_infix(text, "allow"@) && (has_infix(text, "unused"@)
        || has_infix(text, "dead_code"@)))
}

/// Node `c` is an attribute that marks its item as used.
pub open spec fn skipping_attribute_item(tree: TreeView, c: int, source: Seq<u8>) -> bool {
    tree.kind(c) == "attribute_item"@ && skip_attribute_text(tree.text(c, source))
}

/// Going back from sibling `k` over attributes and comments, one of the
/// attributes marks the item as used.
pub open spec fn attributes_before(tree: TreeView, k: int, source: Seq<u8>) -> bool
    decreases k,
{
    if k < 0 || k >= tree.len() {
        false
    } else if tree.kind(k) == "attribute_item"@ || tree.kind(k) == "line_comment"@ || tree.kind(k)
        == "block_comment"@ {
        (tree.kind(k) == "attribute_item"@ && skip_attribute_text(tree.text(k, source))) || match tree.prev_sibling(k) {
            Some(j) => if 0 <= j < k {
                attributes_before(tree, j, source)
            } else {
                false
            },
            None => false,
        }
    } else {
        false
    }
}

/// The item that owns node `i` carries an attribute that marks it as used,
/// among its own children or among the attributes and comments right before it.
pub open spec fn has_skip_attribute_spec(tree: TreeView, i: int, source: Seq<u8>) -> bool {
    match tree.parent(i) {
        Some(p) => (exists|c: int|
            tree.is_child(p as int, c) && skipping_attribute_item(tree, c, source)) || match tree.prev_sibling(p as int) {
            Some(s) => attributes_before(tree, s, source),
            None => false,
        },
        None => false,
    }
}

/// Node `i` stands in a trait impl (its nearest `impl_item` ancestor names a
/// trait); such functions are called through the trait.
pub open spec fn inside_trait_impl(tree: TreeView, i: int) -> bool {
    match tree.ancestor_with_kind(i, "impl_item"@) {
        Some(a) => tree.first_child_in_field(a, "trait"@) is Some,
        None => false,
    }
}

/// Node `i` names a trait with a visibility modifier.
pub open spec fn public_trait(tree: TreeView, i: int) -> bool {
    match tree.parent(i) {
        Some(p) => tree.kind(p as int) == "trait_item"@ && tree.first_child_with_kind(
            p as int,
            "visibility_modifier"@,
        ) is Some,
        None => false,
    }
}

/// Whether attribute text marks a definition as used.
pub fn is_skip_attribute(text: &str) -> (r: bool)
    ensures
        r == skip_attribute_text(text@),
{
    str_contains(text, "test") || (str_contains(text, "allow") && (str_contains(text, "unused")
        || str_contains(text, "dead_code")))
}

fn is_skipping_attribute_item(tree: &SyntaxTree, c: usize, source: &str) -> (r: bool)
    requires
        c < tree.len(),
    ensures
        r == skipping_attribute_item(tree@, c as int, source.spec_bytes()),
{
    if !tree.kind_is(c, "attribute_item") {
        return false;
    }
    let text = tree.node_text(c, source);
    is_skip_attribute(text.as_str())
}

/// Whether the item that owns node `i` carries an attribute that marks it as used.
fn has_skip_attribute(tree: &SyntaxTree, i: usize, source: &str) -> (r: bool)
    requires
        tree.wf(),
        i < tree.len(),
    ensures
        r == has_skip_attribute_spec(tree@, i as int, source.spec_bytes()),
{
    let p = match tree.parent_of(i) {
        Some(p) => p,
        None => {
            return false;
        },
    };
    assert(tree@.nodes[i as int].parent == Some(p));
    let mut c: usize = 0;
    while c < tree.node_count()
        invariant
            c <= tree.len(),
            tree.parent(i as int) == Some(p),
            forall|d: int|
                0 <= d < c ==> !(tree.is_child(p as int, d) && skipping_attribute_item(
                    tree@,
                    d,
                    source.spec_bytes(),
                )),
        decreases tree.len() - c,
    {
        if tree.parent_of(c) == Some(p) && is_skipping_attribute_item(tree, c, source) {
            assert(tree.is_child(p as int, c as int));
            return true;
        }
        c = c + 1;
    }
    let mut sibling = tree.prev_sibling_of(p);
    loop
        invariant
            tree.wf(),
            p < tree.len(),
            sibling matches Some(k) ==> k < tree.len(),
            has_skip_attribute_spec(tree@, i as int, source.spec_bytes()) == match sibling {
                Some(k) => attributes_before(tree@, k as int, source.spec_bytes()),
                None => false,
            },
        decreases match sibling {
            Some(k) => k + 1,
            None => 0,
        },
    {
        let k = match sibling {
            Some(k) => k,
            None => {
                return false;
            },
        };
        if tree.kind_is(k, "attribute_item") {
            let text = tree.node_text(k, source);
            if is_skip_attribute(text.as_str()) {
                return true;
            }
        } else if !tree.kind_is(k, "line_comment") && !tree.kind_is(k, "block_comment") {
            return false;
        }
        sibling = tree.prev_sibling_of(k);
    }
}

/// The definitions query.
pub const DEFINITIONS_QUERY: &'static str = r#"
        (function_item name: (identifier) @def)
        (struct_item name: (type_identifier) @def)
        (enum_item name: (type_identifier) @def)
        (const_item name: (identifier) @def)
        (static_item name: (identifier) @def)
        (mod_item name: (identifier) @def)
        (trait_item name: (type_identifier) @def)
        "#;

/// The references query.
pub const REFERENCES_QUERY: &'static str = r#"
        (identifier) @ref
        (type_identifier) @ref
        (field_identifier) @ref
        (attribute_item (attribute (token_tree (string_literal) @attr_string)))
        (token_tree [(string_literal) (raw_string_literal)] @macro_string)
        "#;

impl LanguageSupport for RustLanguage {
    /// `main`, `test_*` functions and `__*` names.
    open spec fn spec_should_ignore(&self, name: Seq<char>) -> bool {
        name == "main"@ || has_prefix(name, "test_"@) || has_prefix(name, "__"@)
    }

    open spec fn spec_is_test_file(&self, path: Seq<char>) -> bool {
        default_test_path(path)
    }

    /// Functions in trait impls, and items marked used by an attribute.
    open spec fn spec_should_skip_node(&self, tree: TreeView, node: int, source: Seq<u8>) -> bool {
        inside_trait_impl(tree, node) || has_skip_attribute_spec(tree, node, source)
    }

    /// Public traits, which downstream crates may implement.
    open spec fn spec_is_public(&self, tree: TreeView, node: int, source: Seq<u8>) -> bool {
        public_trait(tree, node)
    }

    /// Strings in attributes stand for the path they name; strings in macro
    /// token trees for their inline format arguments.
    open spec fn spec_grammar(&self) -> GrammarId {
        GrammarId::Rust
    }

    open spec fn spec_definitions_query(&self) -> Seq<char> {
        DEFINITIONS_QUERY@
    }

    open spec fn spec_references_query(&self) -> Seq<char> {
        REFERENCES_QUERY@
    }

    open spec fn spec_normalize_reference(&self, capture: Seq<char>, text: Seq<char>) -> Seq<
        Seq<char>,
    > {
        if capture == "attr_string"@ {
            attribute_string_names(text)
        } else if capture == "macro_string"@ {
            format_args(text)
        } else {
            seq![text]
        }
    }

    fn language(&self) -> Language {
        grammar_language(GrammarId::Rust)
    }

    fn grammar(&self) -> (r: GrammarId) {
        GrammarId::Rust
    }

    fn definitions_query(&self) -> &'static str {
        DEFINITIONS_QUERY
    }

    fn references_query(&self) -> &'static str {
        REFERENCES_QUERY
    }

    fn should_ignore(&self, name: &str) -> (r: bool) {
        str_equals(name, "main") || str_starts_with(name, "test_") || str_starts_with(name, "__")
    }

    fn is_test_file(&self, path: &str) -> (r: bool) {
        default_is_test_file(path)
    }

    fn should_skip_node(&self, tree: &SyntaxTree, node: usize, source: &str) -> (r: bool) {
        let in_trait_impl = match tree.ancestor_of_kind(node, "impl_item") {
            Some(a) => tree.child_in_field(a, "trait").is_some(),
            None => false,
        };
        in_trait_impl || has_skip_attribute(tree, node, source)
    }

    fn is_public(&self, tree: &SyntaxTree, node: usize, source: &str) -> (r: bool) {
        match tree.parent_of(node) {
            Some(p) => {
                assert(tree@.nodes[node as int].parent == Some(p));
                tree.kind_is(p, "trait_item") && tree.child_with_kind(
                    p,
                    "visibility_modifier",
                ).is_some()
            },
            None => false,
        }
    }

    fn normalize_reference(&self, capture: &str, text: &str) -> (r: Vec<String>) {
        if str_equals(capture, "attr_string") {
            attribute_string_references(text)
        } else if str_equals(capture, "macro_string") {
            extract_format_args(text)
        } else {
            single_reference(text)
        }
    }
}

// ---------------------------------------------------------------------------
// Laws
// ---------------------------------------------------------------------------

proof fn lemma_last_child_before_bound(tree: TreeView, p: int, j: int)
    ensures
        tree.last_child_before(p, j) matches Some(c) ==> 0 <= c < j && c < tree.len(),
    decreases j,
{
    if j > 0 && !tree.is_child(p, j - 1) {
        lemma_last_child_before_bound(tree, p, j - 1);
    }
}

/// Attributes and comments.
pub open spec fn attribute_or_comment(kind: Seq<char>) -> bool {
    kind == "attribute_item"@ || kind == "line_comment"@ || kind == "block_comment"@
}

/// `run` is a run of siblings going back from `run[0]`: each next node is the
/// previous sibling of the one before, and every node but the last is an
/// attribute or a comment.
pub open spec fn sibling_run(tree: TreeView, run: Seq<int>) -> bool {
    &&& run.len() > 0
    &&& 0 <= run[0] < tree.len()
    &&& forall|m: int|
        0 <= m < run.len() - 1 ==> #[trigger] tree.prev_sibling(run[m]) == Some(run[m + 1])
            && attribute_or_comment(tree.kind(run[m]))
}

/// Any attribute that marks an item as used counts wherever it stands in the
/// run of attributes and comments before a node: other attributes (such as
/// `#[should_panic]`) and comments between them do not hide it.
pub proof fn law_skip_attribute_anywhere_in_run(tree: TreeView, run: Seq<int>, source: Seq<u8>)
    requires
        sibling_run(tree, run),
        skipping_attribute_item(tree, run.last(), source),
    ensures
        attributes_before(tree, run[0], source),
    decreases run.len(),
{
    if run.len() == 1 {
    } else {
        let k = run[0];
        assert(tree.prev_sibling(k) == Some(run[1]));
        match tree.parent(k) {
            Some(p) => {
                lemma_last_child_before_bound(tree, p as int, k);
            },
            None => {},
        }
        let rest = run.drop_first();
        assert forall|m: int| 0 <= m < rest.len() - 1 implies #[trigger] tree.prev_sibling(rest[m])
            == Some(rest[m + 1]) && attribute_or_comment(tree.kind(rest[m])) by {
            assert(tree.prev_sibling(run[m + 1]) == Some(run[m + 2]));
        }
        law_skip_attribute_anywhere_in_run(tree, rest, source);
        assert(attribute_or_comment(tree.kind(run[0])));
    }
}

/// A Rust definition is skipped when the attributes and comments right before
/// its item hold one that marks it as used, wherever that one stands in them.
pub proof fn law_rust_item_with_skip_attribute_is_skipped(
    tree: TreeView,
    node: int,
    source: Seq<u8>,
    item: usize,
    run: Seq<int>,
)
    requires
        tree.parent(node) == Some(item),
        tree.prev_sibling(item as int) matches Some(s) && run.len() > 0 && run[0] == s,
        sibling_run(tree, run),
        skipping_attribute_item(tree, run.last(), source),
    ensures
        RustLanguage.spec_should_skip_node(tree, node, source),
{
    law_skip_attribute_anywhere_in_run(tree, run, source);
}

proof fn lemma_occurs_single(s: Seq<char>, c: char, i: int)
    ensures
        occurs_at(s, seq![c], i) <==> (0 <= i < s.len() && s[i] == c),
{
    if 0 <= i < s.len() {
        assert(s.subrange(i, i + 1) =~= seq![s[i]]);
        if occurs_at(s, seq![c], i) {
            assert(s.subrange(i, i + 1)[0] == s[i]);
        }
    }
}

proof fn lemma_first_single(s: Seq<char>, c: char, j: int, n: int)
    requires
        0 <= j <= n < s.len(),
        s[n] == c,
        forall|k: int| j <= k < n ==> s[k] != c,
    ensures
        first_occurrence_from(s, seq![c], j) == n,
    decreases n - j,
{
    lemma_occurs_single(s, c, j);
    if j < n {
        lemma_first_single(s, c, j + 1, n);
    }
}

proof fn lemma_first_single_none(s: Seq<char>, c: char, j: int)
    requires
        0 <= j,
        forall|k: int| j <= k < s.len() ==> s[k] != c,
    ensures
        first_occurrence_from(s, seq![c], j) == -1,
    decreases s.len() + 1 - j,
{
    lemma_occurs_single(s, c, j);
    if j + 1 <= s.len() {
        lemma_first_single_none(s, c, j + 1);
    }
}

/// A format group `{g}` gives exactly the identifiers of `g`, followed by those
/// of the rest of the text: a group that gives nothing (`{}`, `{0}`) does not
/// end the scan.
pub proof fn law_format_group_then_rest(g: Seq<char>, t: Seq<char>)
    requires
        forall|k: int| 0 <= k < g.len() ==> g[k] != '{' && g[k] != '}',
    ensures
        format_args(seq!['{'] + g + seq!['}'] + t) == group_args(g) + format_args(t),
{
    let s = seq!['{'] + g + seq!['}'] + t;
    lemma_first_single(s, '{', 0, 0);
    assert(s[1] != '{') by {
        if g.len() > 0 {
            assert(s[1] == g[0]);
        } else {
            assert(s[1] == '}');
        }
    }
    let after = s.subrange(1, s.len() as int);
    assert(after =~= g + seq!['}'] + t);
    assert forall|k: int| 0 <= k < g.len() implies after[k] != '}' by {
        assert(after[k] == g[k]);
    }
    lemma_first_single(after, '}', 0, g.len() as int);
    assert(after.subrange(0, g.len() as int) =~= g);
    assert(after.subrange(g.len() as int + 1, after.len() as int) =~= t);
}

/// Text without `{` before the groups gives nothing and changes nothing.
pub proof fn law_format_text_before_groups(p: Seq<char>, t: Seq<char>)
    requires
        forall|k: int| 0 <= k < p.len() ==> p[k] != '{',
    ensures
        format_args(p + t) == format_args(t),
{
    let s = p + t;
    lemma_first_occurrence_from(t, seq!['{'], 0);
    let o = first_occurrence_from(t, seq!['{'], 0);
    if o < 0 {
        assert forall|k: int| 0 <= k < t.len() implies t[k] != '{' by {
            lemma_occurs_single(t, '{', k);
        }
        assert forall|k: int| 0 <= k < s.len() implies s[k] != '{' by {
            if k >= p.len() {
                assert(s[k] == t[k - p.len()]);
            }
        }
        lemma_first_single_none(s, '{', 0);
    } else {
        lemma_occurs_single(t, '{', o);
        assert forall|k: int| 0 <= k < p.len() + o implies s[k] != '{' by {
            if k >= p.len() {
                assert(s[k] == t[k - p.len()]);
                lemma_occurs_single(t, '{', k - p.len());
            }
        }
        assert(s[p.len() + o] == t[o]);
        lemma_first_single(s, '{', 0, p.len() + o);
        let open = p.len() + o;
        if open + 1 < s.len() {
            assert(s[open + 1] == t[o + 1]);
        }
        if o + 2 <= t.len() {
            assert(s.subrange(open + 2, s.len() as int) =~= t.subrange(o + 2, t.len() as int));
        }
        assert(s.subrange(open + 1, s.len() as int) =~= t.subrange(o + 1, t.len() as int));
    }
}

} // verus!

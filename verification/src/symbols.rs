//! Definitions and references found in a source file.
use vstd::prelude::*;
use vstd::string::StringSliceAdditionalSpecFns;
use vstd::utf8::encode_utf8;
use crate::languages::{strings_view, LanguageSupport};
use crate::syntax::{
    captures_view, copy_tree, grammar_accepted, parse_source, parsed_captures, parsed_tree,
    query_captures, query_compiles, Capture, GrammarId, SyntaxError, SyntaxTree, TreeView,
};
use crate::text::{has_infix, has_prefix, has_suffix, str_contains, str_starts_with};

verus! {

broadcast use vstd::seq_lib::group_seq_properties;

/// A named definition at a position in a file.
#[derive(Debug, Clone)]
pub struct Definition {
    pub name: String,
    pub file: String,
    /// 1-based line of the name.
    pub line: usize,
    /// 1-based byte column of the name in its line.
    pub column: usize,
    /// The grammar's kind of the node that declares the name.
    pub kind: String,
    /// The definition's line carries a `nodangle` marker comment.
    pub has_nodangle: bool,
}

/// A use of a name.
#[derive(Debug, Clone)]
pub struct Reference {
    pub name: String,
}

/// The value of a [`Definition`].
pub ghost struct DefinitionView {
    pub name: Seq<char>,
    pub file: Seq<char>,
    pub line: int,
    pub column: int,
    pub kind: Seq<char>,
    pub has_nodangle: bool,
}

impl View for Definition {
    type V = DefinitionView;

    open spec fn view(&self) -> DefinitionView {
        DefinitionView {
            name: self.name@,
            file: self.file@,
            line: self.line as int,
            column: self.column as int,
            kind: self.kind@,
            has_nodangle: self.has_nodangle,
        }
    }
}

/// The values of a sequence of definitions.
pub open spec fn definitions_view(defs: Seq<Definition>) -> Seq<DefinitionView> {
    defs.map_values(|d: Definition| d@)
}

/// The names of a sequence of references.
pub open spec fn references_view(refs: Seq<Reference>) -> Seq<Seq<char>> {
    refs.map_values(|r: Reference| r.name@)
}

/// `x + 1`, or `x` when that does not fit in a `usize`.
pub open spec fn one_based(x: usize) -> int {
    if x < usize::MAX {
        x + 1
    } else {
        x as int
    }
}

/// Comment nodes: their kinds end in `comment` (`comment`, `line_comment`,
/// `block_comment`, ...).
pub open spec fn is_comment_kind(kind: Seq<char>) -> bool {
    has_suffix(kind, "comment"@)
}

/// Node `c` of `tree` is a comment that starts on line `row` and whose text
/// contains `nodangle`.
pub open spec fn marks_nodangle(tree: TreeView, c: int, bytes: Seq<u8>, row: usize) -> bool {
    &&& is_comment_kind(tree.kind(c))
    &&& tree.nodes[c].row == row
    &&& has_infix(tree.text(c, bytes), "nodangle"@)
}

/// A comment on line `row` contains `nodangle`.
pub open spec fn nodangle_on_row(tree: TreeView, bytes: Seq<u8>, row: usize) -> bool {
    exists|c: int| 0 <= c < tree.len() && #[trigger] marks_nodangle(tree, c, bytes, row)
}

/// The definition that capture `c` of the definitions query stands for, unless
/// the language ignores its name, skips its node, or (without `include_public`)
/// deems it public.
pub open spec fn definition_of<L: LanguageSupport>(
    tree: TreeView,
    c: (int, Seq<char>),
    path: Seq<char>,
    source: Seq<char>,
    lang: L,
    include_public: bool,
) -> Option<DefinitionView> {
    let i = c.0;
    let bytes = encode_utf8(source);
    let name = tree.text(i, bytes);
    if lang.spec_should_ignore(name) || lang.spec_should_skip_node(tree, i, bytes) || (
    !include_public && lang.spec_is_public(tree, i, bytes)) {
        None
    } else {
        let node = tree.nodes[i];
        Some(
            DefinitionView {
                name,
                file: path,
                line: one_based(node.row),
                column: one_based(node.column),
                kind: tree.parent_kind(i),
                has_nodangle: nodangle_on_row(tree, bytes, node.row),
            },
        )
    }
}

/// The definitions that the captures of the definitions query stand for, in
/// capture order.
pub open spec fn definitions_of<L: LanguageSupport>(
    tree: TreeView,
    captures: Seq<(int, Seq<char>)>,
    path: Seq<char>,
    source: Seq<char>,
    lang: L,
    include_public: bool,
) -> Seq<DefinitionView>
    decreases captures.len(),
{
    if captures.len() == 0 {
        seq![]
    } else {
        let earlier = definitions_of(
            tree,
            captures.drop_last(),
            path,
            source,
            lang,
            include_public,
        );
        match definition_of(tree, captures.last(), path, source, lang, include_public) {
            Some(d) => earlier.push(d),
            None => earlier,
        }
    }
}

/// No definition found carries a name that the language ignores: whatever the
/// tree and the captures, every definition's name passes the language's
/// name filter.
pub proof fn law_ignored_names_are_never_definitions<L: LanguageSupport>(
    tree: TreeView,
    captures: Seq<(int, Seq<char>)>,
    path: Seq<char>,
    source: Seq<char>,
    lang: L,
    include_public: bool,
)
    ensures
        forall|k: int|
            0 <= k < definitions_of(tree, captures, path, source, lang, include_public).len()
                ==> !lang.spec_should_ignore(
                #[trigger] definitions_of(tree, captures, path, source, lang, include_public)[k].name,
            ),
    decreases captures.len(),
{
    if captures.len() > 0 {
        law_ignored_names_are_never_definitions(
            tree,
            captures.drop_last(),
            path,
            source,
            lang,
            include_public,
        );
        let earlier = definitions_of(tree, captures.drop_last(), path, source, lang, include_public);
        match definition_of(tree, captures.last(), path, source, lang, include_public) {
            Some(d) => {
                assert(forall|k: int| 0 <= k < earlier.len() ==> #[trigger] earlier.push(d)[k] == earlier[k]);
            },
            None => {},
        }
    }
}

/// The names that capture `c` of the references query stands for; captures
/// whose name starts with `_` only serve the query's predicates.
pub open spec fn references_of_capture<L: LanguageSupport>(
    tree: TreeView,
    c: (int, Seq<char>),
    source: Seq<char>,
    lang: L,
) -> Seq<Seq<char>> {
    if has_prefix(c.1, "_"@) {
        seq![]
    } else {
        lang.spec_normalize_reference(c.1, tree.text(c.0, encode_utf8(source)))
    }
}

/// The names that the captures of the references query stand for, in order.
pub open spec fn references_of<L: LanguageSupport>(
    tree: TreeView,
    captures: Seq<(int, Seq<char>)>,
    source: Seq<char>,
    lang: L,
) -> Seq<Seq<char>>
    decreases captures.len(),
{
    if captures.len() == 0 {
        seq![]
    } else {
        references_of(tree, captures.drop_last(), source, lang) + references_of_capture(
            tree,
            captures.last(),
            source,
            lang,
        )
    }
}

/// The lines on which a comment contains `nodangle`, each once or more.
fn nodangle_rows(tree: &SyntaxTree, source: &str) -> (r: Vec<usize>)
    ensures
        forall|row: usize| r@.contains(row) <==> nodangle_on_row(tree@, source.spec_bytes(), row),
{
    let ghost bytes = source.spec_bytes();
    let mut rows: Vec<usize> = Vec::new();
    let mut i: usize = 0;
    while i < tree.nodes.len()
        invariant
            i <= tree.nodes@.len(),
            bytes == source.spec_bytes(),
            forall|row: usize|
                rows@.contains(row) <==> exists|c: int|
                    0 <= c < i && #[trigger] marks_nodangle(tree@, c, bytes, row),
        decreases tree.nodes@.len() - i,
    {
        let ghost before = rows@;
        if tree.kind_ends_with(i, "comment") {
            let text = tree.node_text(i, source);
            if str_contains(text.as_str(), "nodangle") {
                rows.push(tree.nodes[i].row);
            }
        }
        assert(tree@.nodes[i as int] == tree.nodes@[i as int]@);
        assert forall|row: usize|
            rows@.contains(row) <==> exists|c: int|
                0 <= c < i + 1 && #[trigger] marks_nodangle(tree@, c, bytes, row) by {
            if rows@.contains(row) && !before.contains(row) {
                assert(marks_nodangle(tree@, i as int, bytes, row));
            }
            if exists|c: int| 0 <= c < i + 1 && #[trigger] marks_nodangle(tree@, c, bytes, row) {
                let c = choose|c: int| 0 <= c < i + 1 && #[trigger] marks_nodangle(tree@, c, bytes, row);
                if c == i {
                    assert(rows@.last() == row);
                } else {
                    assert(before.contains(row));
                    let k = choose|k: int| 0 <= k < before.len() && before[k] == row;
                    assert(rows@[k] == row);
                }
            }
            if before.contains(row) {
                let k = choose|k: int| 0 <= k < before.len() && before[k] == row;
                assert(rows@[k] == row);
            }
        }
        i = i + 1;
    }
    rows
}

/// Whether `x` is among `v`.
fn contains_row(v: &Vec<usize>, x: usize) -> (r: bool)
    ensures
        r == v@.contains(x),
{
    let mut k: usize = 0;
    while k < v.len()
        invariant
            k <= v@.len(),
            forall|m: int| 0 <= m < k ==> v@[m] != x,
        decreases v@.len() - k,
    {
        if v[k] == x {
            return true;
        }
        k = k + 1;
    }
    false
}

/// The definitions that the captures of the definitions query on `tree` stand for.
pub fn definitions_from_captures<L: LanguageSupport>(
    tree: &SyntaxTree,
    captures: &Vec<Capture>,
    path: &str,
    source: &str,
    lang: &L,
    include_public: bool,
) -> (r: Vec<Definition>)
    requires
        tree.wf(),
        tree@.captures_in(captures_view(captures@)),
    ensures
        definitions_view(r@) == definitions_of(
            tree@,
            captures_view(captures@),
            path@,
            source@,
            *lang,
            include_public,
        ),
{
    let ghost cv = captures_view(captures@);
    let marked = nodangle_rows(tree, source);
    let mut defs: Vec<Definition> = Vec::new();
    for i in 0..captures.len()
        invariant
            tree.wf(),
            cv == captures_view(captures@),
            tree@.captures_in(cv),
            forall|row: usize| marked@.contains(row) <==> nodangle_on_row(tree@, source.spec_bytes(), row),
            definitions_view(defs@) == definitions_of(
                tree@,
                cv.take(i as int),
                path@,
                source@,
                *lang,
                include_public,
            ),
    {
        proof {
            assert(cv.take(i + 1).drop_last() =~= cv.take(i as int));
        }
        let c = &captures[i];
        let node = c.node;
        assert(cv[i as int] == (node as int, c.name@));
        assert(0 <= cv[i as int].0 < tree@.len());
        let name = tree.node_text(node, source);
        let keep = !(lang.should_ignore(name.as_str()) || lang.should_skip_node(tree, node, source)
            || (!include_public && lang.is_public(tree, node, source)));
        let ghost before = definitions_view(defs@);
        if keep {
            let n = &tree.nodes[node];
            assert(tree@.nodes[node as int] == n@);
            let d = Definition {
                name,
                file: path.to_owned(),
                line: n.row.saturating_add(1),
                column: n.column.saturating_add(1),
                kind: tree.parent_kind_of(node),
                has_nodangle: contains_row(&marked, n.row),
            };
            defs.push(d);
            assert(definitions_view(defs@) =~= before.push(d@));
        }
    }
    assert(cv.take(cv.len() as int) =~= cv);
    defs
}

/// The names that the captures of the references query on `tree` stand for.
pub fn references_from_captures<L: LanguageSupport>(
    tree: &SyntaxTree,
    captures: &Vec<Capture>,
    source: &str,
    lang: &L,
) -> (r: Vec<Reference>)
    requires
        tree.wf(),
        tree@.captures_in(captures_view(captures@)),
    ensures
        references_view(r@) == references_of(tree@, captures_view(captures@), source@, *lang),
{
    let ghost cv = captures_view(captures@);
    let mut refs: Vec<Reference> = Vec::new();
    for i in 0..captures.len()
        invariant
            tree.wf(),
            cv == captures_view(captures@),
            tree@.captures_in(cv),
            references_view(refs@) == references_of(tree@, cv.take(i as int), source@, *lang),
    {
        proof {
            assert(cv.take(i + 1).drop_last() =~= cv.take(i as int));
        }
        let c = &captures[i];
        assert(cv[i as int] == (c.node as int, c.name@));
        assert(0 <= cv[i as int].0 < tree@.len());
        let ghost before = references_view(refs@);
        if !str_starts_with(c.name.as_str(), "_") {
            let text = tree.node_text(c.node, source);
            let names = lang.normalize_reference(c.name.as_str(), text.as_str());
            let ghost expected = strings_view(names@);
            for k in 0..names.len()
                invariant
                    expected == strings_view(names@),
                    references_view(refs@) == before + expected.take(k as int),
            {
                let ghost old_refs = refs@;
                let name = names[k].clone();
                assert(name@ == names@[k as int]@);
                refs.push(Reference { name });
                assert(refs@ == old_refs.push(refs@.last()));
                assert(references_view(refs@) =~= references_view(old_refs).push(names@[k as int]@));
                assert(expected[k as int] == names@[k as int]@);
                assert(expected.take(k + 1) =~= expected.take(k as int).push(names@[k as int]@));
                assert(references_view(refs@) =~= before + expected.take(k + 1));
            }
            assert(expected.take(expected.len() as int) =~= expected);
            assert(references_view(refs@) =~= before + expected);
        } else {
            assert(references_view(refs@) =~= before + Seq::<Seq<char>>::empty());
        }
    }
    assert(cv.take(cv.len() as int) =~= cv);
    refs
}

/// Why extracting with `query` for `grammar` fails, if it does: tree-sitter
/// does not accept the grammar, or the query does not compile for it.
pub open spec fn extraction_error(grammar: GrammarId, query: Seq<char>) -> Option<SyntaxError> {
    if !grammar_accepted(grammar) {
        Some(SyntaxError::LanguageRejected)
    } else if !query_compiles(grammar, query) {
        Some(SyntaxError::InvalidQuery)
    } else {
        None
    }
}

/// The definitions of the file at `path` whose text is `source`: those that
/// the captures of the language's definitions query on the parse of `source`
/// with the language's grammar stand for.
pub open spec fn file_definitions<L: LanguageSupport>(
    path: Seq<char>,
    source: Seq<char>,
    lang: L,
    include_public: bool,
) -> Seq<DefinitionView> {
    definitions_of(
        parsed_tree(lang.spec_grammar(), source),
        parsed_captures(lang.spec_grammar(), lang.spec_definitions_query(), source),
        path,
        source,
        lang,
        include_public,
    )
}

/// The references in `source`: the names that the captures of the language's
/// references query on the parse of `source` with the language's grammar stand
/// for.
pub open spec fn file_references<L: LanguageSupport>(source: Seq<char>, lang: L) -> Seq<Seq<char>> {
    references_of(
        parsed_tree(lang.spec_grammar(), source),
        parsed_captures(lang.spec_grammar(), lang.spec_references_query(), source),
        source,
        lang,
    )
}

/// The definitions in `source`, the text of the file at `path`: the names that
/// the language's definitions query captures in the parse of `source`, without
/// the ones the language ignores, skips or (unless `include_public`) deems
/// public. It fails exactly when the grammar is not accepted or the query does
/// not compile.
pub fn extract_definitions<L: LanguageSupport>(
    path: &str,
    source: &str,
    lang: &L,
    include_public: bool,
) -> (r: Result<Vec<Definition>, SyntaxError>)
    ensures
        match r {
            Ok(defs) => {
                &&& extraction_error(lang.spec_grammar(), lang.spec_definitions_query()) is None
                &&& definitions_view(defs@) == file_definitions(
                    path@,
                    source@,
                    *lang,
                    include_public,
                )
            },
            Err(e) => extraction_error(lang.spec_grammar(), lang.spec_definitions_query())
                == Some(e),
        },
{
    let parsed = match parse_source(lang.grammar(), source) {
        Ok(parsed) => parsed,
        Err(e) => {
            return Err(e);
        },
    };
    let tree = copy_tree(&parsed);
    let captures = match query_captures(lang.definitions_query(), &parsed, &tree) {
        Ok(captures) => captures,
        Err(e) => {
            return Err(e);
        },
    };
    Ok(definitions_from_captures(&tree, &captures, path, source, lang, include_public))
}

/// The references in `source`: the names that the captures of the language's
/// references query in the parse of `source` stand for. It fails exactly when
/// the grammar is not accepted or the query does not compile.
pub fn extract_references<L: LanguageSupport>(source: &str, lang: &L) -> (r: Result<
    Vec<Reference>,
    SyntaxError,
>)
    ensures
        match r {
            Ok(refs) => {
                &&& extraction_error(lang.spec_grammar(), lang.spec_references_query()) is None
                &&& references_view(refs@) == file_references(source@, *lang)
            },
            Err(e) => extraction_error(lang.spec_grammar(), lang.spec_references_query())
                == Some(e),
        },
{
    let parsed = match parse_source(lang.grammar(), source) {
        Ok(parsed) => parsed,
        Err(e) => {
            return Err(e);
        },
    };
    let tree = copy_tree(&parsed);
    let captures = match query_captures(lang.references_query(), &parsed, &tree) {
        Ok(captures) => captures,
        Err(e) => {
            return Err(e);
        },
    };
    Ok(references_from_captures(&tree, &captures, source, lang))
}

} // verus!

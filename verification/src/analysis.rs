//! Deciding which definitions are dead: those whose name is referenced no more
//! often than it is defined.
use vstd::prelude::*;
use vstd::utf8::encode_utf8;
use vstd::hash_map::StringHashMap;
use crate::languages::LanguageSupport;
use crate::symbols::{
    definition_of, definitions_of, definitions_view, file_definitions, references_view, Definition,
    DefinitionView, Reference,
};
use crate::syntax::{parsed_captures, parsed_tree, TreeView};

verus! {

broadcast use vstd::seq_lib::group_seq_properties;

/// The views of a sequence of string slices.
pub open spec fn str_views(s: Seq<&str>) -> Seq<Seq<char>> {
    s.map_values(|x: &str| x@)
}

/// How often `name` occurs in `names`.
pub open spec fn count_of(names: Seq<Seq<char>>, name: Seq<char>) -> nat
    decreases names.len(),
{
    if names.len() == 0 {
        0
    } else {
        count_of(names.drop_last(), name) + if names.last() == name {
            1nat
        } else {
            0nat
        }
    }
}

/// The count that a map of counts holds for `name` (0 when it holds none).
pub open spec fn count_in(counts: Map<Seq<char>, usize>, name: Seq<char>) -> nat {
    if counts.contains_key(name) {
        counts[name] as nat
    } else {
        0
    }
}

/// The count that the last pair for `name` among `pairs` gives (0 when none does).
pub open spec fn pair_count(pairs: Seq<(Seq<char>, usize)>, name: Seq<char>) -> nat
    decreases pairs.len(),
{
    if pairs.len() == 0 {
        0
    } else if pairs.last().0 == name {
        pairs.last().1 as nat
    } else {
        pair_count(pairs.drop_last(), name)
    }
}

/// The values of (name, count) pairs.
pub open spec fn pairs_view(pairs: Seq<(String, usize)>) -> Seq<(Seq<char>, usize)> {
    pairs.map_values(|p: (String, usize)| (p.0@, p.1))
}

/// The names of a sequence of definitions.
pub open spec fn definition_names(defs: Seq<DefinitionView>) -> Seq<Seq<char>> {
    defs.map_values(|d: DefinitionView| d.name)
}

/// A definition in `all` is dead when it carries no `nodangle` marker and its
/// name is referenced no more often than it is defined in `all` (each
/// definition's own name is among the references).
pub open spec fn is_dead(d: DefinitionView, refs: Map<Seq<char>, usize>, all: Seq<DefinitionView>) -> bool {
    !d.has_nodangle && count_in(refs, d.name) <= count_of(definition_names(all), d.name)
}

/// The dead definitions among `defs`, in their order, judged against all of `all`.
pub open spec fn dead_among(
    defs: Seq<Definition>,
    refs: Map<Seq<char>, usize>,
    all: Seq<DefinitionView>,
) -> Seq<Definition>
    decreases defs.len(),
{
    if defs.len() == 0 {
        seq![]
    } else {
        let earlier = dead_among(defs.drop_last(), refs, all);
        if is_dead(defs.last()@, refs, all) {
            earlier.push(defs.last())
        } else {
            earlier
        }
    }
}

/// The dead definitions among `defs`, in their order.
pub open spec fn dead_code_of(defs: Seq<Definition>, refs: Map<Seq<char>, usize>) -> Seq<Definition> {
    dead_among(defs, refs, definitions_view(defs))
}

/// How often each name is referenced.
pub struct ReferenceCounts {
    counts: StringHashMap<usize>,
}

impl View for ReferenceCounts {
    type V = Map<Seq<char>, usize>;

    closed spec fn view(&self) -> Map<Seq<char>, usize> {
        self.counts@
    }
}

/// The result of the analysis.
pub struct AnalysisResult {
    pub dead_code: Vec<Definition>,
}

// ---------------------------------------------------------------------------
// Lemmas
// ---------------------------------------------------------------------------

pub proof fn lemma_count_of_bound(names: Seq<Seq<char>>, name: Seq<char>)
    ensures
        count_of(names, name) <= names.len(),
    decreases names.len(),
{
    if names.len() > 0 {
        lemma_count_of_bound(names.drop_last(), name);
    }
}

pub proof fn lemma_dead_among_members(
    defs: Seq<Definition>,
    refs: Map<Seq<char>, usize>,
    all: Seq<DefinitionView>,
    d: Definition,
)
    ensures
        dead_among(defs, refs, all).contains(d) <==> defs.contains(d) && is_dead(d@, refs, all),
    decreases defs.len(),
{
    if defs.len() > 0 {
        let init = defs.drop_last();
        lemma_dead_among_members(init, refs, all, d);
        assert(defs =~= init.push(defs.last()));
        if defs.contains(d) && d != defs.last() {
            let k = choose|k: int| 0 <= k < defs.len() && defs[k] == d;
            assert(init[k] == d);
        }
        if init.contains(d) {
            let k = choose|k: int| 0 <= k < init.len() && init[k] == d;
            assert(defs[k] == d);
        }
    }
}

// ---------------------------------------------------------------------------
// Laws
// ---------------------------------------------------------------------------

/// A definition is reported exactly when it is one of the definitions, it has
/// no `nodangle` marker, and its name is referenced no more often than it is
/// defined. So definitions that share a name do not keep each other alive.
pub proof fn law_reported_exactly_when_unreferenced(
    defs: Seq<Definition>,
    refs: Map<Seq<char>, usize>,
    d: Definition,
)
    ensures
        dead_code_of(defs, refs).contains(d) <==> defs.contains(d) && !d.has_nodangle && count_in(
            refs,
            d.name@,
        ) <= count_of(definition_names(definitions_view(defs)), d.name@),
{
    lemma_dead_among_members(defs, refs, definitions_view(defs), d);
}

/// A definition marked `nodangle` is never reported.
pub proof fn law_nodangle_is_never_reported(
    defs: Seq<Definition>,
    refs: Map<Seq<char>, usize>,
    d: Definition,
)
    requires
        d.has_nodangle,
    ensures
        !dead_code_of(defs, refs).contains(d),
{
    lemma_dead_among_members(defs, refs, definitions_view(defs), d);
}

/// More references never make more definitions dead.
pub proof fn law_more_references_report_less(
    defs: Seq<Definition>,
    fewer: Map<Seq<char>, usize>,
    more: Map<Seq<char>, usize>,
    d: Definition,
)
    requires
        forall|name: Seq<char>| count_in(fewer, name) <= #[trigger] count_in(more, name),
    ensures
        dead_code_of(defs, more).contains(d) ==> dead_code_of(defs, fewer).contains(d),
{
    lemma_dead_among_members(defs, more, definitions_view(defs), d);
    lemma_dead_among_members(defs, fewer, definitions_view(defs), d);
    assert(count_in(fewer, d.name@) <= count_in(more, d.name@));
}

/// The reported definitions keep their order: they are the definitions that
/// are dead, as a subsequence of the input.
pub proof fn law_reported_in_input_order(defs: Seq<Definition>, refs: Map<Seq<char>, usize>)
    ensures
        dead_code_of(defs, refs) == defs.filter(
            |d: Definition| is_dead(d@, refs, definitions_view(defs)),
        ),
{
    lemma_dead_among_is_filter(defs, refs, definitions_view(defs));
}

/// More definitions of the names never hide a finding: a definition that is
/// dead among `fewer` is dead among `more`, when `more` holds it and defines
/// each name at least as often.
pub proof fn law_more_definitions_report_more(
    fewer: Seq<Definition>,
    more: Seq<Definition>,
    refs: Map<Seq<char>, usize>,
    d: Definition,
)
    requires
        more.contains(d),
        forall|name: Seq<char>|
            count_of(definition_names(definitions_view(fewer)), name) <= #[trigger] count_of(
                definition_names(definitions_view(more)),
                name,
            ),
    ensures
        dead_code_of(fewer, refs).contains(d) ==> dead_code_of(more, refs).contains(d),
{
    lemma_dead_among_members(fewer, refs, definitions_view(fewer), d);
    lemma_dead_among_members(more, refs, definitions_view(more), d);
    assert(count_of(definition_names(definitions_view(fewer)), d.name@) <= count_of(
        definition_names(definitions_view(more)),
        d.name@,
    ));
}

/// Reporting public symbols too only adds definitions: every definition found
/// in a file without `include_public` is found with it, and each name is
/// defined at least as often.
pub proof fn law_public_symbols_only_add_definitions<L: LanguageSupport>(
    tree: TreeView,
    captures: Seq<(int, Seq<char>)>,
    path: Seq<char>,
    source: Seq<char>,
    lang: L,
)
    ensures
        forall|d: DefinitionView|
            definitions_of(tree, captures, path, source, lang, false).contains(d)
                ==> #[trigger] definitions_of(tree, captures, path, source, lang, true).contains(d),
        forall|name: Seq<char>|
            count_of(
                definition_names(definitions_of(tree, captures, path, source, lang, false)),
                name,
            ) <= #[trigger] count_of(
                definition_names(definitions_of(tree, captures, path, source, lang, true)),
                name,
            ),
    decreases captures.len(),
{
    if captures.len() > 0 {
        let init = captures.drop_last();
        law_public_symbols_only_add_definitions(tree, init, path, source, lang);
        let without = definitions_of(tree, init, path, source, lang, false);
        let with = definitions_of(tree, init, path, source, lang, true);
        let c = captures.last();
        match definition_of(tree, c, path, source, lang, false) {
            Some(x) => {
                assert(definition_of(tree, c, path, source, lang, true) == Some(x));
                assert(definition_names(without.push(x)) =~= definition_names(without).push(x.name));
                assert(definition_names(with.push(x)) =~= definition_names(with).push(x.name));
                assert forall|d: DefinitionView| without.push(x).contains(d) implies #[trigger] with.push(
                    x,
                ).contains(d) by {
                    if d != x {
                        assert(without.contains(d));
                        assert(with.contains(d));
                        let j = choose|j: int| 0 <= j < with.len() && with[j] == d;
                        assert(with.push(x)[j] == d);
                    } else {
                        assert(with.push(x)[with.len() as int] == d);
                    }
                }
                assert forall|name: Seq<char>|
                    count_of(definition_names(without.push(x)), name) <= #[trigger] count_of(
                        definition_names(with.push(x)),
                        name,
                    ) by {
                    assert(definition_names(without.push(x)).drop_last() =~= definition_names(
                        without,
                    ));
                    assert(definition_names(with.push(x)).drop_last() =~= definition_names(with));
                    assert(count_of(definition_names(without), name) <= count_of(
                        definition_names(with),
                        name,
                    ));
                }
            },
            None => {
                match definition_of(tree, c, path, source, lang, true) {
                    Some(y) => {
                        assert(definition_names(with.push(y)) =~= definition_names(with).push(y.name));
                        assert forall|d: DefinitionView| without.contains(d) implies #[trigger] with.push(
                            y,
                        ).contains(d) by {
                            assert(with.contains(d));
                            let j = choose|j: int| 0 <= j < with.len() && with[j] == d;
                            assert(with.push(y)[j] == d);
                        }
                        assert forall|name: Seq<char>|
                            count_of(definition_names(without), name) <= #[trigger] count_of(
                                definition_names(with.push(y)),
                                name,
                            ) by {
                            assert(definition_names(with.push(y)).drop_last() =~= definition_names(
                                with,
                            ));
                            assert(count_of(definition_names(without), name) <= count_of(
                                definition_names(with),
                                name,
                            ));
                        }
                    },
                    None => {},
                }
            },
        }
    }
}

/// Reporting public symbols too only adds definitions of a file: every
/// definition that `extract_definitions` finds without `include_public` it
/// finds with it, and each name is defined at least as often.
pub proof fn law_public_symbols_only_add_file_definitions<L: LanguageSupport>(
    path: Seq<char>,
    source: Seq<char>,
    lang: L,
)
    ensures
        forall|d: DefinitionView|
            file_definitions(path, source, lang, false).contains(d)
                ==> #[trigger] file_definitions(path, source, lang, true).contains(d),
        forall|name: Seq<char>|
            count_of(definition_names(file_definitions(path, source, lang, false)), name)
                <= #[trigger] count_of(
                definition_names(file_definitions(path, source, lang, true)),
                name,
            ),
{
    law_public_symbols_only_add_definitions(
        parsed_tree(lang.spec_grammar(), source),
        parsed_captures(lang.spec_grammar(), lang.spec_definitions_query(), source),
        path,
        source,
        lang,
    );
}

/// The captures whose node the language does not deem public, in order.
pub open spec fn non_public_captures<L: LanguageSupport>(
    tree: TreeView,
    captures: Seq<(int, Seq<char>)>,
    source: Seq<char>,
    lang: L,
) -> Seq<(int, Seq<char>)> {
    captures.filter(|c: (int, Seq<char>)| !lang.spec_is_public(tree, c.0, encode_utf8(source)))
}

/// Without `include_public`, the definitions are those found with it, in the
/// same order, less exactly the ones whose name node the language deems
/// public: the definitions that the non-public captures stand for.
pub proof fn law_without_public_symbols_drops_exactly_public<L: LanguageSupport>(
    tree: TreeView,
    captures: Seq<(int, Seq<char>)>,
    path: Seq<char>,
    source: Seq<char>,
    lang: L,
)
    ensures
        definitions_of(tree, captures, path, source, lang, false) == definitions_of(
            tree,
            non_public_captures(tree, captures, source, lang),
            path,
            source,
            lang,
            true,
        ),
    decreases captures.len(),
{
    reveal_with_fuel(Seq::filter, 1);
    let pred = |c: (int, Seq<char>)| !lang.spec_is_public(tree, c.0, encode_utf8(source));
    if captures.len() > 0 {
        let init = captures.drop_last();
        let c = captures.last();
        law_without_public_symbols_drops_exactly_public(tree, init, path, source, lang);
        assert(non_public_captures(tree, init, source, lang) == init.filter(pred));
        if pred(c) {
            assert(captures.filter(pred) == init.filter(pred).push(c));
            assert(init.filter(pred).push(c).drop_last() =~= init.filter(pred));
            assert(definition_of(tree, c, path, source, lang, false) == definition_of(
                tree,
                c,
                path,
                source,
                lang,
                true,
            ));
        } else {
            assert(captures.filter(pred) == init.filter(pred));
            assert(definition_of(tree, c, path, source, lang, false) is None);
        }
    } else {
        assert(captures.filter(pred) =~= captures);
    }
}

/// Without `include_public`, the definitions of a file (what
/// `extract_definitions` returns) are those found with it, in the same order,
/// less exactly the ones whose name node the language deems public.
pub proof fn law_without_public_symbols_drops_exactly_public_in_file<L: LanguageSupport>(
    path: Seq<char>,
    source: Seq<char>,
    lang: L,
)
    ensures
        file_definitions(path, source, lang, false) == definitions_of(
            parsed_tree(lang.spec_grammar(), source),
            non_public_captures(
                parsed_tree(lang.spec_grammar(), source),
                parsed_captures(lang.spec_grammar(), lang.spec_definitions_query(), source),
                source,
                lang,
            ),
            path,
            source,
            lang,
            true,
        ),
{
    law_without_public_symbols_drops_exactly_public(
        parsed_tree(lang.spec_grammar(), source),
        parsed_captures(lang.spec_grammar(), lang.spec_definitions_query(), source),
        path,
        source,
        lang,
    );
}

pub proof fn lemma_dead_among_is_filter(
    defs: Seq<Definition>,
    refs: Map<Seq<char>, usize>,
    all: Seq<DefinitionView>,
)
    ensures
        dead_among(defs, refs, all) == defs.filter(|d: Definition| is_dead(d@, refs, all)),
    decreases defs.len(),
{
    reveal_with_fuel(Seq::filter, 1);
    if defs.len() > 0 {
        lemma_dead_among_is_filter(defs.drop_last(), refs, all);
        assert(defs.drop_last() =~= defs.subrange(0, defs.len() - 1));
    } else {
        assert(defs.filter(|d: Definition| is_dead(d@, refs, all)) =~= Seq::<Definition>::empty());
    }
}

// ---------------------------------------------------------------------------
// Executable
// ---------------------------------------------------------------------------

/// A copy of a definition.
pub(crate) fn copy_definition(d: &Definition) -> (r: Definition)
    ensures
        r == *d,
{
    Definition {
        name: d.name.clone(),
        file: d.file.clone(),
        line: d.line,
        column: d.column,
        kind: d.kind.clone(),
        has_nodangle: d.has_nodangle,
    }
}

/// How often each name occurs in `names`.
fn tally(names: &Vec<&str>) -> (r: StringHashMap<usize>)
    ensures
        forall|name: Seq<char>|
            #[trigger] count_in(r@, name) == count_of(str_views(names@), name),
{
    let ghost all = str_views(names@);
    let mut counts: StringHashMap<usize> = StringHashMap::new();
    for i in 0..names.len()
        invariant
            all == str_views(names@),
            forall|name: Seq<char>|
                #[trigger] count_in(counts@, name) == count_of(all.take(i as int), name),
    {
        proof {
            assert(all.take(i + 1).drop_last() =~= all.take(i as int));
            lemma_count_of_bound(all.take(i as int), all[i as int]);
        }
        let name = names[i];
        let current: usize = match counts.get(name) {
            Some(c) => *c,
            None => 0,
        };
        proof {
            assert(count_in(counts@, name@) == current);
        }
        let ghost old_counts = counts@;
        counts.insert(name.to_owned(), current + 1);
        proof {
            assert(all[i as int] == name@);
            assert forall|n: Seq<char>|
                #[trigger] count_in(counts@, n) == count_of(all.take(i + 1), n) by {
                assert(all.take(i + 1).last() == name@);
                assert(count_of(all.take(i + 1), n) == count_of(all.take(i as int), n) + if name@
                    == n {
                    1nat
                } else {
                    0nat
                });
                if n == name@ {
                    assert(count_in(counts@, n) == current + 1);
                } else {
                    assert(count_in(counts@, n) == count_in(old_counts, n));
                }
            }
        }
    }
    assert(all.take(names@.len() as int) =~= all);
    counts
}

impl ReferenceCounts {
    /// No references.
    pub fn new() -> (r: Self)
        ensures
            forall|name: Seq<char>| #[trigger] count_in(r@, name) == 0,
    {
        ReferenceCounts { counts: StringHashMap::new() }
    }

    /// How often each name occurs among `refs`.
    pub fn from_references(refs: &Vec<Reference>) -> (r: Self)
        ensures
            forall|name: Seq<char>|
                #[trigger] count_in(r@, name) == count_of(references_view(refs@), name),
    {
        let mut names: Vec<&str> = Vec::new();
        for i in 0..refs.len()
            invariant
                names@.len() == i,
                str_views(names@) == references_view(refs@).take(i as int),
        {
            let ghost old_names = names@;
            names.push(refs[i].name.as_str());
            assert(names@ == old_names.push(names@.last()));
            assert(names@.last()@ == refs@[i as int].name@);
            assert forall|k: int| 0 <= k < i + 1 implies #[trigger] str_views(names@)[k]
                == references_view(refs@).take(i + 1)[k] by {
                if k < i {
                    assert(names@[k] == old_names[k]);
                    assert(str_views(old_names)[k] == references_view(refs@).take(i as int)[k]);
                }
            }
            assert(str_views(names@) =~= references_view(refs@).take(i + 1));
        }
        assert(references_view(refs@).take(refs@.len() as int) =~= references_view(refs@));
        ReferenceCounts { counts: tally(&names) }
    }

    /// The counts that (name, count) pairs give; of two pairs for one name,
    /// the later one counts.
    pub fn from_counts(pairs: &Vec<(String, usize)>) -> (r: Self)
        ensures
            forall|name: Seq<char>|
                #[trigger] count_in(r@, name) == pair_count(pairs_view(pairs@), name),
    {
        let ghost all = pairs_view(pairs@);
        let mut counts: StringHashMap<usize> = StringHashMap::new();
        for i in 0..pairs.len()
            invariant
                all == pairs_view(pairs@),
                forall|name: Seq<char>|
                    #[trigger] count_in(counts@, name) == pair_count(all.take(i as int), name),
        {
            let (name, count) = (&pairs[i].0, pairs[i].1);
            let ghost old_counts = counts@;
            counts.insert(name.clone(), count);
            proof {
                assert(all[i as int] == (name@, count));
                assert(all.take(i + 1).drop_last() =~= all.take(i as int));
                assert forall|n: Seq<char>|
                    #[trigger] count_in(counts@, n) == pair_count(all.take(i + 1), n) by {
                    assert(all.take(i + 1).last() == (name@, count));
                    if n != name@ {
                        assert(count_in(counts@, n) == count_in(old_counts, n));
                    }
                }
            }
        }
        assert(all.take(pairs@.len() as int) =~= all);
        ReferenceCounts { counts }
    }

    /// How often `name` is referenced.
    pub fn count(&self, name: &str) -> (r: usize)
        ensures
            r == count_in(self@, name@),
    {
        match self.counts.get(name) {
            Some(c) => *c,
            None => 0,
        }
    }
}

/// The dead definitions among `definitions`, in their order: those without a
/// `nodangle` marker whose name is referenced no more often than it is defined.
pub fn find_dead_code(definitions: Vec<Definition>, ref_counts: &ReferenceCounts) -> (r:
    AnalysisResult)
    ensures
        r.dead_code@ == dead_code_of(definitions@, ref_counts@),
{
    let ghost all = definitions_view(definitions@);
    let mut names: Vec<&str> = Vec::new();
    for i in 0..definitions.len()
        invariant
            all == definitions_view(definitions@),
            names@.len() == i,
            str_views(names@) == definition_names(all).take(i as int),
    {
        let ghost old_names = names@;
        names.push(definitions[i].name.as_str());
        assert(names@ == old_names.push(names@.last()));
        assert(names@.last()@ == all[i as int].name);
        assert forall|k: int| 0 <= k < i + 1 implies #[trigger] str_views(names@)[k]
            == definition_names(all).take(i + 1)[k] by {
            if k < i {
                assert(names@[k] == old_names[k]);
                assert(str_views(old_names)[k] == definition_names(all).take(i as int)[k]);
            }
        }
        assert(str_views(names@) =~= definition_names(all).take(i + 1));
    }
    assert(definition_names(all).take(definitions@.len() as int) =~= definition_names(all));
    let def_counts = tally(&names);
    let mut dead_code: Vec<Definition> = Vec::new();
    for i in 0..definitions.len()
        invariant
            all == definitions_view(definitions@),
            forall|name: Seq<char>|
                #[trigger] count_in(def_counts@, name) == count_of(definition_names(all), name),
            dead_code@ == dead_among(definitions@.take(i as int), ref_counts@, all),
    {
        proof {
            assert(definitions@.take(i + 1).drop_last() =~= definitions@.take(i as int));
        }
        let d = &definitions[i];
        if !d.has_nodangle {
            let referenced = ref_counts.count(d.name.as_str());
            let defined = match def_counts.get(d.name.as_str()) {
                Some(c) => *c,
                None => 0,
            };
            proof {
                assert(count_in(def_counts@, d.name@) == defined);
            }
            if referenced <= defined {
                dead_code.push(copy_definition(d));
            }
        }
    }
    assert(definitions@.take(definitions@.len() as int) =~= definitions@);
    AnalysisResult { dead_code }
}

} // verus!

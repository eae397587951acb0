//! The analysis of a whole project: which files are analysed, how their
//! definitions and references are combined, and how the findings are ordered
//! and labelled.
use vstd::prelude::*;
use crate::analysis::{count_in, count_of, dead_code_of, find_dead_code, AnalysisResult, ReferenceCounts};
use crate::languages::{get_language_for_extension, language_for_extension, LanguageSupport, SupportedLanguage};
use crate::symbols::{
    definitions_view, extract_definitions, extract_references, extraction_error, file_definitions,
    file_references, references_view, Definition, DefinitionView, Reference,
};
use crate::syntax::SyntaxError;
use crate::shebang::{shebang_language, shebang_language_spec};
use crate::text::{
    after_last, chars_less, chars_of, find_from, first_occurrence_from, last_occurrence,
    lemma_first_occurrence_from, line_at, nth_line, seq_less, str_after_last, str_equals,
};

verus! {

broadcast use vstd::seq_lib::group_seq_properties;

// ---------------------------------------------------------------------------
// Which files are analysed
// ---------------------------------------------------------------------------

/// The extension of a `/`-separated relative path without `.` or `..`
/// components (as `git ls-files` lists them), as `Path::extension` gives it:
/// what follows the last `.` of the file name, unless the file name has no
/// `.` other than a leading one, or is `..`.
pub open spec fn extension_of(path: Seq<char>) -> Option<Seq<char>> {
    let name = after_last(path, "/"@);
    let dot = last_occurrence(name, "."@);
    if name == ".."@ || dot <= 0 {
        None
    } else {
        Some(name.subrange(dot + 1, name.len() as int))
    }
}

/// The language of the file at `path`, by its extension.
pub open spec fn language_for_path_spec(path: Seq<char>) -> Option<SupportedLanguage> {
    match extension_of(path) {
        Some(ext) => language_for_extension(ext),
        None => None,
    }
}

/// The language of a file: by its extension, or, for a file without one, by
/// the program that the `#!` line starting its text runs.
pub open spec fn language_for_file_spec(path: Seq<char>, source: Seq<char>) -> Option<
    SupportedLanguage,
> {
    match extension_of(path) {
        Some(ext) => language_for_extension(ext),
        None => shebang_language_spec(nth_line(source, 0)),
    }
}

/// The extension of a path (see [`extension_of`]).
pub fn file_extension(path: &str) -> (r: Option<String>)
    ensures
        match r {
            Some(e) => extension_of(path@) == Some(e@),
            None => extension_of(path@) is None,
        },
{
    let name = str_after_last(path, "/");
    if str_equals(name.as_str(), "..") {
        return None;
    }
    let chars = chars_of(name.as_str());
    let dot: [char; 1] = ['.'];
    assert(dot@ == "."@) by {
        reveal_strlit(".");
    }
    match crate::text::find_last(chars.as_slice(), dot.as_slice()) {
        None => None,
        Some(i) => {
            if i == 0 {
                None
            } else {
                proof {
                    crate::text::lemma_last_occurrence_before(name@, "."@, name@.len() + 1int);
                }
                let mut ext: Vec<char> = Vec::new();
                let n = chars.len();
                let mut j = i + 1;
                while j < n
                    invariant
                        i + 1 <= j <= n,
                        n == chars@.len(),
                        chars@ == name@,
                        ext@ == name@.subrange(i + 1, j as int),
                    decreases n - j,
                {
                    ext.push(chars[j]);
                    j = j + 1;
                    assert(ext@ =~= name@.subrange(i + 1, j as int));
                }
                Some(crate::text::string_from_chars(ext.as_slice()))
            }
        },
    }
}

/// The language of the file at `path`, by its extension.
pub fn language_for_path(path: &str) -> (r: Option<SupportedLanguage>)
    ensures
        r == language_for_path_spec(path@),
{
    match file_extension(path) {
        Some(ext) => get_language_for_extension(ext.as_str()),
        None => None,
    }
}

/// The language of a script without an extension, by its `#!` line.
pub fn script_language(source: &str) -> (r: Option<SupportedLanguage>)
    ensures
        r == shebang_language_spec(nth_line(source@, 0)),
{
    let chars = chars_of(source);
    let first = line_at(chars.as_slice(), 0);
    shebang_language(first.as_slice())
}

/// The language of the file at `path` whose text is `source`.
pub fn language_for_file(path: &str, source: &str) -> (r: Option<SupportedLanguage>)
    ensures
        r == language_for_file_spec(path@, source@),
{
    match file_extension(path) {
        Some(ext) => get_language_for_extension(ext.as_str()),
        None => script_language(source),
    }
}

/// Whether the file at `path` has no extension, so that only its text can
/// tell its language.
pub fn has_no_extension(path: &str) -> (r: bool)
    ensures
        r == extension_of(path@) is None,
{
    file_extension(path).is_none()
}

/// Whether the file at `path` is in one of the supported languages.
pub fn is_supported_path(path: &str) -> (r: bool)
    ensures
        r == language_for_path_spec(path@) is Some,
{
    language_for_path(path).is_some()
}

// ---------------------------------------------------------------------------
// The files that git lists
// ---------------------------------------------------------------------------

/// A line ended by `\n`, without a `\r` before that `\n`.
pub open spec fn without_cr(line: Seq<char>) -> Seq<char> {
    if line.len() > 0 && line.last() == '\r' {
        line.drop_last()
    } else {
        line
    }
}

/// The lines of `s` from index `from` on, as `str::lines` gives them: split at
/// `\n`, a `\r` before a `\n` dropped, no empty line after a final `\n`.
pub open spec fn lines_from(s: Seq<char>, from: int) -> Seq<Seq<char>>
    decreases s.len() - from,
{
    if from < 0 || from >= s.len() {
        seq![]
    } else {
        let k = first_occurrence_from(s, seq!['\n'], from);
        if k < 0 {
            seq![s.subrange(from, s.len() as int)]
        } else {
            proof {
                lemma_first_occurrence_from(s, seq!['\n'], from);
            }
            seq![without_cr(s.subrange(from, k))] + lines_from(s, k + 1)
        }
    }
}

/// The lines of `s`.
pub open spec fn lines_of(s: Seq<char>) -> Seq<Seq<char>> {
    lines_from(s, 0)
}

/// The paths of a listing that may be analysed: those in a supported language
/// by their extension, then those without an extension, whose `#!` line
/// decides.
pub open spec fn listed_candidates(listing: Seq<char>) -> (Seq<Seq<char>>, Seq<Seq<char>>) {
    (
        lines_of(listing).filter(|l: Seq<char>| language_for_path_spec(l) is Some),
        lines_of(listing).filter(|l: Seq<char>| extension_of(l) is None),
    )
}

/// The views of strings.
pub open spec fn paths_view(paths: Seq<String>) -> Seq<Seq<char>> {
    paths.map_values(|p: String| p@)
}

/// The paths in the output of `git ls-files` (one per line) that may be
/// analysed: those in a supported language by their extension, and those
/// without an extension, whose `#!` line decides.
pub fn listed_paths(listing: &str) -> (r: (Vec<String>, Vec<String>))
    ensures
        (paths_view(r.0@), paths_view(r.1@)) == listed_candidates(listing@),
{
    let chars = chars_of(listing);
    let n = chars.len();
    let newline: [char; 1] = ['\n'];
    assert(newline@ == seq!['\n']);
    let ghost s = listing@;
    let ghost supported_pred = |l: Seq<char>| language_for_path_spec(l) is Some;
    let ghost bare_pred = |l: Seq<char>| extension_of(l) is None;
    let ghost mut done: Seq<Seq<char>> = seq![];
    let mut supported: Vec<String> = Vec::new();
    let mut bare: Vec<String> = Vec::new();
    let mut pos: usize = 0;
    while pos < n
        invariant
            n == chars@.len(),
            chars@ == s,
            s == listing@,
            newline@ == seq!['\n'],
            pos <= n,
            done + lines_from(s, pos as int) == lines_of(s),
            supported_pred == (|l: Seq<char>| language_for_path_spec(l) is Some),
            bare_pred == (|l: Seq<char>| extension_of(l) is None),
            paths_view(supported@) == done.filter(supported_pred),
            paths_view(bare@) == done.filter(bare_pred),
        decreases n - pos,
    {
        proof {
            lemma_first_occurrence_from(s, seq!['\n'], pos as int);
        }
        let (line, next) = match find_from(chars.as_slice(), newline.as_slice(), pos) {
            Some(k) => {
                let mut end = k;
                if end > pos && chars[end - 1] == '\r' {
                    end = end - 1;
                }
                let mut w: Vec<char> = Vec::new();
                let mut m = pos;
                while m < end
                    invariant
                        pos <= m <= end <= k < n,
                        n == chars@.len(),
                        w@ == chars@.subrange(pos as int, m as int),
                    decreases end - m,
                {
                    w.push(chars[m]);
                    m = m + 1;
                }
                proof {
                    assert(w@ == without_cr(s.subrange(pos as int, k as int))) by {
                        if k > pos && s[k - 1] == '\r' {
                            assert(s.subrange(pos as int, k as int).drop_last() =~= w@);
                        } else {
                            assert(s.subrange(pos as int, k as int) =~= w@);
                        }
                    }
                }
                (w, k + 1)
            },
            None => {
                let mut w: Vec<char> = Vec::new();
                let mut m = pos;
                while m < n
                    invariant
                        pos <= m <= n,
                        n == chars@.len(),
                        w@ == chars@.subrange(pos as int, m as int),
                    decreases n - m,
                {
                    w.push(chars[m]);
                    m = m + 1;
                }
                (w, n)
            },
        };
        let path = crate::text::string_from_chars(line.as_slice());
        proof {
            assert(lines_from(s, pos as int) == seq![path@] + lines_from(s, next as int));
            assert(done.push(path@) + lines_from(s, next as int) =~= done + lines_from(
                s,
                pos as int,
            ));
            reveal_with_fuel(Seq::filter, 1);
            assert(done.push(path@).drop_last() =~= done);
            assert(done.push(path@).filter(supported_pred) == if supported_pred(path@) {
                done.filter(supported_pred).push(path@)
            } else {
                done.filter(supported_pred)
            });
            assert(done.push(path@).filter(bare_pred) == if bare_pred(path@) {
                done.filter(bare_pred).push(path@)
            } else {
                done.filter(bare_pred)
            });
        }
        let ghost path_view = path@;
        let ghost before_supported = supported@;
        let ghost before_bare = bare@;
        if is_supported_path(path.as_str()) {
            supported.push(path.clone());
            assert(paths_view(supported@) =~= paths_view(before_supported).push(path@));
        }
        if has_no_extension(path.as_str()) {
            bare.push(path);
            assert(paths_view(bare@) =~= paths_view(before_bare).push(path@));
        }
        proof {
            done = done.push(path_view);
        }
        pos = next;
    }
    assert(done =~= lines_of(s));
    (supported, bare)
}

// ---------------------------------------------------------------------------
// Ordering findings
// ---------------------------------------------------------------------------

/// `a` comes before `b`: by file path, then by line.
pub open spec fn location_less(a: Definition, b: Definition) -> bool {
    seq_less(a.file@, b.file@) || (a.file@ == b.file@ && a.line < b.line)
}

/// `a` and `b` are at the same file and line.
pub open spec fn same_location(a: Definition, b: Definition) -> bool {
    a.file@ == b.file@ && a.line == b.line
}

/// `out` is `input` stably sorted by location: `perm` maps each position of
/// `out` to the position in `input` of the same definition, one to one; `out`
/// never has a later location before an earlier one; and definitions at the
/// same location keep their input order.
pub open spec fn stably_sorted_by_location(
    input: Seq<Definition>,
    out: Seq<Definition>,
    perm: Seq<int>,
) -> bool {
    &&& out.len() == input.len()
    &&& perm.len() == out.len()
    &&& forall|k: int| 0 <= k < out.len() ==> 0 <= #[trigger] perm[k] < input.len()
    &&& forall|k: int| 0 <= k < out.len() ==> #[trigger] out[k] == input[perm[k]]
    &&& forall|a: int, b: int| 0 <= a < b < out.len() ==> perm[a] != perm[b]
    &&& forall|a: int, b: int|
        0 <= a < b < out.len() ==> !location_less(#[trigger] out[b], #[trigger] out[a])
    &&& forall|a: int, b: int|
        0 <= a < b < out.len() && same_location(#[trigger] out[a], #[trigger] out[b]) ==> perm[a]
            < perm[b]
}

pub proof fn lemma_seq_less_transitive(a: Seq<char>, b: Seq<char>, c: Seq<char>)
    requires
        seq_less(a, b),
        seq_less(b, c),
    ensures
        seq_less(a, c),
    decreases a.len(),
{
    if a.len() > 0 && b.len() > 0 && c.len() > 0 && a[0] == b[0] && b[0] == c[0] {
        lemma_seq_less_transitive(a.drop_first(), b.drop_first(), c.drop_first());
    }
}

pub proof fn lemma_seq_less_irreflexive(a: Seq<char>)
    ensures
        !seq_less(a, a),
    decreases a.len(),
{
    if a.len() > 0 {
        lemma_seq_less_irreflexive(a.drop_first());
    }
}

pub proof fn lemma_location_less_transitive(a: Definition, b: Definition, c: Definition)
    requires
        location_less(a, b),
        location_less(b, c),
    ensures
        location_less(a, c),
{
    if seq_less(a.file@, b.file@) && seq_less(b.file@, c.file@) {
        lemma_seq_less_transitive(a.file@, b.file@, c.file@);
    }
}

/// Whether `a` comes before `b` by location.
fn is_location_less(a: &Definition, b: &Definition) -> (r: bool)
    ensures
        r == location_less(*a, *b),
{
    let af = chars_of(a.file.as_str());
    let bf = chars_of(b.file.as_str());
    if chars_less(af.as_slice(), bf.as_slice()) {
        true
    } else {
        str_equals(a.file.as_str(), b.file.as_str()) && a.line < b.line
    }
}

/// The definitions stably sorted by file path, then line.
pub fn sort_by_location(defs: Vec<Definition>) -> (r: Vec<Definition>)
    ensures
        exists|perm: Seq<int>| stably_sorted_by_location(defs@, r@, perm),
{
    let mut out: Vec<Definition> = Vec::new();
    let ghost mut perm: Seq<int> = Seq::empty();
    let mut input = defs;
    let ghost given = input@;
    let mut rest: Vec<Definition> = Vec::new();
    // Move the definitions out in reverse, so that popping yields input order.
    while input.len() > 0
        invariant
            rest@ + input@.reverse() == given.reverse(),
        decreases input.len(),
    {
        let ghost before = input@;
        let d = input.pop().unwrap();
        rest.push(d);
        proof {
            assert(before == input@.push(d));
            assert(before.reverse() =~= seq![d] + input@.reverse());
        }
    }
    assert(input@.reverse() =~= Seq::<Definition>::empty());
    assert(rest@ =~= given.reverse());
    let total = rest.len();
    while rest.len() > 0
        invariant
            total == given.len(),
            rest@.len() <= total,
            rest@ == given.reverse().subrange(0, rest@.len() as int),
            stably_sorted_by_location(
                given.subrange(0, total - rest@.len()),
                out@,
                perm,
            ),
        decreases rest.len(),
    {
        let i = total - rest.len();
        let ghost prefix = given.subrange(0, i as int);
        let d = rest.pop().unwrap();
        proof {
            assert(d == given.reverse()[rest@.len() as int]);
            assert(d == given[i as int]);
        }
        let mut k: usize = 0;
        loop
            invariant_except_break
                k <= out@.len(),
                forall|a: int| 0 <= a < k ==> !location_less(d, #[trigger] out@[a]),
            ensures
                k <= out@.len(),
                forall|a: int| 0 <= a < k ==> !location_less(d, #[trigger] out@[a]),
                k < out@.len() ==> location_less(d, out@[k as int]),
            decreases out.len() - k,
        {
            if k >= out.len() {
                break;
            }
            if is_location_less(&d, &out[k]) {
                break;
            }
            k = k + 1;
        }
        let ghost old_out = out@;
        let ghost old_perm = perm;
        out.insert(k, d);
        proof {
            perm = old_perm.insert(k as int, i as int);
            let next = given.subrange(0, i + 1);
            assert(next =~= prefix.push(d));
            assert forall|q: int| 0 <= q < out@.len() implies #[trigger] out@[q] == next[perm[q]] by {
                if q < k {
                    assert(out@[q] == old_out[q]);
                } else if q > k {
                    assert(out@[q] == old_out[q - 1]);
                }
            }
            assert forall|a: int, b: int| 0 <= a < b < out@.len() implies perm[a] != perm[b] by {
                if a < k && b > k {
                    assert(old_perm[b - 1] < i);
                } else if a == k {
                    assert(old_perm[b - 1] < i);
                } else if b == k {
                    assert(old_perm[a] < i);
                }
            }
            assert forall|a: int, b: int|
                0 <= a < b < out@.len() implies !location_less(
                #[trigger] out@[b],
                #[trigger] out@[a],
            ) by {
                if b == k {
                    assert(out@[a] == old_out[a]);
                } else if a == k {
                    assert(out@[a] == d);
                    assert(location_less(d, old_out[k as int]));
                    assert(out@[b] == old_out[b - 1]);
                    if b - 1 > k {
                        assert(!location_less(old_out[b - 1], old_out[k as int]));
                    } else {
                        lemma_seq_less_irreflexive(old_out[k as int].file@);
                        assert(!location_less(old_out[b - 1], old_out[k as int]));
                    }
                    if location_less(old_out[b - 1], d) {
                        lemma_location_less_transitive(old_out[b - 1], d, old_out[k as int]);
                    }
                } else {
                    let oa = if a < k {
                        a
                    } else {
                        a - 1
                    };
                    let ob = if b < k {
                        b
                    } else {
                        b - 1
                    };
                    assert(out@[a] == old_out[oa]);
                    assert(out@[b] == old_out[ob]);
                }
            }
            assert forall|a: int, b: int|
                0 <= a < b < out@.len() && same_location(
                    #[trigger] out@[a],
                    #[trigger] out@[b],
                ) implies perm[a] < perm[b] by {
                if b == k {
                    assert(old_perm[a] < i);
                } else if a == k {
                    assert(out@[a] == d);
                    assert(location_less(d, old_out[k as int]));
                    assert(out@[b] == old_out[b - 1]);
                    if b - 1 > k {
                        assert(!location_less(old_out[b - 1], old_out[k as int]));
                    } else {
                        lemma_seq_less_irreflexive(old_out[k as int].file@);
                    }
                    assert(location_less(old_out[b - 1], old_out[k as int]));
                } else {
                    let oa = if a < k {
                        a
                    } else {
                        a - 1
                    };
                    let ob = if b < k {
                        b
                    } else {
                        b - 1
                    };
                    assert(out@[a] == old_out[oa]);
                    assert(out@[b] == old_out[ob]);
                }
            }
            assert(rest@ =~= given.reverse().subrange(0, rest@.len() as int));
        }
    }
    assert(given.subrange(0, total as int) =~= given);
    out
}

// ---------------------------------------------------------------------------
// The whole project
// ---------------------------------------------------------------------------

/// A file of the project and its text.
pub struct SourceFile {
    pub path: String,
    pub source: String,
}

/// The part of a file's analysis that failed.
#[derive(Debug, PartialEq, Eq, Structural)]
pub enum Phase {
    Definitions,
    References,
}

/// A file that could not be analysed in full.
pub struct Warning {
    pub file: String,
    pub phase: Phase,
    pub error: SyntaxError,
}

/// What the analysis of a project finds.
pub struct ProjectAnalysis {
    /// The definitions found in the files that are not test files, file by file.
    pub definitions: Vec<Definition>,
    /// How often each name is referenced in all files, test files included.
    pub references: ReferenceCounts,
    /// The dead definitions, sorted by file and line.
    pub dead_code: Vec<Definition>,
    /// The files that could not be parsed or queried.
    pub warnings: Vec<Warning>,
}

/// `path` is the path of one of `files` in a supported language, and not of a
/// test file of that language.
pub open spec fn analysed_source_file(files: Seq<SourceFile>, path: Seq<char>) -> bool {
    exists|j: int|
        0 <= j < files.len() && (#[trigger] files[j]).path@ == path && match language_for_file_spec(
            files[j].path@,
            files[j].source@,
        ) {
            Some(lang) => !lang.spec_is_test_file(path),
            None => false,
        }
}

/// What the analysis takes from one file: its definitions, its references,
/// and why extracting either of them failed, if it did.
pub ghost struct FileFindings {
    pub definitions: Seq<DefinitionView>,
    pub references: Seq<Seq<char>>,
    pub definitions_failure: Option<SyntaxError>,
    pub references_failure: Option<SyntaxError>,
}

/// The warnings that the findings `p` of the file at `path` give, in order.
pub open spec fn file_warnings(path: Seq<char>, p: FileFindings) -> Seq<
    (Seq<char>, Phase, SyntaxError),
> {
    (match p.definitions_failure {
        Some(e) => seq![(path, Phase::Definitions, e)],
        None => seq![],
    }) + (match p.references_failure {
        Some(e) => seq![(path, Phase::References, e)],
        None => seq![],
    })
}

/// `p` is what the analysis takes from `f`: nothing from a file in no
/// supported language; else the file's definitions, unless it is a test file
/// of its language, and its references, test file or not. A part whose
/// extraction fails (the grammar is not accepted, or the query does not
/// compile) is empty and gives a warning.
pub open spec fn file_findings(f: SourceFile, include_public: bool, p: FileFindings) -> bool {
    match language_for_file_spec(f.path@, f.source@) {
        None => {
            &&& p.definitions.len() == 0 && p.definitions_failure is None
            &&& p.references.len() == 0 && p.references_failure is None
        },
        Some(lang) => {
            &&& if lang.spec_is_test_file(f.path@) {
                p.definitions.len() == 0 && p.definitions_failure is None
            } else {
                &&& p.definitions_failure == extraction_error(
                    lang.spec_grammar(),
                    lang.spec_definitions_query(),
                )
                &&& p.definitions == if p.definitions_failure is Some {
                    Seq::<DefinitionView>::empty()
                } else {
                    file_definitions(f.path@, f.source@, lang, include_public)
                }
            }
            &&& p.references_failure == extraction_error(
                lang.spec_grammar(),
                lang.spec_references_query(),
            )
            &&& p.references == if p.references_failure is Some {
                Seq::<Seq<char>>::empty()
            } else {
                file_references(f.source@, lang)
            }
        },
    }
}

/// The files, phases and errors of a sequence of warnings.
pub open spec fn warnings_view(ws: Seq<Warning>) -> Seq<(Seq<char>, Phase, SyntaxError)> {
    ws.map_values(|w: Warning| (w.file@, w.phase, w.error))
}

/// The definitions of all findings, file after file.
pub open spec fn all_definitions(parts: Seq<FileFindings>) -> Seq<DefinitionView> {
    parts.map_values(|p: FileFindings| p.definitions).flatten_alt()
}

/// The references of all findings, file after file.
pub open spec fn all_references(parts: Seq<FileFindings>) -> Seq<Seq<char>> {
    parts.map_values(|p: FileFindings| p.references).flatten_alt()
}

/// The warnings of all findings, file after file.
pub open spec fn all_warnings(files: Seq<SourceFile>, parts: Seq<FileFindings>) -> Seq<
    (Seq<char>, Phase, SyntaxError),
> {
    Seq::new(parts.len(), |i: int| file_warnings(files[i].path@, parts[i])).flatten_alt()
}

/// The analysis `r` of `files` is made of `parts`, the findings of each file:
/// its definitions are theirs, its reference counts count their references,
/// and its warnings are theirs.
pub open spec fn made_of(
    files: Seq<SourceFile>,
    include_public: bool,
    parts: Seq<FileFindings>,
    r: ProjectAnalysis,
) -> bool {
    &&& parts.len() == files.len()
    &&& forall|i: int|
        #![trigger parts[i]]
        0 <= i < files.len() ==> file_findings(files[i], include_public, parts[i])
    &&& definitions_view(r.definitions@) == all_definitions(parts)
    &&& forall|name: Seq<char>|
        #[trigger] count_in(r.references@, name) == count_of(all_references(parts), name)
    &&& warnings_view(r.warnings@) == all_warnings(files, parts)
}

proof fn lemma_flatten_alt_push<A>(xs: Seq<Seq<A>>, y: Seq<A>)
    ensures
        xs.push(y).flatten_alt() == xs.flatten_alt() + y,
{
    assert(xs.push(y).drop_last() =~= xs);
}

proof fn lemma_findings_push(files: Seq<SourceFile>, parts: Seq<FileFindings>, p: FileFindings)
    requires
        parts.len() < files.len(),
    ensures
        all_definitions(parts.push(p)) == all_definitions(parts) + p.definitions,
        all_references(parts.push(p)) == all_references(parts) + p.references,
        all_warnings(files, parts.push(p)) == all_warnings(files, parts) + file_warnings(
            files[parts.len() as int].path@,
            p,
        ),
{
    let n = parts.len() as int;
    assert(parts.push(p).map_values(|q: FileFindings| q.definitions) =~= parts.map_values(
        |q: FileFindings| q.definitions,
    ).push(p.definitions));
    lemma_flatten_alt_push(parts.map_values(|q: FileFindings| q.definitions), p.definitions);
    assert(parts.push(p).map_values(|q: FileFindings| q.references) =~= parts.map_values(
        |q: FileFindings| q.references,
    ).push(p.references));
    lemma_flatten_alt_push(parts.map_values(|q: FileFindings| q.references), p.references);
    let before = Seq::new(parts.len(), |i: int| file_warnings(files[i].path@, parts[i]));
    let after = Seq::new(
        parts.push(p).len(),
        |i: int| file_warnings(files[i].path@, parts.push(p)[i]),
    );
    assert(after =~= before.push(file_warnings(files[n].path@, p)));
    lemma_flatten_alt_push(before, file_warnings(files[n].path@, p));
}

pub proof fn lemma_definitions_of_file<L: LanguageSupport>(
    tree: crate::syntax::TreeView,
    captures: Seq<(int, Seq<char>)>,
    path: Seq<char>,
    source: Seq<char>,
    lang: L,
    include_public: bool,
)
    ensures
        forall|k: int|
            0 <= k < crate::symbols::definitions_of(
                tree,
                captures,
                path,
                source,
                lang,
                include_public,
            ).len() ==> (#[trigger] crate::symbols::definitions_of(
                tree,
                captures,
                path,
                source,
                lang,
                include_public,
            )[k]).file == path,
    decreases captures.len(),
{
    if captures.len() > 0 {
        lemma_definitions_of_file(tree, captures.drop_last(), path, source, lang, include_public);
        let earlier = crate::symbols::definitions_of(
            tree,
            captures.drop_last(),
            path,
            source,
            lang,
            include_public,
        );
        match crate::symbols::definition_of(tree, captures.last(), path, source, lang, include_public) {
            Some(d) => {
                assert(d.file == path);
                assert(forall|k: int| 0 <= k < earlier.len() ==> #[trigger] earlier.push(d)[k] == earlier[k]);
            },
            None => {},
        }
    }
}

/// Copies of definitions.
fn copy_definitions(defs: &Vec<Definition>) -> (r: Vec<Definition>)
    ensures
        r@ == defs@,
{
    let mut r: Vec<Definition> = Vec::new();
    for i in 0..defs.len()
        invariant
            r@ == defs@.take(i as int),
    {
        r.push(crate::analysis::copy_definition(&defs[i]));
        assert(r@ =~= defs@.take(i + 1));
    }
    assert(defs@.take(defs@.len() as int) =~= defs@);
    r
}

/// Analyses the files of a project: the definitions of each file in a
/// supported language that is not one of its test files, against the
/// references of all files in supported languages. The dead definitions come
/// sorted by file and line.
pub fn analyze_project(files: &Vec<SourceFile>, include_public: bool) -> (r: ProjectAnalysis)
    ensures
        exists|parts: Seq<FileFindings>| made_of(files@, include_public, parts, r),
        exists|perm: Seq<int>|
            stably_sorted_by_location(
                dead_code_of(r.definitions@, r.references@),
                r.dead_code@,
                perm,
            ),
        forall|k: int|
            0 <= k < r.definitions@.len() ==> analysed_source_file(
                files@,
                (#[trigger] r.definitions@[k]).file@,
            ),
        forall|k: int|
            0 <= k < r.dead_code@.len() ==> analysed_source_file(
                files@,
                (#[trigger] r.dead_code@[k]).file@,
            ),
{
    let mut definitions: Vec<Definition> = Vec::new();
    let mut references: Vec<Reference> = Vec::new();
    let mut warnings: Vec<Warning> = Vec::new();
    let ghost mut parts: Seq<FileFindings> = Seq::empty();
    for i in 0..files.len()
        invariant
            parts.len() == i,
            forall|j: int|
                #![trigger parts[j]]
                0 <= j < i ==> file_findings(files@[j], include_public, parts[j]),
            definitions_view(definitions@) == all_definitions(parts),
            references_view(references@) == all_references(parts),
            warnings_view(warnings@) == all_warnings(files@, parts),
            forall|k: int|
                0 <= k < definitions@.len() ==> analysed_source_file(
                    files@,
                    (#[trigger] definitions@[k]).file@,
                ),
    {
        let file = &files[i];
        let ghost mut found_definitions: Seq<DefinitionView> = Seq::empty();
        let ghost mut found_references: Seq<Seq<char>> = Seq::empty();
        let ghost mut definitions_failure: Option<SyntaxError> = None;
        let ghost mut references_failure: Option<SyntaxError> = None;
        let ghost definitions_before = definitions@;
        let ghost references_before = references@;
        let ghost warnings_before = warnings@;
        if let Some(lang) = language_for_file(file.path.as_str(), file.source.as_str()) {
            let path: &str = file.path.as_str();
            let source: &str = file.source.as_str();
            if !lang.is_test_file(path) {
                match extract_definitions(path, source, &lang, include_public) {
                    Ok(mut defs) => {
                        proof {
                            found_definitions = definitions_view(defs@);
                            lemma_definitions_of_file(
                                crate::syntax::parsed_tree(lang.spec_grammar(), source@),
                                crate::syntax::parsed_captures(
                                    lang.spec_grammar(),
                                    lang.spec_definitions_query(),
                                    source@,
                                ),
                                path@,
                                source@,
                                lang,
                                include_public,
                            );
                            assert forall|k: int| 0 <= k < defs@.len() implies analysed_source_file(
                                files@,
                                (#[trigger] defs@[k]).file@,
                            ) by {
                                assert(definitions_view(defs@)[k] == defs@[k]@);
                                assert(files@[i as int].path@ == defs@[k].file@);
                            }
                        }
                        let ghost added = defs@;
                        definitions.append(&mut defs);
                        proof {
                            assert(definitions@ =~= definitions_before + added);
                            assert(definitions_view(definitions@) =~= definitions_view(
                                definitions_before,
                            ) + definitions_view(added));
                            assert forall|k: int|
                                0 <= k < definitions@.len() implies analysed_source_file(
                                files@,
                                (#[trigger] definitions@[k]).file@,
                            ) by {
                                if k >= definitions_before.len() {
                                    assert(definitions@[k] == added[k - definitions_before.len()]);
                                }
                            }
                        }
                    },
                    Err(error) => {
                        proof {
                            definitions_failure = Some(error);
                        }
                        warnings.push(
                            Warning { file: file.path.clone(), phase: Phase::Definitions, error },
                        );
                    },
                }
            }
            match extract_references(source, &lang) {
                Ok(mut refs) => {
                    proof {
                        found_references = references_view(refs@);
                    }
                    let ghost added = refs@;
                    references.append(&mut refs);
                    proof {
                        assert(references@ =~= references_before + added);
                        assert(references_view(references@) =~= references_view(references_before)
                            + references_view(added));
                    }
                },
                Err(error) => {
                    proof {
                        references_failure = Some(error);
                    }
                    warnings.push(
                        Warning { file: file.path.clone(), phase: Phase::References, error },
                    );
                },
            }
        }
        let ghost p = FileFindings {
            definitions: found_definitions,
            references: found_references,
            definitions_failure,
            references_failure,
        };
        proof {
            lemma_findings_push(files@, parts, p);
            assert(warnings_view(warnings@) =~= warnings_view(warnings_before) + file_warnings(
                files@[i as int].path@,
                p,
            ));
            parts = parts.push(p);
        }
    }
    let counts = ReferenceCounts::from_references(&references);
    let AnalysisResult { dead_code } = find_dead_code(copy_definitions(&definitions), &counts);
    proof {
        assert forall|k: int| 0 <= k < dead_code@.len() implies definitions@.contains(
            #[trigger] dead_code@[k],
        ) by {
            crate::analysis::law_reported_exactly_when_unreferenced(definitions@, counts@, dead_code@[k]);
        }
    }
    let sorted = sort_by_location(dead_code);
    proof {
        let perm = choose|perm: Seq<int>| stably_sorted_by_location(dead_code@, sorted@, perm);
        assert forall|k: int| 0 <= k < sorted@.len() implies analysed_source_file(
            files@,
            (#[trigger] sorted@[k]).file@,
        ) by {
            assert(sorted@[k] == dead_code@[perm[k]]);
            assert(definitions@.contains(dead_code@[perm[k]]));
        }
    }
    let ghost perm = choose|perm: Seq<int>| stably_sorted_by_location(dead_code@, sorted@, perm);
    let r = ProjectAnalysis { definitions, references: counts, dead_code: sorted, warnings };
    assert(stably_sorted_by_location(dead_code_of(r.definitions@, r.references@), r.dead_code@, perm));
    assert(made_of(files@, include_public, parts, r));
    r
}

// ---------------------------------------------------------------------------
// Labels
// ---------------------------------------------------------------------------

/// The short label of a definition kind in the report (`fn`, `struct`, ...);
/// kinds without one are shown as they are.
pub open spec fn kind_label_spec(kind: Seq<char>) -> Seq<char> {
    if kind == "function_item"@ || kind == "function_definition"@ || kind
        == "function_declaration"@ || kind == "generator_function_declaration"@ || kind
        == "method_declaration"@ {
        "fn"@
    } else if kind == "struct_item"@ || kind == "struct_declaration"@ {
        "struct"@
    } else if kind == "enum_item"@ || kind == "enum_declaration"@ {
        "enum"@
    } else if kind == "const_item"@ || kind == "const_spec"@ {
        "const"@
    } else if kind == "static_item"@ {
        "static"@
    } else if kind == "mod_item"@ {
        "mod"@
    } else if kind == "class_definition"@ || kind == "class_declaration"@ || kind
        == "abstract_class_declaration"@ {
        "class"@
    } else if kind == "interface_declaration"@ {
        "interface"@
    } else if kind == "type_alias_declaration"@ || kind == "type_spec"@ || kind == "type_alias"@ {
        "type"@
    } else if kind == "record_declaration"@ {
        "record"@
    } else if kind == "annotation_type_declaration"@ {
        "annotation"@
    } else if kind == "property_declaration"@ {
        "prop"@
    } else if kind == "assignment"@ || kind == "variable_declarator"@ || kind == "var_spec"@ {
        "var"@
    } else {
        kind
    }
}

/// The short label of a definition kind in the report.
pub fn kind_label(kind: &str) -> (r: String)
    ensures
        r@ == kind_label_spec(kind@),
{
    let label = if str_equals(kind, "function_item") || str_equals(kind, "function_definition")
        || str_equals(kind, "function_declaration") || str_equals(
        kind,
        "generator_function_declaration",
    ) || str_equals(kind, "method_declaration") {
        "fn"
    } else if str_equals(kind, "struct_item") || str_equals(kind, "struct_declaration") {
        "struct"
    } else if str_equals(kind, "enum_item") || str_equals(kind, "enum_declaration") {
        "enum"
    } else if str_equals(kind, "const_item") || str_equals(kind, "const_spec") {
        "const"
    } else if str_equals(kind, "static_item") {
        "static"
    } else if str_equals(kind, "mod_item") {
        "mod"
    } else if str_equals(kind, "class_definition") || str_equals(kind, "class_declaration")
        || str_equals(kind, "abstract_class_declaration") {
        "class"
    } else if str_equals(kind, "interface_declaration") {
        "interface"
    } else if str_equals(kind, "type_alias_declaration") || str_equals(kind, "type_spec")
        || str_equals(kind, "type_alias") {
        "type"
    } else if str_equals(kind, "record_declaration") {
        "record"
    } else if str_equals(kind, "annotation_type_declaration") {
        "annotation"
    } else if str_equals(kind, "property_declaration") {
        "prop"
    } else if str_equals(kind, "assignment") || str_equals(kind, "variable_declarator")
        || str_equals(kind, "var_spec") {
        "var"
    } else {
        kind
    };
    label.to_owned()
}

} // verus!

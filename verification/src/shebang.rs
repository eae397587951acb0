//! The language of an extensionless script, by the program its `#!` line runs.
use vstd::prelude::*;
use crate::languages::bash::BashLanguage;
use crate::languages::javascript::JavaScriptLanguage;
use crate::languages::lua::LuaLanguage;
use crate::languages::php::PhpLanguage;
use crate::languages::python::PythonLanguage;
use crate::languages::ruby::RubyLanguage;
use crate::languages::SupportedLanguage;
use crate::text::{after_last, has_infix, has_prefix, str_after_last, str_contains, str_equals, str_starts_with, string_from_chars};

verus! {

broadcast use vstd::seq_lib::group_seq_properties;

/// Characters that separate the words of a `#!` line.
pub open spec fn is_blank(c: char) -> bool {
    c == ' ' || c == '\t' || c == '\r'
}

/// The length of the word that `s` starts with.
pub open spec fn word_len(s: Seq<char>) -> nat
    decreases s.len(),
{
    if s.len() > 0 && !is_blank(s[0]) {
        1 + word_len(s.drop_first())
    } else {
        0
    }
}

pub proof fn lemma_word_len_bound(s: Seq<char>)
    ensures
        word_len(s) <= s.len(),
    decreases s.len(),
{
    if s.len() > 0 && !is_blank(s[0]) {
        lemma_word_len_bound(s.drop_first());
    }
}

/// The blank-separated words of `s`, in order.
pub open spec fn words(s: Seq<char>) -> Seq<Seq<char>>
    decreases s.len(),
{
    if s.len() == 0 {
        seq![]
    } else if is_blank(s[0]) {
        words(s.drop_first())
    } else {
        proof {
            lemma_word_len_bound(s);
        }
        seq![s.take(word_len(s) as int)] + words(s.skip(word_len(s) as int))
    }
}

/// The program that `env` runs: the first of its arguments that is neither an
/// option (`-S`) nor an assignment (`VAR=value`).
pub open spec fn env_program(args: Seq<Seq<char>>) -> Option<Seq<char>>
    decreases args.len(),
{
    if args.len() == 0 {
        None
    } else if has_prefix(args[0], "-"@) || has_infix(args[0], "="@) {
        env_program(args.drop_first())
    } else {
        Some(args[0])
    }
}

/// The name of the program that a `#!` line runs: the file name of its first
/// word, or, where that is `env`, of the program `env` runs.
pub open spec fn shebang_program(line: Seq<char>) -> Option<Seq<char>> {
    if !has_prefix(line, "#!"@) {
        None
    } else {
        let ws = words(line.skip(2));
        if ws.len() == 0 {
            None
        } else if after_last(ws[0], "/"@) == "env"@ {
            match env_program(ws.drop_first()) {
                Some(p) => Some(after_last(p, "/"@)),
                None => None,
            }
        } else {
            Some(after_last(ws[0], "/"@))
        }
    }
}

/// The language of scripts that the program `name` runs (`python3`, `bash`,
/// `sh`, `ruby`, `node`, `lua5.4`, `php`, ...).
pub open spec fn program_language(name: Seq<char>) -> Option<SupportedLanguage> {
    if has_prefix(name, "python"@) {
        Some(SupportedLanguage::Python(PythonLanguage))
    } else if name == "bash"@ || name == "sh"@ {
        Some(SupportedLanguage::Bash(BashLanguage))
    } else if has_prefix(name, "ruby"@) {
        Some(SupportedLanguage::Ruby(RubyLanguage))
    } else if name == "node"@ || name == "nodejs"@ {
        Some(SupportedLanguage::JavaScript(JavaScriptLanguage))
    } else if has_prefix(name, "lua"@) {
        Some(SupportedLanguage::Lua(LuaLanguage))
    } else if has_prefix(name, "php"@) {
        Some(SupportedLanguage::Php(PhpLanguage))
    } else {
        None
    }
}

/// The language of a script whose first line is `line`.
pub open spec fn shebang_language_spec(line: Seq<char>) -> Option<SupportedLanguage> {
    match shebang_program(line) {
        Some(p) => program_language(p),
        None => None,
    }
}

/// Whether `c` separates words.
fn blank(c: char) -> (r: bool)
    ensures
        r == is_blank(c),
{
    c == ' ' || c == '\t' || c == '\r'
}

/// The blank-separated words of `s`.
fn split_words(s: &[char]) -> (r: Vec<String>)
    ensures
        r@.map_values(|w: String| w@) == words(s@),
{
    let n = s.len();
    let mut out: Vec<String> = Vec::new();
    let mut i: usize = 0;
    while i < n
        invariant
            n == s@.len(),
            i <= n,
            out@.map_values(|w: String| w@) + words(s@.subrange(i as int, n as int)) == words(s@),
        decreases n - i,
    {
        let ghost rest = s@.subrange(i as int, n as int);
        if blank(s[i]) {
            assert(rest.drop_first() =~= s@.subrange(i + 1, n as int));
            i = i + 1;
        } else {
            let mut k: usize = i;
            while k < n && !blank(s[k])
                invariant
                    i <= k <= n,
                    n == s@.len(),
                    word_len(rest) == (k - i) + word_len(s@.subrange(k as int, n as int)),
                decreases n - k,
            {
                assert(s@.subrange(k as int, n as int).drop_first() =~= s@.subrange(
                    k + 1,
                    n as int,
                ));
                k = k + 1;
            }
            assert(word_len(s@.subrange(k as int, n as int)) == 0);
            let mut w: Vec<char> = Vec::new();
            let mut m: usize = i;
            while m < k
                invariant
                    i <= m <= k <= n,
                    n == s@.len(),
                    w@ == s@.subrange(i as int, m as int),
                decreases k - m,
            {
                w.push(s[m]);
                m = m + 1;
            }
            let word = string_from_chars(w.as_slice());
            let ghost before = out@;
            out.push(word);
            proof {
                assert(rest.take(word_len(rest) as int) =~= s@.subrange(i as int, k as int));
                assert(rest.skip(word_len(rest) as int) =~= s@.subrange(k as int, n as int));
                assert(out@.map_values(|x: String| x@) =~= before.map_values(|x: String| x@).push(
                    s@.subrange(i as int, k as int),
                ));
                assert(words(rest) == seq![s@.subrange(i as int, k as int)] + words(
                    s@.subrange(k as int, n as int),
                ));
            }
            i = k;
        }
    }
    assert(out@.map_values(|w: String| w@) + words(s@.subrange(n as int, n as int))
        == out@.map_values(|w: String| w@));
    out
}

/// The language of the program `name`.
fn program_language_of(name: &str) -> (r: Option<SupportedLanguage>)
    ensures
        r == program_language(name@),
{
    if str_starts_with(name, "python") {
        Some(SupportedLanguage::Python(PythonLanguage))
    } else if str_equals(name, "bash") || str_equals(name, "sh") {
        Some(SupportedLanguage::Bash(BashLanguage))
    } else if str_starts_with(name, "ruby") {
        Some(SupportedLanguage::Ruby(RubyLanguage))
    } else if str_equals(name, "node") || str_equals(name, "nodejs") {
        Some(SupportedLanguage::JavaScript(JavaScriptLanguage))
    } else if str_starts_with(name, "lua") {
        Some(SupportedLanguage::Lua(LuaLanguage))
    } else if str_starts_with(name, "php") {
        Some(SupportedLanguage::Php(PhpLanguage))
    } else {
        None
    }
}

/// The language of a script whose first line is `line`, by the program its
/// `#!` line runs.
pub fn shebang_language(line: &[char]) -> (r: Option<SupportedLanguage>)
    ensures
        r == shebang_language_spec(line@),
{
    if line.len() < 2 || line[0] != '#' || line[1] != '!' {
        proof {
            reveal_strlit("#!");
            if line@.len() >= 2 {
                if has_prefix(line@, "#!"@) {
                    assert(line@.subrange(0, 2) == "#!"@);
                    assert(line@.subrange(0, 2)[0] == line@[0]);
                    assert(line@.subrange(0, 2)[1] == line@[1]);
                }
            }
        }
        return None;
    }
    proof {
        reveal_strlit("#!");
        assert(line@.subrange(0, 2) =~= "#!"@);
    }
    let mut tail: Vec<char> = Vec::new();
    let mut m: usize = 2;
    while m < line.len()
        invariant
            2 <= m <= line@.len(),
            tail@ == line@.subrange(2, m as int),
        decreases line@.len() - m,
    {
        tail.push(line[m]);
        m = m + 1;
    }
    assert(tail@ =~= line@.skip(2));
    let ws = split_words(tail.as_slice());
    let ghost wv = ws@.map_values(|w: String| w@);
    if ws.len() == 0 {
        return None;
    }
    assert(wv[0] == ws@[0]@);
    let first = str_after_last(ws[0].as_str(), "/");
    if str_equals(first.as_str(), "env") {
        let mut j: usize = 1;
        while j < ws.len()
            invariant
                1 <= j <= ws@.len(),
                wv == ws@.map_values(|w: String| w@),
                wv == words(line@.skip(2)),
                has_prefix(line@, "#!"@),
                after_last(wv[0], "/"@) == "env"@,
                env_program(wv.drop_first()) == env_program(wv.skip(j as int)),
            decreases ws@.len() - j,
        {
            let arg = ws[j].as_str();
            assert(wv[j as int] == arg@);
            assert(wv.skip(j as int).drop_first() =~= wv.skip(j + 1));
            assert(wv.skip(j as int)[0] == arg@);
            if !(str_starts_with(arg, "-") || str_contains(arg, "=")) {
                assert(env_program(wv.skip(j as int)) == Some(arg@));
                let program = str_after_last(arg, "/");
                return program_language_of(program.as_str());
            }
            j = j + 1;
        }
        assert(wv.skip(j as int) =~= Seq::<Seq<char>>::empty());
        None
    } else {
        program_language_of(first.as_str())
    }
}

} // verus!

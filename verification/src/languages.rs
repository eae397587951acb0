//! The languages that can be analysed, and what each contributes: a grammar,
//! the queries for definitions and references, and the rules that decide which
//! definitions are reported.
pub mod bash;
pub mod csharp;
pub mod go;
pub mod java;
pub mod javascript;
pub mod kotlin;
pub mod lua;
pub mod php;
pub mod python;
pub mod ruby;
pub mod rust;
pub mod typescript;

use vstd::prelude::*;
use vstd::string::StringSliceAdditionalSpecFns;
use tree_sitter::Language;
use crate::syntax::{GrammarId, SyntaxTree, TreeView};
use crate::text::{after_last, has_infix, has_prefix, has_suffix, str_after_last, str_contains, str_equals};
use self::bash::BashLanguage;
use self::csharp::CSharpLanguage;
use self::go::GoLanguage;
use self::java::JavaLanguage;
use self::javascript::JavaScriptLanguage;
use self::kotlin::KotlinLanguage;
use self::lua::LuaLanguage;
use self::php::PhpLanguage;
use self::python::PythonLanguage;
use self::ruby::RubyLanguage;
use self::rust::RustLanguage;
use self::typescript::TypeScriptLanguage;

verus! {

/// The views of a sequence of strings.
pub open spec fn strings_view(s: Seq<String>) -> Seq<Seq<char>> {
    s.map_values(|x: String| x@)
}

/// The test-file convention shared by most languages: the path contains
/// `test_` or `/tests/`.
pub open spec fn default_test_path(path: Seq<char>) -> bool {
    has_infix(path, "test_"@) || has_infix(path, "/tests/"@)
}

/// The file name of a `/`-separated path: what follows its last `/`.
pub open spec fn file_name(path: Seq<char>) -> Seq<char> {
    after_last(path, "/"@)
}

/// What a language contributes to the analysis.
pub trait LanguageSupport {
    /// Names that are never reported, whatever refers to them.
    spec fn spec_should_ignore(&self, name: Seq<char>) -> bool;

    /// Paths of files whose definitions are not reported (their references
    /// still count).
    spec fn spec_is_test_file(&self, path: Seq<char>) -> bool;

    /// Definitions that the language's syntax marks as used from elsewhere.
    spec fn spec_should_skip_node(&self, tree: TreeView, node: int, source: Seq<u8>) -> bool;

    /// Definitions that are public or exported.
    spec fn spec_is_public(&self, tree: TreeView, node: int, source: Seq<u8>) -> bool;

    /// The names that a reference capture with the given capture name and
    /// text stands for.
    spec fn spec_normalize_reference(&self, capture: Seq<char>, text: Seq<char>) -> Seq<
        Seq<char>,
    >;

    /// The grammar the language is parsed with.
    spec fn spec_grammar(&self) -> GrammarId;

    /// The tree-sitter grammar of [`LanguageSupport::grammar`].
    fn language(&self) -> Language;

    /// The grammar the language is parsed with.
    fn grammar(&self) -> (r: GrammarId)
        ensures
            r == self.spec_grammar(),
    ;

    /// The text of the definitions query.
    spec fn spec_definitions_query(&self) -> Seq<char>;

    /// The text of the references query.
    spec fn spec_references_query(&self) -> Seq<char>;

    /// The query whose captures are the names of definitions.
    fn definitions_query(&self) -> (r: &'static str)
        ensures
            r@ == self.spec_definitions_query(),
    ;

    /// The query whose captures are references.
    fn references_query(&self) -> (r: &'static str)
        ensures
            r@ == self.spec_references_query(),
    ;

    fn should_ignore(&self, name: &str) -> (r: bool)
        ensures
            r == self.spec_should_ignore(name@),
    ;

    fn is_test_file(&self, path: &str) -> (r: bool)
        ensures
            r == self.spec_is_test_file(path@),
    ;

    fn should_skip_node(&self, tree: &SyntaxTree, node: usize, source: &str) -> (r: bool)
        requires
            tree.wf(),
            node < tree.len(),
        ensures
            r == self.spec_should_skip_node(tree@, node as int, source.spec_bytes()),
    ;

    fn is_public(&self, tree: &SyntaxTree, node: usize, source: &str) -> (r: bool)
        requires
            tree.wf(),
            node < tree.len(),
        ensures
            r == self.spec_is_public(tree@, node as int, source.spec_bytes()),
    ;

    fn normalize_reference(&self, capture: &str, text: &str) -> (r: Vec<String>)
        ensures
            strings_view(r@) == self.spec_normalize_reference(capture@, text@),
    ;
}

/// The test-file convention shared by most languages.
pub fn default_is_test_file(path: &str) -> (r: bool)
    ensures
        r == default_test_path(path@),
{
    str_contains(path, "test_") || str_contains(path, "/tests/")
}

/// The file name of a `/`-separated path.
pub fn file_name_of(path: &str) -> (r: String)
    ensures
        r@ == file_name(path@),
{
    str_after_last(path, "/")
}

/// A reference capture stands for its own text.
pub fn single_reference(text: &str) -> (r: Vec<String>)
    ensures
        strings_view(r@) == seq![text@],
{
    let mut r: Vec<String> = Vec::new();
    r.push(text.to_owned());
    assert(strings_view(r@) =~= seq![text@]);
    r
}

/// One of the supported languages.
pub enum SupportedLanguage {
    Rust(RustLanguage),
    Python(PythonLanguage),
    TypeScript(TypeScriptLanguage),
    JavaScript(JavaScriptLanguage),
    Go(GoLanguage),
    Java(JavaLanguage),
    CSharp(CSharpLanguage),
    Ruby(RubyLanguage),
    Php(PhpLanguage),
    Bash(BashLanguage),
    Kotlin(KotlinLanguage),
    Lua(LuaLanguage),
}

/// The language of files with extension `ext`.
pub open spec fn language_for_extension(ext: Seq<char>) -> Option<SupportedLanguage> {
    if ext == "rs"@ {
        Some(SupportedLanguage::Rust(RustLanguage))
    } else if ext == "py"@ {
        Some(SupportedLanguage::Python(PythonLanguage))
    } else if ext == "ts"@ || ext == "mts"@ || ext == "cts"@ {
        Some(SupportedLanguage::TypeScript(TypeScriptLanguage { tsx: false }))
    } else if ext == "tsx"@ {
        Some(SupportedLanguage::TypeScript(TypeScriptLanguage { tsx: true }))
    } else if ext == "js"@ || ext == "mjs"@ || ext == "cjs"@ || ext == "jsx"@ {
        Some(SupportedLanguage::JavaScript(JavaScriptLanguage))
    } else if ext == "go"@ {
        Some(SupportedLanguage::Go(GoLanguage))
    } else if ext == "java"@ {
        Some(SupportedLanguage::Java(JavaLanguage))
    } else if ext == "cs"@ {
        Some(SupportedLanguage::CSharp(CSharpLanguage))
    } else if ext == "rb"@ {
        Some(SupportedLanguage::Ruby(RubyLanguage))
    } else if ext == "php"@ {
        Some(SupportedLanguage::Php(PhpLanguage))
    } else if ext == "sh"@ || ext == "bash"@ {
        Some(SupportedLanguage::Bash(BashLanguage))
    } else if ext == "kt"@ || ext == "kts"@ {
        Some(SupportedLanguage::Kotlin(KotlinLanguage))
    } else if ext == "lua"@ {
        Some(SupportedLanguage::Lua(LuaLanguage))
    } else {
        None
    }
}

/// The language of files with extension `ext`, if it is supported.
pub fn get_language_for_extension(ext: &str) -> (r: Option<SupportedLanguage>)
    ensures
        r == language_for_extension(ext@),
{
    if str_equals(ext, "rs") {
        Some(SupportedLanguage::Rust(RustLanguage))
    } else if str_equals(ext, "py") {
        Some(SupportedLanguage::Python(PythonLanguage))
    } else if str_equals(ext, "ts") || str_equals(ext, "mts") || str_equals(ext, "cts") {
        Some(SupportedLanguage::TypeScript(TypeScriptLanguage { tsx: false }))
    } else if str_equals(ext, "tsx") {
        Some(SupportedLanguage::TypeScript(TypeScriptLanguage { tsx: true }))
    } else if str_equals(ext, "js") || str_equals(ext, "mjs") || str_equals(ext, "cjs")
        || str_equals(ext, "jsx") {
        Some(SupportedLanguage::JavaScript(JavaScriptLanguage))
    } else if str_equals(ext, "go") {
        Some(SupportedLanguage::Go(GoLanguage))
    } else if str_equals(ext, "java") {
        Some(SupportedLanguage::Java(JavaLanguage))
    } else if str_equals(ext, "cs") {
        Some(SupportedLanguage::CSharp(CSharpLanguage))
    } else if str_equals(ext, "rb") {
        Some(SupportedLanguage::Ruby(RubyLanguage))
    } else if str_equals(ext, "php") {
        Some(SupportedLanguage::Php(PhpLanguage))
    } else if str_equals(ext, "sh") || str_equals(ext, "bash") {
        Some(SupportedLanguage::Bash(BashLanguage))
    } else if str_equals(ext, "kt") || str_equals(ext, "kts") {
        Some(SupportedLanguage::Kotlin(KotlinLanguage))
    } else if str_equals(ext, "lua") {
        Some(SupportedLanguage::Lua(LuaLanguage))
    } else {
        None
    }
}

impl LanguageSupport for SupportedLanguage {
    open spec fn spec_should_ignore(&self, name: Seq<char>) -> bool {
        match self {
            SupportedLanguage::Rust(l) => l.spec_should_ignore(name),
            SupportedLanguage::Python(l) => l.spec_should_ignore(name),
            SupportedLanguage::TypeScript(l) => l.spec_should_ignore(name),
            SupportedLanguage::JavaScript(l) => l.spec_should_ignore(name),
            SupportedLanguage::Go(l) => l.spec_should_ignore(name),
            SupportedLanguage::Java(l) => l.spec_should_ignore(name),
            SupportedLanguage::CSharp(l) => l.spec_should_ignore(name),
            SupportedLanguage::Ruby(l) => l.spec_should_ignore(name),
            SupportedLanguage::Php(l) => l.spec_should_ignore(name),
            SupportedLanguage::Bash(l) => l.spec_should_ignore(name),
            SupportedLanguage::Kotlin(l) => l.spec_should_ignore(name),
            SupportedLanguage::Lua(l) => l.spec_should_ignore(name),
        }
    }

    open spec fn spec_is_test_file(&self, path: Seq<char>) -> bool {
        match self {
            SupportedLanguage::Rust(l) => l.spec_is_test_file(path),
            SupportedLanguage::Python(l) => l.spec_is_test_file(path),
            SupportedLanguage::TypeScript(l) => l.spec_is_test_file(path),
            SupportedLanguage::JavaScript(l) => l.spec_is_test_file(path),
            SupportedLanguage::Go(l) => l.spec_is_test_file(path),
            SupportedLanguage::Java(l) => l.spec_is_test_file(path),
            SupportedLanguage::CSharp(l) => l.spec_is_test_file(path),
            SupportedLanguage::Ruby(l) => l.spec_is_test_file(path),
            SupportedLanguage::Php(l) => l.spec_is_test_file(path),
            SupportedLanguage::Bash(l) => l.spec_is_test_file(path),
            SupportedLanguage::Kotlin(l) => l.spec_is_test_file(path),
            SupportedLanguage::Lua(l) => l.spec_is_test_file(path),
        }
    }

    open spec fn spec_should_skip_node(&self, tree: TreeView, node: int, source: Seq<u8>) -> bool {
        match self {
            SupportedLanguage::Rust(l) => l.spec_should_skip_node(tree, node, source),
            SupportedLanguage::Python(l) => l.spec_should_skip_node(tree, node, source),
            SupportedLanguage::TypeScript(l) => l.spec_should_skip_node(tree, node, source),
            SupportedLanguage::JavaScript(l) => l.spec_should_skip_node(tree, node, source),
            SupportedLanguage::Go(l) => l.spec_should_skip_node(tree, node, source),
            SupportedLanguage::Java(l) => l.spec_should_skip_node(tree, node, source),
            SupportedLanguage::CSharp(l) => l.spec_should_skip_node(tree, node, source),
            SupportedLanguage::Ruby(l) => l.spec_should_skip_node(tree, node, source),
            SupportedLanguage::Php(l) => l.spec_should_skip_node(tree, node, source),
            SupportedLanguage::Bash(l) => l.spec_should_skip_node(tree, node, source),
            SupportedLanguage::Kotlin(l) => l.spec_should_skip_node(tree, node, source),
            SupportedLanguage::Lua(l) => l.spec_should_skip_node(tree, node, source),
        }
    }

    open spec fn spec_is_public(&self, tree: TreeView, node: int, source: Seq<u8>) -> bool {
        match self {
            SupportedLanguage::Rust(l) => l.spec_is_public(tree, node, source),
            SupportedLanguage::Python(l) => l.spec_is_public(tree, node, source),
            SupportedLanguage::TypeScript(l) => l.spec_is_public(tree, node, source),
            SupportedLanguage::JavaScript(l) => l.spec_is_public(tree, node, source),
            SupportedLanguage::Go(l) => l.spec_is_public(tree, node, source),
            SupportedLanguage::Java(l) => l.spec_is_public(tree, node, source),
            SupportedLanguage::CSharp(l) => l.spec_is_public(tree, node, source),
            SupportedLanguage::Ruby(l) => l.spec_is_public(tree, node, source),
            SupportedLanguage::Php(l) => l.spec_is_public(tree, node, source),
            SupportedLanguage::Bash(l) => l.spec_is_public(tree, node, source),
            SupportedLanguage::Kotlin(l) => l.spec_is_public(tree, node, source),
            SupportedLanguage::Lua(l) => l.spec_is_public(tree, node, source),
        }
    }

    open spec fn spec_grammar(&self) -> GrammarId {
        match self {
            SupportedLanguage::Rust(l) => l.spec_grammar(),
            SupportedLanguage::Python(l) => l.spec_grammar(),
            SupportedLanguage::TypeScript(l) => l.spec_grammar(),
            SupportedLanguage::JavaScript(l) => l.spec_grammar(),
            SupportedLanguage::Go(l) => l.spec_grammar(),
            SupportedLanguage::Java(l) => l.spec_grammar(),
            SupportedLanguage::CSharp(l) => l.spec_grammar(),
            SupportedLanguage::Ruby(l) => l.spec_grammar(),
            SupportedLanguage::Php(l) => l.spec_grammar(),
            SupportedLanguage::Bash(l) => l.spec_grammar(),
            SupportedLanguage::Kotlin(l) => l.spec_grammar(),
            SupportedLanguage::Lua(l) => l.spec_grammar(),
        }
    }

    open spec fn spec_definitions_query(&self) -> Seq<char> {
        match self {
            SupportedLanguage::Rust(l) => l.spec_definitions_query(),
            SupportedLanguage::Python(l) => l.spec_definitions_query(),
            SupportedLanguage::TypeScript(l) => l.spec_definitions_query(),
            SupportedLanguage::JavaScript(l) => l.spec_definitions_query(),
            SupportedLanguage::Go(l) => l.spec_definitions_query(),
            SupportedLanguage::Java(l) => l.spec_definitions_query(),
            SupportedLanguage::CSharp(l) => l.spec_definitions_query(),
            SupportedLanguage::Ruby(l) => l.spec_definitions_query(),
            SupportedLanguage::Php(l) => l.spec_definitions_query(),
            SupportedLanguage::Bash(l) => l.spec_definitions_query(),
            SupportedLanguage::Kotlin(l) => l.spec_definitions_query(),
            SupportedLanguage::Lua(l) => l.spec_definitions_query(),
        }
    }

    open spec fn spec_references_query(&self) -> Seq<char> {
        match self {
            SupportedLanguage::Rust(l) => l.spec_references_query(),
            SupportedLanguage::Python(l) => l.spec_references_query(),
            SupportedLanguage::TypeScript(l) => l.spec_references_query(),
            SupportedLanguage::JavaScript(l) => l.spec_references_query(),
            SupportedLanguage::Go(l) => l.spec_references_query(),
            SupportedLanguage::Java(l) => l.spec_references_query(),
            SupportedLanguage::CSharp(l) => l.spec_references_query(),
            SupportedLanguage::Ruby(l) => l.spec_references_query(),
            SupportedLanguage::Php(l) => l.spec_references_query(),
            SupportedLanguage::Bash(l) => l.spec_references_query(),
            SupportedLanguage::Kotlin(l) => l.spec_references_query(),
            SupportedLanguage::Lua(l) => l.spec_references_query(),
        }
    }

    open spec fn spec_normalize_reference(&self, capture: Seq<char>, text: Seq<char>) -> Seq<
        Seq<char>,
    > {
        match self {
            SupportedLanguage::Rust(l) => l.spec_normalize_reference(capture, text),
            SupportedLanguage::Python(l) => l.spec_normalize_reference(capture, text),
            SupportedLanguage::TypeScript(l) => l.spec_normalize_reference(capture, text),
            SupportedLanguage::JavaScript(l) => l.spec_normalize_reference(capture, text),
            SupportedLanguage::Go(l) => l.spec_normalize_reference(capture, text),
            SupportedLanguage::Java(l) => l.spec_normalize_reference(capture, text),
            SupportedLanguage::CSharp(l) => l.spec_normalize_reference(capture, text),
            SupportedLanguage::Ruby(l) => l.spec_normalize_reference(capture, text),
            SupportedLanguage::Php(l) => l.spec_normalize_reference(capture, text),
            SupportedLanguage::Bash(l) => l.spec_normalize_reference(capture, text),
            SupportedLanguage::Kotlin(l) => l.spec_normalize_reference(capture, text),
            SupportedLanguage::Lua(l) => l.spec_normalize_reference(capture, text),
        }
    }

    fn language(&self) -> Language {
        match self {
            SupportedLanguage::Rust(l) => l.language(),
            SupportedLanguage::Python(l) => l.language(),
            SupportedLanguage::TypeScript(l) => l.language(),
            SupportedLanguage::JavaScript(l) => l.language(),
            SupportedLanguage::Go(l) => l.language(),
            SupportedLanguage::Java(l) => l.language(),
            SupportedLanguage::CSharp(l) => l.language(),
            SupportedLanguage::Ruby(l) => l.language(),
            SupportedLanguage::Php(l) => l.language(),
            SupportedLanguage::Bash(l) => l.language(),
            SupportedLanguage::Kotlin(l) => l.language(),
            SupportedLanguage::Lua(l) => l.language(),
        }
    }

    fn grammar(&self) -> (r: GrammarId) {
        match self {
            SupportedLanguage::Rust(l) => l.grammar(),
            SupportedLanguage::Python(l) => l.grammar(),
            SupportedLanguage::TypeScript(l) => l.grammar(),
            SupportedLanguage::JavaScript(l) => l.grammar(),
            SupportedLanguage::Go(l) => l.grammar(),
            SupportedLanguage::Java(l) => l.grammar(),
            SupportedLanguage::CSharp(l) => l.grammar(),
            SupportedLanguage::Ruby(l) => l.grammar(),
            SupportedLanguage::Php(l) => l.grammar(),
            SupportedLanguage::Bash(l) => l.grammar(),
            SupportedLanguage::Kotlin(l) => l.grammar(),
            SupportedLanguage::Lua(l) => l.grammar(),
        }
    }

    fn definitions_query(&self) -> &'static str {
        match self {
            SupportedLanguage::Rust(l) => l.definitions_query(),
            SupportedLanguage::Python(l) => l.definitions_query(),
            SupportedLanguage::TypeScript(l) => l.definitions_query(),
            SupportedLanguage::JavaScript(l) => l.definitions_query(),
            SupportedLanguage::Go(l) => l.definitions_query(),
            SupportedLanguage::Java(l) => l.definitions_query(),
            SupportedLanguage::CSharp(l) => l.definitions_query(),
            SupportedLanguage::Ruby(l) => l.definitions_query(),
            SupportedLanguage::Php(l) => l.definitions_query(),
            SupportedLanguage::Bash(l) => l.definitions_query(),
            SupportedLanguage::Kotlin(l) => l.definitions_query(),
            SupportedLanguage::Lua(l) => l.definitions_query(),
        }
    }

    fn references_query(&self) -> &'static str {
        match self {
            SupportedLanguage::Rust(l) => l.references_query(),
            SupportedLanguage::Python(l) => l.references_query(),
            SupportedLanguage::TypeScript(l) => l.references_query(),
            SupportedLanguage::JavaScript(l) => l.references_query(),
            SupportedLanguage::Go(l) => l.references_query(),
            SupportedLanguage::Java(l) => l.references_query(),
            SupportedLanguage::CSharp(l) => l.references_query(),
            SupportedLanguage::Ruby(l) => l.references_query(),
            SupportedLanguage::Php(l) => l.references_query(),
            SupportedLanguage::Bash(l) => l.references_query(),
            SupportedLanguage::Kotlin(l) => l.references_query(),
            SupportedLanguage::Lua(l) => l.references_query(),
        }
    }

    fn should_ignore(&self, name: &str) -> (r: bool) {
        match self {
            SupportedLanguage::Rust(l) => l.should_ignore(name),
            SupportedLanguage::Python(l) => l.should_ignore(name),
            SupportedLanguage::TypeScript(l) => l.should_ignore(name),
            SupportedLanguage::JavaScript(l) => l.should_ignore(name),
            SupportedLanguage::Go(l) => l.should_ignore(name),
            SupportedLanguage::Java(l) => l.should_ignore(name),
            SupportedLanguage::CSharp(l) => l.should_ignore(name),
            SupportedLanguage::Ruby(l) => l.should_ignore(name),
            SupportedLanguage::Php(l) => l.should_ignore(name),
            SupportedLanguage::Bash(l) => l.should_ignore(name),
            SupportedLanguage::Kotlin(l) => l.should_ignore(name),
            SupportedLanguage::Lua(l) => l.should_ignore(name),
        }
    }

    fn is_test_file(&self, path: &str) -> (r: bool) {
        match self {
            SupportedLanguage::Rust(l) => l.is_test_file(path),
            SupportedLanguage::Python(l) => l.is_test_file(path),
            SupportedLanguage::TypeScript(l) => l.is_test_file(path),
            SupportedLanguage::JavaScript(l) => l.is_test_file(path),
            SupportedLanguage::Go(l) => l.is_test_file(path),
            SupportedLanguage::Java(l) => l.is_test_file(path),
            SupportedLanguage::CSharp(l) => l.is_test_file(path),
            SupportedLanguage::Ruby(l) => l.is_test_file(path),
            SupportedLanguage::Php(l) => l.is_test_file(path),
            SupportedLanguage::Bash(l) => l.is_test_file(path),
            SupportedLanguage::Kotlin(l) => l.is_test_file(path),
            SupportedLanguage::Lua(l) => l.is_test_file(path),
        }
    }

    fn should_skip_node(&self, tree: &SyntaxTree, node: usize, source: &str) -> (r: bool) {
        match self {
            SupportedLanguage::Rust(l) => l.should_skip_node(tree, node, source),
            SupportedLanguage::Python(l) => l.should_skip_node(tree, node, source),
            SupportedLanguage::TypeScript(l) => l.should_skip_node(tree, node, source),
            SupportedLanguage::JavaScript(l) => l.should_skip_node(tree, node, source),
            SupportedLanguage::Go(l) => l.should_skip_node(tree, node, source),
            SupportedLanguage::Java(l) => l.should_skip_node(tree, node, source),
            SupportedLanguage::CSharp(l) => l.should_skip_node(tree, node, source),
            SupportedLanguage::Ruby(l) => l.should_skip_node(tree, node, source),
            SupportedLanguage::Php(l) => l.should_skip_node(tree, node, source),
            SupportedLanguage::Bash(l) => l.should_skip_node(tree, node, source),
            SupportedLanguage::Kotlin(l) => l.should_skip_node(tree, node, source),
            SupportedLanguage::Lua(l) => l.should_skip_node(tree, node, source),
        }
    }

    fn is_public(&self, tree: &SyntaxTree, node: usize, source: &str) -> (r: bool) {
        match self {
            SupportedLanguage::Rust(l) => l.is_public(tree, node, source),
            SupportedLanguage::Python(l) => l.is_public(tree, node, source),
            SupportedLanguage::TypeScript(l) => l.is_public(tree, node, source),
            SupportedLanguage::JavaScript(l) => l.is_public(tree, node, source),
            SupportedLanguage::Go(l) => l.is_public(tree, node, source),
            SupportedLanguage::Java(l) => l.is_public(tree, node, source),
            SupportedLanguage::CSharp(l) => l.is_public(tree, node, source),
            SupportedLanguage::Ruby(l) => l.is_public(tree, node, source),
            SupportedLanguage::Php(l) => l.is_public(tree, node, source),
            SupportedLanguage::Bash(l) => l.is_public(tree, node, source),
            SupportedLanguage::Kotlin(l) => l.is_public(tree, node, source),
            SupportedLanguage::Lua(l) => l.is_public(tree, node, source),
        }
    }

    fn normalize_reference(&self, capture: &str, text: &str) -> (r: Vec<String>) {
        match self {
            SupportedLanguage::Rust(l) => l.normalize_reference(capture, text),
            SupportedLanguage::Python(l) => l.normalize_reference(capture, text),
            SupportedLanguage::TypeScript(l) => l.normalize_reference(capture, text),
            SupportedLanguage::JavaScript(l) => l.normalize_reference(capture, text),
            SupportedLanguage::Go(l) => l.normalize_reference(capture, text),
            SupportedLanguage::Java(l) => l.normalize_reference(capture, text),
            SupportedLanguage::CSharp(l) => l.normalize_reference(capture, text),
            SupportedLanguage::Ruby(l) => l.normalize_reference(capture, text),
            SupportedLanguage::Php(l) => l.normalize_reference(capture, text),
            SupportedLanguage::Bash(l) => l.normalize_reference(capture, text),
            SupportedLanguage::Kotlin(l) => l.normalize_reference(capture, text),
            SupportedLanguage::Lua(l) => l.normalize_reference(capture, text),
        }
    }
}

// ---------------------------------------------------------------------------
// Laws
// ---------------------------------------------------------------------------

/// The names each language never reports: entry points, test functions,
/// magic methods and names marked unused by convention.
pub proof fn law_conventional_names_are_ignored(name: Seq<char>, ts: TypeScriptLanguage)
    ensures
        name == "main"@ || has_prefix(name, "test_"@) || has_prefix(name, "__"@)
            ==> RustLanguage.spec_should_ignore(name),
        name == "main"@ || has_prefix(name, "test_"@) || has_prefix(name, "Test"@) || has_prefix(
            name,
            "__"@,
        ) ==> PythonLanguage.spec_should_ignore(name),
        has_prefix(name, "_"@) ==> ts.spec_should_ignore(name) && JavaScriptLanguage.spec_should_ignore(
            name,
        ) && LuaLanguage.spec_should_ignore(name),
        name == "main"@ || name == "init"@ || name == "_"@ || has_prefix(name, "Test"@) || has_prefix(
            name,
            "Benchmark"@,
        ) || has_prefix(name, "Fuzz"@) || has_prefix(name, "Example"@)
            ==> GoLanguage.spec_should_ignore(name),
        name == "main"@ || name == "toString"@ || name == "equals"@ || name == "hashCode"@
            ==> JavaLanguage.spec_should_ignore(name),
        name == "Main"@ ==> CSharpLanguage.spec_should_ignore(name),
        name == "initialize"@ || name == "method_missing"@ ==> RubyLanguage.spec_should_ignore(name),
        has_prefix(name, "__"@) ==> PhpLanguage.spec_should_ignore(name),
        name == "main"@ ==> KotlinLanguage.spec_should_ignore(name) && BashLanguage.spec_should_ignore(
            name,
        ),
{
}

/// Each language's test-file conventions: such files add references, but
/// their definitions are never reported.
pub proof fn law_test_file_conventions(path: Seq<char>, ts: TypeScriptLanguage)
    ensures
        has_infix(path, "test_"@) || has_infix(path, "/tests/"@) ==> RustLanguage.spec_is_test_file(
            path,
        ) && PythonLanguage.spec_is_test_file(path),
        has_infix(path, ".test."@) || has_infix(path, ".spec."@) || has_infix(path, "__tests__/"@)
            ==> ts.spec_is_test_file(path) && JavaScriptLanguage.spec_is_test_file(path),
        has_suffix(path, ".d.ts"@) ==> ts.spec_is_test_file(path),
        has_suffix(path, "_test.go"@) ==> GoLanguage.spec_is_test_file(path),
        has_infix(path, "/src/test/"@) ==> JavaLanguage.spec_is_test_file(path)
            && KotlinLanguage.spec_is_test_file(path),
        has_suffix(path, "Test.cs"@) || has_suffix(path, "Tests.cs"@) || has_infix(path, "/tests/"@)
            ==> CSharpLanguage.spec_is_test_file(path),
        has_suffix(file_name(path), "_spec.rb"@) || has_suffix(file_name(path), "_test.rb"@)
            ==> RubyLanguage.spec_is_test_file(path),
        has_suffix(file_name(path), "Test.php"@) ==> PhpLanguage.spec_is_test_file(path),
        has_suffix(file_name(path), "Test.kt"@) ==> KotlinLanguage.spec_is_test_file(path),
        has_suffix(file_name(path), "_spec.lua"@) ==> LuaLanguage.spec_is_test_file(path),
{
}

} // verus!

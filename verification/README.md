# dangle

A dead code detector for multi-language projects: it reports definitions whose
names are never referenced beyond the definitions themselves. Parsing and
queries are tree-sitter's; everything decided on their results is verified
with Verus.

## Layout

- `src/` — the verified library.
  - `text.rs`: character-sequence helpers and their specifications.
  - `syntax.rs`: the calls into tree-sitter and the plain tree model
    (`SyntaxTree`) that the language rules read.
  - `languages.rs`, `languages/`: the `LanguageSupport` trait and one module per
    language (queries, ignore rules, test-file conventions, skip and
    public-symbol rules).
  - `symbols.rs`: definitions and references of one file.
  - `analysis.rs`: the dead-code rule and its laws.
  - `project.rs`: a whole project — which files count, how their findings
    combine, the order and labels of the report.
  - `shebang.rs`: the language of an extensionless script, by its `#!` line.
- `app/` — the command-line program: `git ls-files`, reading files, printing.
- `tests/` — tests of the library.

## Usage

Run `dangle` in a git repository. Each finding is printed as

```
path/to/file.rs:42:5: fn unused_function is not referenced
```

`-v` also lists every definition found; `--include-public` also reports
public and exported symbols.

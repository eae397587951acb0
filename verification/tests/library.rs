use dangle::analysis::{find_dead_code, ReferenceCounts};
use dangle::languages::csharp::{attribute_simple_name, is_skip_attribute as is_csharp_skip_attribute};
use dangle::languages::java::{annotation_simple_name, is_skip_annotation};
use dangle::languages::rust::{extract_format_args, is_skip_attribute, is_valid_identifier};
use dangle::languages::typescript::is_js_test_file;
use dangle::languages::{get_language_for_extension, LanguageSupport};
use dangle::project::{
    analyze_project, file_extension, is_supported_path, kind_label, language_for_path,
    language_for_file, listed_paths, script_language, sort_by_location, SourceFile,
};
use dangle::symbols::{extract_definitions, extract_references, Definition, Reference};
use dangle::syntax::{
    resolve_captures, tree_from_records, GrammarId, NodeRecord, SyntaxError, SyntaxNode, SyntaxTree,
};

fn def(name: &str, file: &str, line: usize, has_nodangle: bool) -> Definition {
    Definition {
        name: name.to_string(),
        file: file.to_string(),
        line,
        column: 1,
        kind: "function_item".to_string(),
        has_nodangle,
    }
}

fn refs(names: &[&str]) -> Vec<Reference> {
    names.iter().map(|n| Reference { name: n.to_string() }).collect()
}

fn located(defs: &[Definition]) -> Vec<(String, String, usize)> {
    defs.iter().map(|d| (d.name.clone(), d.file.clone(), d.line)).collect()
}

// Reference counts

#[test]
fn counts_start_empty() {
    let counts = ReferenceCounts::new();
    assert_eq!(counts.count("anything"), 0);
}

#[test]
fn counts_tally_each_reference() {
    let counts = ReferenceCounts::from_references(&refs(&["a", "b", "a", "c", "a"]));
    assert_eq!(counts.count("a"), 3);
    assert_eq!(counts.count("b"), 1);
    assert_eq!(counts.count("c"), 1);
    assert_eq!(counts.count("d"), 0);
}

// The dead-code rule

#[test]
fn shared_names_are_dead_while_references_do_not_exceed_definitions() {
    let defs = vec![def("a", "f.rs", 1, false), def("b", "f.rs", 2, false), def("a", "f.rs", 3, false)];
    let counts = ReferenceCounts::from_references(&refs(&["a", "a", "b", "b"]));
    let dead = find_dead_code(defs, &counts).dead_code;
    assert_eq!(
        located(&dead),
        vec![("a".to_string(), "f.rs".to_string(), 1), ("a".to_string(), "f.rs".to_string(), 3)]
    );
}

#[test]
fn one_more_reference_keeps_shared_names_alive() {
    let defs = vec![def("a", "f.rs", 1, false), def("b", "f.rs", 2, false), def("a", "f.rs", 3, false)];
    let counts = ReferenceCounts::from_references(&refs(&["a", "a", "a", "b"]));
    let dead = find_dead_code(defs, &counts).dead_code;
    assert_eq!(located(&dead), vec![("b".to_string(), "f.rs".to_string(), 2)]);
}

#[test]
fn nodangle_definitions_are_never_reported() {
    let defs = vec![def("a", "f.rs", 1, true), def("b", "f.rs", 2, false)];
    let counts = ReferenceCounts::new();
    let dead = find_dead_code(defs, &counts).dead_code;
    assert_eq!(located(&dead), vec![("b".to_string(), "f.rs".to_string(), 2)]);
}

#[test]
fn dead_definitions_keep_input_order() {
    let defs = vec![def("z", "b.rs", 9, false), def("y", "a.rs", 1, false), def("x", "a.rs", 5, false)];
    let counts = ReferenceCounts::new();
    let dead = find_dead_code(defs, &counts).dead_code;
    let names: Vec<String> = dead.into_iter().map(|d| d.name).collect();
    assert_eq!(names, vec!["z", "y", "x"]);
}

#[test]
fn no_definitions_no_findings() {
    let counts = ReferenceCounts::from_references(&refs(&["a"]));
    assert!(find_dead_code(Vec::new(), &counts).dead_code.is_empty());
}

// Ordering and labels

#[test]
fn findings_sort_by_file_then_line_stably() {
    let defs = vec![
        def("late", "src/b.rs", 3, false),
        def("first", "src/a.rs", 10, false),
        def("second", "src/a.rs", 10, false),
        def("early", "src/a.rs", 2, false),
        def("upper", "Src/z.rs", 1, false),
    ];
    let sorted = sort_by_location(defs);
    let names: Vec<String> = sorted.into_iter().map(|d| d.name).collect();
    assert_eq!(names, vec!["upper", "early", "first", "second", "late"]);
}

#[test]
fn kind_labels() {
    assert_eq!(kind_label("function_item"), "fn");
    assert_eq!(kind_label("method_declaration"), "fn");
    assert_eq!(kind_label("struct_declaration"), "struct");
    assert_eq!(kind_label("enum_item"), "enum");
    assert_eq!(kind_label("const_spec"), "const");
    assert_eq!(kind_label("static_item"), "static");
    assert_eq!(kind_label("mod_item"), "mod");
    assert_eq!(kind_label("abstract_class_declaration"), "class");
    assert_eq!(kind_label("interface_declaration"), "interface");
    assert_eq!(kind_label("type_spec"), "type");
    assert_eq!(kind_label("record_declaration"), "record");
    assert_eq!(kind_label("annotation_type_declaration"), "annotation");
    assert_eq!(kind_label("property_declaration"), "prop");
    assert_eq!(kind_label("variable_declarator"), "var");
    assert_eq!(kind_label("trait_item"), "trait_item");
}

// Paths and extensions

#[test]
fn extensions_follow_the_last_dot_of_the_file_name() {
    assert_eq!(file_extension("src/main.rs"), Some("rs".to_string()));
    assert_eq!(file_extension("a/b.test.ts"), Some("ts".to_string()));
    assert_eq!(file_extension("dir.d/Makefile"), None);
    assert_eq!(file_extension("home/.bashrc"), None);
    assert_eq!(file_extension("trailing."), Some("".to_string()));
    assert_eq!(file_extension(".."), None);
    assert_eq!(file_extension("x/.hidden.lua"), Some("lua".to_string()));
}

#[test]
fn supported_paths() {
    assert!(is_supported_path("src/lib.rs"));
    assert!(is_supported_path("web/app.tsx"));
    assert!(is_supported_path("scripts/run.bash"));
    assert!(is_supported_path("build.gradle.kts"));
    assert!(!is_supported_path("README.md"));
    assert!(!is_supported_path("Makefile"));
    assert!(language_for_path("pkg/main.go").is_some());
    assert!(language_for_path("pkg/main.c").is_none());
}

#[test]
fn every_listed_extension_has_a_language() {
    for ext in [
        "rs", "py", "ts", "mts", "cts", "tsx", "js", "mjs", "cjs", "jsx", "go", "java", "cs", "rb",
        "php", "sh", "bash", "kt", "kts", "lua",
    ] {
        assert!(get_language_for_extension(ext).is_some(), "{ext}");
    }
    for ext in ["", "c", "RS", "md", "txt"] {
        assert!(get_language_for_extension(ext).is_none(), "{ext}");
    }
}

// Helpers of the language rules

#[test]
fn format_args_of_string_literals() {
    assert_eq!(extract_format_args("\"query={QUERY}\""), vec!["QUERY"]);
    assert_eq!(extract_format_args("\"{x:>w$}\""), vec!["x", "w"]);
    assert_eq!(extract_format_args("\"{:.p$}\""), vec!["p"]);
    assert!(extract_format_args("\"{} {0}\"").is_empty());
    assert!(extract_format_args("\"{{name}}\"").is_empty());
    assert!(extract_format_args("\"{unclosed\"").is_empty());
    assert_eq!(extract_format_args("\"{a}{b}\""), vec!["a", "b"]);
}

#[test]
fn identifiers() {
    assert!(is_valid_identifier("_x1"));
    assert!(is_valid_identifier("größe"));
    assert!(!is_valid_identifier(""));
    assert!(!is_valid_identifier("1x"));
    assert!(!is_valid_identifier("a-b"));
}

#[test]
fn rust_skip_attributes() {
    assert!(is_skip_attribute("#[test]"));
    assert!(is_skip_attribute("#[tokio::test]"));
    assert!(is_skip_attribute("#[allow(unused)]"));
    assert!(is_skip_attribute("#[allow(dead_code)]"));
    assert!(!is_skip_attribute("#[allow(clippy::all)]"));
    assert!(!is_skip_attribute("#[derive(Debug)]"));
}

#[test]
fn csharp_attribute_names() {
    assert_eq!(attribute_simple_name("NUnit.Framework.Test"), "Test");
    assert_eq!(attribute_simple_name("Fact"), "Fact");
    assert!(is_csharp_skip_attribute("Xunit.Theory"));
    assert!(is_csharp_skip_attribute("TestMethod"));
    assert!(!is_csharp_skip_attribute("Obsolete"));
}

#[test]
fn java_annotation_names() {
    assert_eq!(annotation_simple_name("org.junit.jupiter.api.Test"), "Test");
    assert_eq!(annotation_simple_name("Override"), "Override");
    assert!(is_skip_annotation("org.junit.jupiter.params.ParameterizedTest"));
    assert!(is_skip_annotation("RepeatedTest"));
    assert!(!is_skip_annotation("Deprecated"));
}

#[test]
fn js_test_paths() {
    assert!(is_js_test_file("src/a.test.js"));
    assert!(is_js_test_file("src/a.spec.ts"));
    assert!(is_js_test_file("src/__tests__/a.js"));
    assert!(!is_js_test_file("src/tests/a.js"));
}

// Extraction

#[test]
fn definitions_carry_file_position_and_kind() {
    let lang = get_language_for_extension("rs").unwrap();
    let defs = extract_definitions("src/x.rs", "\nstruct Thing;\n  fn helper() {} // nodangle\n", &lang, false).unwrap();
    let found: Vec<(String, String, usize, usize, String, bool)> = defs
        .into_iter()
        .map(|d| (d.name, d.file, d.line, d.column, d.kind, d.has_nodangle))
        .collect();
    assert_eq!(
        found,
        vec![
            ("Thing".to_string(), "src/x.rs".to_string(), 2, 8, "struct_item".to_string(), false),
            ("helper".to_string(), "src/x.rs".to_string(), 3, 6, "function_item".to_string(), true),
        ]
    );
}

#[test]
fn references_are_the_captured_names() {
    let lang = get_language_for_extension("py").unwrap();
    let refs = extract_references("x = f(y)\n", &lang).unwrap();
    let names: Vec<String> = refs.into_iter().map(|r| r.name).collect();
    assert!(names.contains(&"f".to_string()));
    assert!(names.contains(&"y".to_string()));
}

#[test]
fn syntax_error_messages() {
    assert_eq!(SyntaxError::LanguageRejected.message(), "Failed to set language");
    assert_eq!(SyntaxError::ParseFailed.message(), "Failed to parse source");
    assert_eq!(SyntaxError::InvalidQuery.message(), "Invalid query syntax");
}

// A whole project

#[test]
fn project_counts_test_references_but_not_test_definitions() {
    let files = vec![
        SourceFile { path: "src/lib.rs".to_string(), source: "fn helper() {}\nfn unused() {}\n".to_string() },
        SourceFile {
            path: "tests/test_lib.rs".to_string(),
            source: "fn test_it() { helper(); }\n".to_string(),
        },
        SourceFile { path: "README.md".to_string(), source: "fn ignored() {}".to_string() },
        SourceFile { path: "a/first.rs".to_string(), source: "fn orphan() {}\n".to_string() },
    ];
    let analysis = analyze_project(&files, false);
    assert!(analysis.warnings.is_empty());
    let defined: Vec<String> = analysis.definitions.iter().map(|d| d.name.clone()).collect();
    assert_eq!(defined, vec!["helper", "unused", "orphan"]);
    assert_eq!(analysis.references.count("helper"), 2);
    assert_eq!(
        located(&analysis.dead_code),
        vec![
            ("orphan".to_string(), "a/first.rs".to_string(), 1),
            ("unused".to_string(), "src/lib.rs".to_string(), 2),
        ]
    );
}

#[test]
fn test_files_per_language() {
    let go = get_language_for_extension("go").unwrap();
    assert!(go.is_test_file("x_test.go"));
    let rs = get_language_for_extension("rs").unwrap();
    assert!(rs.is_test_file("tests/test_x.rs"));
    assert!(!rs.is_test_file("src/x.rs"));
}

// The tree model

fn node(kind: &str, field: Option<&str>, parent: Option<usize>, start: usize, end: usize) -> SyntaxNode {
    SyntaxNode {
        kind: kind.to_string(),
        field: field.map(|f| f.to_string()),
        parent,
        start_byte: start,
        end_byte: end,
        row: 0,
        column: start,
    }
}

/// `fn f() {}` as a small tree: source_file > function_item > (fn, name, parameters, block).
fn small_tree() -> SyntaxTree {
    SyntaxTree {
        nodes: vec![
            node("source_file", None, None, 0, 10),
            node("function_item", None, Some(0), 0, 10),
            node("fn", None, Some(1), 0, 2),
            node("identifier", Some("name"), Some(1), 3, 4),
            node("parameters", Some("parameters"), Some(1), 4, 6),
            node("block", Some("body"), Some(1), 7, 10),
        ],
    }
}

#[test]
fn tree_navigation() {
    let t = small_tree();
    let source = "fn f() {}\n";
    assert_eq!(t.node_count(), 6);
    assert_eq!(t.parent_of(3), Some(1));
    assert_eq!(t.parent_of(0), None);
    assert!(t.kind_is(1, "function_item"));
    assert!(!t.kind_is(1, "function"));
    assert!(t.kind_ends_with(1, "_item"));
    assert_eq!(t.node_text(3, source), "f");
    assert_eq!(t.node_text(4, source), "()");
    assert_eq!(t.parent_kind_of(3), "function_item");
    assert_eq!(t.parent_kind_of(0), "unknown");
    assert_eq!(t.child_with_kind(1, "block"), Some(5));
    assert_eq!(t.child_with_kind(1, "where_clause"), None);
    assert_eq!(t.child_in_field(1, "name"), Some(3));
    assert_eq!(t.child_in_field(1, "return_type"), None);
    assert_eq!(t.prev_sibling_of(4), Some(3));
    assert_eq!(t.prev_sibling_of(2), None);
    assert_eq!(t.ancestor_of_kind(3, "source_file"), Some(0));
    assert_eq!(t.ancestor_of_kind(3, "impl_item"), None);
}

#[test]
fn node_text_outside_character_boundaries_is_empty() {
    let t = SyntaxTree { nodes: vec![node("identifier", None, None, 1, 2)] };
    assert_eq!(t.node_text(0, "\u{e9}x"), "");
}

#[test]
fn raw_captures_resolve_to_the_last_node_with_their_range_and_kind() {
    let t = SyntaxTree {
        nodes: vec![
            node("a", None, None, 0, 4),
            node("b", None, Some(0), 0, 4),
            node("b", None, Some(1), 0, 4),
            node("c", None, Some(0), 2, 4),
        ],
    };
    let names = vec!["def".to_string(), "_helper".to_string()];
    let raw = vec![
        (0, 0, 4, "b".to_string()),
        (1, 2, 4, "c".to_string()),
        (2, 0, 4, "a".to_string()),
        (0, 1, 4, "b".to_string()),
        (0, 0, 4, "d".to_string()),
    ];
    let resolved: Vec<(usize, String)> =
        resolve_captures(&t, &names, &raw).into_iter().map(|c| (c.node, c.name)).collect();
    assert_eq!(resolved, vec![(2, "def".to_string()), (3, "_helper".to_string())]);
}

#[test]
fn another_definition_of_a_name_can_make_it_dead() {
    let counts = ReferenceCounts::from_references(&refs(&["a", "a"]));
    let alone = find_dead_code(vec![def("a", "f.rs", 1, false)], &counts).dead_code;
    assert!(alone.is_empty());
    let twice = find_dead_code(vec![def("a", "f.rs", 1, false), def("a", "g.rs", 1, false)], &counts).dead_code;
    assert_eq!(
        located(&twice),
        vec![("a".to_string(), "f.rs".to_string(), 1), ("a".to_string(), "g.rs".to_string(), 1)]
    );
}

#[test]
fn public_symbols_only_add_definitions() {
    let lang = get_language_for_extension("rs").unwrap();
    let source = "pub trait Shown {}\ntrait Hidden {}\nfn helper() {}\n";
    let names = |include_public: bool| -> Vec<String> {
        extract_definitions("src/lib.rs", source, &lang, include_public)
            .unwrap()
            .into_iter()
            .map(|d| d.name)
            .collect()
    };
    assert_eq!(names(false), vec!["Hidden", "helper"]);
    assert_eq!(names(true), vec!["Shown", "Hidden", "helper"]);
}

#[test]
fn records_hang_under_the_nearest_node_one_level_up() {
    let depths = [0usize, 1, 2, 2, 1, 3, 0];
    let records: Vec<NodeRecord> = depths
        .iter()
        .enumerate()
        .map(|(i, d)| NodeRecord {
            kind: format!("k{i}"),
            field: if i == 2 { Some("name".to_string()) } else { None },
            depth: *d,
            start_byte: i,
            end_byte: i + 1,
            row: 0,
            column: i,
        })
        .collect();
    let t = tree_from_records(&records);
    let parents: Vec<Option<usize>> = t.nodes.iter().map(|n| n.parent).collect();
    assert_eq!(parents, vec![None, Some(0), Some(1), Some(1), Some(0), None, None]);
    assert_eq!(t.nodes[2].kind, "k2");
    assert_eq!(t.nodes[2].field, Some("name".to_string()));
    assert_eq!(t.nodes[3].field, None);
    assert_eq!(t.nodes[6].column, 6);
    assert_eq!(t.nodes[4].start_byte, 4);
}

#[test]
fn nodangle_counts_only_in_comments() {
    let source = "fn nodangle_helper() {}\nfn marked() {} // nodangle\nfn quoted() { let s = \"nodangle\"; }\n";
    let dead = find_dead_code(
        extract_definitions("src/x.rs", source, &get_language_for_extension("rs").unwrap(), false).unwrap(),
        &ReferenceCounts::from_references(
            &extract_references(source, &get_language_for_extension("rs").unwrap()).unwrap(),
        ),
    )
    .dead_code;
    let names: Vec<String> = dead.into_iter().map(|d| d.name).collect();
    assert_eq!(names, vec!["nodangle_helper", "quoted"]);
}

#[test]
fn languages_name_their_grammars() {
    assert_eq!(get_language_for_extension("tsx").unwrap().grammar(), GrammarId::Tsx);
    assert_eq!(get_language_for_extension("ts").unwrap().grammar(), GrammarId::TypeScript);
    assert_eq!(get_language_for_extension("mts").unwrap().grammar(), GrammarId::TypeScript);
    assert_eq!(get_language_for_extension("rs").unwrap().grammar(), GrammarId::Rust);
    assert_eq!(get_language_for_extension("kts").unwrap().grammar(), GrammarId::Kotlin);
    assert_eq!(get_language_for_extension("php").unwrap().grammar(), GrammarId::Php);
}

#[test]
fn queries_are_the_languages_own() {
    let rs = get_language_for_extension("rs").unwrap();
    assert_eq!(rs.definitions_query(), dangle::languages::rust::DEFINITIONS_QUERY);
    assert_eq!(rs.references_query(), dangle::languages::rust::REFERENCES_QUERY);
    let py = get_language_for_extension("py").unwrap();
    assert!(py.definitions_query().contains("function_definition"));
}

#[test]
fn parsing_is_deterministic() {
    let lang = get_language_for_extension("py").unwrap();
    let source = "def f():\n    return g(1)\n";
    let first: Vec<String> = extract_references(source, &lang).unwrap().into_iter().map(|r| r.name).collect();
    let second: Vec<String> = extract_references(source, &lang).unwrap().into_iter().map(|r| r.name).collect();
    assert_eq!(first, second);
    assert_eq!(first, vec!["f", "g"]);
}

#[test]
fn scripts_are_recognised_by_their_shebang() {
    let lang = |text: &str| script_language(text).map(|l| l.grammar());
    assert_eq!(lang("#!/usr/bin/env python3\nprint(1)\n"), Some(GrammarId::Python));
    assert_eq!(lang("#!/bin/bash\n"), Some(GrammarId::Bash));
    assert_eq!(lang("#!/bin/sh -e\n"), Some(GrammarId::Bash));
    assert_eq!(lang("#!/usr/bin/env -S ruby -w\n"), Some(GrammarId::Ruby));
    assert_eq!(lang("#!/usr/bin/env NODE_ENV=prod node\n"), Some(GrammarId::JavaScript));
    assert_eq!(lang("#!/usr/local/bin/lua5.4\n"), Some(GrammarId::Lua));
    assert_eq!(lang("#! /usr/bin/php\r\n"), Some(GrammarId::Php));
    assert_eq!(lang("#!/usr/bin/env perl\n"), None);
    assert_eq!(lang("#!/usr/bin/env\n"), None);
    assert_eq!(lang("echo hi\n#!/bin/bash\n"), None);
    assert_eq!(lang(""), None);
}

#[test]
fn file_language_by_extension_then_shebang() {
    assert_eq!(language_for_file("bin/tool", "#!/usr/bin/env python\n").map(|l| l.grammar()), Some(GrammarId::Python));
    assert_eq!(language_for_file("bin/tool.txt", "#!/usr/bin/env python\n").map(|l| l.grammar()), None);
    assert_eq!(language_for_file("src/a.rs", "#!/bin/bash\n").map(|l| l.grammar()), Some(GrammarId::Rust));
}

#[test]
fn project_includes_extensionless_scripts() {
    let files = vec![SourceFile {
        path: "bin/deploy".to_string(),
        source: "#!/usr/bin/env python3\ndef unused_step():\n    pass\n".to_string(),
    }];
    let analysis = analyze_project(&files, false);
    assert_eq!(located(&analysis.dead_code), vec![("unused_step".to_string(), "bin/deploy".to_string(), 2)]);
}

#[test]
fn counts_from_pairs_keep_the_last_pair_of_a_name() {
    let counts = ReferenceCounts::from_counts(&vec![
        ("a".to_string(), 3),
        ("b".to_string(), 1),
        ("a".to_string(), 5),
    ]);
    assert_eq!(counts.count("a"), 5);
    assert_eq!(counts.count("b"), 1);
    assert_eq!(counts.count("c"), 0);
    let dead = find_dead_code(vec![def("a", "f.rs", 1, false), def("b", "f.rs", 2, false)], &counts).dead_code;
    assert_eq!(located(&dead), vec![("b".to_string(), "f.rs".to_string(), 2)]);
}

#[test]
fn listing_lines_split_into_candidates() {
    let (supported, bare) = listed_paths("src/lib.rs\r\nREADME.md\nbin/tool\nweb/app.tsx\n.gitignore\nlast.py");
    assert_eq!(supported, vec!["src/lib.rs", "web/app.tsx", "last.py"]);
    assert_eq!(bare, vec!["bin/tool", ".gitignore"]);
    let (none, nothing) = listed_paths("");
    assert!(none.is_empty() && nothing.is_empty());
}


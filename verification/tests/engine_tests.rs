use ffinder::file_search::FileSearcher;
use ffinder::grep_search::{group_by_file, FsEntry, GrepSearcher};
use ffinder::pattern::escape_literal;

fn text_entry(path: &str, content: &str) -> FsEntry {
    FsEntry {
        path: path.to_string(),
        sample: content.as_bytes().iter().take(512).cloned().collect(),
        lines: Some(content.lines().map(|l| l.to_string()).collect()),
    }
}

#[test]
fn grep_finds_single_match_and_skips_binary() {
    // Root holds a source file and an image whose bytes are pure ASCII:
    // only the source file is scanned.
    let entries = vec![
        text_entry("root/a.rs", "fn main() {}"),
        text_entry("root/b.png", "main main main"),
    ];
    let searcher = GrepSearcher::new("root", false, false, None);
    let results = searcher.search("main", &entries).unwrap();
    assert_eq!(results.files_searched, 1);
    assert_eq!(results.matches.len(), 1);
    let m = &results.matches[0];
    assert_eq!(m.file_path, "root/a.rs");
    assert_eq!(m.line_number, 1);
    assert_eq!(m.line_content, "fn main() {}");
    assert_eq!(m.match_start, 3);
    assert_eq!(m.match_end, 7);
}

#[test]
fn grep_reports_every_occurrence_in_order() {
    let entries = vec![text_entry("root/a.txt", "abab ab\nnothing\nab")];
    let searcher = GrepSearcher::new("root", false, false, None);
    let results = searcher.search("ab", &entries).unwrap();
    let spans: Vec<(usize, usize, usize)> = results
        .matches
        .iter()
        .map(|m| (m.line_number, m.match_start, m.match_end))
        .collect();
    assert_eq!(spans, vec![(1, 0, 2), (1, 2, 4), (1, 5, 7), (3, 0, 2)]);
    // Within the first line the three spans strictly increase and do not
    // overlap.
    assert!(spans[0].2 <= spans[1].1 && spans[1].2 <= spans[2].1);
}

#[test]
fn grep_invalid_regex_yields_error_not_matches() {
    let entries = vec![text_entry("root/a.txt", "(anything)")];
    let searcher = GrepSearcher::new("root", false, true, None);
    let err = searcher.search("(", &entries).unwrap_err();
    assert!(err.regex_mode);
    let line = err.render();
    assert!(line.starts_with("❌ Invalid regex pattern: "));
    // The literal engine accepts the same text.
    let literal = GrepSearcher::new("root", false, false, None);
    let ok = literal.search("(", &entries).unwrap();
    assert_eq!(ok.matches.len(), 1);
    assert_eq!(ok.matches[0].match_start, 0);
    assert_eq!(ok.matches[0].match_end, 1);
}

#[test]
fn literal_search_equals_regex_of_escaped_pattern() {
    let entries = vec![
        text_entry("root/a.txt", "price (a.b) is a.b or axb"),
        text_entry("root/b.txt", "a.b\nmore a.b here"),
    ];
    let literal = GrepSearcher::new("root", false, false, None);
    let regex = GrepSearcher::new("root", false, true, None);
    let lit = literal.search("a.b", &entries).unwrap();
    let esc = escape_literal("a.b");
    let reg = regex.search(esc.as_str(), &entries).unwrap();
    assert_eq!(lit.files_searched, reg.files_searched);
    assert_eq!(lit.matches.len(), reg.matches.len());
    for (a, b) in lit.matches.iter().zip(reg.matches.iter()) {
        assert_eq!(a.file_path, b.file_path);
        assert_eq!(a.line_number, b.line_number);
        assert_eq!(a.line_content, b.line_content);
        assert_eq!(a.match_start, b.match_start);
        assert_eq!(a.match_end, b.match_end);
    }
    // The literal mode really escaped: "a.b" must not match "axb".
    assert_eq!(lit.matches.len(), 4);
}

#[test]
fn case_insensitive_regex_content_search() {
    // The inline case directive is applied in regex mode too: "Main"
    // matches "ma.n" when the flag is set, and does not without it.
    let entries = vec![text_entry("root/a.txt", "Main story\nplain")];
    let insensitive = GrepSearcher::new("root", true, true, None);
    let results = insensitive.search("ma.n", &entries).unwrap();
    assert_eq!(results.matches.len(), 1);
    assert_eq!(results.matches[0].match_start, 0);
    assert_eq!(results.matches[0].match_end, 4);
    let sensitive = GrepSearcher::new("root", false, true, None);
    assert_eq!(sensitive.search("ma.n", &entries).unwrap().matches.len(), 0);
}

#[test]
fn literal_ci_search_equals_regex_of_escaped_pattern_ci() {
    let entries = vec![text_entry("root/a.txt", "A.B a.b axb AxB")];
    let literal = GrepSearcher::new("root", true, false, None);
    let regex = GrepSearcher::new("root", true, true, None);
    let lit = literal.search("a.b", &entries).unwrap();
    let esc = escape_literal("a.b");
    let reg = regex.search(esc.as_str(), &entries).unwrap();
    assert_eq!(lit.matches.len(), 2);
    assert_eq!(lit.matches.len(), reg.matches.len());
    for (a, b) in lit.matches.iter().zip(reg.matches.iter()) {
        assert_eq!(a.match_start, b.match_start);
        assert_eq!(a.match_end, b.match_end);
    }
}

#[test]
fn case_insensitive_literal_content_search() {
    let entries = vec![text_entry("root/a.txt", "Main MAIN main")];
    let searcher = GrepSearcher::new("root", true, false, None);
    let results = searcher.search("main", &entries).unwrap();
    assert_eq!(results.matches.len(), 3);
}

#[test]
fn extension_filter_excludes_other_files() {
    let entries = vec![
        text_entry("root/a.rs", "needle"),
        text_entry("root/b.py", "needle"),
        text_entry("root/c.txt", "needle"),
    ];
    let filter = "rs,py".to_string();
    let searcher = GrepSearcher::new("root", false, false, Some(&filter));
    let results = searcher.search("needle", &entries).unwrap();
    assert_eq!(results.files_searched, 2);
    let files: Vec<&str> = results.matches.iter().map(|m| m.file_path.as_str()).collect();
    assert_eq!(files, vec!["root/a.rs", "root/b.py"]);
}

#[test]
fn extensionless_files_judged_by_null_bytes() {
    let mut nulls = vec![b'x'; 100];
    nulls[0] = 0;
    nulls[1] = 0;
    let binary = FsEntry {
        path: "root/blob".to_string(),
        sample: nulls,
        lines: Some(vec!["needle".to_string()]),
    };
    let clean = text_entry("root/notes", "needle");
    let searcher = GrepSearcher::new("root", false, false, None);
    let results = searcher.search("needle", &vec![binary, clean]).unwrap();
    assert_eq!(results.files_searched, 1);
    assert_eq!(results.matches.len(), 1);
    assert_eq!(results.matches[0].file_path, "root/notes");
}

#[test]
fn unreadable_file_counts_but_yields_nothing() {
    let unreadable = FsEntry { path: "root/gone.txt".to_string(), sample: vec![], lines: None };
    let readable = text_entry("root/ok.txt", "needle");
    let searcher = GrepSearcher::new("root", false, false, None);
    let results = searcher.search("needle", &vec![unreadable, readable]).unwrap();
    assert_eq!(results.files_searched, 2);
    assert_eq!(results.matches.len(), 1);
    assert_eq!(results.matches[0].file_path, "root/ok.txt");
}

#[test]
fn repeated_search_is_identical() {
    let entries = vec![
        text_entry("root/a.rs", "one needle\ntwo needle needle"),
        text_entry("root/b.rs", "needle"),
    ];
    let searcher = GrepSearcher::new("root", false, false, None);
    let first = searcher.search("needle", &entries).unwrap();
    let second = searcher.search("needle", &entries).unwrap();
    assert_eq!(first.files_searched, second.files_searched);
    assert_eq!(first.matches.len(), second.matches.len());
    for (a, b) in first.matches.iter().zip(second.matches.iter()) {
        assert_eq!(a.file_path, b.file_path);
        assert_eq!(a.line_number, b.line_number);
        assert_eq!(a.line_content, b.line_content);
        assert_eq!(a.match_start, b.match_start);
        assert_eq!(a.match_end, b.match_end);
    }
}

#[test]
fn file_name_search_case_insensitive() {
    let paths = vec!["tree/Config.yaml".to_string(), "tree/setup.json".to_string()];
    let searcher = FileSearcher::new("tree", true, false);
    let found = searcher.search("config", &paths).unwrap();
    assert_eq!(found, vec!["tree/Config.yaml"]);
}

#[test]
fn file_name_search_literal_and_regex() {
    let paths = vec![
        "a/readme.md".to_string(),
        "a/read.rs".to_string(),
        "b/other.txt".to_string(),
    ];
    let literal = FileSearcher::new("a", false, false);
    assert_eq!(
        literal.search("read", &paths).unwrap(),
        vec!["a/readme.md", "a/read.rs"]
    );
    // Literal mode matches the base name, not the directories.
    assert_eq!(literal.search("a/", &paths).unwrap(), Vec::<String>::new());
    let regex = FileSearcher::new("a", false, true);
    assert_eq!(regex.search(r"^read\.rs$", &paths).unwrap(), vec!["a/read.rs"]);
    let err = regex.search("[", &paths).unwrap_err();
    assert!(err.regex_mode);
}

#[test]
fn grouping_keeps_first_occurrence_order() {
    let entries = vec![
        text_entry("root/a.txt", "x\nx"),
        text_entry("root/b.txt", "x"),
    ];
    let searcher = GrepSearcher::new("root", false, false, None);
    let results = searcher.search("x", &entries).unwrap();
    let groups = group_by_file(&results.matches);
    assert_eq!(groups.len(), 2);
    assert_eq!(groups[0].path, "root/a.txt");
    assert_eq!(groups[0].matches.len(), 2);
    assert_eq!(groups[1].path, "root/b.txt");
    assert_eq!(groups[1].matches.len(), 1);
}

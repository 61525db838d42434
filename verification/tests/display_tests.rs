use ffinder::file_search::{FileInfo, FileSearcher};
use ffinder::grep_search::{FsEntry, GrepSearcher};

fn text_entry(path: &str, content: &str) -> FsEntry {
    FsEntry {
        path: path.to_string(),
        sample: content.as_bytes().iter().take(512).cloned().collect(),
        lines: Some(content.lines().map(|l| l.to_string()).collect()),
    }
}

#[test]
fn file_results_empty_rendering_names_pattern() {
    let searcher = FileSearcher::new(".", false, false);
    let lines = searcher.display_results(&vec![], &vec![], "nothing-here");
    assert_eq!(lines, vec!["😔 No files found matching: nothing-here"]);
}

#[test]
fn file_results_rendering_lists_each_match() {
    let searcher = FileSearcher::new(".", false, false);
    let matches = vec!["src/config.rs".to_string(), "docs/config.md".to_string()];
    let infos = vec![
        Some(FileInfo { size: 1536, modified: "2024-01-02 03:04:05".to_string() }),
        None,
    ];
    let lines = searcher.display_results(&matches, &infos, "config");
    assert_eq!(lines[0], "🎉 Found 2 matches:");
    assert_eq!(lines[1], "═".repeat(80));
    assert_eq!(lines[2], "📄 1. 🦀 config.rs");
    assert_eq!(lines[3], "   📍 src");
    assert_eq!(
        lines[4],
        "   📏 1.5 KB  🕒 2024-01-02 03:04:05  🔗 src/config.rs"
    );
    assert_eq!(lines[5], "─".repeat(80));
    assert_eq!(lines[6], "❌ 2. 📖 docs/config.md");
    assert_eq!(lines[7], "═".repeat(80));
    assert_eq!(lines[8], "✅ Search completed. Found 2 files.");
    assert_eq!(lines.len(), 9);
}

#[test]
fn file_results_singular_forms() {
    let searcher = FileSearcher::new(".", false, false);
    let matches = vec!["one.txt".to_string()];
    let infos = vec![Some(FileInfo { size: 0, modified: "t".to_string() })];
    let lines = searcher.display_results(&matches, &infos, "one");
    assert_eq!(lines[0], "🎉 Found 1 match:");
    assert_eq!(lines[6], "✅ Search completed. Found 1 file.");
}

#[test]
fn grep_results_empty_rendering_names_pattern_and_count() {
    let searcher = GrepSearcher::new(".", false, false, None);
    let lines = searcher.display_results(&vec![], "absent", 3);
    assert_eq!(
        lines,
        vec!["😔 No matches found for pattern: absent (searched 3 files)"]
    );
}

#[test]
fn grep_results_rendering_groups_and_highlights() {
    let entries = vec![
        text_entry("src/a.rs", "    let needle = 1;\nneedle"),
        text_entry("src/b.rs", "has needle too"),
    ];
    let searcher = GrepSearcher::new("src", false, false, None);
    let results = searcher.search("needle", &entries).unwrap();
    assert_eq!(results.matches.len(), 3);
    let lines = searcher.display_results(&results.matches, "needle", results.files_searched);
    assert_eq!(
        lines[0],
        "🎉 Found 3 matches in 2 files (searched 2 files):"
    );
    assert_eq!(lines[1], "═".repeat(80));
    assert_eq!(lines[2], "📄 1. 🦀 a.rs (2 matches)");
    assert_eq!(lines[3], "   📍 src");
    // The leading blanks before the match are trimmed; the rest of the line
    // stays as it was.
    assert_eq!(lines[4], "     1    1 │ let needle = 1;");
    assert_eq!(lines[5], "     2    2 │ needle");
    assert_eq!(lines[6], "─".repeat(80));
    assert_eq!(lines[7], "📄 2. 🦀 b.rs (1 match)");
    assert_eq!(lines[8], "   📍 src");
    assert_eq!(lines[9], "     1    1 │ has needle too");
    assert_eq!(lines[10], "═".repeat(80));
    assert_eq!(lines[11], "✅ Search completed. Found 3 matches in 2 files.");
    assert_eq!(lines.len(), 12);
}

#[test]
fn match_split_parts_cut_at_byte_offsets() {
    let entries = vec![text_entry("d/a.txt", "  before needle after")];
    let searcher = GrepSearcher::new("d", false, false, None);
    let results = searcher.search("needle", &entries).unwrap();
    let (before, mid, after) = results.matches[0].split_parts();
    assert_eq!(before, "  before ");
    assert_eq!(mid, "needle");
    assert_eq!(after, " after");
}

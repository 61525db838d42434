//! The file-name search engine: tests the base name of every file the
//! application collected against a literal or regex pattern, and renders the
//! matching paths with their metadata.

use crate::pattern::{regex_find_all, regex_ok, Matcher, PatternError};
use crate::text::{
    base_name, base_name_spec, contains_seq, dec_spec, lower_of, parent_dir, parent_spec,
    repeat_char, repeat_char_string, str_contains, to_lowercase, usize_to_string,
};
use crate::utils::{format_file_size, format_size_spec, get_file_icon, icon_spec};
use vstd::prelude::*;

verus! {

/// Metadata the application read for one matched path: the byte size and
/// the already-rendered modification time.
pub struct FileInfo {
    pub size: u64,
    pub modified: String,
}

/// The mathematical content of a `FileInfo`.
pub struct FileInfoView {
    pub size: u64,
    pub modified: Seq<char>,
}

impl View for FileInfo {
    type V = FileInfoView;

    open spec fn view(&self) -> FileInfoView {
        FileInfoView { size: self.size, modified: self.modified@ }
    }
}

/// The views of a list of optional metadata records.
pub open spec fn infos_view(s: Seq<Option<FileInfo>>) -> Seq<Option<FileInfoView>> {
    s.map_values(
        |o: Option<FileInfo>|
            match o {
                Some(f) => Some(f@),
                None => None,
            },
    )
}

/// The lines shown for one matched path: icon, name, directory, size,
/// timestamp and full path when its metadata could be read; a single marked
/// line with the full path when it could not.
pub open spec fn file_entry_block(idx: int, path: Seq<char>, info: Option<FileInfoView>) -> Seq<
    Seq<char>,
> {
    match info {
        Some(fi) => seq![
            "📄 "@ + dec_spec(idx) + ". "@ + icon_spec(path) + " "@ + base_name_spec(path),
            "   📍 "@ + parent_spec(path),
            "   📏 "@ + format_size_spec(fi.size as int) + "  🕒 "@ + fi.modified + "  🔗 "@
                + path,
        ],
        None => seq!["❌ "@ + dec_spec(idx) + ". "@ + icon_spec(path) + " "@ + path],
    }
}

/// The blocks for the first `i` matched paths, a rule line between
/// neighbouring blocks.
pub open spec fn file_blocks_prefix(
    paths: Seq<Seq<char>>,
    infos: Seq<Option<FileInfoView>>,
    i: int,
) -> Seq<Seq<char>>
    decreases i,
{
    if i <= 0 {
        Seq::<Seq<char>>::empty()
    } else {
        file_blocks_prefix(paths, infos, i - 1) + file_entry_block(i, paths[i - 1], infos[i - 1])
            + (if i < paths.len() {
            seq![repeat_char('─', 80)]
        } else {
            Seq::<Seq<char>>::empty()
        })
    }
}

/// The whole rendering of a file-name search: an empty result shows the
/// pattern it looked for; otherwise a counted header, the per-file blocks,
/// and a closing summary, with singular and plural forms as the count asks.
pub open spec fn render_file_results_spec(
    paths: Seq<Seq<char>>,
    infos: Seq<Option<FileInfoView>>,
    pattern: Seq<char>,
) -> Seq<Seq<char>> {
    if paths.len() == 0 {
        seq!["😔 No files found matching: "@ + pattern]
    } else {
        seq![
            "🎉 Found "@ + dec_spec(paths.len() as int) + " match"@ + (if paths.len() == 1 {
                Seq::<char>::empty()
            } else {
                "es"@
            }) + ":"@,
            repeat_char('═', 80),
        ] + file_blocks_prefix(paths, infos, paths.len() as int) + seq![
            repeat_char('═', 80),
            "✅ Search completed. Found "@ + dec_spec(paths.len() as int) + " file"@ + (
            if paths.len() == 1 {
                Seq::<char>::empty()
            } else {
                "s"@
            }) + "."@,
        ]
    }
}

/// The file-name search engine: a root directory for display and the match
/// options.
pub struct FileSearcher {
    pub directory: String,
    pub case_insensitive: bool,
    pub use_regex: bool,
}

impl FileSearcher {
    /// Builds a searcher over the given root with the given options.
    pub fn new(directory: &str, case_insensitive: bool, use_regex: bool) -> (r: Self)
        ensures
            r.directory@ == directory@,
            r.case_insensitive == case_insensitive,
            r.use_regex == use_regex,
    {
        FileSearcher { directory: String::from_str(directory), case_insensitive, use_regex }
    }

    /// Whether a base name matches the pattern under this searcher's
    /// options: regex mode asks the regex engine for any match; literal
    /// mode is substring containment, on lowercased text when the search is
    /// case-insensitive.
    pub open spec fn name_matches_spec(&self, pattern: Seq<char>, name: Seq<char>) -> bool {
        if self.use_regex {
            regex_find_all(pattern, name).len() > 0
        } else if self.case_insensitive {
            contains_seq(lower_of(name), lower_of(pattern))
        } else {
            contains_seq(name, pattern)
        }
    }

    /// The paths whose base names match, in walk order.
    pub open spec fn matches_spec(&self, pattern: Seq<char>, paths: Seq<Seq<char>>) -> Seq<
        Seq<char>,
    > {
        paths.filter(|p: Seq<char>| self.name_matches_spec(pattern, base_name_spec(p)))
    }

    /// One full file-name search over the file paths the application
    /// collected, in walk order. A regex pattern is rejected exactly when
    /// it does not compile; a literal pattern never fails. The result is a
    /// function of the searcher, the pattern and the paths alone.
    pub fn search(&self, pattern: &str, paths: &Vec<String>) -> (r: Result<
        Vec<String>,
        PatternError,
    >)
        ensures
            r is Ok <==> (self.use_regex ==> regex_ok(pattern@)),
            r matches Ok(res) ==> res.deep_view() == self.matches_spec(pattern@, paths.deep_view()),
            r matches Err(e) ==> e.regex_mode,
    {
        let matcher_opt: Option<Matcher> = if self.use_regex {
            match Matcher::compile(pattern) {
                Ok(m) => Some(m),
                Err(message) => {
                    return Err(PatternError { regex_mode: true, message });
                },
            }
        } else {
            None
        };
        let lowered_pat = to_lowercase(pattern);
        let ghost pred = |p: Seq<char>| self.name_matches_spec(pattern@, base_name_spec(p));
        let mut out: Vec<String> = Vec::new();
        let mut i: usize = 0;
        proof {
            assert(paths.deep_view().subrange(0, 0).filter(pred) =~= Seq::<Seq<char>>::empty());
        }
        while i < paths.len()
            invariant
                i <= paths.len(),
                paths.deep_view().len() == paths@.len(),
                lowered_pat@ == lower_of(pattern@),
                match matcher_opt {
                    Some(m) => self.use_regex && m.pattern() == pattern@,
                    None => !self.use_regex,
                },
                pred == |p: Seq<char>| self.name_matches_spec(pattern@, base_name_spec(p)),
                out.deep_view() == paths.deep_view().subrange(0, i as int).filter(pred),
            decreases paths.len() - i,
        {
            let name = base_name(paths[i].as_str());
            let matched = match &matcher_opt {
                Some(m) => {
                    let spans = m.find_all(name);
                    proof {
                        assert(crate::pattern::spans_view(spans@).len() == spans@.len());
                    }
                    spans.len() > 0
                },
                None => {
                    if self.case_insensitive {
                        let lowered_name = to_lowercase(name);
                        str_contains(lowered_name.as_str(), lowered_pat.as_str())
                    } else {
                        str_contains(name, pattern)
                    }
                },
            };
            proof {
                assert(paths.deep_view()[i as int] == paths@[i as int]@);
                assert(matched == pred(paths.deep_view()[i as int]));
                assert(paths.deep_view().subrange(0, i + 1).drop_last() =~= paths.deep_view()
                    .subrange(0, i as int));
                assert(paths.deep_view().subrange(0, i + 1).last() == paths.deep_view()[i as int]);
                reveal_with_fuel(Seq::filter, 2);
            }
            if matched {
                let copied = paths[i].clone();
                out.push(copied);
                proof {
                    assert(out.deep_view() =~= paths.deep_view().subrange(0, i + 1).filter(pred));
                }
            } else {
                proof {
                    assert(out.deep_view() =~= paths.deep_view().subrange(0, i + 1).filter(pred));
                }
            }
            i = i + 1;
        }
        proof {
            assert(paths.deep_view().subrange(0, paths@.len() as int) =~= paths.deep_view());
        }
        Ok(out)
    }

    /// Renders the matched paths with their metadata as the lines to show,
    /// exactly as `render_file_results_spec` lays them out.
    pub fn display_results(
        &self,
        matches: &Vec<String>,
        infos: &Vec<Option<FileInfo>>,
        pattern: &str,
    ) -> (r: Vec<String>)
        requires
            matches@.len() == infos@.len(),
        ensures
            r.deep_view() == render_file_results_spec(
                matches.deep_view(),
                infos_view(infos@),
                pattern@,
            ),
    {
        let ghost pathsv = matches.deep_view();
        let ghost infosv = infos_view(infos@);
        let mut out: Vec<String> = Vec::new();
        let n = matches.len();
        if n == 0 {
            let mut l = String::from_str("😔 No files found matching: ");
            l.append(pattern);
            proof {
                assert(l@ =~= "😔 No files found matching: "@ + pattern@);
            }
            out.push(l);
            proof {
                assert(out.deep_view() =~= render_file_results_spec(pathsv, infosv, pattern@));
            }
            return out;
        }
        let count = usize_to_string(n);
        let mut head = String::from_str("🎉 Found ");
        head.append(count.as_str());
        head.append(" match");
        if n != 1 {
            head.append("es");
        }
        head.append(":");
        proof {
            assert(head@ =~= "🎉 Found "@ + dec_spec(n as int) + " match"@ + (if n == 1 {
                Seq::<char>::empty()
            } else {
                "es"@
            }) + ":"@);
        }
        out.push(head);
        out.push(repeat_char_string('═', 80));
        let ghost header = out.deep_view();
        let mut i: usize = 0;
        while i < n
            invariant
                i <= n,
                n == matches@.len(),
                n == infos@.len(),
                pathsv == matches.deep_view(),
                infosv == infos_view(infos@),
                pathsv.len() == n,
                infosv.len() == n,
                header.len() == 2,
                out.deep_view() == header + file_blocks_prefix(pathsv, infosv, i as int),
            decreases n - i,
        {
            let ghost pre = out.deep_view();
            proof {
                assert(pathsv[i as int] == matches@[i as int]@);
            }
            let idx = usize_to_string(i + 1);
            let path = &matches[i];
            let icon = get_file_icon(path.as_str());
            match &infos[i] {
                Some(fi) => {
                    proof {
                        assert(infosv[i as int] == Some(infos@[i as int]->0@));
                    }
                    let mut l1 = String::from_str("📄 ");
                    l1.append(idx.as_str());
                    l1.append(". ");
                    l1.append(icon.as_str());
                    l1.append(" ");
                    l1.append(base_name(path.as_str()));
                    proof {
                        assert(l1@ =~= "📄 "@ + dec_spec(i + 1) + ". "@ + icon_spec(
                            pathsv[i as int],
                        ) + " "@ + base_name_spec(pathsv[i as int]));
                    }
                    out.push(l1);
                    let mut l2 = String::from_str("   📍 ");
                    l2.append(parent_dir(path.as_str()));
                    proof {
                        assert(l2@ =~= "   📍 "@ + parent_spec(pathsv[i as int]));
                    }
                    out.push(l2);
                    let mut l3 = String::from_str("   📏 ");
                    let size_text = format_file_size(fi.size);
                    l3.append(size_text.as_str());
                    l3.append("  🕒 ");
                    l3.append(fi.modified.as_str());
                    l3.append("  🔗 ");
                    l3.append(path.as_str());
                    proof {
                        assert(l3@ =~= "   📏 "@ + format_size_spec(fi.size as int) + "  🕒 "@
                            + fi.modified@ + "  🔗 "@ + pathsv[i as int]);
                    }
                    out.push(l3);
                    proof {
                        assert(out.deep_view() =~= pre + file_entry_block(
                            i + 1,
                            pathsv[i as int],
                            infosv[i as int],
                        ));
                    }
                },
                None => {
                    proof {
                        assert(infosv[i as int] is None);
                    }
                    let mut l1 = String::from_str("❌ ");
                    l1.append(idx.as_str());
                    l1.append(". ");
                    l1.append(icon.as_str());
                    l1.append(" ");
                    l1.append(path.as_str());
                    proof {
                        assert(l1@ =~= "❌ "@ + dec_spec(i + 1) + ". "@ + icon_spec(
                            pathsv[i as int],
                        ) + " "@ + pathsv[i as int]);
                    }
                    out.push(l1);
                    proof {
                        assert(out.deep_view() =~= pre + file_entry_block(
                            i + 1,
                            pathsv[i as int],
                            infosv[i as int],
                        ));
                    }
                },
            }
            if i + 1 < n {
                let ghost mid = out.deep_view();
                out.push(repeat_char_string('─', 80));
                proof {
                    assert(out.deep_view() =~= mid.push(repeat_char('─', 80)));
                }
            }
            proof {
                assert(out.deep_view() =~= header + file_blocks_prefix(pathsv, infosv, i + 1));
            }
            i = i + 1;
        }
        let ghost base = out.deep_view();
        out.push(repeat_char_string('═', 80));
        proof {
            assert(out.deep_view() =~= base.push(repeat_char('═', 80)));
        }
        let ghost base2 = out.deep_view();
        let mut tail = String::from_str("✅ Search completed. Found ");
        tail.append(count.as_str());
        tail.append(" file");
        if n != 1 {
            tail.append("s");
        }
        tail.append(".");
        proof {
            assert(tail@ =~= "✅ Search completed. Found "@ + dec_spec(n as int) + " file"@ + (
            if n == 1 {
                Seq::<char>::empty()
            } else {
                "s"@
            }) + "."@);
        }
        let ghost tailv = tail@;
        out.push(tail);
        proof {
            assert(out.deep_view() =~= base2.push(tailv));
            assert(out.deep_view() =~= render_file_results_spec(pathsv, infosv, pattern@));
        }
        out
    }
}

} // verus!

//! The content search engine: scans the lines of the files an application
//! collected under a root, records every occurrence of the pattern, and
//! groups the occurrences by file for presentation.

use crate::pattern::{
    effective_pattern, escape_spec, regex_find_all, regex_ok, span_wf, Matcher, PatternError,
};
use crate::text::{
    base_name, base_name_spec, dec_spec, lower_of, pad4, pad4_spec, parent_dir, parent_spec,
    repeat_char, repeat_char_string, split_commas, split_commas_spec, str_eq, to_lowercase,
    trim_spec, trim_start_spec, trim_start_str, trim_str, usize_to_string,
};
use crate::utils::{
    extension_allowed_spec, get_file_icon, icon_spec, is_binary_file, is_binary_spec,
    should_search_file,
};
use vstd::prelude::*;
use vstd::string::StringSliceAdditionalSpecFns;
use vstd::utf8::{decode_utf8, encode_utf8, is_char_boundary, is_continuation_byte, valid_utf8};

verus! {

/// The characters encoded by the byte range `[i, j)` of a line's UTF-8
/// encoding; match spans address the line by bytes.
pub open spec fn byte_slice_chars(s: Seq<char>, i: int, j: int) -> Seq<char> {
    decode_utf8(encode_utf8(s).subrange(i, j))
}

/// One occurrence of the pattern: the file, the 1-based line number, the
/// full line text, and the byte-offset span of the occurrence in the line.
#[derive(Debug)]
pub struct Match {
    pub file_path: String,
    pub line_number: usize,
    pub line_content: String,
    pub match_start: usize,
    pub match_end: usize,
}

/// The mathematical content of a `Match`.
pub struct MatchView {
    pub file_path: Seq<char>,
    pub line_number: int,
    pub line_content: Seq<char>,
    pub match_start: int,
    pub match_end: int,
}

impl View for Match {
    type V = MatchView;

    open spec fn view(&self) -> MatchView {
        MatchView {
            file_path: self.file_path@,
            line_number: self.line_number as int,
            line_content: self.line_content@,
            match_start: self.match_start as int,
            match_end: self.match_end as int,
        }
    }
}

impl MatchView {
    /// The span is an ordered byte range within the line's UTF-8 encoding,
    /// both ends on character boundaries, and the line number is 1-based.
    pub open spec fn wf(self) -> bool {
        span_wf((self.match_start, self.match_end), self.line_content) && self.line_number >= 1
    }
}

impl Match {
    /// A copy with the same fields.
    pub fn duplicate(&self) -> (r: Match)
        ensures
            r@ == self@,
    {
        Match {
            file_path: self.file_path.clone(),
            line_number: self.line_number,
            line_content: self.line_content.clone(),
            match_start: self.match_start,
            match_end: self.match_end,
        }
    }

    /// The line text before, inside and after this occurrence, split at the
    /// occurrence's byte offsets.
    pub fn split_parts<'a>(&'a self) -> (r: (&'a str, &'a str, &'a str))
        requires
            self@.wf(),
        ensures
            r.0@ == byte_slice_chars(self.line_content@, 0, self@.match_start),
            r.1@ == byte_slice_chars(self.line_content@, self@.match_start, self@.match_end),
            r.2@ == byte_slice_chars(
                self.line_content@,
                self@.match_end,
                encode_utf8(self.line_content@).len() as int,
            ),
            r.0@ + r.1@ + r.2@ == self.line_content@,
    {
        let start = self.match_start;
        let end = self.match_end;
        let line = self.line_content.as_str();
        let ghost bytes = encode_utf8(self.line_content@);
        proof {
            broadcast use vstd::utf8::encode_utf8_valid_utf8;
            broadcast use vstd::utf8::is_char_boundary_start_end_of_seq;

            assert(valid_utf8(bytes));
        }
        let (before, rest) = line.split_at(start);
        proof {
            broadcast use vstd::utf8::encode_utf8_valid_utf8;
            broadcast use vstd::utf8::valid_utf8_split;
            broadcast use vstd::utf8::is_char_boundary_iff_not_is_continuation_byte;
            broadcast use vstd::utf8::is_char_boundary_start_end_of_seq;

            assert(rest.spec_bytes() == bytes.subrange(start as int, bytes.len() as int));
            assert(valid_utf8(bytes.subrange(start as int, bytes.len() as int)));
            if end as int == bytes.len() as int {
                assert(end - start == rest.spec_bytes().len());
                assert(is_char_boundary(rest.spec_bytes(), end - start));
            } else {
                assert(!is_continuation_byte(bytes[end as int]));
                assert(rest.spec_bytes()[end - start] == bytes[end as int]);
                assert(is_char_boundary(rest.spec_bytes(), end - start));
            }
        }
        let (mid, after) = rest.split_at(end - start);
        proof {
            broadcast use vstd::utf8::encode_utf8_valid_utf8;
            broadcast use vstd::utf8::encode_utf8_decode_utf8;
            broadcast use vstd::utf8::valid_utf8_split;
            broadcast use vstd::utf8::decode_utf8_split;
            broadcast use vstd::utf8::is_char_boundary_start_end_of_seq;

            let rb = bytes.subrange(start as int, bytes.len() as int);
            assert(before.spec_bytes() == bytes.subrange(0, start as int));
            assert(mid.spec_bytes() =~= bytes.subrange(start as int, end as int));
            assert(after.spec_bytes() =~= bytes.subrange(end as int, bytes.len() as int));
            assert(decode_utf8(encode_utf8(before@)) == before@);
            assert(decode_utf8(encode_utf8(mid@)) == mid@);
            assert(decode_utf8(encode_utf8(after@)) == after@);
            assert(before@ == byte_slice_chars(self.line_content@, 0, start as int));
            assert(mid@ == byte_slice_chars(self.line_content@, start as int, end as int));
            assert(after@ == byte_slice_chars(
                self.line_content@,
                end as int,
                bytes.len() as int,
            ));
            assert(decode_utf8(bytes) == decode_utf8(bytes.subrange(0, start as int))
                + decode_utf8(rb));
            assert(is_char_boundary(rb, end - start));
            assert(decode_utf8(rb) == decode_utf8(rb.subrange(0, end - start)) + decode_utf8(
                rb.subrange(end - start, rb.len() as int),
            ));
            assert(rb.subrange(0, end - start) =~= bytes.subrange(start as int, end as int));
            assert(rb.subrange(end - start, rb.len() as int) =~= bytes.subrange(
                end as int,
                bytes.len() as int,
            ));
            assert(decode_utf8(encode_utf8(self.line_content@)) == self.line_content@);
            assert(before@ + mid@ + after@ == self.line_content@);
        }
        (before, mid, after)
    }
}

/// The matches one line contributes: one per span, in the engine's order.
pub open spec fn line_matches_spec(
    ep: Seq<char>,
    path: Seq<char>,
    line_number: int,
    line: Seq<char>,
) -> Seq<MatchView> {
    regex_find_all(ep, line).map_values(
        |t: (int, int)|
            MatchView {
                file_path: path,
                line_number: line_number,
                line_content: line,
                match_start: t.0,
                match_end: t.1,
            },
    )
}

/// The matches a file's lines contribute, in line order; line `i` (0-based)
/// carries line number `i + 1`.
pub open spec fn file_matches_spec(ep: Seq<char>, path: Seq<char>, lines: Seq<Seq<char>>) -> Seq<
    MatchView,
>
    decreases lines.len(),
{
    if lines.len() == 0 {
        Seq::<MatchView>::empty()
    } else {
        file_matches_spec(ep, path, lines.drop_last()) + line_matches_spec(
            ep,
            path,
            lines.len() as int,
            lines.last(),
        )
    }
}

/// One filesystem entry as the application hands it over: the path, a
/// sample of the file's leading bytes for binary sniffing, and its text
/// lines, or `None` when the file could not be read.
pub struct FsEntry {
    pub path: String,
    pub sample: Vec<u8>,
    pub lines: Option<Vec<String>>,
}

/// The mathematical content of an `FsEntry`.
pub struct FsEntryView {
    pub path: Seq<char>,
    pub sample: Seq<u8>,
    pub lines: Option<Seq<Seq<char>>>,
}

impl View for FsEntry {
    type V = FsEntryView;

    open spec fn view(&self) -> FsEntryView {
        FsEntryView {
            path: self.path@,
            sample: self.sample@,
            lines: match self.lines {
                Some(ls) => Some(ls.deep_view()),
                None => None,
            },
        }
    }
}

/// The views of a sequence of entries.
pub open spec fn entries_view(s: Seq<FsEntry>) -> Seq<FsEntryView> {
    s.map_values(|e: FsEntry| e@)
}

/// The classification the content engine applies before opening a file: the
/// extension filter admits the path and the file is not binary.
pub open spec fn admitted_spec(exts: Option<Seq<Seq<char>>>, e: FsEntryView) -> bool {
    extension_allowed_spec(e.path, exts) && !is_binary_spec(e.path, e.sample)
}

/// The matches one admitted entry contributes: an unreadable file
/// contributes none.
pub open spec fn entry_matches_spec(ep: Seq<char>, e: FsEntryView) -> Seq<MatchView> {
    match e.lines {
        Some(lines) => file_matches_spec(ep, e.path, lines),
        None => Seq::<MatchView>::empty(),
    }
}

/// All matches of one search, in walk order: skipped entries contribute
/// nothing, admitted entries contribute their lines' matches in order.
pub open spec fn grep_matches_spec(
    exts: Option<Seq<Seq<char>>>,
    ep: Seq<char>,
    entries: Seq<FsEntryView>,
) -> Seq<MatchView>
    decreases entries.len(),
{
    if entries.len() == 0 {
        Seq::<MatchView>::empty()
    } else {
        grep_matches_spec(exts, ep, entries.drop_last()) + (if admitted_spec(
            exts,
            entries.last(),
        ) {
            entry_matches_spec(ep, entries.last())
        } else {
            Seq::<MatchView>::empty()
        })
    }
}

/// How many entries the search admits and scans.
pub open spec fn files_searched_spec(exts: Option<Seq<Seq<char>>>, entries: Seq<FsEntryView>) -> int
    decreases entries.len(),
{
    if entries.len() == 0 {
        0
    } else {
        files_searched_spec(exts, entries.drop_last()) + (if admitted_spec(exts, entries.last()) {
            1int
        } else {
            0int
        })
    }
}

/// Scans one line and returns one `Match` per occurrence of the compiled
/// pattern, in left-to-right order: a line holding `k` non-overlapping
/// occurrences yields exactly `k` matches, their spans non-overlapping with
/// strictly increasing starts.
pub fn scan_line(m: &Matcher, path: &str, line_number: usize, line: &str) -> (r: Vec<Match>)
    requires
        1 <= line_number,
    ensures
        r@.map_values(|x: Match| x@) == line_matches_spec(
            m.pattern(),
            path@,
            line_number as int,
            line@,
        ),
        r@.len() == regex_find_all(m.pattern(), line@).len(),
        forall|i: int| 0 <= i < r@.len() ==> (#[trigger] r@[i])@.wf(),
        forall|i: int|
            0 <= i < r@.len() - 1 ==> (#[trigger] r@[i]).match_end <= r@[i + 1].match_start && r@[
                i
            ].match_start < r@[i + 1].match_start,
{
    let spans = m.find_all(line);
    let ghost lms = line_matches_spec(m.pattern(), path@, line_number as int, line@);
    let mut out: Vec<Match> = Vec::new();
    let mut i: usize = 0;
    while i < spans.len()
        invariant
            i <= spans.len(),
            1 <= line_number,
            lms == line_matches_spec(m.pattern(), path@, line_number as int, line@),
            crate::pattern::spans_view(spans@) == regex_find_all(m.pattern(), line@),
            forall|k: int|
                0 <= k < spans@.len() ==> span_wf(
                    (#[trigger] spans@[k].0 as int, spans@[k].1 as int),
                    line@,
                ),
            forall|k: int|
                0 <= k < spans@.len() - 1 ==> (#[trigger] spans@[k].1) <= spans@[k + 1].0
                    && spans@[k].0 < spans@[k + 1].0,
            out@.len() == i,
            forall|k: int|
                0 <= k < i ==> (#[trigger] out@[k])@ == lms[k] && out@[k].match_start == spans@[
                    k
                ].0 && out@[k].match_end == spans@[k].1,
        decreases spans.len() - i,
    {
        let (s, e) = spans[i];
        let mm = Match {
            file_path: String::from_str(path),
            line_number,
            line_content: String::from_str(line),
            match_start: s,
            match_end: e,
        };
        proof {
            assert(regex_find_all(m.pattern(), line@)[i as int] == (
                spans@[i as int].0 as int,
                spans@[i as int].1 as int,
            ));
            assert(mm@ == lms[i as int]);
        }
        out.push(mm);
        i = i + 1;
    }
    proof {
        assert(out@.map_values(|x: Match| x@) =~= lms);
    }
    out
}

/// The flat result of one content search: every occurrence in walk order,
/// and how many files were scanned.
#[derive(Debug)]
pub struct GrepResults {
    pub matches: Vec<Match>,
    pub files_searched: usize,
}

/// The content search engine: a root directory for display, the match
/// options, and the optional extension filter.
pub struct GrepSearcher {
    pub directory: String,
    pub case_insensitive: bool,
    pub use_regex: bool,
    pub extensions: Option<Vec<String>>,
}

impl GrepSearcher {
    /// The extension filter as the contracts see it.
    pub open spec fn exts_view(&self) -> Option<Seq<Seq<char>>> {
        match self.extensions {
            Some(v) => Some(v.deep_view()),
            None => None,
        }
    }

    /// The regex source this searcher's options make out of a pattern.
    pub open spec fn pattern_view(&self, pattern: Seq<char>) -> Seq<char> {
        effective_pattern(pattern, self.use_regex, self.case_insensitive)
    }

    /// Builds a searcher; a comma-separated extension list is split, and
    /// each piece trimmed and lowercased.
    pub fn new(
        directory: &str,
        case_insensitive: bool,
        use_regex: bool,
        extensions: Option<&String>,
    ) -> (r: Self)
        ensures
            r.directory@ == directory@,
            r.case_insensitive == case_insensitive,
            r.use_regex == use_regex,
            match extensions {
                Some(s) => r.exts_view() == Some(
                    split_commas_spec(s@).map_values(|t: Seq<char>| lower_of(trim_spec(t))),
                ),
                None => r.exts_view() is None,
            },
    {
        let exts: Option<Vec<String>> = match extensions {
            Some(s) => {
                let tokens = split_commas(s.as_str());
                let mut out: Vec<String> = Vec::new();
                let mut i: usize = 0;
                while i < tokens.len()
                    invariant
                        i <= tokens.len(),
                        tokens.deep_view() == split_commas_spec(s@),
                        out@.len() == i,
                        forall|k: int|
                            0 <= k < i ==> (#[trigger] out@[k])@ == lower_of(
                                trim_spec(tokens.deep_view()[k]),
                            ),
                    decreases tokens.len() - i,
                {
                    let trimmed = trim_str(tokens[i].as_str());
                    let lowered = to_lowercase(trimmed);
                    proof {
                        assert(tokens.deep_view()[i as int] == tokens@[i as int]@);
                    }
                    out.push(lowered);
                    i = i + 1;
                }
                proof {
                    assert(out.deep_view() =~= split_commas_spec(s@).map_values(
                        |t: Seq<char>| lower_of(trim_spec(t)),
                    ));
                }
                Some(out)
            },
            None => None,
        };
        GrepSearcher {
            directory: String::from_str(directory),
            case_insensitive,
            use_regex,
            extensions: exts,
        }
    }

    /// One full content search over the entries the application collected.
    /// The pattern is rejected exactly when its effective regex source does
    /// not compile; otherwise every occurrence in every admitted, readable
    /// entry is returned in walk order, and `files_searched` counts the
    /// admitted entries. The result is a function of the searcher, the
    /// pattern and the entries alone: the same inputs give the same result.
    pub fn search(&self, pattern: &str, entries: &Vec<FsEntry>) -> (r: Result<
        GrepResults,
        PatternError,
    >)
        ensures
            r is Ok <==> regex_ok(self.pattern_view(pattern@)),
            r matches Ok(res) ==> res.matches@.map_values(|x: Match| x@) == grep_matches_spec(
                self.exts_view(),
                self.pattern_view(pattern@),
                entries_view(entries@),
            ),
            r matches Ok(res) ==> res.files_searched == files_searched_spec(
                self.exts_view(),
                entries_view(entries@),
            ),
            r matches Ok(res) ==> forall|i: int|
                0 <= i < res.matches@.len() ==> (#[trigger] res.matches@[i])@.wf(),
            r matches Err(e) ==> e.regex_mode == self.use_regex,
    {
        let ep = crate::pattern::build_effective_pattern(
            pattern,
            self.use_regex,
            self.case_insensitive,
        );
        let matcher = match Matcher::compile(ep.as_str()) {
            Ok(m) => m,
            Err(message) => {
                return Err(PatternError { regex_mode: self.use_regex, message });
            },
        };
        let ghost epv = self.pattern_view(pattern@);
        let ghost evs = entries_view(entries@);
        let mut matches: Vec<Match> = Vec::new();
        let mut files_searched: usize = 0;
        let mut i: usize = 0;
        while i < entries.len()
            invariant
                i <= entries.len(),
                matcher.pattern() == epv,
                epv == self.pattern_view(pattern@),
                evs == entries_view(entries@),
                evs.len() == entries@.len(),
                matches@.map_values(|x: Match| x@) == grep_matches_spec(
                    self.exts_view(),
                    epv,
                    evs.subrange(0, i as int),
                ),
                files_searched == files_searched_spec(self.exts_view(), evs.subrange(0, i as int)),
                files_searched <= i,
                forall|k: int| 0 <= k < matches@.len() ==> (#[trigger] matches@[k])@.wf(),
            decreases entries.len() - i,
        {
            let entry = &entries[i];
            proof {
                assert(evs[i as int] == entries@[i as int]@);
                assert(evs.subrange(0, i + 1).drop_last() =~= evs.subrange(0, i as int));
                assert(evs.subrange(0, i + 1).last() == evs[i as int]);
            }
            let wanted = should_search_file(entry.path.as_str(), &self.extensions)
                && !is_binary_file(entry.path.as_str(), entry.sample.as_slice());
            proof {
                assert(wanted == admitted_spec(self.exts_view(), evs[i as int]));
            }
            if wanted {
                files_searched = files_searched + 1;
                match &entry.lines {
                    Some(lines) => {
                        let ghost lsv = lines.deep_view();
                        proof {
                            assert(evs[i as int].lines == Some(lsv));
                        }
                        let mut j: usize = 0;
                        while j < lines.len()
                            invariant
                                j <= lines.len(),
                                lines.deep_view() == lsv,
                                lsv.len() == lines@.len(),
                                matcher.pattern() == epv,
                                i < entries@.len(),
                                evs == entries_view(entries@),
                                *entry == entries@[i as int],
                                matches@.map_values(|x: Match| x@) == grep_matches_spec(
                                    self.exts_view(),
                                    epv,
                                    evs.subrange(0, i as int),
                                ) + file_matches_spec(epv, entry.path@, lsv.subrange(0, j as int)),
                                forall|k: int|
                                    0 <= k < matches@.len() ==> (#[trigger] matches@[k])@.wf(),
                            decreases lines.len() - j,
                        {
                            let ghost pre = matches@;
                            let ghost fprev = file_matches_spec(
                                epv,
                                entry.path@,
                                lsv.subrange(0, j as int),
                            );
                            let ghost gprev = grep_matches_spec(
                                self.exts_view(),
                                epv,
                                evs.subrange(0, i as int),
                            );
                            proof {
                                assert(lsv.subrange(0, j + 1).drop_last() =~= lsv.subrange(
                                    0,
                                    j as int,
                                ));
                                assert(lsv.subrange(0, j + 1).last() == lsv[j as int]);
                                assert(lsv[j as int] == lines@[j as int]@);
                            }
                            let mut lm = scan_line(
                                &matcher,
                                entry.path.as_str(),
                                j + 1,
                                lines[j].as_str(),
                            );
                            let ghost lmv = line_matches_spec(
                                epv,
                                entry.path@,
                                j + 1,
                                lsv[j as int],
                            );
                            let ghost lmseq = lm@;
                            proof {
                                assert(lmseq.map_values(|x: Match| x@) == lmv);
                                assert(file_matches_spec(epv, entry.path@, lsv.subrange(0, j + 1))
                                    == fprev + lmv);
                            }
                            matches.append(&mut lm);
                            proof {
                                assert(matches@ == pre + lmseq);
                                assert(pre.map_values(|x: Match| x@).len() == pre.len());
                                assert(pre.len() == gprev.len() + fprev.len());
                                assert(lmseq.map_values(|x: Match| x@).len() == lmseq.len());
                                assert(lmseq.len() == lmv.len());
                                assert forall|k: int| 0 <= k < matches@.len() implies (
                                #[trigger] matches@[k])@ == (gprev + (fprev + lmv))[k] by {
                                    if k < pre.len() {
                                        assert(matches@[k] == pre[k]);
                                        assert(pre.map_values(|x: Match| x@)[k] == pre[k]@);
                                        assert(pre[k]@ == (gprev + fprev)[k]);
                                        if k < gprev.len() {
                                            assert((gprev + fprev)[k] == gprev[k]);
                                            assert((gprev + (fprev + lmv))[k] == gprev[k]);
                                        } else {
                                            assert((gprev + fprev)[k] == fprev[k - gprev.len()]);
                                            assert((fprev + lmv)[k - gprev.len()] == fprev[k
                                                - gprev.len()]);
                                            assert((gprev + (fprev + lmv))[k] == (fprev + lmv)[k
                                                - gprev.len()]);
                                        }
                                    } else {
                                        assert(matches@[k] == lmseq[k - pre.len()]);
                                        assert(lmseq.map_values(|x: Match| x@)[k - pre.len()]
                                            == lmseq[k - pre.len()]@);
                                        assert(lmseq[k - pre.len()]@ == lmv[k - pre.len()]);
                                        assert((fprev + lmv)[k - gprev.len()] == lmv[k - pre.len()]);
                                        assert((gprev + (fprev + lmv))[k] == (fprev + lmv)[k
                                            - gprev.len()]);
                                    }
                                }
                                assert(matches@.map_values(|x: Match| x@) =~= gprev
                                    + file_matches_spec(
                                    epv,
                                    entry.path@,
                                    lsv.subrange(0, j + 1),
                                ));
                            }
                            j = j + 1;
                        }
                        proof {
                            assert(lsv.subrange(0, lines@.len() as int) =~= lsv);
                            assert(entry_matches_spec(epv, evs[i as int]) == file_matches_spec(
                                epv,
                                entries@[i as int].path@,
                                lsv,
                            ));
                            assert(matches@.map_values(|x: Match| x@) =~= grep_matches_spec(
                                self.exts_view(),
                                epv,
                                evs.subrange(0, i + 1),
                            ));
                        }
                    },
                    None => {
                        proof {
                            assert(entry_matches_spec(epv, evs[i as int]) =~= Seq::<
                                MatchView,
                            >::empty());
                            assert(matches@.map_values(|x: Match| x@) =~= grep_matches_spec(
                                self.exts_view(),
                                epv,
                                evs.subrange(0, i + 1),
                            ));
                        }
                    },
                }
            } else {
                proof {
                    assert(matches@.map_values(|x: Match| x@) =~= grep_matches_spec(
                        self.exts_view(),
                        epv,
                        evs.subrange(0, i + 1),
                    ));
                }
            }
            i = i + 1;
        }
        proof {
            assert(evs.subrange(0, entries@.len() as int) =~= evs);
        }
        Ok(GrepResults { matches, files_searched })
    }
}

/// The matches grouped under one file for presentation.
pub struct FileGroup {
    pub path: String,
    pub matches: Vec<Match>,
}

/// The distinct file paths of the matches, in order of first occurrence.
pub open spec fn group_paths(ms: Seq<MatchView>) -> Seq<Seq<char>>
    decreases ms.len(),
{
    if ms.len() == 0 {
        Seq::<Seq<char>>::empty()
    } else {
        let p = group_paths(ms.drop_last());
        if p.contains(ms.last().file_path) {
            p
        } else {
            p.push(ms.last().file_path)
        }
    }
}

/// The matches that fall under one file, in their original order.
pub open spec fn group_of(ms: Seq<MatchView>, path: Seq<char>) -> Seq<MatchView> {
    ms.filter(|m: MatchView| m.file_path == path)
}

/// Groups the matches by file: files keep the order of their first match,
/// and each file holds all of its matches in their original order.
pub fn group_by_file(matches: &Vec<Match>) -> (r: Vec<FileGroup>)
    requires
        forall|i: int| 0 <= i < matches@.len() ==> (#[trigger] matches@[i])@.wf(),
    ensures
        r@.len() == group_paths(matches@.map_values(|x: Match| x@)).len(),
        forall|k: int|
            0 <= k < r@.len() ==> (#[trigger] r@[k]).path@ == group_paths(
                matches@.map_values(|x: Match| x@),
            )[k],
        forall|k: int|
            0 <= k < r@.len() ==> (#[trigger] r@[k]).matches@.map_values(|x: Match| x@)
                == group_of(
                matches@.map_values(|x: Match| x@),
                group_paths(matches@.map_values(|x: Match| x@))[k],
            ),
        forall|k: int, l: int|
            0 <= k < r@.len() && 0 <= l < r@[k].matches@.len() ==> (#[trigger] r@[k].matches@[
                l
            ])@.wf(),
{
    let ghost vm = matches@.map_values(|x: Match| x@);
    let mut groups: Vec<FileGroup> = Vec::new();
    let mut i: usize = 0;
    proof {
        assert(vm.subrange(0, 0) =~= Seq::<MatchView>::empty());
    }
    while i < matches.len()
        invariant
            i <= matches@.len(),
            vm == matches@.map_values(|x: Match| x@),
            vm.len() == matches@.len(),
            forall|l: int| 0 <= l < matches@.len() ==> (#[trigger] matches@[l])@.wf(),
            groups@.len() == group_paths(vm.subrange(0, i as int)).len(),
            forall|k: int|
                0 <= k < groups@.len() ==> (#[trigger] groups@[k]).path@ == group_paths(
                    vm.subrange(0, i as int),
                )[k],
            forall|k: int|
                0 <= k < groups@.len() ==> (#[trigger] groups@[k]).matches@.map_values(
                    |x: Match| x@,
                ) == group_of(vm, group_paths(vm.subrange(0, i as int))[k]),
            forall|k: int, l: int|
                0 <= k < groups@.len() && 0 <= l < groups@[k].matches@.len() ==> (
                #[trigger] groups@[k].matches@[l])@.wf(),
        decreases matches@.len() - i,
    {
        let ghost pfx = vm.subrange(0, i as int);
        let ghost target = vm[i as int].file_path;
        proof {
            assert(vm[i as int] == matches@[i as int]@);
            assert(vm.subrange(0, i + 1).drop_last() =~= pfx);
            assert(vm.subrange(0, i + 1).last() == vm[i as int]);
        }
        let mut seen = false;
        let mut g: usize = 0;
        while g < groups.len()
            invariant
                g <= groups@.len(),
                i < matches@.len(),
                vm.len() == matches@.len(),
                vm == matches@.map_values(|x: Match| x@),
                target == vm[i as int].file_path,
                target == matches@[i as int].file_path@,
                seen ==> exists|l: int|
                    0 <= l < groups@.len() && (#[trigger] groups@[l]).path@ == target,
                !seen ==> forall|l: int| 0 <= l < g ==> (#[trigger] groups@[l]).path@ != target,
            decreases groups@.len() - g,
        {
            if str_eq(groups[g].path.as_str(), matches[i].file_path.as_str()) {
                seen = true;
            }
            g = g + 1;
        }
        if !seen {
            proof {
                assert forall|l: int| 0 <= l < group_paths(pfx).len() implies #[trigger] group_paths(
                    pfx,
                )[l] != target by {
                    assert(groups@[l].path@ == group_paths(pfx)[l]);
                    assert(groups@[l].path@ != target);
                }
                assert(!group_paths(pfx).contains(target));
            }
            let mut collected: Vec<Match> = Vec::new();
            let mut j: usize = 0;
            let ghost pred = |m: MatchView| m.file_path == target;
            proof {
                assert(vm.subrange(0, 0).filter(pred) =~= Seq::<MatchView>::empty());
            }
            while j < matches.len()
                invariant
                    j <= matches@.len(),
                    i < matches@.len(),
                    vm == matches@.map_values(|x: Match| x@),
                    vm.len() == matches@.len(),
                    forall|l: int| 0 <= l < matches@.len() ==> (#[trigger] matches@[l])@.wf(),
                    target == matches@[i as int].file_path@,
                    pred == (|m: MatchView| m.file_path == target),
                    collected@.map_values(|x: Match| x@) == vm.subrange(0, j as int).filter(pred),
                    forall|l: int|
                        0 <= l < collected@.len() ==> (#[trigger] collected@[l])@.wf(),
                decreases matches@.len() - j,
            {
                proof {
                    assert(vm.subrange(0, j + 1).drop_last() =~= vm.subrange(0, j as int));
                    assert(vm.subrange(0, j + 1).last() == vm[j as int]);
                    assert(vm[j as int] == matches@[j as int]@);
                    reveal_with_fuel(Seq::filter, 2);
                }
                let ghost precoll = collected@;
                if str_eq(matches[j].file_path.as_str(), matches[i].file_path.as_str()) {
                    collected.push(matches[j].duplicate());
                    proof {
                        assert(collected@.map_values(|x: Match| x@) =~= precoll.map_values(
                            |x: Match| x@,
                        ).push(vm[j as int]));
                    }
                } else {
                    proof {
                        assert(collected@.map_values(|x: Match| x@) == vm.subrange(
                            0,
                            j + 1,
                        ).filter(pred));
                    }
                }
                j = j + 1;
            }
            proof {
                assert(vm.subrange(0, matches@.len() as int) =~= vm);
            }
            let owner = matches[i].file_path.clone();
            let ghost pregroups = groups@;
            groups.push(FileGroup { path: owner, matches: collected });
            proof {
                assert(group_paths(vm.subrange(0, i + 1)) =~= group_paths(pfx).push(target));
                assert(groups@[pregroups.len() as int].matches@.map_values(|x: Match| x@)
                    == group_of(vm, target));
            }
        } else {
            proof {
                let witness = choose|l: int|
                    0 <= l < groups@.len() && (#[trigger] groups@[l]).path@ == target;
                assert(group_paths(pfx)[witness] == target);
                assert(group_paths(pfx).contains(target));
                assert(group_paths(vm.subrange(0, i + 1)) == group_paths(pfx));
            }
        }
        i = i + 1;
    }
    proof {
        assert(vm.subrange(0, matches@.len() as int) =~= vm);
    }
    groups
}

/// One rendered occurrence: its index within the file, the padded line
/// number, and the line text with the blanks before the match removed.
pub open spec fn match_line_spec(mi: int, m: MatchView) -> Seq<char> {
    "     "@ + dec_spec(mi) + " "@ + pad4_spec(dec_spec(m.line_number)) + " │ "@
        + trim_start_spec(byte_slice_chars(m.line_content, 0, m.match_start)) + byte_slice_chars(
        m.line_content,
        m.match_start,
        m.match_end,
    ) + byte_slice_chars(m.line_content, m.match_end, encode_utf8(m.line_content).len() as int)
}

/// The rendered occurrences of one file's first `j` matches.
pub open spec fn match_lines_prefix(ms: Seq<MatchView>, j: int) -> Seq<Seq<char>>
    decreases j,
{
    if j <= 0 {
        Seq::<Seq<char>>::empty()
    } else {
        match_lines_prefix(ms, j - 1).push(match_line_spec(j, ms[j - 1]))
    }
}

/// The lines shown for one file: a counted header, its directory, and one
/// line per occurrence.
pub open spec fn group_block(gi: int, path: Seq<char>, ms: Seq<MatchView>) -> Seq<Seq<char>> {
    seq![
        "📄 "@ + dec_spec(gi) + ". "@ + icon_spec(path) + " "@ + base_name_spec(path) + " ("@
            + dec_spec(ms.len() as int) + " match"@ + (if ms.len() == 1 {
            Seq::<char>::empty()
        } else {
            "es"@
        }) + ")"@,
        "   📍 "@ + parent_spec(path),
    ] + match_lines_prefix(ms, ms.len() as int)
}

/// The blocks of the first `g` groups, a rule line between neighbours.
pub open spec fn group_blocks_prefix(
    gpaths: Seq<Seq<char>>,
    gms: Seq<Seq<MatchView>>,
    g: int,
) -> Seq<Seq<char>>
    decreases g,
{
    if g <= 0 {
        Seq::<Seq<char>>::empty()
    } else {
        group_blocks_prefix(gpaths, gms, g - 1) + group_block(g, gpaths[g - 1], gms[g - 1]) + (
        if g < gpaths.len() {
            seq![repeat_char('─', 80)]
        } else {
            Seq::<Seq<char>>::empty()
        })
    }
}

/// The whole rendering of a content search: an empty result names the
/// pattern and the scan count; otherwise a counted summary, the per-file
/// blocks, and a closing line, singular and plural forms following the
/// counts.
pub open spec fn render_grep_results_spec(
    ms: Seq<MatchView>,
    files_searched: int,
    pattern: Seq<char>,
) -> Seq<Seq<char>> {
    if ms.len() == 0 {
        seq![
            "😔 No matches found for pattern: "@ + pattern + " (searched "@ + dec_spec(
                files_searched,
            ) + " files)"@,
        ]
    } else {
        let gpaths = group_paths(ms);
        let gms = gpaths.map_values(|p: Seq<char>| group_of(ms, p));
        seq![
            "🎉 Found "@ + dec_spec(ms.len() as int) + " match"@ + (if ms.len() == 1 {
                Seq::<char>::empty()
            } else {
                "es"@
            }) + " in "@ + dec_spec(gpaths.len() as int) + " file"@ + (if gpaths.len() == 1 {
                Seq::<char>::empty()
            } else {
                "s"@
            }) + " (searched "@ + dec_spec(files_searched) + " files):"@,
            repeat_char('═', 80),
        ] + group_blocks_prefix(gpaths, gms, gpaths.len() as int) + seq![
            repeat_char('═', 80),
            "✅ Search completed. Found "@ + dec_spec(ms.len() as int) + " match"@ + (
            if ms.len() == 1 {
                Seq::<char>::empty()
            } else {
                "es"@
            }) + " in "@ + dec_spec(gpaths.len() as int) + " file"@ + (if gpaths.len() == 1 {
                Seq::<char>::empty()
            } else {
                "s"@
            }) + "."@,
        ]
    }
}

fn render_match_line(mi: usize, m: &Match) -> (r: String)
    requires
        m@.wf(),
        1 <= mi,
    ensures
        r@ == match_line_spec(mi as int, m@),
{
    let (before, mid, after) = m.split_parts();
    let idx = usize_to_string(mi);
    let num = usize_to_string(m.line_number);
    let padded = pad4(num.as_str());
    let mut l = String::from_str("     ");
    l.append(idx.as_str());
    l.append(" ");
    l.append(padded.as_str());
    l.append(" │ ");
    l.append(trim_start_str(before));
    l.append(mid);
    l.append(after);
    proof {
        assert(l@ =~= match_line_spec(mi as int, m@));
    }
    l
}

impl GrepSearcher {
    /// Renders the search outcome as the lines to show, exactly as
    /// `render_grep_results_spec` lays them out.
    pub fn display_results(&self, matches: &Vec<Match>, pattern: &str, files_searched: usize) -> (r:
        Vec<String>)
        requires
            forall|i: int| 0 <= i < matches@.len() ==> (#[trigger] matches@[i])@.wf(),
        ensures
            r.deep_view() == render_grep_results_spec(
                matches@.map_values(|x: Match| x@),
                files_searched as int,
                pattern@,
            ),
    {
        let ghost vm = matches@.map_values(|x: Match| x@);
        let mut out: Vec<String> = Vec::new();
        if matches.len() == 0 {
            let cnt = usize_to_string(files_searched);
            let mut l = String::from_str("😔 No matches found for pattern: ");
            l.append(pattern);
            l.append(" (searched ");
            l.append(cnt.as_str());
            l.append(" files)");
            proof {
                assert(l@ =~= "😔 No matches found for pattern: "@ + pattern@ + " (searched "@
                    + dec_spec(files_searched as int) + " files)"@);
            }
            out.push(l);
            proof {
                assert(out.deep_view() =~= render_grep_results_spec(
                    vm,
                    files_searched as int,
                    pattern@,
                ));
            }
            return out;
        }
        let groups = group_by_file(matches);
        let ghost gpaths = group_paths(vm);
        let ghost gms = gpaths.map_values(|p: Seq<char>| group_of(vm, p));
        let m_count = usize_to_string(matches.len());
        let f_count = usize_to_string(groups.len());
        let k_count = usize_to_string(files_searched);
        let mut head = String::from_str("🎉 Found ");
        head.append(m_count.as_str());
        head.append(" match");
        if matches.len() != 1 {
            head.append("es");
        }
        head.append(" in ");
        head.append(f_count.as_str());
        head.append(" file");
        if groups.len() != 1 {
            head.append("s");
        }
        head.append(" (searched ");
        head.append(k_count.as_str());
        head.append(" files):");
        proof {
            assert(head@ =~= "🎉 Found "@ + dec_spec(vm.len() as int) + " match"@ + (if vm.len()
                == 1 {
                Seq::<char>::empty()
            } else {
                "es"@
            }) + " in "@ + dec_spec(gpaths.len() as int) + " file"@ + (if gpaths.len() == 1 {
                Seq::<char>::empty()
            } else {
                "s"@
            }) + " (searched "@ + dec_spec(files_searched as int) + " files):"@);
        }
        out.push(head);
        out.push(repeat_char_string('═', 80));
        let ghost header = out.deep_view();
        let mut g: usize = 0;
        while g < groups.len()
            invariant
                g <= groups@.len(),
                vm == matches@.map_values(|x: Match| x@),
                gpaths == group_paths(vm),
                gms == gpaths.map_values(|p: Seq<char>| group_of(vm, p)),
                groups@.len() == gpaths.len(),
                forall|k: int| 0 <= k < groups@.len() ==> (#[trigger] groups@[k]).path@ == gpaths[k],
                forall|k: int|
                    0 <= k < groups@.len() ==> (#[trigger] groups@[k]).matches@.map_values(
                        |x: Match| x@,
                    ) == group_of(vm, gpaths[k]),
                forall|k: int, l: int|
                    0 <= k < groups@.len() && 0 <= l < groups@[k].matches@.len() ==> (
                    #[trigger] groups@[k].matches@[l])@.wf(),
                out.deep_view() == header + group_blocks_prefix(gpaths, gms, g as int),
            decreases groups@.len() - g,
        {
            let ghost pre = out.deep_view();
            let group = &groups[g];
            proof {
                assert(gms[g as int] == group_of(vm, gpaths[g as int]));
                assert(group.matches@.map_values(|x: Match| x@) == gms[g as int]);
                assert(group.matches@.len() == gms[g as int].len());
            }
            let gidx = usize_to_string(g + 1);
            let icon = get_file_icon(group.path.as_str());
            let c_count = usize_to_string(group.matches.len());
            let mut l1 = String::from_str("📄 ");
            l1.append(gidx.as_str());
            l1.append(". ");
            l1.append(icon.as_str());
            l1.append(" ");
            l1.append(base_name(group.path.as_str()));
            l1.append(" (");
            l1.append(c_count.as_str());
            l1.append(" match");
            if group.matches.len() != 1 {
                l1.append("es");
            }
            l1.append(")");
            let ghost l1v = l1@;
            proof {
                assert(l1v =~= "📄 "@ + dec_spec(g + 1) + ". "@ + icon_spec(gpaths[g as int])
                    + " "@ + base_name_spec(gpaths[g as int]) + " ("@ + dec_spec(
                    gms[g as int].len() as int,
                ) + " match"@ + (if gms[g as int].len() == 1 {
                    Seq::<char>::empty()
                } else {
                    "es"@
                }) + ")"@);
            }
            out.push(l1);
            let mut l2 = String::from_str("   📍 ");
            l2.append(parent_dir(group.path.as_str()));
            let ghost l2v = l2@;
            proof {
                assert(l2v =~= "   📍 "@ + parent_spec(gpaths[g as int]));
            }
            out.push(l2);
            proof {
                assert(out.deep_view() =~= pre.push(l1v).push(l2v));
            }
            let ghost blockbase = out.deep_view();
            let mut j: usize = 0;
            while j < group.matches.len()
                invariant
                    j <= group.matches@.len(),
                    g < groups@.len(),
                    *group == groups@[g as int],
                    group.matches@.map_values(|x: Match| x@) == gms[g as int],
                    group.matches@.len() == gms[g as int].len(),
                    forall|l: int|
                        0 <= l < group.matches@.len() ==> (#[trigger] group.matches@[l])@.wf(),
                    out.deep_view() == blockbase + match_lines_prefix(gms[g as int], j as int),
                decreases group.matches@.len() - j,
            {
                proof {
                    assert(group.matches@[j as int]@ == gms[g as int][j as int]);
                }
                let ml = render_match_line(j + 1, &group.matches[j]);
                let ghost mlv = ml@;
                let ghost mid = out.deep_view();
                out.push(ml);
                proof {
                    assert(out.deep_view() =~= mid.push(mlv));
                    assert(out.deep_view() =~= blockbase + match_lines_prefix(
                        gms[g as int],
                        j + 1,
                    ));
                }
                j = j + 1;
            }
            proof {
                assert(out.deep_view() =~= pre + group_block(
                    g + 1,
                    gpaths[g as int],
                    gms[g as int],
                ));
            }
            if g + 1 < groups.len() {
                let ghost mid2 = out.deep_view();
                out.push(repeat_char_string('─', 80));
                proof {
                    assert(out.deep_view() =~= mid2.push(repeat_char('─', 80)));
                }
            }
            proof {
                assert(out.deep_view() =~= header + group_blocks_prefix(gpaths, gms, g + 1));
            }
            g = g + 1;
        }
        let ghost base = out.deep_view();
        out.push(repeat_char_string('═', 80));
        proof {
            assert(out.deep_view() =~= base.push(repeat_char('═', 80)));
        }
        let ghost base2 = out.deep_view();
        let mut tail = String::from_str("✅ Search completed. Found ");
        tail.append(m_count.as_str());
        tail.append(" match");
        if matches.len() != 1 {
            tail.append("es");
        }
        tail.append(" in ");
        tail.append(f_count.as_str());
        tail.append(" file");
        if groups.len() != 1 {
            tail.append("s");
        }
        tail.append(".");
        let ghost tailv = tail@;
        proof {
            assert(tailv =~= "✅ Search completed. Found "@ + dec_spec(vm.len() as int)
                + " match"@ + (if vm.len() == 1 {
                Seq::<char>::empty()
            } else {
                "es"@
            }) + " in "@ + dec_spec(gpaths.len() as int) + " file"@ + (if gpaths.len() == 1 {
                Seq::<char>::empty()
            } else {
                "s"@
            }) + "."@);
        }
        out.push(tail);
        proof {
            assert(out.deep_view() =~= base2.push(tailv));
            assert(out.deep_view() =~= render_grep_results_spec(
                vm,
                files_searched as int,
                pattern@,
            ));
        }
        out
    }
}

/// Literal and regex mode agree on literal strings: a literal content
/// search for a pattern yields exactly the result set of a regex-mode
/// search for the escaped pattern under the same case flag, over any
/// entries, and the two are accepted or rejected together.
pub proof fn lemma_literal_regex_agree(
    exts: Option<Seq<Seq<char>>>,
    p: Seq<char>,
    ci: bool,
    entries: Seq<FsEntryView>,
)
    ensures
        grep_matches_spec(exts, effective_pattern(p, false, ci), entries) == grep_matches_spec(
            exts,
            effective_pattern(escape_spec(p), true, ci),
            entries,
        ),
        regex_ok(effective_pattern(p, false, ci)) == regex_ok(
            effective_pattern(escape_spec(p), true, ci),
        ),
{
}

/// Running one search twice over one unchanged entry list yields identical
/// ordered results: matches and counts are functions of the inputs alone.
pub proof fn lemma_search_deterministic(
    exts: Option<Seq<Seq<char>>>,
    ep: Seq<char>,
    entries: Seq<FsEntryView>,
    first: Seq<MatchView>,
    second: Seq<MatchView>,
    first_count: int,
    second_count: int,
)
    requires
        first == grep_matches_spec(exts, ep, entries),
        second == grep_matches_spec(exts, ep, entries),
        first_count == files_searched_spec(exts, entries),
        second_count == files_searched_spec(exts, entries),
    ensures
        first == second,
        first_count == second_count,
{
}

/// A deny-listed extension excludes an entry from the content scan whatever
/// its bytes hold: such an entry is never admitted.
pub proof fn lemma_denylisted_entry_skipped(exts: Option<Seq<Seq<char>>>, e: FsEntryView)
    requires
        crate::utils::binary_extension_spec(e.path),
    ensures
        !admitted_spec(exts, e),
{
}

/// An extensionless entry stands or falls by its sampled bytes: null-heavy
/// content excludes it from the scan, and with clean content and no
/// extension filter it is scanned.
pub proof fn lemma_extensionless_admission(exts: Option<Seq<Seq<char>>>, e: FsEntryView)
    requires
        crate::text::extension_spec(e.path) is None,
    ensures
        crate::utils::null_fraction_exceeds_one_percent(e.sample) ==> !admitted_spec(exts, e),
        !crate::utils::null_fraction_exceeds_one_percent(e.sample) && exts is None ==> admitted_spec(
            exts,
            e,
        ),
{
}

} // verus!

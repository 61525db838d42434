//! Pattern compilation for both engines: literal escaping, the effective
//! regex source for each mode, and a compiled matcher backed by the `regex`
//! crate behind a small trusted layer.

use crate::text::chars_to_string;
use vstd::prelude::*;
use vstd::utf8::{encode_utf8, is_char_boundary};

verus! {

/// A character with significance in a regex, exactly the set the `regex`
/// crate escapes in literal text.
pub open spec fn meta_char(c: char) -> bool {
    ||| c == '\\'
    ||| c == '.'
    ||| c == '+'
    ||| c == '*'
    ||| c == '?'
    ||| c == '('
    ||| c == ')'
    ||| c == '|'
    ||| c == '['
    ||| c == ']'
    ||| c == '{'
    ||| c == '}'
    ||| c == '^'
    ||| c == '$'
    ||| c == '#'
    ||| c == '&'
    ||| c == '-'
    ||| c == '~'
}

/// The text with a backslash inserted before every meta character, so that
/// it reads as a literal when compiled as a regex.
pub open spec fn escape_spec(s: Seq<char>) -> Seq<char>
    decreases s.len(),
{
    if s.len() == 0 {
        Seq::<char>::empty()
    } else {
        let rest = escape_spec(s.drop_last());
        if meta_char(s.last()) {
            rest + seq!['\\', s.last()]
        } else {
            rest.push(s.last())
        }
    }
}

fn is_meta_char(c: char) -> (r: bool)
    ensures
        r == meta_char(c),
{
    c == '\\' || c == '.' || c == '+' || c == '*' || c == '?' || c == '(' || c == ')' || c == '|'
        || c == '[' || c == ']' || c == '{' || c == '}' || c == '^' || c == '$' || c == '#' || c
        == '&' || c == '-' || c == '~'
}

/// Escapes every regex meta character in the text.
pub fn escape_literal(s: &str) -> (r: String)
    ensures
        r@ == escape_spec(s@),
{
    let len = s.unicode_len();
    let mut v: Vec<char> = Vec::new();
    let mut i: usize = 0;
    while i < len
        invariant
            i <= len,
            len == s@.len(),
            v@ == escape_spec(s@.subrange(0, i as int)),
        decreases len - i,
    {
        let c = s.get_char(i);
        proof {
            assert(s@.subrange(0, i + 1).drop_last() =~= s@.subrange(0, i as int));
            assert(s@.subrange(0, i + 1).last() == s@[i as int]);
        }
        if is_meta_char(c) {
            v.push('\\');
        }
        v.push(c);
        proof {
            if meta_char(s@[i as int]) {
                assert(v@ =~= escape_spec(s@.subrange(0, i as int)) + seq!['\\', s@[i as int]]);
            }
        }
        i = i + 1;
    }
    proof {
        assert(s@.subrange(0, len as int) =~= s@);
    }
    chars_to_string(&v)
}

/// The regex source the content engine really compiles: regex mode takes
/// the pattern as written, literal mode escapes it first, and either way a
/// case-insensitive search prefixes the inline directive.
pub open spec fn effective_pattern(p: Seq<char>, use_regex: bool, ci: bool) -> Seq<char> {
    let base = if use_regex {
        p
    } else {
        escape_spec(p)
    };
    if ci {
        "(?i)"@ + base
    } else {
        base
    }
}

/// Builds the regex source for the requested mode.
pub fn build_effective_pattern(p: &str, use_regex: bool, ci: bool) -> (r: String)
    ensures
        r@ == effective_pattern(p@, use_regex, ci),
{
    let base = if use_regex {
        String::from_str(p)
    } else {
        escape_literal(p)
    };
    if ci {
        let mut out = String::from_str("(?i)");
        out.append(base.as_str());
        out
    } else {
        base
    }
}

#[verifier::external_type_specification]
#[verifier::external_body]
pub struct ExRegex(regex::Regex);

/// Whether `regex::Regex::new` accepts this pattern text; compilation
/// succeeds or fails as a function of the text alone.
pub uninterp spec fn regex_ok(pattern: Seq<char>) -> bool;

/// The spans that `regex::Regex::find_iter` yields on this haystack for
/// this pattern: byte-offset ranges, a function of pattern and haystack
/// alone.
pub uninterp spec fn regex_find_all(pattern: Seq<char>, hay: Seq<char>) -> Seq<(int, int)>;

/// A compiled pattern together with the text it was compiled from.
pub struct Matcher {
    re: regex::Regex,
    pat: String,
}

/// The byte-offset spans of a search, as mathematical pairs.
pub open spec fn spans_view(v: Seq<(usize, usize)>) -> Seq<(int, int)> {
    v.map_values(|t: (usize, usize)| (t.0 as int, t.1 as int))
}

/// A span lies within the haystack's UTF-8 encoding, starts no later than it
/// ends, and both offsets sit on character boundaries.
pub open spec fn span_wf(t: (int, int), hay: Seq<char>) -> bool {
    &&& 0 <= t.0 <= t.1 <= encode_utf8(hay).len()
    &&& is_char_boundary(encode_utf8(hay), t.0)
    &&& is_char_boundary(encode_utf8(hay), t.1)
}

impl Matcher {
    /// The text this matcher was compiled from.
    pub closed spec fn pattern(&self) -> Seq<char> {
        self.pat@
    }

    /// Relies on `regex::Regex::new`: it accepts or rejects a pattern as a
    /// function of the pattern text alone; on rejection the error's display
    /// text is returned.
    #[verifier::external_body]
    pub fn compile(p: &str) -> (r: Result<Matcher, String>)
        ensures
            r is Ok <==> regex_ok(p@),
            r matches Ok(m) ==> m.pattern() == p@,
    {
        match regex::Regex::new(p) {
            Ok(re) => Ok(Matcher { re, pat: p.to_string() }),
            Err(e) => Err(e.to_string()),
        }
    }

    /// Relies on `regex::Regex::find_iter` and `regex::Match`: the iterator
    /// yields successive non-overlapping matches as byte-offset spans into
    /// the haystack, in order of strictly increasing starts, each offset on
    /// a UTF-8 character boundary.
    #[verifier::external_body]
    pub fn find_all(&self, hay: &str) -> (r: Vec<(usize, usize)>)
        ensures
            spans_view(r@) == regex_find_all(self.pattern(), hay@),
            forall|i: int|
                0 <= i < r@.len() ==> span_wf((#[trigger] r@[i].0 as int, r@[i].1 as int), hay@),
            forall|i: int|
                0 <= i < r@.len() - 1 ==> (#[trigger] r@[i].1) <= r@[i + 1].0 && r@[i].0 < r@[i
                    + 1].0,
    {
        self.re.find_iter(hay).map(|m| (m.start(), m.end())).collect()
    }
}

/// A rejected pattern: the mode it was compiled for and the message the
/// regex engine gave.
#[derive(Debug)]
pub struct PatternError {
    pub regex_mode: bool,
    pub message: String,
}

impl PatternError {
    /// The line shown for a rejected pattern: a regex the user wrote gets
    /// the invalid-pattern wording, a failed literal escape its own.
    pub fn render(&self) -> (r: String)
        ensures
            r@ == (if self.regex_mode {
                "❌ Invalid regex pattern: "@ + self.message@
            } else {
                "❌ Error creating search pattern: "@ + self.message@
            }),
    {
        let mut l = if self.regex_mode {
            String::from_str("❌ Invalid regex pattern: ")
        } else {
            String::from_str("❌ Error creating search pattern: ")
        };
        l.append(self.message.as_str());
        l
    }
}

} // verus!

//! Verified text utilities shared by both search engines: character-level
//! string equality and containment, ASCII trimming, comma splitting, path
//! base-name and extension extraction, and decimal rendering of integers.

use vstd::prelude::*;

verus! {

/// What `str::to_lowercase` returns; the result depends on the characters of
/// the input alone.
pub uninterp spec fn lower_of(s: Seq<char>) -> Seq<char>;

/// Relies on `str::to_lowercase`: the lowercased text is a function of the
/// input characters alone.
#[verifier::external_body]
pub fn to_lowercase(s: &str) -> (r: String)
    ensures
        r@ == lower_of(s@),
{
    s.to_lowercase()
}

/// Relies on `String`'s `FromIterator<char>` impl: collecting characters
/// yields the string made of exactly those characters in order.
#[verifier::external_body]
pub fn chars_to_string(v: &Vec<char>) -> (r: String)
    ensures
        r@ == v@,
{
    v.iter().collect()
}

/// Character-by-character string equality, proved against the string views.
pub fn str_eq(a: &str, b: &str) -> (r: bool)
    ensures
        r == (a@ == b@),
{
    let alen = a.unicode_len();
    let blen = b.unicode_len();
    if alen != blen {
        return false;
    }
    let mut i: usize = 0;
    while i < alen
        invariant
            i <= alen,
            alen == a@.len(),
            alen == b@.len(),
            forall|j: int| 0 <= j < i ==> a@[j] == b@[j],
        decreases alen - i,
    {
        if a.get_char(i) != b.get_char(i) {
            return false;
        }
        i = i + 1;
    }
    proof {
        assert(a@ =~= b@);
    }
    true
}

/// The needle occurs in the haystack starting at character position `i`.
pub open spec fn contains_at(hay: Seq<char>, needle: Seq<char>, i: int) -> bool {
    0 <= i && i + needle.len() <= hay.len() && hay.subrange(i, i + needle.len()) == needle
}

/// The needle occurs somewhere in the haystack (character-wise containment).
pub open spec fn contains_seq(hay: Seq<char>, needle: Seq<char>) -> bool {
    exists|i: int| contains_at(hay, needle, i)
}

fn matches_at(hay: &str, needle: &str, i: usize, hlen: usize, nlen: usize) -> (r: bool)
    requires
        hlen == hay@.len(),
        nlen == needle@.len(),
        i + nlen <= hlen,
    ensures
        r == contains_at(hay@, needle@, i as int),
{
    let mut j: usize = 0;
    while j < nlen
        invariant
            j <= nlen,
            hlen == hay@.len(),
            nlen == needle@.len(),
            i + nlen <= hlen,
            forall|k: int| 0 <= k < j ==> hay@[i + k] == needle@[k],
        decreases nlen - j,
    {
        if hay.get_char(i + j) != needle.get_char(j) {
            assert(hay@.subrange(i as int, i + nlen) != needle@) by {
                assert(hay@.subrange(i as int, i + nlen)[j as int] == hay@[i + j]);
            }
            return false;
        }
        j = j + 1;
    }
    proof {
        assert(hay@.subrange(i as int, i + nlen) =~= needle@);
    }
    true
}

/// Substring containment over character views, as `str::contains` decides it
/// for string patterns.
pub fn str_contains(hay: &str, needle: &str) -> (r: bool)
    ensures
        r == contains_seq(hay@, needle@),
{
    let hlen = hay.unicode_len();
    let nlen = needle.unicode_len();
    if nlen > hlen {
        return false;
    }
    if nlen == 0 {
        proof {
            assert(hay@.subrange(0, 0) =~= needle@);
            assert(contains_at(hay@, needle@, 0));
        }
        return true;
    }
    let mut i: usize = 0;
    while i <= hlen - nlen
        invariant
            0 < nlen <= hlen,
            hlen == hay@.len(),
            nlen == needle@.len(),
            i <= hlen - nlen + 1,
            forall|k: int| 0 <= k < i ==> !contains_at(hay@, needle@, k),
        decreases hlen + 1 - nlen - i,
    {
        if matches_at(hay, needle, i, hlen, nlen) {
            return true;
        }
        i = i + 1;
    }
    false
}

/// A character the trimming helpers treat as blank (ASCII whitespace).
pub open spec fn is_ascii_blank(c: char) -> bool {
    c == ' ' || c == '\t' || c == '\r' || c == '\n'
}

/// The sequence with its leading blanks removed.
pub open spec fn trim_start_spec(s: Seq<char>) -> Seq<char>
    decreases s.len(),
{
    if s.len() > 0 && is_ascii_blank(s[0]) {
        trim_start_spec(s.drop_first())
    } else {
        s
    }
}

/// The sequence with its trailing blanks removed.
pub open spec fn trim_end_spec(s: Seq<char>) -> Seq<char>
    decreases s.len(),
{
    if s.len() > 0 && is_ascii_blank(s.last()) {
        trim_end_spec(s.drop_last())
    } else {
        s
    }
}

/// The sequence with blanks removed from both ends.
pub open spec fn trim_spec(s: Seq<char>) -> Seq<char> {
    trim_end_spec(trim_start_spec(s))
}

proof fn lemma_trim_start_subrange(s: Seq<char>, a: int)
    requires
        0 <= a <= s.len(),
        forall|j: int| 0 <= j < a ==> is_ascii_blank(s[j]),
        a < s.len() ==> !is_ascii_blank(s[a]),
    ensures
        trim_start_spec(s) == s.subrange(a, s.len() as int),
    decreases a,
{
    if a == 0 {
        assert(s.subrange(0, s.len() as int) =~= s);
    } else {
        lemma_trim_start_subrange(s.drop_first(), a - 1);
        assert(s.drop_first().subrange(a - 1, s.drop_first().len() as int) =~= s.subrange(
            a,
            s.len() as int,
        ));
    }
}

proof fn lemma_trim_end_subrange(s: Seq<char>, b: int)
    requires
        0 <= b <= s.len(),
        forall|j: int| b <= j < s.len() ==> is_ascii_blank(s[j]),
        b > 0 ==> !is_ascii_blank(s[b - 1]),
    ensures
        trim_end_spec(s) == s.subrange(0, b),
    decreases s.len() - b,
{
    if b == s.len() {
        assert(s.subrange(0, s.len() as int) =~= s);
    } else {
        lemma_trim_end_subrange(s.drop_last(), b);
        assert(s.drop_last().subrange(0, b) =~= s.subrange(0, b));
    }
}

fn is_blank_char(c: char) -> (r: bool)
    ensures
        r == is_ascii_blank(c),
{
    c == ' ' || c == '\t' || c == '\r' || c == '\n'
}

/// Removes leading blanks, as the match renderer shows lines.
pub fn trim_start_str<'a>(s: &'a str) -> (r: &'a str)
    ensures
        r@ == trim_start_spec(s@),
{
    let len = s.unicode_len();
    let mut a: usize = 0;
    while a < len && is_blank_char(s.get_char(a))
        invariant
            a <= len,
            len == s@.len(),
            forall|j: int| 0 <= j < a ==> is_ascii_blank(s@[j]),
        decreases len - a,
    {
        a = a + 1;
    }
    proof {
        lemma_trim_start_subrange(s@, a as int);
    }
    s.substring_char(a, len)
}

/// Removes blanks from both ends, as extension lists are tidied.
pub fn trim_str<'a>(s: &'a str) -> (r: &'a str)
    ensures
        r@ == trim_spec(s@),
{
    let len = s.unicode_len();
    let mut a: usize = 0;
    while a < len && is_blank_char(s.get_char(a))
        invariant
            a <= len,
            len == s@.len(),
            forall|j: int| 0 <= j < a ==> is_ascii_blank(s@[j]),
        decreases len - a,
    {
        a = a + 1;
    }
    proof {
        lemma_trim_start_subrange(s@, a as int);
    }
    let mut b: usize = len;
    while b > a && is_blank_char(s.get_char(b - 1))
        invariant
            a <= b <= len,
            len == s@.len(),
            forall|j: int| 0 <= j < a ==> is_ascii_blank(s@[j]),
            a < s@.len() ==> !is_ascii_blank(s@[a as int]),
            forall|j: int| b <= j < len ==> is_ascii_blank(s@[j]),
        decreases b,
    {
        b = b - 1;
    }
    proof {
        let t = trim_start_spec(s@);
        assert(t == s@.subrange(a as int, len as int));
        lemma_trim_end_subrange(t, b - a);
        assert(t.subrange(0, b - a) =~= s@.subrange(a as int, b as int));
    }
    s.substring_char(a, b)
}

/// The pieces of a string between its commas, as `str::split(',')` yields
/// them: an empty string yields one empty piece, and a trailing comma yields
/// a trailing empty piece.
pub open spec fn split_commas_spec(s: Seq<char>) -> Seq<Seq<char>>
    decreases s.len(),
{
    if s.len() == 0 {
        seq![Seq::<char>::empty()]
    } else {
        let rest = split_commas_spec(s.drop_last());
        if s.last() == ',' {
            rest.push(Seq::<char>::empty())
        } else {
            rest.update(rest.len() - 1, rest.last().push(s.last()))
        }
    }
}

proof fn lemma_split_commas_nonempty(s: Seq<char>)
    ensures
        split_commas_spec(s).len() >= 1,
    decreases s.len(),
{
    if s.len() > 0 {
        lemma_split_commas_nonempty(s.drop_last());
    }
}

/// Splits on commas; each returned piece is exactly one piece of the view's
/// comma split.
pub fn split_commas(s: &str) -> (r: Vec<String>)
    ensures
        r.deep_view() == split_commas_spec(s@),
{
    let len = s.unicode_len();
    let mut done: Vec<String> = Vec::new();
    let mut current: Vec<char> = Vec::new();
    let mut i: usize = 0;
    while i < len
        invariant
            i <= len,
            len == s@.len(),
            split_commas_spec(s@.subrange(0, i as int)) == done.deep_view().push(current@),
        decreases len - i,
    {
        let c = s.get_char(i);
        proof {
            assert(s@.subrange(0, i + 1).drop_last() =~= s@.subrange(0, i as int));
            assert(s@.subrange(0, i + 1).last() == s@[i as int]);
            lemma_split_commas_nonempty(s@.subrange(0, i as int));
        }
        if c == ',' {
            let token = chars_to_string(&current);
            done.push(token);
            current = Vec::new();
            proof {
                assert(split_commas_spec(s@.subrange(0, i + 1)) =~= done.deep_view().push(
                    current@,
                ));
            }
        } else {
            current.push(c);
            proof {
                let prev = split_commas_spec(s@.subrange(0, i as int));
                assert(prev.update(prev.len() - 1, prev.last().push(s@[i as int]))
                    =~= done.deep_view().push(current@));
            }
        }
        i = i + 1;
    }
    let token = chars_to_string(&current);
    done.push(token);
    proof {
        assert(s@.subrange(0, len as int) =~= s@);
        assert(done.deep_view() =~= split_commas_spec(s@));
    }
    done
}

/// The final component of a path: the characters after the last `/`
/// separator, or the whole path when it has none. `/` is the library's
/// only separator; callers convert platform paths first.
pub open spec fn base_name_spec(p: Seq<char>) -> Seq<char>
    decreases p.len(),
{
    if p.len() == 0 {
        Seq::<char>::empty()
    } else if p.last() == '/' {
        Seq::<char>::empty()
    } else {
        base_name_spec(p.drop_last()).push(p.last())
    }
}

proof fn lemma_base_name_subrange(p: Seq<char>, k: int)
    requires
        0 <= k <= p.len(),
        k > 0 ==> p[k - 1] == '/',
        forall|j: int| k <= j < p.len() ==> p[j] != '/',
    ensures
        base_name_spec(p) == p.subrange(k, p.len() as int),
    decreases p.len() - k,
{
    if k == p.len() {
        if p.len() > 0 {
            assert(p.last() == '/');
        }
        assert(p.subrange(k, p.len() as int) =~= Seq::<char>::empty());
    } else {
        assert(p.last() != '/');
        lemma_base_name_subrange(p.drop_last(), k);
        assert(p.drop_last().subrange(k, p.drop_last().len() as int).push(p.last()) =~= p.subrange(
            k,
            p.len() as int,
        ));
    }
}

/// The final component of the path, the part a file-name search matches on.
pub fn base_name<'a>(path: &'a str) -> (r: &'a str)
    ensures
        r@ == base_name_spec(path@),
{
    let len = path.unicode_len();
    let mut k: usize = 0;
    let mut i: usize = 0;
    while i < len
        invariant
            k <= i <= len,
            len == path@.len(),
            k > 0 ==> path@[k - 1] == '/',
            forall|j: int| k <= j < i ==> path@[j] != '/',
        decreases len - i,
    {
        if path.get_char(i) == '/' {
            k = i + 1;
        }
        i = i + 1;
    }
    proof {
        lemma_base_name_subrange(path@, k as int);
    }
    path.substring_char(k, len)
}

/// The path up to its final separator: the characters before the last `/`,
/// or nothing when the path has none.
pub open spec fn parent_spec(p: Seq<char>) -> Seq<char> {
    if base_name_spec(p).len() < p.len() {
        p.subrange(0, p.len() - base_name_spec(p).len() - 1)
    } else {
        Seq::<char>::empty()
    }
}

/// The directory part of a path, shown beside each result.
pub fn parent_dir<'a>(path: &'a str) -> (r: &'a str)
    ensures
        r@ == parent_spec(path@),
{
    let len = path.unicode_len();
    let mut k: usize = 0;
    let mut i: usize = 0;
    while i < len
        invariant
            k <= i <= len,
            len == path@.len(),
            k > 0 ==> path@[k - 1] == '/',
            forall|j: int| k <= j < i ==> path@[j] != '/',
        decreases len - i,
    {
        if path.get_char(i) == '/' {
            k = i + 1;
        }
        i = i + 1;
    }
    proof {
        lemma_base_name_subrange(path@, k as int);
    }
    if k > 0 {
        path.substring_char(0, k - 1)
    } else {
        proof {
            assert(path@.subrange(0, 0) =~= Seq::<char>::empty());
        }
        path.substring_char(0, 0)
    }
}

/// The characters of a file name after its last dot.
pub open spec fn after_last_dot(name: Seq<char>) -> Seq<char>
    decreases name.len(),
{
    if name.len() == 0 {
        Seq::<char>::empty()
    } else if name.last() == '.' {
        Seq::<char>::empty()
    } else {
        after_last_dot(name.drop_last()).push(name.last())
    }
}

/// A dot anywhere past the first character: a name like `.profile` has no
/// extension, while `a.txt` and `archive.tar.gz` do.
pub open spec fn has_interior_dot(name: Seq<char>) -> bool {
    exists|j: int| 1 <= j < name.len() && name[j] == '.'
}

/// The extension of a file name: the characters after the last dot, provided
/// some dot stands past the first character.
pub open spec fn extension_of_name(name: Seq<char>) -> Option<Seq<char>> {
    if has_interior_dot(name) {
        Some(after_last_dot(name))
    } else {
        None
    }
}

/// The extension of a path's final component.
pub open spec fn extension_spec(path: Seq<char>) -> Option<Seq<char>> {
    extension_of_name(base_name_spec(path))
}

proof fn lemma_after_last_dot_subrange(name: Seq<char>, d: int)
    requires
        0 <= d < name.len(),
        name[d] == '.',
        forall|j: int| d < j < name.len() ==> name[j] != '.',
    ensures
        after_last_dot(name) == name.subrange(d + 1, name.len() as int),
    decreases name.len() - d,
{
    if d == name.len() - 1 {
        assert(name.last() == '.');
        assert(name.subrange(d + 1, name.len() as int) =~= Seq::<char>::empty());
    } else {
        assert(name.last() != '.');
        lemma_after_last_dot_subrange(name.drop_last(), d);
        assert(name.drop_last().subrange(d + 1, name.drop_last().len() as int).push(name.last())
            =~= name.subrange(d + 1, name.len() as int));
    }
}

/// The extension of the path's final component, when it has one.
pub fn extension_of<'a>(path: &'a str) -> (r: Option<&'a str>)
    ensures
        r is Some <==> extension_spec(path@) is Some,
        r matches Some(e) ==> extension_spec(path@) == Some(e@),
{
    let name = base_name(path);
    let len = name.unicode_len();
    let mut dot: usize = 0;
    let mut i: usize = 1;
    while i < len
        invariant
            i <= len || (len == 0 && i == 1),
            len == name@.len(),
            dot == 0 || (1 <= dot < i && name@[dot as int] == '.'),
            forall|j: int| 1 <= j < i && name@[j] == '.' ==> j <= dot,
        decreases len - i,
    {
        if name.get_char(i) == '.' {
            dot = i;
        }
        i = i + 1;
    }
    if dot == 0 {
        proof {
            assert(!has_interior_dot(name@));
        }
        None
    } else {
        proof {
            assert(has_interior_dot(name@));
            lemma_after_last_dot_subrange(name@, dot as int);
        }
        Some(name.substring_char(dot + 1, len))
    }
}

/// The decimal digit character for a value below ten.
pub open spec fn dec_digit(d: int) -> char {
    if d == 0 {
        '0'
    } else if d == 1 {
        '1'
    } else if d == 2 {
        '2'
    } else if d == 3 {
        '3'
    } else if d == 4 {
        '4'
    } else if d == 5 {
        '5'
    } else if d == 6 {
        '6'
    } else if d == 7 {
        '7'
    } else if d == 8 {
        '8'
    } else {
        '9'
    }
}

/// The decimal rendering of a non-negative integer, without leading zeros.
pub open spec fn dec_spec(n: int) -> Seq<char>
    decreases n,
{
    if n < 10 {
        seq![dec_digit(n)]
    } else {
        dec_spec(n / 10).push(dec_digit(n % 10))
    }
}

pub fn dec_digit_char(d: u64) -> (r: char)
    requires
        d < 10,
    ensures
        r == dec_digit(d as int),
{
    if d == 0 {
        '0'
    } else if d == 1 {
        '1'
    } else if d == 2 {
        '2'
    } else if d == 3 {
        '3'
    } else if d == 4 {
        '4'
    } else if d == 5 {
        '5'
    } else if d == 6 {
        '6'
    } else if d == 7 {
        '7'
    } else if d == 8 {
        '8'
    } else {
        '9'
    }
}

fn dec_chars(n: u64, v: &mut Vec<char>)
    ensures
        final(v)@ == old(v)@ + dec_spec(n as int),
    decreases n,
{
    if n < 10 {
        v.push(dec_digit_char(n));
    } else {
        dec_chars(n / 10, v);
        v.push(dec_digit_char(n % 10));
    }
}

/// Renders an integer in decimal.
pub fn u64_to_string(n: u64) -> (r: String)
    ensures
        r@ == dec_spec(n as int),
{
    let mut v: Vec<char> = Vec::new();
    dec_chars(n, &mut v);
    proof {
        assert(v@ =~= dec_spec(n as int));
    }
    chars_to_string(&v)
}

/// Renders a count in decimal.
pub fn usize_to_string(n: usize) -> (r: String)
    ensures
        r@ == dec_spec(n as int),
{
    u64_to_string(n as u64)
}

/// The text right-aligned to four characters with spaces, as line numbers
/// are shown.
pub open spec fn pad4_spec(s: Seq<char>) -> Seq<char> {
    if s.len() >= 4 {
        s
    } else {
        repeat_char(' ', 4 - s.len()) + s
    }
}

/// Right-aligns short text to four characters with spaces.
pub fn pad4(s: &str) -> (r: String)
    ensures
        r@ == pad4_spec(s@),
{
    let len = s.unicode_len();
    if len >= 4 {
        String::from_str(s)
    } else {
        let mut out = repeat_char_string(' ', 4 - len);
        out.append(s);
        out
    }
}

/// `n` copies of one character.
pub open spec fn repeat_char(c: char, n: int) -> Seq<char>
    decreases n,
{
    if n <= 0 {
        Seq::<char>::empty()
    } else {
        repeat_char(c, n - 1).push(c)
    }
}

/// A string of `n` copies of one character, for rules and padding.
pub fn repeat_char_string(c: char, n: usize) -> (r: String)
    ensures
        r@ == repeat_char(c, n as int),
{
    let mut v: Vec<char> = Vec::new();
    let mut i: usize = 0;
    while i < n
        invariant
            i <= n,
            v@ == repeat_char(c, i as int),
        decreases n - i,
    {
        v.push(c);
        i = i + 1;
    }
    chars_to_string(&v)
}

} // verus!

//! File classification and presentation helpers: binary detection, extension
//! filtering, icon lookup, and byte-size formatting.

use crate::text::{
    chars_to_string, dec_digit, dec_digit_char, dec_spec, extension_of, extension_spec, lower_of,
    str_eq, to_lowercase, u64_to_string,
};
use vstd::prelude::*;
use vstd::string::*;

verus! {

/// The fraction of sampled bytes (at most the first 512) that are null
/// bytes exceeds one percent; an empty sample never qualifies.
pub open spec fn null_fraction_exceeds_one_percent(sample: Seq<u8>) -> bool {
    let window = if sample.len() <= 512 { sample } else { sample.subrange(0, 512) };
    window.filter(|b: u8| b == 0u8).len() * 100 > window.len()
}

/// Counts null bytes in the first `min(len, 512)` bytes and reports whether
/// they exceed one percent of that sample.
pub fn is_binary_content(sample: &[u8]) -> (r: bool)
    ensures
        r == null_fraction_exceeds_one_percent(sample@),
{
    let window_len: usize = if sample.len() <= 512 { sample.len() } else { 512 };
    let ghost window = if sample@.len() <= 512 { sample@ } else { sample@.subrange(0, 512) };
    let mut nulls: usize = 0;
    let mut i: usize = 0;
    proof {
        assert(window =~= window.subrange(0, window_len as int));
        assert(window.subrange(0, 0).filter(|b: u8| b == 0u8) =~= Seq::<u8>::empty());
    }
    while i < window_len
        invariant
            i <= window_len,
            window_len == window.len(),
            window_len <= sample@.len(),
            forall|j: int| 0 <= j < window_len ==> window[j] == sample@[j],
            nulls == window.subrange(0, i as int).filter(|b: u8| b == 0u8).len(),
            nulls <= i,
        decreases window_len - i,
    {
        proof {
            assert(window.subrange(0, i + 1).drop_last() =~= window.subrange(0, i as int));
            reveal_with_fuel(Seq::filter, 2);
            assert(window.subrange(0, i + 1).last() == window[i as int]);
        }
        if sample[i] == 0 {
            nulls = nulls + 1;
        }
        i = i + 1;
    }
    proof {
        assert(window.subrange(0, window_len as int) =~= window);
    }
    nulls * 100 > window_len
}

/// A lowercased extension on the fixed deny-list of known-binary kinds:
/// executables and objects, images, audio and video, archives, office
/// documents, and fonts.
pub open spec fn denylisted_ext(e: Seq<char>) -> bool {
    ||| e == "exe"@
    ||| e == "dll"@
    ||| e == "so"@
    ||| e == "dylib"@
    ||| e == "bin"@
    ||| e == "o"@
    ||| e == "obj"@
    ||| e == "jpg"@
    ||| e == "jpeg"@
    ||| e == "png"@
    ||| e == "gif"@
    ||| e == "bmp"@
    ||| e == "ico"@
    ||| e == "tiff"@
    ||| e == "webp"@
    ||| e == "svg"@
    ||| e == "mp3"@
    ||| e == "mp4"@
    ||| e == "avi"@
    ||| e == "mkv"@
    ||| e == "mov"@
    ||| e == "wmv"@
    ||| e == "flv"@
    ||| e == "wav"@
    ||| e == "flac"@
    ||| e == "zip"@
    ||| e == "rar"@
    ||| e == "7z"@
    ||| e == "tar"@
    ||| e == "gz"@
    ||| e == "bz2"@
    ||| e == "xz"@
    ||| e == "pdf"@
    ||| e == "doc"@
    ||| e == "docx"@
    ||| e == "xls"@
    ||| e == "xlsx"@
    ||| e == "ppt"@
    ||| e == "pptx"@
    ||| e == "ttf"@
    ||| e == "otf"@
    ||| e == "woff"@
    ||| e == "woff2"@
}

fn is_denylisted_ext(e: &str) -> (r: bool)
    ensures
        r == denylisted_ext(e@),
{
    str_eq(e, "exe") || str_eq(e, "dll") || str_eq(e, "so") || str_eq(e, "dylib") || str_eq(
        e,
        "bin",
    ) || str_eq(e, "o") || str_eq(e, "obj") || str_eq(e, "jpg") || str_eq(e, "jpeg") || str_eq(
        e,
        "png",
    ) || str_eq(e, "gif") || str_eq(e, "bmp") || str_eq(e, "ico") || str_eq(e, "tiff") || str_eq(
        e,
        "webp",
    ) || str_eq(e, "svg") || str_eq(e, "mp3") || str_eq(e, "mp4") || str_eq(e, "avi") || str_eq(
        e,
        "mkv",
    ) || str_eq(e, "mov") || str_eq(e, "wmv") || str_eq(e, "flv") || str_eq(e, "wav") || str_eq(
        e,
        "flac",
    ) || str_eq(e, "zip") || str_eq(e, "rar") || str_eq(e, "7z") || str_eq(e, "tar") || str_eq(
        e,
        "gz",
    ) || str_eq(e, "bz2") || str_eq(e, "xz") || str_eq(e, "pdf") || str_eq(e, "doc") || str_eq(
        e,
        "docx",
    ) || str_eq(e, "xls") || str_eq(e, "xlsx") || str_eq(e, "ppt") || str_eq(e, "pptx") || str_eq(
        e,
        "ttf",
    ) || str_eq(e, "otf") || str_eq(e, "woff") || str_eq(e, "woff2")
}

/// The path's extension, lowercased, is on the binary deny-list.
pub open spec fn binary_extension_spec(path: Seq<char>) -> bool {
    match extension_spec(path) {
        Some(e) => denylisted_ext(lower_of(e)),
        None => false,
    }
}

/// Decides the deny-list part of binary classification; a caller may use it
/// to avoid reading a sample it will never need.
pub fn has_denylisted_extension(path: &str) -> (r: bool)
    ensures
        r == binary_extension_spec(path@),
{
    match extension_of(path) {
        Some(e) => {
            let lowered = to_lowercase(e);
            is_denylisted_ext(lowered.as_str())
        },
        None => false,
    }
}

/// A file is binary when its extension is deny-listed; otherwise when more
/// than one percent of its sampled leading bytes are null.
pub open spec fn is_binary_spec(path: Seq<char>, sample: Seq<u8>) -> bool {
    binary_extension_spec(path) || null_fraction_exceeds_one_percent(sample)
}

/// Classifies a file as binary from its path and a sample of its leading
/// bytes (at most the first 512). A deny-listed extension decides alone; any
/// other file is judged by the null bytes in its sample.
pub fn is_binary_file(path: &str, sample: &[u8]) -> (r: bool)
    ensures
        r == is_binary_spec(path@, sample@),
{
    has_denylisted_extension(path) || is_binary_content(sample)
}

/// A deny-listed extension makes a file binary whatever its bytes hold.
pub proof fn lemma_denylisted_is_binary(path: Seq<char>, sample: Seq<u8>)
    requires
        binary_extension_spec(path),
    ensures
        is_binary_spec(path, sample),
{
}

/// A path without an extension is classified by its sample alone: null-heavy
/// content makes it binary, clean content keeps it searchable.
pub proof fn lemma_extensionless_by_content(path: Seq<char>, sample: Seq<u8>)
    requires
        extension_spec(path) is None,
    ensures
        is_binary_spec(path, sample) == null_fraction_exceeds_one_percent(sample),
{
}

/// The extension filter: absent means everything passes; present means the
/// path must carry an extension whose lowercased form is in the set, and an
/// extensionless path always fails.
pub open spec fn extension_allowed_spec(path: Seq<char>, exts: Option<Seq<Seq<char>>>) -> bool {
    match exts {
        None => true,
        Some(set) => match extension_spec(path) {
            Some(e) => set.contains(lower_of(e)),
            None => false,
        },
    }
}

/// Decides whether the extension filter admits this path.
pub fn should_search_file(path: &str, extensions: &Option<Vec<String>>) -> (r: bool)
    ensures
        r == extension_allowed_spec(path@, extensions.deep_view()),
{
    match extensions {
        None => true,
        Some(set) => {
            match extension_of(path) {
                None => false,
                Some(e) => {
                    let lowered = to_lowercase(e);
                    let mut i: usize = 0;
                    while i < set.len()
                        invariant
                            i <= set.len(),
                            extensions.deep_view() == Some(set.deep_view()),
                            extension_spec(path@) is Some,
                            lowered@ == lower_of(extension_spec(path@)->0),
                            forall|k: int| 0 <= k < i ==> set.deep_view()[k] != lowered@,
                        decreases set.len() - i,
                    {
                        if str_eq(set[i].as_str(), lowered.as_str()) {
                            proof {
                                assert(set.deep_view()[i as int] == lowered@);
                                assert(set.deep_view().contains(lowered@));
                            }
                            return true;
                        }
                        proof {
                            assert(set.deep_view()[i as int] == set@[i as int]@);
                        }
                        i = i + 1;
                    }
                    proof {
                        assert(forall|k: int|
                            0 <= k < set.deep_view().len() ==> set.deep_view()[k] != lowered@);
                    }
                    false
                },
            }
        },
    }
}

/// The display token for a lowercased extension, from the fixed table.
pub open spec fn icon_for_ext(e: Seq<char>) -> Seq<char> {
    if e == "rs"@ {
        "🦀"@
    } else if e == "py"@ {
        "🐍"@
    } else if e == "js"@ || e == "mjs"@ {
        "🟨"@
    } else if e == "ts"@ {
        "🔷"@
    } else if e == "java"@ {
        "☕"@
    } else if e == "cpp"@ || e == "cc"@ || e == "cxx"@ {
        "⚙️"@
    } else if e == "c"@ {
        "🔧"@
    } else if e == "cs"@ {
        "🔵"@
    } else if e == "go"@ {
        "🐹"@
    } else if e == "php"@ {
        "🐘"@
    } else if e == "rb"@ {
        "💎"@
    } else if e == "swift"@ {
        "🐦"@
    } else if e == "kt"@ {
        "🟠"@
    } else if e == "dart"@ {
        "🎯"@
    } else if e == "scala"@ {
        "⚡"@
    } else if e == "clj"@ || e == "cljs"@ {
        "🎭"@
    } else if e == "hs"@ {
        "🎪"@
    } else if e == "ml"@ || e == "mli"@ {
        "🐪"@
    } else if e == "r"@ {
        "📊"@
    } else if e == "jl"@ {
        "🔮"@
    } else if e == "html"@ || e == "htm"@ {
        "🌐"@
    } else if e == "css"@ {
        "🎨"@
    } else if e == "scss"@ || e == "sass"@ {
        "💅"@
    } else if e == "less"@ {
        "📝"@
    } else if e == "vue"@ {
        "💚"@
    } else if e == "jsx"@ || e == "tsx"@ {
        "⚛️"@
    } else if e == "svelte"@ {
        "🔥"@
    } else if e == "json"@ {
        "📋"@
    } else if e == "xml"@ {
        "📄"@
    } else if e == "yaml"@ || e == "yml"@ {
        "⚙️"@
    } else if e == "toml"@ {
        "🔧"@
    } else if e == "csv"@ {
        "📊"@
    } else if e == "sql"@ {
        "🗃️"@
    } else if e == "md"@ || e == "markdown"@ {
        "📖"@
    } else if e == "txt"@ {
        "📝"@
    } else if e == "pdf"@ {
        "📕"@
    } else if e == "doc"@ || e == "docx"@ {
        "📘"@
    } else if e == "xls"@ || e == "xlsx"@ {
        "📗"@
    } else if e == "ppt"@ || e == "pptx"@ {
        "📙"@
    } else if e == "png"@ || e == "jpg"@ || e == "jpeg"@ || e == "gif"@ || e == "bmp"@ || e
        == "svg"@ || e == "webp"@ {
        "🖼️"@
    } else if e == "ico"@ {
        "🎯"@
    } else if e == "zip"@ || e == "rar"@ || e == "7z"@ || e == "tar"@ || e == "gz"@ || e == "bz2"@
        || e == "xz"@ {
        "📦"@
    } else if e == "exe"@ || e == "app"@ || e == "deb"@ || e == "rpm"@ || e == "dmg"@ || e
        == "msi"@ {
        "⚡"@
    } else if e == "cfg"@ || e == "conf"@ || e == "ini"@ || e == "env"@ {
        "⚙️"@
    } else if e == "gitignore"@ || e == "gitattributes"@ {
        "🔀"@
    } else if e == "dockerfile"@ {
        "🐳"@
    } else if e == "lock"@ {
        "🔒"@
    } else if e == "log"@ {
        "📜"@
    } else if e == "sh"@ || e == "bash"@ || e == "zsh"@ || e == "fish"@ || e == "ps1"@ || e
        == "bat"@ || e == "cmd"@ {
        "💻"@
    } else {
        "📄"@
    }
}

/// The display token for a path: the table entry for its lowercased
/// extension, or the default token when it has none.
pub open spec fn icon_spec(path: Seq<char>) -> Seq<char> {
    match extension_spec(path) {
        Some(e) => icon_for_ext(lower_of(e)),
        None => "📄"@,
    }
}

#[verifier::rlimit(30)]
fn icon_for_ext_str(e: &str) -> (r: &'static str)
    ensures
        r@ == icon_for_ext(e@),
{
    if str_eq(e, "rs") {
        "🦀"
    } else if str_eq(e, "py") {
        "🐍"
    } else if str_eq(e, "js") || str_eq(e, "mjs") {
        "🟨"
    } else if str_eq(e, "ts") {
        "🔷"
    } else if str_eq(e, "java") {
        "☕"
    } else if str_eq(e, "cpp") || str_eq(e, "cc") || str_eq(e, "cxx") {
        "⚙️"
    } else if str_eq(e, "c") {
        "🔧"
    } else if str_eq(e, "cs") {
        "🔵"
    } else if str_eq(e, "go") {
        "🐹"
    } else if str_eq(e, "php") {
        "🐘"
    } else if str_eq(e, "rb") {
        "💎"
    } else if str_eq(e, "swift") {
        "🐦"
    } else if str_eq(e, "kt") {
        "🟠"
    } else if str_eq(e, "dart") {
        "🎯"
    } else if str_eq(e, "scala") {
        "⚡"
    } else if str_eq(e, "clj") || str_eq(e, "cljs") {
        "🎭"
    } else if str_eq(e, "hs") {
        "🎪"
    } else if str_eq(e, "ml") || str_eq(e, "mli") {
        "🐪"
    } else if str_eq(e, "r") {
        "📊"
    } else if str_eq(e, "jl") {
        "🔮"
    } else if str_eq(e, "html") || str_eq(e, "htm") {
        "🌐"
    } else if str_eq(e, "css") {
        "🎨"
    } else if str_eq(e, "scss") || str_eq(e, "sass") {
        "💅"
    } else if str_eq(e, "less") {
        "📝"
    } else if str_eq(e, "vue") {
        "💚"
    } else if str_eq(e, "jsx") || str_eq(e, "tsx") {
        "⚛️"
    } else if str_eq(e, "svelte") {
        "🔥"
    } else if str_eq(e, "json") {
        "📋"
    } else if str_eq(e, "xml") {
        "📄"
    } else if str_eq(e, "yaml") || str_eq(e, "yml") {
        "⚙️"
    } else if str_eq(e, "toml") {
        "🔧"
    } else if str_eq(e, "csv") {
        "📊"
    } else if str_eq(e, "sql") {
        "🗃️"
    } else if str_eq(e, "md") || str_eq(e, "markdown") {
        "📖"
    } else if str_eq(e, "txt") {
        "📝"
    } else if str_eq(e, "pdf") {
        "📕"
    } else if str_eq(e, "doc") || str_eq(e, "docx") {
        "📘"
    } else if str_eq(e, "xls") || str_eq(e, "xlsx") {
        "📗"
    } else if str_eq(e, "ppt") || str_eq(e, "pptx") {
        "📙"
    } else if str_eq(e, "png") || str_eq(e, "jpg") || str_eq(e, "jpeg") || str_eq(e, "gif")
        || str_eq(e, "bmp") || str_eq(e, "svg") || str_eq(e, "webp") {
        "🖼️"
    } else if str_eq(e, "ico") {
        "🎯"
    } else if str_eq(e, "zip") || str_eq(e, "rar") || str_eq(e, "7z") || str_eq(e, "tar") || str_eq(
        e,
        "gz",
    ) || str_eq(e, "bz2") || str_eq(e, "xz") {
        "📦"
    } else if str_eq(e, "exe") || str_eq(e, "app") || str_eq(e, "deb") || str_eq(e, "rpm")
        || str_eq(e, "dmg") || str_eq(e, "msi") {
        "⚡"
    } else if str_eq(e, "cfg") || str_eq(e, "conf") || str_eq(e, "ini") || str_eq(e, "env") {
        "⚙️"
    } else if str_eq(e, "gitignore") || str_eq(e, "gitattributes") {
        "🔀"
    } else if str_eq(e, "dockerfile") {
        "🐳"
    } else if str_eq(e, "lock") {
        "🔒"
    } else if str_eq(e, "log") {
        "📜"
    } else if str_eq(e, "sh") || str_eq(e, "bash") || str_eq(e, "zsh") || str_eq(e, "fish")
        || str_eq(e, "ps1") || str_eq(e, "bat") || str_eq(e, "cmd") {
        "💻"
    } else {
        "📄"
    }
}

/// Looks up the display token for a path from the fixed extension table.
pub fn get_file_icon(path: &str) -> (r: String)
    ensures
        r@ == icon_spec(path@),
{
    match extension_of(path) {
        Some(e) => {
            let lowered = to_lowercase(e);
            String::from_str(icon_for_ext_str(lowered.as_str()))
        },
        None => String::from_str("📄"),
    }
}

/// The unit a byte count is shown in: the largest of B, KB, MB, GB, TB that
/// keeps the shown value below 1024, capped at TB.
pub open spec fn size_unit_index(size: int) -> int {
    if size < 1024 {
        0
    } else if size < 1048576 {
        1
    } else if size < 1073741824 {
        2
    } else if size < 1099511627776 {
        3
    } else {
        4
    }
}

/// The byte count of one step of the given unit.
pub open spec fn unit_divisor(k: int) -> int {
    if k == 1 {
        1024
    } else if k == 2 {
        1048576
    } else if k == 3 {
        1073741824
    } else {
        1099511627776
    }
}

/// The unit suffix as shown, with its separating space.
pub open spec fn unit_suffix(k: int) -> Seq<char> {
    if k == 1 {
        " KB"@
    } else if k == 2 {
        " MB"@
    } else if k == 3 {
        " GB"@
    } else {
        " TB"@
    }
}

/// The whole part and the single shown decimal of `size / d`, rounded to the
/// nearest tenth with ties going to the even tenth.
pub open spec fn rounded_tenths(size: int, d: int) -> (int, int) {
    let q = size / d;
    let r = size % d;
    let f = (r * 10) / d;
    let rem2 = ((r * 10) % d) * 2;
    let t = if rem2 > d {
        f + 1
    } else if rem2 < d {
        f
    } else if f % 2 == 0 {
        f
    } else {
        f + 1
    };
    if t == 10 {
        (q + 1, 0)
    } else {
        (q, t)
    }
}

/// The human-readable rendering of a byte count: zero is `0 B`, values below
/// a kilobyte are whole bytes, and larger values show one decimal in the
/// unit that `size_unit_index` picks.
pub open spec fn format_size_spec(size: int) -> Seq<char> {
    if size == 0 {
        "0 B"@
    } else if size < 1024 {
        dec_spec(size) + " B"@
    } else {
        let k = size_unit_index(size);
        let w = rounded_tenths(size, unit_divisor(k));
        dec_spec(w.0) + "."@ + seq![dec_digit(w.1)] + unit_suffix(k)
    }
}

/// Renders a byte count for display.
pub fn format_file_size(size: u64) -> (r: String)
    ensures
        r@ == format_size_spec(size as int),
{
    if size == 0 {
        return String::from_str("0 B");
    }
    if size < 1024 {
        let mut out = u64_to_string(size);
        out.append(" B");
        proof {
            assert(out@ =~= format_size_spec(size as int));
        }
        return out;
    }
    let d: u64 = if size < 1048576 {
        1024
    } else if size < 1073741824 {
        1048576
    } else if size < 1099511627776 {
        1073741824
    } else {
        1099511627776
    };
    let suffix: &'static str = if size < 1048576 {
        " KB"
    } else if size < 1073741824 {
        " MB"
    } else if size < 1099511627776 {
        " GB"
    } else {
        " TB"
    };
    let q = size / d;
    let r = size % d;
    proof {
        let si = size as int;
        let di = d as int;
        let ri = r as int;
        assert((ri * 10) / di < 10 && si / di < 0xffff_ffff_ffff_ffff) by (nonlinear_arith)
            requires
                1024 <= di,
                0 <= ri < di,
                0 < si <= 0xffff_ffff_ffff_ffff,
        ;
    }
    let f = (r * 10) / d;
    let rem2 = ((r * 10) % d) * 2;
    let t = if rem2 > d {
        f + 1
    } else if rem2 < d {
        f
    } else if f % 2 == 0 {
        f
    } else {
        f + 1
    };
    let (q2, f2): (u64, u64) = if t == 10 {
        (q + 1, 0)
    } else {
        (q, t)
    };
    let mut out = u64_to_string(q2);
    out.append(".");
    let mut dv: Vec<char> = Vec::new();
    dv.push(dec_digit_char(f2));
    let digit = chars_to_string(&dv);
    out.append(digit.as_str());
    out.append(suffix);
    proof {
        assert(out@ =~= format_size_spec(size as int));
    }
    out
}

#[verifier::external_type_specification]
#[verifier::external_body]
pub struct ExSystemTime(std::time::SystemTime);

/// Relies on `SystemTime::duration_since` at the Unix epoch and on
/// `SystemTimeError::duration`: yields the whole seconds and sub-second
/// nanoseconds between the epoch and the instant, `Ok` for an instant on
/// or after the epoch and `Err` for one before it. Sub-second nanoseconds
/// are below one billion.
#[verifier::external_body]
fn system_time_epoch_parts(t: std::time::SystemTime) -> (r: Result<(u64, u32), (u64, u32)>)
    ensures
        r matches Ok(p) ==> p.1 < 1_000_000_000,
        r matches Err(p) ==> p.1 < 1_000_000_000,
{
    match t.duration_since(std::time::UNIX_EPOCH) {
        Ok(d) => Ok((d.as_secs(), d.subsec_nanos())),
        Err(e) => {
            let d = e.duration();
            Err((d.as_secs(), d.subsec_nanos()))
        },
    }
}

/// Relies on chrono's `DateTime::from_timestamp`, `with_timezone` and
/// `format`: renders the given epoch time in the machine's local time zone
/// as `%Y-%m-%d %H:%M:%S`, whose zero-padded fields span at least nineteen
/// characters; an epoch time outside chrono's range gives a placeholder of
/// that same width instead. The text depends on the time zone, so no more
/// is promised of it.
#[verifier::external_body]
fn format_local_timestamp(sec: i64, nsec: u32) -> (r: String)
    ensures
        r@.len() >= 19,
{
    match chrono::DateTime::from_timestamp(sec, nsec) {
        Some(dt) => dt.with_timezone(&chrono::Local).format("%Y-%m-%d %H:%M:%S").to_string(),
        None => "????-??-?? ??:??:??".to_string(),
    }
}

/// Renders a file's modification time for display: the local-time
/// year-month-day hour:minute:second of the instant, or a placeholder of
/// the same width for an instant outside the renderable range. The text is
/// always at least the nineteen characters of the zero-padded format.
pub fn format_modified_time(system_time: std::time::SystemTime) -> (r: String)
    ensures
        r@.len() >= 19,
{
    let (sec, nsec): (i64, u32) = match system_time_epoch_parts(system_time) {
        Ok((s, n)) => {
            let cs: i64 = if s > 9_223_372_036_854_775_806u64 {
                9_223_372_036_854_775_806i64
            } else {
                s as i64
            };
            (cs, n)
        },
        Err((s, n)) => {
            let cs: i64 = if s > 9_223_372_036_854_775_806u64 {
                9_223_372_036_854_775_806i64
            } else {
                s as i64
            };
            if n == 0 {
                (0i64 - cs, 0u32)
            } else {
                ((0i64 - cs) - 1i64, 1_000_000_000u32 - n)
            }
        },
    };
    format_local_timestamp(sec, nsec)
}

} // verus!

use ffinder::pattern::escape_literal;
use ffinder::text::{
    base_name, extension_of, parent_dir, repeat_char_string, split_commas, str_contains, str_eq,
    to_lowercase, trim_start_str, trim_str, u64_to_string, usize_to_string,
};

#[test]
fn string_equality_and_containment() {
    assert!(str_eq("abc", "abc"));
    assert!(!str_eq("abc", "abd"));
    assert!(!str_eq("abc", "ab"));
    assert!(str_eq("", ""));
    assert!(str_contains("hello world", "lo wo"));
    assert!(str_contains("hello", ""));
    assert!(!str_contains("hello", "world"));
    assert!(!str_contains("ab", "abc"));
    assert!(str_contains("ααβ", "αβ"));
}

#[test]
fn trimming() {
    assert_eq!(trim_str("  rs \t"), "rs");
    assert_eq!(trim_str("rs"), "rs");
    assert_eq!(trim_str("   "), "");
    assert_eq!(trim_start_str("   lead"), "lead");
    assert_eq!(trim_start_str("\t x "), "x ");
    assert_eq!(trim_start_str("none"), "none");
}

#[test]
fn comma_splitting() {
    assert_eq!(split_commas("rs,py"), vec!["rs", "py"]);
    assert_eq!(split_commas(""), vec![""]);
    assert_eq!(split_commas("a,"), vec!["a", ""]);
    assert_eq!(split_commas(" a , b "), vec![" a ", " b "]);
}

#[test]
fn path_parts() {
    assert_eq!(base_name("dir/sub/file.txt"), "file.txt");
    assert_eq!(base_name("file.txt"), "file.txt");
    assert_eq!(parent_dir("dir/sub/file.txt"), "dir/sub");
    assert_eq!(parent_dir("file.txt"), "");
    assert_eq!(extension_of("a/b.tar.gz"), Some("gz"));
    assert_eq!(extension_of("a/b"), None);
    assert_eq!(extension_of(".gitignore"), None);
    assert_eq!(extension_of("x.gitignore"), Some("gitignore"));
    assert_eq!(extension_of("dir.v2/noext"), None);
}

#[test]
fn decimal_rendering() {
    assert_eq!(u64_to_string(0), "0");
    assert_eq!(u64_to_string(7), "7");
    assert_eq!(u64_to_string(120), "120");
    assert_eq!(u64_to_string(18446744073709551615), "18446744073709551615");
    assert_eq!(usize_to_string(42), "42");
    assert_eq!(repeat_char_string('=', 3), "===");
}

#[test]
fn lowercase_wrapper_lowers() {
    // A changed result shows that the call really reaches the library's
    // lowercasing, not an identity.
    assert_eq!(to_lowercase("MiXeD"), "mixed");
    assert_eq!(to_lowercase(""), "");
}

#[test]
fn escaping_neutralizes_meta_characters() {
    assert_eq!(escape_literal("a.b"), "a\\.b");
    assert_eq!(escape_literal("(x)+"), "\\(x\\)\\+");
    assert_eq!(escape_literal("plain"), "plain");
    assert_eq!(escape_literal(""), "");
    assert_eq!(escape_literal("a-b~c"), "a\\-b\\~c");
}

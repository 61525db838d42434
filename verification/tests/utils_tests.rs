use ffinder::utils::{
    format_file_size, format_modified_time, get_file_icon, has_denylisted_extension,
    is_binary_content, is_binary_file, should_search_file,
};
use std::time::{Duration, SystemTime};

#[test]
fn test_format_file_size() {
    assert_eq!(format_file_size(0), "0 B");
    assert_eq!(format_file_size(500), "500 B");
    assert_eq!(format_file_size(1024), "1.0 KB");
    assert_eq!(format_file_size(1536), "1.5 KB");
    assert_eq!(format_file_size(1048576), "1.0 MB");
}

#[test]
fn test_get_file_icon() {
    assert_eq!(get_file_icon("test.rs"), "🦀");
    assert_eq!(get_file_icon("test.py"), "🐍");
    assert_eq!(get_file_icon("test.js"), "🟨");
    assert_eq!(get_file_icon("test.unknown"), "📄");
}

#[test]
fn format_file_size_larger_units() {
    assert_eq!(format_file_size(1023), "1023 B");
    assert_eq!(format_file_size(2047), "2.0 KB");
    assert_eq!(format_file_size(1536 * 1024), "1.5 MB");
    assert_eq!(format_file_size(1073741824), "1.0 GB");
    assert_eq!(format_file_size(1099511627776), "1.0 TB");
}

#[test]
fn icon_lookup_is_case_insensitive() {
    assert_eq!(get_file_icon("TEST.RS"), "🦀");
    assert_eq!(get_file_icon("no_extension"), "📄");
    assert_eq!(get_file_icon("dir.with.dots/plain"), "📄");
}

#[test]
fn binary_content_counts_null_bytes() {
    assert!(!is_binary_content(&[]));
    assert!(!is_binary_content(b"plain text, no nulls at all"));
    // 2 nulls in 100 bytes is above one percent.
    let mut nulls = vec![b'a'; 100];
    nulls[3] = 0;
    nulls[50] = 0;
    assert!(is_binary_content(&nulls));
    // 1 null in 100 bytes is exactly one percent, not above it.
    let mut border = vec![b'a'; 100];
    border[10] = 0;
    assert!(!is_binary_content(&border));
    // Only the first 512 bytes are sampled: nulls after that do not count.
    let mut late = vec![b'a'; 1024];
    for b in late.iter_mut().skip(512) {
        *b = 0;
    }
    assert!(!is_binary_content(&late));
}

#[test]
fn denylisted_extension_is_binary_with_ascii_content() {
    assert!(has_denylisted_extension("pic.png"));
    assert!(has_denylisted_extension("PIC.PNG"));
    assert!(!has_denylisted_extension("main.rs"));
    assert!(!has_denylisted_extension("noext"));
    // Pure ASCII bytes do not rescue a deny-listed extension.
    assert!(is_binary_file("pic.png", b"just ascii text"));
    // A clean text file is not binary.
    assert!(!is_binary_file("main.rs", b"fn main() {}"));
    // An extensionless file is judged by its sample alone.
    let mut nulls = vec![b'x'; 100];
    nulls[0] = 0;
    nulls[1] = 0;
    assert!(is_binary_file("data", &nulls));
    assert!(!is_binary_file("data", b"clean"));
}

#[test]
fn extension_filter_rules() {
    let set = Some(vec!["rs".to_string(), "py".to_string()]);
    assert!(should_search_file("a.rs", &set));
    assert!(should_search_file("b.py", &set));
    assert!(!should_search_file("c.txt", &set));
    // Uppercase extensions are lowercased before the lookup.
    assert!(should_search_file("A.RS", &set));
    // No extension always fails an active filter.
    assert!(!should_search_file("noext", &set));
    // An absent filter admits everything.
    assert!(should_search_file("anything.at.all", &None));
    assert!(should_search_file("noext", &None));
    // An empty set admits nothing.
    let empty: Option<Vec<String>> = Some(vec![]);
    assert!(!should_search_file("a.rs", &empty));
    assert!(!should_search_file("noext", &empty));
}

#[test]
fn modified_time_rendering_has_timestamp_shape() {
    let day = SystemTime::UNIX_EPOCH + Duration::from_secs(86_400);
    assert_eq!(format_modified_time(day).len(), 19);
    let before = SystemTime::UNIX_EPOCH - Duration::from_secs(86_400 * 365);
    assert_eq!(format_modified_time(before).len(), 19);
    // An instant far outside the renderable range gives the placeholder
    // instead of a panic.
    let far = SystemTime::UNIX_EPOCH + Duration::from_secs(300_000_000_000_000);
    assert_eq!(format_modified_time(far), "????-??-?? ??:??:??");
}

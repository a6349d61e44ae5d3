use sunrise_zip::file_type::extension_of;
use sunrise_zip::file_type::should_store_raw;
use sunrise_zip::file_type::str_eq;
use sunrise_zip::file_type::to_ascii_lower;
use sunrise_zip::strategy::CompressionMethod;
use sunrise_zip::strategy::CompressionStrategy;

#[test]
fn text_extension_is_deflated() {
    assert!(!should_store_raw("a.txt", Some(10)));
    assert!(!should_store_raw("src/main.rs", Some(1_000_000_000)));
    assert!(!should_store_raw("notes.md", None));
}

#[test]
fn incompressible_extension_is_stored() {
    assert!(should_store_raw("c.pdf", Some(10)));
    assert!(should_store_raw("movie.mp4", None));
    assert!(should_store_raw("lib.rlib", Some(1)));
}

#[test]
fn extension_case_is_ignored() {
    assert!(!should_store_raw("A.TXT", Some(10)));
    assert!(should_store_raw("DOC.PdF", Some(10)));
}

#[test]
fn unknown_extension_uses_size_heuristic() {
    assert!(!should_store_raw("data.bin", Some(1_048_576)));
    assert!(should_store_raw("data.bin", Some(1_048_577)));
}

#[test]
fn unknown_size_is_stored() {
    assert!(should_store_raw("data.bin", None));
    assert!(should_store_raw("Makefile", None));
}

#[test]
fn missing_extension_is_unknown() {
    assert!(!should_store_raw("Makefile", Some(100)));
    assert!(should_store_raw("Makefile", Some(2_000_000)));
}

#[test]
fn extension_extraction() {
    assert_eq!(extension_of("a.txt"), "txt");
    assert_eq!(extension_of("sub/a.tar.gz"), "gz");
    assert_eq!(extension_of(".bashrc"), "");
    assert_eq!(extension_of("noext"), "");
    assert_eq!(extension_of("trailing."), "");
    assert_eq!(extension_of("dir.d/file"), "");
    assert_eq!(extension_of("dir/.hidden"), "");
}

#[test]
fn lowercasing_folds_ascii_only() {
    assert_eq!(to_ascii_lower("MiXeD"), "mixed");
    assert_eq!(to_ascii_lower("TXT"), "txt");
    assert_eq!(to_ascii_lower("abc123"), "abc123");
}

#[test]
fn string_equality() {
    assert!(str_eq("abc", "abc"));
    assert!(!str_eq("abc", "abd"));
    assert!(!str_eq("abc", "ab"));
    assert!(str_eq("", ""));
}

#[test]
fn strategy_options_follow_classifier() {
    let s = CompressionStrategy::new(6);
    let o = s.get_options("a.txt", Some(5));
    assert!(matches!(o.method, CompressionMethod::Deflated));
    assert_eq!(o.level, Some(6));
    assert_eq!(o.permissions, 0o644);

    let o = s.get_options("c.pdf", Some(5));
    assert!(matches!(o.method, CompressionMethod::Stored));
    assert_eq!(o.level, None);
    assert_eq!(o.permissions, 0o644);

    let o = s.get_options("big.bin", Some(50_000_000));
    assert!(matches!(o.method, CompressionMethod::Stored));

    let o = s.get_options("small.bin", Some(1000));
    assert!(matches!(o.method, CompressionMethod::Deflated));
}

#[test]
fn strategy_keeps_its_level() {
    let s = CompressionStrategy::new(9);
    assert_eq!(s.level, 9);
    let o = s.get_options("a.txt", Some(5));
    assert_eq!(o.level, Some(9));
}

#[test]
fn backslash_separators_bound_the_file_name() {
    assert_eq!(extension_of("dir.d\\file"), "");
    assert_eq!(extension_of("sub\\a.txt"), "txt");
    assert!(!should_store_raw("C:\\notes\\a.txt", Some(10)));
    assert!(should_store_raw("C:\\media.d\\clip", Some(2_000_000)));
}

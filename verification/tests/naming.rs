use sunrise_zip::scanner::FileEntry;
use sunrise_zip::scanner::filter_and_total;
use sunrise_zip::error::ZipError;
use sunrise_zip::paths::archive_name;
use sunrise_zip::paths::replace_backslashes;
use sunrise_zip::task::CompressionTask;
use sunrise_zip::task::ReadStrategy;
use sunrise_zip::task::channel_capacity;
use sunrise_zip::task::check_source;
use sunrise_zip::task::make_task;
use sunrise_zip::task::read_strategy_for;

#[test]
fn archive_name_strips_root() {
    assert_eq!(archive_name("root/sub/a.txt", "root").unwrap(), "sub/a.txt");
    assert_eq!(archive_name("root/a", "root/").unwrap(), "a");
    assert_eq!(archive_name("a", "").unwrap(), "a");
}

#[test]
fn archive_name_normalizes_backslashes() {
    assert_eq!(archive_name("root/sub\\b.txt", "root").unwrap(), "sub/b.txt");
    let n = archive_name("root/a\\b\\c.txt", "root").unwrap();
    assert!(!n.contains('\\'));
    assert_eq!(n, "a/b/c.txt");
}

#[test]
fn archive_name_rejects_paths_outside_root() {
    let e = archive_name("other/a.txt", "root").unwrap_err();
    match e {
        ZipError::PathError(p) => assert_eq!(p, "other/a.txt"),
        _ => panic!("wrong error kind"),
    }
    assert!(archive_name("rootx/a.txt", "root").is_err());
    assert!(archive_name("roo", "root").is_err());
}

#[test]
fn replace_backslashes_touches_only_backslashes() {
    assert_eq!(replace_backslashes("a\\b\\c"), "a/b/c");
    assert_eq!(replace_backslashes("plain/name.txt"), "plain/name.txt");
    assert_eq!(replace_backslashes(""), "");
}

#[test]
fn make_task_builds_the_unit_of_work() {
    let t: CompressionTask = make_task("root/sub/a.txt", "root", vec![1, 2, 3], true, 3).unwrap();
    assert_eq!(t.path, "root/sub/a.txt");
    assert_eq!(t.name, "sub/a.txt");
    assert_eq!(t.data, vec![1, 2, 3]);
    assert_eq!(t.original_size, Some(3));
}

#[test]
fn make_task_without_detail_records_zero() {
    let t = make_task("root/a.bin", "root", vec![9; 10], false, 10).unwrap();
    assert_eq!(t.original_size, Some(0));
}

#[test]
fn make_task_rejects_foreign_paths() {
    let e = make_task("elsewhere/a.txt", "root", vec![], true, 0).unwrap_err();
    assert!(matches!(e, ZipError::PathError(_)));
}

#[test]
fn read_strategy_threshold() {
    assert_eq!(read_strategy_for(10 * 1024 * 1024), ReadStrategy::Buffered);
    assert_eq!(read_strategy_for(10 * 1024 * 1024 + 1), ReadStrategy::MemoryMap);
    assert_eq!(read_strategy_for(0), ReadStrategy::Buffered);
}

#[test]
fn channel_capacity_is_two_per_worker() {
    assert_eq!(channel_capacity(1), 2);
    assert_eq!(channel_capacity(8), 16);
}

#[test]
fn source_must_be_a_directory() {
    assert!(check_source(true, "src").is_ok());
    let e = check_source(false, "missing").unwrap_err();
    match e {
        ZipError::FileNotFound(p) => assert_eq!(p, "missing"),
        _ => panic!("wrong error kind"),
    }
}

#[test]
fn error_detail_carries_context() {
    assert_eq!(ZipError::Io(String::from("boom")).detail(), "boom");
    assert_eq!(ZipError::ThreadError(String::from("gone")).detail(), "gone");
}

#[test]
fn scan_keeps_files_and_sums_sizes() {
    let entries = vec![
        FileEntry { path: String::from("root"), is_file: false, size: 0 },
        FileEntry { path: String::from("root/a.txt"), is_file: true, size: 5 },
        FileEntry { path: String::from("root/sub"), is_file: false, size: 4096 },
        FileEntry { path: String::from("root/sub/b.bin"), is_file: true, size: 100 },
    ];
    let (files, total) = filter_and_total(entries);
    assert_eq!(files.len(), 2);
    assert_eq!(files[0].path, "root/a.txt");
    assert_eq!(files[1].path, "root/sub/b.bin");
    assert_eq!(total, 105);
}

#[test]
fn scan_of_nothing_is_empty() {
    let (files, total) = filter_and_total(Vec::new());
    assert!(files.is_empty());
    assert_eq!(total, 0);
}

#[test]
fn scan_total_tops_out_instead_of_wrapping() {
    let entries = vec![
        FileEntry { path: String::from("a"), is_file: true, size: u64::MAX },
        FileEntry { path: String::from("b"), is_file: true, size: 2 },
    ];
    let (_, total) = filter_and_total(entries);
    assert_eq!(total, u64::MAX);
}

#[test]
fn backslash_host_paths_strip_and_normalize() {
    assert_eq!(archive_name("root\\sub\\a.txt", "root").unwrap(), "sub/a.txt");
    assert_eq!(archive_name("C:\\src\\sub\\a.txt", "C:\\src").unwrap(), "sub/a.txt");
    assert_eq!(archive_name("C:\\src\\a.txt", "C:/src").unwrap(), "a.txt");
    let t = make_task("root\\sub\\b.bin", "root", vec![7], false, 1).unwrap();
    assert_eq!(t.name, "sub/b.bin");
}

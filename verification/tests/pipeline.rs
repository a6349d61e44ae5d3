use std::io::Cursor;
use std::io::Read;
use sunrise_zip::task::CompressionTask;
use sunrise_zip::task::make_task;
use sunrise_zip::writer::ArchiveWriter;
use sunrise_zip::writer::build_archive;
use sunrise_zip::strategy::CompressionStrategy;
use zip::ZipArchive;

fn pseudo_random_bytes(n: usize, seed: u64) -> Vec<u8> {
    let mut x = seed;
    let mut v = Vec::with_capacity(n);
    for _ in 0..n {
        x = x.wrapping_mul(6364136223846793005).wrapping_add(1442695040888963407);
        v.push((x >> 33) as u8);
    }
    v
}

fn read_entries(bytes: &[u8]) -> Vec<(String, Vec<u8>, zip::CompressionMethod)> {
    let mut ar = ZipArchive::new(Cursor::new(bytes.to_vec())).unwrap();
    let mut out = Vec::new();
    for i in 0..ar.len() {
        let mut f = ar.by_index(i).unwrap();
        let name = f.name().to_string();
        let method = f.compression();
        let mut data = Vec::new();
        f.read_to_end(&mut data).unwrap();
        out.push((name, data, method));
    }
    out
}

#[test]
fn empty_source_yields_valid_empty_archive() {
    let tasks: Vec<CompressionTask> = Vec::new();
    let (bytes, total) = build_archive(&tasks, 6, false).unwrap();
    assert_eq!(total, 0);
    let ar = ZipArchive::new(Cursor::new(bytes)).unwrap();
    assert_eq!(ar.len(), 0);
}

#[test]
fn three_entry_scenario() {
    let b_bytes = pseudo_random_bytes(2 * 1024 * 1024, 42);
    let c_bytes = pseudo_random_bytes(500 * 1024, 7);
    let tasks = vec![
        make_task("src/a.txt", "src", b"hello".to_vec(), true, 5).unwrap(),
        make_task("src/sub/b.bin", "src", b_bytes.clone(), true, (2 * 1024 * 1024) as u64).unwrap(),
        make_task("src/sub/c.pdf", "src", c_bytes.clone(), true, (500 * 1024) as u64).unwrap(),
    ];
    let (bytes, total) = build_archive(&tasks, 6, true).unwrap();
    assert_eq!(total, 5 + 2 * 1024 * 1024 + 500 * 1024);

    let entries = read_entries(&bytes);
    assert_eq!(entries.len(), 3);

    assert_eq!(entries[0].0, "a.txt");
    assert_eq!(entries[0].1, b"hello".to_vec());
    assert_eq!(entries[0].2, zip::CompressionMethod::Deflated);

    assert_eq!(entries[1].0, "sub/b.bin");
    assert_eq!(entries[1].1, b_bytes);
    assert_eq!(entries[1].2, zip::CompressionMethod::Stored);

    assert_eq!(entries[2].0, "sub/c.pdf");
    assert_eq!(entries[2].1, c_bytes);
    assert_eq!(entries[2].2, zip::CompressionMethod::Stored);
}

#[test]
fn round_trip_fidelity() {
    let payloads: Vec<(&str, Vec<u8>)> = vec![
        ("src/a.txt", b"hello world, hello world, hello world".to_vec()),
        ("src/empty.txt", Vec::new()),
        ("src/sub/deep/tree.rs", b"fn main() {}".to_vec()),
        ("src/binary.dat", pseudo_random_bytes(4096, 3)),
    ];
    let tasks: Vec<CompressionTask> = payloads
        .iter()
        .map(|(p, d)| make_task(p, "src", d.clone(), false, d.len() as u64).unwrap())
        .collect();
    let (bytes, _) = build_archive(&tasks, 6, false).unwrap();
    let entries = read_entries(&bytes);
    assert_eq!(entries.len(), payloads.len());
    for (i, (p, d)) in payloads.iter().enumerate() {
        assert_eq!(entries[i].0, &p["src/".len()..]);
        assert_eq!(&entries[i].1, d);
    }
}

#[test]
fn multibyte_names_round_trip() {
    let tasks = vec![
        make_task("src/r\u{e9}sum\u{e9}.txt", "src", b"hola".to_vec(), false, 4).unwrap(),
        make_task("src/\u{65e5}\u{8a8c}.md", "src", b"si".to_vec(), false, 2).unwrap(),
    ];
    let (bytes, _) = build_archive(&tasks, 6, false).unwrap();
    let entries = read_entries(&bytes);
    assert_eq!(entries[0].0, "r\u{e9}sum\u{e9}.txt");
    assert_eq!(entries[1].0, "\u{65e5}\u{8a8c}.md");
}

#[test]
fn arrival_order_changes_layout_not_content() {
    let payloads: Vec<(&str, Vec<u8>)> = vec![
        ("src/a.txt", b"alpha".to_vec()),
        ("src/b.txt", b"beta".to_vec()),
        ("src/c.bin", pseudo_random_bytes(2048, 9)),
        ("src/d.pdf", pseudo_random_bytes(1024, 11)),
    ];
    let tasks: Vec<CompressionTask> = payloads
        .iter()
        .map(|(p, d)| make_task(p, "src", d.clone(), false, d.len() as u64).unwrap())
        .collect();
    let mut reversed: Vec<CompressionTask> = tasks.clone();
    reversed.reverse();

    let (bytes1, _) = build_archive(&tasks, 6, false).unwrap();
    let (bytes2, _) = build_archive(&reversed, 6, false).unwrap();

    let mut pairs1: Vec<(String, Vec<u8>)> =
        read_entries(&bytes1).into_iter().map(|(n, d, _)| (n, d)).collect();
    let mut pairs2: Vec<(String, Vec<u8>)> =
        read_entries(&bytes2).into_iter().map(|(n, d, _)| (n, d)).collect();
    assert_ne!(pairs1, pairs2);
    pairs1.sort();
    pairs2.sort();
    assert_eq!(pairs1, pairs2);
}

#[test]
fn duplicate_entry_names_are_refused() {
    let tasks = vec![
        make_task("src/a.txt", "src", b"one".to_vec(), false, 3).unwrap(),
        make_task("src/a.txt", "src", b"two".to_vec(), false, 3).unwrap(),
    ];
    assert!(build_archive(&tasks, 6, false).is_err());
}

#[test]
fn invalid_deflate_level_is_refused() {
    let tasks = vec![make_task("src/a.txt", "src", b"hello".to_vec(), false, 5).unwrap()];
    assert!(build_archive(&tasks, 999, false).is_err());
}

#[test]
fn totals_only_accumulate_when_detail_requested() {
    let tasks = vec![
        make_task("src/a.txt", "src", b"hello".to_vec(), false, 5).unwrap(),
    ];
    let (_, total) = build_archive(&tasks, 6, false).unwrap();
    assert_eq!(total, 0);

    let tasks = vec![
        make_task("src/a.txt", "src", b"hello".to_vec(), true, 5).unwrap(),
        make_task("src/b.txt", "src", b"hey".to_vec(), true, 3).unwrap(),
    ];
    let (_, total) = build_archive(&tasks, 6, true).unwrap();
    assert_eq!(total, 8);
}

#[test]
fn writer_drains_step_by_step() {
    let strategy = CompressionStrategy::new(6);
    let mut w = ArchiveWriter::new(strategy, true);
    let t1 = make_task("src/a.txt", "src", b"first".to_vec(), true, 5).unwrap();
    let t2 = make_task("src/b.pdf", "src", b"second".to_vec(), true, 6).unwrap();
    w.write_task(&t1).unwrap();
    w.write_task(&t2).unwrap();
    let (bytes, total) = w.finish().unwrap();
    assert_eq!(total, 11);
    let entries = read_entries(&bytes);
    assert_eq!(entries.len(), 2);
    assert_eq!(entries[0].0, "a.txt");
    assert_eq!(entries[0].1, b"first".to_vec());
    assert_eq!(entries[1].0, "b.pdf");
    assert_eq!(entries[1].1, b"second".to_vec());
    assert_eq!(entries[1].2, zip::CompressionMethod::Stored);
}

#[test]
fn entries_carry_posix_permissions() {
    let tasks = vec![make_task("src/a.txt", "src", b"hello".to_vec(), false, 5).unwrap()];
    let (bytes, _) = build_archive(&tasks, 6, false).unwrap();
    let mut ar = ZipArchive::new(Cursor::new(bytes)).unwrap();
    let f = ar.by_index(0).unwrap();
    assert_eq!(f.unix_mode().map(|m| m & 0o777), Some(0o644));
}

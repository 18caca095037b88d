use std::io::{Cursor, Write};

use akiraka::archive::{extract, path_escapes, plan_extraction, read_archive, ArchiveEntry, ArchiveError, ExtractOp};

fn sample_zip() -> Vec<u8> {
    let mut w = zip::ZipWriter::new(Cursor::new(Vec::new()));
    let opts = zip::write::SimpleFileOptions::default().compression_method(zip::CompressionMethod::Stored);
    w.add_directory("META-INF/", opts).unwrap();
    w.start_file("liblwjgl.so", opts).unwrap();
    w.write_all(b"\x7fELF-native").unwrap();
    w.start_file("META-INF/MANIFEST.MF", opts).unwrap();
    w.write_all(b"Manifest-Version: 1.0\n").unwrap();
    w.finish().unwrap().into_inner()
}

fn entry(name: &str, is_dir: bool, data: &[u8]) -> ArchiveEntry {
    ArchiveEntry { name: name.to_string(), is_dir, is_file: !is_dir, data: data.to_vec() }
}

#[test]
fn escaping_paths_are_detected() {
    assert!(path_escapes("../evil.so"));
    assert!(path_escapes("a/../../evil.so"));
    assert!(path_escapes("/etc/passwd"));
    assert!(path_escapes("\\windows\\system32"));
    assert!(path_escapes("C:/evil.dll"));
    assert!(path_escapes(".."));
    assert!(path_escapes("a/../.."));
    assert!(!path_escapes("a/../b.so"));
    assert!(!path_escapes("./lib/x.so"));
    assert!(!path_escapes("META-INF/"));
    assert!(!path_escapes("lib..so"));
    assert!(!path_escapes(""));
}

#[test]
fn plan_lists_dirs_and_files() {
    let entries = vec![entry("META-INF/", true, b""), entry("liblwjgl.so", false, b"abc")];
    let ops = plan_extraction(&entries, "versions/1/natives").unwrap();
    assert_eq!(ops.len(), 2);
    match &ops[0] {
        ExtractOp::CreateDir(p) => assert_eq!(p, "versions/1/natives/META-INF/"),
        _ => panic!("directory expected"),
    }
    match &ops[1] {
        ExtractOp::WriteFile(p, d) => {
            assert_eq!(p, "versions/1/natives/liblwjgl.so");
            assert_eq!(d, b"abc");
        }
        _ => panic!("file expected"),
    }
}

#[test]
fn plan_refuses_first_escaping_entry() {
    let entries = vec![entry("ok.so", false, b"1"), entry("../up.so", false, b"2"), entry("/abs.so", false, b"3")];
    assert_eq!(plan_extraction(&entries, "n").err(), Some(ArchiveError::PathEscape("../up.so".to_string())));
}

#[test]
fn plan_skips_links() {
    let link = ArchiveEntry { name: "link".to_string(), is_dir: false, is_file: false, data: Vec::new() };
    assert!(plan_extraction(&vec![link], "n").unwrap().is_empty());
}

#[test]
fn archive_is_read_in_order() {
    let entries = read_archive(&sample_zip()).unwrap();
    let names: Vec<&str> = entries.iter().map(|e| e.name.as_str()).collect();
    assert_eq!(names, vec!["META-INF/", "liblwjgl.so", "META-INF/MANIFEST.MF"]);
    assert!(entries[0].is_dir);
    assert!(entries[1].is_file);
    assert_eq!(entries[1].data, b"\x7fELF-native");
}

#[test]
fn extract_plans_archive() {
    let ops = extract(&sample_zip(), "nat").unwrap();
    assert_eq!(ops.len(), 3);
    match &ops[2] {
        ExtractOp::WriteFile(p, d) => {
            assert_eq!(p, "nat/META-INF/MANIFEST.MF");
            assert_eq!(d, b"Manifest-Version: 1.0\n");
        }
        _ => panic!("file expected"),
    }
}

#[test]
fn malformed_archive() {
    assert_eq!(read_archive(b"not a zip").err(), Some(ArchiveError::Malformed));
    assert_eq!(extract(&[], "n").err(), Some(ArchiveError::Malformed));
}

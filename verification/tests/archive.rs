use std::io::Read;

use uploader::archive::archive_entry_name;
use uploader::archive::build_archive;
use uploader::archive::ArchiveError;
use uploader::archive::FileEntry;

fn entry(path: &str, contents: &[u8]) -> FileEntry {
    FileEntry {
        path: String::from(path),
        contents: contents.to_vec(),
    }
}

fn read_back(bytes: Vec<u8>) -> Vec<(String, Vec<u8>)> {
    let cursor = std::io::Cursor::new(bytes);
    let mut archive = zip::ZipArchive::new(cursor).expect("archive should parse");
    let mut entries = Vec::new();
    for i in 0..archive.len() {
        let mut f = archive.by_index(i).expect("entry should open");
        let mut contents = Vec::new();
        f.read_to_end(&mut contents).expect("entry should read");
        entries.push((f.name().to_string(), contents));
    }
    entries
}

#[test]
fn entry_name_strips_directory_prefix() {
    assert_eq!(archive_entry_name("build/index.html", "build"), "index.html");
}

#[test]
fn entry_name_normalizes_backslashes() {
    assert_eq!(archive_entry_name("build\\assets\\app.js", "build"), "assets/app.js");
}

#[test]
fn entry_name_keeps_path_outside_directory() {
    assert_eq!(archive_entry_name("other/readme.md", "build"), "other/readme.md");
}

#[test]
fn entry_name_strips_prefix_only_once() {
    assert_eq!(archive_entry_name("build/build/x.txt", "build"), "build/x.txt");
}

#[test]
fn archives_build_tree_at_relative_paths() {
    let files = vec![
        entry("build/index.html", b"hi"),
        entry("build/assets/app.js", b"x"),
    ];
    let bytes = build_archive("build", &files).expect("archive should build");
    let entries = read_back(bytes);
    assert_eq!(entries.len(), 2);
    assert_eq!(entries[0], (String::from("index.html"), b"hi".to_vec()));
    assert_eq!(entries[1], (String::from("assets/app.js"), b"x".to_vec()));
    assert!(entries.iter().all(|(name, _)| name != "build/index.html"));
}

#[test]
fn archive_of_no_files_is_empty() {
    let bytes = build_archive("build", &Vec::new()).expect("archive should build");
    assert!(read_back(bytes).is_empty());
}

#[test]
fn windows_paths_land_at_forward_slash_names() {
    let files = vec![entry("build\\assets\\app.js", b"x")];
    let bytes = build_archive("build", &files).expect("archive should build");
    let entries = read_back(bytes);
    assert_eq!(entries, vec![(String::from("assets/app.js"), b"x".to_vec())]);
}

#[test]
fn colliding_entry_names_fail() {
    let files = vec![entry("build/a.txt", b"1"), entry("build/a.txt", b"2")];
    assert_eq!(build_archive("build", &files), Err(ArchiveError::EntryFailed));
}

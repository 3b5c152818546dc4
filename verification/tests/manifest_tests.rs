use std::io::Write;

use vita_pack_vpk::errors::{PackError, PathKind};
use vita_pack_vpk::manifest::{
    build_list, check_file, check_file_kind, make_add_list, tree_entries, walk_list,
};

const MISSING_MSG: &str = "File doesn't exist!";
const NOT_FILE_MSG: &str = "Given path is not a valid file!";

fn temp_file_with(bytes: &[u8]) -> tempfile::NamedTempFile {
    let mut f = tempfile::NamedTempFile::new().unwrap();
    f.write_all(bytes).unwrap();
    f.flush().unwrap();
    f
}

#[test]
fn check_file_kind_verdicts() {
    assert!(check_file_kind(PathKind::File).is_ok());
    assert_eq!(check_file_kind(PathKind::Missing).unwrap_err(), MISSING_MSG);
    assert_eq!(check_file_kind(PathKind::Dir).unwrap_err(), NOT_FILE_MSG);
    assert_eq!(check_file_kind(PathKind::Other).unwrap_err(), NOT_FILE_MSG);
}

#[test]
fn check_file_accepts_existing_file() {
    let f = temp_file_with(b"x");
    assert!(check_file(f.path().to_str().unwrap()).is_ok());
}

#[test]
fn check_file_rejects_missing_path() {
    let dir = tempfile::tempdir().unwrap();
    let missing = dir.path().join("no-such-file");
    assert_eq!(check_file(missing.to_str().unwrap()).unwrap_err(), MISSING_MSG);
}

#[test]
fn check_file_rejects_directory() {
    let dir = tempfile::tempdir().unwrap();
    assert_eq!(check_file(dir.path().to_str().unwrap()).unwrap_err(), NOT_FILE_MSG);
}

#[test]
fn make_add_list_maps_src_to_dst() {
    let f = temp_file_with(b"x");
    let src = f.path().to_str().unwrap();
    let entry = make_add_list(src, "inside/archive.bin").unwrap();
    assert_eq!(entry.src, src);
    assert_eq!(entry.dst, "inside/archive.bin");
}

#[test]
fn make_add_list_missing_is_not_found() {
    let dir = tempfile::tempdir().unwrap();
    let missing = dir.path().join("gone");
    let err = make_add_list(missing.to_str().unwrap(), "d").unwrap_err();
    assert_eq!(err, PackError::NotFound);
}

#[test]
fn tree_entries_joins_both_roots() {
    let rels = vec![String::from("a.txt"), String::from("sub/b.txt")];
    let entries = tree_entries("root", "data", &rels);
    assert_eq!(entries.len(), 2);
    assert_eq!(entries[0].src, "root/a.txt");
    assert_eq!(entries[0].dst, "data/a.txt");
    assert_eq!(entries[1].src, "root/sub/b.txt");
    assert_eq!(entries[1].dst, "data/sub/b.txt");
}

#[test]
fn tree_entries_empty_dst_root_stays_relative() {
    let rels = vec![String::from("a.txt")];
    let entries = tree_entries("root", "", &rels);
    assert_eq!(entries[0].dst, "a.txt");
}

#[test]
fn build_list_no_adds_has_exactly_two_fixed_entries() {
    let sfo = temp_file_with(b"SFO\0");
    let eboot = temp_file_with(b"ELF\0");
    let sfo_path = sfo.path().to_str().unwrap();
    let eboot_path = eboot.path().to_str().unwrap();
    let entries = build_list(sfo_path, eboot_path, &Vec::new()).unwrap();
    assert_eq!(entries.len(), 2);
    assert_eq!(entries[0].src, sfo_path);
    assert_eq!(entries[0].dst, "sce_sys/param.sfo");
    assert_eq!(entries[1].src, eboot_path);
    assert_eq!(entries[1].dst, "eboot.bin");
}

#[test]
fn build_list_missing_sfo_is_not_found() {
    let eboot = temp_file_with(b"ELF\0");
    let dir = tempfile::tempdir().unwrap();
    let missing = dir.path().join("param.sfo");
    let err = build_list(
        missing.to_str().unwrap(),
        eboot.path().to_str().unwrap(),
        &Vec::new(),
    )
    .unwrap_err();
    assert_eq!(err, PackError::NotFound);
}

#[test]
fn build_list_missing_add_is_invalid_source() {
    let sfo = temp_file_with(b"SFO\0");
    let eboot = temp_file_with(b"ELF\0");
    let dir = tempfile::tempdir().unwrap();
    let missing = dir.path().join("gone");
    let adds = vec![(missing.to_str().unwrap().to_string(), String::from("data"))];
    let err = build_list(
        sfo.path().to_str().unwrap(),
        eboot.path().to_str().unwrap(),
        &adds,
    )
    .unwrap_err();
    assert_eq!(err, PackError::InvalidSource);
}

#[test]
fn build_list_appends_file_add_in_order() {
    let sfo = temp_file_with(b"SFO\0");
    let eboot = temp_file_with(b"ELF\0");
    let extra = temp_file_with(b"extra");
    let adds = vec![(
        extra.path().to_str().unwrap().to_string(),
        String::from("data/extra.bin"),
    )];
    let entries = build_list(
        sfo.path().to_str().unwrap(),
        eboot.path().to_str().unwrap(),
        &adds,
    )
    .unwrap();
    assert_eq!(entries.len(), 3);
    assert_eq!(entries[2].src, extra.path().to_str().unwrap());
    assert_eq!(entries[2].dst, "data/extra.bin");
}

// Materializes a small tree on disk by extracting a container built in
// memory: a.txt holding "alpha" and sub/b.txt holding "beta".
fn make_tree() -> tempfile::TempDir {
    let dir = tempfile::tempdir().unwrap();
    let files = vec![
        vita_pack_vpk::pack::FileEntry { dst: String::from("a.txt"), data: b"alpha".to_vec() },
        vita_pack_vpk::pack::FileEntry {
            dst: String::from("sub/b.txt"),
            data: b"beta".to_vec(),
        },
    ];
    let bytes = vita_pack_vpk::pack::pack_vpk(&files).unwrap();
    let mut archive = zip::ZipArchive::new(std::io::Cursor::new(bytes)).unwrap();
    archive.extract(dir.path()).unwrap();
    dir
}

#[test]
fn walk_list_expands_full_tree() {
    let dir = make_tree();
    let entries = walk_list(dir.path().to_str().unwrap(), "data").unwrap();
    let mut dsts: Vec<String> = entries.iter().map(|e| e.dst.clone()).collect();
    dsts.sort();
    assert_eq!(dsts, vec!["data/a.txt".to_string(), "data/sub/b.txt".to_string()]);
    for e in &entries {
        assert!(std::path::Path::new(&e.src).is_file());
    }
}

#[test]
fn walk_list_missing_dir_is_not_found() {
    let dir = tempfile::tempdir().unwrap();
    let missing = dir.path().join("gone");
    let err = walk_list(missing.to_str().unwrap(), "data").unwrap_err();
    assert_eq!(err, PackError::NotFound);
}

#[test]
fn build_list_expands_directory_add() {
    let sfo = temp_file_with(b"SFO\0");
    let eboot = temp_file_with(b"ELF\0");
    let tree = make_tree();
    let adds = vec![(tree.path().to_str().unwrap().to_string(), String::from("data"))];
    let entries = build_list(
        sfo.path().to_str().unwrap(),
        eboot.path().to_str().unwrap(),
        &adds,
    )
    .unwrap();
    assert_eq!(entries.len(), 4);
    assert_eq!(entries[0].dst, "sce_sys/param.sfo");
    assert_eq!(entries[1].dst, "eboot.bin");
    let mut rest: Vec<String> = entries[2..].iter().map(|e| e.dst.clone()).collect();
    rest.sort();
    assert_eq!(rest, vec!["data/a.txt".to_string(), "data/sub/b.txt".to_string()]);
}

#[test]
fn tree_entries_normalizes_destination_separators_only() {
    let rels = vec![String::from("sub\\b.txt")];
    let entries = tree_entries("root", "data", &rels);
    assert_eq!(entries[0].src, "root/sub\\b.txt");
    assert_eq!(entries[0].dst, "data/sub/b.txt");
}

#[test]
fn dispatch_add_file_kind_gives_the_declared_pair() {
    let f = temp_file_with(b"x");
    let src = f.path().to_str().unwrap();
    let entries = vita_pack_vpk::manifest::dispatch_add(PathKind::File, src, "data/x.bin").unwrap();
    assert_eq!(entries.len(), 1);
    assert_eq!(entries[0].src, src);
    assert_eq!(entries[0].dst, "data/x.bin");
}

#[test]
fn dispatch_add_refuses_missing_and_other_kinds() {
    let err = vita_pack_vpk::manifest::dispatch_add(PathKind::Missing, "gone", "d").unwrap_err();
    assert_eq!(err, PackError::InvalidSource);
    let err = vita_pack_vpk::manifest::dispatch_add(PathKind::Other, "odd", "d").unwrap_err();
    assert_eq!(err, PackError::InvalidSource);
}

#[test]
fn dispatch_add_dir_kind_expands_the_tree() {
    let dir = make_tree();
    let entries =
        vita_pack_vpk::manifest::dispatch_add(PathKind::Dir, dir.path().to_str().unwrap(), "data")
            .unwrap();
    let mut dsts: Vec<String> = entries.iter().map(|e| e.dst.clone()).collect();
    dsts.sort();
    assert_eq!(dsts, vec!["data/a.txt".to_string(), "data/sub/b.txt".to_string()]);
}

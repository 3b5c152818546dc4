use vita_pack_vpk::paths::{check_add, parse_add};

const ADD_HINT: &str = "Need <src=dst>. With src the source folder or path and dst where it should be in the vpk archive.";

#[test]
fn check_add_accepts_src_dst() {
    assert!(check_add("a=b").is_ok());
    assert!(check_add("source/folder=destination").is_ok());
}

#[test]
fn check_add_rejects_missing_eq() {
    assert_eq!(check_add("nodest").unwrap_err(), ADD_HINT);
}

#[test]
fn check_add_rejects_short() {
    assert_eq!(check_add("a=").unwrap_err(), ADD_HINT);
    assert_eq!(check_add("=").unwrap_err(), ADD_HINT);
}

#[test]
fn parse_add_splits_at_first_eq() {
    let (src, dst) = parse_add("source/folder=destination");
    assert_eq!(src, "source/folder");
    assert_eq!(dst, "destination");
}

#[test]
fn parse_add_keeps_middle_segment() {
    let (src, dst) = parse_add("a=b=c");
    assert_eq!(src, "a");
    assert_eq!(dst, "b");
}

#[test]
fn parse_add_allows_empty_halves() {
    let (src, dst) = parse_add("ab=");
    assert_eq!(src, "ab");
    assert_eq!(dst, "");
    let (src, dst) = parse_add("=cd");
    assert_eq!(src, "");
    assert_eq!(dst, "cd");
}

#[test]
fn normalize_seps_turns_backslashes_forward() {
    assert_eq!(vita_pack_vpk::paths::normalize_seps("sub\\b.txt"), "sub/b.txt");
    assert_eq!(vita_pack_vpk::paths::normalize_seps("a/b"), "a/b");
    assert_eq!(vita_pack_vpk::paths::normalize_seps(""), "");
}

use resha::digest::{digest, hex};
use resha::order::{sorted_paths, str_eq, str_lt};
use sha2::{Digest, Sha256};

#[test]
fn digest_is_sha256_hex_of_contents_then_command() {
    // "abc" split over a file and the command
    let d = digest(&vec![b"ab".to_vec()], "c");
    assert_eq!(d, "ba7816bf8f01cfea414140de5dae2223b00361a396177a9cb410ff61f20015ad");
    let empty = digest(&vec![], "");
    assert_eq!(empty, "e3b0c44298fc1c149afbf4c8996fb92427ae41e4649b934ca495991b7852b855");
}

#[test]
fn digest_matches_streamed_hash() {
    let files = vec![b"first\n".to_vec(), vec![0u8, 255, 7], b"third".to_vec()];
    let mut h = Sha256::new();
    for f in &files {
        h.update(f);
    }
    h.update("cmd --flag");
    let want = format!("{:x}", h.finalize());
    assert_eq!(digest(&files, "cmd --flag"), want);
}

#[test]
fn digest_is_deterministic() {
    let files = vec![b"a".to_vec(), b"b".to_vec()];
    assert_eq!(digest(&files, "run"), digest(&files.clone(), "run"));
}

#[test]
fn digest_changes_with_any_byte() {
    let files = vec![b"abc".to_vec(), b"def".to_vec()];
    let base = digest(&files, "run");
    let mut changed = files.clone();
    changed[1][2] = b'x';
    assert_ne!(digest(&changed, "run"), base);
    assert_ne!(digest(&files, "rum"), base);
}

#[test]
fn hex_writes_two_lowercase_digits_per_byte() {
    assert_eq!(hex(&vec![0x00, 0x0f, 0xa5, 0xff]), "000fa5ff");
    assert_eq!(hex(&vec![]), "");
}

#[test]
fn order_of_paths_does_not_matter() {
    let a = vec![Some("/z".to_string()), Some("/a/b".to_string()), None];
    let b = vec![Some("/a".to_string()), Some("/z".to_string())];
    let c = vec![Some("/a".to_string()), Some("/a/b".to_string())];
    let d = vec![Some("/z".to_string())];
    assert_eq!(sorted_paths(&a, &b), vec!["/a".to_string(), "/a/b".to_string(), "/z".to_string()]);
    assert_eq!(sorted_paths(&a, &b), sorted_paths(&c, &d));
    assert_eq!(sorted_paths(&vec![], &vec![None]), Vec::<String>::new());
}

#[test]
fn strings_compare_by_code_point() {
    assert!(str_lt("a", "b"));
    assert!(str_lt("a", "ab"));
    assert!(!str_lt("ab", "ab"));
    assert!(str_lt("Z", "a"));
    assert!(str_lt("", "a"));
    assert!(!str_lt("é", "z"));
    assert!(str_eq("ab", "ab"));
    assert!(!str_eq("ab", "abc"));
}

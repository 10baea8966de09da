use dotfile::paths::{
    copy_entry_dest, ensure_file_under_homedir, join, path_relative, starts_with, CPath,
};

fn p(parts: &[&[u8]]) -> CPath {
    CPath::from_parts(parts.iter().map(|c| c.to_vec()).collect())
}

#[test]
fn under_home_accepts_strict_descendant() {
    let home = p(&[b"home", b"u"]);
    let f = p(&[b"home", b"u", b".bashrc"]);
    assert!(ensure_file_under_homedir(&home, &f).is_ok());
    let deep = p(&[b"home", b"u", b"a", b"b", b"c"]);
    assert!(ensure_file_under_homedir(&home, &deep).is_ok());
}

#[test]
fn under_home_rejects_home_itself() {
    let home = p(&[b"home", b"u"]);
    assert!(ensure_file_under_homedir(&home, &home).is_err());
}

#[test]
fn under_home_rejects_outside() {
    let home = p(&[b"home", b"u"]);
    let etc = p(&[b"etc", b"passwd"]);
    assert!(ensure_file_under_homedir(&home, &etc).is_err());
    let sibling = p(&[b"home", b"v", b".bashrc"]);
    assert!(ensure_file_under_homedir(&home, &sibling).is_err());
    let parent = p(&[b"home"]);
    assert!(ensure_file_under_homedir(&home, &parent).is_err());
}

#[test]
fn starts_with_matches_component_prefixes() {
    let home = p(&[b"home", b"u"]);
    let f = p(&[b"home", b"u", b"x"]);
    assert!(starts_with(&f, &home));
    assert!(starts_with(&home, &home));
    assert!(!starts_with(&home, &f));
    // a prefix of the component text is not a component prefix
    let odd = p(&[b"home", b"ur", b"x"]);
    assert!(!starts_with(&odd, &home));
}

#[test]
fn relative_then_join_reconstructs() {
    let prefix = p(&[b"home", b"u"]);
    let file = p(&[b"home", b"u", b"dir", b"f.txt"]);
    let rel = path_relative(&file, &prefix);
    assert_eq!(rel.parts, vec![b"dir".to_vec(), b"f.txt".to_vec()]);
    let back = join(&prefix, &rel);
    assert_eq!(back.parts, file.parts);
}

#[test]
fn relative_of_itself_is_empty() {
    let prefix = p(&[b"home", b"u"]);
    let rel = path_relative(&prefix, &prefix);
    assert!(rel.parts.is_empty());
    assert_eq!(join(&prefix, &rel).parts, prefix.parts);
}

#[test]
fn copy_dest_keeps_leaf_name() {
    // copying directory a/b/c into link/ puts x.txt at link/c/x.txt,
    // not at link/a/b/c/x.txt
    let from = p(&[b"home", b"u", b"a", b"b", b"c"]);
    let file = p(&[b"home", b"u", b"a", b"b", b"c", b"x.txt"]);
    let to = p(&[b"home", b"u", b".dotfiles", b"link"]);
    let dest = copy_entry_dest(&file, &from, &to);
    assert_eq!(
        dest.parts,
        vec![
            b"home".to_vec(),
            b"u".to_vec(),
            b".dotfiles".to_vec(),
            b"link".to_vec(),
            b"c".to_vec(),
            b"x.txt".to_vec(),
        ]
    );
}

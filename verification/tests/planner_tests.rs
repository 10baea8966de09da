use dotfile::fsmodel::{Action, EntryKind};
use dotfile::paths::CPath;
use dotfile::plan::{
    backup_file, describe_plan, initial_check, link_add, link_add_target, link_sync_entry,
    plan_effects, store_subdir, AddError, EnvError,
};

fn q(parts: &[&[u8]]) -> CPath {
    CPath::from_parts(parts.iter().map(|c| c.to_vec()).collect())
}

fn home() -> CPath {
    q(&[b"home", b"u"])
}

fn link_root() -> CPath {
    q(&[b"home", b"u", b".dotfiles", b"link"])
}

fn backup_root() -> CPath {
    q(&[b"home", b"u", b".dotfiles", b"backup"])
}

#[test]
fn add_moves_file_and_links_it() {
    let f = q(&[b"home", b"u", b".bashrc"]);
    let plan = link_add(
        &home(),
        &link_root(),
        &backup_root(),
        &f,
        EntryKind::FileEntry,
        EntryKind::Missing,
    )
    .unwrap();
    let stored = q(&[b"home", b"u", b".dotfiles", b"link", b".bashrc"]);
    assert_eq!(plan.len(), 3);
    match &plan[0] {
        Action::CopyFile { from, to } => {
            assert_eq!(from.parts, f.parts);
            assert_eq!(to.parts, stored.parts);
        }
        _ => panic!("expected the relocating copy first"),
    }
    match &plan[1] {
        Action::RemoveFile { path } => assert_eq!(path.parts, f.parts),
        _ => panic!("expected the original file's removal second"),
    }
    match &plan[2] {
        Action::SymlinkAt { at, target } => {
            assert_eq!(at.parts, f.parts);
            assert_eq!(target.parts, stored.parts);
        }
        _ => panic!("expected the symlink last"),
    }
}

#[test]
fn add_of_directory_copies_tree_into_link_root() {
    // adding a/b/c lands its tree below link/c, per the leaf-name rule
    let d = q(&[b"home", b"u", b"a", b"b", b"c"]);
    let plan = link_add(
        &home(),
        &link_root(),
        &backup_root(),
        &d,
        EntryKind::DirEntry,
        EntryKind::Missing,
    )
    .unwrap();
    assert_eq!(plan.len(), 3);
    match &plan[0] {
        Action::CopyTree { from, to } => {
            assert_eq!(from.parts, d.parts);
            assert_eq!(to.parts, link_root().parts);
        }
        _ => panic!("expected the tree copy first"),
    }
    match &plan[1] {
        Action::RemoveTree { path } => assert_eq!(path.parts, d.parts),
        _ => panic!("expected the original tree's removal second"),
    }
    // the link targets the copied tree's root, link/c, where the
    // leaf-name copy actually put the content — not link/a/b/c
    let copied_root = q(&[b"home", b"u", b".dotfiles", b"link", b"c"]);
    match &plan[2] {
        Action::SymlinkAt { at, target } => {
            assert_eq!(at.parts, d.parts);
            assert_eq!(target.parts, copied_root.parts);
        }
        _ => panic!("expected the symlink last"),
    }
}

#[test]
fn add_target_of_a_directory_is_its_leaf_below_link() {
    let d = q(&[b"home", b"u", b"a", b"b", b"c"]);
    let dest = link_add_target(&home(), &link_root(), &d, EntryKind::DirEntry).unwrap();
    assert_eq!(
        dest.parts,
        q(&[b"home", b"u", b".dotfiles", b"link", b"c"]).parts
    );
}

#[test]
fn add_backs_up_an_occupied_store_destination() {
    let f = q(&[b"home", b"u", b".bashrc"]);
    let plan = link_add(
        &home(),
        &link_root(),
        &backup_root(),
        &f,
        EntryKind::FileEntry,
        EntryKind::FileEntry,
    )
    .unwrap();
    let stored = q(&[b"home", b"u", b".dotfiles", b"link", b".bashrc"]);
    let saved = q(&[b"home", b"u", b".dotfiles", b"backup", b".bashrc"]);
    assert_eq!(plan.len(), 4);
    match &plan[0] {
        Action::CopyFile { from, to } => {
            assert_eq!(from.parts, stored.parts);
            assert_eq!(to.parts, saved.parts);
        }
        _ => panic!("expected the backup copy before everything else"),
    }
    assert!(matches!(&plan[1], Action::CopyFile { .. }));
    assert!(matches!(&plan[2], Action::RemoveFile { .. }));
    assert!(matches!(&plan[3], Action::SymlinkAt { .. }));
}

#[test]
fn add_backs_up_a_symlink_at_the_store_destination() {
    let f = q(&[b"home", b"u", b".bashrc"]);
    let plan = link_add(
        &home(),
        &link_root(),
        &backup_root(),
        &f,
        EntryKind::FileEntry,
        EntryKind::LinkEntry,
    )
    .unwrap();
    let stored = q(&[b"home", b"u", b".dotfiles", b"link", b".bashrc"]);
    let saved = q(&[b"home", b"u", b".dotfiles", b"backup", b".bashrc"]);
    assert_eq!(plan.len(), 4);
    match &plan[0] {
        Action::CopyFile { from, to } => {
            assert_eq!(from.parts, stored.parts);
            assert_eq!(to.parts, saved.parts);
        }
        _ => panic!("expected the backup copy before everything else"),
    }
}

#[test]
fn add_rejects_a_symlink_without_planning_anything() {
    let f = q(&[b"home", b"u", b".bashrc"]);
    let r = link_add(
        &home(),
        &link_root(),
        &backup_root(),
        &f,
        EntryKind::LinkEntry,
        EntryKind::Missing,
    );
    assert_eq!(r.unwrap_err(), AddError::IsSymlink);
}

#[test]
fn add_rejects_a_missing_path() {
    let f = q(&[b"home", b"u", b"gone"]);
    let r = link_add(
        &home(),
        &link_root(),
        &backup_root(),
        &f,
        EntryKind::Missing,
        EntryKind::Missing,
    );
    assert_eq!(r.unwrap_err(), AddError::NotFound);
}

#[test]
fn add_rejects_paths_outside_home() {
    let outside = q(&[b"etc", b"passwd"]);
    let r = link_add(
        &home(),
        &link_root(),
        &backup_root(),
        &outside,
        EntryKind::FileEntry,
        EntryKind::Missing,
    );
    assert_eq!(r.unwrap_err(), AddError::OutsideHome);
    let itself = home();
    let r2 = link_add(
        &home(),
        &link_root(),
        &backup_root(),
        &itself,
        EntryKind::DirEntry,
        EntryKind::Missing,
    );
    assert_eq!(r2.unwrap_err(), AddError::OutsideHome);
}

#[test]
fn add_target_is_the_home_relative_path_below_link() {
    let f = q(&[b"home", b"u", b"cfg", b"app.toml"]);
    let dest = link_add_target(&home(), &link_root(), &f, EntryKind::FileEntry).unwrap();
    assert_eq!(
        dest.parts,
        q(&[b"home", b"u", b".dotfiles", b"link", b"cfg", b"app.toml"]).parts
    );
}

#[test]
fn backup_copies_a_file_under_its_relative_key() {
    let rel = q(&[b".bashrc"]);
    let target = q(&[b"home", b"u", b".dotfiles", b"link", b".bashrc"]);
    let plan = backup_file(&backup_root(), &rel, &target, EntryKind::FileEntry);
    assert_eq!(plan.len(), 1);
    match &plan[0] {
        Action::CopyFile { from, to } => {
            assert_eq!(from.parts, target.parts);
            assert_eq!(
                to.parts,
                q(&[b"home", b"u", b".dotfiles", b"backup", b".bashrc"]).parts
            );
        }
        _ => panic!("expected a single backup copy"),
    }
}

#[test]
fn backup_of_a_missing_target_plans_nothing() {
    let rel = q(&[b".bashrc"]);
    let target = q(&[b"home", b"u", b".dotfiles", b"link", b".bashrc"]);
    let plan = backup_file(&backup_root(), &rel, &target, EntryKind::Missing);
    assert!(plan.is_empty());
}

#[test]
fn backup_of_a_directory_copies_its_tree() {
    let rel = q(&[b"cfg"]);
    let target = q(&[b"home", b"u", b".dotfiles", b"link", b"cfg"]);
    let plan = backup_file(&backup_root(), &rel, &target, EntryKind::DirEntry);
    assert_eq!(plan.len(), 1);
    match &plan[0] {
        Action::CopyTree { from, to } => {
            assert_eq!(from.parts, target.parts);
            assert_eq!(to.parts, backup_root().parts);
        }
        _ => panic!("expected a single tree copy"),
    }
}

#[test]
fn backup_of_a_nested_directory_keeps_the_whole_key() {
    // key a/b/c: the tree (whose leaf is c) is copied beside backup/a/b,
    // so it comes to stand at backup/a/b/c — the full relative key
    let rel = q(&[b"a", b"b", b"c"]);
    let target = q(&[b"home", b"u", b".dotfiles", b"link", b"c"]);
    let plan = backup_file(&backup_root(), &rel, &target, EntryKind::DirEntry);
    assert_eq!(plan.len(), 1);
    match &plan[0] {
        Action::CopyTree { from, to } => {
            assert_eq!(from.parts, target.parts);
            assert_eq!(
                to.parts,
                q(&[b"home", b"u", b".dotfiles", b"backup", b"a", b"b"]).parts
            );
        }
        _ => panic!("expected a single tree copy"),
    }
}

#[test]
fn backup_of_a_symlink_target_saves_what_it_shows() {
    // only a missing target needs no backup; a stored symlink is backed
    // up as a file copy, which reads through the link
    let rel = q(&[b".bashrc"]);
    let target = q(&[b"home", b"u", b".dotfiles", b"link", b".bashrc"]);
    let plan = backup_file(&backup_root(), &rel, &target, EntryKind::LinkEntry);
    assert_eq!(plan.len(), 1);
    match &plan[0] {
        Action::CopyFile { from, to } => {
            assert_eq!(from.parts, target.parts);
            assert_eq!(
                to.parts,
                q(&[b"home", b"u", b".dotfiles", b"backup", b".bashrc"]).parts
            );
        }
        _ => panic!("expected a single backup copy"),
    }
}

#[test]
fn sync_materializes_a_missing_file() {
    let entry = q(&[b"home", b"u", b".dotfiles", b"link", b".bashrc"]);
    let plan = link_sync_entry(&home(), &link_root(), &entry, false, EntryKind::Missing);
    assert_eq!(plan.len(), 1);
    match &plan[0] {
        Action::CopyFile { from, to } => {
            assert_eq!(from.parts, entry.parts);
            assert_eq!(to.parts, q(&[b"home", b"u", b".bashrc"]).parts);
        }
        _ => panic!("expected the materializing copy"),
    }
}

#[test]
fn sync_materializes_a_missing_directory_wholesale() {
    let entry = q(&[b"home", b"u", b".dotfiles", b"link", b"cfg"]);
    let plan = link_sync_entry(&home(), &link_root(), &entry, true, EntryKind::Missing);
    assert_eq!(plan.len(), 1);
    match &plan[0] {
        Action::CopyTree { from, to } => {
            assert_eq!(from.parts, entry.parts);
            assert_eq!(to.parts, home().parts);
        }
        _ => panic!("expected the materializing tree copy"),
    }
}

#[test]
fn sync_skips_an_existing_symlink() {
    let entry = q(&[b"home", b"u", b".dotfiles", b"link", b".bashrc"]);
    let plan = link_sync_entry(&home(), &link_root(), &entry, false, EntryKind::LinkEntry);
    assert!(plan.is_empty());
}

#[test]
fn sync_never_clobbers_live_content() {
    let entry = q(&[b"home", b"u", b".dotfiles", b"link", b".bashrc"]);
    let plan = link_sync_entry(&home(), &link_root(), &entry, false, EntryKind::FileEntry);
    assert!(plan.is_empty());
    let plan2 = link_sync_entry(&home(), &link_root(), &entry, false, EntryKind::DirEntry);
    assert!(plan2.is_empty());
}

#[test]
fn sync_twice_plans_nothing_the_second_time() {
    // after the first sync materialized the file, the second probe finds
    // it and the second plan is empty
    let entry = q(&[b"home", b"u", b".dotfiles", b"link", b".bashrc"]);
    let first = link_sync_entry(&home(), &link_root(), &entry, false, EntryKind::Missing);
    assert_eq!(first.len(), 1);
    let second = link_sync_entry(&home(), &link_root(), &entry, false, EntryKind::FileEntry);
    assert!(second.is_empty());
}

#[test]
fn initial_check_accepts_an_existing_store() {
    let root = q(&[b"home", b"u", b".dotfiles"]);
    let plan = initial_check(&root, true, false).unwrap();
    assert!(plan.is_empty());
}

#[test]
fn initial_check_refuses_an_occupying_file() {
    let root = q(&[b"home", b"u", b".dotfiles"]);
    let r = initial_check(&root, false, true);
    assert_eq!(r.unwrap_err(), EnvError::StorePathOccupied);
}

#[test]
fn initial_check_creates_the_three_subtrees() {
    let root = q(&[b"home", b"u", b".dotfiles"]);
    let plan = initial_check(&root, false, false).unwrap();
    assert_eq!(plan.len(), 4);
    let expected: [&[u8]; 3] = [b"link", b"backup", b"source"];
    match &plan[0] {
        Action::MakeDir { path } => assert_eq!(path.parts, root.parts),
        _ => panic!("expected the root first"),
    }
    for (i, name) in expected.iter().enumerate() {
        match &plan[i + 1] {
            Action::MakeDir { path } => {
                let mut want = root.parts.clone();
                want.push(name.to_vec());
                assert_eq!(path.parts, want);
            }
            _ => panic!("expected a subtree directory"),
        }
    }
}

#[test]
fn store_subdir_appends_one_component() {
    let root = q(&[b"home", b"u", b".dotfiles"]);
    let link = store_subdir(&root, "link");
    assert_eq!(
        link.parts,
        q(&[b"home", b"u", b".dotfiles", b"link"]).parts
    );
}

#[test]
fn dry_run_applies_nothing_but_describes_everything() {
    let f = q(&[b"home", b"u", b".bashrc"]);
    let plan = link_add(
        &home(),
        &link_root(),
        &backup_root(),
        &f,
        EntryKind::FileEntry,
        EntryKind::FileEntry,
    )
    .unwrap();
    let logs = describe_plan(&plan);
    assert_eq!(logs.len(), plan.len());
    assert_eq!(logs[0], "copy file");
    assert_eq!(logs[2], "remove file");
    assert_eq!(logs[3], "create symlink");
    let effective = plan_effects(plan, true);
    assert!(effective.is_empty());
}

#[test]
fn a_real_run_applies_the_whole_plan() {
    let f = q(&[b"home", b"u", b".bashrc"]);
    let plan = link_add(
        &home(),
        &link_root(),
        &backup_root(),
        &f,
        EntryKind::FileEntry,
        EntryKind::Missing,
    )
    .unwrap();
    let n = plan.len();
    let effective = plan_effects(plan, false);
    assert_eq!(effective.len(), n);
}

#[test]
fn probe_classifier_spots_only_links() {
    assert!(dotfile::fsmodel::is_symlink(EntryKind::LinkEntry));
    assert!(!dotfile::fsmodel::is_symlink(EntryKind::Missing));
    assert!(!dotfile::fsmodel::is_symlink(EntryKind::FileEntry));
    assert!(!dotfile::fsmodel::is_symlink(EntryKind::DirEntry));
}

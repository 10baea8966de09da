//! The planners: every decision the tool makes, over plain values.
//!
//! Each planner turns probe results gathered by the unverified shell into
//! a plan — a list of [`Action`]s — or an error. The contracts pin down
//! exactly which actions are planned for which probes, so the theorems in
//! [`crate::laws`] can say what the filesystem looks like after a plan is
//! carried out. The shell only probes, hands the results in, and performs
//! (or, on a dry run, prints) what was planned.

use vstd::prelude::*;
use vstd::string::StringSliceAdditionalSpecFns;

use crate::fsmodel::{
    is_copy_file, is_copy_tree, is_make_dir, is_remove_file, is_remove_tree, is_symlink,
    is_symlink_at, Action, EntryKind,
};
use crate::paths::{
    ensure_file_under_homedir, is_prefix, join, leaf_of, parent_of, path_relative, CPath,
};

verus! {

/// Why an add was refused. Each refusal aborts only that add; the run may
/// go on to other work.
#[derive(Clone, Copy, PartialEq, Eq, Structural, Debug)]
pub enum AddError {
    /// The path to adopt does not exist.
    NotFound,
    /// The path is itself a symbolic link; adopting it as if it were
    /// original content would silently lose the link's own target.
    IsSymlink,
    /// The path is the home directory itself, or lies outside it.
    OutsideHome,
}

/// Why no operation can run at all.
#[derive(Clone, Copy, PartialEq, Eq, Structural, Debug)]
pub enum EnvError {
    /// A non-directory occupies the store root's path.
    StorePathOccupied,
}

/// The store subtree `store_root/<name>`.
pub fn store_subdir(store_root: &CPath, name: &str) -> (r: CPath)
    ensures
        r@ == store_root@.push(name.spec_bytes()),
{
    let mut out = store_root.duplicate();
    let c = vstd::slice::slice_to_vec(name.as_bytes());
    out.parts.push(c);
    proof {
        assert(out@ =~= store_root@.push(name.spec_bytes()));
    }
    out
}

/// The actions that make the store usable before any operation runs:
/// nothing if the store root is already a directory; a refusal if a file
/// occupies its path; otherwise the root and its three subtrees are
/// created. The two probe values follow links, as the underlying
/// filesystem checks do.
pub fn initial_check(store_root: &CPath, root_is_dir: bool, root_is_file: bool) -> (r: Result<
    Vec<Action>,
    EnvError,
>)
    ensures
        root_is_dir ==> (r matches Ok(plan) && plan@ == Seq::<Action>::empty()),
        !root_is_dir && root_is_file ==> r == Result::<Vec<Action>, EnvError>::Err(
            EnvError::StorePathOccupied,
        ),
        !root_is_dir && !root_is_file ==> (r matches Ok(plan) && {
            &&& plan@.len() == 4
            &&& is_make_dir(plan@[0], store_root@)
            &&& is_make_dir(plan@[1], store_root@.push("link".spec_bytes()))
            &&& is_make_dir(plan@[2], store_root@.push("backup".spec_bytes()))
            &&& is_make_dir(plan@[3], store_root@.push("source".spec_bytes()))
        }),
{
    if root_is_dir {
        return Ok(Vec::new());
    }
    if root_is_file {
        return Err(EnvError::StorePathOccupied);
    }
    let mut plan: Vec<Action> = Vec::new();
    plan.push(Action::MakeDir { path: store_root.duplicate() });
    plan.push(Action::MakeDir { path: store_subdir(store_root, "link") });
    plan.push(Action::MakeDir { path: store_subdir(store_root, "backup") });
    plan.push(Action::MakeDir { path: store_subdir(store_root, "source") });
    Ok(plan)
}

/// The actions that back up `target`'s current state under `backup_root`,
/// keyed by the relative path `rel`, before `target` is overwritten.
/// Only a missing target needs no backup. A file is copied to
/// `backup_root/<rel>`; so is a symbolic link — the shell's copy reads
/// through it, so what the link showed is what is saved. A directory's
/// whole tree is copied beside the key's last component, so that the
/// tree — whose own leaf name is that component — comes to stand at
/// `backup_root/<rel>`. Backups are cumulative and unversioned: a later
/// backup of the same path overwrites the earlier one.
pub fn backup_file(backup_root: &CPath, rel: &CPath, target: &CPath, target_kind: EntryKind) -> (plan:
    Vec<Action>)
    requires
        target_kind is DirEntry ==> rel@.len() >= 1,
    ensures
        target_kind is FileEntry || target_kind is LinkEntry ==> plan@.len() == 1 && is_copy_file(
            plan@[0],
            target@,
            backup_root@ + rel@,
        ),
        target_kind is DirEntry ==> plan@.len() == 1 && is_copy_tree(
            plan@[0],
            target@,
            backup_root@ + rel@.take(rel@.len() - 1),
        ),
        target_kind is Missing ==> plan@ == Seq::<Action>::empty(),
{
    let mut plan: Vec<Action> = Vec::new();
    match target_kind {
        EntryKind::FileEntry | EntryKind::LinkEntry => {
            plan.push(
                Action::CopyFile { from: target.duplicate(), to: join(backup_root, rel) },
            );
        },
        EntryKind::DirEntry => {
            plan.push(
                Action::CopyTree {
                    from: target.duplicate(),
                    to: join(backup_root, &parent_of(rel)),
                },
            );
        },
        EntryKind::Missing => {},
    }
    plan
}

/// Resolve and validate an add: refuse a missing candidate, refuse one
/// that is itself a symbolic link, refuse one not strictly inside the
/// home directory. An accepted candidate's adopted copy will live inside
/// `link_root`: a file at the candidate's home-relative path, a
/// directory under its own leaf name (the tree copy keeps the leaf, not
/// the ancestry). That destination is returned so the caller can probe
/// it before planning the rest.
pub fn link_add_target(
    home_dir: &CPath,
    link_root: &CPath,
    file_to_add: &CPath,
    file_kind: EntryKind,
) -> (r: Result<CPath, AddError>)
    ensures
        file_kind is Missing ==> (r matches Err(e) && e == AddError::NotFound),
        file_kind is LinkEntry ==> (r matches Err(e) && e == AddError::IsSymlink),
        (file_kind is FileEntry || file_kind is DirEntry) && !(is_prefix(home_dir@, file_to_add@)
            && file_to_add@ != home_dir@) ==> (r matches Err(e) && e == AddError::OutsideHome),
        file_kind is FileEntry && is_prefix(home_dir@, file_to_add@) && file_to_add@ != home_dir@
            ==> (r matches Ok(dest) && dest@ == link_root@ + file_to_add@.skip(
            home_dir@.len() as int,
        )),
        file_kind is DirEntry && is_prefix(home_dir@, file_to_add@) && file_to_add@ != home_dir@
            ==> (r matches Ok(dest) && dest@ == link_root@ + file_to_add@.skip(
            file_to_add@.len() - 1,
        )),
{
    match file_kind {
        EntryKind::Missing => {
            return Err(AddError::NotFound);
        },
        EntryKind::LinkEntry => {
            return Err(AddError::IsSymlink);
        },
        _ => {},
    }
    if ensure_file_under_homedir(home_dir, file_to_add).is_err() {
        return Err(AddError::OutsideHome);
    }
    proof {
        if file_to_add@.len() == home_dir@.len() {
            assert(file_to_add@ =~= home_dir@);
        }
    }
    match file_kind {
        EntryKind::FileEntry => {
            let rel = path_relative(file_to_add, home_dir);
            Ok(join(link_root, &rel))
        },
        _ => Ok(join(link_root, &leaf_of(file_to_add))),
    }
}

/// The exact plan an accepted add produces, stated over the candidate's
/// home-relative path: first the backup of whatever stands at the store
/// destination, then the relocation of the candidate into the store, then
/// the symlink at the vacated path. The store destination — where the
/// adopted copy really comes to stand, and what the symlink points at —
/// is the home-relative path below the link root for a file, and the
/// candidate's own leaf name below the link root for a directory, since
/// the tree copy keeps the leaf, not the ancestry. `backup_len` many
/// actions come from the backup.
pub open spec fn add_plan_shape(
    plan: Seq<Action>,
    home: Seq<Seq<u8>>,
    link_root: Seq<Seq<u8>>,
    backup_root: Seq<Seq<u8>>,
    p: Seq<Seq<u8>>,
    file_kind: EntryKind,
    stored_kind: EntryKind,
) -> bool {
    let rel = p.skip(home.len() as int);
    let dest = if file_kind is DirEntry {
        link_root + p.skip(p.len() - 1)
    } else {
        link_root + rel
    };
    let backup_len: int = if stored_kind is Missing {
        0
    } else {
        1
    };
    &&& plan.len() == backup_len + 3
    &&& (stored_kind is FileEntry || stored_kind is LinkEntry ==> is_copy_file(
        plan[0],
        dest,
        backup_root + rel,
    ))
    &&& (stored_kind is DirEntry ==> is_copy_tree(
        plan[0],
        dest,
        backup_root + rel.take(rel.len() - 1),
    ))
    &&& (file_kind is FileEntry ==> is_copy_file(plan[backup_len], p, dest) && is_remove_file(
        plan[backup_len + 1],
        p,
    ))
    &&& (file_kind is DirEntry ==> is_copy_tree(plan[backup_len], p, link_root) && is_remove_tree(
        plan[backup_len + 1],
        p,
    ))
    &&& is_symlink_at(plan[backup_len + 2], p, dest)
}

/// The full plan for adopting `file_to_add`: back up whatever already
/// stands at its store destination, copy the file (or the directory's
/// whole tree) into the store, delete the original, and leave a symbolic
/// link at the vacated path pointing at the stored copy — at its
/// home-relative path below the link root for a file, at its leaf name
/// below the link root for a directory. `file_kind` probes the candidate
/// itself; `stored_kind` probes the store destination returned by
/// [`link_add_target`]. An error aborts the add before anything is
/// planned. No rollback is planned for a partially executed add: a
/// failure between relocation and linking leaves the content moved but
/// not yet linked.
pub fn link_add(
    home_dir: &CPath,
    link_root: &CPath,
    backup_root: &CPath,
    file_to_add: &CPath,
    file_kind: EntryKind,
    stored_kind: EntryKind,
) -> (r: Result<Vec<Action>, AddError>)
    ensures
        file_kind is Missing ==> (r matches Err(e) && e == AddError::NotFound),
        file_kind is LinkEntry ==> (r matches Err(e) && e == AddError::IsSymlink),
        (file_kind is FileEntry || file_kind is DirEntry) && !(is_prefix(home_dir@, file_to_add@)
            && file_to_add@ != home_dir@) ==> (r matches Err(e) && e == AddError::OutsideHome),
        (file_kind is FileEntry || file_kind is DirEntry) && is_prefix(home_dir@, file_to_add@)
            && file_to_add@ != home_dir@ ==> (r matches Ok(plan) && add_plan_shape(
            plan@,
            home_dir@,
            link_root@,
            backup_root@,
            file_to_add@,
            file_kind,
            stored_kind,
        )),
{
    match file_kind {
        EntryKind::Missing => {
            return Err(AddError::NotFound);
        },
        EntryKind::LinkEntry => {
            return Err(AddError::IsSymlink);
        },
        _ => {},
    }
    if ensure_file_under_homedir(home_dir, file_to_add).is_err() {
        return Err(AddError::OutsideHome);
    }
    proof {
        if file_to_add@.len() == home_dir@.len() {
            assert(file_to_add@ =~= home_dir@);
        }
    }
    let rel = path_relative(file_to_add, home_dir);
    let dest = match file_kind {
        EntryKind::FileEntry => join(link_root, &rel),
        _ => join(link_root, &leaf_of(file_to_add)),
    };
    let mut plan = backup_file(backup_root, &rel, &dest, stored_kind);
    match file_kind {
        EntryKind::FileEntry => {
            plan.push(Action::CopyFile { from: file_to_add.duplicate(), to: dest.duplicate() });
            plan.push(Action::RemoveFile { path: file_to_add.duplicate() });
        },
        _ => {
            plan.push(Action::CopyTree { from: file_to_add.duplicate(), to: link_root.duplicate() });
            plan.push(Action::RemoveTree { path: file_to_add.duplicate() });
        },
    }
    plan.push(Action::SymlinkAt { at: file_to_add.duplicate(), target: dest });
    Ok(plan)
}

/// The exact plan a sync produces for one store entry whose counterpart
/// at its home-relative path probed as `dest_kind`.
pub open spec fn sync_plan_shape(
    plan: Seq<Action>,
    home: Seq<Seq<u8>>,
    link_root: Seq<Seq<u8>>,
    entry: Seq<Seq<u8>>,
    entry_is_dir: bool,
    dest_kind: EntryKind,
) -> bool {
    let dest = home + entry.skip(link_root.len() as int);
    &&& (!(dest_kind is Missing) ==> plan == Seq::<Action>::empty())
    &&& (dest_kind is Missing && !entry_is_dir ==> plan.len() == 1 && is_copy_file(
        plan[0],
        entry,
        dest,
    ))
    &&& (dest_kind is Missing && entry_is_dir ==> plan.len() == 1 && is_copy_tree(
        plan[0],
        entry,
        home,
    ))
}

/// The plan for one entry found by the shallow walk of the store's link
/// tree. The destination is the entry's counterpart at its home-relative
/// path. A destination that is already a symbolic link is left alone
/// (assumed already synced); one that exists as anything else is live
/// unmanaged content and is never clobbered. Only a missing destination
/// is materialized: a plain copy of the stored file, or of the stored
/// directory's whole tree, into the home directory — sync never deletes
/// anything and never creates links, and a missing destination leaves
/// nothing to back up.
pub fn link_sync_entry(
    home_dir: &CPath,
    link_root: &CPath,
    entry: &CPath,
    entry_is_dir: bool,
    dest_kind: EntryKind,
) -> (plan: Vec<Action>)
    requires
        is_prefix(link_root@, entry@),
        entry@.len() == link_root@.len() + 1,
    ensures
        sync_plan_shape(plan@, home_dir@, link_root@, entry@, entry_is_dir, dest_kind),
{
    let mut plan: Vec<Action> = Vec::new();
    if is_symlink(dest_kind) {
        return plan;
    }
    match dest_kind {
        EntryKind::Missing => {},
        _ => {
            return plan;
        },
    }
    if entry_is_dir {
        plan.push(Action::CopyTree { from: entry.duplicate(), to: home_dir.duplicate() });
    } else {
        let rel = path_relative(entry, link_root);
        let dest = join(home_dir, &rel);
        plan.push(Action::CopyFile { from: entry.duplicate(), to: dest });
    }
    plan
}

/// A short label for a planned action, one per mutation kind.
pub open spec fn action_label(a: Action) -> Seq<char> {
    match a {
        Action::MakeDir { .. } => "create directory"@,
        Action::CopyFile { .. } => "copy file"@,
        Action::CopyTree { .. } => "copy directory tree"@,
        Action::RemoveFile { .. } => "remove file"@,
        Action::RemoveTree { .. } => "remove directory tree"@,
        Action::SymlinkAt { .. } => "create symlink"@,
    }
}

/// The label of one planned action, for logging.
pub fn describe_action(a: &Action) -> (s: String)
    ensures
        s@ == action_label(*a),
{
    match a {
        Action::MakeDir { .. } => "create directory".to_owned(),
        Action::CopyFile { .. } => "copy file".to_owned(),
        Action::CopyTree { .. } => "copy directory tree".to_owned(),
        Action::RemoveFile { .. } => "remove file".to_owned(),
        Action::RemoveTree { .. } => "remove directory tree".to_owned(),
        Action::SymlinkAt { .. } => "create symlink".to_owned(),
    }
}

/// One log line per planned mutation, in plan order.
pub fn describe_plan(plan: &Vec<Action>) -> (logs: Vec<String>)
    ensures
        logs@.len() == plan@.len(),
        forall|i: int| 0 <= i < plan@.len() ==> logs@[i]@ == action_label(plan@[i]),
{
    let mut logs: Vec<String> = Vec::new();
    let mut i: usize = 0;
    while i < plan.len()
        invariant
            i <= plan.len(),
            logs@.len() == i,
            forall|j: int| 0 <= j < i ==> logs@[j]@ == action_label(plan@[j]),
        decreases plan.len() - i,
    {
        let s = describe_action(&plan[i]);
        logs.push(s);
        i = i + 1;
    }
    logs
}

/// The actions actually to be carried out: on a dry run none — every
/// planned mutation is only described — otherwise the plan as it stands.
pub fn plan_effects(plan: Vec<Action>, dry_run: bool) -> (r: Vec<Action>)
    ensures
        dry_run ==> r@ == Seq::<Action>::empty(),
        !dry_run ==> r@ == plan@,
{
    if dry_run {
        Vec::new()
    } else {
        plan
    }
}

} // verus!

//! A specification-level model of the filesystem, and planned actions.
//!
//! The model maps each absolute path (a component sequence) to the node
//! stored there: a regular file with its byte content, a directory, or a
//! symbolic link with its target. A directory may also exist only
//! implicitly, because some entry lies beneath it — as on a real
//! filesystem, where copying a file quietly creates its missing
//! ancestors. The planners hand back lists of [`Action`]s; `apply_plan`
//! says what carrying such a plan out does to the model, and the theorems
//! in [`crate::laws`] are stated against that meaning.

use vstd::prelude::*;

use crate::paths::{is_prefix, is_strict_prefix, CPath};

verus! {

/// What a path holds in the model.
pub enum Node {
    /// A regular file and its full byte content.
    File { content: Seq<u8> },
    /// A directory entry of its own (beyond implicit existence).
    Dir,
    /// A symbolic link and the path it points to.
    Link { target: Seq<Seq<u8>> },
}

/// The filesystem model: explicit entries, keyed by absolute path.
pub type FsModel = Map<Seq<Seq<u8>>, Node>;

/// A path exists if it has an entry of its own, or anything at all lies
/// beneath it — its directory then exists implicitly.
pub open spec fn exists_in(fs: FsModel, p: Seq<Seq<u8>>) -> bool {
    fs.dom().contains(p) || exists|k: Seq<Seq<u8>>|
        #[trigger] fs.dom().contains(k) && is_strict_prefix(p, k)
}

/// What probing a path reports: the entry's own (non-dereferenced) kind,
/// or that nothing is there. Probing a missing path is not an error; the
/// sync pass probes destinations that may legitimately not exist yet.
#[derive(Clone, Copy, PartialEq, Eq, Structural, Debug)]
pub enum EntryKind {
    /// Nothing exists at the path.
    Missing,
    /// A regular file.
    FileEntry,
    /// A directory.
    DirEntry,
    /// A symbolic link, whatever it points to.
    LinkEntry,
}

/// The probe result `k` faithfully describes path `p` in the model `fs`.
pub open spec fn probe_matches(fs: FsModel, p: Seq<Seq<u8>>, k: EntryKind) -> bool {
    match k {
        EntryKind::Missing => !exists_in(fs, p),
        EntryKind::FileEntry => fs.dom().contains(p) && fs[p] is File,
        EntryKind::DirEntry => exists_in(fs, p) && (fs.dom().contains(p) ==> fs[p] is Dir),
        EntryKind::LinkEntry => fs.dom().contains(p) && fs[p] is Link,
    }
}

/// Classifies a probed entry as a symbolic link, without following it.
/// A missing entry is not a link.
pub fn is_symlink(kind: EntryKind) -> (r: bool)
    ensures
        r == (kind is LinkEntry),
{
    match kind {
        EntryKind::LinkEntry => true,
        _ => false,
    }
}

/// One planned filesystem mutation. A plan is a `Vec<Action>`, carried
/// out in order by the unverified shell — or only printed, on a dry run.
#[derive(Debug)]
pub enum Action {
    /// Create a directory, with any missing ancestors.
    MakeDir { path: CPath },
    /// Copy one file's full byte content, creating missing ancestor
    /// directories of the destination and overwriting it if present.
    CopyFile { from: CPath, to: CPath },
    /// Copy every file of the tree rooted at `from` into `to`, keeping
    /// `from`'s own leaf name: a file at `from/x` lands at `to/<leaf>/x`.
    CopyTree { from: CPath, to: CPath },
    /// Delete a single file.
    RemoveFile { path: CPath },
    /// Delete a directory and everything beneath it.
    RemoveTree { path: CPath },
    /// Create a symbolic link at `at` pointing to `target`.
    SymlinkAt { at: CPath, target: CPath },
}

/// `a` creates the directory `path`.
pub open spec fn is_make_dir(a: Action, path: Seq<Seq<u8>>) -> bool {
    a matches Action::MakeDir { path: p } && p@ == path
}

/// `a` copies the file `from` to `to`.
pub open spec fn is_copy_file(a: Action, from: Seq<Seq<u8>>, to: Seq<Seq<u8>>) -> bool {
    a matches Action::CopyFile { from: f, to: t } && f@ == from && t@ == to
}

/// `a` copies the tree rooted at `from` into `to`.
pub open spec fn is_copy_tree(a: Action, from: Seq<Seq<u8>>, to: Seq<Seq<u8>>) -> bool {
    a matches Action::CopyTree { from: f, to: t } && f@ == from && t@ == to
}

/// `a` deletes the file `path`.
pub open spec fn is_remove_file(a: Action, path: Seq<Seq<u8>>) -> bool {
    a matches Action::RemoveFile { path: p } && p@ == path
}

/// `a` deletes the tree at `path`.
pub open spec fn is_remove_tree(a: Action, path: Seq<Seq<u8>>) -> bool {
    a matches Action::RemoveTree { path: p } && p@ == path
}

/// `a` links `at` to `target`.
pub open spec fn is_symlink_at(a: Action, at: Seq<Seq<u8>>, target: Seq<Seq<u8>>) -> bool {
    a matches Action::SymlinkAt { at: l, target: t } && l@ == at && t@ == target
}

/// Files strictly beneath `root`.
pub open spec fn file_under(fs: FsModel, root: Seq<Seq<u8>>, q: Seq<Seq<u8>>) -> bool {
    fs.dom().contains(q) && fs[q] is File && is_strict_prefix(root, q)
}

/// The source inside `from`'s tree that the tree-copy destination `k`
/// under `to` is copied from: strip `to`, re-root below `from`'s parent.
pub open spec fn tree_src(from: Seq<Seq<u8>>, to: Seq<Seq<u8>>, k: Seq<Seq<u8>>) -> Seq<
    Seq<u8>,
> {
    from.take(from.len() - 1) + k.skip(to.len() as int)
}

/// Where a file `q` of `from`'s tree lands when the tree is copied into
/// `to`: `q` relative to `from`'s parent, below `to`.
pub open spec fn tree_dest(from: Seq<Seq<u8>>, to: Seq<Seq<u8>>, q: Seq<Seq<u8>>) -> Seq<
    Seq<u8>,
> {
    to + q.skip(from.len() - 1)
}

/// Whether some file of `from`'s tree lands at `k` when the tree is
/// copied into `to`.
pub open spec fn is_tree_dest(
    fs: FsModel,
    from: Seq<Seq<u8>>,
    to: Seq<Seq<u8>>,
    k: Seq<Seq<u8>>,
) -> bool {
    is_prefix(to, k) && k.len() > to.len() && file_under(fs, from, tree_src(from, to, k))
}

/// Copying one file: the destination now holds the source's node;
/// everything else is untouched. Missing ancestor directories of the
/// destination come to exist implicitly.
pub open spec fn apply_copy_file(fs: FsModel, from: Seq<Seq<u8>>, to: Seq<Seq<u8>>) -> FsModel {
    fs.insert(to, fs[from])
}

/// Copying a tree: every file beneath `from` now also stands at its
/// re-rooted destination under `to`; everything else is untouched.
pub open spec fn apply_copy_tree(fs: FsModel, from: Seq<Seq<u8>>, to: Seq<Seq<u8>>) -> FsModel {
    Map::new(
        |k: Seq<Seq<u8>>| fs.dom().contains(k) || is_tree_dest(fs, from, to, k),
        |k: Seq<Seq<u8>>|
            if is_tree_dest(fs, from, to, k) {
                fs[tree_src(from, to, k)]
            } else {
                fs[k]
            },
    )
}

/// Removing one file.
pub open spec fn apply_remove_file(fs: FsModel, p: Seq<Seq<u8>>) -> FsModel {
    fs.remove(p)
}

/// Removing a tree: the path itself and everything beneath it.
pub open spec fn apply_remove_tree(fs: FsModel, p: Seq<Seq<u8>>) -> FsModel {
    Map::new(|k: Seq<Seq<u8>>| fs.dom().contains(k) && !is_prefix(p, k), |k: Seq<Seq<u8>>| fs[k])
}

/// Creating a directory; creating one that already exists changes nothing.
pub open spec fn apply_make_dir(fs: FsModel, p: Seq<Seq<u8>>) -> FsModel {
    if fs.dom().contains(p) {
        fs
    } else {
        fs.insert(p, Node::Dir)
    }
}

/// Creating a symbolic link.
pub open spec fn apply_symlink(fs: FsModel, at: Seq<Seq<u8>>, target: Seq<Seq<u8>>) -> FsModel {
    fs.insert(at, Node::Link { target })
}

/// What one planned action does to the model.
pub open spec fn apply_action(fs: FsModel, a: Action) -> FsModel {
    match a {
        Action::MakeDir { path } => apply_make_dir(fs, path@),
        Action::CopyFile { from, to } => apply_copy_file(fs, from@, to@),
        Action::CopyTree { from, to } => apply_copy_tree(fs, from@, to@),
        Action::RemoveFile { path } => apply_remove_file(fs, path@),
        Action::RemoveTree { path } => apply_remove_tree(fs, path@),
        Action::SymlinkAt { at, target } => apply_symlink(fs, at@, target@),
    }
}

/// What carrying a whole plan out, in order, does to the model.
pub open spec fn apply_plan(fs: FsModel, plan: Seq<Action>) -> FsModel
    decreases plan.len(),
{
    if plan.len() == 0 {
        fs
    } else {
        apply_plan(apply_action(fs, plan[0]), plan.skip(1))
    }
}

} // verus!

//! The library's laws: what carrying a plan out does to the filesystem
//! model, proved once for every input the planners accept.

use vstd::prelude::*;

use crate::fsmodel::{
    apply_action, apply_copy_tree, apply_plan, exists_in, file_under, is_copy_file, is_copy_tree,
    is_remove_file, is_remove_tree, is_symlink_at, is_tree_dest, probe_matches, tree_dest,
    tree_src, Action, EntryKind, FsModel, Node,
};
use crate::paths::{
    diverges, is_prefix, is_strict_prefix, lemma_diverging_trees_disjoint,
    lemma_prefix_transitive, lemma_prefixes_comparable,
};
use vstd::string::StringSliceAdditionalSpecFns;
use vstd::utf8::{is_ascii_chars, is_ascii_chars_encode_utf8};

use crate::plan::{add_plan_shape, sync_plan_shape};

verus! {

/// Carrying out an empty plan — all a dry run ever applies — leaves the
/// filesystem exactly as it was.
pub proof fn lemma_dry_run_no_changes(fs: FsModel)
    ensures
        apply_plan(fs, Seq::<Action>::empty()) == fs,
{
}

/// One planned action at a time: a plan acts as its first action followed
/// by the rest.
proof fn lemma_apply_plan_step(fs: FsModel, plan: Seq<Action>)
    requires
        plan.len() > 0,
    ensures
        apply_plan(fs, plan) == apply_plan(apply_action(fs, plan[0]), plan.skip(1)),
{
}

/// A one-action plan is that action.
proof fn lemma_apply_single(fs: FsModel, plan: Seq<Action>)
    requires
        plan.len() == 1,
    ensures
        apply_plan(fs, plan) == apply_action(fs, plan[0]),
{
    lemma_apply_plan_step(fs, plan);
    assert(plan.skip(1).len() == 0);
}

/// Tree copy, per file: each file `q` of `from`'s tree is copied to its
/// re-rooted destination below `to`, content unchanged.
pub proof fn lemma_copy_tree_file(
    fs: FsModel,
    from: Seq<Seq<u8>>,
    to: Seq<Seq<u8>>,
    q: Seq<Seq<u8>>,
)
    requires
        from.len() >= 1,
        file_under(fs, from, q),
    ensures
        apply_copy_tree(fs, from, to).dom().contains(tree_dest(from, to, q)),
        apply_copy_tree(fs, from, to)[tree_dest(from, to, q)] == fs[q],
{
    let n = from.len() - 1;
    let k = tree_dest(from, to, q);
    assert(k.skip(to.len() as int) =~= q.skip(n));
    assert(tree_src(from, to, k) =~= q);
    assert(is_prefix(to, k));
    assert(is_tree_dest(fs, from, to, k));
}

/// Tree copy, the other keys: a path that is no destination of the copy
/// keeps its entry, and exists afterwards only if it existed before.
pub proof fn lemma_copy_tree_untouched(
    fs: FsModel,
    from: Seq<Seq<u8>>,
    to: Seq<Seq<u8>>,
    k: Seq<Seq<u8>>,
)
    requires
        !is_tree_dest(fs, from, to, k),
    ensures
        apply_copy_tree(fs, from, to).dom().contains(k) <==> fs.dom().contains(k),
        fs.dom().contains(k) ==> apply_copy_tree(fs, from, to)[k] == fs[k],
{
}

/// Tree copy keeps the leaf, not the ancestry: every copied file lands
/// below `to/<leaf>`, where `<leaf>` is the copied tree's own last
/// component — never below `to/<its full original ancestry>`.
pub proof fn lemma_copy_tree_keeps_leaf(
    fs: FsModel,
    from: Seq<Seq<u8>>,
    to: Seq<Seq<u8>>,
    q: Seq<Seq<u8>>,
)
    requires
        from.len() >= 1,
        file_under(fs, from, q),
    ensures
        tree_dest(from, to, q).len() > to.len(),
        tree_dest(from, to, q)[to.len() as int] == from[from.len() - 1],
{
    let n = from.len() - 1;
    assert(q.skip(n)[0] == q[n]);
    assert(q[n] == from[n]);
}

/// Relocate-and-link, the tail of an accepted file add: copy the file
/// into the store, delete the original, link the vacated path to the
/// stored copy. Every other path keeps its entry.
proof fn lemma_relocate_and_link(
    fs: FsModel,
    p: Seq<Seq<u8>>,
    dest: Seq<Seq<u8>>,
    tail: Seq<Action>,
    content: Seq<u8>,
)
    requires
        tail.len() == 3,
        is_copy_file(tail[0], p, dest),
        is_remove_file(tail[1], p),
        is_symlink_at(tail[2], p, dest),
        fs.dom().contains(p),
        fs[p] == (Node::File { content }),
        dest != p,
    ensures
        apply_plan(fs, tail).dom().contains(dest),
        apply_plan(fs, tail)[dest] == (Node::File { content }),
        apply_plan(fs, tail).dom().contains(p),
        apply_plan(fs, tail)[p] == (Node::Link { target: dest }),
        forall|k: Seq<Seq<u8>>| #![auto]
            k != p && k != dest && fs.dom().contains(k) ==> apply_plan(fs, tail).dom().contains(k)
                && apply_plan(fs, tail)[k] == fs[k],
{
    let fs2 = apply_action(fs, tail[0]);
    let fs3 = apply_action(fs2, tail[1]);
    let fs4 = apply_action(fs3, tail[2]);
    lemma_apply_plan_step(fs, tail);
    lemma_apply_plan_step(fs2, tail.skip(1));
    assert(tail.skip(1)[0] == tail[1]);
    assert(tail.skip(1).skip(1) =~= tail.skip(2));
    lemma_apply_single(fs3, tail.skip(2));
    assert(tail.skip(2)[0] == tail[2]);
    assert(apply_plan(fs, tail) == fs4);
    assert(fs2 == fs.insert(dest, fs[p]));
    assert(fs4[dest] == (Node::File { content }));
    assert(fs4[p] == (Node::Link { target: dest }));
}

/// Relocate-and-link for a directory: copy the whole tree into the link
/// root, delete the original tree, link the vacated path to the copied
/// tree's root — the candidate's leaf name below the link root. Each
/// file of the tree then stands, content unchanged, strictly below the
/// link's target.
proof fn lemma_relocate_tree_and_link(
    fs: FsModel,
    p: Seq<Seq<u8>>,
    link_root: Seq<Seq<u8>>,
    target: Seq<Seq<u8>>,
    tail: Seq<Action>,
    q: Seq<Seq<u8>>,
    content: Seq<u8>,
)
    requires
        tail.len() == 3,
        is_copy_tree(tail[0], p, link_root),
        is_remove_tree(tail[1], p),
        is_symlink_at(tail[2], p, target),
        p.len() >= 1,
        file_under(fs, p, q),
        fs[q] == (Node::File { content }),
        target == link_root + p.skip(p.len() - 1),
        !is_prefix(link_root, p),
        !is_prefix(p, link_root),
    ensures
        ({
            let k = tree_dest(p, link_root, q);
            let fs_after = apply_plan(fs, tail);
            &&& fs_after.dom().contains(k)
            &&& fs_after[k] == (Node::File { content })
            &&& fs_after.dom().contains(p)
            &&& fs_after[p] == (Node::Link { target })
            &&& is_strict_prefix(target, k)
        }),
{
    let k = tree_dest(p, link_root, q);
    let fs2 = apply_action(fs, tail[0]);
    let fs3 = apply_action(fs2, tail[1]);
    let fs4 = apply_action(fs3, tail[2]);
    lemma_apply_plan_step(fs, tail);
    lemma_apply_plan_step(fs2, tail.skip(1));
    assert(tail.skip(1)[0] == tail[1]);
    assert(tail.skip(1).skip(1) =~= tail.skip(2));
    lemma_apply_single(fs3, tail.skip(2));
    assert(tail.skip(2)[0] == tail[2]);
    assert(apply_plan(fs, tail) == fs4);
    lemma_copy_tree_file(fs, p, link_root, q);
    assert(fs2.dom().contains(k) && fs2[k] == (Node::File { content }));
    assert(is_prefix(link_root, k));
    if is_prefix(p, k) {
        lemma_prefixes_comparable(p, link_root, k);
    }
    assert(!is_prefix(p, k));
    assert(k != p);
    assert(fs3.dom().contains(k) && fs3[k] == (Node::File { content }));
    assert(fs4[p] == (Node::Link { target }));
    assert(is_strict_prefix(target, k)) by {
        assert(q.skip(p.len() - 1)[0] == q[p.len() - 1]);
        assert(q[p.len() - 1] == p[p.len() - 1]);
        assert(p.skip(p.len() - 1).len() == 1);
        assert(forall|i: int| 0 <= i < target.len() ==> target[i] == k[i]);
    }
}

/// Round trip of an accepted add of a regular file: afterwards the store
/// holds the file's exact content at its home-relative path below the
/// link root, and the original path is a symbolic link pointing there.
/// The candidate must stand outside the store's own subtrees, which must
/// diverge from one another — as `link/` and `backup/` do.
pub proof fn lemma_add_round_trip(
    fs: FsModel,
    home: Seq<Seq<u8>>,
    link_root: Seq<Seq<u8>>,
    backup_root: Seq<Seq<u8>>,
    p: Seq<Seq<u8>>,
    stored_kind: EntryKind,
    plan: Seq<Action>,
    content: Seq<u8>,
)
    requires
        add_plan_shape(plan, home, link_root, backup_root, p, EntryKind::FileEntry, stored_kind),
        fs.dom().contains(p),
        fs[p] == (Node::File { content }),
        !is_prefix(link_root, p),
        !is_prefix(backup_root, p),
        diverges(link_root, backup_root),
    ensures
        ({
            let dest = link_root + p.skip(home.len() as int);
            let fs_after = apply_plan(fs, plan);
            &&& fs_after.dom().contains(dest)
            &&& fs_after[dest] == (Node::File { content })
            &&& fs_after.dom().contains(p)
            &&& fs_after[p] == (Node::Link { target: dest })
        }),
{
    let rel = p.skip(home.len() as int);
    let dest = link_root + rel;
    let bdest = backup_root + rel;
    assert(is_prefix(link_root, dest));
    assert(is_prefix(backup_root, bdest));
    assert(dest != p);
    if !(stored_kind is Missing) {
        let fs1 = apply_action(fs, plan[0]);
        lemma_apply_plan_step(fs, plan);
        if stored_kind is DirEntry {
            let bparent = backup_root + rel.take(rel.len() - 1);
            assert(is_prefix(backup_root, bparent));
            if is_prefix(bparent, p) {
                lemma_prefix_transitive(backup_root, bparent, p);
            }
            assert(!is_tree_dest(fs, dest, bparent, p));
            lemma_copy_tree_untouched(fs, dest, bparent, p);
        } else {
            assert(bdest != p);
            assert(fs1 == fs.insert(bdest, fs[dest]));
        }
        assert(fs1.dom().contains(p) && fs1[p] == (Node::File { content }));
        let tail = plan.skip(1);
        assert(tail[0] == plan[1] && tail[1] == plan[2] && tail[2] == plan[3]);
        lemma_relocate_and_link(fs1, p, dest, tail, content);
    } else {
        assert(plan.len() == 3);
        lemma_relocate_and_link(fs, p, dest, plan, content);
    }
}

/// Round trip of an accepted add of a directory: afterwards every file
/// of the directory's tree stands, content unchanged, below the link
/// root under the directory's own leaf name, and the vacated path is a
/// symbolic link whose target is the copied tree's root — so the link
/// resolves to the stored copy. The candidate and the store's subtrees
/// must stand apart: neither contains the other.
pub proof fn lemma_add_dir_round_trip(
    fs: FsModel,
    home: Seq<Seq<u8>>,
    link_root: Seq<Seq<u8>>,
    backup_root: Seq<Seq<u8>>,
    p: Seq<Seq<u8>>,
    stored_kind: EntryKind,
    plan: Seq<Action>,
    q: Seq<Seq<u8>>,
    content: Seq<u8>,
)
    requires
        add_plan_shape(plan, home, link_root, backup_root, p, EntryKind::DirEntry, stored_kind),
        is_prefix(home, p),
        p != home,
        file_under(fs, p, q),
        fs[q] == (Node::File { content }),
        !is_prefix(link_root, p),
        !is_prefix(p, link_root),
        !is_prefix(backup_root, p),
        !is_prefix(p, backup_root),
    ensures
        ({
            let target = link_root + p.skip(p.len() - 1);
            let k = tree_dest(p, link_root, q);
            let fs_after = apply_plan(fs, plan);
            &&& fs_after.dom().contains(k)
            &&& fs_after[k] == (Node::File { content })
            &&& fs_after.dom().contains(p)
            &&& fs_after[p] == (Node::Link { target })
            &&& is_strict_prefix(target, k)
        }),
{
    if p.len() == home.len() {
        assert(p =~= home);
    }
    let rel = p.skip(home.len() as int);
    let target = link_root + p.skip(p.len() - 1);
    let bdest = backup_root + rel;
    assert(is_strict_prefix(p, q));
    if !(stored_kind is Missing) {
        let fs1 = apply_action(fs, plan[0]);
        lemma_apply_plan_step(fs, plan);
        if stored_kind is DirEntry {
            let bparent = backup_root + rel.take(rel.len() - 1);
            assert(is_prefix(backup_root, bparent));
            if is_prefix(bparent, q) {
                lemma_prefix_transitive(backup_root, bparent, q);
                lemma_prefixes_comparable(backup_root, p, q);
            }
            assert(!is_tree_dest(fs, target, bparent, q));
            lemma_copy_tree_untouched(fs, target, bparent, q);
        } else {
            assert(is_prefix(backup_root, bdest));
            if bdest == q {
                lemma_prefixes_comparable(backup_root, p, q);
            }
            assert(bdest != q);
            assert(fs1 == fs.insert(bdest, fs[target]));
        }
        assert(file_under(fs1, p, q) && fs1[q] == (Node::File { content }));
        let tail = plan.skip(1);
        assert(tail[0] == plan[1] && tail[1] == plan[2] && tail[2] == plan[3]);
        lemma_relocate_tree_and_link(fs1, p, link_root, target, tail, q, content);
    } else {
        assert(plan.len() == 3);
        lemma_relocate_tree_and_link(fs, p, link_root, target, plan, q, content);
    }
}

/// Backup before overwrite: when an accepted add targets a home-relative
/// path whose store destination already holds a file, the plan first
/// copies that file to the same relative path under the backup root,
/// where it still stands, unchanged, after the whole plan has run.
pub proof fn lemma_backup_before_overwrite(
    fs: FsModel,
    home: Seq<Seq<u8>>,
    link_root: Seq<Seq<u8>>,
    backup_root: Seq<Seq<u8>>,
    p: Seq<Seq<u8>>,
    plan: Seq<Action>,
    content: Seq<u8>,
    old_content: Seq<u8>,
)
    requires
        add_plan_shape(
            plan,
            home,
            link_root,
            backup_root,
            p,
            EntryKind::FileEntry,
            EntryKind::FileEntry,
        ),
        fs.dom().contains(p),
        fs[p] == (Node::File { content }),
        fs.dom().contains(link_root + p.skip(home.len() as int)),
        fs[link_root + p.skip(home.len() as int)] == (Node::File { content: old_content }),
        !is_prefix(link_root, p),
        !is_prefix(backup_root, p),
        diverges(link_root, backup_root),
    ensures
        ({
            let bdest = backup_root + p.skip(home.len() as int);
            let fs_after = apply_plan(fs, plan);
            &&& fs_after.dom().contains(bdest)
            &&& fs_after[bdest] == (Node::File { content: old_content })
        }),
{
    let rel = p.skip(home.len() as int);
    let dest = link_root + rel;
    let bdest = backup_root + rel;
    assert(is_prefix(link_root, dest));
    assert(is_prefix(backup_root, bdest));
    lemma_diverging_trees_disjoint(link_root, backup_root, dest, bdest);
    assert(bdest != p);
    assert(dest != p);
    let fs1 = apply_action(fs, plan[0]);
    lemma_apply_plan_step(fs, plan);
    assert(fs1 == fs.insert(bdest, fs[dest]));
    assert(fs1.dom().contains(bdest) && fs1[bdest] == (Node::File { content: old_content }));
    assert(fs1.dom().contains(p) && fs1[p] == (Node::File { content }));
    let tail = plan.skip(1);
    assert(tail[0] == plan[1] && tail[1] == plan[2] && tail[2] == plan[3]);
    lemma_relocate_and_link(fs1, p, dest, tail, content);
}

/// A directory backup lands under its relative key: the tree is copied
/// beside the key's last component, and since the backed-up tree's own
/// leaf name is that component, every copied file comes to stand
/// strictly below `backup_root/<rel>` — as it does in an add, where the
/// backed-up store destination's leaf is the key's leaf.
pub proof fn lemma_dir_backup_under_key(
    fs: FsModel,
    backup_root: Seq<Seq<u8>>,
    rel: Seq<Seq<u8>>,
    target: Seq<Seq<u8>>,
    q: Seq<Seq<u8>>,
)
    requires
        rel.len() >= 1,
        target.len() >= 1,
        target[target.len() - 1] == rel[rel.len() - 1],
        file_under(fs, target, q),
    ensures
        ({
            let to = backup_root + rel.take(rel.len() - 1);
            let k = tree_dest(target, to, q);
            &&& apply_copy_tree(fs, target, to).dom().contains(k)
            &&& apply_copy_tree(fs, target, to)[k] == fs[q]
            &&& is_strict_prefix(backup_root + rel, k)
        }),
{
    let to = backup_root + rel.take(rel.len() - 1);
    let k = tree_dest(target, to, q);
    lemma_copy_tree_file(fs, target, to, q);
    assert(is_strict_prefix(backup_root + rel, k)) by {
        assert(q.skip(target.len() - 1)[0] == q[target.len() - 1]);
        assert(q[target.len() - 1] == target[target.len() - 1]);
        assert(forall|i: int|
            0 <= i < (backup_root + rel).len() ==> (backup_root + rel)[i] == k[i]);
    }
}

/// The store layout satisfies the laws' premise: the `link/` and
/// `backup/` subtrees that [`crate::plan::initial_check`] creates under
/// one store root diverge — they name different components just below
/// the root — so neither tree contains the other.
pub proof fn lemma_store_subtrees_diverge(store: Seq<Seq<u8>>)
    ensures
        diverges(store.push("link".spec_bytes()), store.push("backup".spec_bytes())),
{
    reveal_strlit("link");
    reveal_strlit("backup");
    assert("link"@.len() == 4);
    assert("backup"@.len() == 6);
    assert(is_ascii_chars("link"@));
    assert(is_ascii_chars("backup"@));
    is_ascii_chars_encode_utf8("link"@);
    is_ascii_chars_encode_utf8("backup"@);
    let a = store.push("link".spec_bytes());
    let b = store.push("backup".spec_bytes());
    assert(a[store.len() as int] != b[store.len() as int]);
}

/// Sync materializes: when a stored file's counterpart is missing, the
/// planned copy puts the stored content, byte for byte, at the entry's
/// home-relative path.
pub proof fn lemma_sync_materializes(
    fs: FsModel,
    home: Seq<Seq<u8>>,
    link_root: Seq<Seq<u8>>,
    entry: Seq<Seq<u8>>,
    plan: Seq<Action>,
    content: Seq<u8>,
)
    requires
        is_prefix(link_root, entry),
        entry.len() == link_root.len() + 1,
        sync_plan_shape(plan, home, link_root, entry, false, EntryKind::Missing),
        fs.dom().contains(entry),
        fs[entry] == (Node::File { content }),
    ensures
        ({
            let dest = home + entry.skip(link_root.len() as int);
            let fs_after = apply_plan(fs, plan);
            &&& fs_after.dom().contains(dest)
            &&& fs_after[dest] == (Node::File { content })
        }),
{
    lemma_apply_single(fs, plan);
}

/// Sync is idempotent, per store entry: when the same entry is planned
/// again with probes reflecting the first plan's outcome, carrying the
/// second plan out changes nothing.
pub proof fn lemma_sync_idempotent(
    fs: FsModel,
    home: Seq<Seq<u8>>,
    link_root: Seq<Seq<u8>>,
    entry: Seq<Seq<u8>>,
    entry_is_dir: bool,
    dest_kind: EntryKind,
    dest_kind2: EntryKind,
    plan1: Seq<Action>,
    plan2: Seq<Action>,
)
    requires
        is_prefix(link_root, entry),
        entry.len() == link_root.len() + 1,
        sync_plan_shape(plan1, home, link_root, entry, entry_is_dir, dest_kind),
        sync_plan_shape(plan2, home, link_root, entry, entry_is_dir, dest_kind2),
        probe_matches(fs, home + entry.skip(link_root.len() as int), dest_kind),
        probe_matches(
            apply_plan(fs, plan1),
            home + entry.skip(link_root.len() as int),
            dest_kind2,
        ),
    ensures
        apply_plan(apply_plan(fs, plan1), plan2) == apply_plan(fs, plan1),
{
    let dest = home + entry.skip(link_root.len() as int);
    let fs1 = apply_plan(fs, plan1);
    if !(dest_kind is Missing) {
        assert(plan1 == Seq::<Action>::empty());
        assert(fs1 == fs);
        assert(exists_in(fs, dest));
        assert(!(dest_kind2 is Missing));
        assert(plan2 == Seq::<Action>::empty());
    } else if !entry_is_dir {
        lemma_apply_single(fs, plan1);
        assert(fs1.dom().contains(dest));
        assert(exists_in(fs1, dest));
        assert(!(dest_kind2 is Missing));
        assert(plan2 == Seq::<Action>::empty());
    } else {
        lemma_apply_single(fs, plan1);
        assert(fs1 == apply_copy_tree(fs, entry, home));
        if exists|q: Seq<Seq<u8>>| file_under(fs, entry, q) {
            let q = choose|q: Seq<Seq<u8>>| file_under(fs, entry, q);
            lemma_copy_tree_file(fs, entry, home, q);
            let k = tree_dest(entry, home, q);
            assert(is_strict_prefix(dest, k)) by {
                assert(q.skip(entry.len() - 1)[0] == q[entry.len() - 1]);
                assert(q[entry.len() - 1] == entry[entry.len() - 1]);
                assert(entry.skip(link_root.len() as int)[0] == entry[link_root.len() as int]);
                assert(forall|i: int| 0 <= i < dest.len() ==> dest[i] == k[i]);
            }
            assert(exists_in(fs1, dest));
            assert(!(dest_kind2 is Missing));
            assert(plan2 == Seq::<Action>::empty());
        } else {
            assert(fs1 =~= fs);
            if dest_kind2 is Missing {
                lemma_apply_single(fs1, plan2);
                assert(apply_plan(fs1, plan2) =~= fs1);
            } else {
                assert(plan2 == Seq::<Action>::empty());
            }
        }
    }
}

} // verus!

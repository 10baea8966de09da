//! Paths as sequences of components.
//!
//! A path is held as its ordered list of components, each a byte string
//! (POSIX path components are arbitrary bytes, not text). Every path
//! handled here is assumed absolute and canonical — no `.` or `..`
//! components, no symlinked ancestors; resolving a user-supplied path to
//! this form is the shell's job. The component suffix left after
//! stripping a known ancestor prefix is the join key that re-roots a path
//! from one tree into another.

use vstd::prelude::*;

verus! {

/// An absolute, canonical path, stored as its ordered components.
#[derive(Debug)]
pub struct CPath {
    pub parts: Vec<Vec<u8>>,
}

impl View for CPath {
    type V = Seq<Seq<u8>>;

    open spec fn view(&self) -> Seq<Seq<u8>> {
        Seq::new(self.parts@.len(), |i: int| self.parts@[i]@)
    }
}

/// `p` names the same entry as `q` or an ancestor of it: `q` begins with
/// every component of `p`, in order.
pub open spec fn is_prefix(p: Seq<Seq<u8>>, q: Seq<Seq<u8>>) -> bool {
    p.len() <= q.len() && forall|i: int| 0 <= i < p.len() ==> p[i] == q[i]
}

/// `p` names a strict ancestor of `q`.
pub open spec fn is_strict_prefix(p: Seq<Seq<u8>>, q: Seq<Seq<u8>>) -> bool {
    is_prefix(p, q) && p.len() < q.len()
}

/// Byte-for-byte equality of two path components.
fn component_eq(a: &Vec<u8>, b: &Vec<u8>) -> (r: bool)
    ensures
        r == (a@ == b@),
{
    if a.len() != b.len() {
        return false;
    }
    let mut i: usize = 0;
    while i < a.len()
        invariant
            i <= a.len(),
            a.len() == b.len(),
            forall|j: int| 0 <= j < i ==> a@[j] == b@[j],
        decreases a.len() - i,
    {
        if a[i] != b[i] {
            return false;
        }
        i = i + 1;
    }
    proof {
        assert(a@ =~= b@);
    }
    true
}

impl CPath {
    /// Wraps a component list as a path.
    pub fn from_parts(parts: Vec<Vec<u8>>) -> (r: CPath)
        ensures
            r@ == parts.deep_view(),
    {
        let r = CPath { parts };
        proof {
            assert(r@ =~~= r.parts.deep_view());
        }
        r
    }

    /// The number of components.
    pub fn depth(&self) -> (n: usize)
        ensures
            n == self@.len(),
    {
        self.parts.len()
    }

    /// An exact copy.
    pub fn duplicate(&self) -> (r: CPath)
        ensures
            r@ == self@,
    {
        let mut parts: Vec<Vec<u8>> = Vec::new();
        let mut i: usize = 0;
        while i < self.parts.len()
            invariant
                i <= self.parts.len(),
                parts@.len() == i,
                forall|j: int| 0 <= j < i ==> parts@[j]@ == self@[j],
            decreases self.parts.len() - i,
        {
            let c = vstd::slice::slice_to_vec(self.parts[i].as_slice());
            parts.push(c);
            i = i + 1;
        }
        let r = CPath { parts };
        proof {
            assert(r@ =~= self@);
        }
        r
    }
}

/// The path without its last component.
pub fn parent_of(p: &CPath) -> (r: CPath)
    requires
        p@.len() >= 1,
    ensures
        r@ == p@.take(p@.len() - 1),
{
    let mut out = p.duplicate();
    let _ = out.parts.pop();
    proof {
        assert(out@ =~= p@.take(p@.len() - 1));
    }
    out
}

/// The path's last component alone, as a one-component relative path.
pub fn leaf_of(p: &CPath) -> (r: CPath)
    requires
        p@.len() >= 1,
    ensures
        r@ == p@.skip(p@.len() - 1),
{
    let mut parts: Vec<Vec<u8>> = Vec::new();
    let c = vstd::slice::slice_to_vec(p.parts[p.parts.len() - 1].as_slice());
    parts.push(c);
    let r = CPath { parts };
    proof {
        assert(r@ =~= p@.skip(p@.len() - 1));
    }
    r
}

/// Whether `file` lies at or under `prefix`.
pub fn starts_with(file: &CPath, prefix: &CPath) -> (r: bool)
    ensures
        r == is_prefix(prefix@, file@),
{
    if prefix.parts.len() > file.parts.len() {
        return false;
    }
    let mut i: usize = 0;
    while i < prefix.parts.len()
        invariant
            i <= prefix.parts.len(),
            prefix.parts.len() <= file.parts.len(),
            forall|j: int| 0 <= j < i ==> prefix@[j] == file@[j],
        decreases prefix.parts.len() - i,
    {
        if !component_eq(&prefix.parts[i], &file.parts[i]) {
            proof {
                assert(prefix@[i as int] == prefix.parts@[i as int]@);
                assert(file@[i as int] == file.parts@[i as int]@);
            }
            return false;
        }
        i = i + 1;
    }
    true
}

/// The components of `file` left after dropping the leading `prefix`
/// components. Callers are responsible for checking ancestry first;
/// stripping a prefix that is not an ancestor is a caller error, so it is
/// ruled out here rather than handled.
pub fn path_relative(file: &CPath, prefix: &CPath) -> (r: CPath)
    requires
        is_prefix(prefix@, file@),
    ensures
        r@ == file@.skip(prefix@.len() as int),
{
    let mut parts: Vec<Vec<u8>> = Vec::new();
    let mut i: usize = prefix.parts.len();
    while i < file.parts.len()
        invariant
            prefix.parts.len() <= i <= file.parts.len(),
            parts@.len() == i - prefix.parts.len(),
            forall|j: int| 0 <= j < parts@.len() ==> parts@[j]@ == file@[prefix@.len() + j],
        decreases file.parts.len() - i,
    {
        let c = vstd::slice::slice_to_vec(file.parts[i].as_slice());
        parts.push(c);
        i = i + 1;
    }
    let r = CPath { parts };
    proof {
        assert(r@ =~= file@.skip(prefix@.len() as int));
    }
    r
}

/// `base` extended by every component of `rel`.
pub fn join(base: &CPath, rel: &CPath) -> (r: CPath)
    ensures
        r@ == base@ + rel@,
{
    let mut out = base.duplicate();
    let mut i: usize = 0;
    while i < rel.parts.len()
        invariant
            i <= rel.parts.len(),
            out@.len() == base@.len() + i,
            forall|j: int| 0 <= j < base@.len() ==> out@[j] == base@[j],
            forall|j: int| 0 <= j < i ==> out@[base@.len() + j] == rel@[j],
        decreases rel.parts.len() - i,
    {
        let c = vstd::slice::slice_to_vec(rel.parts[i].as_slice());
        out.parts.push(c);
        i = i + 1;
    }
    proof {
        assert(out@ =~= base@ + rel@);
    }
    out
}

/// Fails unless `p` lies strictly inside the home directory: `p` must
/// begin with every component of `home_dir` and must not be the home
/// directory itself. Adopting the home directory would create a
/// self-referential link; adopting anything outside it would let the tool
/// relocate content it does not manage.
pub fn ensure_file_under_homedir(home_dir: &CPath, p: &CPath) -> (r: Result<(), ()>)
    ensures
        r is Ok <==> (is_prefix(home_dir@, p@) && p@ != home_dir@),
{
    if !starts_with(p, home_dir) {
        return Err(());
    }
    if p.parts.len() == home_dir.parts.len() {
        proof {
            assert(p@ =~= home_dir@);
        }
        return Err(());
    }
    Ok(())
}

/// Where a file discovered under `from` lands when `from`'s whole tree is
/// copied into `to`: `to` extended by `file`'s components relative to
/// `from`'s parent. The copied tree keeps `from`'s own leaf name as a new
/// child of `to`, not `from`'s full ancestry.
pub fn copy_entry_dest(file: &CPath, from: &CPath, to: &CPath) -> (r: CPath)
    requires
        from@.len() >= 1,
        is_prefix(from@, file@),
    ensures
        r@ == to@ + file@.skip(from@.len() - 1),
{
    let mut out = to.duplicate();
    let mut i: usize = from.parts.len() - 1;
    while i < file.parts.len()
        invariant
            from.parts.len() - 1 <= i <= file.parts.len(),
            from.parts.len() >= 1,
            out@.len() == to@.len() + i - (from@.len() - 1),
            forall|j: int| 0 <= j < to@.len() ==> out@[j] == to@[j],
            forall|j: int|
                to@.len() <= j < out@.len() ==> out@[j] == file@[from@.len() - 1 + (j - to@.len())],
        decreases file.parts.len() - i,
    {
        let c = vstd::slice::slice_to_vec(file.parts[i].as_slice());
        let ghost prev = out@;
        out.parts.push(c);
        proof {
            assert(out@ =~= prev.push(file@[i as int]));
        }
        i = i + 1;
    }
    proof {
        assert(out@ =~= to@ + file@.skip(from@.len() - 1));
    }
    out
}

/// Prefix ordering of paths is transitive.
pub proof fn lemma_prefix_transitive(a: Seq<Seq<u8>>, b: Seq<Seq<u8>>, c: Seq<Seq<u8>>)
    requires
        is_prefix(a, b),
        is_prefix(b, c),
    ensures
        is_prefix(a, c),
{
}

/// Two ancestors of one path are comparable: one contains the other.
pub proof fn lemma_prefixes_comparable(a: Seq<Seq<u8>>, b: Seq<Seq<u8>>, x: Seq<Seq<u8>>)
    requires
        is_prefix(a, x),
        is_prefix(b, x),
    ensures
        is_prefix(a, b) || is_prefix(b, a),
{
}

/// The two paths diverge: at some depth present in both, they name
/// different components. Neither tree can then contain the other — as
/// with the store's `link/` and `backup/` subtrees.
pub open spec fn diverges(a: Seq<Seq<u8>>, b: Seq<Seq<u8>>) -> bool {
    exists|i: int| 0 <= i < a.len() && i < b.len() && a[i] != b[i]
}

/// Nothing at or under one of two diverging roots lies at or under the
/// other.
pub proof fn lemma_diverging_trees_disjoint(
    a: Seq<Seq<u8>>,
    b: Seq<Seq<u8>>,
    x: Seq<Seq<u8>>,
    y: Seq<Seq<u8>>,
)
    requires
        diverges(a, b),
        is_prefix(a, x),
        is_prefix(b, y),
    ensures
        x != y,
{
    let i = choose|i: int| 0 <= i < a.len() && i < b.len() && a[i] != b[i];
    assert(x[i] == a[i]);
    assert(y[i] == b[i]);
}

/// Joining a prefix back onto the relative remainder reconstructs the
/// original path: stripping and re-rooting loses nothing.
pub proof fn lemma_relative_round_trip(file: Seq<Seq<u8>>, prefix: Seq<Seq<u8>>)
    requires
        is_prefix(prefix, file),
    ensures
        prefix + file.skip(prefix.len() as int) == file,
{
    assert(prefix + file.skip(prefix.len() as int) =~= file);
}

} // verus!

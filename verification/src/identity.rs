//! The identity directory: which numeric identity stands for which path.
//!
//! A backend that addresses its nodes by path has no identities of its own.
//! The directory hands them out in the order in which paths are first seen,
//! counting up from the root's identity, and remembers every pair for as long
//! as it lives.  No pair is ever dropped or changed, so an identity, once
//! given, names the same path for good, and two paths never share one.

use bimap::BiHashMap;
use vstd::prelude::*;

verus! {

#[verifier::external_type_specification]
#[verifier::external_body]
#[verifier::reject_recursive_types(L)]
#[verifier::reject_recursive_types(R)]
#[verifier::reject_recursive_types(LS)]
#[verifier::reject_recursive_types(RS)]
pub struct ExBiHashMap<L, R, LS, RS>(BiHashMap<L, R, LS, RS>);

/// The pairs that a two-way map of identities and paths holds, read from
/// left to right: each identity in it with the path it is paired with.
pub uninterp spec fn pairs(map: &BiHashMap<u64, String>) -> Map<u64, Seq<char>>;

/// The pairs of a two-way map after `(left, right)` was put into one that held
/// `before`: the new pair, and every old pair that shares neither side with it.
pub open spec fn after_insert(before: Map<u64, Seq<char>>, left: u64, right: Seq<char>) -> Map<
    u64,
    Seq<char>,
> {
    Map::new(
        |k: u64| k == left || (before.contains_key(k) && before[k] != right),
        |k: u64|
            if k == left {
                right
            } else {
                before[k]
            },
    )
}

/// `BiHashMap::new`: the result holds no pair.
#[verifier::external_body]
fn no_pairs() -> (table: BiHashMap<u64, String>)
    ensures
        forall|k: u64| !pairs(&table).contains_key(k),
{
    BiHashMap::new()
}

/// `BiHashMap::get_by_left`: the right side of the pair whose left side is
/// `left`, copied out, or `None` where no pair has that left side.
#[verifier::external_body]
fn right_of(map: &BiHashMap<u64, String>, left: u64) -> (right: Option<String>)
    ensures
        right is Some <==> pairs(map).contains_key(left),
        right matches Some(r) ==> r@ == pairs(map)[left],
{
    map.get_by_left(&left).cloned()
}

/// `BiHashMap::get_by_right`: the left side of a pair whose right side is
/// `right`, or `None` where no pair has that right side.
#[verifier::external_body]
fn left_of(map: &BiHashMap<u64, String>, right: &str) -> (left: Option<u64>)
    ensures
        left matches Some(l) ==> pairs(map).contains_key(l) && pairs(map)[l] == right@,
        left is None ==> forall|l: u64| pairs(map).contains_key(l) ==> pairs(map)[l] != right@,
{
    map.get_by_right(right).copied()
}

/// `BiHashMap::insert`: the pair is put in, and any pair that had the same
/// left side or the same right side is taken out.
#[verifier::external_body]
fn put_pair(map: &mut BiHashMap<u64, String>, left: u64, right: String)
    ensures
        pairs(final(map)) == after_insert(pairs(old(map)), left, right@),
{
    let _ = map.insert(left, right);
}

/// The identity of the root.
pub const ROOT_INO: u64 = 1;

/// The path of the root: a single slash.
pub open spec fn root_path() -> Seq<char> {
    seq!['/']
}

/// What an identity directory holds: the path of each identity handed out so
/// far, and how many were handed out.
pub struct Directory {
    /// The path that each identity stands for.
    pub paths: Map<u64, Seq<char>>,
    /// The number of identities handed out, the root's included.
    pub count: nat,
}

impl Directory {
    /// The identities in use are exactly `1` to `count`, the root's identity
    /// stands for the root's path, and no path has two identities.
    pub open spec fn wf(self) -> bool {
        &&& 1 <= self.count <= u64::MAX
        &&& forall|k: u64| self.paths.contains_key(k) <==> 1 <= k <= self.count
        &&& forall|j: u64, k: u64|
            self.paths.contains_key(j) && self.paths.contains_key(k) && self.paths[j]
                == self.paths[k] ==> j == k
        &&& self.paths[ROOT_INO] == root_path()
    }

    /// Whether `path` has an identity.
    pub open spec fn knows(self, path: Seq<char>) -> bool {
        exists|k: u64| self.paths.contains_key(k) && self.paths[k] == path
    }

    /// The identity of `path`, where it has one.
    pub open spec fn identity_of(self, path: Seq<char>) -> u64 {
        choose|k: u64| self.paths.contains_key(k) && self.paths[k] == path
    }

    /// The identity that resolving `path` gives: the one it has, or else the
    /// next unused one.
    pub open spec fn resolve_id(self, path: Seq<char>) -> u64 {
        if self.knows(path) {
            self.identity_of(path)
        } else {
            (self.count + 1) as u64
        }
    }

    /// The directory after `path` was resolved: unchanged where `path` had an
    /// identity, and else with one more pair.
    pub open spec fn resolve(self, path: Seq<char>) -> Directory {
        if self.knows(path) {
            self
        } else {
            Directory {
                paths: self.paths.insert((self.count + 1) as u64, path),
                count: self.count + 1,
            }
        }
    }

    /// The directory after each path of `paths` was resolved in turn.
    pub open spec fn resolve_all(self, paths: Seq<Seq<char>>) -> Directory
        decreases paths.len(),
    {
        if paths.len() == 0 {
            self
        } else {
            self.resolve_all(paths.drop_last()).resolve(paths.last())
        }
    }
}

/// A two-way map between identities and paths that only grows.
pub struct IdentityDirectory {
    inodes: BiHashMap<u64, String>,
    count: u64,
}

impl View for IdentityDirectory {
    type V = Directory;

    closed spec fn view(&self) -> Directory {
        Directory { paths: pairs(&self.inodes), count: self.count as nat }
    }
}

impl IdentityDirectory {
    /// A directory that knows the root and nothing else.
    pub fn new() -> (dir: IdentityDirectory)
        ensures
            dir@.wf(),
            dir@.count == 1,
            dir@.paths == Map::<u64, Seq<char>>::empty().insert(ROOT_INO, root_path()),
    {
        let mut inodes = no_pairs();
        let root = "/".to_owned();
        proof {
            reveal_strlit("/");
            assert(root@ =~= root_path());
        }
        put_pair(&mut inodes, ROOT_INO, root);
        assert(pairs(&inodes) =~= Map::<u64, Seq<char>>::empty().insert(ROOT_INO, root_path()));
        IdentityDirectory { inodes, count: 1 }
    }

    /// The number of identities handed out, the root's included.
    pub fn len(&self) -> (n: u64)
        ensures
            n == self@.count,
    {
        self.count
    }

    /// The path that `ino` stands for, or `None` where `ino` was never handed
    /// out.
    pub fn path(&self, ino: u64) -> (path: Option<String>)
        ensures
            path is Some <==> self@.paths.contains_key(ino),
            path matches Some(p) ==> p@ == self@.paths[ino],
    {
        right_of(&self.inodes, ino)
    }

    /// The identity that `path` has, or `None` where it has none yet.  The
    /// directory is left as it is.
    pub fn find(&self, path: &str) -> (ino: Option<u64>)
        requires
            self@.wf(),
        ensures
            ino is Some <==> self@.knows(path@),
            ino matches Some(i) ==> i == self@.identity_of(path@),
    {
        left_of(&self.inodes, path)
    }

    /// Resolves `path` to its identity, handing out the next unused identity
    /// where `path` is new.
    pub fn get_inode(&mut self, path: String) -> (ino: u64)
        requires
            old(self)@.wf(),
            old(self)@.count < u64::MAX,
        ensures
            ino == old(self)@.resolve_id(path@),
            final(self)@ == old(self)@.resolve(path@),
            final(self)@.wf(),
    {
        proof {
            lemma_resolve_wf(self@, path@);
        }
        match left_of(&self.inodes, path.as_str()) {
            Some(ino) => ino,
            None => {
                let ino: u64 = self.count + 1;
                let ghost before = pairs(&self.inodes);
                put_pair(&mut self.inodes, ino, path);
                self.count = ino;
                assert(pairs(&self.inodes) =~= before.insert(ino, path@));
                ino
            },
        }
    }
}

/// Resolving a path keeps the directory well formed.
pub proof fn lemma_resolve_wf(dir: Directory, path: Seq<char>)
    requires
        dir.wf(),
        dir.count < u64::MAX,
    ensures
        dir.resolve(path).wf(),
        dir.resolve(path).knows(path),
        dir.resolve(path).identity_of(path) == dir.resolve_id(path),
        dir.resolve(path).paths.contains_key(dir.resolve_id(path)),
        dir.resolve(path).paths[dir.resolve_id(path)] == path,
{
    let after = dir.resolve(path);
    let id = dir.resolve_id(path);
    assert(after.paths.contains_key(id) && after.paths[id] == path);
}


/// Resolving a path a second time gives the identity that the first time
/// gave and changes nothing, and the first time adds one pair at most.
pub proof fn lemma_resolve_stable(dir: Directory, path: Seq<char>)
    requires
        dir.wf(),
        dir.count < u64::MAX,
    ensures
        dir.resolve(path).resolve_id(path) == dir.resolve_id(path),
        dir.resolve(path).resolve(path) == dir.resolve(path),
        dir.resolve(path).count <= dir.count + 1,
        dir.knows(path) ==> dir.resolve(path) == dir,
{
    lemma_resolve_wf(dir, path);
}

/// Resolving a path takes no pair away and changes none: every identity
/// stands for the same path afterwards, and a path that had an identity
/// resolves to it as before.
pub proof fn lemma_resolve_keeps(dir: Directory, other: Seq<char>, path: Seq<char>)
    requires
        dir.wf(),
        dir.count < u64::MAX,
    ensures
        dir.count <= dir.resolve(other).count,
        forall|k: u64| #[trigger]
            dir.paths.contains_key(k) ==> dir.resolve(other).paths.contains_key(k)
                && dir.resolve(other).paths[k] == dir.paths[k],
        dir.knows(path) ==> dir.resolve(other).knows(path) && dir.resolve(other).resolve_id(path)
            == dir.resolve_id(path),
{
    lemma_resolve_wf(dir, other);
    if dir.knows(path) {
        let k = dir.identity_of(path);
        assert(dir.resolve(other).paths.contains_key(k) && dir.resolve(other).paths[k] == path);
    }
}

/// Resolving one run of paths and then another is resolving the two runs as
/// one.
pub proof fn lemma_resolve_all_split(dir: Directory, first: Seq<Seq<char>>, second: Seq<Seq<char>>)
    ensures
        dir.resolve_all(first + second) == dir.resolve_all(first).resolve_all(second),
    decreases second.len(),
{
    if second.len() == 0 {
        assert(first + second =~= first);
    } else {
        lemma_resolve_all_split(dir, first, second.drop_last());
        assert((first + second).drop_last() =~= first + second.drop_last());
        assert((first + second).last() == second.last());
    }
}

/// The directory only grows while paths are resolved: it stays well formed,
/// every pair it held is still there, every path that was resolved has an
/// identity, and there is at most one new pair for each call.
pub proof fn lemma_resolve_all_grows(dir: Directory, paths: Seq<Seq<char>>)
    requires
        dir.wf(),
        dir.count + paths.len() <= u64::MAX,
    ensures
        dir.resolve_all(paths).wf(),
        dir.count <= dir.resolve_all(paths).count <= dir.count + paths.len(),
        forall|k: u64| #[trigger]
            dir.paths.contains_key(k) ==> dir.resolve_all(paths).paths.contains_key(k)
                && dir.resolve_all(paths).paths[k] == dir.paths[k],
        forall|i: int| 0 <= i < paths.len() ==> dir.resolve_all(paths).knows(#[trigger] paths[i]),
    decreases paths.len(),
{
    if paths.len() > 0 {
        let before = dir.resolve_all(paths.drop_last());
        lemma_resolve_all_grows(dir, paths.drop_last());
        lemma_resolve_wf(before, paths.last());
        let after = before.resolve(paths.last());
        assert(after == dir.resolve_all(paths));
        assert forall|i: int| 0 <= i < paths.len() implies after.knows(#[trigger] paths[i]) by {
            if i < paths.len() - 1 {
                assert(paths[i] == paths.drop_last()[i]);
                lemma_resolve_keeps(before, paths.last(), paths[i]);
            }
        }
        assert forall|k: u64| #[trigger] dir.paths.contains_key(k) implies after.paths.contains_key(
            k,
        ) && after.paths[k] == dir.paths[k] by {
            assert(before.paths.contains_key(k));
        }
    }
}

/// The root's identity stands for the root's path whatever else is resolved.
pub proof fn lemma_root_always_known(dir: Directory, paths: Seq<Seq<char>>)
    requires
        dir.wf(),
        dir.count + paths.len() <= u64::MAX,
    ensures
        dir.resolve_all(paths).paths.contains_key(ROOT_INO),
        dir.resolve_all(paths).paths[ROOT_INO] == root_path(),
        dir.resolve_all(paths).resolve_id(root_path()) == ROOT_INO,
{
    lemma_resolve_all_grows(dir, paths);
    let after = dir.resolve_all(paths);
    assert(after.paths.contains_key(ROOT_INO) && after.paths[ROOT_INO] == root_path());
}

/// The identity that the call numbered `i` returns when the paths of `paths`
/// are resolved in turn, starting from `dir`.
pub open spec fn nth_identity(dir: Directory, paths: Seq<Seq<char>>, i: int) -> u64 {
    dir.resolve_all(paths.take(i)).resolve_id(paths[i])
}

/// The identity that a call returns stands for the path it was called with,
/// and still does when all calls are done.
pub proof fn lemma_identity_stands(dir: Directory, paths: Seq<Seq<char>>, i: int)
    requires
        dir.wf(),
        dir.count + paths.len() <= u64::MAX,
        0 <= i < paths.len(),
    ensures
        dir.resolve_all(paths).wf(),
        dir.resolve_all(paths).paths.contains_key(nth_identity(dir, paths, i)),
        dir.resolve_all(paths).paths[nth_identity(dir, paths, i)] == paths[i],
{
    let path = paths[i];
    let before = dir.resolve_all(paths.take(i));
    lemma_resolve_all_grows(dir, paths.take(i));
    lemma_resolve_wf(before, path);
    let next = before.resolve(path);
    let id = before.resolve_id(path);
    // the calls behind this one, taken as one run
    let behind = paths.skip(i + 1);
    assert(paths.take(i + 1).drop_last() =~= paths.take(i));
    assert(paths.take(i + 1).last() == path);
    assert(dir.resolve_all(paths.take(i + 1)) == next);
    assert(paths =~= paths.take(i + 1) + behind);
    lemma_resolve_all_split(dir, paths.take(i + 1), behind);
    lemma_resolve_all_grows(next, behind);
    assert(next.paths.contains_key(id));
}

/// Identity stability: however many paths are resolved, and in whatever
/// order, two calls that resolve the same path return the same identity.
pub proof fn lemma_same_path_same_identity(dir: Directory, paths: Seq<Seq<char>>, i: int, j: int)
    requires
        dir.wf(),
        dir.count + paths.len() <= u64::MAX,
        0 <= i <= j < paths.len(),
        paths[i] == paths[j],
    ensures
        nth_identity(dir, paths, i) == nth_identity(dir, paths, j),
{
    lemma_identity_stands(dir, paths, i);
    lemma_identity_stands(dir, paths, j);
}

/// Distinct paths get distinct identities: two calls return the same
/// identity only for the same path.
pub proof fn lemma_same_identity_same_path(dir: Directory, paths: Seq<Seq<char>>, i: int, j: int)
    requires
        dir.wf(),
        dir.count + paths.len() <= u64::MAX,
        0 <= i <= j < paths.len(),
        nth_identity(dir, paths, i) == nth_identity(dir, paths, j),
    ensures
        paths[i] == paths[j],
{
    lemma_identity_stands(dir, paths, i);
    lemma_identity_stands(dir, paths, j);
}

/// Resolving paths that all have an identity changes nothing.
pub proof fn lemma_resolve_all_known(dir: Directory, paths: Seq<Seq<char>>)
    requires
        forall|i: int| 0 <= i < paths.len() ==> dir.knows(#[trigger] paths[i]),
    ensures
        dir.resolve_all(paths) == dir,
    decreases paths.len(),
{
    if paths.len() > 0 {
        assert forall|i: int| 0 <= i < paths.drop_last().len() implies dir.knows(
            #[trigger] paths.drop_last()[i],
        ) by {
            assert(paths.drop_last()[i] == paths[i]);
        }
        lemma_resolve_all_known(dir, paths.drop_last());
        assert(dir.knows(paths[paths.len() - 1]));
    }
}

/// Resolving a run of paths a second time returns, call for call, the
/// identities of the first time, and adds nothing.
pub proof fn lemma_identities_settled(dir: Directory, paths: Seq<Seq<char>>, i: int)
    requires
        dir.wf(),
        dir.count + paths.len() <= u64::MAX,
        0 <= i < paths.len(),
    ensures
        dir.resolve_all(paths).resolve_all(paths) == dir.resolve_all(paths),
        nth_identity(dir.resolve_all(paths), paths, i) == nth_identity(dir, paths, i),
{
    let settled = dir.resolve_all(paths);
    lemma_resolve_all_grows(dir, paths);
    lemma_resolve_all_known(settled, paths);
    assert forall|k: int| 0 <= k < paths.take(i).len() implies settled.knows(
        #[trigger] paths.take(i)[k],
    ) by {
        assert(paths.take(i)[k] == paths[k]);
    }
    lemma_resolve_all_known(settled, paths.take(i));
    lemma_identity_stands(dir, paths, i);
    assert(settled.knows(paths[i]));
}

/// The directory gains at most one pair for each distinct path that is
/// resolved, however often each is asked for.
pub proof fn lemma_one_entry_per_path(dir: Directory, paths: Seq<Seq<char>>)
    requires
        dir.wf(),
        dir.count + paths.len() <= u64::MAX,
    ensures
        dir.resolve_all(paths).count <= dir.count + paths.to_set().len(),
    decreases paths.len(),
{
    vstd::seq_lib::seq_to_set_is_finite(paths);
    if paths.len() > 0 {
        let front = paths.drop_last();
        let before = dir.resolve_all(front);
        lemma_one_entry_per_path(dir, front);
        lemma_resolve_all_grows(dir, front);
        vstd::seq_lib::seq_to_set_is_finite(front);
        assert forall|p: Seq<char>| front.to_set().contains(p) implies paths.to_set().contains(
            p,
        ) by {
            let i = choose|i: int| 0 <= i < front.len() && front[i] == p;
            assert(paths[i] == p);
        }
        assert(front.to_set().subset_of(paths.to_set()));
        vstd::set_lib::lemma_len_subset(front.to_set(), paths.to_set());
        if !before.knows(paths.last()) {
            assert(!front.to_set().contains(paths.last())) by {
                if front.to_set().contains(paths.last()) {
                    let i = choose|i: int| 0 <= i < front.len() && front[i] == paths.last();
                    assert(before.knows(front[i]));
                }
            }
            assert(paths.to_set().contains(paths.last())) by {
                assert(paths[paths.len() - 1] == paths.last());
            }
            assert(front.to_set().insert(paths.last()).subset_of(paths.to_set()));
            vstd::set_lib::lemma_len_subset(front.to_set().insert(paths.last()), paths.to_set());
        }
    }
}

} // verus!

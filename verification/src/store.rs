//! Loading a policy from one of three sources: an arbitrary filesystem
//! location, a root-filesystem descriptor, or a named revision inside a
//! content-addressed repository.
//!
//! The collaborating object store and filesystem layer are modeled as plain
//! values: a source is a listing of file contents by repository-relative
//! path, and a repository is a listing of commits by revision name. The
//! policy blob is stored at the conventional path `etc/selinux/policy`
//! inside a source tree.

use vstd::prelude::*;

use crate::bytes::bytes_equal;
use crate::cancel::CancelToken;
use crate::checksum::digest;
use crate::checksum::digest_spec;
use crate::errors::Error;
use crate::errors::ErrorSpec;
use crate::policy::parse_policy;
use crate::policy::parse_spec;
use crate::policy::Policy;
use crate::policy::PolicyModel;
use crate::policy::NO_ROOTFS;

verus! {

/// One file of a source tree: its repository-relative path and its bytes.
pub struct SourceFile {
    pub path: Vec<u8>,
    pub data: Vec<u8>,
}

/// Mathematical shape of a [`SourceFile`].
pub struct SourceFileModel {
    pub path: Seq<u8>,
    pub data: Seq<u8>,
}

impl View for SourceFile {
    type V = SourceFileModel;

    open spec fn view(&self) -> SourceFileModel {
        SourceFileModel { path: self.path@, data: self.data@ }
    }
}

/// A listing of file contents, standing for an unpacked image or a
/// descriptor-relative view of a root filesystem.
pub struct SourceTree {
    pub files: Vec<SourceFile>,
}

impl View for SourceTree {
    type V = Seq<SourceFileModel>;

    open spec fn view(&self) -> Seq<SourceFileModel> {
        self.files@.map_values(|f: SourceFile| f@)
    }
}

/// One commit of the repository: a revision name and its tree.
pub struct Commit {
    pub rev: Vec<u8>,
    pub tree: SourceTree,
}

/// Mathematical shape of a [`Commit`].
pub struct CommitModel {
    pub rev: Seq<u8>,
    pub tree: Seq<SourceFileModel>,
}

impl View for Commit {
    type V = CommitModel;

    open spec fn view(&self) -> CommitModel {
        CommitModel { rev: self.rev@, tree: self.tree@ }
    }
}

/// A content-addressed repository: commits by revision name.
pub struct Repository {
    pub commits: Vec<Commit>,
}

impl View for Repository {
    type V = Seq<CommitModel>;

    open spec fn view(&self) -> Seq<CommitModel> {
        self.commits@.map_values(|c: Commit| c@)
    }
}

/// The conventional path of the policy blob inside a committed tree.
pub open spec fn policy_blob_path() -> Seq<u8> {
    seq![
        101u8, 116u8, 99u8, 47u8, 115u8, 101u8, 108u8, 105u8, 110u8, 117u8, 120u8, 47u8, 112u8,
        111u8, 108u8, 105u8, 99u8, 121u8,
    ]
}

/// Builds the conventional policy blob path, `etc/selinux/policy`.
pub fn policy_blob_path_bytes() -> (r: Vec<u8>)
    ensures
        r@ == policy_blob_path(),
{
    let mut r: Vec<u8> = Vec::new();
    r.push(101);
    r.push(116);
    r.push(99);
    r.push(47);
    r.push(115);
    r.push(101);
    r.push(108);
    r.push(105);
    r.push(110);
    r.push(117);
    r.push(120);
    r.push(47);
    r.push(112);
    r.push(111);
    r.push(108);
    r.push(105);
    r.push(99);
    r.push(121);
    proof {
        assert(r@ =~= policy_blob_path());
    }
    r
}

/// Bytes of the first file with the given path, if any.
pub open spec fn find_file(files: Seq<SourceFileModel>, path: Seq<u8>) -> Option<Seq<u8>>
    decreases files.len(),
{
    if files.len() == 0 {
        None
    } else if files[0].path == path {
        Some(files[0].data)
    } else {
        find_file(files.drop_first(), path)
    }
}

/// The first commit with the given revision name, if any.
pub open spec fn find_commit(commits: Seq<CommitModel>, rev: Seq<u8>) -> Option<CommitModel>
    decreases commits.len(),
{
    if commits.len() == 0 {
        None
    } else if commits[0].rev == rev {
        Some(commits[0])
    } else {
        find_commit(commits.drop_first(), rev)
    }
}

/// Looks a path up in a source tree.
fn lookup_file<'a>(tree: &'a SourceTree, path: &Vec<u8>) -> (r: Option<&'a Vec<u8>>)
    ensures
        match r {
            None => find_file(tree@, path@) is None,
            Some(d) => find_file(tree@, path@) == Some(d@),
        },
{
    let mut i: usize = 0;
    proof {
        assert(tree@.skip(0) =~= tree@);
    }
    while i < tree.files.len()
        invariant
            i <= tree.files.len(),
            find_file(tree@, path@) == find_file(tree@.skip(i as int), path@),
        decreases tree.files.len() - i,
    {
        proof {
            assert(tree@.skip(i as int).len() > 0);
            assert(tree@.skip(i as int)[0] == tree@[i as int]);
            assert(tree@.skip(i as int).drop_first() =~= tree@.skip(i + 1));
        }
        if bytes_equal(&tree.files[i].path, path) {
            return Some(&tree.files[i].data);
        }
        i += 1;
    }
    proof {
        assert(tree@.skip(tree@.len() as int) =~= Seq::<SourceFileModel>::empty());
    }
    None
}

/// Looks a revision up in a repository.
fn lookup_commit<'a>(repo: &'a Repository, rev: &Vec<u8>) -> (r: Option<&'a Commit>)
    ensures
        match r {
            None => find_commit(repo@, rev@) is None,
            Some(c) => find_commit(repo@, rev@) == Some(c@),
        },
{
    let mut i: usize = 0;
    proof {
        assert(repo@.skip(0) =~= repo@);
    }
    while i < repo.commits.len()
        invariant
            i <= repo.commits.len(),
            find_commit(repo@, rev@) == find_commit(repo@.skip(i as int), rev@),
        decreases repo.commits.len() - i,
    {
        proof {
            assert(repo@.skip(i as int).len() > 0);
            assert(repo@.skip(i as int)[0] == repo@[i as int]);
            assert(repo@.skip(i as int).drop_first() =~= repo@.skip(i + 1));
        }
        if bytes_equal(&repo.commits[i].rev, rev) {
            return Some(&repo.commits[i]);
        }
        i += 1;
    }
    proof {
        assert(repo@.skip(repo@.len() as int) =~= Seq::<CommitModel>::empty());
    }
    None
}

/// The policy was loaded from exactly this blob: its name and rules are the
/// blob's parse, and its checksum is the blob's digest.
pub open spec fn loaded_from(p: PolicyModel, blob: Seq<u8>) -> bool {
    &&& parse_spec(blob) is Some
    &&& p.name == parse_spec(blob)->Some_0.name
    &&& p.rules == parse_spec(blob)->Some_0.rules
    &&& p.csum is Some
    &&& p.csum->0 as int == digest_spec(blob)
}

/// What loading from a source tree yields, before the metadata fields are
/// filled in: the blob found under the conventional path, parsed.
pub open spec fn load_outcome(tree: Seq<SourceFileModel>, r: Result<Policy, Error>) -> bool {
    match find_file(tree, policy_blob_path()) {
        None => r is Err && r->Err_0@ == ErrorSpec::NotFound,
        Some(blob) => {
            if parse_spec(blob) is Some {
                r is Ok && loaded_from(r->Ok_0@, blob)
            } else {
                r is Err && r->Err_0@ == ErrorSpec::PolicyFormat
            }
        },
    }
}

/// Finds and parses the policy blob of a source tree.
fn load_core(tree: &SourceTree) -> (r: Result<Policy, Error>)
    ensures
        load_outcome(tree@, r),
        r is Ok ==> r->Ok_0.origin_path is None && r->Ok_0.rootfs_descriptor == NO_ROOTFS,
{
    let path = policy_blob_path_bytes();
    let blob = match lookup_file(tree, &path) {
        None => {
            return Err(Error::NotFound);
        },
        Some(b) => b,
    };
    let (name, rules) = match parse_policy(blob) {
        Ok(p) => p,
        Err(_) => {
            return Err(Error::PolicyFormat);
        },
    };
    let csum = digest(blob);
    Ok(
        Policy {
            name,
            origin_path: None,
            rootfs_descriptor: NO_ROOTFS,
            csum: Some(csum),
            rules,
        },
    )
}

/// Loads a policy from an arbitrary filesystem location, typically an
/// unpacked system image. `origin` is recorded as the policy's origin path.
///
/// Fails with `NotFound` if the tree has no policy blob, `PolicyFormat` if
/// the blob is unparsable, and `Cancelled` if cancellation fires first.
pub fn load_from_path(tree: &SourceTree, origin: &Vec<u8>, cancel: &mut CancelToken) -> (r: Result<
    Policy,
    Error,
>)
    ensures
        old(cancel).budget == 0 ==> r is Err && r->Err_0@ == ErrorSpec::Cancelled,
        old(cancel).budget != 0 ==> {
            &&& load_outcome(tree@, r)
            &&& r is Ok ==> r->Ok_0@.origin_path == Some(origin@) && r->Ok_0@.rootfs_descriptor
                == NO_ROOTFS as int
        },
{
    if cancel.poll() {
        return Err(Error::Cancelled);
    }
    match load_core(tree) {
        Ok(p) => Ok(
            Policy {
                name: p.name,
                origin_path: Some(crate::bytes::copy_bytes(origin)),
                rootfs_descriptor: p.rootfs_descriptor,
                csum: p.csum,
                rules: p.rules,
            },
        ),
        Err(e) => Err(e),
    }
}

/// Loads the policy governing an already-open root filesystem, located
/// relative to its descriptor so that no path race can redirect the load.
///
/// Fails with `InvalidHandle` if the descriptor is negative, and otherwise
/// exactly as [`load_from_path`]; the loaded policy records the descriptor
/// and no origin path.
pub fn load_from_rootfs(rootfs_dfd: i32, tree: &SourceTree, cancel: &mut CancelToken) -> (r:
    Result<Policy, Error>)
    ensures
        rootfs_dfd < 0 ==> r is Err && r->Err_0@ == ErrorSpec::InvalidHandle,
        rootfs_dfd >= 0 && old(cancel).budget == 0 ==> r is Err && r->Err_0@
            == ErrorSpec::Cancelled,
        rootfs_dfd >= 0 && old(cancel).budget != 0 ==> {
            &&& load_outcome(tree@, r)
            &&& r is Ok ==> r->Ok_0@.origin_path is None && r->Ok_0@.rootfs_descriptor
                == rootfs_dfd as int
        },
{
    if rootfs_dfd < 0 {
        return Err(Error::InvalidHandle);
    }
    if cancel.poll() {
        return Err(Error::Cancelled);
    }
    match load_core(tree) {
        Ok(p) => Ok(
            Policy {
                name: p.name,
                origin_path: None,
                rootfs_descriptor: rootfs_dfd,
                csum: p.csum,
                rules: p.rules,
            },
        ),
        Err(e) => Err(e),
    }
}

/// Resolves `rev` inside the repository and loads the policy blob stored in
/// that commit's tree, without checking the tree out.
///
/// Fails with `UnknownRevision` exactly when the revision does not resolve
/// — never with `NotFound`, which is reserved for a resolved commit whose
/// tree has no policy blob.
pub fn load_from_commit(repo: &Repository, rev: &Vec<u8>, cancel: &mut CancelToken) -> (r: Result<
    Policy,
    Error,
>)
    ensures
        old(cancel).budget == 0 ==> r is Err && r->Err_0@ == ErrorSpec::Cancelled,
        old(cancel).budget != 0 ==> match find_commit(repo@, rev@) {
            None => r is Err && r->Err_0@ == ErrorSpec::UnknownRevision,
            Some(c) => {
                &&& load_outcome(c.tree, r)
                &&& r is Ok ==> r->Ok_0@.origin_path is None && r->Ok_0@.rootfs_descriptor
                    == NO_ROOTFS as int
            },
        },
{
    if cancel.poll() {
        return Err(Error::Cancelled);
    }
    let commit = match lookup_commit(repo, rev) {
        None => {
            return Err(Error::UnknownRevision);
        },
        Some(c) => c,
    };
    load_core(&commit.tree)
}

/// The checksum identifies the blob alone: two policies loaded from
/// byte-identical sources carry the same checksum, whichever of the three
/// constructors loaded them.
pub proof fn lemma_checksum_source_independent(p1: PolicyModel, p2: PolicyModel, blob: Seq<u8>)
    requires
        loaded_from(p1, blob),
        loaded_from(p2, blob),
    ensures
        p1.csum == p2.csum,
{
    assert(p1.csum->0 == p2.csum->0);
}

} // verus!

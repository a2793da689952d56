//! The restorecon engine: walking a listing of filesystem entries and
//! applying the resolver's output to each.
//!
//! The destination tree is a listing of entries in walk order, each with
//! its repository-relative path, mode bits and current label — the shape a
//! depth-first enumeration of a subtree produces. For each entry under the
//! request root (only the root itself when `recursive` is unset) the walk
//! resolves a label and then either applies it, skips the entry, or fails,
//! as the flags direct. Cancellation is polled once per entry in scope;
//! firing halts the walk and leaves already-applied labels in place.

use vstd::prelude::*;
use vstd::pervasive::VecAdditionalExecFns;

use crate::bytes::bytes_equal;
use crate::bytes::copy_bytes;
use crate::bytes::is_prefix_of;
use crate::bytes::starts_with;
use crate::cancel::CancelToken;
use crate::errors::Error;
use crate::errors::ErrorSpec;
use crate::policy::Policy;
use crate::policy::PolicyModel;
use crate::resolve::resolve;
use crate::resolve::resolve_spec;
use crate::resolve::FileMeta;

verus! {

/// Flags of a restorecon request.
#[derive(Clone, Copy, Debug, PartialEq, Eq, Structural)]
pub struct Flags {
    /// Walk the whole subtree under the root rather than the root alone.
    pub recursive: bool,
    /// Treat "no label for this path" as a skip rather than a failure.
    pub allow_no_label: bool,
    /// Write the label even when the current one already matches.
    pub force: bool,
    /// Resolve but do not write: dry-run auditing.
    pub skip_xattrs: bool,
    /// Collect per-path failures and keep walking rather than fail fast.
    pub continue_on_error: bool,
}

/// One on-disk entry of the destination tree.
#[derive(Debug)]
pub struct FsEntry {
    pub path: Vec<u8>,
    pub mode: u32,
    pub label: Option<Vec<u8>>,
}

/// Mathematical shape of an [`FsEntry`].
pub struct FsEntryModel {
    pub path: Seq<u8>,
    pub mode: u32,
    pub label: Option<Seq<u8>>,
}

impl View for FsEntry {
    type V = FsEntryModel;

    open spec fn view(&self) -> FsEntryModel {
        FsEntryModel {
            path: self.path@,
            mode: self.mode,
            label: match self.label {
                Some(l) => Some(l@),
                None => None,
            },
        }
    }
}

/// A restorecon request: where to start, an optional pre-fetched metadata
/// snapshot for the root, the destination filesystem handle, and the flags.
pub struct RestoreconRequest {
    pub path: Vec<u8>,
    pub meta: Option<FileMeta>,
    pub dest_dfd: i32,
    pub flags: Flags,
}

/// Terminal state of one visited entry.
#[derive(Clone, Copy, Debug, PartialEq, Eq, Structural)]
pub enum EntryState {
    /// A label was resolved and written.
    Applied,
    /// Nothing to do: no label under `allow_no_label`, or already correct.
    Skipped,
    /// A label was resolved but, under `skip_xattrs`, not written.
    Resolved,
    /// Resolution failed, or no label and `allow_no_label` is unset.
    Failed,
}

/// Counts of entries per terminal state over one walk.
#[derive(Clone, Copy, Debug, PartialEq, Eq, Structural)]
pub struct RestoreStats {
    pub visited: usize,
    pub applied: usize,
    pub skipped: usize,
    pub resolved: usize,
    pub failed: usize,
}

/// Aggregate result of a completed walk.
#[derive(Debug)]
pub struct RestoreconReport {
    /// The root's resolved label, or the most recently resolved label of
    /// the walk when the root has none.
    pub root_label: Option<Vec<u8>>,
    pub stats: RestoreStats,
    /// Per-path failures, collected under `continue_on_error`.
    pub errors: Vec<(Vec<u8>, Error)>,
}

/// The path lies strictly under the root.
pub open spec fn is_under(root: Seq<u8>, path: Seq<u8>) -> bool {
    if root.len() == 0 {
        true
    } else {
        is_prefix_of(root.push(47), path)
    }
}

/// The walk visits this path: the root itself, or, recursively, anything
/// under it.
pub open spec fn in_scope(path: Seq<u8>, root: Seq<u8>, recursive: bool) -> bool {
    path == root || (recursive && is_under(root, path))
}

/// The mode an entry is resolved under: the request's snapshot overrides
/// the root entry's own mode.
pub open spec fn walk_mode(e: FsEntryModel, root: Seq<u8>, meta: Option<FileMeta>) -> u32 {
    if e.path == root && meta is Some {
        meta->0.mode
    } else {
        e.mode
    }
}

/// One entry's transition: the entry afterwards, its terminal state, and
/// the error of a failure.
pub open spec fn step_entry(p: PolicyModel, e: FsEntryModel, flags: Flags, emode: u32) -> (
    FsEntryModel,
    EntryState,
    Option<ErrorSpec>,
) {
    match resolve_spec(p, e.path, emode) {
        Err(er) => (e, EntryState::Failed, Some(er)),
        Ok(None) => if flags.allow_no_label {
            (e, EntryState::Skipped, None)
        } else {
            (e, EntryState::Failed, Some(ErrorSpec::PolicyResolution))
        },
        Ok(Some(l)) => if !flags.force && e.label == Some(l) {
            (e, EntryState::Skipped, None)
        } else if flags.skip_xattrs {
            (e, EntryState::Resolved, None)
        } else {
            (FsEntryModel { path: e.path, mode: e.mode, label: Some(l) }, EntryState::Applied, None)
        },
    }
}

/// Running state of a walk: the entries already walked (processed or passed
/// over), the counters, the collected errors, the most recently resolved
/// label, the remaining poll budget, and whether and why the walk halted.
pub struct WalkState {
    pub entries: Seq<FsEntryModel>,
    pub visited: nat,
    pub applied: nat,
    pub skipped: nat,
    pub resolved: nat,
    pub failed: nat,
    pub errors: Seq<(Seq<u8>, ErrorSpec)>,
    pub last_label: Option<Seq<u8>>,
    pub budget: nat,
    pub cancelled: bool,
    pub first_error: Option<ErrorSpec>,
    pub halted: bool,
}

/// The state a walk starts from.
pub open spec fn init_state(budget: nat) -> WalkState {
    WalkState {
        entries: Seq::empty(),
        visited: 0,
        applied: 0,
        skipped: 0,
        resolved: 0,
        failed: 0,
        errors: Seq::empty(),
        last_label: None,
        budget: budget,
        cancelled: false,
        first_error: None,
        halted: false,
    }
}

/// Advances the walk over one entry.
pub open spec fn step_state(
    p: PolicyModel,
    root: Seq<u8>,
    meta: Option<FileMeta>,
    flags: Flags,
    st: WalkState,
    e: FsEntryModel,
) -> WalkState {
    if st.halted {
        WalkState { entries: st.entries.push(e), ..st }
    } else if !in_scope(e.path, root, flags.recursive) {
        WalkState { entries: st.entries.push(e), ..st }
    } else if st.budget == 0 {
        WalkState { entries: st.entries.push(e), cancelled: true, halted: true, ..st }
    } else {
        let emode = walk_mode(e, root, meta);
        let res = resolve_spec(p, e.path, emode);
        let stepped = step_entry(p, e, flags, emode);
        let base = WalkState {
            entries: st.entries.push(stepped.0),
            visited: st.visited + 1,
            budget: (st.budget - 1) as nat,
            last_label: if res is Ok && res->Ok_0 is Some {
                res->Ok_0
            } else {
                st.last_label
            },
            ..st
        };
        match stepped.1 {
            EntryState::Applied => WalkState { applied: base.applied + 1, ..base },
            EntryState::Skipped => WalkState { skipped: base.skipped + 1, ..base },
            EntryState::Resolved => WalkState { resolved: base.resolved + 1, ..base },
            EntryState::Failed => {
                let er = stepped.2->0;
                let w = WalkState {
                    failed: base.failed + 1,
                    errors: base.errors.push((e.path, er)),
                    ..base
                };
                if flags.continue_on_error {
                    w
                } else {
                    WalkState { first_error: Some(er), halted: true, ..w }
                }
            },
        }
    }
}

/// The walk state after the first `i` entries of the listing.
pub open spec fn walk_upto(
    p: PolicyModel,
    root: Seq<u8>,
    meta: Option<FileMeta>,
    flags: Flags,
    s: Seq<FsEntryModel>,
    budget: nat,
    i: int,
) -> WalkState
    decreases i,
{
    if i <= 0 {
        init_state(budget)
    } else {
        step_state(p, root, meta, flags, walk_upto(p, root, meta, flags, s, budget, i - 1), s[i - 1])
    }
}

/// The walk state after the whole listing.
pub open spec fn walk_full(
    p: PolicyModel,
    root: Seq<u8>,
    meta: Option<FileMeta>,
    flags: Flags,
    s: Seq<FsEntryModel>,
    budget: nat,
) -> WalkState {
    walk_upto(p, root, meta, flags, s, budget, s.len() as int)
}

/// The first entry with the given path, if any.
pub open spec fn find_root(s: Seq<FsEntryModel>, root: Seq<u8>) -> Option<FsEntryModel>
    decreases s.len(),
{
    if s.len() == 0 {
        None
    } else if s[0].path == root {
        Some(s[0])
    } else {
        find_root(s.drop_first(), root)
    }
}

/// A found root entry has the root path.
pub proof fn lemma_find_root_path(s: Seq<FsEntryModel>, root: Seq<u8>)
    requires
        find_root(s, root) is Some,
    ensures
        find_root(s, root)->0.path == root,
    decreases s.len(),
{
    if s.len() > 0 && s[0].path != root {
        lemma_find_root_path(s.drop_first(), root);
    }
}

/// The label a completed walk reports for the request root: the root's own
/// resolved label, or, when the root resolves to none, the most recently
/// resolved label of the walk.
pub open spec fn root_label_spec(
    p: PolicyModel,
    root: Seq<u8>,
    meta: Option<FileMeta>,
    flags: Flags,
    s: Seq<FsEntryModel>,
    budget: nat,
) -> Option<Seq<u8>> {
    match find_root(s, root) {
        None => None,
        Some(re) => {
            let rr = resolve_spec(p, root, walk_mode(re, root, meta));
            if rr is Ok && rr->Ok_0 is Some {
                rr->Ok_0
            } else {
                walk_full(p, root, meta, flags, s, budget).last_label
            }
        },
    }
}

/// View of the collected error list.
pub open spec fn errors_view(v: Seq<(Vec<u8>, Error)>) -> Seq<(Seq<u8>, ErrorSpec)> {
    v.map_values(|pe: (Vec<u8>, Error)| (pe.0@, pe.1@))
}

/// Once halted, the walk only carries the remaining entries over unchanged.
pub proof fn lemma_walk_halted(
    p: PolicyModel,
    root: Seq<u8>,
    meta: Option<FileMeta>,
    flags: Flags,
    s: Seq<FsEntryModel>,
    budget: nat,
    i: int,
    j: int,
)
    requires
        0 <= i <= j <= s.len(),
        walk_upto(p, root, meta, flags, s, budget, i).halted,
    ensures
        ({
            let wi = walk_upto(p, root, meta, flags, s, budget, i);
            let wj = walk_upto(p, root, meta, flags, s, budget, j);
            &&& wj == WalkState { entries: wj.entries, ..wi }
            &&& wj.entries == wi.entries + s.subrange(i, j)
        }),
    decreases j - i,
{
    let wi = walk_upto(p, root, meta, flags, s, budget, i);
    if i == j {
        assert(wi.entries + s.subrange(i, j) =~= wi.entries);
        assert(walk_upto(p, root, meta, flags, s, budget, j) == WalkState {
            entries: wi.entries,
            ..wi
        });
    } else {
        lemma_walk_halted(p, root, meta, flags, s, budget, i, j - 1);
        let wj1 = walk_upto(p, root, meta, flags, s, budget, j - 1);
        assert(wj1.halted);
        assert(wi.entries + s.subrange(i, j - 1) + seq![s[j - 1]] =~= wi.entries + s.subrange(
            i,
            j,
        ));
    }
}


/// Copies one listing entry.
fn copy_entry(e: &FsEntry) -> (r: FsEntry)
    ensures
        r@ == e@,
{
    let label = match &e.label {
        Some(l) => Some(copy_bytes(l)),
        None => None,
    };
    FsEntry { path: copy_bytes(&e.path), mode: e.mode, label }
}

/// Duplicates an error value.
fn dup_error(e: Error) -> (r: (Error, Error))
    ensures
        r.0@ == e@,
        r.1@ == e@,
{
    match e {
        Error::NotFound => (Error::NotFound, Error::NotFound),
        Error::PolicyFormat => (Error::PolicyFormat, Error::PolicyFormat),
        Error::UnknownRevision => (Error::UnknownRevision, Error::UnknownRevision),
        Error::InvalidHandle => (Error::InvalidHandle, Error::InvalidHandle),
        Error::InvalidPath => (Error::InvalidPath, Error::InvalidPath),
        Error::PolicyResolution => (Error::PolicyResolution, Error::PolicyResolution),
        Error::Filesystem(p) => {
            let q = copy_bytes(&p);
            (Error::Filesystem(p), Error::Filesystem(q))
        },
        Error::Cancelled => (Error::Cancelled, Error::Cancelled),
    }
}

/// Mode of the first entry with the given path, if any.
fn find_root_mode(entries: &Vec<FsEntry>, root: &Vec<u8>) -> (r: Option<u32>)
    ensures
        match r {
            None => find_root(entries@.map_values(|e: FsEntry| e@), root@) is None,
            Some(m) => {
                let fr = find_root(entries@.map_values(|e: FsEntry| e@), root@);
                fr is Some && fr->0.mode == m
            },
        },
{
    let ghost s = entries@.map_values(|e: FsEntry| e@);
    let mut i: usize = 0;
    proof {
        assert(s.skip(0) =~= s);
    }
    while i < entries.len()
        invariant
            i <= entries.len(),
            s == entries@.map_values(|e: FsEntry| e@),
            s.len() == entries@.len(),
            find_root(s, root@) == find_root(s.skip(i as int), root@),
        decreases entries.len() - i,
    {
        proof {
            assert(s.skip(i as int).len() > 0);
            assert(s.skip(i as int)[0] == s[i as int]);
            assert(s.skip(i as int).drop_first() =~= s.skip(i + 1));
        }
        if bytes_equal(&entries[i].path, root) {
            return Some(entries[i].mode);
        }
        i += 1;
    }
    proof {
        assert(s.skip(s.len() as int) =~= Seq::<FsEntryModel>::empty());
    }
    None
}

/// Processes one in-scope entry: resolves its label and carries out the
/// transition [`step_entry`] prescribes. Also hands back the resolved
/// label, when there is one, for the walk's running "last resolved label".
fn process_entry(policy: &Policy, e: FsEntry, flags: Flags, emode: u32) -> (r: (
    FsEntry,
    EntryState,
    Option<Error>,
    Option<Vec<u8>>,
))
    ensures
        ({
            let stepped = step_entry(policy@, e@, flags, emode);
            let res = resolve_spec(policy@, e@.path, emode);
            &&& r.0@ == stepped.0
            &&& r.1 == stepped.1
            &&& (match r.2 {
                Some(er) => stepped.2 == Some(er@),
                None => stepped.2 is None,
            })
            &&& (match r.3 {
                Some(l) => res is Ok && res->Ok_0 == Some(l@),
                None => !(res is Ok && res->Ok_0 is Some),
            })
        }),
{
    match resolve(policy, &e.path, emode, None) {
        Err(err) => (e, EntryState::Failed, Some(err), None),
        Ok(None) => {
            if flags.allow_no_label {
                (e, EntryState::Skipped, None, None)
            } else {
                (e, EntryState::Failed, Some(Error::PolicyResolution), None)
            }
        },
        Ok(Some(l)) => {
            let already = match &e.label {
                Some(cur) => bytes_equal(cur, &l),
                None => false,
            };
            if !flags.force && already {
                (e, EntryState::Skipped, None, Some(l))
            } else if flags.skip_xattrs {
                (e, EntryState::Resolved, None, Some(l))
            } else {
                let l2 = copy_bytes(&l);
                let e2 = FsEntry { path: e.path, mode: e.mode, label: Some(l) };
                (e2, EntryState::Applied, None, Some(l2))
            }
        },
    }
}

/// Walks the listing and applies the policy's labels.
///
/// With a negative destination handle, or a root path absent from the
/// listing, the walk fails up front with `Filesystem` wrapping the root
/// path and changes nothing. Otherwise the listing afterwards, the poll
/// budget afterwards, and the result are exactly what the walk state
/// machine [`walk_full`] yields: `Cancelled` when the token fired
/// mid-walk (entries already applied stay applied), the first failure when
/// one occurred without `continue_on_error`, and otherwise a report with
/// the per-state counts, the collected per-path errors, and the root label
/// of [`root_label_spec`].
#[verifier::rlimit(100)]
pub fn restorecon(
    policy: &Policy,
    req: &RestoreconRequest,
    entries: &mut Vec<FsEntry>,
    cancel: &mut CancelToken,
) -> (r: Result<RestoreconReport, Error>)
    ensures
        ({
            let s = old(entries)@.map_values(|e: FsEntry| e@);
            let w = walk_full(policy@, req.path@, req.meta, req.flags, s, old(cancel).budget as nat);
            &&& (req.dest_dfd < 0 ==> r is Err && r->Err_0@ == ErrorSpec::Filesystem(req.path@)
                && *final(entries) == *old(entries) && *final(cancel) == *old(cancel))
            &&& (req.dest_dfd >= 0 && find_root(s, req.path@) is None ==> r is Err && r->Err_0@
                == ErrorSpec::Filesystem(req.path@) && *final(entries) == *old(entries)
                && *final(cancel) == *old(cancel))
            &&& (req.dest_dfd >= 0 && find_root(s, req.path@) is Some ==> {
                &&& final(entries)@.map_values(|e: FsEntry| e@) == w.entries
                &&& final(cancel).budget as nat == w.budget
                &&& (w.cancelled ==> r is Err && r->Err_0@ == ErrorSpec::Cancelled)
                &&& (!w.cancelled && w.first_error is Some ==> r is Err && r->Err_0@
                    == w.first_error->0)
                &&& (!w.cancelled && w.first_error is None ==> {
                    &&& r is Ok
                    &&& r->Ok_0.stats.visited as nat == w.visited
                    &&& r->Ok_0.stats.applied as nat == w.applied
                    &&& r->Ok_0.stats.skipped as nat == w.skipped
                    &&& r->Ok_0.stats.resolved as nat == w.resolved
                    &&& r->Ok_0.stats.failed as nat == w.failed
                    &&& errors_view(r->Ok_0.errors@) == w.errors
                    &&& (match r->Ok_0.root_label {
                        Some(l) => root_label_spec(
                            policy@,
                            req.path@,
                            req.meta,
                            req.flags,
                            s,
                            old(cancel).budget as nat,
                        ) == Some(l@),
                        None => root_label_spec(
                            policy@,
                            req.path@,
                            req.meta,
                            req.flags,
                            s,
                            old(cancel).budget as nat,
                        ) is None,
                    })
                })
            })
        }),
{
    let ghost s = entries@.map_values(|e: FsEntry| e@);
    let ghost p = policy@;
    let ghost root = req.path@;
    let ghost meta = req.meta;
    let flags = req.flags;
    let ghost budget0 = cancel.budget as nat;

    if req.dest_dfd < 0 {
        return Err(Error::Filesystem(copy_bytes(&req.path)));
    }
    let root_mode = match find_root_mode(entries, &req.path) {
        None => {
            return Err(Error::Filesystem(copy_bytes(&req.path)));
        },
        Some(m) => m,
    };

    // The root's own resolved label, for the report.
    let root_emode = match req.meta {
        Some(m) => m.mode,
        None => root_mode,
    };
    let root_resolved: Option<Vec<u8>> = match resolve(policy, &req.path, root_emode, None) {
        Ok(Some(l)) => Some(l),
        _ => None,
    };
    proof {
        lemma_find_root_path(s, root);
        let fr = find_root(s, root);
        assert(walk_mode(fr->0, root, meta) == root_emode);
    }

    let mut root_slash = copy_bytes(&req.path);
    root_slash.push(47);

    let mut i: usize = 0;
    let mut visited: usize = 0;
    let mut applied: usize = 0;
    let mut skipped: usize = 0;
    let mut resolved: usize = 0;
    let mut failed: usize = 0;
    let mut errors: Vec<(Vec<u8>, Error)> = Vec::new();
    let mut last_label: Option<Vec<u8>> = None;
    let mut first_err: Option<Error> = None;
    let mut halted: bool = false;
    let mut was_cancelled: bool = false;

    proof {
        assert(errors_view(errors@) =~= Seq::<(Seq<u8>, ErrorSpec)>::empty());
        assert(s.skip(0) =~= s);
    }

    while i < entries.len() && !halted
        invariant
            i <= entries.len(),
            p == policy@,
            root == req.path@,
            meta == req.meta,
            flags == req.flags,
            root_slash@ == root.push(47),
            ({
                let st = walk_upto(p, root, meta, flags, s, budget0, i as int);
                &&& st.entries.len() == i
                &&& entries@.map_values(|e: FsEntry| e@) == st.entries + s.skip(i as int)
                &&& entries@.len() == s.len()
                &&& visited as nat == st.visited
                &&& applied as nat == st.applied
                &&& skipped as nat == st.skipped
                &&& resolved as nat == st.resolved
                &&& failed as nat == st.failed
                &&& errors_view(errors@) == st.errors
                &&& (match last_label {
                    Some(l) => st.last_label == Some(l@),
                    None => st.last_label is None,
                })
                &&& cancel.budget as nat == st.budget
                &&& halted == st.halted
                &&& was_cancelled == st.cancelled
                &&& (match first_err {
                    Some(e) => st.first_error == Some(e@),
                    None => st.first_error is None,
                })
                &&& visited <= i
                &&& applied <= i
                &&& skipped <= i
                &&& resolved <= i
                &&& failed <= i
            }),
        decreases entries.len() - i,
    {
        let ghost st = walk_upto(p, root, meta, flags, s, budget0, i as int);
        proof {
            assert(s.skip(i as int).len() > 0);
            assert(s.skip(i as int)[0] == s[i as int]);
            assert(s.skip(i as int).drop_first() =~= s.skip(i + 1));
            assert(entries@.map_values(|x: FsEntry| x@)[i as int] == entries@[i as int]@);
            assert((st.entries + s.skip(i as int))[i as int] == s[i as int]);
        }
        let ghost before = entries@;
        let e = copy_entry(&entries[i]);
        proof {
            assert(e@ == s[i as int]);
        }
        let is_root = bytes_equal(&e.path, &req.path);
        let scoped = is_root || (flags.recursive && (req.path.len() == 0 || starts_with(
            &e.path,
            &root_slash,
        )));
        proof {
            assert(scoped == in_scope(e@.path, root, flags.recursive));
        }
        if !scoped {
            proof {
                assert(entries@.map_values(|x: FsEntry| x@) =~= st.entries.push(s[i as int])
                    + s.skip(i + 1));
            }
            i += 1;
            continue;
        }
        if cancel.poll() {
            was_cancelled = true;
            halted = true;
            proof {
                assert(entries@.map_values(|x: FsEntry| x@) =~= st.entries.push(s[i as int])
                    + s.skip(i + 1));
            }
            i += 1;
            continue;
        }
        let emode = if is_root && req.meta.is_some() {
            match req.meta {
                Some(m) => m.mode,
                None => e.mode,
            }
        } else {
            e.mode
        };
        proof {
            assert(emode == walk_mode(e@, root, meta));
        }
        let (e2, state, err, label) = process_entry(policy, e, flags, emode);
        let epath = copy_bytes(&e2.path);
        let ghost e2v = e2@;
        entries.set(i, e2);
        proof {
            let stepped = step_entry(p, s[i as int], flags, emode);
            assert(entries@ == before.update(i as int, e2));
            assert forall|j: int| 0 <= j < entries@.len() implies entries@.map_values(
                |x: FsEntry| x@,
            )[j] == #[trigger] (st.entries.push(stepped.0) + s.skip(i + 1))[j] by {
                assert(entries@.map_values(|x: FsEntry| x@)[j] == entries@[j]@);
                if j != i as int {
                    assert(entries@[j] == before[j]);
                    assert(before.map_values(|x: FsEntry| x@)[j] == before[j]@);
                    assert((st.entries + s.skip(i as int))[j] == before[j]@);
                } else {
                    assert(entries@[j]@ == e2v);
                    assert(e2v == stepped.0);
                }
            }
            assert(entries@.map_values(|x: FsEntry| x@) =~= st.entries.push(stepped.0) + s.skip(
                i + 1,
            ));
        }
        visited += 1;
        match label {
            Some(l) => {
                last_label = Some(l);
            },
            None => {},
        }
        match state {
            EntryState::Applied => {
                applied += 1;
            },
            EntryState::Skipped => {
                skipped += 1;
            },
            EntryState::Resolved => {
                resolved += 1;
            },
            EntryState::Failed => {
                failed += 1;
                let er = match err {
                    Some(er) => er,
                    None => Error::PolicyResolution,  // unreachable: a failure carries its error
                };
                let (er_a, er_b) = dup_error(er);
                let ghost old_errors = errors@;
                errors.push((epath, er_a));
                proof {
                    let stepped = step_entry(p, s[i as int], flags, emode);
                    assert(errors_view(errors@) =~= errors_view(old_errors).push(
                        (s[i as int].path, stepped.2->0),
                    ));
                }
                if !flags.continue_on_error {
                    first_err = Some(er_b);
                    halted = true;
                }
            },
        }
        i += 1;
    }

    let ghost wfin = walk_full(p, root, meta, flags, s, budget0);
    proof {
        if halted {
            lemma_walk_halted(p, root, meta, flags, s, budget0, i as int, s.len() as int);
            let wi = walk_upto(p, root, meta, flags, s, budget0, i as int);
            assert(wfin.entries =~= wi.entries + s.subrange(i as int, s.len() as int));
            assert(s.skip(i as int) =~= s.subrange(i as int, s.len() as int));
        } else {
            assert(i == entries.len());
            assert(s.skip(s.len() as int) =~= Seq::<FsEntryModel>::empty());
        }
        assert(entries@.map_values(|e: FsEntry| e@) =~= wfin.entries);
    }

    if was_cancelled {
        return Err(Error::Cancelled);
    }
    match first_err {
        Some(e) => {
            return Err(e);
        },
        None => {},
    }
    let root_label = match root_resolved {
        Some(l) => Some(l),
        None => last_label,
    };
    Ok(
        RestoreconReport {
            root_label,
            stats: RestoreStats { visited, applied, skipped, resolved, failed },
            errors,
        },
    )
}

} // verus!

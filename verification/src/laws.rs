//! Walk-level laws of the restorecon engine, proved against the walk state
//! machine that [`crate::restore::restorecon`]'s contract pins its
//! behaviour to.

use vstd::prelude::*;

use crate::policy::PolicyModel;
use crate::resolve::resolve_spec;
use crate::resolve::FileMeta;
use crate::restore::find_root;
use crate::restore::in_scope;
use crate::restore::root_label_spec;
use crate::restore::step_entry;
use crate::restore::walk_full;
use crate::restore::walk_mode;
use crate::restore::walk_upto;
use crate::restore::EntryState;
use crate::restore::Flags;
use crate::restore::FsEntryModel;
use crate::errors::ErrorSpec;

verus! {

/// How many entries of the listing the walk has in scope.
pub open spec fn count_in_scope(s: Seq<FsEntryModel>, root: Seq<u8>, recursive: bool) -> nat
    decreases s.len(),
{
    if s.len() == 0 {
        0
    } else {
        count_in_scope(s.drop_last(), root, recursive) + if in_scope(
            s.last().path,
            root,
            recursive,
        ) {
            1nat
        } else {
            0nat
        }
    }
}

/// A prefix never has more entries in scope than the whole listing.
pub proof fn lemma_count_take_le(s: Seq<FsEntryModel>, root: Seq<u8>, recursive: bool, i: int)
    requires
        0 <= i <= s.len(),
    ensures
        count_in_scope(s.take(i), root, recursive) <= count_in_scope(s, root, recursive),
    decreases s.len(),
{
    if i == s.len() {
        assert(s.take(i) =~= s);
    } else {
        assert(s.drop_last().take(i) =~= s.take(i));
        lemma_count_take_le(s.drop_last(), root, recursive, i);
    }
}

/// With enough budget and `continue_on_error`, the walk never halts, and
/// it visits exactly the in-scope entries of the prefix, spending one poll
/// on each.
pub proof fn lemma_walk_progress(
    p: PolicyModel,
    root: Seq<u8>,
    meta: Option<FileMeta>,
    flags: Flags,
    s: Seq<FsEntryModel>,
    budget: nat,
    i: int,
)
    requires
        flags.continue_on_error,
        0 <= i <= s.len(),
        budget >= count_in_scope(s.take(i), root, flags.recursive),
    ensures
        ({
            let w = walk_upto(p, root, meta, flags, s, budget, i);
            &&& !w.halted
            &&& !w.cancelled
            &&& w.first_error is None
            &&& w.visited == count_in_scope(s.take(i), root, flags.recursive)
            &&& w.budget == budget - count_in_scope(s.take(i), root, flags.recursive)
        }),
    decreases i,
{
    if i > 0 {
        assert(s.take(i).drop_last() =~= s.take(i - 1));
        assert(s.take(i).last() == s[i - 1]);
        lemma_walk_progress(p, root, meta, flags, s, budget, i - 1);
    } else {
        assert(count_in_scope(s.take(0), root, flags.recursive) == 0) by {
            assert(s.take(0) =~= Seq::<FsEntryModel>::empty());
        }
    }
}

/// The walk visits every in-scope entry of the listing exactly once: with
/// enough budget and `continue_on_error`, the visit count is exactly the
/// number of in-scope entries. Without `recursive`, being in scope is
/// having the root path itself (see [`lemma_scope_non_recursive`]), so a
/// listing whose paths are unique has exactly one entry visited.
pub proof fn lemma_visits_each_in_scope_entry_once(
    p: PolicyModel,
    root: Seq<u8>,
    meta: Option<FileMeta>,
    flags: Flags,
    s: Seq<FsEntryModel>,
    budget: nat,
)
    requires
        flags.continue_on_error,
        budget >= count_in_scope(s, root, flags.recursive),
    ensures
        walk_full(p, root, meta, flags, s, budget).visited == count_in_scope(
            s,
            root,
            flags.recursive,
        ),
        !walk_full(p, root, meta, flags, s, budget).cancelled,
{
    assert(s.take(s.len() as int) =~= s);
    lemma_walk_progress(p, root, meta, flags, s, budget, s.len() as int);
}

/// Without `recursive`, exactly the entries carrying the root path itself
/// are in scope.
pub proof fn lemma_scope_non_recursive(path: Seq<u8>, root: Seq<u8>)
    ensures
        in_scope(path, root, false) == (path == root),
{
}

/// A path with no matching rule is skipped under `allow_no_label` and
/// fails with `PolicyResolution` without it; either way the entry itself
/// is untouched.
pub proof fn lemma_no_label_outcome(p: PolicyModel, e: FsEntryModel, flags: Flags, emode: u32)
    requires
        resolve_spec(p, e.path, emode) == Ok::<Option<Seq<u8>>, ErrorSpec>(None),
    ensures
        ({
            let st = step_entry(p, e, flags, emode);
            &&& st.0 == e
            &&& flags.allow_no_label ==> st.1 == EntryState::Skipped && st.2 is None
            &&& !flags.allow_no_label ==> st.1 == EntryState::Failed && st.2 == Some(
                ErrorSpec::PolicyResolution,
            )
        }),
{
}

/// Once the budget runs dry before the in-scope entries do, the walk is
/// cancelled, having visited exactly as many entries as it had polls —
/// and, the walk state being cumulative, everything applied before the
/// poll that fired stays applied.
pub proof fn lemma_cancellation_halts(
    p: PolicyModel,
    root: Seq<u8>,
    meta: Option<FileMeta>,
    flags: Flags,
    s: Seq<FsEntryModel>,
    budget: nat,
)
    requires
        flags.continue_on_error,
        budget < count_in_scope(s, root, flags.recursive),
    ensures
        walk_full(p, root, meta, flags, s, budget).cancelled,
        walk_full(p, root, meta, flags, s, budget).visited == budget,
        walk_full(p, root, meta, flags, s, budget).first_error is None,
{
    assert(s.take(s.len() as int) =~= s);
    lemma_cancel_ind(p, root, meta, flags, s, budget, s.len() as int);
}

/// Induction core of [`lemma_cancellation_halts`]: as soon as a prefix
/// holds more in-scope entries than the budget, the walk over it ends
/// cancelled with exactly `budget` visits.
proof fn lemma_cancel_ind(
    p: PolicyModel,
    root: Seq<u8>,
    meta: Option<FileMeta>,
    flags: Flags,
    s: Seq<FsEntryModel>,
    budget: nat,
    i: int,
)
    requires
        flags.continue_on_error,
        0 <= i <= s.len(),
        count_in_scope(s.take(i), root, flags.recursive) > budget,
    ensures
        ({
            let w = walk_upto(p, root, meta, flags, s, budget, i);
            &&& w.cancelled
            &&& w.halted
            &&& w.visited == budget
            &&& w.first_error is None
        }),
    decreases i,
{
    assert(i > 0) by {
        if i == 0 {
            assert(s.take(0) =~= Seq::<FsEntryModel>::empty());
        }
    }
    assert(s.take(i).drop_last() =~= s.take(i - 1));
    assert(s.take(i).last() == s[i - 1]);
    let prev_count = count_in_scope(s.take(i - 1), root, flags.recursive);
    if prev_count > budget {
        lemma_cancel_ind(p, root, meta, flags, s, budget, i - 1);
    } else {
        // The poll budget runs out exactly at this in-scope entry.
        assert(in_scope(s[i - 1].path, root, flags.recursive));
        assert(prev_count == budget);
        lemma_walk_progress(p, root, meta, flags, s, budget, i - 1);
    }
}

/// An entry the step has handled once is a fixed point: stepping it again
/// changes nothing and applies nothing, as long as labels are really
/// written (`skip_xattrs` unset) and not forced.
pub proof fn lemma_step_entry_stable(p: PolicyModel, e: FsEntryModel, flags: Flags, emode: u32)
    requires
        !flags.force,
        !flags.skip_xattrs,
    ensures
        ({
            let e1 = step_entry(p, e, flags, emode).0;
            let again = step_entry(p, e1, flags, emode);
            &&& again.0 == e1
            &&& again.1 != EntryState::Applied
        }),
{
}

/// Pointwise shape of the walked listing: an in-scope entry becomes what
/// the step prescribes, any other entry is carried over unchanged.
pub proof fn lemma_walk_entries(
    p: PolicyModel,
    root: Seq<u8>,
    meta: Option<FileMeta>,
    flags: Flags,
    s: Seq<FsEntryModel>,
    budget: nat,
    i: int,
)
    requires
        flags.continue_on_error,
        0 <= i <= s.len(),
        budget >= count_in_scope(s.take(i), root, flags.recursive),
    ensures
        ({
            let w = walk_upto(p, root, meta, flags, s, budget, i);
            &&& w.entries.len() == i
            &&& forall|j: int|
                0 <= j < i ==> #[trigger] w.entries[j] == (if in_scope(
                    s[j].path,
                    root,
                    flags.recursive,
                ) {
                    step_entry(p, s[j], flags, walk_mode(s[j], root, meta)).0
                } else {
                    s[j]
                })
        }),
    decreases i,
{
    if i > 0 {
        assert(s.take(i).drop_last() =~= s.take(i - 1));
        assert(s.take(i).last() == s[i - 1]);
        lemma_walk_entries(p, root, meta, flags, s, budget, i - 1);
        lemma_walk_progress(p, root, meta, flags, s, budget, i - 1);
    } else {
        assert(s.take(0) =~= Seq::<FsEntryModel>::empty());
    }
}

/// Listings equal in paths have the same entries in scope.
pub proof fn lemma_count_paths_equal(
    s1: Seq<FsEntryModel>,
    s2: Seq<FsEntryModel>,
    root: Seq<u8>,
    recursive: bool,
)
    requires
        s1.len() == s2.len(),
        forall|j: int| 0 <= j < s1.len() ==> (#[trigger] s1[j]).path == s2[j].path,
    ensures
        count_in_scope(s1, root, recursive) == count_in_scope(s2, root, recursive),
    decreases s1.len(),
{
    if s1.len() > 0 {
        lemma_count_paths_equal(s1.drop_last(), s2.drop_last(), root, recursive);
    }
}

/// Listings equal in paths and modes agree on their first root entry's
/// path and mode.
pub proof fn lemma_find_root_aligned(s1: Seq<FsEntryModel>, s2: Seq<FsEntryModel>, root: Seq<u8>)
    requires
        s1.len() == s2.len(),
        forall|j: int|
            0 <= j < s1.len() ==> (#[trigger] s1[j]).path == s2[j].path && s1[j].mode
                == s2[j].mode,
    ensures
        find_root(s1, root) is Some <==> find_root(s2, root) is Some,
        find_root(s1, root) is Some ==> find_root(s1, root)->0.path == find_root(s2, root)->0.path
            && find_root(s1, root)->0.mode == find_root(s2, root)->0.mode,
    decreases s1.len(),
{
    if s1.len() > 0 && s1[0].path != root {
        assert(forall|j: int|
            0 <= j < s1.drop_first().len() ==> (#[trigger] s1.drop_first()[j]).path
                == s2.drop_first()[j].path && s1.drop_first()[j].mode == s2.drop_first()[j].mode);
        lemma_find_root_aligned(s1.drop_first(), s2.drop_first(), root);
    }
}

/// Induction core of idempotence: walking the already-walked listing
/// leaves it untouched, applies nothing, and tracks the first walk's
/// running label exactly.
proof fn lemma_idem_ind(
    p: PolicyModel,
    root: Seq<u8>,
    meta: Option<FileMeta>,
    flags: Flags,
    s: Seq<FsEntryModel>,
    b1: nat,
    b2: nat,
    i: int,
)
    requires
        !flags.force,
        !flags.skip_xattrs,
        flags.continue_on_error,
        0 <= i <= s.len(),
        b1 >= count_in_scope(s, root, flags.recursive),
        b2 >= count_in_scope(s, root, flags.recursive),
    ensures
        ({
            let t = walk_full(p, root, meta, flags, s, b1).entries;
            let w1i = walk_upto(p, root, meta, flags, s, b1, i);
            let w2i = walk_upto(p, root, meta, flags, t, b2, i);
            &&& w2i.entries == t.take(i)
            &&& w2i.applied == 0
            &&& w2i.last_label == w1i.last_label
        }),
    decreases i,
{
    let t = walk_full(p, root, meta, flags, s, b1).entries;
    assert(s.take(s.len() as int) =~= s);
    lemma_count_take_le(s, root, flags.recursive, i);
    lemma_walk_entries(p, root, meta, flags, s, b1, s.len() as int);
    assert(t.len() == s.len());
    assert(forall|j: int| 0 <= j < s.len() ==> (#[trigger] t[j]).path == s[j].path && t[j].mode == s[j].mode) by {
        assert forall|j: int| 0 <= j < s.len() implies (#[trigger] t[j]).path == s[j].path
            && t[j].mode == s[j].mode by {
            if in_scope(s[j].path, root, flags.recursive) {
                assert(t[j] == step_entry(p, s[j], flags, walk_mode(s[j], root, meta)).0);
            }
        }
    }
    lemma_count_paths_equal(t, s, root, flags.recursive);
    assert(forall|k: int| 0 <= k <= s.len() ==> #[trigger] count_in_scope(t.take(k), root, flags.recursive)
        == count_in_scope(s.take(k), root, flags.recursive)) by {
        assert forall|k: int| 0 <= k <= s.len() implies #[trigger] count_in_scope(t.take(k), root, flags.recursive)
            == count_in_scope(s.take(k), root, flags.recursive) by {
            assert(forall|j: int| 0 <= j < t.take(k).len() ==> (#[trigger] t.take(k)[j]).path == s.take(k)[j].path);
            lemma_count_paths_equal(t.take(k), s.take(k), root, flags.recursive);
        }
    }
    if i > 0 {
        lemma_idem_ind(p, root, meta, flags, s, b1, b2, i - 1);
        lemma_count_take_le(s, root, flags.recursive, i - 1);
        lemma_walk_progress(p, root, meta, flags, s, b1, i - 1);
        lemma_walk_progress(p, root, meta, flags, t, b2, i - 1);
        assert(s.take(i).drop_last() =~= s.take(i - 1));
        assert(s.take(i).last() == s[i - 1]);
        assert(t.take(i).drop_last() =~= t.take(i - 1));
        assert(t.take(i).last() == t[i - 1]);
        let w1p = walk_upto(p, root, meta, flags, s, b1, i - 1);
        let w2p = walk_upto(p, root, meta, flags, t, b2, i - 1);
        let emode = walk_mode(s[i - 1], root, meta);
        if in_scope(s[i - 1].path, root, flags.recursive) {
            assert(count_in_scope(s.take(i), root, flags.recursive) == count_in_scope(
                s.take(i - 1),
                root,
                flags.recursive,
            ) + 1);
            lemma_count_take_le(s, root, flags.recursive, i);
            assert(w2p.budget > 0);
            assert(t[i - 1] == step_entry(p, s[i - 1], flags, emode).0);
            assert(walk_mode(t[i - 1], root, meta) == emode);
            lemma_step_entry_stable(p, s[i - 1], flags, emode);
            assert(step_entry(p, t[i - 1], flags, emode).0 == t[i - 1]);
            assert(step_entry(p, t[i - 1], flags, emode).1 != EntryState::Applied);
            assert(resolve_spec(p, t[i - 1].path, emode) == resolve_spec(p, s[i - 1].path, emode));
            assert(w2p.entries.push(t[i - 1]) =~= t.take(i));
        } else {
            assert(!in_scope(t[i - 1].path, root, flags.recursive));
            assert(w2p.entries.push(t[i - 1]) =~= t.take(i));
        }
    } else {
        assert(t.take(0) =~= Seq::<FsEntryModel>::empty());
    }
}

/// Idempotence of restorecon: running the walk a second time over the
/// listing the first run produced, with the same policy and flags, applies
/// nothing, changes nothing, and reports the same root label — as long as
/// the first run really wrote labels (`skip_xattrs` unset, `force` unset),
/// kept going past failures, and neither run is cancelled short.
pub proof fn lemma_restorecon_idempotent(
    p: PolicyModel,
    root: Seq<u8>,
    meta: Option<FileMeta>,
    flags: Flags,
    s: Seq<FsEntryModel>,
    b1: nat,
    b2: nat,
)
    requires
        !flags.force,
        !flags.skip_xattrs,
        flags.continue_on_error,
        b1 >= count_in_scope(s, root, flags.recursive),
        b2 >= count_in_scope(s, root, flags.recursive),
    ensures
        ({
            let w1 = walk_full(p, root, meta, flags, s, b1);
            let w2 = walk_full(p, root, meta, flags, w1.entries, b2);
            &&& w2.entries == w1.entries
            &&& w2.applied == 0
            &&& !w2.cancelled
            &&& root_label_spec(p, root, meta, flags, w1.entries, b2) == root_label_spec(
                p,
                root,
                meta,
                flags,
                s,
                b1,
            )
        }),
{
    let w1 = walk_full(p, root, meta, flags, s, b1);
    let t = w1.entries;
    assert(s.take(s.len() as int) =~= s);
    lemma_walk_entries(p, root, meta, flags, s, b1, s.len() as int);
    assert(forall|j: int| 0 <= j < s.len() ==> (#[trigger] t[j]).path == s[j].path && t[j].mode == s[j].mode) by {
        assert forall|j: int| 0 <= j < s.len() implies (#[trigger] t[j]).path == s[j].path
            && t[j].mode == s[j].mode by {
            if in_scope(s[j].path, root, flags.recursive) {
                assert(t[j] == step_entry(p, s[j], flags, walk_mode(s[j], root, meta)).0);
            }
        }
    }
    lemma_count_paths_equal(t, s, root, flags.recursive);
    lemma_idem_ind(p, root, meta, flags, s, b1, b2, s.len() as int);
    assert(t.take(t.len() as int) =~= t);
    assert(t.take(s.len() as int) == t.take(t.len() as int));
    lemma_walk_progress(p, root, meta, flags, t, b2, t.len() as int);
    lemma_find_root_aligned(t, s, root);
    if find_root(s, root) is Some {
        crate::restore::lemma_find_root_path(s, root);
        crate::restore::lemma_find_root_path(t, root);
        let r1 = find_root(s, root);
        let r2 = find_root(t, root);
        assert(walk_mode(r1->0, root, meta) == walk_mode(r2->0, root, meta));
    }
}

/// Every step of the walk settles exactly one entry.
pub proof fn lemma_walk_len(
    p: PolicyModel,
    root: Seq<u8>,
    meta: Option<FileMeta>,
    flags: Flags,
    s: Seq<FsEntryModel>,
    budget: nat,
    i: int,
)
    requires
        0 <= i <= s.len(),
    ensures
        walk_upto(p, root, meta, flags, s, budget, i).entries.len() == i,
    decreases i,
{
    if i > 0 {
        lemma_walk_len(p, root, meta, flags, s, budget, i - 1);
    }
}

/// An entry the walk has settled never changes afterwards.
proof fn lemma_walk_prefix_stable(
    p: PolicyModel,
    root: Seq<u8>,
    meta: Option<FileMeta>,
    flags: Flags,
    s: Seq<FsEntryModel>,
    budget: nat,
    i: int,
    k: int,
)
    requires
        0 <= i <= k <= s.len(),
    ensures
        ({
            let wi = walk_upto(p, root, meta, flags, s, budget, i);
            let wk = walk_upto(p, root, meta, flags, s, budget, k);
            &&& wk.entries.len() >= wi.entries.len()
            &&& forall|j: int|
                0 <= j < wi.entries.len() ==> #[trigger] wk.entries[j] == wi.entries[j]
        }),
    decreases k,
{
    if k > i {
        lemma_walk_prefix_stable(p, root, meta, flags, s, budget, i, k - 1);
    }
}

/// No rollback: an entry the walk had reached before any cancellation
/// keeps exactly what the step gave it — an applied label stays applied —
/// whether or not the token fired later in the walk.
pub proof fn lemma_no_rollback(
    p: PolicyModel,
    root: Seq<u8>,
    meta: Option<FileMeta>,
    flags: Flags,
    s: Seq<FsEntryModel>,
    budget: nat,
    j: int,
)
    requires
        flags.continue_on_error,
        0 <= j < s.len(),
        count_in_scope(s.take(j + 1), root, flags.recursive) <= budget,
    ensures
        ({
            let w = walk_full(p, root, meta, flags, s, budget);
            w.entries[j] == (if in_scope(s[j].path, root, flags.recursive) {
                step_entry(p, s[j], flags, walk_mode(s[j], root, meta)).0
            } else {
                s[j]
            })
        }),
{
    lemma_walk_entries(p, root, meta, flags, s, budget, j + 1);
    lemma_walk_prefix_stable(p, root, meta, flags, s, budget, j + 1, s.len() as int);
}

} // verus!

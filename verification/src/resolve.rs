//! Label resolution: from a policy, a relative path and mode bits to an
//! optional security context.
//!
//! Resolution is pure: it reads nothing but its arguments and writes
//! nothing. The path is first normalized (leading separators stripped,
//! parent-directory escapes rejected), the entry kind is classified from the
//! mode bits, and then the most specific matching rule decides: the rule
//! with the longest matching prefix wins, and among equally long prefixes
//! the one latest in the policy wins. No match is a successful resolution
//! with no label.

use vstd::prelude::*;

use crate::bytes::is_prefix_of;
use crate::bytes::starts_with;
use crate::errors::Error;
use crate::errors::ErrorSpec;
use crate::policy::FileKind;
use crate::policy::Policy;
use crate::policy::PolicyModel;
use crate::policy::Rule;
use crate::policy::RuleModel;

verus! {

/// A pre-fetched metadata snapshot, saving a redundant stat.
#[derive(Clone, Copy, Debug, PartialEq, Eq, Structural)]
pub struct FileMeta {
    pub mode: u32,
}

/// The mode a query is resolved under: the snapshot's when one is given.
pub open spec fn effective_mode(mode: u32, meta: Option<FileMeta>) -> u32 {
    match meta {
        Some(m) => m.mode,
        None => mode,
    }
}

/// Entry kind encoded in the mode bits, or `None` for unrecognized bits.
pub open spec fn kind_of_mode(mode: u32) -> Option<FileKind> {
    let fmt = mode & 0xF000;
    if fmt == 0x8000 {
        Some(FileKind::Regular)
    } else if fmt == 0x4000 {
        Some(FileKind::Directory)
    } else if fmt == 0xA000 {
        Some(FileKind::Symlink)
    } else if fmt == 0x2000 || fmt == 0x6000 {
        Some(FileKind::Device)
    } else if fmt == 0x1000 {
        Some(FileKind::Fifo)
    } else if fmt == 0xC000 {
        Some(FileKind::Socket)
    } else {
        None
    }
}

/// Classifies mode bits.
pub fn classify_mode(mode: u32) -> (r: Option<FileKind>)
    ensures
        r == kind_of_mode(mode),
{
    let fmt = mode & 0xF000;
    if fmt == 0x8000 {
        Some(FileKind::Regular)
    } else if fmt == 0x4000 {
        Some(FileKind::Directory)
    } else if fmt == 0xA000 {
        Some(FileKind::Symlink)
    } else if fmt == 0x2000 || fmt == 0x6000 {
        Some(FileKind::Device)
    } else if fmt == 0x1000 {
        Some(FileKind::Fifo)
    } else if fmt == 0xC000 {
        Some(FileKind::Socket)
    } else {
        None
    }
}

/// The path with every leading separator removed.
pub open spec fn strip_leading(s: Seq<u8>) -> Seq<u8>
    decreases s.len(),
{
    if s.len() > 0 && s[0] == 47 {
        strip_leading(s.drop_first())
    } else {
        s
    }
}

/// A parent-directory component `..` stands at `i`.
pub open spec fn is_dotdot_at(s: Seq<u8>, i: int) -> bool {
    &&& 0 <= i
    &&& i + 2 <= s.len()
    &&& s[i] == 46
    &&& s[i + 1] == 46
    &&& (i == 0 || s[i - 1] == 47)
    &&& (i + 2 == s.len() || s[i + 2] == 47)
}

/// The path holds a parent-directory component.
pub open spec fn has_dotdot(s: Seq<u8>) -> bool {
    exists|i: int| is_dotdot_at(s, i)
}

/// A slash-free prefix pins [`strip_leading`] down to a suffix.
proof fn lemma_strip_leading_at(s: Seq<u8>, k: int)
    requires
        0 <= k <= s.len(),
        forall|j: int| 0 <= j < k ==> s[j] == 47,
        k == s.len() || s[k] != 47,
    ensures
        strip_leading(s) == s.subrange(k, s.len() as int),
    decreases k,
{
    if k == 0 {
        assert(strip_leading(s) =~= s.subrange(0, s.len() as int)) by {
            if s.len() > 0 && s[0] == 47 {
                assert(false);
            } else {
                assert(s =~= s.subrange(0, s.len() as int));
            }
        }
    } else {
        assert(s.len() > 0 && s[0] == 47);
        let t = s.drop_first();
        assert(forall|j: int| 0 <= j < k - 1 ==> t[j] == 47);
        lemma_strip_leading_at(t, k - 1);
        assert(t.subrange(k - 1, t.len() as int) =~= s.subrange(k, s.len() as int));
    }
}

/// Normalizes a relative path: strips leading separators and rejects
/// parent-directory escapes with `InvalidPath`.
pub fn normalize_path(path: &Vec<u8>) -> (r: Result<Vec<u8>, Error>)
    ensures
        match r {
            Ok(v) => v@ == strip_leading(path@) && !has_dotdot(v@),
            Err(e) => e@ == ErrorSpec::InvalidPath && has_dotdot(strip_leading(path@)),
        },
{
    let mut k: usize = 0;
    while k < path.len() && path[k] == 47
        invariant
            k <= path.len(),
            forall|j: int| 0 <= j < k ==> path@[j] == 47,
        decreases path.len() - k,
    {
        k += 1;
    }
    proof {
        lemma_strip_leading_at(path@, k as int);
    }
    let mut v: Vec<u8> = Vec::new();
    let mut i: usize = k;
    while i < path.len()
        invariant
            k <= i <= path.len(),
            v@ == path@.subrange(k as int, i as int),
        decreases path.len() - i,
    {
        v.push(path[i]);
        proof {
            assert(path@.subrange(k as int, i + 1) =~= path@.subrange(k as int, i as int).push(
                path@[i as int],
            ));
        }
        i += 1;
    }
    // Scan for a parent-directory component.
    let n = v.len();
    let mut j: usize = 0;
    while j < n
        invariant
            j <= n,
            n == v@.len(),
            v@ == strip_leading(path@),
            forall|t: int| 0 <= t < j ==> !is_dotdot_at(v@, t),
        decreases n - j,
    {
        if n - j >= 2 && v[j] == 46 && v[j + 1] == 46 && (j == 0 || v[j - 1] == 47) && (j + 2 == n
            || v[j + 2] == 47) {
            proof {
                assert(is_dotdot_at(v@, j as int));
            }
            return Err(Error::InvalidPath);
        }
        proof {
            assert(!is_dotdot_at(v@, j as int));
        }
        j += 1;
    }
    proof {
        assert(forall|t: int| is_dotdot_at(v@, t) ==> 0 <= t < n);
        assert(!has_dotdot(v@));
    }
    Ok(v)
}

/// A rule keyed on a kind admits an entry of exactly that kind; a rule
/// without a kind admits every entry.
pub open spec fn kind_allows(rule_kind: Option<FileKind>, k: Option<FileKind>) -> bool {
    match rule_kind {
        None => true,
        Some(rk) => k == Some(rk),
    }
}

/// The rule applies to a normalized path of the given kind.
pub open spec fn rule_matches(r: RuleModel, path: Seq<u8>, k: Option<FileKind>) -> bool {
    is_prefix_of(r.prefix, path) && kind_allows(r.kind, k)
}

/// The most specific rule that applies: longest prefix wins, later rules
/// win ties.
pub open spec fn best_match(rules: Seq<RuleModel>, path: Seq<u8>, k: Option<FileKind>) -> Option<
    RuleModel,
>
    decreases rules.len(),
{
    if rules.len() == 0 {
        None
    } else {
        let prev = best_match(rules.drop_last(), path, k);
        let last = rules.last();
        if rule_matches(last, path, k) {
            match prev {
                None => Some(last),
                Some(pr) => if last.prefix.len() >= pr.prefix.len() {
                    Some(last)
                } else {
                    Some(pr)
                },
            }
        } else {
            prev
        }
    }
}

/// The label a policy assigns to a normalized path of a kind, if any.
pub open spec fn resolve_rules(p: PolicyModel, path: Seq<u8>, k: Option<FileKind>) -> Option<
    Seq<u8>,
> {
    match best_match(p.rules, path, k) {
        None => None,
        Some(r) => Some(r.label),
    }
}

/// Full resolution including normalization and kind classification.
pub open spec fn resolve_spec(p: PolicyModel, path: Seq<u8>, mode: u32) -> Result<
    Option<Seq<u8>>,
    ErrorSpec,
> {
    let n = strip_leading(path);
    if has_dotdot(n) {
        Err(ErrorSpec::InvalidPath)
    } else {
        Ok(resolve_rules(p, n, kind_of_mode(mode)))
    }
}

/// Relates an exec resolution result to its mathematical shape.
pub open spec fn label_result_view(r: Result<Option<Vec<u8>>, Error>) -> Result<
    Option<Seq<u8>>,
    ErrorSpec,
> {
    match r {
        Ok(None) => Ok(None),
        Ok(Some(v)) => Ok(Some(v@)),
        Err(e) => Err(e@),
    }
}

/// The rule's kind admits the classified kind.
fn kind_allows_exec(rule_kind: Option<FileKind>, k: Option<FileKind>) -> (r: bool)
    ensures
        r == kind_allows(rule_kind, k),
{
    match rule_kind {
        None => true,
        Some(rk) => match k {
            Some(kk) => kk == rk,
            None => false,
        },
    }
}

/// Index of the most specific matching rule, if any.
fn find_best(rules: &Vec<Rule>, path: &Vec<u8>, k: Option<FileKind>) -> (r: Option<usize>)
    ensures
        ({
            let bm = best_match(rules@.map_values(|x: Rule| x@), path@, k);
            match r {
                None => bm is None,
                Some(i) => i < rules.len() && bm == Some(rules@[i as int]@),
            }
        }),
{
    let ghost rv = rules@.map_values(|x: Rule| x@);
    let mut best: Option<usize> = None;
    let mut i: usize = 0;
    proof {
        assert(rv.take(0) =~= Seq::<RuleModel>::empty());
    }
    while i < rules.len()
        invariant
            i <= rules.len(),
            rv == rules@.map_values(|x: Rule| x@),
            rv.len() == rules@.len(),
            forall|t: int| 0 <= t < rv.len() ==> rv[t] == rules@[t]@,
            ({
                let bm = best_match(rv.take(i as int), path@, k);
                match best {
                    None => bm is None,
                    Some(b) => b < i && bm == Some(rules@[b as int]@),
                }
            }),
        decreases rules.len() - i,
    {
        let rule = &rules[i];
        proof {
            assert(rv.take(i + 1).drop_last() =~= rv.take(i as int));
            assert(rv.take(i + 1).last() == rv[i as int]);
        }
        let matches_here = starts_with(path, &rule.prefix) && kind_allows_exec(rule.kind, k);
        if matches_here {
            match best {
                None => {
                    best = Some(i);
                },
                Some(b) => {
                    if rule.prefix.len() >= rules[b].prefix.len() {
                        best = Some(i);
                    }
                },
            }
        }
        i += 1;
    }
    proof {
        assert(rv.take(rules@.len() as int) =~= rv);
    }
    best
}

/// Resolves the security context a policy assigns to a relative path with
/// the given mode bits (overridden by the snapshot's when one is given).
///
/// Pure: reads nothing but its arguments and performs no writes. `Ok(None)`
/// means the policy leaves the path unlabeled, which is not an error.
pub fn resolve(policy: &Policy, relpath: &Vec<u8>, mode: u32, meta: Option<&FileMeta>) -> (r:
    Result<Option<Vec<u8>>, Error>)
    ensures
        label_result_view(r) == resolve_spec(
            policy@,
            relpath@,
            effective_mode(
                mode,
                match meta {
                    Some(m) => Some(*m),
                    None => None,
                },
            ),
        ),
{
    let emode = match meta {
        Some(m) => m.mode,
        None => mode,
    };
    let normalized = match normalize_path(relpath) {
        Ok(v) => v,
        Err(e) => {
            return Err(e);
        },
    };
    let kind = classify_mode(emode);
    match find_best(&policy.rules, &normalized, kind) {
        None => Ok(None),
        Some(i) => {
            let label = crate::bytes::copy_bytes(&policy.rules[i].label);
            Ok(Some(label))
        },
    }
}

/// Resolution depends on the rules alone: two policies with the same rule
/// sequence resolve every query alike, whatever their name, origin,
/// descriptor or checksum. With [`resolve`]'s postcondition pinning its
/// result to `resolve_spec`, identical inputs always yield identical
/// output.
pub proof fn lemma_resolve_pure(p1: PolicyModel, p2: PolicyModel, path: Seq<u8>, mode: u32)
    requires
        p1.rules == p2.rules,
    ensures
        resolve_spec(p1, path, mode) == resolve_spec(p2, path, mode),
{
}

} // verus!

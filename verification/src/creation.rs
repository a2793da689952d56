//! The ambient creation context: the label newly created filesystem
//! entries inherit, as an alternative to a relabeling pass after the fact.
//!
//! The context is a property of the filesystem an operation runs against,
//! deliberately global to it; scoping is the caller's duty. Setting it
//! returns a guard holding the previous context, and releasing the guard
//! restores that context, so a creation batch can be bracketed explicitly.

use vstd::prelude::*;

use crate::errors::Error;
use crate::policy::Policy;
use crate::resolve::resolve;
use crate::resolve::resolve_spec;

verus! {

/// View of an optional label.
pub open spec fn opt_label_view(o: Option<Vec<u8>>) -> Option<Seq<u8>> {
    match o {
        Some(l) => Some(l@),
        None => None,
    }
}

/// The ambient "label for newly created entries" state of a filesystem.
pub struct AmbientContext {
    pub current: Option<Vec<u8>>,
}

impl AmbientContext {
    /// A filesystem starts with no creation context programmed.
    pub fn new() -> (r: AmbientContext)
        ensures
            r.current is None,
    {
        AmbientContext { current: None }
    }
}

/// Token for one programmed creation context, holding what it replaced.
#[derive(Debug)]
pub struct CreationContextGuard {
    pub previous: Option<Vec<u8>>,
}

/// Resolves a label for `path` with `mode` exactly as single-path
/// resolution would, and programs it as the filesystem's creation context;
/// a path the policy leaves unlabeled clears the context. Returns a guard
/// holding the previous context.
///
/// Fails exactly when resolution fails, leaving the context unchanged.
pub fn set_creation_context(
    policy: &Policy,
    path: &Vec<u8>,
    mode: u32,
    ctx: &mut AmbientContext,
) -> (r: Result<CreationContextGuard, Error>)
    ensures
        match resolve_spec(policy@, path@, mode) {
            Err(e) => r is Err && r->Err_0@ == e && *final(ctx) == *old(ctx),
            Ok(lbl) => {
                &&& r is Ok
                &&& opt_label_view(final(ctx).current) == lbl
                &&& opt_label_view(r->Ok_0.previous) == opt_label_view(old(ctx).current)
            },
        },
{
    let label = match resolve(policy, path, mode, None) {
        Ok(l) => l,
        Err(e) => {
            return Err(e);
        },
    };
    let mut next = label;
    core::mem::swap(&mut ctx.current, &mut next);
    Ok(CreationContextGuard { previous: next })
}

/// Releases a creation context: restores the context the guard replaced.
pub fn release_creation_context(guard: CreationContextGuard, ctx: &mut AmbientContext)
    ensures
        final(ctx).current == guard.previous,
{
    ctx.current = guard.previous;
}

} // verus!

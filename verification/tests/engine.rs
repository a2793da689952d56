//! Label resolution and the restorecon walk.

use sepolicy::cancel::CancelToken;
use sepolicy::creation::release_creation_context;
use sepolicy::creation::set_creation_context;
use sepolicy::creation::AmbientContext;
use sepolicy::errors::Error;
use sepolicy::resolve::resolve;
use sepolicy::resolve::FileMeta;
use sepolicy::restore::restorecon;
use sepolicy::restore::Flags;
use sepolicy::restore::FsEntry;
use sepolicy::restore::RestoreconRequest;
use sepolicy::store::load_from_path;
use sepolicy::store::SourceFile;
use sepolicy::store::SourceTree;

const REG: u32 = 0o100644;
const DIR: u32 = 0o040755;
const LNK: u32 = 0o120777;

fn blob(lines: &[&str]) -> Vec<u8> {
    let mut out: Vec<u8> = Vec::new();
    for line in lines {
        out.extend_from_slice(line.as_bytes());
        out.push(b'\n');
    }
    out
}

fn policy_of(lines: &[&str]) -> sepolicy::policy::Policy {
    let tree = SourceTree {
        files: vec![SourceFile { path: b"etc/selinux/policy".to_vec(), data: blob(lines) }],
    };
    let mut cancel = CancelToken::never();
    load_from_path(&tree, &b"/img".to_vec(), &mut cancel).unwrap()
}

fn etc_tree() -> Vec<FsEntry> {
    vec![
        FsEntry { path: b"etc".to_vec(), mode: DIR, label: None },
        FsEntry { path: b"etc/passwd".to_vec(), mode: REG, label: Some(b"L0".to_vec()) },
        FsEntry { path: b"etc/subdir".to_vec(), mode: DIR, label: None },
    ]
}

fn flags(recursive: bool, allow_no_label: bool) -> Flags {
    Flags { recursive, allow_no_label, force: false, skip_xattrs: false, continue_on_error: true }
}

fn request(root: &[u8], f: Flags) -> RestoreconRequest {
    RestoreconRequest { path: root.to_vec(), meta: None, dest_dfd: 3, flags: f }
}

#[test]
fn resolve_is_pure_and_longest_prefix_wins() {
    let p = policy_of(&["etc/ - L_ETC", "etc/ssh/ - L_SSH", "etc/ssh/ f L_SSH_FILE"]);
    let path = b"etc/ssh/sshd_config".to_vec();
    let first = resolve(&p, &path, REG, None).unwrap();
    let second = resolve(&p, &path, REG, None).unwrap();
    // Identical inputs, identical outputs.
    assert_eq!(first, second);
    // Of the matching rules the most specific wins; ties go to the later
    // rule, so the file-keyed ssh rule beats the kind-agnostic one.
    assert_eq!(first, Some(b"L_SSH_FILE".to_vec()));
    assert_eq!(
        resolve(&p, &path, DIR, None).unwrap(),
        Some(b"L_SSH".to_vec())
    );
    assert_eq!(
        resolve(&p, &b"etc/hostname".to_vec(), REG, None).unwrap(),
        Some(b"L_ETC".to_vec())
    );
}

#[test]
fn resolve_strips_leading_separators() {
    let p = policy_of(&["etc/ f L1"]);
    assert_eq!(
        resolve(&p, &b"//etc/passwd".to_vec(), REG, None).unwrap(),
        resolve(&p, &b"etc/passwd".to_vec(), REG, None).unwrap()
    );
}

#[test]
fn resolve_rejects_parent_escapes() {
    let p = policy_of(&["etc/ f L1"]);
    let r = resolve(&p, &b"etc/../shadow".to_vec(), REG, None);
    assert_eq!(r.unwrap_err(), Error::InvalidPath);
}

#[test]
fn resolve_without_match_is_ok_none() {
    let p = policy_of(&["etc/ f L1"]);
    assert_eq!(resolve(&p, &b"usr/bin/sh".to_vec(), REG, None).unwrap(), None);
}

#[test]
fn resolve_uses_snapshot_mode_when_given() {
    let p = policy_of(&["etc/ f L1"]);
    let meta = FileMeta { mode: DIR };
    // The snapshot says "directory", so the file-keyed rule does not match.
    assert_eq!(resolve(&p, &b"etc/passwd".to_vec(), REG, Some(&meta)).unwrap(), None);
}

#[test]
fn resolve_labels_symlinks_themselves() {
    let p = policy_of(&["etc/ l L_LINK", "etc/ f L_FILE"]);
    assert_eq!(
        resolve(&p, &b"etc/mtab".to_vec(), LNK, None).unwrap(),
        Some(b"L_LINK".to_vec())
    );
}

#[test]
fn restorecon_scenario_applies_and_skips() {
    // One rule: regular files under etc/ carry L1. The walk over
    // etc { passwd (regular, L0), subdir (directory) } applies L1 to
    // passwd, skips the unlabeled directories, and reports L1 as the
    // root result.
    let p = policy_of(&["etc/ f L1"]);
    let mut entries = etc_tree();
    let mut cancel = CancelToken::never();
    let req = request(b"etc", flags(true, true));
    let report = restorecon(&p, &req, &mut entries, &mut cancel).unwrap();
    assert_eq!(report.stats.visited, 3);
    assert_eq!(report.stats.applied, 1);
    assert_eq!(report.stats.skipped, 2);
    assert_eq!(report.stats.failed, 0);
    assert_eq!(report.root_label, Some(b"L1".to_vec()));
    assert_eq!(entries[1].label, Some(b"L1".to_vec()));
    assert_eq!(entries[0].label, None);
    assert_eq!(entries[2].label, None);
    assert!(report.errors.is_empty());
}

#[test]
fn restorecon_twice_applies_nothing_the_second_time() {
    let p = policy_of(&["etc/ f L1"]);
    let mut entries = etc_tree();
    let mut cancel = CancelToken::never();
    let req = request(b"etc", flags(true, true));
    let first = restorecon(&p, &req, &mut entries, &mut cancel).unwrap();
    assert_eq!(first.stats.applied, 1);
    let mut cancel2 = CancelToken::never();
    let second = restorecon(&p, &req, &mut entries, &mut cancel2).unwrap();
    assert_eq!(second.stats.applied, 0);
    assert_eq!(second.stats.visited, first.stats.visited);
    assert_eq!(second.root_label, first.root_label);
}

#[test]
fn non_recursive_visits_exactly_the_root() {
    let p = policy_of(&["etc/ f L1"]);
    let mut entries = etc_tree();
    let mut cancel = CancelToken::never();
    let req = request(b"etc", flags(false, true));
    let report = restorecon(&p, &req, &mut entries, &mut cancel).unwrap();
    assert_eq!(report.stats.visited, 1);
    assert_eq!(entries[1].label, Some(b"L0".to_vec()));
}

#[test]
fn no_label_is_skipped_or_failed_by_flag() {
    let p = policy_of(&["etc/ f L1"]);
    // The subdir matches no rule.
    let mut entries = etc_tree();
    let mut cancel = CancelToken::never();
    let allowed = request(b"etc/subdir", flags(false, true));
    let report = restorecon(&p, &allowed, &mut entries, &mut cancel).unwrap();
    assert_eq!(report.stats.skipped, 1);
    assert_eq!(report.stats.failed, 0);

    let mut cancel2 = CancelToken::never();
    let denied = request(b"etc/subdir", flags(false, false));
    let report2 = restorecon(&p, &denied, &mut entries, &mut cancel2).unwrap();
    assert_eq!(report2.stats.failed, 1);
    assert_eq!(report2.errors.len(), 1);
    assert_eq!(report2.errors[0].0, b"etc/subdir".to_vec());
    assert_eq!(report2.errors[0].1, Error::PolicyResolution);
}

#[test]
fn fail_fast_returns_the_first_error() {
    let p = policy_of(&["etc/ f L1"]);
    let mut entries = etc_tree();
    let mut cancel = CancelToken::never();
    let req = RestoreconRequest {
        path: b"etc/subdir".to_vec(),
        meta: None,
        dest_dfd: 3,
        flags: Flags {
            recursive: false,
            allow_no_label: false,
            force: false,
            skip_xattrs: false,
            continue_on_error: false,
        },
    };
    let r = restorecon(&p, &req, &mut entries, &mut cancel);
    assert_eq!(r.unwrap_err(), Error::PolicyResolution);
}

#[test]
fn cancellation_halts_and_keeps_applied_labels() {
    let p = policy_of(&["etc/ f L1"]);
    let mut entries = etc_tree();
    // Two polls answered: etc and etc/passwd are visited, then the token
    // fires at etc/subdir.
    let mut cancel = CancelToken::firing_after(2);
    let req = request(b"etc", flags(true, true));
    let r = restorecon(&p, &req, &mut entries, &mut cancel);
    assert_eq!(r.unwrap_err(), Error::Cancelled);
    // No rollback: the label applied before cancellation stays.
    assert_eq!(entries[1].label, Some(b"L1".to_vec()));
}

#[test]
fn cancellation_before_any_entry_changes_nothing() {
    let p = policy_of(&["etc/ f L1"]);
    let mut entries = etc_tree();
    let mut cancel = CancelToken::firing_after(0);
    let req = request(b"etc", flags(true, true));
    let r = restorecon(&p, &req, &mut entries, &mut cancel);
    assert_eq!(r.unwrap_err(), Error::Cancelled);
    assert_eq!(entries[1].label, Some(b"L0".to_vec()));
}

#[test]
fn dry_run_resolves_but_writes_nothing() {
    let p = policy_of(&["etc/ f L1"]);
    let mut entries = etc_tree();
    let mut cancel = CancelToken::never();
    let req = RestoreconRequest {
        path: b"etc".to_vec(),
        meta: None,
        dest_dfd: 3,
        flags: Flags {
            recursive: true,
            allow_no_label: true,
            force: false,
            skip_xattrs: true,
            continue_on_error: true,
        },
    };
    let report = restorecon(&p, &req, &mut entries, &mut cancel).unwrap();
    assert_eq!(report.stats.resolved, 1);
    assert_eq!(report.stats.applied, 0);
    assert_eq!(entries[1].label, Some(b"L0".to_vec()));
    assert_eq!(report.root_label, Some(b"L1".to_vec()));
}

#[test]
fn force_rewrites_a_matching_label() {
    let p = policy_of(&["etc/ f L0"]);
    let mut entries = etc_tree();
    let mut cancel = CancelToken::never();
    let req = RestoreconRequest {
        path: b"etc/passwd".to_vec(),
        meta: None,
        dest_dfd: 3,
        flags: Flags {
            recursive: false,
            allow_no_label: true,
            force: true,
            skip_xattrs: false,
            continue_on_error: true,
        },
    };
    let report = restorecon(&p, &req, &mut entries, &mut cancel).unwrap();
    // Without force this would be a skip: the label already matches.
    assert_eq!(report.stats.applied, 1);
}

#[test]
fn bad_destination_handle_is_a_filesystem_error() {
    let p = policy_of(&["etc/ f L1"]);
    let mut entries = etc_tree();
    let mut cancel = CancelToken::never();
    let mut req = request(b"etc", flags(true, true));
    req.dest_dfd = -1;
    let r = restorecon(&p, &req, &mut entries, &mut cancel);
    assert_eq!(r.unwrap_err(), Error::Filesystem(b"etc".to_vec()));
}

#[test]
fn missing_root_is_a_filesystem_error() {
    let p = policy_of(&["etc/ f L1"]);
    let mut entries = etc_tree();
    let mut cancel = CancelToken::never();
    let req = request(b"var", flags(true, true));
    let r = restorecon(&p, &req, &mut entries, &mut cancel);
    assert_eq!(r.unwrap_err(), Error::Filesystem(b"var".to_vec()));
}

#[test]
fn root_metadata_snapshot_overrides_the_listing() {
    let p = policy_of(&["etc/ f L1"]);
    let mut entries = etc_tree();
    let mut cancel = CancelToken::never();
    let req = RestoreconRequest {
        path: b"etc/passwd".to_vec(),
        meta: Some(FileMeta { mode: DIR }),
        dest_dfd: 3,
        flags: flags(false, true),
    };
    // The snapshot claims the root is a directory, so the file rule does
    // not match and nothing is applied.
    let report = restorecon(&p, &req, &mut entries, &mut cancel).unwrap();
    assert_eq!(report.stats.applied, 0);
    assert_eq!(report.stats.skipped, 1);
}

#[test]
fn creation_context_set_and_release() {
    let p = policy_of(&["etc/ f L1"]);
    let mut ctx = AmbientContext::new();
    let guard = set_creation_context(&p, &b"etc/passwd".to_vec(), REG, &mut ctx).unwrap();
    assert_eq!(ctx.current, Some(b"L1".to_vec()));
    release_creation_context(guard, &mut ctx);
    assert_eq!(ctx.current, None);
}

#[test]
fn creation_context_clears_on_unlabeled_path() {
    let p = policy_of(&["etc/ f L1"]);
    let mut ctx = AmbientContext::new();
    ctx.current = Some(b"OLD".to_vec());
    let guard = set_creation_context(&p, &b"usr/bin/sh".to_vec(), REG, &mut ctx).unwrap();
    assert_eq!(ctx.current, None);
    assert_eq!(guard.previous, Some(b"OLD".to_vec()));
}

#[test]
fn creation_context_rejects_bad_paths() {
    let p = policy_of(&["etc/ f L1"]);
    let mut ctx = AmbientContext::new();
    ctx.current = Some(b"OLD".to_vec());
    let r = set_creation_context(&p, &b"../etc/passwd".to_vec(), REG, &mut ctx);
    assert_eq!(r.unwrap_err(), Error::InvalidPath);
    assert_eq!(ctx.current, Some(b"OLD".to_vec()));
}

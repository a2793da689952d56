//! Loading policies from the three sources, checksums, and parse errors.

use sepolicy::cancel::CancelToken;
use sepolicy::checksum::digest;
use sepolicy::errors::Error;
use sepolicy::policy::NO_ROOTFS;
use sepolicy::store::load_from_commit;
use sepolicy::store::load_from_path;
use sepolicy::store::load_from_rootfs;
use sepolicy::store::Commit;
use sepolicy::store::Repository;
use sepolicy::store::SourceFile;
use sepolicy::store::SourceTree;

fn blob(lines: &[&str]) -> Vec<u8> {
    let mut out: Vec<u8> = Vec::new();
    for line in lines {
        out.extend_from_slice(line.as_bytes());
        out.push(b'\n');
    }
    out
}

fn tree_with_policy(data: Vec<u8>) -> SourceTree {
    SourceTree {
        files: vec![
            SourceFile { path: b"etc/hostname".to_vec(), data: b"host\n".to_vec() },
            SourceFile { path: b"etc/selinux/policy".to_vec(), data },
        ],
    }
}

#[test]
fn digest_exact_values() {
    assert_eq!(digest(&vec![]), 0);
    assert_eq!(digest(&vec![1]), 1);
    assert_eq!(digest(&vec![2, 3]), 2 * 131 + 3);
}

#[test]
fn load_from_path_reads_policy() {
    let tree = tree_with_policy(blob(&["@targeted", "# comment", "etc/ f L1"]));
    let mut cancel = CancelToken::never();
    let p = load_from_path(&tree, &b"/sysroot".to_vec(), &mut cancel).unwrap();
    assert_eq!(p.name(), &Some(b"targeted".to_vec()));
    assert_eq!(p.origin_path(), &Some(b"/sysroot".to_vec()));
    assert_eq!(p.rootfs_descriptor(), NO_ROOTFS);
    assert!(p.checksum().is_some());
}

#[test]
fn load_from_path_without_policy_is_not_found() {
    let tree = SourceTree {
        files: vec![SourceFile { path: b"etc/hostname".to_vec(), data: b"host\n".to_vec() }],
    };
    let mut cancel = CancelToken::never();
    let r = load_from_path(&tree, &b"/sysroot".to_vec(), &mut cancel);
    assert_eq!(r.unwrap_err(), Error::NotFound);
}

#[test]
fn load_cancelled_before_reading() {
    let tree = tree_with_policy(blob(&["etc/ f L1"]));
    let mut cancel = CancelToken::firing_after(0);
    let r = load_from_path(&tree, &b"/sysroot".to_vec(), &mut cancel);
    assert_eq!(r.unwrap_err(), Error::Cancelled);
}

#[test]
fn unparsable_blob_is_policy_format_error() {
    for bad in [
        blob(&["etc/"]),            // missing kind and label
        blob(&["etc/ x L1"]),       // unknown kind code
        blob(&["@"]),               // empty name
        blob(&["etc/ f "]),         // empty label
        blob(&[" etc/ f L1"]),      // empty prefix
    ] {
        let tree = tree_with_policy(bad);
        let mut cancel = CancelToken::never();
        let r = load_from_path(&tree, &b"/sysroot".to_vec(), &mut cancel);
        assert_eq!(r.unwrap_err(), Error::PolicyFormat);
    }
}

#[test]
fn empty_blob_is_an_unnamed_policy() {
    let tree = tree_with_policy(Vec::new());
    let mut cancel = CancelToken::never();
    let p = load_from_path(&tree, &b"/x".to_vec(), &mut cancel).unwrap();
    assert_eq!(p.name(), &None);
    assert_eq!(p.checksum(), Some(0));
}

#[test]
fn load_from_rootfs_validates_descriptor() {
    let tree = tree_with_policy(blob(&["etc/ f L1"]));
    let mut cancel = CancelToken::never();
    let r = load_from_rootfs(-1, &tree, &mut cancel);
    assert_eq!(r.unwrap_err(), Error::InvalidHandle);
    let p = load_from_rootfs(5, &tree, &mut cancel).unwrap();
    assert_eq!(p.rootfs_descriptor(), 5);
    assert_eq!(p.origin_path(), &None);
}

#[test]
fn load_from_commit_unknown_revision() {
    let repo = Repository {
        commits: vec![Commit {
            rev: b"main".to_vec(),
            tree: tree_with_policy(blob(&["etc/ f L1"])),
        }],
    };
    let mut cancel = CancelToken::never();
    let r = load_from_commit(&repo, &b"nonexistent".to_vec(), &mut cancel);
    // A revision that does not resolve is an unknown revision, never a
    // missing policy.
    assert_eq!(r.unwrap_err(), Error::UnknownRevision);
}

#[test]
fn load_from_commit_without_policy_is_not_found() {
    let repo = Repository {
        commits: vec![Commit {
            rev: b"main".to_vec(),
            tree: SourceTree { files: vec![] },
        }],
    };
    let mut cancel = CancelToken::never();
    let r = load_from_commit(&repo, &b"main".to_vec(), &mut cancel);
    assert_eq!(r.unwrap_err(), Error::NotFound);
}

#[test]
fn checksum_same_for_byte_identical_sources() {
    let data = blob(&["@targeted", "etc/ f L1", "usr/ - L2"]);
    let tree = tree_with_policy(data.clone());
    let repo = Repository {
        commits: vec![Commit { rev: b"main".to_vec(), tree: tree_with_policy(data.clone()) }],
    };
    let mut cancel = CancelToken::never();
    let by_path = load_from_path(&tree, &b"/sysroot".to_vec(), &mut cancel).unwrap();
    let by_rootfs = load_from_rootfs(7, &tree, &mut cancel).unwrap();
    let by_commit = load_from_commit(&repo, &b"main".to_vec(), &mut cancel).unwrap();
    assert!(by_path.checksum().is_some());
    assert_eq!(by_path.checksum(), by_rootfs.checksum());
    assert_eq!(by_path.checksum(), by_commit.checksum());
}

#[test]
fn checksum_differs_for_different_blobs() {
    let t1 = tree_with_policy(blob(&["etc/ f L1"]));
    let t2 = tree_with_policy(blob(&["etc/ f L2"]));
    let mut cancel = CancelToken::never();
    let p1 = load_from_path(&t1, &b"/a".to_vec(), &mut cancel).unwrap();
    let p2 = load_from_path(&t2, &b"/b".to_vec(), &mut cancel).unwrap();
    assert_ne!(p1.checksum(), p2.checksum());
}

#[test]
fn later_name_line_wins() {
    let tree = tree_with_policy(blob(&["@first", "@second", "etc/ f L1"]));
    let mut cancel = CancelToken::never();
    let p = load_from_path(&tree, &b"/x".to_vec(), &mut cancel).unwrap();
    assert_eq!(p.name(), &Some(b"second".to_vec()));
}

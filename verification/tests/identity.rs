use fuser_async::identity::IdentityDirectory;

#[test]
fn root_is_known_from_the_start() {
    let dir = IdentityDirectory::new();
    assert_eq!(dir.len(), 1);
    assert_eq!(dir.path(1), Some("/".to_string()));
    assert_eq!(dir.find("/"), Some(1));
    assert_eq!(dir.path(2), None);
    assert_eq!(dir.path(0), None);
}

#[test]
fn identities_count_up_in_order_of_first_sight() {
    let mut dir = IdentityDirectory::new();
    assert_eq!(dir.get_inode("/a".to_string()), 2);
    assert_eq!(dir.get_inode("/b".to_string()), 3);
    assert_eq!(dir.get_inode("/a/c".to_string()), 4);
    assert_eq!(dir.len(), 4);
    assert_eq!(dir.path(3), Some("/b".to_string()));
    assert_eq!(dir.path(4), Some("/a/c".to_string()));
}

#[test]
fn resolving_again_gives_the_same_identity() {
    let mut dir = IdentityDirectory::new();
    let first = dir.get_inode("/docs/report.pdf".to_string());
    let other = dir.get_inode("/docs".to_string());
    let second = dir.get_inode("/docs/report.pdf".to_string());
    assert_eq!(first, second);
    assert_ne!(first, other);
    assert_eq!(dir.len(), 3);
}

#[test]
fn resolving_the_root_adds_nothing() {
    let mut dir = IdentityDirectory::new();
    assert_eq!(dir.get_inode("/".to_string()), 1);
    assert_eq!(dir.len(), 1);
}

#[test]
fn many_callers_one_path_one_entry() {
    let mut dir = IdentityDirectory::new();
    let mut seen = Vec::new();
    for _ in 0..50 {
        seen.push(dir.get_inode("/shared".to_string()));
    }
    assert!(seen.iter().all(|i| *i == 2));
    assert_eq!(dir.len(), 2);
}

#[test]
fn find_does_not_hand_out_identities() {
    let mut dir = IdentityDirectory::new();
    assert_eq!(dir.find("/x"), None);
    assert_eq!(dir.len(), 1);
    let ino = dir.get_inode("/x".to_string());
    assert_eq!(dir.find("/x"), Some(ino));
}

#[test]
fn paths_differing_in_one_character_get_two_identities() {
    let mut dir = IdentityDirectory::new();
    let a = dir.get_inode("/a".to_string());
    let b = dir.get_inode("/a/".to_string());
    assert_ne!(a, b);
    assert_eq!(dir.path(a), Some("/a".to_string()));
    assert_eq!(dir.path(b), Some("/a/".to_string()));
}

#[test]
fn interleaved_callers_get_the_same_identity() {
    let mut dir = IdentityDirectory::new();
    let mut results = Vec::new();
    for i in 0..16 {
        let shared = dir.get_inode("/shared".to_string());
        let own = dir.get_inode(format!("/own/{}", i % 4));
        results.push((shared, own));
    }
    assert!(results.iter().all(|r| r.0 == results[0].0));
    for (i, r) in results.iter().enumerate() {
        assert_eq!(r.1, results[i % 4].1);
    }
    // the root, the shared path, and four paths of the callers' own
    assert_eq!(dir.len(), 6);
}

use sha2::Digest;

use pkg_diff::registries::{
    check_archive, check_digest, get_registry, Action, CratesRegistry, FetchOrder, Operation, Outcome,
    PackageRecord, Phase, Registry, RegistryError, VersionRecord,
};

fn record(version: &str, seed: u8, yanked: bool) -> VersionRecord {
    VersionRecord { version: version.to_string(), checksum: [seed; 32], yanked }
}

fn serde_package() -> PackageRecord {
    PackageRecord {
        name: "serde".to_string(),
        versions: vec![record("1.0.0", 1, false), record("1.0.1", 2, true), record("1.0.2", 3, false)],
    }
}

fn order(pkg: &str, version: &str, checksum: [u8; 32]) -> FetchOrder {
    FetchOrder {
        pkg: pkg.to_string(),
        version: version.to_string(),
        url: String::new(),
        root: String::new(),
        slot: "b".to_string(),
        checksum,
    }
}

fn finish(a: Action) -> Result<Outcome, RegistryError> {
    match a {
        Action::Finish(r) => r,
        other => panic!("expected the operation to finish, got {:?}", other),
    }
}

#[test]
fn registry_lookup_by_name() {
    assert!(get_registry("crates").is_ok());
    assert!(matches!(get_registry("npm"), Err(RegistryError::UnknownRegistry)));
    assert!(matches!(get_registry(""), Err(RegistryError::UnknownRegistry)));
}

#[test]
fn inspect_starts_with_lookup() {
    let (op, a) = CratesRegistry {}.inspect("serde", "1.0.0");
    assert_eq!(op.phase, Phase::LookingUp);
    assert_eq!(op.requested, vec!["1.0.0".to_string()]);
    assert!(matches!(a, Action::LookUp(ref p) if p == "serde"));
}

#[test]
fn inspect_full_run() {
    let (mut op, _) = CratesRegistry {}.inspect("serde", "1.0.1");
    let a = op.on_lookup(Ok(Some(serde_package())));
    match a {
        Action::Allocate(name, empty_old_slot) => {
            assert!(name.starts_with("pkg-diff-"));
            assert_eq!(name.len(), 21);
            assert!(empty_old_slot);
        }
        other => panic!("expected allocation, got {:?}", other),
    }
    assert_eq!(op.phase, Phase::Allocating);
    let orders = match op.on_allocated(Ok(())) {
        Action::Fetch(orders) => orders,
        other => panic!("expected fetch, got {:?}", other),
    };
    assert_eq!(orders.len(), 1);
    assert_eq!(orders[0].url, "https://crates.io/api/v1/crates/serde/1.0.1/download");
    assert_eq!(orders[0].root, "serde-1.0.1");
    assert_eq!(orders[0].slot, "b");
    assert_eq!(orders[0].checksum, [2u8; 32]);
    assert!(matches!(op.on_fetched(Ok(())), Action::Diff));
    assert!(matches!(op.on_diffed(Ok("diff text".to_string())), Action::Release));
    assert_eq!(op.phase, Phase::Releasing);
    let outcome = finish(op.on_released(Ok(()))).unwrap();
    assert_eq!(outcome.diff, "diff text");
    assert_eq!(outcome.yanked, vec![true]);
    assert_eq!(op.phase, Phase::Done);
}

#[test]
fn compare_full_run() {
    let (mut op, _) = CratesRegistry {}.compare("serde", "1.0.0", "1.0.2");
    assert!(matches!(op.on_lookup(Ok(Some(serde_package()))), Action::Allocate(_, false)));
    let orders = match op.on_allocated(Ok(())) {
        Action::Fetch(orders) => orders,
        other => panic!("expected fetch, got {:?}", other),
    };
    assert_eq!(orders.len(), 2);
    assert_eq!(orders[0].slot, "a");
    assert_eq!(orders[0].root, "serde-1.0.0");
    assert_eq!(orders[0].checksum, [1u8; 32]);
    assert_eq!(orders[1].slot, "b");
    assert_eq!(orders[1].url, "https://crates.io/api/v1/crates/serde/1.0.2/download");
    assert_eq!(orders[1].checksum, [3u8; 32]);
    op.on_fetched(Ok(()));
    op.on_diffed(Ok(String::new()));
    let outcome = finish(op.on_released(Ok(()))).unwrap();
    assert_eq!(outcome.yanked, vec![false, false]);
}

#[test]
fn compare_version_not_found() {
    let (mut op, _) = CratesRegistry {}.compare("serde", "1.0.0", "9.9.9");
    let a = op.on_lookup(Ok(Some(serde_package())));
    assert_eq!(op.phase, Phase::Done);
    match finish(a) {
        Err(RegistryError::NotFound(m)) => assert_eq!(
            m,
            "Version '9.9.9' not found\nAvailable versions:\n\
             <a href=\"/crates/serde/1.0.0\">1.0.0</a>\n\
             <a href=\"/crates/serde/1.0.1\">1.0.1</a>\n\
             <a href=\"/crates/serde/1.0.2\">1.0.2</a>"
        ),
        other => panic!("expected not found, got {:?}", other),
    }
}

#[test]
fn first_missing_version_is_reported() {
    let (mut op, _) = CratesRegistry {}.compare("serde", "0.1.0", "9.9.9");
    match finish(op.on_lookup(Ok(Some(serde_package())))) {
        Err(RegistryError::NotFound(m)) => assert!(m.starts_with("Version '0.1.0' not found\n")),
        other => panic!("expected not found, got {:?}", other),
    }
}

#[test]
fn version_of_package_without_versions() {
    let p = PackageRecord { name: "empty".to_string(), versions: vec![] };
    match CratesRegistry::find_version(&p, "1.0.0") {
        Err(RegistryError::NotFound(m)) => assert_eq!(m, "Version '1.0.0' not found\nAvailable versions:\n"),
        other => panic!("expected not found, got {:?}", other),
    }
}

#[test]
fn first_record_of_a_version_is_used() {
    let p = PackageRecord {
        name: "dup".to_string(),
        versions: vec![record("1.0.0", 7, false), record("1.0.0", 8, true)],
    };
    let v = CratesRegistry::find_version(&p, "1.0.0").unwrap();
    assert_eq!(v.checksum, [7u8; 32]);
}

#[test]
fn package_not_found() {
    let (mut op, _) = CratesRegistry {}.inspect("no-such-crate", "1.0.0");
    match finish(op.on_lookup(Ok(None))) {
        Err(RegistryError::NotFound(m)) => assert_eq!(m, "Crate 'no-such-crate' not found"),
        other => panic!("expected not found, got {:?}", other),
    }
    assert_eq!(op.phase, Phase::Done);
}

#[test]
fn unreadable_index() {
    let (mut op, _) = CratesRegistry {}.inspect("serde", "1.0.0");
    match finish(op.on_lookup(Err("no index".to_string()))) {
        Err(RegistryError::Index(m)) => assert_eq!(m, "no index"),
        other => panic!("expected index error, got {:?}", other),
    }
}

#[test]
fn failed_fetch_releases_workspace() {
    let (mut op, _) = CratesRegistry {}.compare("serde", "1.0.0", "1.0.1");
    op.on_lookup(Ok(Some(serde_package())));
    op.on_allocated(Ok(()));
    let a = op.on_fetched(Err(RegistryError::ChecksumMismatch("Crate serde v1.0.1 checksum mismatch".to_string())));
    assert!(matches!(a, Action::Release));
    match finish(op.on_released(Ok(()))) {
        Err(RegistryError::ChecksumMismatch(m)) => assert_eq!(m, "Crate serde v1.0.1 checksum mismatch"),
        other => panic!("expected checksum mismatch, got {:?}", other),
    }
}

#[test]
fn failed_allocation_releases_workspace() {
    let (mut op, _) = CratesRegistry {}.inspect("serde", "1.0.0");
    op.on_lookup(Ok(Some(serde_package())));
    assert!(matches!(op.on_allocated(Err("disk full".to_string())), Action::Release));
    match finish(op.on_released(Ok(()))) {
        Err(RegistryError::Workspace(m)) => assert_eq!(m, "disk full"),
        other => panic!("expected workspace error, got {:?}", other),
    }
}

#[test]
fn failed_diff_releases_workspace() {
    let (mut op, _) = CratesRegistry {}.inspect("serde", "1.0.0");
    op.on_lookup(Ok(Some(serde_package())));
    op.on_allocated(Ok(()));
    op.on_fetched(Ok(()));
    assert!(matches!(op.on_diffed(Err("git missing".to_string())), Action::Release));
    match finish(op.on_released(Ok(()))) {
        Err(RegistryError::DiffTool(m)) => assert_eq!(m, "git missing"),
        other => panic!("expected diff tool error, got {:?}", other),
    }
}

#[test]
fn failed_release_turns_success_into_error() {
    let (mut op, _) = CratesRegistry {}.inspect("serde", "1.0.0");
    op.on_lookup(Ok(Some(serde_package())));
    op.on_allocated(Ok(()));
    op.on_fetched(Ok(()));
    op.on_diffed(Ok("d".to_string()));
    match finish(op.on_released(Err("busy".to_string()))) {
        Err(RegistryError::Workspace(m)) => assert_eq!(m, "busy"),
        other => panic!("expected workspace error, got {:?}", other),
    }
}

#[test]
fn failed_release_keeps_earlier_error() {
    let (mut op, _) = CratesRegistry {}.inspect("serde", "1.0.0");
    op.on_lookup(Ok(Some(serde_package())));
    op.on_allocated(Ok(()));
    op.on_fetched(Err(RegistryError::Network("timeout".to_string())));
    match finish(op.on_released(Err("busy".to_string()))) {
        Err(RegistryError::Network(m)) => assert_eq!(m, "timeout"),
        other => panic!("expected network error, got {:?}", other),
    }
}

#[test]
fn archive_with_published_digest_is_accepted() {
    let bytes = b"crate archive bytes".to_vec();
    let digest: [u8; 32] = sha2::Sha256::digest(&bytes).into();
    assert!(check_archive(&order("foo", "1.0.0", digest), &bytes).is_ok());
}

#[test]
fn archive_with_one_byte_off_is_rejected() {
    let bytes = b"crate archive bytes".to_vec();
    let mut digest: [u8; 32] = sha2::Sha256::digest(&bytes).into();
    digest[31] ^= 1;
    match check_archive(&order("foo", "1.0.0", digest), &bytes) {
        Err(RegistryError::ChecksumMismatch(m)) => assert_eq!(m, "Crate foo v1.0.0 checksum mismatch"),
        other => panic!("expected checksum mismatch, got {:?}", other),
    }
}

#[test]
fn archive_checked_against_its_own_digest_fails() {
    // the bytes are their own 32-byte "digest": only a hash of them matches
    let bytes = [5u8; 32];
    assert!(check_archive(&order("foo", "1.0.0", bytes), &bytes).is_err());
}

#[test]
fn digest_comparison() {
    let o = order("bar", "2.0.0", [9u8; 32]);
    assert!(check_digest(&o, &[9u8; 32]).is_ok());
    let mut d = [9u8; 32];
    d[0] = 0;
    match check_digest(&o, &d) {
        Err(RegistryError::ChecksumMismatch(m)) => assert_eq!(m, "Crate bar v2.0.0 checksum mismatch"),
        other => panic!("expected checksum mismatch, got {:?}", other),
    }
}

#[test]
fn download_address_and_root() {
    assert_eq!(
        CratesRegistry::download_url("rand", "0.8.5"),
        "https://crates.io/api/v1/crates/rand/0.8.5/download"
    );
    assert_eq!(CratesRegistry::archive_root("rand", "0.8.5"), "rand-0.8.5");
}

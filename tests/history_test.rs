use leaf_generator::catalog::{record_snapshot, ResolvedSnapshot, SnapshotError, SnapshotOutcome};
use leaf_generator::depot::DepotManifest;
use leaf_generator::history::{LatestVersion, MergeError, VersionManifest, VersionManifestEntry};
use leaf_generator::platform::PlatformDepot;
use leaf_generator::release::{apply_release, launcher_is_newer, release_entry, ReleaseError};
use leaf_generator::timestamp::from_depot_manifest_date;
use leaf_generator::version_table::{VersionTable, VersionTableEntry};

fn entry(id: &str, release_time: &str) -> VersionManifestEntry {
    VersionManifestEntry {
        id: id.to_string(),
        url: format!("https://example.invalid/{id}.json"),
        hash: "00".to_string(),
        time: "2025-01-01T00:00:00Z".to_string(),
        release_time: release_time.to_string(),
    }
}

fn empty() -> VersionManifest {
    VersionManifest { latest: LatestVersion { release: None, unstable: None }, versions: Vec::new() }
}

fn ids(m: &VersionManifest) -> Vec<String> {
    m.versions.iter().map(|e| e.id.clone()).collect()
}

fn snapshot(m: &VersionManifest) -> (Option<String>, Option<String>, Vec<(String, String, String)>) {
    (
        m.latest.release.clone(),
        m.latest.unstable.clone(),
        m.versions.iter().map(|e| (e.id.clone(), e.release_time.clone(), e.url.clone())).collect(),
    )
}

#[test]
fn fresh_history_takes_first_release() {
    let mut m = empty();
    let r = m.update(entry("41.78.16", "2024-01-01T00:00:00Z"), "41.78.16");
    assert_eq!(r, Ok(false));
    assert_eq!(m.versions.len(), 1);
    assert_eq!(m.latest.release.as_deref(), Some("41.78.16"));
    assert_eq!(m.latest.unstable, None);
}

#[test]
fn older_republish_is_rejected() {
    let mut stored = entry("41.78.16", "2024-06-01T00:00:00Z");
    let incoming = entry("41.78.16", "2024-01-01T00:00:00Z");
    assert_eq!(stored.update(incoming), Ok(false));
    assert_eq!(stored.release_time, "2024-06-01T00:00:00Z");

    let mut m = empty();
    m.update(entry("41.78.16", "2024-06-01T00:00:00Z"), "41.78.16").unwrap();
    let r = m.update(entry("41.78.16", "2024-01-01T00:00:00Z"), "41.78.16");
    assert_eq!(r, Ok(false));
    assert_eq!(m.versions[0].release_time, "2024-06-01T00:00:00Z");
}

#[test]
fn newer_republish_replaces_entry() {
    let mut stored = entry("41.78.16", "2024-01-01T00:00:00Z");
    let mut incoming = entry("41.78.16", "2024-06-01T00:00:00Z");
    incoming.hash = "ff".to_string();
    assert_eq!(stored.update(incoming), Ok(true));
    assert_eq!(stored.release_time, "2024-06-01T00:00:00Z");
    assert_eq!(stored.hash, "ff");

    let mut other = entry("41.78.15", "2024-01-01T00:00:00Z");
    assert_eq!(other.update(entry("41.78.16", "2025-01-01T00:00:00Z")), Ok(false));
    assert_eq!(other.id, "41.78.15");

    let mut bad = entry("41.78.16", "yesterday");
    assert_eq!(bad.update(entry("41.78.16", "2025-01-01T00:00:00Z")), Err(MergeError::InvalidReleaseTime));
}

#[test]
fn merging_twice_changes_once() {
    let mut m = empty();
    m.update(entry("41.78.16", "2024-01-01T00:00:00Z"), "41.78.16").unwrap();
    m.update(entry("41.50.0", "2023-01-01T00:00:00Z"), "41.50.0").unwrap();
    m.update(entry("42.0.0-unstable.1", "2024-03-01T00:00:00Z"), "42.0.0-unstable.1").unwrap();
    let e = entry("41.60.0", "2023-06-01T00:00:00Z");
    let first = m.update(e.clone(), "41.60.0");
    assert_eq!(first, Ok(true));
    let after_first = snapshot(&m);
    let second = m.update(e, "41.60.0");
    assert_eq!(second, Ok(false));
    assert_eq!(snapshot(&m), after_first);
}

#[test]
fn history_stays_newest_first() {
    let mut m = empty();
    let order = ["41.78.16", "41.50.0", "42.0.0-unstable.25057", "41.60.0", "42.1.0", "41.78.0", "1.0.0"];
    for v in order {
        m.update(entry(v, "2024-01-01T00:00:00Z"), v).unwrap();
        assert!(m.check());
        let parsed: Vec<semver::Version> = m.versions.iter().map(|e| e.id.parse().unwrap()).collect();
        assert!(parsed.windows(2).all(|w| w[0] > w[1]));
    }
    assert_eq!(
        ids(&m),
        vec!["42.1.0", "42.0.0-unstable.25057", "41.78.16", "41.78.0", "41.60.0", "41.50.0", "1.0.0"]
    );
}

#[test]
fn unstable_versions_route_to_their_own_slot() {
    let mut latest = LatestVersion { release: Some("41.78.16".to_string()), unstable: None };
    assert_eq!(latest.update("42.0.0-unstable.25057"), Ok(true));
    assert_eq!(latest.release.as_deref(), Some("41.78.16"));
    assert_eq!(latest.unstable.as_deref(), Some("42.0.0-unstable.25057"));
    assert_eq!(latest.update("41.78.17"), Ok(true));
    assert_eq!(latest.release.as_deref(), Some("41.78.17"));
    assert_eq!(latest.unstable.as_deref(), Some("42.0.0-unstable.25057"));
    assert_eq!(latest.update("41.0.0"), Ok(false));
    assert_eq!(latest.release.as_deref(), Some("41.78.17"));
    assert_eq!(latest.update("not a version"), Err(MergeError::InvalidVersion));

    let fresh = LatestVersion::new("42.0.0-unstable.1".to_string());
    assert_eq!(fresh.release, None);
    assert_eq!(fresh.unstable.as_deref(), Some("42.0.0-unstable.1"));
    let stable = LatestVersion::new("41.78.16".to_string());
    assert_eq!(stable.release.as_deref(), Some("41.78.16"));
    assert_eq!(stable.unstable, None);

    let mut l = LatestVersion { release: None, unstable: None };
    *l.target("42.0.0-unstable.2") = Some("x".to_string());
    assert_eq!(l.unstable.as_deref(), Some("x"));
    assert_eq!(l.release, None);
}

#[test]
fn add_places_in_order_and_refuses_duplicates() {
    let mut m = empty();
    m.add(entry("41.78.16", "2024-01-01T00:00:00Z")).unwrap();
    m.add(entry("42.0.0", "2024-01-01T00:00:00Z")).unwrap();
    m.add(entry("41.0.0", "2024-01-01T00:00:00Z")).unwrap();
    m.add(entry("41.50.0", "2024-01-01T00:00:00Z")).unwrap();
    assert_eq!(ids(&m), vec!["42.0.0", "41.78.16", "41.50.0", "41.0.0"]);
    assert_eq!(m.add(entry("41.50.0", "2025-01-01T00:00:00Z")), Err(MergeError::DuplicateVersion));
    assert_eq!(m.add(entry("forty-one", "2025-01-01T00:00:00Z")), Err(MergeError::InvalidVersion));
    assert_eq!(m.versions.len(), 4);
}

#[test]
fn check_rejects_out_of_order_history() {
    let mut m = empty();
    m.versions.push(entry("41.0.0", "2024-01-01T00:00:00Z"));
    m.versions.push(entry("42.0.0", "2024-01-01T00:00:00Z"));
    assert!(!m.check());
    let mut n = empty();
    n.latest.release = Some("latest".to_string());
    assert!(!n.check());
    assert!(empty().check());
}

#[test]
fn release_entry_and_apply_release() {
    let e = release_entry(
        &PlatformDepot::LinuxClient,
        "41.78.16",
        &b"abc".to_vec(),
        "2025-01-01T00:00:00Z".to_string(),
        "12/17/2024 17:50:27",
    )
    .unwrap();
    assert_eq!(e.id, "41.78.16");
    assert_eq!(e.url, "https://github.com/aoqia194/leaf/raw/refs/heads/main/manifests/client/linux/41.78.16.json");
    assert_eq!(e.hash, "a9993e364706816aba3e25717850c26c9cd0d89d");
    assert_eq!(e.release_time, "2024-12-17T17:50:27Z");
    assert_eq!(
        release_entry(&PlatformDepot::LinuxClient, "41.78.16", &Vec::new(), String::new(), "12/17/2024 17:50:27")
            .unwrap_err(),
        ReleaseError::EmptyLauncherManifest
    );
    assert_eq!(
        release_entry(&PlatformDepot::LinuxClient, "41.78.16", &b"x".to_vec(), String::new(), "soon").unwrap_err(),
        ReleaseError::InvalidManifestDate
    );

    let m = apply_release(None, e.clone(), "41.78.16").unwrap();
    assert_eq!(m.versions.len(), 1);
    assert_eq!(m.latest.release.as_deref(), Some("41.78.16"));
    let m = apply_release(Some(m), entry("42.0.0-unstable.3", "2025-01-01T00:00:00Z"), "42.0.0-unstable.3").unwrap();
    assert_eq!(ids(&m), vec!["42.0.0-unstable.3", "41.78.16"]);
    assert_eq!(m.latest.unstable.as_deref(), Some("42.0.0-unstable.3"));
    assert_eq!(apply_release(None, entry("v1", "2025-01-01T00:00:00Z"), "v1").unwrap_err(), MergeError::InvalidVersion);
    let mut unordered = empty();
    unordered.versions.push(entry("41.0.0", "2024-01-01T00:00:00Z"));
    unordered.versions.push(entry("42.0.0", "2024-01-01T00:00:00Z"));
    assert_eq!(
        apply_release(Some(unordered), entry("43.0.0", "2025-01-01T00:00:00Z"), "43.0.0").unwrap_err(),
        MergeError::InvalidHistory
    );
}

#[test]
fn launcher_manifest_staleness() {
    let date = from_depot_manifest_date("12/17/2024 17:50:27").unwrap();
    assert_eq!(launcher_is_newer("2024-12-18T00:00:00Z", &date), Some(true));
    assert_eq!(launcher_is_newer("2024-12-17T17:50:27Z", &date), Some(false));
    assert_eq!(launcher_is_newer("garbage", &date), None);
}

fn manifest(id: u64, date: &str) -> DepotManifest {
    DepotManifest {
        depot_id: 108602,
        manifest_id: id,
        manifest_date: date.to_string(),
        num_files: 0,
        num_chunks: 0,
        bytes_disk: 0,
        bytes_compressed: 0,
        entries: Vec::new(),
    }
}

#[test]
fn catalog_keeps_latest_build_per_version() {
    let table = VersionTable {
        versions: vec![VersionTableEntry {
            id: "41.78.16".to_string(),
            arguments: None,
            inherits: None,
            main_class: None,
            manifests: vec![1, 2, 3],
        }],
    };
    let mut kept: Vec<ResolvedSnapshot> = Vec::new();
    assert_eq!(record_snapshot(&mut kept, &table, manifest(9, "01/01/2024 00:00:00")), Ok(SnapshotOutcome::Unresolved));
    assert!(kept.is_empty());
    assert_eq!(record_snapshot(&mut kept, &table, manifest(1, "01/02/2024 00:00:00")), Ok(SnapshotOutcome::Kept));
    assert_eq!(record_snapshot(&mut kept, &table, manifest(2, "01/01/2024 00:00:00")), Ok(SnapshotOutcome::Superseded));
    assert_eq!(kept[0].manifest.manifest_id, 1);
    assert_eq!(record_snapshot(&mut kept, &table, manifest(3, "01/03/2024 00:00:00")), Ok(SnapshotOutcome::Kept));
    assert_eq!(kept.len(), 1);
    assert_eq!(kept[0].manifest.manifest_id, 3);
    assert_eq!(kept[0].version, "41.78.16");
    assert_eq!(record_snapshot(&mut kept, &table, manifest(3, "someday")), Err(SnapshotError::InvalidManifestDate));
}

//! Choosing, among the depot snapshots of one depot, the one to publish for
//! each game version: the latest build of that version.

use vstd::prelude::*;
use crate::depot::DepotManifest;
use crate::text::same_text;
use crate::timestamp::{from_depot_manifest_date, is_later, parsed_datetime, Timestamp, DT_FMT_MANIFEST};
use crate::version_table::{first_listing, get_game_version, VersionTable};

verus! {

broadcast use vstd::string::group_string_axioms;

/// A depot snapshot with the game version it belongs to.
#[derive(Clone, Debug)]
pub struct ResolvedSnapshot {
    pub version: String,
    pub manifest: DepotManifest,
}

/// What became of a snapshot offered to the catalog.
#[derive(Clone, Copy, Debug, PartialEq, Eq, Structural)]
pub enum SnapshotOutcome {
    /// No version of the table lists the snapshot; it is skipped.
    Unresolved,
    /// The snapshot is the first, or the latest build, of its version.
    Kept,
    /// A build of its version at least as recent is already kept.
    Superseded,
}

/// Why a snapshot could not be placed.
#[derive(Clone, Copy, Debug, PartialEq, Eq, Structural)]
pub enum SnapshotError {
    /// A report date cannot be read.
    InvalidManifestDate,
}

/// A depot report date, read.
pub open spec fn depot_date(s: Seq<char>) -> Option<Timestamp> {
    parsed_datetime(s, DT_FMT_MANIFEST@)
}

/// The first index of a kept snapshot of version `v`.
pub open spec fn snapshot_of(s: Seq<ResolvedSnapshot>, v: Seq<char>, i: int) -> Option<int>
    decreases s.len() - i,
{
    if i < 0 || i >= s.len() {
        None
    } else if s[i].version@ == v {
        Some(i)
    } else {
        snapshot_of(s, v, i + 1)
    }
}

/// Placing a resolved snapshot dated `d` of version `v`: added when `v` has
/// no kept snapshot, put in place of the kept one when built later, left out
/// otherwise.
pub open spec fn placed(
    old_s: Seq<ResolvedSnapshot>,
    table: &VersionTable,
    manifest: DepotManifest,
    r: Result<SnapshotOutcome, SnapshotError>,
    fin: Seq<ResolvedSnapshot>,
) -> bool {
    let d = depot_date(manifest.manifest_date@)->Some_0;
    let v = table.versions@[first_listing(table.versions@, manifest.manifest_id, 0)->Some_0].id@;
    match snapshot_of(old_s, v, 0) {
        None => {
            &&& r == Ok::<SnapshotOutcome, SnapshotError>(SnapshotOutcome::Kept)
            &&& fin.len() == old_s.len() + 1
            &&& fin.take(old_s.len() as int) == old_s
            &&& fin.last().version@ == v
            &&& fin.last().manifest == manifest
        },
        Some(j) => match depot_date(old_s[j].manifest.manifest_date@) {
            None => r == Err::<SnapshotOutcome, SnapshotError>(SnapshotError::InvalidManifestDate)
                && fin == old_s,
            Some(e) => if is_later(d, e) {
                &&& r == Ok::<SnapshotOutcome, SnapshotError>(SnapshotOutcome::Kept)
                &&& fin.len() == old_s.len()
                &&& forall|k: int| 0 <= k < old_s.len() && k != j ==> #[trigger] fin[k] == old_s[k]
                &&& fin[j].version@ == v
                &&& fin[j].manifest == manifest
            } else {
                r == Ok::<SnapshotOutcome, SnapshotError>(SnapshotOutcome::Superseded) && fin
                    == old_s
            },
        },
    }
}

/// Offers a parsed snapshot to the catalog of kept snapshots: it is skipped
/// when the table does not resolve it, kept when its version has no kept
/// snapshot yet or only an older build, and dropped otherwise.
pub fn record_snapshot(
    snapshots: &mut Vec<ResolvedSnapshot>,
    table: &VersionTable,
    manifest: DepotManifest,
) -> (r: Result<SnapshotOutcome, SnapshotError>)
    ensures
        depot_date(manifest.manifest_date@) is None ==> r == Err::<SnapshotOutcome, SnapshotError>(
            SnapshotError::InvalidManifestDate,
        ) && final(snapshots)@ == old(snapshots)@,
        depot_date(manifest.manifest_date@) is Some && first_listing(
            table.versions@,
            manifest.manifest_id,
            0,
        ) is None ==> r == Ok::<SnapshotOutcome, SnapshotError>(SnapshotOutcome::Unresolved)
            && final(snapshots)@ == old(snapshots)@,
        depot_date(manifest.manifest_date@) is Some && first_listing(table.versions@, manifest.manifest_id, 0) is Some
            ==> placed(old(snapshots)@, table, manifest, r, final(snapshots)@),
{
    let date = match from_depot_manifest_date(manifest.manifest_date.as_str()) {
        Some(d) => d,
        None => return Err(SnapshotError::InvalidManifestDate),
    };
    let version = match get_game_version(table, &manifest) {
        Some(v) => v,
        None => return Ok(SnapshotOutcome::Unresolved),
    };
    let ghost old_s = snapshots@;
    let mut j: usize = 0;
    let mut found = false;
    while !found && j < snapshots.len()
        invariant
            snapshots@ == old_s,
            j <= snapshots.len(),
            found ==> j < snapshots.len() && snapshot_of(old_s, version@, 0) == Some(j as int),
            !found ==> snapshot_of(old_s, version@, 0) == snapshot_of(old_s, version@, j as int),
        decreases snapshots.len() - j + if found { 0int } else { 1int },
    {
        if same_text(snapshots[j].version.as_str(), version.as_str()) {
            found = true;
        } else {
            j = j + 1;
        }
    }
    if !found {
        snapshots.push(ResolvedSnapshot { version, manifest });
        assert(snapshots@.take(old_s.len() as int) =~= old_s);
        return Ok(SnapshotOutcome::Kept);
    }
    let kept = match from_depot_manifest_date(snapshots[j].manifest.manifest_date.as_str()) {
        Some(d) => d,
        None => return Err(SnapshotError::InvalidManifestDate),
    };
    if date.later_than(&kept) {
        snapshots.set(j, ResolvedSnapshot { version, manifest });
        Ok(SnapshotOutcome::Kept)
    } else {
        Ok(SnapshotOutcome::Superseded)
    }
}

} // verus!

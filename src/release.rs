//! The records published for a release: where its files live, the digests
//! of those files, and the history entry that announces it.

use vstd::prelude::*;
use sha1::Digest;
use crate::history::{
    merge, with_slot, HistoryView, LatestView, MergeError, ReleaseView, VersionManifest,
    VersionManifestEntry,
};
use crate::platform::{spec_platform_env, spec_platform_name, PlatformDepot};
use crate::semantic::{is_semver, semver_valid};
use crate::timestamp::{
    digit_char, from_leaf_manifest_date, is_later, leaf_renderable, leaf_text, parsed_datetime,
    release_time_of, Timestamp, DT_FMT_8601, DT_FMT_MANIFEST,
};

verus! {

broadcast use vstd::string::group_string_axioms;

/// Where asset indexes are published.
pub const INDEXES_URL: &'static str = "https://github.com/aoqia194/leaf/raw/refs/heads/main/indexes";

/// Where launcher manifests and release histories are published.
pub const MANIFESTS_URL: &'static str = "https://github.com/aoqia194/leaf/raw/refs/heads/main/manifests";

/// The address of a version's file under `base`:
/// `<base>/<env>/<platform>/<version>.json`.
pub open spec fn published_url(base: Seq<char>, p: PlatformDepot, version: Seq<char>) -> Seq<char> {
    base + "/"@ + spec_platform_env(p) + "/"@ + spec_platform_name(p) + "/"@ + version + ".json"@
}

/// Builds `<base>/<env>/<platform>/<version>.json`.
pub fn published_url_of(base: &str, platform: &PlatformDepot, version: &str) -> (r: String)
    ensures
        r@ == published_url(base@, *platform, version@),
{
    let mut s = String::from_str(base);
    s.append("/");
    s.append(platform.env());
    s.append("/");
    s.append(platform.name());
    s.append("/");
    s.append(version);
    s.append(".json");
    s
}

/// The SHA-1 digest of some bytes, as sha1's `Sha1::digest` computes it.
pub uninterp spec fn sha1_of(data: Seq<u8>) -> Seq<u8>;

/// Relies on sha1's `Sha1::digest`: the twenty-byte SHA-1 digest of `data`.
#[verifier::external_body]
fn sha1_digest(data: &[u8]) -> (r: Vec<u8>)
    ensures
        r@ == sha1_of(data@),
        r@.len() == 20,
{
    sha1::Sha1::digest(data).to_vec()
}

/// The lower-case hexadecimal digit of a value below sixteen.
pub open spec fn hex_digit(n: int) -> char {
    if n < 10 {
        digit_char(n)
    } else if n == 10 {
        'a'
    } else if n == 11 {
        'b'
    } else if n == 12 {
        'c'
    } else if n == 13 {
        'd'
    } else if n == 14 {
        'e'
    } else {
        'f'
    }
}

/// Bytes in lower-case hexadecimal, two digits each, high half first.
pub open spec fn hex_text(b: Seq<u8>) -> Seq<char>
    decreases b.len(),
{
    if b.len() == 0 {
        Seq::empty()
    } else {
        hex_text(b.drop_last()) + seq![hex_digit(b.last() as int / 16), hex_digit(b.last() as int % 16)]
    }
}

/// Relies on base16ct's `lower::encode_string`: the bytes in lower-case
/// hexadecimal, two digits each, high half first.
#[verifier::external_body]
fn hex_lower(b: &[u8]) -> (r: String)
    requires
        b@.len() <= usize::MAX / 2,
    ensures
        r@ == hex_text(b@),
{
    base16ct::lower::encode_string(b)
}

/// The lower-case hexadecimal SHA-1 digest of a file's bytes.
pub fn file_digest(data: &Vec<u8>) -> (r: String)
    ensures
        r@ == hex_text(sha1_of(data@)),
{
    let d = sha1_digest(data.as_slice());
    hex_lower(d.as_slice())
}

/// Where the launcher manifest finds its asset index, and how to check it.
#[derive(Clone, Debug)]
pub struct LauncherManifestAssetIndex {
    pub sha1: String,
    pub size: u64,
    pub url: String,
}

/// The asset index pointer of a version, from the bytes of its asset index.
pub fn asset_index_pointer(platform: &PlatformDepot, version: &str, asset_index: &Vec<u8>) -> (r:
    LauncherManifestAssetIndex)
    requires
        asset_index.len() <= u64::MAX,
    ensures
        r.sha1@ == hex_text(sha1_of(asset_index@)),
        r.size == asset_index.len(),
        r.url@ == published_url(INDEXES_URL@, *platform, version@),
{
    LauncherManifestAssetIndex {
        sha1: file_digest(asset_index),
        size: asset_index.len() as u64,
        url: published_url_of(INDEXES_URL, platform, version),
    }
}

/// Why a release record could not be made.
#[derive(Clone, Copy, Debug, PartialEq, Eq, Structural)]
pub enum ReleaseError {
    /// The launcher manifest to announce is empty.
    EmptyLauncherManifest,
    /// The depot report date cannot be read or written in ISO-8601.
    InvalidManifestDate,
}

/// The history entry that announces version `version` of a platform, from
/// the bytes of its launcher manifest, the time now, and the report date of
/// its depot snapshot.
pub fn release_entry(
    platform: &PlatformDepot,
    version: &str,
    launcher_manifest: &Vec<u8>,
    now: String,
    manifest_date: &str,
) -> (r: Result<VersionManifestEntry, ReleaseError>)
    ensures
        launcher_manifest.len() == 0 ==> r == Err::<VersionManifestEntry, ReleaseError>(
            ReleaseError::EmptyLauncherManifest,
        ),
        launcher_manifest.len() > 0 ==> match parsed_datetime(manifest_date@, DT_FMT_MANIFEST@) {
            Some(t) => if leaf_renderable(t) {
                r matches Ok(e) && e.id@ == version@ && e.url@ == published_url(
                    MANIFESTS_URL@,
                    *platform,
                    version@,
                ) && e.hash@ == hex_text(sha1_of(launcher_manifest@)) && e.time@ == now@
                    && e.release_time@ == leaf_text(t)
            } else {
                r == Err::<VersionManifestEntry, ReleaseError>(ReleaseError::InvalidManifestDate)
            },
            None => r == Err::<VersionManifestEntry, ReleaseError>(
                ReleaseError::InvalidManifestDate,
            ),
        },
{
    if launcher_manifest.len() == 0 {
        return Err(ReleaseError::EmptyLauncherManifest);
    }
    let release_time = match release_time_of(manifest_date) {
        Some(s) => s,
        None => return Err(ReleaseError::InvalidManifestDate),
    };
    Ok(
        VersionManifestEntry {
            id: String::from_str(version),
            url: published_url_of(MANIFESTS_URL, platform, version),
            hash: file_digest(launcher_manifest),
            time: now,
            release_time,
        },
    )
}

/// Whether `r` is what merging `entry` of version `v` into `m` gives.
pub open spec fn merge_outcome(
    m: HistoryView,
    entry: ReleaseView,
    v: Seq<char>,
    r: Result<VersionManifest, MergeError>,
) -> bool {
    match merge(m, entry, v).0 {
        Ok(_) => r matches Ok(f) && f@ == merge(m, entry, v).1,
        Err(e) => r == Err::<VersionManifest, MergeError>(e),
    }
}

/// The history after publishing `entry` as version `version`: a new history
/// holding only it where there was none, else the existing history, which
/// must keep its invariant, merged with it.
pub fn apply_release(existing: Option<VersionManifest>, entry: VersionManifestEntry, version: &str) -> (r:
    Result<VersionManifest, MergeError>)
    requires
        entry.id@ == version@,
    ensures
        !semver_valid(version@) ==> r == Err::<VersionManifest, MergeError>(MergeError::InvalidVersion),
        r matches Ok(m) ==> m.wf(),
        (semver_valid(version@) && existing is None) ==> (r matches Ok(m) && m@.versions == seq![entry@]
            && m.latest@ == with_slot((LatestView { release: None, unstable: None }), version@)),
        existing matches Some(m) ==> (semver_valid(version@) && !m.wf() ==> r == Err::<
            VersionManifest,
            MergeError,
        >(MergeError::InvalidHistory)),
        existing matches Some(m) ==> (semver_valid(version@) && m.wf() ==> merge_outcome(
            m@,
            entry@,
            version@,
            r,
        )),
{
    if !is_semver(version) {
        return Err(MergeError::InvalidVersion);
    }
    match existing {
        None => Ok(VersionManifest::first_release(entry)),
        Some(mut m) => {
            if !m.check() {
                return Err(MergeError::InvalidHistory);
            }
            match m.update(entry, version) {
                Ok(_) => Ok(m),
                Err(e) => Err(e),
            }
        },
    }
}

/// Whether an existing launcher manifest, released at `existing_release_time`,
/// is newer than a depot snapshot dated `manifest_date` and so stays; nothing
/// when the existing release time cannot be read.
pub fn launcher_is_newer(existing_release_time: &str, manifest_date: &Timestamp) -> (r: Option<bool>)
    ensures
        match parsed_datetime(existing_release_time@, DT_FMT_8601@) {
            Some(t) => r == Some(is_later(t, *manifest_date)),
            None => r is None,
        },
{
    match from_leaf_manifest_date(existing_release_time) {
        Some(t) => Some(t.later_than(manifest_date)),
        None => None,
    }
}

} // verus!

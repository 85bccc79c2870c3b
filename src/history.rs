//! The release history of one platform: every published version, newest
//! first, and the latest version of each channel.

use vstd::prelude::*;
use std::cmp::Ordering;
use crate::semantic::{compare_semver, is_semver, semver_order, semver_valid};
use crate::text::{contains, contains_seq, same_text};
use crate::timestamp::{from_leaf_manifest_date, is_later, parsed_datetime, Timestamp, DT_FMT_8601};

verus! {

broadcast use vstd::string::group_string_axioms;

/// Why the history could not take a release.
#[derive(Clone, Copy, Debug, PartialEq, Eq, Structural)]
pub enum MergeError {
    /// A version text is not a semantic version.
    InvalidVersion,
    /// A release time is not an ISO-8601 date.
    InvalidReleaseTime,
    /// The history already holds a release of an equal version.
    DuplicateVersion,
    /// The stored history does not keep its invariant: a version is
    /// unreadable or the releases are out of order.
    InvalidHistory,
}

/// One published release.
#[derive(Clone, Debug)]
pub struct VersionManifestEntry {
    /// The semantic version.
    pub id: String,
    /// Where the launcher manifest of the release is published.
    pub url: String,
    /// The digest of the launcher manifest.
    pub hash: String,
    /// When the record was generated, ISO-8601.
    pub time: String,
    /// When the depot snapshot was built, ISO-8601.
    pub release_time: String,
}

pub struct ReleaseView {
    pub id: Seq<char>,
    pub url: Seq<char>,
    pub hash: Seq<char>,
    pub time: Seq<char>,
    pub release_time: Seq<char>,
}

impl View for VersionManifestEntry {
    type V = ReleaseView;

    open spec fn view(&self) -> ReleaseView {
        ReleaseView {
            id: self.id@,
            url: self.url@,
            hash: self.hash@,
            time: self.time@,
            release_time: self.release_time@,
        }
    }
}

/// The latest version of the stable channel and of the unstable channel.
#[derive(Clone, Debug)]
pub struct LatestVersion {
    pub release: Option<String>,
    pub unstable: Option<String>,
}

pub struct LatestView {
    pub release: Option<Seq<char>>,
    pub unstable: Option<Seq<char>>,
}

pub open spec fn opt_view(o: Option<String>) -> Option<Seq<char>> {
    match o {
        Some(s) => Some(s@),
        None => None,
    }
}

impl View for LatestVersion {
    type V = LatestView;

    open spec fn view(&self) -> LatestView {
        LatestView { release: opt_view(self.release), unstable: opt_view(self.unstable) }
    }
}

/// The release history of one platform.
#[derive(Clone, Debug)]
pub struct VersionManifest {
    pub latest: LatestVersion,
    /// The releases, newest version first.
    pub versions: Vec<VersionManifestEntry>,
}

pub struct HistoryView {
    pub latest: LatestView,
    pub versions: Seq<ReleaseView>,
}

impl View for VersionManifest {
    type V = HistoryView;

    open spec fn view(&self) -> HistoryView {
        HistoryView {
            latest: self.latest@,
            versions: self.versions@.map_values(|e: VersionManifestEntry| e@),
        }
    }
}

/// Whether a version belongs to the unstable channel.
pub open spec fn is_unstable(v: Seq<char>) -> bool {
    contains_seq(v, "unstable"@)
}

/// The channel slot that a version is routed to.
pub open spec fn slot_of(l: LatestView, v: Seq<char>) -> Option<Seq<char>> {
    if is_unstable(v) {
        l.unstable
    } else {
        l.release
    }
}

/// `l` with the slot of `v`'s channel set to `v`.
pub open spec fn with_slot(l: LatestView, v: Seq<char>) -> LatestView {
    if is_unstable(v) {
        LatestView { release: l.release, unstable: Some(v) }
    } else {
        LatestView { release: Some(v), unstable: l.unstable }
    }
}

/// Offering `v` to the latest pointers: the slot of its channel takes it when
/// it is empty or holds an older version.
pub open spec fn latest_update(l: LatestView, v: Seq<char>) -> (Result<bool, MergeError>, LatestView) {
    if !semver_valid(v) {
        (Err(MergeError::InvalidVersion), l)
    } else {
        match slot_of(l, v) {
            None => (Ok(true), with_slot(l, v)),
            Some(w) => if !semver_valid(w) {
                (Err(MergeError::InvalidVersion), l)
            } else if semver_order(v, w) == Ordering::Greater {
                (Ok(true), with_slot(l, v))
            } else {
                (Ok(false), l)
            },
        }
    }
}

/// Offering a version to the latest pointers touches only the slot of its
/// channel: an unstable version never changes the stable slot, and any other
/// version never changes the unstable slot.
pub proof fn lemma_latest_routing(l: LatestView, v: Seq<char>)
    ensures
        is_unstable(v) ==> latest_update(l, v).1.release == l.release,
        !is_unstable(v) ==> latest_update(l, v).1.unstable == l.unstable,
{
}

/// An ISO-8601 release time, read.
pub open spec fn leaf_date(s: Seq<char>) -> Option<Timestamp> {
    parsed_datetime(s, DT_FMT_8601@)
}

/// Offering `new` to the stored release `old`: it replaces `old` when both
/// release times read, the versions are the same, and `new` was built later.
pub open spec fn release_update(old: ReleaseView, new: ReleaseView) -> Result<bool, MergeError> {
    match (leaf_date(old.release_time), leaf_date(new.release_time)) {
        (Some(a), Some(b)) => Ok(old.id == new.id && is_later(b, a)),
        _ => Err(MergeError::InvalidReleaseTime),
    }
}

/// Whether a channel slot is empty or holds a semantic version.
pub open spec fn slot_valid(o: Option<Seq<char>>) -> bool {
    o matches Some(w) ==> semver_valid(w)
}

/// Whether every release id is a semantic version.
pub open spec fn ids_valid(vs: Seq<ReleaseView>) -> bool {
    forall|i: int| 0 <= i < vs.len() ==> semver_valid(#[trigger] vs[i].id)
}

/// Whether the releases are in strictly descending version order.
pub open spec fn descending(vs: Seq<ReleaseView>) -> bool {
    forall|i: int, j: int|
        0 <= i < j < vs.len() ==> semver_order(#[trigger] vs[i].id, #[trigger] vs[j].id)
            == Ordering::Greater
}

/// The invariant of a history: readable versions, newest first.
pub open spec fn history_wf(m: HistoryView) -> bool {
    &&& slot_valid(m.latest.release)
    &&& slot_valid(m.latest.unstable)
    &&& ids_valid(m.versions)
    &&& descending(m.versions)
}

/// The first index from `i` on of a release with id `v`.
pub open spec fn find_id(vs: Seq<ReleaseView>, v: Seq<char>, i: int) -> Option<int>
    decreases vs.len() - i,
{
    if i < 0 || i >= vs.len() {
        None
    } else if vs[i].id == v {
        Some(i)
    } else {
        find_id(vs, v, i + 1)
    }
}

/// Where a scan from `i` for the place of version `v` stops: at the first
/// release that is not newer than `v`, or at the end.
pub open spec fn scan_stop(vs: Seq<ReleaseView>, v: Seq<char>, i: int) -> int
    decreases vs.len() - i,
{
    if i < 0 || i >= vs.len() {
        vs.len() as int
    } else if semver_order(v, vs[i].id) != Ordering::Less {
        i
    } else {
        scan_stop(vs, v, i + 1)
    }
}

/// Adding a release at its place in the order: refused when its id is not a
/// semantic version or an equal version is already there.
pub open spec fn add_result(vs: Seq<ReleaseView>, new: ReleaseView) -> (
    Result<(), MergeError>,
    Seq<ReleaseView>,
) {
    if !semver_valid(new.id) {
        (Err(MergeError::InvalidVersion), vs)
    } else {
        let p = scan_stop(vs, new.id, 0);
        if p < vs.len() && semver_order(new.id, vs[p].id) == Ordering::Equal {
            (Err(MergeError::DuplicateVersion), vs)
        } else {
            (Ok(()), vs.insert(p, new))
        }
    }
}

/// Merging the release `new` of version `v` into a history: the latest
/// pointers are offered `v`; a version newer than all, or older than all,
/// goes to that end; a version already present is offered `new`; any other
/// is added at its place.
pub open spec fn merge(m: HistoryView, new: ReleaseView, v: Seq<char>) -> (
    Result<bool, MergeError>,
    HistoryView,
) {
    let lu = latest_update(m.latest, v);
    let l2 = lu.1;
    let vs = m.versions;
    if lu.0 is Err {
        (Err(lu.0->Err_0), m)
    } else if vs.len() == 0 || semver_order(v, vs[0].id) == Ordering::Greater {
        (Ok(false), HistoryView { latest: l2, versions: vs.insert(0, new) })
    } else if semver_order(v, vs[vs.len() - 1].id) == Ordering::Less {
        (Ok(false), HistoryView { latest: l2, versions: vs.push(new) })
    } else {
        match find_id(vs, v, 0) {
            Some(j) => match release_update(vs[j], new) {
                Ok(true) => (Ok(true), HistoryView { latest: l2, versions: vs.update(j, new) }),
                Ok(false) => (Ok(false), HistoryView { latest: l2, versions: vs }),
                Err(e) => (Err(e), HistoryView { latest: l2, versions: vs }),
            },
            None => {
                let ar = add_result(vs, new);
                match ar.0 {
                    Ok(_) => (Ok(true), HistoryView { latest: l2, versions: ar.1 }),
                    Err(e) => (Err(e), HistoryView { latest: l2, versions: vs }),
                }
            },
        }
    }
}

/// Whether the history already reflects the release `new` of version `v`:
/// the channel slot holds `v` or a version at least as new, and `new` would
/// not replace the first release with id `v`.
pub open spec fn settled(m: HistoryView, new: ReleaseView, v: Seq<char>) -> bool {
    &&& semver_valid(v)
    &&& slot_of(m.latest, v) matches Some(w) && semver_valid(w) && (w == v || semver_order(v, w)
        != Ordering::Greater)
    &&& find_id(m.versions, v, 0) matches Some(j) && !(release_update(
        m.versions[j],
        new,
    ) matches Ok(true))
}

/// What merging the release `new` of version `v` into `m` guarantees, when
/// it returns `r` and leaves `fin`: the exact outcome, the order of the
/// history kept, nothing changed where the release is already reflected, and
/// the release reflected after any success.
pub open spec fn merge_post(
    m: HistoryView,
    new: ReleaseView,
    v: Seq<char>,
    r: Result<bool, MergeError>,
    fin: HistoryView,
) -> bool {
    &&& (r, fin) == merge(m, new, v)
    &&& history_wf(fin)
    &&& settled(m, new, v) ==> fin == m && (r is Ok ==> r == Ok::<bool, MergeError>(false))
    &&& r is Ok ==> settled(fin, new, v)
}

/// Merging the same release a second time, after a first merge that
/// succeeded, leaves the history exactly as the first merge left it.
pub proof fn lemma_merge_twice_changes_once(
    m0: HistoryView,
    m1: HistoryView,
    m2: HistoryView,
    new: ReleaseView,
    v: Seq<char>,
    r1: Result<bool, MergeError>,
    r2: Result<bool, MergeError>,
)
    requires
        merge_post(m0, new, v, r1, m1),
        r1 is Ok,
        merge_post(m1, new, v, r2, m2),
    ensures
        m2 == m1,
        r2 is Ok ==> r2 == Ok::<bool, MergeError>(false),
{
}

/// Along any sequence of merges from a history in order, every history is in
/// strictly descending version order.
pub proof fn lemma_merges_keep_order(
    ms: Seq<HistoryView>,
    news: Seq<ReleaseView>,
    vs: Seq<Seq<char>>,
    rs: Seq<Result<bool, MergeError>>,
)
    requires
        ms.len() == news.len() + 1,
        vs.len() == news.len(),
        rs.len() == news.len(),
        history_wf(ms[0]),
        forall|i: int| 0 <= i < news.len() ==> merge_post(ms[i], news[i], vs[i], rs[i], #[trigger] ms[i + 1]),
    ensures
        forall|i: int| 0 <= i < ms.len() ==> descending(#[trigger] ms[i].versions),
{
    assert forall|i: int| 0 <= i < ms.len() implies descending(#[trigger] ms[i].versions) by {
        if i > 0 {
            let k = i - 1;
            assert(merge_post(ms[k], news[k], vs[k], rs[k], ms[k + 1]));
        }
    }
}

proof fn lemma_find_id(vs: Seq<ReleaseView>, v: Seq<char>, i: int)
    requires
        0 <= i <= vs.len(),
    ensures
        find_id(vs, v, i) matches Some(j) ==> i <= j < vs.len() && vs[j].id == v && forall|k: int|
            i <= k < j ==> #[trigger] vs[k].id != v,
        find_id(vs, v, i) is None ==> forall|k: int| i <= k < vs.len() ==> #[trigger] vs[k].id != v,
    decreases vs.len() - i,
{
    if i < vs.len() && vs[i].id != v {
        lemma_find_id(vs, v, i + 1);
    }
}

proof fn lemma_find_id_at(vs: Seq<ReleaseView>, v: Seq<char>, i: int, p: int)
    requires
        0 <= i <= p < vs.len(),
        vs[p].id == v,
        forall|k: int| i <= k < p ==> #[trigger] vs[k].id != v,
    ensures
        find_id(vs, v, i) == Some(p),
    decreases p - i,
{
    if i < p {
        lemma_find_id_at(vs, v, i + 1, p);
    }
}

proof fn lemma_scan_stop(vs: Seq<ReleaseView>, v: Seq<char>, i: int)
    requires
        0 <= i <= vs.len(),
    ensures
        i <= scan_stop(vs, v, i) <= vs.len(),
        forall|k: int| i <= k < scan_stop(vs, v, i) ==> semver_order(v, #[trigger] vs[k].id)
            == Ordering::Less,
        scan_stop(vs, v, i) < vs.len() ==> semver_order(v, vs[scan_stop(vs, v, i)].id)
            != Ordering::Less,
    decreases vs.len() - i,
{
    if i < vs.len() && semver_order(v, vs[i].id) == Ordering::Less {
        lemma_scan_stop(vs, v, i + 1);
    }
}

/// Inserting a release between the newer and the older ones keeps the order.
proof fn lemma_insert_keeps_order(vs: Seq<ReleaseView>, p: int, e: ReleaseView)
    requires
        ids_valid(vs),
        descending(vs),
        semver_valid(e.id),
        0 <= p <= vs.len(),
        forall|k: int| 0 <= k < p ==> semver_order(#[trigger] vs[k].id, e.id) == Ordering::Greater,
        forall|k: int| p <= k < vs.len() ==> semver_order(e.id, #[trigger] vs[k].id) == Ordering::Greater,
    ensures
        ids_valid(vs.insert(p, e)),
        descending(vs.insert(p, e)),
{
    let ws = vs.insert(p, e);
    assert forall|i: int, j: int| 0 <= i < j < ws.len() implies semver_order(
        #[trigger] ws[i].id,
        #[trigger] ws[j].id,
    ) == Ordering::Greater by {
        if i < p && j < p {
            assert(semver_order(vs[i].id, vs[j].id) == Ordering::Greater);
        } else if i < p && j == p {
        } else if i < p {
            assert(ws[j] == vs[j - 1]);
            assert(semver_order(vs[i].id, vs[j - 1].id) == Ordering::Greater);
        } else if i == p {
            assert(ws[j] == vs[j - 1]);
        } else {
            assert(ws[i] == vs[i - 1] && ws[j] == vs[j - 1]);
            assert(semver_order(vs[i - 1].id, vs[j - 1].id) == Ordering::Greater);
        }
    }
    assert forall|i: int| 0 <= i < ws.len() implies semver_valid(#[trigger] ws[i].id) by {
        if i < p {
        } else if i > p {
            assert(ws[i] == vs[i - 1]);
        }
    }
}

/// Replacing a release by one with the same id keeps the order.
proof fn lemma_same_id_keeps_order(vs: Seq<ReleaseView>, j: int, e: ReleaseView)
    requires
        ids_valid(vs),
        descending(vs),
        0 <= j < vs.len(),
        e.id == vs[j].id,
    ensures
        ids_valid(vs.update(j, e)),
        descending(vs.update(j, e)),
{
    let ws = vs.update(j, e);
    assert forall|a: int, b: int| 0 <= a < b < ws.len() implies semver_order(
        #[trigger] ws[a].id,
        #[trigger] ws[b].id,
    ) == Ordering::Greater by {
        assert(ws[a].id == vs[a].id && ws[b].id == vs[b].id);
        assert(semver_order(vs[a].id, vs[b].id) == Ordering::Greater);
    }
    assert forall|a: int| 0 <= a < ws.len() implies semver_valid(#[trigger] ws[a].id) by {
        assert(ws[a].id == vs[a].id);
    }
}

impl VersionManifestEntry {
    /// Replaces this release by `new` when `new` is the same version built
    /// later; says whether it did.
    pub fn update(&mut self, new: Self) -> (r: Result<bool, MergeError>)
        ensures
            r == release_update(old(self)@, new@),
            (r matches Ok(true)) ==> *final(self) == new,
            !(r matches Ok(true)) ==> *final(self) == *old(self),
    {
        let r = self.superseded_by(&new);
        if let Ok(true) = r {
            *self = new;
        }
        r
    }

    /// Whether `new` would replace this release: the same version built
    /// later.
    pub fn superseded_by(&self, new: &Self) -> (r: Result<bool, MergeError>)
        ensures
            r == release_update(self@, new@),
    {
        let date = match from_leaf_manifest_date(self.release_time.as_str()) {
            Some(d) => d,
            None => return Err(MergeError::InvalidReleaseTime),
        };
        let new_date = match from_leaf_manifest_date(new.release_time.as_str()) {
            Some(d) => d,
            None => return Err(MergeError::InvalidReleaseTime),
        };
        if !same_text(self.id.as_str(), new.id.as_str()) || !new_date.later_than(&date) {
            return Ok(false);
        }
        Ok(true)
    }
}

impl LatestVersion {
    /// Pointers that hold `version` in the slot of its channel and nothing in
    /// the other.
    pub fn new(version: String) -> (r: Self)
        ensures
            is_unstable(version@) ==> r@ == (LatestView { release: None, unstable: Some(version@) }),
            !is_unstable(version@) ==> r@ == (LatestView { release: Some(version@), unstable: None }),
    {
        if contains(version.as_str(), "unstable") {
            LatestVersion { release: None, unstable: Some(version) }
        } else {
            LatestVersion { release: Some(version), unstable: None }
        }
    }

    /// The slot of the channel that `version` belongs to.
    pub fn target(&mut self, version: &str) -> (r: &mut Option<String>)
        ensures
            is_unstable(version@) ==> *r == old(self).unstable && final(self).unstable == *final(r)
                && final(self).release == old(self).release,
            !is_unstable(version@) ==> *r == old(self).release && final(self).release == *final(r)
                && final(self).unstable == old(self).unstable,
    {
        if contains(version, "unstable") {
            &mut self.unstable
        } else {
            &mut self.release
        }
    }

    /// Offers `new` to the slot of its channel, which takes it when it is
    /// empty or holds an older version; says whether it changed. The slot of
    /// the other channel never changes.
    pub fn update(&mut self, new: &str) -> (r: Result<bool, MergeError>)
        ensures
            (r, final(self)@) == latest_update(old(self)@, new@),
            semver_valid(new@) && slot_of(old(self)@, new@) == Some(new@) ==> r == Ok::<
                bool,
                MergeError,
            >(false),
            is_unstable(new@) ==> final(self)@.release == old(self)@.release,
            !is_unstable(new@) ==> final(self)@.unstable == old(self)@.unstable,
    {
        if !is_semver(new) {
            return Err(MergeError::InvalidVersion);
        }
        let unstable = contains(new, "unstable");
        let slot = if unstable {
            &self.unstable
        } else {
            &self.release
        };
        let needs_update = match slot {
            None => true,
            Some(w) => {
                if !is_semver(w.as_str()) {
                    return Err(MergeError::InvalidVersion);
                }
                match compare_semver(new, w.as_str()) {
                    Ordering::Greater => true,
                    _ => false,
                }
            },
        };
        if needs_update {
            let value = String::from_str(new);
            if unstable {
                self.unstable = Some(value);
            } else {
                self.release = Some(value);
            }
            return Ok(true);
        }
        Ok(false)
    }
}

impl VersionManifest {
    /// The invariant of a history: readable versions, newest first.
    pub open spec fn wf(&self) -> bool {
        history_wf(self@)
    }

    /// A history that holds one release and points its channel at it.
    pub fn first_release(entry: VersionManifestEntry) -> (r: Self)
        ensures
            r@.versions == seq![entry@],
            semver_valid(entry@.id) ==> r.wf(),
            is_unstable(entry@.id) ==> r@.latest == (LatestView { release: None, unstable: Some(entry@.id) }),
            !is_unstable(entry@.id) ==> r@.latest == (LatestView { release: Some(entry@.id), unstable: None }),
    {
        let latest = LatestVersion::new(String::from_str(entry.id.as_str()));
        let versions = vec![entry];
        let r = VersionManifest { latest, versions };
        assert(r@.versions =~= seq![entry@]);
        r
    }

    /// Whether the history keeps its invariant: every version readable and
    /// the releases newest first.
    pub fn check(&self) -> (r: bool)
        ensures
            r == self.wf(),
    {
        match &self.latest.release {
            Some(w) => {
                if !is_semver(w.as_str()) {
                    return false;
                }
            },
            None => {},
        }
        match &self.latest.unstable {
            Some(w) => {
                if !is_semver(w.as_str()) {
                    return false;
                }
            },
            None => {},
        }
        let ghost vs = self@.versions;
        let n = self.versions.len();
        let mut i: usize = 0;
        while i < n
            invariant
                vs == self@.versions,
                n == vs.len(),
                i <= n,
                forall|k: int| 0 <= k < i ==> semver_valid(#[trigger] vs[k].id),
                forall|a: int, b: int|
                    0 <= a < b < i ==> semver_order(#[trigger] vs[a].id, #[trigger] vs[b].id)
                        == Ordering::Greater,
            decreases n - i,
        {
            if !is_semver(self.versions[i].id.as_str()) {
                assert(!semver_valid(vs[i as int].id));
                return false;
            }
            if i > 0 {
                match compare_semver(self.versions[i - 1].id.as_str(), self.versions[i].id.as_str()) {
                    Ordering::Greater => {
                        assert forall|a: int, b: int|
                            0 <= a < b < i + 1 implies semver_order(
                            #[trigger] vs[a].id,
                            #[trigger] vs[b].id,
                        ) == Ordering::Greater by {
                            if b == i && a < i - 1 {
                                assert(semver_order(vs[a].id, vs[i - 1].id) == Ordering::Greater);
                            }
                        }
                    },
                    _ => {
                        assert(semver_order(vs[i - 1].id, vs[i as int].id) != Ordering::Greater);
                        return false;
                    },
                }
            }
            i = i + 1;
        }
        true
    }

    /// Adds a release at its place in the order, newest first. Refused when
    /// its id is not a semantic version, or when an equal version is already
    /// there; the history is then unchanged.
    pub fn add(&mut self, new: VersionManifestEntry) -> (r: Result<(), MergeError>)
        requires
            old(self).wf(),
        ensures
            (r, final(self)@.versions) == add_result(old(self)@.versions, new@),
            final(self)@.latest == old(self)@.latest,
            final(self).wf(),
            (r matches Err(MergeError::DuplicateVersion)) <==> semver_valid(new@.id) && exists|i: int|
                0 <= i < old(self)@.versions.len() && semver_order(
                    new@.id,
                    #[trigger] old(self)@.versions[i].id,
                ) == Ordering::Equal,
            r is Ok ==> forall|k: int|
                0 <= k < scan_stop(old(self)@.versions, new@.id, 0) && k < old(
                    self,
                )@.versions.len() ==> #[trigger] old(self)@.versions[k].id != new@.id,
    {
        let ghost vs = self@.versions;
        let ghost v = new@.id;
        if !is_semver(new.id.as_str()) {
            return Err(MergeError::InvalidVersion);
        }
        proof {
            lemma_scan_stop(vs, v, 0);
        }
        let n = self.versions.len();
        let mut i: usize = 0;
        while i < n
            invariant
                vs == self@.versions,
                self@ == old(self)@,
                v == new@.id,
                semver_valid(v),
                history_wf(self@),
                n == vs.len(),
                i <= n,
                scan_stop(vs, v, 0) == scan_stop(vs, v, i as int),
                forall|k: int|
                    0 <= k < i ==> semver_order(v, #[trigger] vs[k].id) == Ordering::Less
                        && semver_order(vs[k].id, v) == Ordering::Greater && vs[k].id != v,
            decreases n - i,
        {
            assert(vs[i as int] == self.versions@[i as int]@);
            match compare_semver(new.id.as_str(), self.versions[i].id.as_str()) {
                Ordering::Equal => {
                    return Err(MergeError::DuplicateVersion);
                },
                Ordering::Greater => {
                    proof {
                        assert forall|k: int| i <= k < vs.len() implies semver_order(
                            v,
                            #[trigger] vs[k].id,
                        ) == Ordering::Greater by {
                            if k > i {
                                assert(semver_order(vs[i as int].id, vs[k].id) == Ordering::Greater);
                            }
                        }
                        lemma_insert_keeps_order(vs, i as int, new@);
                    }
                    self.versions.insert(i, new);
                    assert(self@.versions =~= vs.insert(i as int, new@));
                    return Ok(());
                },
                Ordering::Less => {},
            }
            i = i + 1;
        }
        proof {
            lemma_insert_keeps_order(vs, n as int, new@);
        }
        self.versions.push(new);
        assert(self@.versions =~= vs.insert(n as int, new@));
        Ok(())
    }

    /// Merges the release `new` of version `game_version` into the history.
    /// The latest pointers are offered the version first. A version newer
    /// than every release is put first, one older than every release last,
    /// and both return `false`. A version already present is offered `new`,
    /// which replaces it only when built later, and the result says whether
    /// it did. Any other version is added at its place and returns `true`.
    /// The history keeps its order whatever happens, and merging the same
    /// release again changes nothing.
    pub fn update(&mut self, new: VersionManifestEntry, game_version: &str) -> (r: Result<
        bool,
        MergeError,
    >)
        requires
            old(self).wf(),
            new.id@ == game_version@,
        ensures
            merge_post(old(self)@, new@, game_version@, r, final(self)@),
            final(self).wf(),
    {
        let ghost m = self@;
        let ghost vs = m.versions;
        let ghost v = game_version@;
        let ghost was_settled = settled(m, new@, v);
        proof {
            if was_settled {
                lemma_find_id(vs, v, 0);
            }
        }
        match self.latest.update(game_version) {
            Err(e) => {
                return Err(e);
            },
            Ok(_) => {},
        }
        let ghost l2 = self@.latest;
        assert(self@.versions == vs);
        let n = self.versions.len();
        if n == 0 {
            proof {
                lemma_insert_keeps_order(vs, 0, new@);
                lemma_find_id_at(vs.insert(0, new@), v, 0, 0);
            }
            self.versions.insert(0, new);
            assert(self@.versions =~= vs.insert(0, new@));
            return Ok(false);
        }
        assert(vs[0] == self.versions@[0]@);
        assert(vs[n - 1] == self.versions@[n - 1]@);
        match compare_semver(game_version, self.versions[0].id.as_str()) {
            Ordering::Greater => {
                proof {
                    assert forall|k: int| 0 <= k < vs.len() implies semver_order(
                        v,
                        #[trigger] vs[k].id,
                    ) == Ordering::Greater by {
                        if k > 0 {
                            assert(semver_order(vs[0].id, vs[k].id) == Ordering::Greater);
                        }
                    }
                    lemma_insert_keeps_order(vs, 0, new@);
                    lemma_find_id_at(vs.insert(0, new@), v, 0, 0);
                }
                self.versions.insert(0, new);
                assert(self@.versions =~= vs.insert(0, new@));
                return Ok(false);
            },
            _ => {},
        }
        match compare_semver(game_version, self.versions[n - 1].id.as_str()) {
            Ordering::Less => {
                proof {
                    assert forall|k: int| 0 <= k < vs.len() implies semver_order(
                        #[trigger] vs[k].id,
                        v,
                    ) == Ordering::Greater && vs[k].id != v by {
                        if k < n - 1 {
                            assert(semver_order(vs[k].id, vs[n - 1].id) == Ordering::Greater);
                        }
                    }
                    lemma_insert_keeps_order(vs, n as int, new@);
                    assert(vs.insert(n as int, new@) =~= vs.push(new@));
                    lemma_find_id_at(vs.push(new@), v, 0, n as int);
                }
                self.versions.push(new);
                assert(self@.versions =~= vs.push(new@));
                return Ok(false);
            },
            _ => {},
        }
        let mut j: usize = 0;
        let mut found = false;
        while !found && j < n
            invariant
                found ==> j < n && vs[j as int].id == v,
                self@.versions == vs,
                v == game_version@,
                n == vs.len(),
                j <= n,
                find_id(vs, v, 0) == find_id(vs, v, j as int),
                forall|k: int| 0 <= k < j ==> #[trigger] vs[k].id != v,
            decreases n - j + if found { 0int } else { 1int },
        {
            assert(vs[j as int] == self.versions@[j as int]@);
            if same_text(self.versions[j].id.as_str(), game_version) {
                found = true;
            } else {
                j = j + 1;
            }
        }
        if found {
            assert(vs[j as int] == self.versions@[j as int]@);
            assert(find_id(vs, v, j as int) == Some(j as int));
            let r = self.versions[j].superseded_by(&new);
            match r {
                Ok(true) => {
                    proof {
                        lemma_same_id_keeps_order(vs, j as int, new@);
                        lemma_find_id_at(vs.update(j as int, new@), v, 0, j as int);
                    }
                    self.versions.set(j, new);
                    assert(self@.versions =~= vs.update(j as int, new@));
                },
                _ => {
                    proof {
                        lemma_find_id_at(vs, v, 0, j as int);
                    }
                },
            }
            return r;
        }
        proof {
            lemma_find_id(vs, v, 0);
            lemma_scan_stop(vs, v, 0);
        }
        match self.add(new) {
            Err(e) => Err(e),
            Ok(()) => {
                proof {
                    let p = scan_stop(vs, v, 0);
                    lemma_find_id_at(vs.insert(p, new@), v, 0, p);
                }
                Ok(true)
            },
        }
    }
}

} // verus!

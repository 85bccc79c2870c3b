//! The version table: for each game version, the depot snapshots that belong
//! to it and its launch settings, which a version may inherit from another.

use vstd::prelude::*;
use crate::depot::DepotManifest;
use crate::text::same_text;

verus! {

broadcast use vstd::string::group_string_axioms;

/// serde_json's `Value`, which launch arguments are kept as and carried
/// through unread.
#[verifier::external_type_specification]
#[verifier::external_body]
pub struct ExValue(serde_json::Value);

/// The entry classes of a version, per environment.
#[derive(Clone, Debug)]
pub struct VersionTableMainClass {
    pub client: String,
    pub server: String,
}

/// Launch arguments, kept as the table writes them.
#[derive(Clone, Debug)]
pub struct LauncherManifestArgs {
    pub game: Vec<serde_json::Value>,
    pub jvm: Vec<serde_json::Value>,
}

/// One version of the table.
#[derive(Clone, Debug)]
pub struct VersionTableEntry {
    /// The semantic version.
    pub id: String,
    pub arguments: Option<LauncherManifestArgs>,
    /// The version whose settings this one takes where it has none.
    pub inherits: Option<String>,
    pub main_class: Option<VersionTableMainClass>,
    /// The depot snapshots that belong to this version.
    pub manifests: Vec<u64>,
}

/// The version table, in its own order.
#[derive(Clone, Debug)]
pub struct VersionTable {
    pub versions: Vec<VersionTableEntry>,
}

/// A launch setting that a version may inherit.
#[derive(Clone, Copy, Debug, PartialEq, Eq, Structural)]
pub enum LaunchField {
    Arguments,
    MainClass,
}

/// Where a resolved launch setting comes from.
#[derive(Clone, Copy, Debug, PartialEq, Eq, Structural)]
pub enum SettingSource {
    /// The version defines it itself.
    Own,
    /// The version inherits it from the version it names.
    Inherited,
    /// Neither does: it is taken from the first version that defines it, a
    /// guess that only suits the first catalogued version.
    Fallback,
}

/// Why a launch setting could not be resolved.
#[derive(Clone, Copy, Debug, PartialEq, Eq, Structural)]
pub enum ResolveError {
    /// The version is not in the table.
    UnknownVersion,
    /// The version inherits from a version that lacks the setting too.
    MissingInherited,
    /// No version of the table defines the setting.
    NoFallback,
}

/// Whether a table entry defines a launch setting.
pub open spec fn has_field(e: VersionTableEntry, f: LaunchField) -> bool {
    match f {
        LaunchField::Arguments => e.arguments is Some,
        LaunchField::MainClass => e.main_class is Some,
    }
}

/// The first index from `i` on of the version `id`.
pub open spec fn find_version(t: Seq<VersionTableEntry>, id: Seq<char>, i: int) -> Option<int>
    decreases t.len() - i,
{
    if i < 0 || i >= t.len() {
        None
    } else if t[i].id@ == id {
        Some(i)
    } else {
        find_version(t, id, i + 1)
    }
}

/// The first index from `i` on of a version that defines `f`.
pub open spec fn first_defining(t: Seq<VersionTableEntry>, f: LaunchField, i: int) -> Option<int>
    decreases t.len() - i,
{
    if i < 0 || i >= t.len() {
        None
    } else if has_field(t[i], f) {
        Some(i)
    } else {
        first_defining(t, f, i + 1)
    }
}

/// The first index from `i` on of a version that lists snapshot `id`.
pub open spec fn first_listing(t: Seq<VersionTableEntry>, id: u64, i: int) -> Option<int>
    decreases t.len() - i,
{
    if i < 0 || i >= t.len() {
        None
    } else if t[i].manifests@.contains(id) {
        Some(i)
    } else {
        first_listing(t, id, i + 1)
    }
}

/// The version that supplies setting `f` to version `id`: the version itself
/// where it defines it; else the version it inherits from, which must define
/// it; else, where it inherits from nothing in the table, the first version
/// that defines it.
pub open spec fn field_source_of(t: Seq<VersionTableEntry>, id: Seq<char>, f: LaunchField) -> Result<
    (int, SettingSource),
    ResolveError,
> {
    let fallback = match first_defining(t, f, 0) {
        Some(k) => Ok((k, SettingSource::Fallback)),
        None => Err(ResolveError::NoFallback),
    };
    match find_version(t, id, 0) {
        None => Err(ResolveError::UnknownVersion),
        Some(i) => if has_field(t[i], f) {
            Ok((i, SettingSource::Own))
        } else {
            match t[i].inherits {
                Some(p) => match find_version(t, p@, 0) {
                    Some(k) => if has_field(t[k], f) {
                        Ok((k, SettingSource::Inherited))
                    } else {
                        Err(ResolveError::MissingInherited)
                    },
                    None => fallback,
                },
                None => fallback,
            }
        },
    }
}

proof fn lemma_first_defining(t: Seq<VersionTableEntry>, f: LaunchField, i: int)
    requires
        0 <= i,
    ensures
        first_defining(t, f, i) matches Some(j) ==> i <= j < t.len() && has_field(t[j], f),
    decreases t.len() - i,
{
    if i < t.len() && !has_field(t[i], f) {
        lemma_first_defining(t, f, i + 1);
    }
}

impl VersionTable {
    /// The index of version `id`: its first entry in the table.
    pub fn position(&self, id: &str) -> (r: Option<usize>)
        ensures
            match find_version(self.versions@, id@, 0) {
                Some(i) => r matches Some(ri) && ri as int == i,
                None => r is None,
            },
            r matches Some(i) ==> i < self.versions.len(),
    {
        let mut i: usize = 0;
        while i < self.versions.len()
            invariant
                i <= self.versions.len(),
                find_version(self.versions@, id@, 0) == find_version(self.versions@, id@, i as int),
            decreases self.versions.len() - i,
        {
            if same_text(self.versions[i].id.as_str(), id) {
                return Some(i);
            }
            i = i + 1;
        }
        None
    }

    /// The index of the first version that defines setting `f`.
    fn first_defining(&self, f: LaunchField) -> (r: Option<usize>)
        ensures
            match first_defining(self.versions@, f, 0) {
                Some(i) => r matches Some(ri) && ri as int == i,
                None => r is None,
            },
    {
        let mut i: usize = 0;
        while i < self.versions.len()
            invariant
                i <= self.versions.len(),
                first_defining(self.versions@, f, 0) == first_defining(self.versions@, f, i as int),
            decreases self.versions.len() - i,
        {
            let defines = match f {
                LaunchField::Arguments => self.versions[i].arguments.is_some(),
                LaunchField::MainClass => self.versions[i].main_class.is_some(),
            };
            if defines {
                return Some(i);
            }
            i = i + 1;
        }
        None
    }

    /// The index of the version that supplies setting `f` to version
    /// `version`. Inheritance is one level deep: a version inherits from
    /// the version it names, never from that version's own parent.
    pub fn field_source(&self, version: &str, f: LaunchField) -> (r: Result<
        (usize, SettingSource),
        ResolveError,
    >)
        ensures
            match field_source_of(self.versions@, version@, f) {
                Ok((i, k)) => r matches Ok((ri, rk)) && ri as int == i && rk == k,
                Err(e) => r == Err::<(usize, SettingSource), ResolveError>(e),
            },
            r matches Ok((i, _)) ==> i < self.versions.len() && has_field(self.versions@[i as int], f),
    {
        proof {
            lemma_first_defining(self.versions@, f, 0);
        }
        let i = match self.position(version) {
            None => return Err(ResolveError::UnknownVersion),
            Some(i) => i,
        };
        let own = match f {
            LaunchField::Arguments => self.versions[i].arguments.is_some(),
            LaunchField::MainClass => self.versions[i].main_class.is_some(),
        };
        if own {
            return Ok((i, SettingSource::Own));
        }
        match &self.versions[i].inherits {
            Some(p) => match self.position(p.as_str()) {
                Some(k) => {
                    let inherited = match f {
                        LaunchField::Arguments => self.versions[k].arguments.is_some(),
                        LaunchField::MainClass => self.versions[k].main_class.is_some(),
                    };
                    if inherited {
                        return Ok((k, SettingSource::Inherited));
                    } else {
                        return Err(ResolveError::MissingInherited);
                    }
                },
                None => {},
            },
            None => {},
        }
        match self.first_defining(f) {
            Some(k) => Ok((k, SettingSource::Fallback)),
            None => Err(ResolveError::NoFallback),
        }
    }

    /// The launch arguments of version `version`, resolved through
    /// inheritance.
    pub fn arguments_for(&self, version: &str) -> (r: Result<&LauncherManifestArgs, ResolveError>)
        ensures
            match field_source_of(self.versions@, version@, LaunchField::Arguments) {
                Ok((i, _)) => r matches Ok(a) && self.versions@[i].arguments == Some(*a),
                Err(e) => r == Err::<&LauncherManifestArgs, ResolveError>(e),
            },
    {
        match self.field_source(version, LaunchField::Arguments) {
            Err(e) => Err(e),
            Ok((i, _)) => match &self.versions[i].arguments {
                Some(a) => Ok(a),
                None => Err(ResolveError::NoFallback),
            },
        }
    }

    /// The entry class of version `version` for the client or the server,
    /// resolved through inheritance.
    pub fn main_class_for(&self, version: &str, client: bool) -> (r: Result<String, ResolveError>)
        ensures
            match field_source_of(self.versions@, version@, LaunchField::MainClass) {
                Ok((i, _)) => r matches Ok(s) && s@ == if client {
                    self.versions@[i].main_class->Some_0.client@
                } else {
                    self.versions@[i].main_class->Some_0.server@
                },
                Err(e) => r == Err::<String, ResolveError>(e),
            },
    {
        match self.field_source(version, LaunchField::MainClass) {
            Err(e) => Err(e),
            Ok((i, _)) => match &self.versions[i].main_class {
                Some(mc) => if client {
                    Ok(mc.client.clone())
                } else {
                    Ok(mc.server.clone())
                },
                None => Err(ResolveError::NoFallback),
            },
        }
    }
}

/// The game version that a depot snapshot belongs to: the first version of
/// the table that lists its manifest id, or nothing when none does.
pub fn get_game_version(version_table: &VersionTable, manifest: &DepotManifest) -> (r: Option<String>)
    ensures
        match first_listing(version_table.versions@, manifest.manifest_id, 0) {
            Some(i) => r matches Some(s) && s@ == version_table.versions@[i].id@,
            None => r is None,
        },
{
    let t = &version_table.versions;
    let mut i: usize = 0;
    while i < t.len()
        invariant
            t == &version_table.versions,
            i <= t.len(),
            first_listing(t@, manifest.manifest_id, 0) == first_listing(t@, manifest.manifest_id, i as int),
        decreases t.len() - i,
    {
        let ids = &t[i].manifests;
        let mut k: usize = 0;
        let mut listed = false;
        while k < ids.len() && !listed
            invariant
                k <= ids.len(),
                listed ==> ids@.contains(manifest.manifest_id),
                !listed ==> forall|m: int| 0 <= m < k ==> ids@[m] != manifest.manifest_id,
            decreases ids.len() - k + if listed { 0int } else { 1int },
        {
            if ids[k] == manifest.manifest_id {
                listed = true;
            } else {
                k = k + 1;
            }
        }
        if listed {
            return Some(t[i].id.clone());
        }
        i = i + 1;
    }
    None
}

} // verus!

//! The asset index of a resolved version: for each file, its digest and size,
//! keyed by a path with forward slashes.

use vstd::prelude::*;
use crate::depot::{DepotEntry, DepotManifest};
use crate::text::{chars_of, push_char, same_text};

verus! {

broadcast use vstd::string::group_string_axioms;

/// One file of the asset index.
#[derive(Clone, Debug)]
pub struct AssetIndexObject {
    /// The file path, with forward slashes.
    pub path: String,
    pub hash: String,
    pub size: u64,
}

/// The asset index: one object per file, in the order of the report. A later
/// object for the same path replaces an earlier one.
#[derive(Clone, Debug)]
pub struct AssetIndexManifest {
    pub objects: Vec<AssetIndexObject>,
}

/// A path with every backslash turned into a forward slash.
pub open spec fn normalize_path(p: Seq<char>) -> Seq<char> {
    p.map_values(|c: char| if c == '\\' { '/' } else { c })
}

/// Whether `o` is the index object for the depot entry `e`.
pub open spec fn indexes_entry(o: AssetIndexObject, e: DepotEntry) -> bool {
    o.path@ == normalize_path(e.path@) && o.hash@ == e.hash@ && o.size == e.size
}

/// Turns every backslash of a path into a forward slash.
pub fn normalize_path_str(p: &str) -> (r: String)
    ensures
        r@ == normalize_path(p@),
{
    let cs = chars_of(p);
    let mut out = String::new();
    let mut i: usize = 0;
    while i < cs.len()
        invariant
            cs@ == p@,
            i <= cs.len(),
            out@ == normalize_path(p@.take(i as int)),
        decreases cs.len() - i,
    {
        let c = cs[i];
        if c == '\\' {
            push_char(&mut out, '/');
        } else {
            push_char(&mut out, c);
        }
        i = i + 1;
        assert(out@ =~= normalize_path(p@.take(i as int)));
    }
    assert(p@.take(i as int) =~= p@);
    out
}

/// Builds the asset index of a parsed report: one object per entry, in order,
/// with its path normalized and its digest and size copied.
pub fn asset_manifest_internal(manifest: &DepotManifest) -> (r: AssetIndexManifest)
    ensures
        r.objects.len() == manifest.entries.len(),
        forall|i: int|
            0 <= i < r.objects.len() ==> indexes_entry(
                #[trigger] r.objects@[i],
                manifest.entries@[i],
            ),
{
    let mut objects: Vec<AssetIndexObject> = Vec::new();
    let mut i: usize = 0;
    while i < manifest.entries.len()
        invariant
            i <= manifest.entries.len(),
            objects.len() == i,
            forall|k: int|
                0 <= k < i ==> indexes_entry(#[trigger] objects@[k], manifest.entries@[k]),
        decreases manifest.entries.len() - i,
    {
        let e = &manifest.entries[i];
        objects.push(
            AssetIndexObject {
                path: normalize_path_str(e.path.as_str()),
                hash: e.hash.clone(),
                size: e.size,
            },
        );
        i = i + 1;
    }
    AssetIndexManifest { objects }
}

impl AssetIndexManifest {
    /// The object recorded for `path`: the last one with that path.
    pub fn get(&self, path: &str) -> (r: Option<&AssetIndexObject>)
        ensures
            match r {
                Some(o) => exists|j: int|
                    0 <= j < self.objects.len() && self.objects@[j] == *o && o.path@ == path@
                        && forall|k: int|
                        j < k < self.objects.len() ==> #[trigger] self.objects@[k].path@ != path@,
                None => forall|k: int|
                    0 <= k < self.objects.len() ==> #[trigger] self.objects@[k].path@ != path@,
            },
    {
        let mut i = self.objects.len();
        while i > 0
            invariant
                i <= self.objects.len(),
                forall|k: int| i <= k < self.objects.len() ==> #[trigger] self.objects@[k].path@ != path@,
            decreases i,
        {
            i = i - 1;
            if same_text(self.objects[i].path.as_str(), path) {
                return Some(&self.objects[i]);
            }
        }
        None
    }
}

} // verus!

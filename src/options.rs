//! Reading the command line and the layout of output directories.

use vstd::prelude::*;
use crate::text::{chars_of, same_text, string_of};

verus! {

broadcast use vstd::string::group_string_axioms;

/// Whether the arguments ask to overwrite existing files: the second
/// argument after the program name is `--force` or `-f`.
pub fn is_force(args: &Vec<String>) -> (r: bool)
    ensures
        r == (args.len() > 2 && (args@[2]@ == "--force"@ || args@[2]@ == "-f"@)),
{
    if args.len() <= 2 {
        return false;
    }
    same_text(args[2].as_str(), "--force") || same_text(args[2].as_str(), "-f")
}

/// The end of `s[..e]` once trailing slashes are dropped.
pub open spec fn trim_slashes(s: Seq<char>, e: int) -> int
    decreases e,
{
    if 0 < e <= s.len() && s[e - 1] == '/' {
        trim_slashes(s, e - 1)
    } else {
        e
    }
}

/// The start of the path component that ends at `e`.
pub open spec fn component_start(s: Seq<char>, e: int) -> int
    decreases e,
{
    if 0 < e <= s.len() && s[e - 1] != '/' {
        component_start(s, e - 1)
    } else {
        e
    }
}

/// The last component of a slash-separated path.
pub open spec fn last_component(s: Seq<char>) -> Seq<char> {
    let e = trim_slashes(s, s.len() as int);
    s.subrange(component_start(s, e), e)
}

/// The path without its last component.
pub open spec fn parent_path(s: Seq<char>) -> Seq<char> {
    let e = trim_slashes(s, s.len() as int);
    s.subrange(0, component_start(s, e))
}

/// The bounds of the last component of `s[..n]`.
fn last_component_bounds(s: &Vec<char>, n: usize) -> (r: (usize, usize))
    requires
        n <= s.len(),
    ensures
        r.1 as int == trim_slashes(s@, n as int),
        r.0 as int == component_start(s@, r.1 as int),
        r.0 <= r.1 <= n,
{
    let mut e = n;
    while e > 0 && s[e - 1] == '/'
        invariant
            e <= n <= s.len(),
            trim_slashes(s@, e as int) == trim_slashes(s@, n as int),
        decreases e,
    {
        e = e - 1;
    }
    let mut b = e;
    while b > 0 && s[b - 1] != '/'
        invariant
            b <= e <= n <= s.len(),
            component_start(s@, b as int) == component_start(s@, e as int),
        decreases b,
    {
        b = b - 1;
    }
    (b, e)
}

/// The operating system directory of a platform directory
/// `<root>/<env>/<os>`: its last component, if it has one.
pub fn get_os_from_platform_dir(dir: &str) -> (r: Option<String>)
    ensures
        last_component(dir@).len() == 0 ==> r is None,
        last_component(dir@).len() > 0 ==> (r matches Some(s) && s@ == last_component(dir@)),
{
    let cs = chars_of(dir);
    let (b, e) = last_component_bounds(&cs, cs.len());
    if b == e {
        None
    } else {
        Some(string_of(&cs, b, e))
    }
}

/// The environment directory of a platform directory `<root>/<env>/<os>`:
/// the last component of its parent, if it has one.
pub fn get_env_from_platform_dir(dir: &str) -> (r: Option<String>)
    ensures
        last_component(parent_path(dir@)).len() == 0 ==> r is None,
        last_component(parent_path(dir@)).len() > 0 ==> (r matches Some(s) && s@
            == last_component(parent_path(dir@))),
{
    let cs = chars_of(dir);
    let (p, _) = last_component_bounds(&cs, cs.len());
    let ghost parent = cs@.subrange(0, p as int);
    assert(parent == parent_path(dir@));
    proof {
        assert forall|k: int| 0 <= k <= p implies trim_slashes(parent, k) == trim_slashes(
            cs@,
            k,
        ) && component_start(parent, k) == component_start(cs@, k) by {
            lemma_prefix_same(cs@, p as int, k);
        }
    }
    let (b, e) = last_component_bounds(&cs, p);
    assert(parent.subrange(b as int, e as int) =~= cs@.subrange(b as int, e as int));
    if b == e {
        None
    } else {
        Some(string_of(&cs, b, e))
    }
}

proof fn lemma_prefix_same(s: Seq<char>, p: int, k: int)
    requires
        0 <= k <= p <= s.len(),
    ensures
        trim_slashes(s.subrange(0, p), k) == trim_slashes(s, k),
        component_start(s.subrange(0, p), k) == component_start(s, k),
    decreases k,
{
    if k > 0 {
        lemma_prefix_same(s, p, k - 1);
    }
}

} // verus!

use leaf_generator::assets::{asset_manifest_internal, normalize_path_str};
use leaf_generator::depot::DepotManifest;

fn depot_report() -> String {
    [
        "Content Manifest for Depot 108602 ",
        "",
        "Manifest ID / date     : 7984161633207534069 / 12/17/2024 17:50:27 ",
        "Total number of files  : 51436 ",
        "Total number of chunks : 45197 ",
        "Total bytes on disk    : 11307127538 ",
        "Total bytes compressed : 5642932592 ",
        "",
        "",
        "Size Chunks File SHA                                 Flags Name",
        "   0      0 0000000000000000000000000000000000000000    40 Project Zomboid.app",
        "   0      0 0000000000000000000000000000000000000000    40 Project Zomboid.app\\Contents",
        "1700      1 5f77da0bcbf6a8a5571d85030b3cdf002d21da1e     0 Project Zomboid.app\\Contents\\Info.plist",
        "   0      0 0000000000000000000000000000000000000000    40 Project Zomboid.app\\Contents\\Java",
        "   0      0 0000000000000000000000000000000000000000    40 Project Zomboid.app\\Contents\\Java\\.lwjgl",
        "   0      0 0000000000000000000000000000000000000000    40 Project Zomboid.app\\Contents\\Java\\astar",
        " 605      1 8823fc239f12d3d508b18a98ec30f33e838da3f3     0 Project Zomboid.app\\Contents\\Java\\astar\\ASearchNode.class",
        " 707      1 b3afc1558091ef28726fb983773fc948950c5847     0 Project Zomboid.app\\Contents\\Java\\astar\\AStar$SearchNodeComparator.class",
        "3462      1 b85eb699446f796ec61827b77bcd7a9f49a400dc     0 Project Zomboid.app\\Contents\\Java\\astar\\AStar.class",
        "",
    ]
    .join("\n")
}

#[test]
fn generate_asset_manifest_test() {
    let manifest = DepotManifest::parse_from_string(&depot_report()).unwrap();

    let asset_manifest = asset_manifest_internal(&manifest);
    assert_eq!(asset_manifest.objects.len(), 4);

    let obj = asset_manifest.get(r"Project Zomboid.app/Contents/Info.plist").unwrap();
    assert_eq!(obj.hash, "5f77da0bcbf6a8a5571d85030b3cdf002d21da1e");
    assert_eq!(obj.size, 1700);
}

#[test]
fn asset_paths_use_forward_slashes() {
    let manifest = DepotManifest::parse_from_string(&depot_report()).unwrap();
    let asset_manifest = asset_manifest_internal(&manifest);
    assert!(asset_manifest.objects.iter().all(|o| !o.path.contains('\\')));
    assert!(asset_manifest.get(r"Project Zomboid.app\Contents\Info.plist").is_none());
    assert_eq!(normalize_path_str(r"a\b\\c/d"), "a/b//c/d");
    assert_eq!(normalize_path_str(""), "");
}

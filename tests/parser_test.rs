use leaf_generator::depot::{DepotManifest, EntryField, FormatError, HeaderField};
use leaf_generator::version_table::{
    get_game_version, LaunchField, LauncherManifestArgs, ResolveError, SettingSource, VersionTable,
    VersionTableEntry, VersionTableMainClass,
};

fn depot_report() -> String {
    [
        "Content Manifest for Depot 108602 ",
        "",
        "Manifest ID / date     : 7984161633207534069 / 12/17/2024 17:50:27 ",
        "Total number of files  : 51436 ",
        "Total number of chunks : 45197 ",
        "Total bytes on disk    : 11307127538 ",
        "Total bytes compressed : 5642932592 ",
        "",
        "",
        "Size Chunks File SHA                                 Flags Name",
        "   0      0 0000000000000000000000000000000000000000    40 Project Zomboid.app",
        "   0      0 0000000000000000000000000000000000000000    40 Project Zomboid.app\\Contents",
        "1700      1 5f77da0bcbf6a8a5571d85030b3cdf002d21da1e     0 Project Zomboid.app\\Contents\\Info.plist",
        "   0      0 0000000000000000000000000000000000000000    40 Project Zomboid.app\\Contents\\Java",
        "   0      0 0000000000000000000000000000000000000000    40 Project Zomboid.app\\Contents\\Java\\.lwjgl",
        "   0      0 0000000000000000000000000000000000000000    40 Project Zomboid.app\\Contents\\Java\\astar",
        " 605      1 8823fc239f12d3d508b18a98ec30f33e838da3f3     0 Project Zomboid.app\\Contents\\Java\\astar\\ASearchNode.class",
        " 707      1 b3afc1558091ef28726fb983773fc948950c5847     0 Project Zomboid.app\\Contents\\Java\\astar\\AStar$SearchNodeComparator.class",
        "3462      1 b85eb699446f796ec61827b77bcd7a9f49a400dc     0 Project Zomboid.app\\Contents\\Java\\astar\\AStar.class",
        "",
    ]
    .join("\n")
}

const VERSION_TABLE_JSON: &str = r#"
{
  "versions": {
    "42.0.0-unstable.25057": {
      "inherits": "41.78.16",
      "manifests": [
        7984161633207534069,
        5804831784883836119,
        884533456349664449
      ]
    },
    "41.78.16": {
      "arguments": {
        "game": [],
        "jvm": [
          "-Djava.awt.headless=true",
          {
            "rules": [ { "action": "allow", "os": { "name": "windows" } } ],
            "value": "-Djava.library.path=./win64/;./"
          }
        ]
      },
      "mainClass": {
        "client": "zombie.gameStates.MainScreenState",
        "server": "zombie.network.Server"
      },
      "manifests": [
        2540194756181522692,
        1153657949707515857,
        6286577881064486829
      ]
    }
  }
}
"#;

fn table_from_json(text: &str) -> VersionTable {
    let root: serde_json::Value = serde_json::from_str(text).unwrap();
    let mut versions = Vec::new();
    for (id, v) in root["versions"].as_object().unwrap() {
        let arguments = v.get("arguments").map(|a| LauncherManifestArgs {
            game: a["game"].as_array().unwrap().clone(),
            jvm: a["jvm"].as_array().unwrap().clone(),
        });
        let main_class = v.get("mainClass").map(|m| VersionTableMainClass {
            client: m["client"].as_str().unwrap().to_string(),
            server: m["server"].as_str().unwrap().to_string(),
        });
        versions.push(VersionTableEntry {
            id: id.clone(),
            arguments,
            inherits: v.get("inherits").map(|s| s.as_str().unwrap().to_string()),
            main_class,
            manifests: v["manifests"]
                .as_array()
                .unwrap()
                .iter()
                .map(|n| n.as_u64().unwrap())
                .collect(),
        });
    }
    VersionTable { versions }
}

#[test]
fn parse_depot_manifest_test() {
    let manifest = DepotManifest::parse_from_string(&depot_report()).unwrap();
    assert_eq!(manifest.depot_id, 108602);
    assert_eq!(manifest.manifest_id, 7984161633207534069);
    assert_eq!(manifest.manifest_date, "12/17/2024 17:50:27");
    assert_eq!(manifest.num_files, 51436);
    assert_eq!(manifest.num_chunks, 45197);
    assert_eq!(manifest.bytes_disk, 11307127538);
    assert_eq!(manifest.bytes_compressed, 5642932592);

    let entry = manifest.entry(r"Project Zomboid.app\Contents\Info.plist").unwrap();
    assert_eq!(entry.size, 1700);
    assert_eq!(entry.chunks, 1);
    assert_eq!(entry.hash, "5f77da0bcbf6a8a5571d85030b3cdf002d21da1e");
    assert_eq!(entry.flags, 0);
}

#[test]
fn parse_version_table_test() {
    let version_table = table_from_json(VERSION_TABLE_JSON);

    let i = version_table.position("42.0.0-unstable.25057").unwrap();
    let v1 = &version_table.versions[i];
    assert!(v1.arguments.is_none());
    assert!(v1.inherits.as_ref().is_some_and(|s| s == "41.78.16"));
    assert!(v1.main_class.is_none());
    assert_eq!(v1.manifests[0], 7984161633207534069);
}

#[test]
fn find_game_version_test() {
    let version_table = table_from_json(VERSION_TABLE_JSON);
    let manifest = DepotManifest::parse_from_string(&depot_report()).unwrap();
    let game_version = get_game_version(&version_table, &manifest).unwrap();
    assert_eq!(game_version, "42.0.0-unstable.25057");
}

#[test]
fn parse_keeps_only_file_rows() {
    let manifest = DepotManifest::parse_from_string(&depot_report()).unwrap();
    assert_eq!(manifest.entries.len(), 4);
    assert!(manifest.entries.iter().all(|e| e.size != 0 && e.flags != 40));
    assert_eq!(manifest.entries[0].path, r"Project Zomboid.app\Contents\Info.plist");
    assert_eq!(manifest.entries[3].size, 3462);
}

#[test]
fn parse_drops_rows_flagged_as_directories() {
    let mut report = depot_report();
    report.push_str("   9      1 abc    40 flagged dir\n");
    report.push_str("  12      2 def     1 a file with spaces\n");
    let manifest = DepotManifest::parse_from_string(&report).unwrap();
    assert_eq!(manifest.entries.len(), 5);
    let last = manifest.entry("a file with spaces").unwrap();
    assert_eq!(last.size, 12);
    assert_eq!(last.chunks, 2);
    assert_eq!(last.hash, "def");
    assert_eq!(last.flags, 1);
    assert!(manifest.entry("flagged dir").is_none());
}

#[test]
fn later_row_replaces_earlier_for_same_path() {
    let mut report = depot_report();
    report.push_str("  99      1 ffff     0 Project Zomboid.app\\Contents\\Info.plist\n");
    let manifest = DepotManifest::parse_from_string(&report).unwrap();
    let entry = manifest.entry(r"Project Zomboid.app\Contents\Info.plist").unwrap();
    assert_eq!(entry.size, 99);
    assert_eq!(entry.hash, "ffff");
}

#[test]
fn header_only_report_has_no_entries() {
    let report: String = depot_report().lines().take(10).collect::<Vec<_>>().join("\n");
    let manifest = DepotManifest::parse_from_string(&report).unwrap();
    assert_eq!(manifest.entries.len(), 0);
    assert_eq!(manifest.depot_id, 108602);
}

#[test]
fn malformed_row_is_rejected_with_its_line() {
    let mut report = depot_report();
    report.push_str("12 x abc 0 name\n");
    assert_eq!(
        DepotManifest::parse_from_string(&report).unwrap_err(),
        FormatError::Entry { line: 20, field: EntryField::Chunks }
    );
    let mut report = depot_report();
    report.push_str("12 1 abc 0\n");
    assert_eq!(
        DepotManifest::parse_from_string(&report).unwrap_err(),
        FormatError::Entry { line: 20, field: EntryField::Name }
    );
    let mut report = depot_report();
    report.push_str("size 1 abc 0 name\n");
    assert_eq!(
        DepotManifest::parse_from_string(&report).unwrap_err(),
        FormatError::Entry { line: 20, field: EntryField::Size }
    );
    let mut report = depot_report();
    report.push_str("1 1 ab-c 0 name\n");
    assert_eq!(
        DepotManifest::parse_from_string(&report).unwrap_err(),
        FormatError::Entry { line: 20, field: EntryField::Hash }
    );
    let mut report = depot_report();
    report.push_str("1 1 abc 70000 name\n");
    assert_eq!(
        DepotManifest::parse_from_string(&report).unwrap_err(),
        FormatError::Entry { line: 20, field: EntryField::Flags }
    );
}

#[test]
fn malformed_header_names_the_field() {
    let bad_id = depot_report().replace("Depot 108602", "Depot abc");
    assert_eq!(
        DepotManifest::parse_from_string(&bad_id).unwrap_err(),
        FormatError::Header { field: HeaderField::DepotId }
    );
    let bad_date = depot_report().replace("12/17/2024 17:50:27", "12-17-2024");
    assert_eq!(
        DepotManifest::parse_from_string(&bad_date).unwrap_err(),
        FormatError::Header { field: HeaderField::ManifestDate }
    );
    let bad_disk = depot_report().replace("11307127538", "lots");
    assert_eq!(
        DepotManifest::parse_from_string(&bad_disk).unwrap_err(),
        FormatError::Header { field: HeaderField::BytesDisk }
    );
    let too_big = depot_report().replace("7984161633207534069", "99999999999999999999");
    assert_eq!(
        DepotManifest::parse_from_string(&too_big).unwrap_err(),
        FormatError::Header { field: HeaderField::ManifestId }
    );
    assert_eq!(
        DepotManifest::parse_from_string("").unwrap_err(),
        FormatError::Header { field: HeaderField::DepotId }
    );
}

#[test]
fn resolution_miss_returns_nothing() {
    let version_table = table_from_json(VERSION_TABLE_JSON);
    let report = depot_report().replace("7984161633207534069", "42");
    let manifest = DepotManifest::parse_from_string(&report).unwrap();
    assert_eq!(manifest.manifest_id, 42);
    assert!(get_game_version(&version_table, &manifest).is_none());
}

#[test]
fn main_class_and_arguments_are_inherited() {
    let version_table = table_from_json(VERSION_TABLE_JSON);
    assert_eq!(
        version_table.main_class_for("42.0.0-unstable.25057", true).unwrap(),
        "zombie.gameStates.MainScreenState"
    );
    assert_eq!(
        version_table.main_class_for("42.0.0-unstable.25057", false).unwrap(),
        "zombie.network.Server"
    );
    let parent = version_table.position("41.78.16").unwrap();
    assert_eq!(
        version_table.field_source("42.0.0-unstable.25057", LaunchField::Arguments).unwrap(),
        (parent, SettingSource::Inherited)
    );
    let args = version_table.arguments_for("42.0.0-unstable.25057").unwrap();
    assert_eq!(args.jvm.len(), 2);
    assert_eq!(version_table.main_class_for("1.0.0", true).unwrap_err(), ResolveError::UnknownVersion);
}

#[test]
fn inheriting_from_a_version_without_the_field_fails() {
    let mut version_table = table_from_json(VERSION_TABLE_JSON);
    let parent = version_table.position("41.78.16").unwrap();
    version_table.versions[parent].main_class = None;
    assert_eq!(
        version_table.main_class_for("42.0.0-unstable.25057", true).unwrap_err(),
        ResolveError::MissingInherited
    );
}

#[test]
fn without_inheritance_the_first_defining_version_is_used() {
    let mut version_table = table_from_json(VERSION_TABLE_JSON);
    let child = version_table.position("42.0.0-unstable.25057").unwrap();
    version_table.versions[child].inherits = None;
    assert_eq!(
        version_table.main_class_for("42.0.0-unstable.25057", false).unwrap(),
        "zombie.network.Server"
    );
    let parent = version_table.position("41.78.16").unwrap();
    assert_eq!(
        version_table.field_source("42.0.0-unstable.25057", LaunchField::MainClass).unwrap(),
        (parent, SettingSource::Fallback)
    );
    assert_eq!(
        version_table.field_source("41.78.16", LaunchField::Arguments).unwrap(),
        (parent, SettingSource::Own)
    );
    version_table.versions[parent].main_class = None;
    assert_eq!(
        version_table.main_class_for("42.0.0-unstable.25057", false).unwrap_err(),
        ResolveError::NoFallback
    );
}

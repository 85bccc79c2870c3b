use leaf_generator::options::{get_env_from_platform_dir, get_os_from_platform_dir, is_force};
use leaf_generator::platform::PlatformDepot;
use leaf_generator::release::{
    asset_index_pointer, file_digest, published_url_of, INDEXES_URL, MANIFESTS_URL,
};
use leaf_generator::text::{contains, split_lines};
use leaf_generator::timestamp::{
    from_depot_manifest_date, from_leaf_manifest_date, release_time_of, to_leaf_date, Timestamp,
};

#[test]
fn parse_depot_manifest_date_test() {
    let t = String::from("07/16/2025 17:10:33");
    let p = from_depot_manifest_date(&t).unwrap();
    assert_eq!(p.day, 16);
    assert_eq!(p.month, 7);
    assert_eq!(p.year, 2025);
    assert_eq!(p.hour, 17);
    assert_eq!(p.minute, 10);
    assert_eq!(p.second, 33);
}

#[test]
fn parse_leaf_manifest_date_test() {
    let t = String::from("2025-07-16T17:10:33Z");
    let p = from_leaf_manifest_date(&t).unwrap();
    assert_eq!(p.day, 16);
    assert_eq!(p.month, 7);
    assert_eq!(p.year, 2025);
    assert_eq!(p.hour, 17);
    assert_eq!(p.minute, 10);
    assert_eq!(p.second, 33);
}

#[test]
fn unreadable_dates_give_nothing() {
    assert!(from_depot_manifest_date("2025-07-16T17:10:33Z").is_none());
    assert!(from_leaf_manifest_date("07/16/2025 17:10:33").is_none());
    assert!(from_depot_manifest_date("13/16/2025 17:10:33").is_none());
    assert!(release_time_of("not a date").is_none());
}

#[test]
fn release_time_is_iso_8601() {
    assert_eq!(release_time_of("12/17/2024 17:50:27").unwrap(), "2024-12-17T17:50:27Z");
    assert_eq!(release_time_of("1/2/2024 3:04:05").unwrap(), "2024-01-02T03:04:05Z");
    let t = Timestamp { year: 7, month: 3, day: 9, hour: 0, minute: 5, second: 59, nanosecond: 1_000_000_000 };
    assert_eq!(to_leaf_date(&t).unwrap(), "0007-03-09T00:05:60Z");
    let far = Timestamp { year: 10000, ..t };
    assert!(to_leaf_date(&far).is_none());
    let bad_month = Timestamp { month: 13, ..t };
    assert!(to_leaf_date(&bad_month).is_none());
}

#[test]
fn later_than_orders_field_by_field() {
    let a = from_leaf_manifest_date("2024-06-01T00:00:00Z").unwrap();
    let b = from_leaf_manifest_date("2024-01-01T00:00:00Z").unwrap();
    assert!(a.later_than(&b));
    assert!(!b.later_than(&a));
    assert!(!a.later_than(&a));
}

#[test]
fn digest_is_lower_hex_sha1() {
    assert_eq!(file_digest(&b"abc".to_vec()), "a9993e364706816aba3e25717850c26c9cd0d89d");
    assert_eq!(file_digest(&Vec::new()), "da39a3ee5e6b4b0d3255bfef95601890afd80709");
}

#[test]
fn urls_follow_env_platform_version() {
    assert_eq!(
        published_url_of(MANIFESTS_URL, &PlatformDepot::MacClient, "41.78.16"),
        "https://github.com/aoqia194/leaf/raw/refs/heads/main/manifests/client/mac/41.78.16.json"
    );
    assert_eq!(
        published_url_of(INDEXES_URL, &PlatformDepot::CommonServer, "42.0.0"),
        "https://github.com/aoqia194/leaf/raw/refs/heads/main/indexes/server/common/42.0.0.json"
    );
    let pointer = asset_index_pointer(&PlatformDepot::WindowsServer, "1.2.3", &b"abc".to_vec());
    assert_eq!(pointer.size, 3);
    assert_eq!(pointer.sha1, "a9993e364706816aba3e25717850c26c9cd0d89d");
    assert_eq!(
        pointer.url,
        "https://github.com/aoqia194/leaf/raw/refs/heads/main/indexes/server/win/1.2.3.json"
    );
}

#[test]
fn platform_names_envs_and_ids() {
    let all = PlatformDepot::all();
    assert_eq!(all.len(), 7);
    assert_eq!(PlatformDepot::MacClient.depot_id(), 108602);
    assert_eq!(PlatformDepot::WindowsServer.depot_id(), 380874);
    assert_eq!(PlatformDepot::CommonServer.name(), "common");
    assert_eq!(PlatformDepot::LinuxServer.name(), "linux");
    assert_eq!(PlatformDepot::WindowsClient.env(), "client");
    assert_eq!(PlatformDepot::MacServer.env(), "server");
    assert!(PlatformDepot::LinuxClient.is_client());
}

#[test]
fn force_flag_is_the_second_argument() {
    let args = |v: &[&str]| v.iter().map(|s| s.to_string()).collect::<Vec<String>>();
    assert!(is_force(&args(&["gen", "depots", "--force"])));
    assert!(is_force(&args(&["gen", "depots", "-f"])));
    assert!(!is_force(&args(&["gen", "depots"])));
    assert!(!is_force(&args(&["gen", "--force", "x"])));
}

#[test]
fn platform_dir_components() {
    assert_eq!(get_os_from_platform_dir("out/manifests/client/mac").unwrap(), "mac");
    assert_eq!(get_env_from_platform_dir("out/manifests/client/mac").unwrap(), "client");
    assert_eq!(get_os_from_platform_dir("server/win/").unwrap(), "win");
    assert_eq!(get_env_from_platform_dir("server/win/").unwrap(), "server");
    assert!(get_env_from_platform_dir("win").is_none());
    assert!(get_os_from_platform_dir("/").is_none());
}

#[test]
fn lines_split_like_str_lines() {
    let text = "a\r\nb\n\nc\n";
    let expected: Vec<String> = text.lines().map(String::from).collect();
    assert_eq!(split_lines(text), expected);
    assert_eq!(split_lines("").len(), 0);
    assert!(contains("42.0.0-unstable.1", "unstable"));
    assert!(!contains("41.78.16", "unstable"));
}

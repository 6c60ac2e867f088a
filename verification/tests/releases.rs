use dkn_compute_launcher::error::LauncherError;
use dkn_compute_launcher::releases::{
    find_release_by_tag, get_latest_release, get_releases, get_well_formed_releases,
    has_well_formed_version, is_retired_version, DriaRelease, DriaRepository, ReleaseAsset,
    DKN_LATEST_COMPUTE_FILE, DKN_VERSION_TRACKER_FILE,
};
use dkn_compute_launcher::updates::{check_for_compute_node_update, check_for_launcher_update};

fn asset(name: &str) -> ReleaseAsset {
    ReleaseAsset {
        name: name.to_string(),
        download_url: format!("https://example.com/{}", name),
    }
}

fn compute_release(version: &str) -> DriaRelease {
    DriaRelease::new(
        format!("v{}", version),
        version.to_string(),
        vec![
            asset("dkn-compute-binary-linux-amd64"),
            asset("dkn-compute-binary-linux-arm64"),
            asset("dkn-compute-binary-macOS-amd64"),
            asset("dkn-compute-binary-macOS-arm64"),
            asset("dkn-compute-binary-windows-amd64.exe"),
        ],
        DriaRepository::ComputeNode,
    )
}

fn launcher_release(version: &str) -> DriaRelease {
    DriaRelease::new(
        format!("v{}", version),
        version.to_string(),
        vec![asset("dkn-compute-launcher-linux-amd64"), asset("dkn-compute-launcher-macOS-arm64")],
        DriaRepository::Launcher,
    )
}

fn versions(releases: &Vec<DriaRelease>) -> Vec<String> {
    releases.iter().map(|r| r.version().to_string()).collect()
}

#[test]
fn test_constants_and_names() {
    assert_eq!(DKN_LATEST_COMPUTE_FILE, "dkn-compute-node_latest");
    assert_eq!(DKN_VERSION_TRACKER_FILE, ".dkn-compute-version");
    assert_eq!(DriaRepository::ComputeNode.name(), "dkn-compute-node");
    assert_eq!(DriaRepository::Launcher.name(), "dkn-compute-launcher");
}

#[test]
fn test_get_labels_table() {
    assert_eq!(DriaRelease::get_labels("linux", "x86_64", "unix"), Some(("linux", "amd64", "")));
    assert_eq!(DriaRelease::get_labels("linux", "aarch64", "unix"), Some(("linux", "arm64", "")));
    assert_eq!(DriaRelease::get_labels("linux", "arm", "unix"), Some(("linux", "arm64", "")));
    assert_eq!(DriaRelease::get_labels("macos", "aarch64", "unix"), Some(("macOS", "arm64", "")));
    assert_eq!(DriaRelease::get_labels("macos", "x86_64", "unix"), Some(("macOS", "amd64", "")));
    assert_eq!(DriaRelease::get_labels("windows", "x86_64", "windows"), Some(("windows", "amd64", ".exe")));
}

#[test]
fn test_get_labels_outside_the_table() {
    assert_eq!(DriaRelease::get_labels("freebsd", "x86_64", "unix"), None);
    assert_eq!(DriaRelease::get_labels("linux", "riscv64", "unix"), None);
    assert_eq!(DriaRelease::get_labels("linux", "x86_64", "wasm"), None);
    assert_eq!(DriaRelease::get_labels("macOS", "x86_64", "unix"), None);
    assert_eq!(DriaRelease::get_labels("", "", ""), None);
}

#[test]
fn test_release_getters() {
    let release = compute_release("0.3.6");
    assert_eq!(release.name(), "v0.3.6");
    assert_eq!(release.version(), "0.3.6");
    assert_eq!(release.repository(), DriaRepository::ComputeNode);
    let copy = release.duplicate();
    assert_eq!(copy.name(), "v0.3.6");
    assert_eq!(copy.version(), "0.3.6");
}

#[test]
fn test_to_filename() {
    let release = compute_release("0.3.6");
    assert_eq!(
        release.to_filename("linux", "x86_64", "unix"),
        Ok("dkn-compute-node_v0.3.6".to_string())
    );
    assert_eq!(
        release.to_filename("windows", "x86_64", "windows"),
        Ok("dkn-compute-node_v0.3.6.exe".to_string())
    );
    assert_eq!(
        launcher_release("0.1.2").to_filename("macos", "aarch64", "unix"),
        Ok("dkn-compute-launcher_v0.1.2".to_string())
    );
    assert_eq!(
        release.to_filename("plan9", "x86_64", "unix"),
        Err(LauncherError::UnsupportedPlatform)
    );
}

#[test]
fn test_asset_for_each_platform() {
    let release = compute_release("0.3.6");
    let found = release.asset("linux", "x86_64", "unix").unwrap();
    assert_eq!(found.name, "dkn-compute-binary-linux-amd64");
    assert_eq!(found.download_url, "https://example.com/dkn-compute-binary-linux-amd64");
    let found = release.asset("macos", "aarch64", "unix").unwrap();
    assert_eq!(found.name, "dkn-compute-binary-macOS-arm64");
    let found = release.asset("windows", "x86_64", "windows").unwrap();
    assert_eq!(found.name, "dkn-compute-binary-windows-amd64.exe");
    let found = launcher_release("0.1.0").asset("linux", "x86_64", "unix").unwrap();
    assert_eq!(found.name, "dkn-compute-launcher-linux-amd64");
}

#[test]
fn test_asset_takes_the_first_of_a_name() {
    let release = DriaRelease::new(
        "r".to_string(),
        "1.0.0".to_string(),
        vec![
            ReleaseAsset { name: "other".to_string(), download_url: "u0".to_string() },
            ReleaseAsset {
                name: "dkn-compute-binary-linux-amd64".to_string(),
                download_url: "u1".to_string(),
            },
            ReleaseAsset {
                name: "dkn-compute-binary-linux-amd64".to_string(),
                download_url: "u2".to_string(),
            },
        ],
        DriaRepository::ComputeNode,
    );
    assert_eq!(release.asset("linux", "x86_64", "unix").unwrap().download_url, "u1");
}

#[test]
fn test_asset_not_found() {
    let release = compute_release("0.3.6");
    assert_eq!(
        release.asset("windows", "aarch64", "windows").err(),
        Some(LauncherError::NotFound)
    );
    // the launcher's assets are not the compute node's
    assert_eq!(
        launcher_release("0.1.0").asset("windows", "x86_64", "windows").err(),
        Some(LauncherError::NotFound)
    );
}

#[test]
fn test_asset_unsupported_platform_for_every_release() {
    let empty =
        DriaRelease::new(String::new(), String::new(), Vec::new(), DriaRepository::ComputeNode);
    for release in [compute_release("0.3.6"), launcher_release("0.1.0"), empty] {
        for (os, arch, family) in [
            ("freebsd", "x86_64", "unix"),
            ("linux", "mips", "unix"),
            ("linux", "x86_64", "itron"),
            ("", "", ""),
        ] {
            assert_eq!(
                release.asset(os, arch, family).err(),
                Some(LauncherError::UnsupportedPlatform)
            );
        }
    }
    let empty = DriaRelease::new(String::new(), String::new(), Vec::new(), DriaRepository::Launcher);
    assert_eq!(empty.asset("linux", "x86_64", "unix").err(), Some(LauncherError::NotFound));
}

#[test]
fn test_get_releases_keeps_all_of_the_compute_node() {
    let fetched =
        vec![compute_release("0.3.6"), compute_release("0.0.1"), compute_release("0.2.0")];
    let kept = get_releases(DriaRepository::ComputeNode, &fetched);
    assert_eq!(versions(&kept), vec!["0.3.6", "0.0.1", "0.2.0"]);
    assert!(get_releases(DriaRepository::ComputeNode, &Vec::new()).is_empty());
}

#[test]
fn test_get_releases_leaves_out_old_launchers() {
    let fetched = vec![
        launcher_release("0.0.9"),
        launcher_release("0.1.1"),
        launcher_release("0.0.1"),
        launcher_release("0.1.0"),
        launcher_release("0.0"),
        launcher_release("10.0.0.1"),
    ];
    let kept = get_releases(DriaRepository::Launcher, &fetched);
    assert_eq!(versions(&kept), vec!["0.1.1", "0.1.0", "0.0", "10.0.0.1"]);
    assert!(is_retired_version(DriaRepository::Launcher, "0.0.5"));
    assert!(!is_retired_version(DriaRepository::Launcher, "0.1.5"));
    assert!(!is_retired_version(DriaRepository::ComputeNode, "0.0.5"));
}

#[test]
fn test_get_latest_release() {
    let fetched = vec![launcher_release("0.0.9"), launcher_release("0.1.1"), launcher_release("0.1.0")];
    let latest = get_latest_release(DriaRepository::Launcher, &fetched).unwrap();
    assert_eq!(latest.version(), "0.1.1");
    let latest = get_latest_release(DriaRepository::ComputeNode, &fetched).unwrap();
    assert_eq!(latest.version(), "0.0.9");
    assert_eq!(
        get_latest_release(DriaRepository::ComputeNode, &Vec::new()).err(),
        Some(LauncherError::NotFound)
    );
    assert_eq!(
        get_latest_release(DriaRepository::Launcher, &vec![launcher_release("0.0.3")]).err(),
        Some(LauncherError::NotFound)
    );
}

#[test]
fn test_find_release_by_tag() {
    let releases = vec![compute_release("0.3.6"), compute_release("0.3.5"), compute_release("0.3.6")];
    assert_eq!(find_release_by_tag(&releases, "0.3.5").unwrap().version(), "0.3.5");
    assert_eq!(find_release_by_tag(&releases, "0.3.6").unwrap().name(), "v0.3.6");
    // a tag is matched as it is written, and not by its meaning
    for tag in ["0.3", "v0.3.5", "0.3.5 ", "0.03.5", "^0.3", ""] {
        assert_eq!(find_release_by_tag(&releases, tag).err(), Some(LauncherError::NotFound));
    }
    assert_eq!(find_release_by_tag(&Vec::new(), "0.3.5").err(), Some(LauncherError::NotFound));
}

#[test]
fn test_well_formed_versions() {
    for version in ["0.3.6", "1.2.3", "10.20.30", "0.0.0", "+1.2.3", "01.2.3", "4294967295.0.0"] {
        assert!(has_well_formed_version(version), "{}", version);
    }
    for version in
        ["", "1", "1.2", "1.2.3.4", "1.2.x", "v1.2.3", "1..3", "1.2.3-rc1", "4294967296.0.0", "1.2.3 "]
    {
        assert!(!has_well_formed_version(version), "{}", version);
    }
    let releases = vec![compute_release("0.3.6"), compute_release("latest"), compute_release("1.0.0")];
    assert_eq!(versions(&get_well_formed_releases(&releases)), vec!["0.3.6", "1.0.0"]);
}

#[test]
fn test_check_for_compute_node_update() {
    let (release, required) =
        check_for_compute_node_update(Some("0.3.6"), compute_release("0.3.6"), true);
    assert_eq!(release.version(), "0.3.6");
    assert!(!required);
    // the version is not the latest
    assert!(check_for_compute_node_update(Some("0.3.5"), compute_release("0.3.6"), true).1);
    // no version is recorded
    assert!(check_for_compute_node_update(None, compute_release("0.3.6"), true).1);
    // the file of the compute node is gone
    assert!(check_for_compute_node_update(Some("0.3.6"), compute_release("0.3.6"), false).1);
    // versions are compared as texts
    assert!(check_for_compute_node_update(Some("0.3.6\n"), compute_release("0.3.6"), true).1);
}

#[test]
fn test_check_for_launcher_update() {
    let (release, required) = check_for_launcher_update("0.1.0", launcher_release("0.1.0"));
    assert_eq!(release.version(), "0.1.0");
    assert!(!required);
    assert!(check_for_launcher_update("0.1.0", launcher_release("0.1.1")).1);
    // an older release is installed as well: versions are only compared for equality
    assert!(check_for_launcher_update("0.2.0", launcher_release("0.1.1")).1);
}

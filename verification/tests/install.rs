use dkn_compute_launcher::error::LauncherError;
use dkn_compute_launcher::install::{
    temp_file_name, InstallAction, InstallEvent, InstallPhase, Installer, INSTALLED_FILE_MODE,
};
use dkn_compute_launcher::releases::{DriaRelease, DriaRepository, ReleaseAsset};
use std::collections::HashMap;

/// Performs an installation on a directory that is kept in memory. The
/// download delivers `arriving` and then fails if `breaks` says so.
fn perform(
    files: &mut HashMap<String, Vec<u8>>,
    install: &mut Installer,
    arriving: &[u8],
    breaks: bool,
) -> InstallPhase {
    let mut action = install.step(InstallEvent::Begin);
    loop {
        let done = match action {
            InstallAction::CreateTemp => {
                files.insert(install.temp_name(), Vec::new());
                true
            }
            InstallAction::Download => {
                files.insert(install.temp_name(), arriving.to_vec());
                !breaks
            }
            InstallAction::Rename => {
                let downloaded = files.remove(&install.temp_name()).unwrap();
                files.insert(install.dest_name().to_string(), downloaded);
                true
            }
            InstallAction::SetPermissions => true,
            InstallAction::Wait => true,
            InstallAction::Finish | InstallAction::GiveUp(_) => return install.phase(),
        };
        action = install.step(if done {
            InstallEvent::Done
        } else {
            InstallEvent::Failed(LauncherError::NetworkError)
        });
    }
}

#[test]
fn test_interrupted_download_leaves_the_destination_as_it_was() {
    // the destination holds an older file
    let mut files = HashMap::new();
    files.insert("dkn-compute-node_latest".to_string(), b"old".to_vec());
    let phase = perform(&mut files, &mut installer(true), b"ne", true);
    assert_eq!(phase, InstallPhase::Failed(LauncherError::NetworkError));
    assert_eq!(files.get("dkn-compute-node_latest"), Some(&b"old".to_vec()));
    assert_eq!(files.get("tmp_dkn-compute-node_latest"), Some(&b"ne".to_vec()));

    // the destination is not there
    let mut files = HashMap::new();
    perform(&mut files, &mut installer(false), b"", true);
    assert_eq!(files.get("dkn-compute-node_latest"), None);

    // a download that comes in whole replaces the destination
    let mut files = HashMap::new();
    files.insert("dkn-compute-node_latest".to_string(), b"old".to_vec());
    let phase = perform(&mut files, &mut installer(true), b"new", false);
    assert_eq!(phase, InstallPhase::Installed);
    assert_eq!(files.get("dkn-compute-node_latest"), Some(&b"new".to_vec()));
    assert_eq!(files.get("tmp_dkn-compute-node_latest"), None);
}

fn installer(permissions: bool) -> Installer {
    Installer::new(
        "https://example.com/asset".to_string(),
        "dkn-compute-node_latest".to_string(),
        permissions,
    )
}

#[test]
fn test_temp_file_name() {
    assert_eq!(temp_file_name("dkn-compute-node_latest"), "tmp_dkn-compute-node_latest");
    assert_eq!(temp_file_name(".tmp_launcher"), "tmp_.tmp_launcher");
    assert_eq!(temp_file_name(""), "tmp_");
    assert_eq!(INSTALLED_FILE_MODE, 0o777);
}

#[test]
fn test_install_in_order() {
    let mut install = installer(true);
    assert_eq!(install.url(), "https://example.com/asset");
    assert_eq!(install.dest_name(), "dkn-compute-node_latest");
    assert_eq!(install.temp_name(), "tmp_dkn-compute-node_latest");
    assert_eq!(install.phase(), InstallPhase::Created);
    assert_eq!(install.step(InstallEvent::Begin), InstallAction::CreateTemp);
    assert_eq!(install.step(InstallEvent::Done), InstallAction::Download);
    assert_eq!(install.step(InstallEvent::Done), InstallAction::Rename);
    assert_eq!(install.step(InstallEvent::Done), InstallAction::SetPermissions);
    assert_eq!(install.step(InstallEvent::Done), InstallAction::Finish);
    assert_eq!(install.phase(), InstallPhase::Installed);
    assert_eq!(install.step(InstallEvent::Done), InstallAction::Finish);
    assert_eq!(install.step(InstallEvent::Failed(LauncherError::IoError)), InstallAction::Finish);
}

#[test]
fn test_install_without_permissions() {
    let mut install = installer(false);
    install.step(InstallEvent::Begin);
    install.step(InstallEvent::Done);
    install.step(InstallEvent::Done);
    assert_eq!(install.step(InstallEvent::Done), InstallAction::Finish);
    assert_eq!(install.phase(), InstallPhase::Installed);
}

#[test]
fn test_interrupted_download_never_reaches_the_destination() {
    // whichever step fails before the rename is done, no later step is asked for
    for failing in 1..4 {
        let mut install = installer(true);
        let mut actions = vec![install.step(InstallEvent::Begin)];
        for step in 1..failing {
            assert!(step < failing);
            actions.push(install.step(InstallEvent::Done));
        }
        let last = install.step(InstallEvent::Failed(LauncherError::NetworkError));
        assert_eq!(last, InstallAction::GiveUp(LauncherError::NetworkError));
        assert_eq!(install.phase(), InstallPhase::Failed(LauncherError::NetworkError));
        if failing < 3 {
            assert!(!actions.contains(&InstallAction::Rename));
        }
        assert!(!actions.contains(&InstallAction::SetPermissions));
        // and it stays so
        assert_eq!(
            install.step(InstallEvent::Done),
            InstallAction::GiveUp(LauncherError::NetworkError)
        );
        assert_eq!(install.step(InstallEvent::Begin), InstallAction::GiveUp(LauncherError::NetworkError));
    }
}

#[test]
fn test_failed_permissions_leave_the_file_installed() {
    let mut install = installer(true);
    install.step(InstallEvent::Begin);
    install.step(InstallEvent::Done);
    install.step(InstallEvent::Done);
    install.step(InstallEvent::Done);
    assert_eq!(
        install.step(InstallEvent::Failed(LauncherError::IoError)),
        InstallAction::GiveUp(LauncherError::IoError)
    );
    assert_eq!(install.phase(), InstallPhase::Unfinished(LauncherError::IoError));
}

#[test]
fn test_install_waits_for_its_beginning() {
    let mut install = installer(true);
    assert_eq!(install.step(InstallEvent::Done), InstallAction::Wait);
    assert_eq!(install.step(InstallEvent::Failed(LauncherError::IoError)), InstallAction::Wait);
    assert_eq!(install.phase(), InstallPhase::Created);
}

#[test]
fn test_download_release() {
    let release = DriaRelease::new(
        "v0.3.6".to_string(),
        "0.3.6".to_string(),
        vec![ReleaseAsset {
            name: "dkn-compute-binary-linux-amd64".to_string(),
            download_url: "https://example.com/linux".to_string(),
        }],
        DriaRepository::ComputeNode,
    );
    let mut install =
        release.download_release(true, "dkn-compute-node_latest", "linux", "x86_64", "unix").unwrap();
    assert_eq!(install.url(), "https://example.com/linux");
    assert_eq!(install.dest_name(), "dkn-compute-node_latest");
    assert_eq!(install.phase(), InstallPhase::Created);
    install.step(InstallEvent::Begin);
    install.step(InstallEvent::Done);
    install.step(InstallEvent::Done);
    assert_eq!(install.step(InstallEvent::Done), InstallAction::SetPermissions);

    assert_eq!(
        release.download_release(false, "x", "linux", "x86_64", "unix").err(),
        Some(LauncherError::IoError)
    );
    assert_eq!(
        release.download_release(true, "x", "linux", "sparc", "unix").err(),
        Some(LauncherError::UnsupportedPlatform)
    );
    assert_eq!(
        release.download_release(true, "x", "macos", "x86_64", "unix").err(),
        Some(LauncherError::NotFound)
    );
}

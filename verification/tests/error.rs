use dkn_compute_launcher::error::LauncherError;

#[test]
fn test_error_messages() {
    assert_eq!(LauncherError::UnsupportedPlatform.message(), "unsupported platform");
    assert_eq!(LauncherError::NotFound.message(), "not found");
    assert_eq!(LauncherError::NetworkError.message(), "network error");
    assert_eq!(LauncherError::IoError.message(), "input or output failed");
    assert_eq!(LauncherError::StartupFailed.message(), "Ollama failed to start");
    assert_eq!(
        LauncherError::ProcessError.message(),
        "a process could not be started or stopped"
    );
}

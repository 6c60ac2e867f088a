use dkn_compute_launcher::error::LauncherError;
use dkn_compute_launcher::models::{Model, ModelProvider};
use dkn_compute_launcher::process::{Action, ComputeInstance, Event, OwnershipTag, Phase, Stage};
use dkn_compute_launcher::start::{
    compute_variables, is_compute_node_file, run_compute_node, uses_ollama,
};

fn run(instance: &mut ComputeInstance, events: Vec<Event>) -> Vec<Action> {
    events.into_iter().map(|event| instance.step(event)).collect()
}

fn running(check_updates: bool, ollama: Option<OwnershipTag>) -> ComputeInstance {
    let mut instance = ComputeInstance::new("0.1.0".to_string(), check_updates, ollama.is_some());
    match ollama {
        Some(tag) => {
            assert_eq!(instance.step(Event::Begin), Action::EnsureOllama);
            assert_eq!(instance.step(Event::OllamaEnsured(tag)), Action::SpawnCompute);
        }
        None => assert_eq!(instance.step(Event::Begin), Action::SpawnCompute),
    }
    assert_eq!(instance.step(Event::Done), Action::Wait);
    assert_eq!(instance.phase(), Phase::Idle);
    assert!(instance.has_live_compute());
    instance
}

fn checked(recorded: Option<&str>, latest: &str, compute_exists: bool) -> Event {
    Event::ComputeChecked {
        recorded: recorded.map(String::from),
        latest: latest.to_string(),
        compute_exists,
    }
}

fn kills_of_ollama(actions: &Vec<Action>) -> usize {
    actions.iter().filter(|a| **a == Action::KillOllama).count()
}

#[test]
fn test_stages() {
    assert_eq!(Phase::Created.stage(), Stage::Starting);
    assert_eq!(Phase::EnsuringOllama.stage(), Stage::Starting);
    assert_eq!(Phase::SpawningCompute.stage(), Stage::Starting);
    assert_eq!(Phase::Idle.stage(), Stage::Running);
    assert_eq!(Phase::RelaunchingCompute.stage(), Stage::Running);
    assert_eq!(Phase::RemovingDownload.stage(), Stage::Running);
    assert_eq!(Phase::KillingOllama.stage(), Stage::Terminating);
    assert_eq!(Phase::KillingCompute.stage(), Stage::Terminating);
    assert_eq!(Phase::Stopped.stage(), Stage::Stopped);
}

#[test]
fn test_start_without_ollama() {
    let mut instance = ComputeInstance::new("0.1.0".to_string(), true, false);
    assert_eq!(instance.phase(), Phase::Created);
    assert!(!instance.has_live_compute());
    assert_eq!(instance.step(Event::Begin), Action::SpawnCompute);
    assert_eq!(instance.phase(), Phase::SpawningCompute);
    assert_eq!(instance.step(Event::Done), Action::Wait);
    assert_eq!(instance.phase(), Phase::Idle);
    assert!(instance.has_live_compute());
    assert!(!instance.owns_ollama());
    assert_eq!(instance.failure(), None);
}

#[test]
fn test_start_with_ollama() {
    let mut instance = ComputeInstance::new("0.1.0".to_string(), true, true);
    assert_eq!(instance.step(Event::Begin), Action::EnsureOllama);
    assert_eq!(instance.phase(), Phase::EnsuringOllama);
    assert_eq!(instance.step(Event::OllamaEnsured(OwnershipTag::Owned)), Action::SpawnCompute);
    assert!(instance.owns_ollama());
    assert_eq!(instance.step(Event::Done), Action::Wait);
    assert_eq!(instance.phase(), Phase::Idle);

    let instance = running(true, Some(OwnershipTag::External));
    assert!(!instance.owns_ollama());
}

#[test]
fn test_start_fails_when_ollama_cannot_be_ensured() {
    let mut instance = ComputeInstance::new("0.1.0".to_string(), true, true);
    instance.step(Event::Begin);
    assert_eq!(instance.step(Event::Failed(LauncherError::StartupFailed)), Action::Exit);
    assert_eq!(instance.phase(), Phase::Stopped);
    assert_eq!(instance.failure(), Some(LauncherError::StartupFailed));
    assert!(!instance.has_live_compute());
}

#[test]
fn test_start_fails_when_the_compute_node_does_not_spawn() {
    // nothing to stop: the supervision ends at once
    let mut instance = ComputeInstance::new("0.1.0".to_string(), true, false);
    instance.step(Event::Begin);
    assert_eq!(instance.step(Event::Failed(LauncherError::ProcessError)), Action::Exit);
    assert_eq!(instance.phase(), Phase::Stopped);
    assert_eq!(instance.failure(), Some(LauncherError::ProcessError));

    // the Ollama server that the launcher started is stopped first
    let mut instance = ComputeInstance::new("0.1.0".to_string(), true, true);
    instance.step(Event::Begin);
    instance.step(Event::OllamaEnsured(OwnershipTag::Owned));
    assert_eq!(instance.step(Event::Failed(LauncherError::ProcessError)), Action::KillOllama);
    assert_eq!(instance.phase().stage(), Stage::Terminating);
    assert_eq!(instance.step(Event::Done), Action::Exit);
    assert_eq!(instance.phase(), Phase::Stopped);
    assert_eq!(instance.failure(), Some(LauncherError::ProcessError));
}

#[test]
fn test_compute_exit_stops_owned_ollama_exactly_once() {
    let mut instance = running(true, Some(OwnershipTag::Owned));
    let actions = run(
        &mut instance,
        vec![Event::ComputeExited, Event::Done, Event::Done, Event::ComputeExited, Event::Cancelled],
    );
    assert_eq!(
        actions,
        vec![Action::KillOllama, Action::Exit, Action::Exit, Action::Exit, Action::Exit]
    );
    assert_eq!(kills_of_ollama(&actions), 1);
    assert_eq!(instance.phase(), Phase::Stopped);
    assert!(!instance.owns_ollama());
}

#[test]
fn test_compute_exit_never_stops_ollama_that_was_there_before() {
    let mut instance = running(true, Some(OwnershipTag::External));
    let actions = run(&mut instance, vec![Event::ComputeExited, Event::Done, Event::Cancelled]);
    assert_eq!(actions, vec![Action::Exit, Action::Exit, Action::Exit]);
    assert_eq!(kills_of_ollama(&actions), 0);
    assert_eq!(instance.phase(), Phase::Stopped);

    let mut instance = running(true, None);
    assert_eq!(instance.step(Event::ComputeExited), Action::Exit);
    assert_eq!(instance.phase(), Phase::Stopped);
}

#[test]
fn test_cancellation_stops_ollama_then_compute() {
    let mut instance = running(true, Some(OwnershipTag::Owned));
    assert_eq!(instance.step(Event::Cancelled), Action::KillOllama);
    assert_eq!(instance.phase(), Phase::KillingOllama);
    // a failure to stop is no reason to stop stopping
    assert_eq!(instance.step(Event::Failed(LauncherError::ProcessError)), Action::KillCompute);
    assert_eq!(instance.phase(), Phase::KillingCompute);
    assert_eq!(instance.step(Event::Failed(LauncherError::ProcessError)), Action::Exit);
    assert_eq!(instance.phase(), Phase::Stopped);
    assert!(!instance.has_live_compute());

    let mut instance = running(true, Some(OwnershipTag::External));
    assert_eq!(instance.step(Event::Cancelled), Action::KillCompute);
    assert_eq!(instance.step(Event::Done), Action::Exit);
    assert_eq!(instance.phase(), Phase::Stopped);
}

#[test]
fn test_cancellation_wins_over_pending_ticks() {
    let mut instance = running(true, Some(OwnershipTag::Owned));
    let actions = run(
        &mut instance,
        vec![
            Event::Cancelled,
            Event::ComputeUpdateTick,
            Event::LauncherUpdateTick,
            Event::Done,
            Event::ComputeUpdateTick,
            checked(None, "9.9.9", false),
            Event::Done,
            Event::LauncherUpdateTick,
        ],
    );
    assert_eq!(
        actions,
        vec![
            Action::KillOllama,
            Action::Wait,
            Action::Wait,
            Action::KillCompute,
            Action::Wait,
            Action::Wait,
            Action::Exit,
            Action::Exit,
        ]
    );
    assert_eq!(instance.phase(), Phase::Stopped);
}

#[test]
fn test_cancellation_during_an_update_abandons_it() {
    for steps in 0..6 {
        let mut instance = running(true, None);
        let update =
            vec![Event::ComputeUpdateTick, checked(Some("0.3.5"), "0.3.6", true), Event::Done, Event::Done, Event::Done];
        for event in update.into_iter().take(steps) {
            instance.step(event);
        }
        assert_eq!(instance.phase().stage(), Stage::Running);
        let alive = instance.has_live_compute();
        let first = instance.step(Event::Cancelled);
        if alive {
            assert_eq!(first, Action::KillCompute);
            assert_eq!(instance.step(Event::Done), Action::Exit);
        } else {
            assert_eq!(first, Action::Exit);
        }
        assert_eq!(instance.phase(), Phase::Stopped);
    }
    for steps in 0..5 {
        let mut instance = running(true, None);
        let update = vec![
            Event::LauncherUpdateTick,
            Event::LauncherChecked { latest: "0.2.0".to_string() },
            Event::Done,
            Event::Done,
        ];
        for event in update.into_iter().take(steps) {
            instance.step(event);
        }
        assert_eq!(instance.step(Event::Cancelled), Action::KillCompute);
        assert_eq!(instance.step(Event::Done), Action::Exit);
        assert_eq!(instance.phase(), Phase::Stopped);
    }
}

#[test]
fn test_compute_update_kills_then_installs_then_relaunches_then_records() {
    let mut instance = running(true, None);
    assert_eq!(instance.step(Event::ComputeUpdateTick), Action::CheckComputeUpdate);
    assert_eq!(instance.phase(), Phase::CheckingCompute);
    assert_eq!(instance.step(checked(Some("0.3.5"), "0.3.6", true)), Action::KillCompute);
    assert_eq!(instance.phase(), Phase::StoppingCompute);
    assert!(instance.has_live_compute());
    assert_eq!(instance.step(Event::Done), Action::InstallCompute("0.3.6".to_string()));
    assert_eq!(instance.phase(), Phase::InstallingCompute);
    assert!(!instance.has_live_compute());
    assert_eq!(instance.step(Event::Done), Action::SpawnCompute);
    assert_eq!(instance.phase(), Phase::RelaunchingCompute);
    assert!(!instance.has_live_compute());
    assert_eq!(instance.step(Event::Done), Action::RecordVersion("0.3.6".to_string()));
    assert_eq!(instance.phase(), Phase::RecordingVersion);
    assert!(instance.has_live_compute());
    assert_eq!(instance.step(Event::Done), Action::Wait);
    assert_eq!(instance.phase(), Phase::Idle);
}

#[test]
fn test_version_is_not_recorded_when_the_relaunch_fails() {
    let mut instance = running(true, None);
    let actions = run(
        &mut instance,
        vec![
            Event::ComputeUpdateTick,
            checked(Some("0.3.5"), "0.3.6", true),
            Event::Done,
            Event::Done,
            Event::Failed(LauncherError::ProcessError),
        ],
    );
    assert_eq!(
        actions,
        vec![
            Action::CheckComputeUpdate,
            Action::KillCompute,
            Action::InstallCompute("0.3.6".to_string()),
            Action::SpawnCompute,
            Action::Wait,
        ]
    );
    assert!(!actions.iter().any(|a| matches!(a, Action::RecordVersion(_))));
    // the supervision goes on, without a compute node, and says so
    assert_eq!(instance.phase(), Phase::Idle);
    assert!(!instance.has_live_compute());
    // at the next tick the update is taken up again, with nothing to stop
    let actions = run(
        &mut instance,
        vec![
            Event::ComputeUpdateTick,
            checked(Some("0.3.5"), "0.3.6", true),
            Event::Done,
            Event::Done,
            Event::Done,
        ],
    );
    assert_eq!(
        actions,
        vec![
            Action::CheckComputeUpdate,
            Action::InstallCompute("0.3.6".to_string()),
            Action::SpawnCompute,
            Action::RecordVersion("0.3.6".to_string()),
            Action::Wait,
        ]
    );
    assert!(instance.has_live_compute());
}

#[test]
fn test_version_is_not_recorded_when_the_install_fails() {
    let mut instance = running(true, None);
    let actions = run(
        &mut instance,
        vec![
            Event::ComputeUpdateTick,
            checked(None, "0.3.6", true),
            Event::Done,
            Event::Failed(LauncherError::IoError),
        ],
    );
    assert_eq!(actions[3], Action::Wait);
    assert_eq!(instance.phase(), Phase::Idle);
    assert!(!instance.has_live_compute());
}

#[test]
fn test_failed_kill_abandons_the_update() {
    let mut instance = running(true, None);
    instance.step(Event::ComputeUpdateTick);
    instance.step(checked(Some("0.3.5"), "0.3.6", true));
    assert_eq!(instance.step(Event::Failed(LauncherError::ProcessError)), Action::Wait);
    assert_eq!(instance.phase(), Phase::Idle);
    assert!(instance.has_live_compute());
}

#[test]
fn test_no_update_when_up_to_date_or_when_the_check_fails() {
    let mut instance = running(true, None);
    assert_eq!(instance.step(Event::ComputeUpdateTick), Action::CheckComputeUpdate);
    assert_eq!(instance.step(checked(Some("0.3.6"), "0.3.6", true)), Action::Wait);
    assert_eq!(instance.phase(), Phase::Idle);
    assert_eq!(instance.step(Event::ComputeUpdateTick), Action::CheckComputeUpdate);
    assert_eq!(instance.step(Event::Failed(LauncherError::NetworkError)), Action::Wait);
    assert_eq!(instance.phase(), Phase::Idle);
    assert!(instance.has_live_compute());
    // a missing file asks for an update though the version is the latest
    assert_eq!(instance.step(Event::ComputeUpdateTick), Action::CheckComputeUpdate);
    assert_eq!(instance.step(checked(Some("0.3.6"), "0.3.6", false)), Action::KillCompute);
}

#[test]
fn test_ticks_are_ignored_without_update_checks() {
    let mut instance = running(false, None);
    assert_eq!(instance.step(Event::ComputeUpdateTick), Action::Wait);
    assert_eq!(instance.step(Event::LauncherUpdateTick), Action::Wait);
    assert_eq!(instance.phase(), Phase::Idle);
}

#[test]
fn test_launcher_update() {
    let mut instance = running(true, Some(OwnershipTag::Owned));
    let actions = run(
        &mut instance,
        vec![
            Event::LauncherUpdateTick,
            Event::LauncherChecked { latest: "0.2.0".to_string() },
            Event::Done,
            Event::Done,
            Event::Done,
        ],
    );
    assert_eq!(
        actions,
        vec![
            Action::CheckLauncherUpdate,
            Action::DownloadLauncher("0.2.0".to_string()),
            Action::ReplaceLauncher,
            Action::RemoveDownload,
            Action::Wait,
        ]
    );
    assert_eq!(instance.phase(), Phase::Idle);
    assert!(instance.has_live_compute());
    assert!(instance.owns_ollama());
}

#[test]
fn test_launcher_update_failures_leave_the_compute_node_alone() {
    for failing in 1..5 {
        let mut instance = running(true, None);
        let mut events = vec![
            Event::LauncherUpdateTick,
            Event::LauncherChecked { latest: "0.2.0".to_string() },
            Event::Done,
            Event::Done,
            Event::Done,
        ];
        events[failing] = Event::Failed(LauncherError::IoError);
        events.truncate(failing + 1);
        let actions = run(&mut instance, events);
        assert_eq!(actions[failing], Action::Wait);
        assert!(actions.iter().all(|a| !matches!(
            a,
            Action::KillCompute | Action::SpawnCompute | Action::InstallCompute(_) | Action::Exit
        )));
        assert_eq!(instance.phase(), Phase::Idle);
        assert!(instance.has_live_compute());
    }
    let mut instance = running(true, None);
    instance.step(Event::LauncherUpdateTick);
    assert_eq!(instance.step(Event::LauncherChecked { latest: "0.1.0".to_string() }), Action::Wait);
    assert_eq!(instance.phase(), Phase::Idle);
}

#[test]
fn test_stopped_is_final() {
    let mut instance = running(true, None);
    instance.step(Event::ComputeExited);
    for event in [
        Event::Begin,
        Event::Done,
        Event::ComputeUpdateTick,
        Event::Cancelled,
        Event::OllamaEnsured(OwnershipTag::Owned),
    ] {
        assert_eq!(instance.step(event), Action::Exit);
        assert_eq!(instance.phase(), Phase::Stopped);
        assert!(!instance.owns_ollama());
    }
}

#[test]
fn test_run_compute_node() {
    let models = vec![
        Model { name: "gpt-4o".to_string(), provider: ModelProvider::OpenAI },
        Model { name: "llama3.1:latest".to_string(), provider: ModelProvider::Ollama },
    ];
    assert!(uses_ollama(&models));
    let mut instance = run_compute_node(&models, "0.1.0".to_string(), true).unwrap();
    assert_eq!(instance.phase(), Phase::Created);
    assert_eq!(instance.step(Event::Begin), Action::EnsureOllama);

    let models = vec![Model { name: "gpt-4o".to_string(), provider: ModelProvider::OpenAI }];
    assert!(!uses_ollama(&models));
    let mut instance = run_compute_node(&models, "0.1.0".to_string(), false).unwrap();
    assert_eq!(instance.step(Event::Begin), Action::SpawnCompute);

    assert!(run_compute_node(&Vec::new(), "0.1.0".to_string(), true).is_none());
    assert!(!uses_ollama(&Vec::new()));
}

#[test]
fn test_compute_variables() {
    assert_eq!(
        compute_variables("/home/me/.env.test", "0.1.2"),
        vec![
            ("DKN_COMPUTE_ENV".to_string(), "/home/me/.env.test".to_string()),
            ("DKN_EXEC_PLATFORM".to_string(), "launcher/v0.1.2".to_string()),
        ]
    );
}

#[test]
fn test_is_compute_node_file() {
    assert!(is_compute_node_file("dkn-compute-node_latest"));
    assert!(is_compute_node_file("dkn-compute-node_v0.3.6.exe"));
    assert!(is_compute_node_file("dkn-compute-node"));
    assert!(!is_compute_node_file("dkn-compute-launcher"));
    assert!(!is_compute_node_file(".dkn-compute-version"));
    assert!(!is_compute_node_file("tmp_dkn-compute-node_latest"));
    assert!(!is_compute_node_file(""));
}

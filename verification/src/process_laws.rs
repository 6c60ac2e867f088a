//! What holds of the supervision in every run: which processes it stops and
//! how often, in which order an update proceeds, and that a request to stop
//! always leads to the end.

use crate::process::{ActionView, EventView, InstanceView, OwnershipTag, Phase, Stage};
use crate::updates::compute_update_required;
use vstd::prelude::*;

verus! {

/// The state after a run of events, and the actions that were asked for, one
/// for each event.
pub open spec fn run(start: InstanceView, events: Seq<EventView>) -> (InstanceView, Seq<ActionView>)
    decreases events.len(),
{
    if events.len() == 0 {
        (start, seq![])
    } else {
        let (before, actions) = run(start, events.drop_last());
        let (after, action) = before.next(events.last());
        (after, actions.push(action))
    }
}

/// How often the Ollama server is told to stop.
pub open spec fn ollama_kills(actions: Seq<ActionView>) -> nat
    decreases actions.len(),
{
    if actions.len() == 0 {
        0
    } else {
        ollama_kills(actions.drop_last()) + if actions.last() is KillOllama {
            1nat
        } else {
            0nat
        }
    }
}

/// How many of the events report how an action went.
pub open spec fn outcomes(events: Seq<EventView>) -> nat
    decreases events.len(),
{
    if events.len() == 0 {
        0
    } else {
        outcomes(events.drop_last()) + if events.last().is_outcome() {
            1nat
        } else {
            0nat
        }
    }
}

/// One if the launcher has an Ollama server to stop, else zero.
pub open spec fn owned(state: InstanceView) -> nat {
    if state.ollama_owned {
        1
    } else {
        0
    }
}

/// What holds of every state that a fresh supervision can reach: no process
/// runs before it was started, none is left at the end, and none runs while
/// its file is replaced.
pub open spec fn well_formed(state: InstanceView) -> bool {
    match state.phase {
        Phase::Created | Phase::EnsuringOllama => !state.ollama_owned && !state.compute_alive,
        Phase::SpawningCompute | Phase::InstallingCompute | Phase::RelaunchingCompute =>
            !state.compute_alive,
        Phase::StoppingCompute => state.compute_alive,
        Phase::KillingOllama => !state.ollama_owned,
        Phase::KillingCompute | Phase::Stopped => !state.ollama_owned && !state.compute_alive,
        _ => true,
    }
}

/// The action whose outcome a phase waits for, if it waits for one.
pub open spec fn awaited(state: InstanceView) -> Option<ActionView> {
    match state.phase {
        Phase::Created | Phase::Idle | Phase::Stopped => None,
        Phase::EnsuringOllama => Some(ActionView::EnsureOllama),
        Phase::SpawningCompute | Phase::RelaunchingCompute => Some(ActionView::SpawnCompute),
        Phase::CheckingCompute => Some(ActionView::CheckComputeUpdate),
        Phase::StoppingCompute | Phase::KillingCompute => Some(ActionView::KillCompute),
        Phase::InstallingCompute => Some(ActionView::InstallCompute(state.target_version)),
        Phase::RecordingVersion => Some(ActionView::RecordVersion(state.target_version)),
        Phase::CheckingLauncher => Some(ActionView::CheckLauncherUpdate),
        Phase::DownloadingLauncher => Some(ActionView::DownloadLauncher(state.target_version)),
        Phase::ReplacingLauncher => Some(ActionView::ReplaceLauncher),
        Phase::RemovingDownload => Some(ActionView::RemoveDownload),
        Phase::KillingOllama => Some(ActionView::KillOllama),
    }
}

/// A run begins with its first step.
pub proof fn lemma_run_first(start: InstanceView, events: Seq<EventView>)
    requires
        events.len() > 0,
    ensures
        run(start, events) == (
            run(start.next(events[0]).0, events.drop_first()).0,
            seq![start.next(events[0]).1] + run(start.next(events[0]).0, events.drop_first()).1,
        ),
    decreases events.len(),
{
    let first = start.next(events[0]);
    let rest = events.drop_first();
    if events.len() == 1 {
        assert(run(start, events.drop_last()) == (start, Seq::<ActionView>::empty()));
        assert(Seq::<ActionView>::empty().push(first.1) =~= seq![first.1]
            + Seq::<ActionView>::empty());
    } else {
        lemma_run_first(start, events.drop_last());
        assert(events.drop_last().drop_first() == rest.drop_last());
    }
}

/// A supervision that has done nothing yet and holds no process is well
/// formed.
pub proof fn lemma_fresh_is_well_formed(state: InstanceView)
    requires
        state.phase == Phase::Created,
        !state.ollama_owned,
        !state.compute_alive,
    ensures
        well_formed(state),
{
}

/// Every step keeps a well formed supervision well formed.
pub proof fn lemma_well_formed_step(state: InstanceView, event: EventView)
    requires
        well_formed(state),
    ensures
        well_formed(state.next(event).0),
{
}

/// Every state of a run from a well formed state is well formed.
pub proof fn lemma_well_formed_run(start: InstanceView, events: Seq<EventView>)
    requires
        well_formed(start),
    ensures
        well_formed(run(start, events).0),
        run(start, events).1.len() == events.len(),
    decreases events.len(),
{
    if events.len() > 0 {
        lemma_well_formed_run(start, events.drop_last());
        lemma_well_formed_step(run(start, events.drop_last()).0, events.last());
    }
}

/// Once the start is past the Ollama server, every time that the server is
/// told to stop takes away the launcher's charge of it, and nothing gives
/// the charge back: the times it is told to stop and the charge that is left
/// add up to the charge at the beginning. So a server that was there before
/// the launcher is never told to stop, and one that the launcher started is
/// told so exactly once on any way to the end.
pub proof fn lemma_ollama_stopped_once(start: InstanceView, events: Seq<EventView>)
    requires
        well_formed(start),
        start.phase != Phase::Created,
        start.phase != Phase::EnsuringOllama,
    ensures
        ollama_kills(run(start, events).1) + owned(run(start, events).0) == owned(start),
        run(start, events).0.phase == Phase::Stopped ==> ollama_kills(run(start, events).1)
            == owned(start),
        run(start, events).0.phase != Phase::Created,
        run(start, events).0.phase != Phase::EnsuringOllama,
    decreases events.len(),
{
    if events.len() > 0 {
        let front = events.drop_last();
        lemma_ollama_stopped_once(start, front);
        lemma_well_formed_run(start, front);
        let before = run(start, front);
        assert(run(start, events).1.drop_last() == before.1);
    }
}

/// From the very beginning, the Ollama server is told to stop at most once,
/// and only after it was reported as started by the launcher.
pub proof fn lemma_ollama_stopped_only_if_owned(start: InstanceView, events: Seq<EventView>)
    requires
        well_formed(start),
        start.phase == Phase::Created,
    ensures
        ollama_kills(run(start, events).1) + owned(run(start, events).0) <= 1,
        ollama_kills(run(start, events).1) + owned(run(start, events).0) == 1 ==> exists|i: int|
            0 <= i < events.len() && events[i] == EventView::OllamaEnsured(OwnershipTag::Owned),
        run(start, events).0.phase == Phase::Stopped ==> !run(start, events).0.ollama_owned,
        (run(start, events).0.phase == Phase::Created || run(start, events).0.phase
            == Phase::EnsuringOllama) ==> ollama_kills(run(start, events).1) == 0,
    decreases events.len(),
{
    if events.len() > 0 {
        let front = events.drop_last();
        lemma_ollama_stopped_only_if_owned(start, front);
        lemma_well_formed_run(start, front);
        lemma_well_formed_run(start, events);
        let before = run(start, front);
        let after = run(start, events);
        assert(after.1.drop_last() == before.1);
    }
}

/// An update of the compute node goes in one order. The newer compute node
/// is installed only when none runs: after the old one was stopped, or
/// where none ran. It is started only when none runs: at the start, or after
/// the newer one was installed. Its version is recorded only after it was
/// started and the start succeeded. And the old compute node is stopped for
/// an update only after a newer version was found.
pub proof fn lemma_update_order(state: InstanceView, event: EventView)
    requires
        well_formed(state),
    ensures
        state.next(event).1 is InstallCompute ==> !state.next(event).0.compute_alive && (state.phase
            == Phase::StoppingCompute && event is Done || state.phase == Phase::CheckingCompute
            && !state.compute_alive),
        state.next(event).1 is SpawnCompute ==> !state.compute_alive && (state.phase
            == Phase::InstallingCompute && event is Done || state.phase.spec_stage()
            == Stage::Starting),
        state.next(event).1 is RecordVersion ==> state.phase == Phase::RelaunchingCompute && event is Done
            && state.next(event).0.compute_alive && state.next(event).1
            == ActionView::RecordVersion(state.target_version),
        state.next(event).1 is KillCompute && state.next(event).0.phase == Phase::StoppingCompute
            ==> state.phase == Phase::CheckingCompute && state.compute_alive && (
        event matches EventView::ComputeChecked { recorded, latest, compute_exists }
            && compute_update_required(recorded, latest, compute_exists)),
{
}

/// Whenever an action other than waiting is asked for, the new phase waits
/// for the outcome of that very action; and the phases of an update of the
/// compute node are entered in order, each from the one before it.
pub proof fn lemma_phase_awaits_action(state: InstanceView, event: EventView)
    ensures
        !(state.next(event).1 is Wait) && !(state.next(event).1 is Exit) ==> awaited(
            state.next(event).0,
        ) == Some(state.next(event).1),
        state.next(event).0.phase == Phase::InstallingCompute && state.phase
            != Phase::InstallingCompute ==> state.phase == Phase::StoppingCompute || state.phase
            == Phase::CheckingCompute,
        state.next(event).0.phase == Phase::RelaunchingCompute && state.phase
            != Phase::RelaunchingCompute ==> state.phase == Phase::InstallingCompute,
        state.next(event).0.phase == Phase::RecordingVersion && state.phase
            != Phase::RecordingVersion ==> state.phase == Phase::RelaunchingCompute,
{
}

/// A whole update of the compute node, where every action succeeds: the old
/// compute node is stopped, the newer one installed and started, and only
/// then its version is recorded.
pub proof fn lemma_update_succeeds(
    state: InstanceView,
    recorded: Option<Seq<char>>,
    latest: Seq<char>,
    compute_exists: bool,
)
    requires
        state.phase == Phase::Idle,
        state.check_updates,
        state.compute_alive,
        compute_update_required(recorded, latest, compute_exists),
    ensures
        run(
            state,
            seq![
                EventView::ComputeUpdateTick,
                EventView::ComputeChecked { recorded, latest, compute_exists },
                EventView::Done,
                EventView::Done,
                EventView::Done,
                EventView::Done,
            ],
        ) == (
            InstanceView { target_version: latest, ..state },
            seq![
                ActionView::CheckComputeUpdate,
                ActionView::KillCompute,
                ActionView::InstallCompute(latest),
                ActionView::SpawnCompute,
                ActionView::RecordVersion(latest),
                ActionView::Wait,
            ],
        ),
{
    let events = seq![
        EventView::ComputeUpdateTick,
        EventView::ComputeChecked { recorded, latest, compute_exists },
        EventView::Done,
        EventView::Done,
        EventView::Done,
        EventView::Done,
    ];
    lemma_run_steps(state, events, 0);
    lemma_run_steps(state, events, 1);
    lemma_run_steps(state, events, 2);
    lemma_run_steps(state, events, 3);
    lemma_run_steps(state, events, 4);
    lemma_run_steps(state, events, 5);
    lemma_run_steps(state, events, 6);
    let result = run(state, events);
    assert(result.1 =~= seq![
        ActionView::CheckComputeUpdate,
        ActionView::KillCompute,
        ActionView::InstallCompute(latest),
        ActionView::SpawnCompute,
        ActionView::RecordVersion(latest),
        ActionView::Wait,
    ]);
}

/// An update of the compute node in which the newer one does not start: its
/// version is not recorded, and the launcher goes on without a compute node.
pub proof fn lemma_update_without_relaunch(
    state: InstanceView,
    recorded: Option<Seq<char>>,
    latest: Seq<char>,
    compute_exists: bool,
    error: crate::error::LauncherError,
)
    requires
        state.phase == Phase::Idle,
        state.check_updates,
        state.compute_alive,
        compute_update_required(recorded, latest, compute_exists),
    ensures
        run(
            state,
            seq![
                EventView::ComputeUpdateTick,
                EventView::ComputeChecked { recorded, latest, compute_exists },
                EventView::Done,
                EventView::Done,
                EventView::Failed(error),
            ],
        ) == (
            InstanceView { target_version: latest, compute_alive: false, ..state },
            seq![
                ActionView::CheckComputeUpdate,
                ActionView::KillCompute,
                ActionView::InstallCompute(latest),
                ActionView::SpawnCompute,
                ActionView::Wait,
            ],
        ),
{
    let events = seq![
        EventView::ComputeUpdateTick,
        EventView::ComputeChecked { recorded, latest, compute_exists },
        EventView::Done,
        EventView::Done,
        EventView::Failed(error),
    ];
    lemma_run_steps(state, events, 0);
    lemma_run_steps(state, events, 1);
    lemma_run_steps(state, events, 2);
    lemma_run_steps(state, events, 3);
    lemma_run_steps(state, events, 4);
    lemma_run_steps(state, events, 5);
    let result = run(state, events);
    assert(result.1 =~= seq![
        ActionView::CheckComputeUpdate,
        ActionView::KillCompute,
        ActionView::InstallCompute(latest),
        ActionView::SpawnCompute,
        ActionView::Wait,
    ]);
}

/// The run over the first `n` events, one step after the other.
pub proof fn lemma_run_steps(start: InstanceView, events: Seq<EventView>, n: int)
    requires
        0 <= n <= events.len(),
    ensures
        n > 0 ==> run(start, events.take(n)) == (
            run(start, events.take(n - 1)).0.next(events[n - 1]).0,
            run(start, events.take(n - 1)).1.push(
                run(start, events.take(n - 1)).0.next(events[n - 1]).1,
            ),
        ),
        n == 0 ==> run(start, events.take(n)) == (start, Seq::<ActionView>::empty()),
        n == events.len() ==> events.take(n) == events,
    decreases n,
{
    if n > 0 {
        lemma_run_steps(start, events, n - 1);
        assert(events.take(n).drop_last() == events.take(n - 1));
    }
}

/// An update of the launcher never touches the compute node: while it is
/// under way no action starts, stops or installs the compute node or records
/// its version, unless the launcher is asked to stop or the compute node
/// ends; and whether the compute node runs does not change.
pub proof fn lemma_launcher_update_leaves_compute(state: InstanceView, event: EventView)
    requires
        state.phase == Phase::CheckingLauncher || state.phase == Phase::DownloadingLauncher
            || state.phase == Phase::ReplacingLauncher || state.phase == Phase::RemovingDownload,
        !(event is Cancelled),
        !(event is ComputeExited),
    ensures
        state.next(event).0.compute_alive == state.compute_alive,
        state.next(event).0.ollama_owned == state.ollama_owned,
        state.next(event).0.phase.spec_stage() == Stage::Running,
        !(state.next(event).1 is KillCompute),
        !(state.next(event).1 is SpawnCompute),
        !(state.next(event).1 is InstallCompute),
        !(state.next(event).1 is RecordVersion),
        !(state.next(event).1 is KillOllama),
        !(state.next(event).1 is Exit),
{
}

/// A failure while running never ends the supervision: whatever fails, the
/// launcher goes back to waiting.
pub proof fn lemma_failure_keeps_running(state: InstanceView, error: crate::error::LauncherError)
    requires
        state.phase.spec_stage() == Stage::Running,
    ensures
        state.next(EventView::Failed(error)).0.phase == Phase::Idle,
        state.next(EventView::Failed(error)).1 == ActionView::Wait,
        state.next(EventView::Failed(error)).0 == (InstanceView { phase: Phase::Idle, ..state }),
{
}

/// How many outcomes the way to the end still needs.
pub open spec fn kills_left(state: InstanceView) -> nat {
    match state.phase {
        Phase::KillingOllama => if state.compute_alive {
            2
        } else {
            1
        },
        Phase::KillingCompute => 1,
        _ => 0,
    }
}

/// Whether an action is one of the way to the end.
pub open spec fn is_closing(action: ActionView) -> bool {
    action is KillOllama || action is KillCompute || action is Wait || action is Exit
}

/// On the way to the end nothing but outcomes moves the supervision, every
/// outcome moves it on, and it asks for nothing but to stop a process, to
/// wait or to leave.
pub proof fn lemma_terminating_run(start: InstanceView, events: Seq<EventView>)
    requires
        well_formed(start),
        start.phase.spec_stage() == Stage::Terminating || start.phase.spec_stage()
            == Stage::Stopped,
    ensures
        run(start, events).0.phase.spec_stage() == Stage::Terminating || run(
            start,
            events,
        ).0.phase.spec_stage() == Stage::Stopped,
        kills_left(run(start, events).0) + outcomes(events) <= kills_left(start) || kills_left(
            run(start, events).0,
        ) == 0,
        forall|i: int|
            0 <= i < run(start, events).1.len() ==> is_closing(#[trigger] run(start, events).1[i]),
    decreases events.len(),
{
    if events.len() > 0 {
        lemma_terminating_run(start, events.drop_last());
        lemma_well_formed_run(start, events.drop_last());
        let after = run(start, events);
        assert forall|i: int| 0 <= i < after.1.len() implies is_closing(#[trigger] after.1[i]) by {}
    }
}

/// A request to stop always leads to the end. Whatever the supervision was
/// doing when the request came, and whatever else happens after it, timers
/// included, the supervision has ended once two outcomes were reported; and
/// from the request on it asks for nothing but to stop a process, to wait or
/// to leave.
pub proof fn lemma_cancel_reaches_stopped(start: InstanceView, events: Seq<EventView>)
    requires
        well_formed(start),
        events.len() > 0,
        events[0] is Cancelled,
        outcomes(events.drop_first()) >= 2,
    ensures
        run(start, events).0.phase == Phase::Stopped,
        forall|i: int|
            0 <= i < run(start, events).1.len() ==> is_closing(#[trigger] run(start, events).1[i]),
{
    lemma_run_first(start, events);
    let first = start.next(events[0]);
    let rest = events.drop_first();
    lemma_well_formed_step(start, events[0]);
    lemma_terminating_run(first.0, rest);
    assert forall|i: int| 0 <= i < run(start, events).1.len() implies is_closing(
        #[trigger] run(start, events).1[i],
    ) by {}
}

/// The end is final: nothing moves the supervision once it has stopped, and
/// all it asks for is to leave the loop.
pub proof fn lemma_stopped_is_final(state: InstanceView, event: EventView)
    requires
        state.phase == Phase::Stopped,
    ensures
        state.next(event) == (state, ActionView::Exit),
{
}

/// When the compute node ends while the supervision is running, the
/// supervision takes the way to the end, on which the compute node is not
/// stopped again.
pub proof fn lemma_exit_terminates(state: InstanceView)
    requires
        state.phase.spec_stage() == Stage::Running,
        state.compute_alive,
    ensures
        state.next(EventView::ComputeExited) == (InstanceView {
            compute_alive: false,
            ..state
        }).terminate(),
        !(state.next(EventView::ComputeExited).1 is KillCompute),
        state.next(EventView::ComputeExited).0.phase == if state.ollama_owned {
            Phase::KillingOllama
        } else {
            Phase::Stopped
        },
{
}

/// When the compute node ends while the supervision is running, the
/// supervision ends too: once one outcome was reported after it, at the
/// latest. On the way the Ollama server is told to stop exactly once if the
/// launcher started it, and never if it did not; and the compute node, which
/// has ended, is not told to stop.
pub proof fn lemma_exit_reaches_stopped(start: InstanceView, events: Seq<EventView>)
    requires
        well_formed(start),
        start.phase.spec_stage() == Stage::Running,
        start.compute_alive,
        events.len() > 0,
        events[0] is ComputeExited,
        outcomes(events.drop_first()) >= 1,
    ensures
        run(start, events).0.phase == Phase::Stopped,
        ollama_kills(run(start, events).1) == owned(start),
        forall|i: int|
            0 <= i < run(start, events).1.len() ==> !(#[trigger] run(start, events).1[i]
                is KillCompute),
{
    lemma_run_first(start, events);
    lemma_exit_terminates(start);
    let first = start.next(events[0]);
    let rest = events.drop_first();
    lemma_well_formed_step(start, events[0]);
    lemma_terminating_run(first.0, rest);
    lemma_ollama_stopped_once(start, events);
    lemma_no_compute_kill(first.0, rest);
    assert forall|i: int| 0 <= i < run(start, events).1.len() implies !(#[trigger] run(
        start,
        events,
    ).1[i] is KillCompute) by {}
}

/// On the way to the end a compute node that does not run is not told to
/// stop.
pub proof fn lemma_no_compute_kill(start: InstanceView, events: Seq<EventView>)
    requires
        well_formed(start),
        start.phase.spec_stage() == Stage::Terminating || start.phase.spec_stage()
            == Stage::Stopped,
        !start.compute_alive,
    ensures
        !run(start, events).0.compute_alive,
        run(start, events).0.phase.spec_stage() == Stage::Terminating || run(
            start,
            events,
        ).0.phase.spec_stage() == Stage::Stopped,
        forall|i: int|
            0 <= i < run(start, events).1.len() ==> !(#[trigger] run(start, events).1[i]
                is KillCompute),
    decreases events.len(),
{
    if events.len() > 0 {
        lemma_no_compute_kill(start, events.drop_last());
        lemma_well_formed_run(start, events.drop_last());
        let after = run(start, events);
        assert forall|i: int| 0 <= i < after.1.len() implies !(#[trigger] after.1[i]
            is KillCompute) by {}
    }
}

} // verus!

//! The Ollama server beside the compute node: where it is expected, when it
//! counts as reachable, and how the launcher makes sure of it without ever
//! waiting for it without end.

use crate::error::LauncherError;
use crate::process::OwnershipTag;
use crate::text::{decimal, decimal_chars, extend_chars, from_chars, to_chars};
use vstd::prelude::*;

verus! {

/// How often the launcher asks a server that it started whether it answers,
/// before it asks one last time.
pub const OLLAMA_RETRY_COUNT: usize = 10;

/// How long the launcher waits between two such questions, in milliseconds.
pub const OLLAMA_RETRY_INTERVAL_MILLIS: u64 = 500;

/// How long the launcher waits for an answer to one such question, in
/// milliseconds; a server that has not answered by then counts as not there.
pub const OLLAMA_PROBE_TIMEOUT_MILLIS: u64 = 5000;

/// The address of the server at `host` and `port`.
pub open spec fn address(host: Seq<char>, port: u16) -> Seq<char> {
    host + seq![':'] + decimal(port as nat)
}

/// The address of the server at `host` and `port`: the host, a colon and the
/// port in decimal.
pub fn ollama_address(host: &str, port: u16) -> (out: String)
    ensures
        out@ == address(host@, port),
{
    let mut text = to_chars(host);
    text.push(':');
    extend_chars(&mut text, &decimal_chars(port as u64));
    from_chars(&text)
}

/// Whether an answer to the launcher's question means that the server is
/// there: it does if it came with a status from 200 to 299. No answer in
/// time, or any other status, means that it is not.
pub open spec fn is_reachable(status: Option<u16>) -> bool {
    match status {
        Some(code) => 200 <= code < 300,
        None => false,
    }
}

/// Whether the server is there, given the status of its answer, if any came.
pub fn check_ollama(status: Option<u16>) -> (reachable: bool)
    ensures
        reachable == is_reachable(status),
{
    match status {
        Some(code) => 200 <= code && code < 300,
        None => false,
    }
}

/// How making sure of the server ended.
#[derive(Debug, Clone, Copy, PartialEq, Eq, Structural)]
pub enum EnsureOutcome {
    /// The server answers, and is the launcher's own or not.
    Ready(OwnershipTag),
    /// The server could not be started, or did not answer after it was.
    Failed(LauncherError),
}

/// Where the launcher stands in making sure of the server.
#[derive(Debug, Clone, Copy, PartialEq, Eq, Structural)]
pub enum EnsurePhase {
    /// Asking whether a server is there already.
    Probing,
    /// Starting a server.
    Spawning,
    /// Asking the started server whether it answers, for the given time,
    /// counted from zero.
    Polling(usize),
    /// Waiting after the question of the given time went unanswered.
    Sleeping(usize),
    /// Asking one last time.
    Confirming,
    /// Done, with the result.
    Finished(EnsureOutcome),
}

/// What the launcher learns while making sure of the server.
#[derive(Debug, Clone, Copy, PartialEq, Eq, Structural)]
pub enum EnsureEvent {
    /// The server was asked and is, or is not, reachable.
    Probed(bool),
    /// The server was started.
    Spawned,
    /// The server could not be started.
    SpawnFailed(LauncherError),
    /// The wait is over.
    Slept,
}

/// What to do next to make sure of the server.
#[derive(Debug, Clone, Copy, PartialEq, Eq, Structural)]
pub enum EnsureAction {
    /// Ask the server whether it answers and report [`EnsureEvent::Probed`].
    Probe,
    /// Start the server and report [`EnsureEvent::Spawned`] or
    /// [`EnsureEvent::SpawnFailed`].
    Spawn,
    /// Wait for the given number of milliseconds and report
    /// [`EnsureEvent::Slept`].
    Sleep(u64),
    /// Nothing is left to do: the server answers and is, or is not, the
    /// launcher's own; or it could not be made sure of.
    Finish(EnsureOutcome),
}

impl EnsurePhase {
    /// The action whose outcome the phase waits for.
    pub open spec fn awaited(self) -> EnsureAction {
        match self {
            EnsurePhase::Probing | EnsurePhase::Polling(_) | EnsurePhase::Confirming =>
                EnsureAction::Probe,
            EnsurePhase::Spawning => EnsureAction::Spawn,
            EnsurePhase::Sleeping(_) => EnsureAction::Sleep(OLLAMA_RETRY_INTERVAL_MILLIS),
            EnsurePhase::Finished(result) => EnsureAction::Finish(result),
        }
    }

    /// The phase after `event`. An event that the phase does not wait for
    /// changes nothing.
    pub open spec fn next(self, event: EnsureEvent) -> EnsurePhase {
        match (self, event) {
            (EnsurePhase::Probing, EnsureEvent::Probed(true)) => EnsurePhase::Finished(
                EnsureOutcome::Ready(OwnershipTag::External),
            ),
            (EnsurePhase::Probing, EnsureEvent::Probed(false)) => EnsurePhase::Spawning,
            (EnsurePhase::Spawning, EnsureEvent::Spawned) => if OLLAMA_RETRY_COUNT > 0 {
                EnsurePhase::Polling(0)
            } else {
                EnsurePhase::Confirming
            },
            (EnsurePhase::Spawning, EnsureEvent::SpawnFailed(e)) => EnsurePhase::Finished(EnsureOutcome::Failed(e)),
            (EnsurePhase::Polling(_), EnsureEvent::Probed(true)) => EnsurePhase::Confirming,
            (EnsurePhase::Polling(time), EnsureEvent::Probed(false)) => EnsurePhase::Sleeping(
                time,
            ),
            (EnsurePhase::Sleeping(time), EnsureEvent::Slept) => if time + 1 < OLLAMA_RETRY_COUNT {
                EnsurePhase::Polling((time + 1) as usize)
            } else {
                EnsurePhase::Confirming
            },
            (EnsurePhase::Confirming, EnsureEvent::Probed(true)) => EnsurePhase::Finished(
                EnsureOutcome::Ready(OwnershipTag::Owned),
            ),
            (EnsurePhase::Confirming, EnsureEvent::Probed(false)) => EnsurePhase::Finished(
                EnsureOutcome::Failed(LauncherError::StartupFailed),
            ),
            _ => self,
        }
    }

    /// Whether the phase waits for `event`.
    pub open spec fn expects(self, event: EnsureEvent) -> bool {
        match (self, event) {
            (EnsurePhase::Probing, EnsureEvent::Probed(_)) => true,
            (EnsurePhase::Spawning, EnsureEvent::Spawned) => true,
            (EnsurePhase::Spawning, EnsureEvent::SpawnFailed(_)) => true,
            (EnsurePhase::Polling(_), EnsureEvent::Probed(_)) => true,
            (EnsurePhase::Sleeping(_), EnsureEvent::Slept) => true,
            (EnsurePhase::Confirming, EnsureEvent::Probed(_)) => true,
            _ => false,
        }
    }

    /// An upper bound on the events that the phase can still wait for.
    pub open spec fn steps_left(self) -> nat {
        match self {
            EnsurePhase::Probing => 2 * OLLAMA_RETRY_COUNT as nat + 3,
            EnsurePhase::Spawning => 2 * OLLAMA_RETRY_COUNT as nat + 2,
            EnsurePhase::Polling(time) => if time < OLLAMA_RETRY_COUNT {
                (2 * (OLLAMA_RETRY_COUNT - time) + 1) as nat
            } else {
                3
            },
            EnsurePhase::Sleeping(time) => if time < OLLAMA_RETRY_COUNT {
                (2 * (OLLAMA_RETRY_COUNT - time)) as nat
            } else {
                2
            },
            EnsurePhase::Confirming => 1,
            EnsurePhase::Finished(_) => 0,
        }
    }
}

/// The launcher's way of making sure that the Ollama server answers.
#[derive(Debug, Clone, Copy)]
pub struct OllamaStartup {
    phase: EnsurePhase,
}

impl View for OllamaStartup {
    type V = EnsurePhase;

    closed spec fn view(&self) -> EnsurePhase {
        self.phase
    }
}

impl OllamaStartup {
    /// The beginning: the first thing to do is to ask whether a server is
    /// there already.
    pub fn new() -> (start: (OllamaStartup, EnsureAction))
        ensures
            start.0@ == EnsurePhase::Probing,
            start.1 == EnsureAction::Probe,
    {
        (OllamaStartup { phase: EnsurePhase::Probing }, EnsureAction::Probe)
    }

    /// Where the launcher stands.
    pub fn phase(&self) -> (phase: EnsurePhase)
        ensures
            phase == self@,
    {
        self.phase
    }

    /// Takes in what was learnt and gives the action to perform next: the
    /// one that the new phase waits for.
    pub fn step(&mut self, event: EnsureEvent) -> (action: EnsureAction)
        ensures
            final(self)@ == old(self)@.next(event),
            action == final(self)@.awaited(),
    {
        let next = match (self.phase, event) {
            (EnsurePhase::Probing, EnsureEvent::Probed(true)) => EnsurePhase::Finished(
                EnsureOutcome::Ready(OwnershipTag::External),
            ),
            (EnsurePhase::Probing, EnsureEvent::Probed(false)) => EnsurePhase::Spawning,
            (EnsurePhase::Spawning, EnsureEvent::Spawned) => if OLLAMA_RETRY_COUNT > 0 {
                EnsurePhase::Polling(0)
            } else {
                EnsurePhase::Confirming
            },
            (EnsurePhase::Spawning, EnsureEvent::SpawnFailed(e)) => EnsurePhase::Finished(EnsureOutcome::Failed(e)),
            (EnsurePhase::Polling(_), EnsureEvent::Probed(true)) => EnsurePhase::Confirming,
            (EnsurePhase::Polling(time), EnsureEvent::Probed(false)) => EnsurePhase::Sleeping(
                time,
            ),
            (EnsurePhase::Sleeping(time), EnsureEvent::Slept) => if time < OLLAMA_RETRY_COUNT - 1 {
                EnsurePhase::Polling(time + 1)
            } else {
                EnsurePhase::Confirming
            },
            (EnsurePhase::Confirming, EnsureEvent::Probed(true)) => EnsurePhase::Finished(
                EnsureOutcome::Ready(OwnershipTag::Owned),
            ),
            (EnsurePhase::Confirming, EnsureEvent::Probed(false)) => EnsurePhase::Finished(
                EnsureOutcome::Failed(LauncherError::StartupFailed),
            ),
            (phase, _) => phase,
        };
        self.phase = next;
        match next {
            EnsurePhase::Probing | EnsurePhase::Polling(_) | EnsurePhase::Confirming =>
                EnsureAction::Probe,
            EnsurePhase::Spawning => EnsureAction::Spawn,
            EnsurePhase::Sleeping(_) => EnsureAction::Sleep(OLLAMA_RETRY_INTERVAL_MILLIS),
            EnsurePhase::Finished(result) => EnsureAction::Finish(result),
        }
    }
}

/// Begins with starting a server, without asking first whether one is there:
/// the first thing to do is to start it. The server then counts as the
/// launcher's own once it answers.
pub fn spawn_ollama() -> (start: (OllamaStartup, EnsureAction))
    ensures
        start.0@ == EnsurePhase::Spawning,
        start.1 == EnsureAction::Spawn,
{
    (OllamaStartup { phase: EnsurePhase::Spawning }, EnsureAction::Spawn)
}

/// The phase after a run of events.
pub open spec fn ensure_run(start: EnsurePhase, events: Seq<EnsureEvent>) -> EnsurePhase
    decreases events.len(),
{
    if events.len() == 0 {
        start
    } else {
        ensure_run(start, events.drop_last()).next(events.last())
    }
}

/// Whether every event of a run is one that the phase before it waits for.
pub open spec fn all_expected(start: EnsurePhase, events: Seq<EnsureEvent>) -> bool
    decreases events.len(),
{
    events.len() > 0 ==> all_expected(start, events.drop_last()) && ensure_run(
        start,
        events.drop_last(),
    ).expects(events.last())
}

/// Every event that a phase waits for brings the end nearer, and an event
/// that it does not wait for changes nothing.
pub proof fn lemma_ensure_step(phase: EnsurePhase, event: EnsureEvent)
    ensures
        phase.expects(event) ==> phase.next(event).steps_left() < phase.steps_left(),
        !phase.expects(event) ==> phase.next(event) == phase,
        phase.steps_left() == 0 <==> phase is Finished,
{
}

/// Making sure of the server never goes on without end: from the beginning
/// it takes at most twenty-three events that are waited for, and once that
/// many have come in, it is finished.
pub proof fn lemma_ensure_ends(start: EnsurePhase, events: Seq<EnsureEvent>)
    requires
        all_expected(start, events),
    ensures
        ensure_run(start, events).steps_left() + events.len() <= start.steps_left(),
        events.len() <= 2 * OLLAMA_RETRY_COUNT + 3,
    decreases events.len(),
{
    if events.len() > 0 {
        lemma_ensure_ends(start, events.drop_last());
        lemma_ensure_step(ensure_run(start, events.drop_last()), events.last());
    }
}

/// How the end relates to what was done. The server counts as one that was
/// there before only if the very first question was answered; it counts as
/// the launcher's own only if the launcher started it and the last question
/// was answered; and the launcher gives up with `StartupFailed` only if the
/// last question went unanswered.
pub proof fn lemma_ensure_result(phase: EnsurePhase, event: EnsureEvent)
    requires
        !(phase is Finished),
    ensures
        phase.next(event) == EnsurePhase::Finished(EnsureOutcome::Ready(OwnershipTag::External)) <==> phase
            == EnsurePhase::Probing && event == EnsureEvent::Probed(true),
        phase.next(event) == EnsurePhase::Finished(EnsureOutcome::Ready(OwnershipTag::Owned)) <==> phase
            == EnsurePhase::Confirming && event == EnsureEvent::Probed(true),
        phase.next(event) == EnsurePhase::Finished(EnsureOutcome::Failed(LauncherError::StartupFailed)) <==> (phase
            == EnsurePhase::Confirming && event == EnsureEvent::Probed(false)) || (phase
            == EnsurePhase::Spawning && event == EnsureEvent::SpawnFailed(
            LauncherError::StartupFailed,
        )),
        phase.expects(event) && phase.next(event) is Spawning ==> phase is Probing,
        phase.expects(event) && phase.next(event) is Confirming ==> phase is Polling
            || phase is Sleeping || phase is Spawning,
{
}

/// What a report on the download of a model holds: how much is done and how
/// much there is in all, where the server says so.
#[derive(Debug, Clone, Copy, PartialEq, Eq, Structural)]
pub struct PullStatus {
    pub completed: Option<u64>,
    pub total: Option<u64>,
}

/// What to show for a report on the download of a model.
#[derive(Debug, Clone, Copy, PartialEq, Eq, Structural)]
pub enum PullProgress {
    /// Move the bar to the given position.
    SetPosition(u64),
    /// Make a bar of the given length.
    CreateBar(u64),
    /// Show nothing new.
    Keep,
}

/// What to show for a report on the download of a model: with a bar, its new
/// position where the report says how much is done; without one, a bar as
/// long as the report says there is in all.
pub fn pull_progress(has_bar: bool, status: PullStatus) -> (progress: PullProgress)
    ensures
        progress == if has_bar {
            match status.completed {
                Some(done) => PullProgress::SetPosition(done),
                None => PullProgress::Keep,
            }
        } else {
            match status.total {
                Some(total) => PullProgress::CreateBar(total),
                None => PullProgress::Keep,
            }
        },
{
    if has_bar {
        match status.completed {
            Some(done) => PullProgress::SetPosition(done),
            None => PullProgress::Keep,
        }
    } else {
        match status.total {
            Some(total) => PullProgress::CreateBar(total),
            None => PullProgress::Keep,
        }
    }
}

} // verus!

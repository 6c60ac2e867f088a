//! The limit on open files: the compute node opens many, so the launcher
//! raises the limit where it is low.

use vstd::prelude::*;

verus! {

/// The soft and the hard limit.
pub type Limits = (u64, u64);

/// The soft limit that is assumed and asked for, but on macOS.
pub const DEFAULT_SOFT_LIMIT: u64 = 1024;

/// The hard limit that is assumed and asked for, but on macOS.
pub const DEFAULT_HARD_LIMIT: u64 = 1048576;

/// The soft limit that is assumed and asked for on macOS.
pub const MACOS_SOFT_LIMIT: u64 = 1048575;

/// The hard limit that is assumed and asked for on macOS.
pub const MACOS_HARD_LIMIT: u64 = 41943040;

/// The limits that are taken for the machine's where they cannot be read,
/// and that are set where the machine's are too low.
pub open spec fn default_limits(macos: bool) -> Limits {
    if macos {
        (MACOS_SOFT_LIMIT, MACOS_HARD_LIMIT)
    } else {
        (DEFAULT_SOFT_LIMIT, DEFAULT_HARD_LIMIT)
    }
}

/// The limits to set, if any, given the machine's limits where they could be
/// read: the default limits, if the soft limit is below a tenth of the hard
/// limit.
pub open spec fn planned_limits(current: Option<Limits>, macos: bool) -> Option<Limits> {
    let (soft, hard) = match current {
        Some(limits) => limits,
        None => default_limits(macos),
    };
    if soft < hard / 10 {
        Some(default_limits(macos))
    } else {
        None
    }
}

/// What was done about the limit on open files.
#[derive(Debug, Clone, Copy, PartialEq, Eq, Structural)]
pub enum RlimitOutcome {
    /// The limits were high enough and stay as they are: soft and hard.
    Kept(u64, u64),
    /// The limits were too low, and were set to the given ones.
    Raised(u64, u64),
    /// The limits were too low and could not be set.
    Failed,
}

/// What comes of the machine's limits, where they could be read, and of
/// whether setting new ones succeeded, where new ones were to be set.
pub open spec fn outcome_of(current: Option<Limits>, macos: bool, set_ok: bool) -> RlimitOutcome {
    match planned_limits(current, macos) {
        None => {
            let (soft, hard) = match current {
                Some(limits) => limits,
                None => default_limits(macos),
            };
            RlimitOutcome::Kept(soft, hard)
        },
        Some((soft, hard)) => if set_ok {
            RlimitOutcome::Raised(soft, hard)
        } else {
            RlimitOutcome::Failed
        },
    }
}

/// `rlimit::getrlimit` for `NOFILE`: the soft and the hard limit on open
/// files of this process, or nothing where the system does not tell. The
/// result is the machine's to say; nothing is claimed of it.
#[verifier::external_body]
fn nofile_limits() -> (limits: Option<Limits>) {
    rlimit::getrlimit(rlimit::Resource::NOFILE).ok()
}

/// `rlimit::setrlimit` for `NOFILE`: asks the system for the given limits on
/// open files and tells whether it agreed. Nothing is claimed of the answer.
#[verifier::external_body]
fn set_nofile_limits(soft: u64, hard: u64) -> (agreed: bool) {
    rlimit::setrlimit(rlimit::Resource::NOFILE, soft, hard).is_ok()
}

/// The limits to set, if any, given the machine's limits where they could be
/// read.
pub fn plan_rlimit(current: Option<Limits>, macos: bool) -> (plan: Option<Limits>)
    ensures
        plan == planned_limits(current, macos),
{
    let defaults: Limits = if macos {
        (MACOS_SOFT_LIMIT, MACOS_HARD_LIMIT)
    } else {
        (DEFAULT_SOFT_LIMIT, DEFAULT_HARD_LIMIT)
    };
    let (soft, hard) = match current {
        Some(limits) => limits,
        None => defaults,
    };
    if soft < hard / 10 {
        Some(defaults)
    } else {
        None
    }
}

/// What comes of the machine's limits, where they could be read, and of
/// whether setting new ones succeeded, where new ones were to be set.
pub fn rlimit_outcome(current: Option<Limits>, macos: bool, set_ok: bool) -> (outcome: RlimitOutcome)
    ensures
        outcome == outcome_of(current, macos, set_ok),
{
    match plan_rlimit(current, macos) {
        None => {
            let (soft, hard) = match current {
                Some(limits) => limits,
                None => if macos {
                    (MACOS_SOFT_LIMIT, MACOS_HARD_LIMIT)
                } else {
                    (DEFAULT_SOFT_LIMIT, DEFAULT_HARD_LIMIT)
                },
            };
            RlimitOutcome::Kept(soft, hard)
        },
        Some((soft, hard)) => if set_ok {
            RlimitOutcome::Raised(soft, hard)
        } else {
            RlimitOutcome::Failed
        },
    }
}

/// Raises the limit on open files of this process where it is low, on macOS
/// or on another system. The machine's limits are read; if the soft limit is
/// below a tenth of the hard limit, the default limits are asked for. What
/// comes of it is what [`rlimit_outcome`] makes of the limits that were read
/// and of whether the system agreed to new ones.
pub fn configure_rlimit(macos: bool) -> (outcome: RlimitOutcome)
    ensures
        exists|current: Option<Limits>, set_ok: bool|
            outcome == #[trigger] outcome_of(current, macos, set_ok),
{
    let current = nofile_limits();
    let agreed = match plan_rlimit(current, macos) {
        Some((soft, hard)) => set_nofile_limits(soft, hard),
        None => true,
    };
    let outcome = rlimit_outcome(current, macos, agreed);
    outcome
}

} // verus!

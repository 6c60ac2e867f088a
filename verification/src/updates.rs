//! Whether an installed version is out of date.

use crate::releases::DriaRelease;
use crate::text::str_eq;
use vstd::prelude::*;

verus! {

/// Whether the compute node must be installed anew: the recorded version is
/// not the latest, or none is recorded, or the file of the compute node is
/// not there.
pub open spec fn compute_update_required(
    recorded: Option<Seq<char>>,
    latest: Seq<char>,
    compute_exists: bool,
) -> bool {
    recorded != Some(latest) || !compute_exists
}

/// Whether the launcher must be replaced: the running version is not the
/// latest.
pub open spec fn launcher_update_required(current: Seq<char>, latest: Seq<char>) -> bool {
    current != latest
}

/// The latest release of the compute node together with whether it must be
/// installed, given the version that is recorded as installed and whether
/// the file of the compute node is there.
pub fn check_for_compute_node_update(
    recorded: Option<&str>,
    latest_release: DriaRelease,
    compute_exists: bool,
) -> (checked: (DriaRelease, bool))
    ensures
        checked.0 == latest_release,
        checked.1 == compute_update_required(
            match recorded {
                Some(version) => Some(version@),
                None => None,
            },
            latest_release@.version,
            compute_exists,
        ),
{
    let is_latest = match recorded {
        Some(version) => str_eq(version, latest_release.version()),
        None => false,
    };
    let requires_update = !is_latest || !compute_exists;
    (latest_release, requires_update)
}

/// The latest release of the launcher together with whether the launcher
/// that runs must be replaced by it.
pub fn check_for_launcher_update(current_version: &str, latest_release: DriaRelease) -> (checked: (
    DriaRelease,
    bool,
))
    ensures
        checked.0 == latest_release,
        checked.1 == launcher_update_required(current_version@, latest_release@.version),
{
    let requires_update = !str_eq(current_version, latest_release.version());
    (latest_release, requires_update)
}

} // verus!

//! The installation of a downloaded file, in such steps that the file it
//! replaces is never seen half written: the download goes to a file of its
//! own beside the destination, and only a complete download is renamed over
//! the destination.

use crate::error::LauncherError;
use crate::releases::DriaRelease;
use crate::text::{extend_chars, from_chars, str_eq, to_chars};
use vstd::prelude::*;

verus! {

/// The permissions that an installed file gets where files have any: to
/// read, write and execute, for its owner, its group and all others.
pub const INSTALLED_FILE_MODE: u32 = 0o777;

/// The name of the file that a download for `dest` goes to.
pub open spec fn temp_name(dest: Seq<char>) -> Seq<char> {
    "tmp_"@ + dest
}

/// The name of the file that a download for `dest_name` goes to, in the
/// same directory: `tmp_` and the name.
pub fn temp_file_name(dest_name: &str) -> (name: String)
    ensures
        name@ == temp_name(dest_name@),
        name@ != dest_name@,
{
    let mut text = to_chars("tmp_");
    extend_chars(&mut text, &to_chars(dest_name));
    proof {
        lemma_temp_name_differs(dest_name@);
    }
    from_chars(&text)
}

/// The file of a download is never the destination itself.
pub proof fn lemma_temp_name_differs(dest: Seq<char>)
    ensures
        temp_name(dest) != dest,
{
    reveal_strlit("tmp_");
}

/// Where an installation stands.
#[derive(Debug, Clone, Copy, PartialEq, Eq, Structural)]
pub enum InstallPhase {
    /// Nothing was done yet.
    Created,
    /// The file for the download is being made.
    CreatingTemp,
    /// The download is under way.
    Downloading,
    /// The downloaded file is being renamed to the destination.
    Renaming,
    /// The destination is being given its permissions.
    Permitting,
    /// The destination holds the downloaded file.
    Installed,
    /// The installation failed before the destination was touched.
    Failed(LauncherError),
    /// The destination holds the downloaded file, but could not be given its
    /// permissions.
    Unfinished(LauncherError),
}

/// What happened to the step that was asked for last.
#[derive(Debug, Clone, Copy, PartialEq, Eq, Structural)]
pub enum InstallEvent {
    /// The installation is asked to begin.
    Begin,
    /// The step is done.
    Done,
    /// The step failed.
    Failed(LauncherError),
}

/// The next step of an installation.
#[derive(Debug, Clone, Copy, PartialEq, Eq, Structural)]
pub enum InstallAction {
    /// Make the file for the download, empty.
    CreateTemp,
    /// Download from the address into the file for the download.
    Download,
    /// Rename the file of the download to the destination.
    Rename,
    /// Give the destination the permissions [`INSTALLED_FILE_MODE`].
    SetPermissions,
    /// Nothing is left to do: the file is installed.
    Finish,
    /// Nothing more is done: the installation failed.
    GiveUp(LauncherError),
    /// Wait to be asked to begin.
    Wait,
}

/// What an [`Installer`] holds.
pub struct InstallerView {
    /// The address to download from.
    pub url: Seq<char>,
    /// The name of the destination.
    pub dest: Seq<char>,
    /// Whether files have permissions on this machine.
    pub permissions: bool,
    /// Where the installation stands.
    pub phase: InstallPhase,
}

impl InstallPhase {
    /// The step that a phase asks for.
    pub open spec fn action(self) -> InstallAction {
        match self {
            InstallPhase::Created => InstallAction::Wait,
            InstallPhase::CreatingTemp => InstallAction::CreateTemp,
            InstallPhase::Downloading => InstallAction::Download,
            InstallPhase::Renaming => InstallAction::Rename,
            InstallPhase::Permitting => InstallAction::SetPermissions,
            InstallPhase::Installed => InstallAction::Finish,
            InstallPhase::Failed(e) => InstallAction::GiveUp(e),
            InstallPhase::Unfinished(e) => InstallAction::GiveUp(e),
        }
    }

    /// Whether the destination holds the downloaded file.
    pub open spec fn has_replaced(self) -> bool {
        self is Permitting || self is Installed || self is Unfinished
    }

    /// The phase after `event`, on a machine where files have permissions
    /// or not.
    pub open spec fn next(self, event: InstallEvent, permissions: bool) -> InstallPhase {
        match (self, event) {
            (InstallPhase::Created, InstallEvent::Begin) => InstallPhase::CreatingTemp,
            (InstallPhase::CreatingTemp, InstallEvent::Done) => InstallPhase::Downloading,
            (InstallPhase::Downloading, InstallEvent::Done) => InstallPhase::Renaming,
            (InstallPhase::Renaming, InstallEvent::Done) => if permissions {
                InstallPhase::Permitting
            } else {
                InstallPhase::Installed
            },
            (InstallPhase::Permitting, InstallEvent::Done) => InstallPhase::Installed,
            (InstallPhase::CreatingTemp, InstallEvent::Failed(e)) => InstallPhase::Failed(e),
            (InstallPhase::Downloading, InstallEvent::Failed(e)) => InstallPhase::Failed(e),
            (InstallPhase::Renaming, InstallEvent::Failed(e)) => InstallPhase::Failed(e),
            (InstallPhase::Permitting, InstallEvent::Failed(e)) => InstallPhase::Unfinished(e),
            _ => self,
        }
    }
}

/// The installation of one file.
pub struct Installer {
    url: String,
    dest_name: String,
    permissions: bool,
    phase: InstallPhase,
}

impl View for Installer {
    type V = InstallerView;

    closed spec fn view(&self) -> InstallerView {
        InstallerView {
            url: self.url@,
            dest: self.dest_name@,
            permissions: self.permissions,
            phase: self.phase,
        }
    }
}

/// What the installation of a release's asset starts from: the asset that
/// the release has for the machine, to be installed under `dest_name`.
pub open spec fn installation(
    release: crate::releases::ReleaseView,
    dest_is_dir: bool,
    dest_name: Seq<char>,
    os: Seq<char>,
    arch: Seq<char>,
    family: Seq<char>,
) -> Result<InstallerView, LauncherError> {
    if !dest_is_dir {
        Err(LauncherError::IoError)
    } else {
        match release.asset(os, arch, family) {
            Err(e) => Err(e),
            Ok(asset) => Ok(
                InstallerView {
                    url: asset.download_url,
                    dest: dest_name,
                    permissions: family == "unix"@,
                    phase: InstallPhase::Created,
                },
            ),
        }
    }
}

impl DriaRelease {
    /// Prepares the installation of this release under the name `dest_name`
    /// in a directory, for the machine with the given system, processor and
    /// family of systems. `IoError` where the directory is none;
    /// `UnsupportedPlatform` and `NotFound` as [`DriaRelease::asset`] gives
    /// them.
    pub fn download_release(
        &self,
        dest_is_dir: bool,
        dest_name: &str,
        os: &str,
        arch: &str,
        family: &str,
    ) -> (prepared: Result<Installer, LauncherError>)
        ensures
            match prepared {
                Ok(installer) => installation(self@, dest_is_dir, dest_name@, os@, arch@, family@)
                    == Ok::<InstallerView, LauncherError>(installer@),
                Err(e) => installation(self@, dest_is_dir, dest_name@, os@, arch@, family@) == Err::<
                    InstallerView,
                    LauncherError,
                >(e),
            },
    {
        if !dest_is_dir {
            return Err(LauncherError::IoError);
        }
        match self.asset(os, arch, family) {
            Err(e) => Err(e),
            Ok(asset) => Ok(
                Installer {
                    url: asset.download_url,
                    dest_name: String::from_str(dest_name),
                    permissions: str_eq(family, "unix"),
                    phase: InstallPhase::Created,
                },
            ),
        }
    }
}

impl Installer {
    /// The installation of what `url` offers under the name `dest_name`.
    pub fn new(url: String, dest_name: String, permissions: bool) -> (installer: Installer)
        ensures
            installer@ == (InstallerView {
                url: url@,
                dest: dest_name@,
                permissions,
                phase: InstallPhase::Created,
            }),
    {
        Installer { url, dest_name, permissions, phase: InstallPhase::Created }
    }

    /// The address to download from.
    pub fn url(&self) -> (url: &str)
        ensures
            url@ == self@.url,
    {
        self.url.as_str()
    }

    /// The name of the destination.
    pub fn dest_name(&self) -> (name: &str)
        ensures
            name@ == self@.dest,
    {
        self.dest_name.as_str()
    }

    /// The name of the file that the download goes to.
    pub fn temp_name(&self) -> (name: String)
        ensures
            name@ == temp_name(self@.dest),
            name@ != self@.dest,
    {
        temp_file_name(self.dest_name.as_str())
    }

    /// Where the installation stands.
    pub fn phase(&self) -> (phase: InstallPhase)
        ensures
            phase == self@.phase,
    {
        self.phase
    }

    /// Takes in what happened to the last step and gives the next one.
    pub fn step(&mut self, event: InstallEvent) -> (action: InstallAction)
        ensures
            final(self)@ == (InstallerView {
                phase: old(self)@.phase.next(event, old(self)@.permissions),
                ..old(self)@
            }),
            action == final(self)@.phase.action(),
    {
        let next = match (self.phase, event) {
            (InstallPhase::Created, InstallEvent::Begin) => InstallPhase::CreatingTemp,
            (InstallPhase::CreatingTemp, InstallEvent::Done) => InstallPhase::Downloading,
            (InstallPhase::Downloading, InstallEvent::Done) => InstallPhase::Renaming,
            (InstallPhase::Renaming, InstallEvent::Done) => if self.permissions {
                InstallPhase::Permitting
            } else {
                InstallPhase::Installed
            },
            (InstallPhase::Permitting, InstallEvent::Done) => InstallPhase::Installed,
            (InstallPhase::CreatingTemp, InstallEvent::Failed(e)) => InstallPhase::Failed(e),
            (InstallPhase::Downloading, InstallEvent::Failed(e)) => InstallPhase::Failed(e),
            (InstallPhase::Renaming, InstallEvent::Failed(e)) => InstallPhase::Failed(e),
            (InstallPhase::Permitting, InstallEvent::Failed(e)) => InstallPhase::Unfinished(e),
            (phase, _) => phase,
        };
        self.phase = next;
        match next {
            InstallPhase::Created => InstallAction::Wait,
            InstallPhase::CreatingTemp => InstallAction::CreateTemp,
            InstallPhase::Downloading => InstallAction::Download,
            InstallPhase::Renaming => InstallAction::Rename,
            InstallPhase::Permitting => InstallAction::SetPermissions,
            InstallPhase::Installed => InstallAction::Finish,
            InstallPhase::Failed(e) => InstallAction::GiveUp(e),
            InstallPhase::Unfinished(e) => InstallAction::GiveUp(e),
        }
    }
}

/// The files of a directory: what each name holds.
pub type Files = Map<Seq<char>, Seq<u8>>;

/// What a step does to the files of the directory, for a destination `dest`.
/// `written` is what the step wrote: for a download that is done, all of the
/// download; for one that failed, whatever had arrived. A step that fails
/// otherwise leaves the files as they were.
pub open spec fn effect(
    phase: InstallPhase,
    event: InstallEvent,
    dest: Seq<char>,
    files: Files,
    written: Seq<u8>,
) -> Files {
    let temp = temp_name(dest);
    match (phase, event) {
        (InstallPhase::CreatingTemp, InstallEvent::Done) => files.insert(temp, seq![]),
        (InstallPhase::Downloading, InstallEvent::Done) => files.insert(temp, written),
        (InstallPhase::Downloading, InstallEvent::Failed(_)) => files.insert(temp, written),
        (InstallPhase::Renaming, InstallEvent::Done) => if files.contains_key(temp) {
            files.remove(temp).insert(dest, files[temp])
        } else {
            files
        },
        _ => files,
    }
}

/// The phase and the files after a run of events, each with what its step
/// wrote.
pub open spec fn install_run(
    start: InstallPhase,
    permissions: bool,
    dest: Seq<char>,
    files: Files,
    events: Seq<(InstallEvent, Seq<u8>)>,
) -> (InstallPhase, Files)
    decreases events.len(),
{
    if events.len() == 0 {
        (start, files)
    } else {
        let (phase, before) = install_run(start, permissions, dest, files, events.drop_last());
        (
            phase.next(events.last().0, permissions),
            effect(phase, events.last().0, dest, before, events.last().1),
        )
    }
}

/// Whether two directories hold the same under `name`: nothing in both, or
/// the same bytes.
pub open spec fn same_file(a: Files, b: Files, name: Seq<char>) -> bool {
    a.contains_key(name) == b.contains_key(name) && (a.contains_key(name) ==> a[name] == b[name])
}

/// An installation that does not get as far as renaming the download leaves
/// the destination exactly as it was: not there if it was not there, and
/// else with the bytes that it had. Whatever fails, and however much of the
/// download had arrived, the destination is never seen half written. And
/// where the destination was replaced, it holds what the file of the download
/// held when it was renamed.
pub proof fn lemma_destination_untouched(
    permissions: bool,
    dest: Seq<char>,
    files: Files,
    events: Seq<(InstallEvent, Seq<u8>)>,
)
    ensures
        !install_run(InstallPhase::Created, permissions, dest, files, events).0.has_replaced()
            ==> same_file(
            install_run(InstallPhase::Created, permissions, dest, files, events).1,
            files,
            dest,
        ),
        install_run(InstallPhase::Created, permissions, dest, files, events).0 is Failed
            ==> same_file(
            install_run(InstallPhase::Created, permissions, dest, files, events).1,
            files,
            dest,
        ),
    decreases events.len(),
{
    lemma_temp_name_differs(dest);
    if events.len() > 0 {
        lemma_destination_untouched(permissions, dest, files, events.drop_last());
        lemma_replaced_stays(permissions, dest, files, events.drop_last(), events.last().0);
    }
}

/// Once the destination was replaced, the installation does not go back.
pub proof fn lemma_replaced_stays(
    permissions: bool,
    dest: Seq<char>,
    files: Files,
    events: Seq<(InstallEvent, Seq<u8>)>,
    event: InstallEvent,
)
    ensures
        install_run(InstallPhase::Created, permissions, dest, files, events).0.has_replaced()
            ==> install_run(InstallPhase::Created, permissions, dest, files, events).0.next(
            event,
            permissions,
        ).has_replaced(),
{
}

/// A download that is complete is what the destination holds in the end: if
/// the file of the download was made, the download came in whole as
/// `content` and the rename was done, then the destination holds `content`.
pub proof fn lemma_installed_file(
    permissions: bool,
    dest: Seq<char>,
    files: Files,
    content: Seq<u8>,
)
    ensures
        install_run(
            InstallPhase::Created,
            permissions,
            dest,
            files,
            seq![
                (InstallEvent::Begin, seq![]),
                (InstallEvent::Done, seq![]),
                (InstallEvent::Done, content),
                (InstallEvent::Done, seq![]),
            ],
        ).1.contains_pair(dest, content),
        install_run(
            InstallPhase::Created,
            permissions,
            dest,
            files,
            seq![
                (InstallEvent::Begin, seq![]),
                (InstallEvent::Done, seq![]),
                (InstallEvent::Done, content),
                (InstallEvent::Done, seq![]),
            ],
        ).0.has_replaced(),
{
    lemma_temp_name_differs(dest);
    let events = seq![
        (InstallEvent::Begin, Seq::<u8>::empty()),
        (InstallEvent::Done, Seq::<u8>::empty()),
        (InstallEvent::Done, content),
        (InstallEvent::Done, Seq::<u8>::empty()),
    ];
    let e3 = events.drop_last();
    let e2 = e3.drop_last();
    let e1 = e2.drop_last();
    let e0 = e1.drop_last();
    let r0 = install_run(InstallPhase::Created, permissions, dest, files, e0);
    let r1 = install_run(InstallPhase::Created, permissions, dest, files, e1);
    let r2 = install_run(InstallPhase::Created, permissions, dest, files, e2);
    let r3 = install_run(InstallPhase::Created, permissions, dest, files, e3);
    assert(r0.0 == InstallPhase::Created);
    assert(r1.0 == InstallPhase::CreatingTemp);
    assert(r2.0 == InstallPhase::Downloading);
    assert(r3.0 == InstallPhase::Renaming);
    assert(r3.1.contains_pair(temp_name(dest), content));
}

} // verus!

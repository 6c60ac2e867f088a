//! Releases of the compute node and of the launcher: which asset of a
//! release is for which machine, how its file is named, and which release
//! of a list is meant.

use crate::error::LauncherError;
use crate::text::{
    chars_start_with, extend_chars, from_chars, parse_bounded, parse_chars, split, split_chars,
    starts_with, str_eq, to_chars, views,
};
use vstd::prelude::*;

verus! {

/// The file that always holds the newest compute node, but for the
/// extension of executable files.
pub const DKN_LATEST_COMPUTE_FILE: &'static str = "dkn-compute-node_latest";

/// The file that records which version of the compute node is installed.
pub const DKN_VERSION_TRACKER_FILE: &'static str = ".dkn-compute-version";

/// Whose releases are meant: the compute node's or the launcher's own.
#[derive(Debug, Clone, Copy, PartialEq, Eq, Structural)]
pub enum DriaRepository {
    ComputeNode,
    Launcher,
}

impl DriaRepository {
    /// The name of the repository.
    pub open spec fn spec_name(self) -> Seq<char> {
        match self {
            DriaRepository::ComputeNode => "dkn-compute-node"@,
            DriaRepository::Launcher => "dkn-compute-launcher"@,
        }
    }

    /// The name of the repository.
    pub fn name(&self) -> (name: &'static str)
        ensures
            name@ == self.spec_name(),
    {
        match self {
            DriaRepository::ComputeNode => "dkn-compute-node",
            DriaRepository::Launcher => "dkn-compute-launcher",
        }
    }

    /// What the names of the repository's assets begin with.
    pub open spec fn asset_prefix(self) -> Seq<char> {
        match self {
            DriaRepository::ComputeNode => "dkn-compute-binary"@,
            DriaRepository::Launcher => "dkn-compute-launcher"@,
        }
    }
}

/// The names under which releases know a machine: its system, its processor
/// and the extension of its executable files. A machine outside this table
/// has none.
pub open spec fn labels(os: Seq<char>, arch: Seq<char>, family: Seq<char>) -> Option<
    (Seq<char>, Seq<char>, Seq<char>),
> {
    let os_label = if os == "windows"@ {
        Some("windows"@)
    } else if os == "linux"@ {
        Some("linux"@)
    } else if os == "macos"@ {
        Some("macOS"@)
    } else {
        None
    };
    let arch_label = if arch == "x86_64"@ {
        Some("amd64"@)
    } else if arch == "arm"@ || arch == "aarch64"@ {
        Some("arm64"@)
    } else {
        None
    };
    let extension = if family == "windows"@ {
        Some(".exe"@)
    } else if family == "unix"@ {
        Some(""@)
    } else {
        None
    };
    match (os_label, arch_label, extension) {
        (Some(o), Some(a), Some(e)) => Some((o, a, e)),
        _ => None,
    }
}

/// The name of the asset of `repo` for a machine with the given labels.
pub open spec fn asset_name(repo: DriaRepository, label: (Seq<char>, Seq<char>, Seq<char>)) -> Seq<
    char,
> {
    repo.asset_prefix() + "-"@ + label.0 + "-"@ + label.1 + label.2
}

/// The name of the file of a release of `repo` with the given version, on a
/// machine whose executable files have the given extension.
pub open spec fn file_name(repo: DriaRepository, version: Seq<char>, extension: Seq<char>) -> Seq<
    char,
> {
    repo.spec_name() + "_v"@ + version + extension
}

/// Whether a version is too old to be offered: the launcher's releases
/// before 0.1.0 are.
pub open spec fn is_retired(repo: DriaRepository, version: Seq<char>) -> bool {
    repo == DriaRepository::Launcher && starts_with(version, "0.0."@)
}

/// Whether a version is three numbers of thirty-two bits with a dot between
/// each two.
pub open spec fn is_well_formed_version(version: Seq<char>) -> bool {
    let parts = split(version, '.');
    &&& parts.len() == 3
    &&& parse_bounded(parts[0], u32::MAX as nat) is Some
    &&& parse_bounded(parts[1], u32::MAX as nat) is Some
    &&& parse_bounded(parts[2], u32::MAX as nat) is Some
}

/// A file that a release offers for download.
pub struct ReleaseAsset {
    pub name: String,
    pub download_url: String,
}

/// What a [`ReleaseAsset`] holds, as texts.
pub struct AssetView {
    pub name: Seq<char>,
    pub download_url: Seq<char>,
}

impl View for ReleaseAsset {
    type V = AssetView;

    open spec fn view(&self) -> AssetView {
        AssetView { name: self.name@, download_url: self.download_url@ }
    }
}

impl ReleaseAsset {
    /// An asset with the same name and address.
    pub fn duplicate(&self) -> (copy: ReleaseAsset)
        ensures
            copy@ == self@,
    {
        ReleaseAsset { name: self.name.clone(), download_url: self.download_url.clone() }
    }
}

/// The views of a list of assets, in order.
pub open spec fn asset_views(assets: Seq<ReleaseAsset>) -> Seq<AssetView> {
    Seq::new(assets.len(), |i: int| assets[i]@)
}

/// The first asset with the given name.
pub open spec fn find_asset(assets: Seq<AssetView>, name: Seq<char>) -> Option<AssetView>
    decreases assets.len(),
{
    if assets.len() == 0 {
        None
    } else if assets[0].name == name {
        Some(assets[0])
    } else {
        find_asset(assets.drop_first(), name)
    }
}

/// What a [`DriaRelease`] holds.
pub struct ReleaseView {
    pub name: Seq<char>,
    pub version: Seq<char>,
    pub assets: Seq<AssetView>,
    pub repo: DriaRepository,
}

impl ReleaseView {
    /// The asset of the release for the machine with the given system,
    /// processor and family of systems.
    pub open spec fn asset(self, os: Seq<char>, arch: Seq<char>, family: Seq<char>) -> Result<
        AssetView,
        LauncherError,
    > {
        match labels(os, arch, family) {
            None => Err(LauncherError::UnsupportedPlatform),
            Some(label) => match find_asset(self.assets, asset_name(self.repo, label)) {
                Some(asset) => Ok(asset),
                None => Err(LauncherError::NotFound),
            },
        }
    }

    /// The name of the release's file on the machine with the given system,
    /// processor and family of systems.
    pub open spec fn to_filename(self, os: Seq<char>, arch: Seq<char>, family: Seq<char>) -> Result<
        Seq<char>,
        LauncherError,
    > {
        match labels(os, arch, family) {
            None => Err(LauncherError::UnsupportedPlatform),
            Some(label) => Ok(file_name(self.repo, self.version, label.2)),
        }
    }
}

/// A release of one of the two repositories: its name, its version and the
/// assets that it offers. The version is a text that is only ever compared
/// for equality.
pub struct DriaRelease {
    name: String,
    version: String,
    assets: Vec<ReleaseAsset>,
    repo: DriaRepository,
}

impl View for DriaRelease {
    type V = ReleaseView;

    closed spec fn view(&self) -> ReleaseView {
        ReleaseView {
            name: self.name@,
            version: self.version@,
            assets: asset_views(self.assets@),
            repo: self.repo,
        }
    }
}

/// The views of a list of releases, in order.
pub open spec fn release_views(releases: Seq<DriaRelease>) -> Seq<ReleaseView> {
    Seq::new(releases.len(), |i: int| releases[i]@)
}

/// The releases of `repo` among `fetched` that are offered, in their order.
pub open spec fn offered(repo: DriaRepository, fetched: Seq<ReleaseView>) -> Seq<ReleaseView>
    decreases fetched.len(),
{
    if fetched.len() == 0 {
        seq![]
    } else {
        let before = offered(repo, fetched.drop_last());
        if is_retired(repo, fetched.last().version) {
            before
        } else {
            before.push(fetched.last())
        }
    }
}

/// The releases with a well formed version, in their order.
pub open spec fn well_formed(releases: Seq<ReleaseView>) -> Seq<ReleaseView>
    decreases releases.len(),
{
    if releases.len() == 0 {
        seq![]
    } else {
        let before = well_formed(releases.drop_last());
        if is_well_formed_version(releases.last().version) {
            before.push(releases.last())
        } else {
            before
        }
    }
}

/// The first release with the given version.
pub open spec fn find_release(releases: Seq<ReleaseView>, tag: Seq<char>) -> Option<ReleaseView>
    decreases releases.len(),
{
    if releases.len() == 0 {
        None
    } else if releases[0].version == tag {
        Some(releases[0])
    } else {
        find_release(releases.drop_first(), tag)
    }
}

impl DriaRelease {
    /// The names under which releases know the machine with the given system,
    /// processor and family of systems.
    pub fn get_labels(os: &str, arch: &str, family: &str) -> (label: Option<
        (&'static str, &'static str, &'static str),
    >)
        ensures
            match label {
                Some(l) => labels(os@, arch@, family@) == Some((l.0@, l.1@, l.2@)),
                None => labels(os@, arch@, family@) is None,
            },
    {
        let os_label = if str_eq(os, "windows") {
            "windows"
        } else if str_eq(os, "linux") {
            "linux"
        } else if str_eq(os, "macos") {
            "macOS"
        } else {
            return None;
        };
        let arch_label = if str_eq(arch, "x86_64") {
            "amd64"
        } else if str_eq(arch, "arm") || str_eq(arch, "aarch64") {
            "arm64"
        } else {
            return None;
        };
        let extension = if str_eq(family, "windows") {
            ".exe"
        } else if str_eq(family, "unix") {
            ""
        } else {
            return None;
        };
        Some((os_label, arch_label, extension))
    }

    /// A release of `repo` with the given name, version and assets.
    pub fn new(name: String, version: String, assets: Vec<ReleaseAsset>, repo: DriaRepository) -> (release:
        DriaRelease)
        ensures
            release@ == (ReleaseView {
                name: name@,
                version: version@,
                assets: asset_views(assets@),
                repo,
            }),
    {
        DriaRelease { name, version, assets, repo }
    }

    /// The name of the release.
    pub fn name(&self) -> (name: &str)
        ensures
            name@ == self@.name,
    {
        self.name.as_str()
    }

    /// The version of the release.
    pub fn version(&self) -> (version: &str)
        ensures
            version@ == self@.version,
    {
        self.version.as_str()
    }

    /// The repository of the release.
    pub fn repository(&self) -> (repo: DriaRepository)
        ensures
            repo == self@.repo,
    {
        self.repo
    }

    /// A release that holds the same.
    pub fn duplicate(&self) -> (copy: DriaRelease)
        ensures
            copy@ == self@,
    {
        let mut assets: Vec<ReleaseAsset> = Vec::new();
        let mut i: usize = 0;
        while i < self.assets.len()
            invariant
                i <= self.assets.len(),
                asset_views(assets@) == asset_views(self.assets@).take(i as int),
            decreases self.assets.len() - i,
        {
            assets.push(self.assets[i].duplicate());
            assert(asset_views(self.assets@).take(i + 1) == asset_views(self.assets@).take(
                i as int,
            ).push(self.assets@[i as int]@));
            i += 1;
        }
        assert(asset_views(self.assets@).take(self.assets.len() as int) == asset_views(
            self.assets@,
        ));
        DriaRelease {
            name: self.name.clone(),
            version: self.version.clone(),
            assets,
            repo: self.repo,
        }
    }

    /// The name of the release's file on the machine with the given system,
    /// processor and family of systems; `UnsupportedPlatform` for a machine
    /// that releases have no names for.
    pub fn to_filename(&self, os: &str, arch: &str, family: &str) -> (name: Result<
        String,
        LauncherError,
    >)
        ensures
            match name {
                Ok(n) => self@.to_filename(os@, arch@, family@) == Ok::<Seq<char>, LauncherError>(n@),
                Err(e) => self@.to_filename(os@, arch@, family@) == Err::<Seq<char>, LauncherError>(
                    e,
                ),
            },
    {
        match Self::get_labels(os, arch, family) {
            None => Err(LauncherError::UnsupportedPlatform),
            Some(label) => {
                let mut out = to_chars(self.repo.name());
                extend_chars(&mut out, &to_chars("_v"));
                extend_chars(&mut out, &to_chars(self.version.as_str()));
                extend_chars(&mut out, &to_chars(label.2));
                Ok(from_chars(&out))
            },
        }
    }

    /// The asset of the release for the machine with the given system,
    /// processor and family of systems: the first whose name is that of the
    /// machine's asset. `UnsupportedPlatform` for a machine that releases
    /// have no names for, whatever the release holds; `NotFound` where the
    /// release has no asset of that name.
    pub fn asset(&self, os: &str, arch: &str, family: &str) -> (found: Result<
        ReleaseAsset,
        LauncherError,
    >)
        ensures
            match found {
                Ok(a) => self@.asset(os@, arch@, family@) == Ok::<AssetView, LauncherError>(a@),
                Err(e) => self@.asset(os@, arch@, family@) == Err::<AssetView, LauncherError>(e),
            },
            labels(os@, arch@, family@) is None ==> found == Err::<ReleaseAsset, LauncherError>(
                LauncherError::UnsupportedPlatform,
            ),
    {
        match Self::get_labels(os, arch, family) {
            None => Err(LauncherError::UnsupportedPlatform),
            Some(label) => {
                let prefix = match self.repo {
                    DriaRepository::ComputeNode => "dkn-compute-binary",
                    DriaRepository::Launcher => "dkn-compute-launcher",
                };
                let mut target = to_chars(prefix);
                extend_chars(&mut target, &to_chars("-"));
                extend_chars(&mut target, &to_chars(label.0));
                extend_chars(&mut target, &to_chars("-"));
                extend_chars(&mut target, &to_chars(label.1));
                extend_chars(&mut target, &to_chars(label.2));
                let wanted = from_chars(&target);
                let ghost all = asset_views(self.assets@);
                let mut i: usize = 0;
                assert(all.skip(0) == all);
                while i < self.assets.len()
                    invariant
                        i <= self.assets.len(),
                        all == asset_views(self.assets@),
                        labels(os@, arch@, family@) == Some((label.0@, label.1@, label.2@)),
                        wanted@ == asset_name(self@.repo, (label.0@, label.1@, label.2@)),
                        find_asset(all, wanted@) == find_asset(all.skip(i as int), wanted@),
                    decreases self.assets.len() - i,
                {
                    let ghost rest = all.skip(i as int);
                    assert(rest.drop_first() == all.skip(i + 1));
                    if str_eq(self.assets[i].name.as_str(), wanted.as_str()) {
                        return Ok(self.assets[i].duplicate());
                    }
                    i += 1;
                }
                Err(LauncherError::NotFound)
            },
        }
    }
}

/// Whether a version of `repo` is too old to be offered.
pub fn is_retired_version(repo: DriaRepository, version: &str) -> (retired: bool)
    ensures
        retired == is_retired(repo, version@),
{
    match repo {
        DriaRepository::ComputeNode => false,
        DriaRepository::Launcher => {
            let text = to_chars(version);
            let old = to_chars("0.0.");
            chars_start_with(&text, &old)
        },
    }
}

/// Whether a version is three numbers with a dot between each two.
pub fn has_well_formed_version(version: &str) -> (well: bool)
    ensures
        well == is_well_formed_version(version@),
{
    let text = to_chars(version);
    let parts = split_chars(&text, '.');
    if parts.len() != 3 {
        return false;
    }
    parse_chars(&parts[0], u32::MAX as u64).is_some() && parse_chars(
        &parts[1],
        u32::MAX as u64,
    ).is_some() && parse_chars(&parts[2], u32::MAX as u64).is_some()
}

/// The releases of `repo` that are offered, of those that were fetched: all
/// of the compute node's, and of the launcher's those from 0.1.0 on. Their
/// order is kept.
pub fn get_releases(repo: DriaRepository, fetched: &Vec<DriaRelease>) -> (kept: Vec<DriaRelease>)
    ensures
        release_views(kept@) == offered(repo, release_views(fetched@)),
{
    let ghost all = release_views(fetched@);
    let mut kept: Vec<DriaRelease> = Vec::new();
    let mut i: usize = 0;
    while i < fetched.len()
        invariant
            i <= fetched.len(),
            all == release_views(fetched@),
            release_views(kept@) == offered(repo, all.take(i as int)),
        decreases fetched.len() - i,
    {
        let ghost more = all.take(i + 1);
        assert(more.drop_last() == all.take(i as int));
        if !is_retired_version(repo, fetched[i].version()) {
            kept.push(fetched[i].duplicate());
        }
        i += 1;
    }
    assert(all.take(fetched.len() as int) == all);
    kept
}

/// The releases with a well formed version, in their order.
pub fn get_well_formed_releases(releases: &Vec<DriaRelease>) -> (kept: Vec<DriaRelease>)
    ensures
        release_views(kept@) == well_formed(release_views(releases@)),
{
    let ghost all = release_views(releases@);
    let mut kept: Vec<DriaRelease> = Vec::new();
    let mut i: usize = 0;
    while i < releases.len()
        invariant
            i <= releases.len(),
            all == release_views(releases@),
            release_views(kept@) == well_formed(all.take(i as int)),
        decreases releases.len() - i,
    {
        let ghost more = all.take(i + 1);
        assert(more.drop_last() == all.take(i as int));
        if has_well_formed_version(releases[i].version()) {
            kept.push(releases[i].duplicate());
        }
        i += 1;
    }
    assert(all.take(releases.len() as int) == all);
    kept
}

/// The latest release of `repo`: the first of those that are offered among
/// the fetched ones. `NotFound` where none is offered.
pub fn get_latest_release(repo: DriaRepository, fetched: &Vec<DriaRelease>) -> (latest: Result<
    DriaRelease,
    LauncherError,
>)
    ensures
        match latest {
            Ok(release) => offered(repo, release_views(fetched@)).len() > 0 && release@ == offered(
                repo,
                release_views(fetched@),
            )[0],
            Err(e) => offered(repo, release_views(fetched@)).len() == 0 && e
                == LauncherError::NotFound,
        },
{
    let kept = get_releases(repo, fetched);
    if kept.len() == 0 {
        Err(LauncherError::NotFound)
    } else {
        Ok(kept[0].duplicate())
    }
}

/// The first release whose version is exactly `tag`. `NotFound` where there
/// is none.
pub fn find_release_by_tag(releases: &Vec<DriaRelease>, tag: &str) -> (found: Result<
    DriaRelease,
    LauncherError,
>)
    ensures
        match found {
            Ok(release) => find_release(release_views(releases@), tag@) == Some(release@),
            Err(e) => find_release(release_views(releases@), tag@) is None && e
                == LauncherError::NotFound,
        },
{
    let ghost all = release_views(releases@);
    let mut i: usize = 0;
    assert(all.skip(0) == all);
    while i < releases.len()
        invariant
            i <= releases.len(),
            all == release_views(releases@),
            find_release(all, tag@) == find_release(all.skip(i as int), tag@),
        decreases releases.len() - i,
    {
        let ghost rest = all.skip(i as int);
        assert(rest.drop_first() == all.skip(i + 1));
        if str_eq(releases[i].version(), tag) {
            return Ok(releases[i].duplicate());
        }
        i += 1;
    }
    Err(LauncherError::NotFound)
}

} // verus!

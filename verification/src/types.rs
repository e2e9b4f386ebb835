//! Core data model: client release channels, modification branches, detected
//! installs, bootstrap metadata, and the version bookkeeping records.

use vstd::prelude::*;

verus! {

/// The host platform the installer runs on.
#[derive(Clone, Copy, PartialEq, Eq, Structural, Debug)]
pub enum InstallType {
    Windows,
    MacOS,
    Linux,
}

/// One of the four release tracks of the target client application.
#[derive(Clone, Copy, PartialEq, Eq, Structural, Debug)]
pub enum Branch {
    Stable,
    PTB,
    Canary,
    Development,
}

/// One of the two release tracks of the modification package.
#[derive(Clone, Copy, PartialEq, Eq, Structural, Debug)]
pub enum MoonlightBranch {
    Stable,
    Nightly,
}

impl MoonlightBranch {
    /// The identifier used in file names and serialized documents.
    pub open spec fn spec_as_str(self) -> Seq<char> {
        match self {
            MoonlightBranch::Stable => "stable"@,
            MoonlightBranch::Nightly => "nightly"@,
        }
    }

    pub fn as_str(&self) -> (r: &'static str)
        ensures
            r@ == self.spec_as_str(),
    {
        match self {
            MoonlightBranch::Stable => "stable",
            MoonlightBranch::Nightly => "nightly",
        }
    }

    /// The display name, also the key under which the branch appears in the
    /// persisted version map.
    pub open spec fn spec_name(self) -> Seq<char> {
        match self {
            MoonlightBranch::Stable => "Stable"@,
            MoonlightBranch::Nightly => "Nightly"@,
        }
    }

    pub fn name(&self) -> (r: &'static str)
        ensures
            r@ == self.spec_name(),
    {
        match self {
            MoonlightBranch::Stable => "Stable",
            MoonlightBranch::Nightly => "Nightly",
        }
    }

    pub fn description(&self) -> (r: &'static str)
        ensures
            self is Stable ==> r@ == "Periodic updates and fixes when they're ready. Suggested for most users."@,
            self is Nightly ==> r@ == "In-progress development snapshots while it's being worked on. May contain issues."@,
    {
        match self {
            MoonlightBranch::Stable => {
                "Periodic updates and fixes when they're ready. Suggested for most users."
            }
            MoonlightBranch::Nightly => {
                "In-progress development snapshots while it's being worked on. May contain issues."
            }
        }
    }
}

impl Branch {
    /// The display name of the channel.
    pub open spec fn spec_as_str(self) -> Seq<char> {
        match self {
            Branch::Stable => "Stable"@,
            Branch::PTB => "PTB"@,
            Branch::Canary => "Canary"@,
            Branch::Development => "Development"@,
        }
    }

    pub fn as_str(&self) -> (r: &'static str)
        ensures
            r@ == self.spec_as_str(),
    {
        match self {
            Branch::Stable => "Stable",
            Branch::PTB => "PTB",
            Branch::Canary => "Canary",
            Branch::Development => "Development",
        }
    }

    /// The executable / data-directory name of the channel.
    pub open spec fn spec_name(self) -> Seq<char> {
        match self {
            Branch::Stable => "Discord"@,
            Branch::PTB => "DiscordPTB"@,
            Branch::Canary => "DiscordCanary"@,
            Branch::Development => "DiscordDevelopment"@,
        }
    }

    pub fn name(&self) -> (r: &'static str)
        ensures
            r@ == self.spec_name(),
    {
        match self {
            Branch::Stable => "Discord",
            Branch::PTB => "DiscordPTB",
            Branch::Canary => "DiscordCanary",
            Branch::Development => "DiscordDevelopment",
        }
    }

    /// The lower-case dashed name, used in the package descriptor written at
    /// patch time.
    pub open spec fn spec_dashed_name(self) -> Seq<char> {
        match self {
            Branch::Stable => "discord"@,
            Branch::PTB => "discord-ptb"@,
            Branch::Canary => "discord-canary"@,
            Branch::Development => "discord-development"@,
        }
    }

    pub fn dashed_name(&self) -> (r: &'static str)
        ensures
            r@ == self.spec_dashed_name(),
    {
        match self {
            Branch::Stable => "discord",
            Branch::PTB => "discord-ptb",
            Branch::Canary => "discord-canary",
            Branch::Development => "discord-development",
        }
    }

    /// The lower-case leaf (stem) of the channel's saved configuration file.
    pub open spec fn spec_config_stem(self) -> Seq<char> {
        match self {
            Branch::Stable => "stable"@,
            Branch::PTB => "ptb"@,
            Branch::Canary => "canary"@,
            Branch::Development => "development"@,
        }
    }

    pub fn config_stem(&self) -> (r: &'static str)
        ensures
            r@ == self.spec_config_stem(),
    {
        match self {
            Branch::Stable => "stable",
            Branch::PTB => "ptb",
            Branch::Canary => "canary",
            Branch::Development => "development",
        }
    }

    /// The modification branch offered by default for this channel; a UI
    /// default only, never enforced.
    pub fn preferred_moonlight_branch(&self) -> (r: MoonlightBranch)
        ensures
            r == (if self is Stable { MoonlightBranch::Stable } else { MoonlightBranch::Nightly }),
    {
        match self {
            Branch::Stable => MoonlightBranch::Stable,
            _ => MoonlightBranch::Nightly,
        }
    }
}

/// The base a templated path is stored relative to.
#[derive(Clone, Copy, PartialEq, Eq, Structural, Debug)]
pub enum TemplatedPathBufBase {
    Moonlight,
}

/// A path that is either absolute or relative to the tool's configuration
/// directory.
#[derive(Clone, Debug)]
pub struct TemplatedPathBuf {
    pub relative_to: Option<TemplatedPathBufBase>,
    pub path_str: String,
}

/// Bootstrap metadata written into a patched install's application folder,
/// read back at detection time.
#[derive(Clone, Debug)]
pub struct MoonlightMeta {
    pub moonlight_injector: TemplatedPathBuf,
    pub patched_asar: String,
    pub branch: MoonlightBranch,
}

/// An installation of the client found on disk. Created fresh on every
/// detection pass, never mutated.
#[derive(Clone, Debug)]
pub struct DetectedInstall {
    pub branch: Branch,
    pub path: String,
    pub moonlight_info: Option<MoonlightMeta>,
    pub flatpak_id: Option<String>,
}

/// A detected install combined with on-disk probes: whether it is currently
/// patched and whether a saved configuration file exists for its channel.
#[derive(Clone, Debug)]
pub struct InstallInfo {
    pub install: DetectedInstall,
    pub patched: bool,
    pub has_config: bool,
}

/// The version and extraction path recorded for one downloaded modification
/// branch. The path is relative to the tool's configuration directory when
/// possible.
#[derive(Clone, Debug)]
pub struct DownloadedBranchInfo {
    pub version: String,
    pub path: String,
}

/// The persisted version map: at most one record per modification branch.
#[derive(Clone, Debug)]
pub struct DownloadedMap {
    pub stable: Option<DownloadedBranchInfo>,
    pub nightly: Option<DownloadedBranchInfo>,
}

impl DownloadedMap {
    pub open spec fn spec_get(self, branch: MoonlightBranch) -> Option<DownloadedBranchInfo> {
        match branch {
            MoonlightBranch::Stable => self.stable,
            MoonlightBranch::Nightly => self.nightly,
        }
    }

    pub fn empty() -> (r: DownloadedMap)
        ensures
            r.stable is None,
            r.nightly is None,
    {
        DownloadedMap { stable: None, nightly: None }
    }

    pub fn get(&self, branch: MoonlightBranch) -> (r: &Option<DownloadedBranchInfo>)
        ensures
            *r == self.spec_get(branch),
    {
        match branch {
            MoonlightBranch::Stable => &self.stable,
            MoonlightBranch::Nightly => &self.nightly,
        }
    }

    /// Insert or overwrite the record for `branch`.
    pub fn insert(&mut self, branch: MoonlightBranch, info: DownloadedBranchInfo)
        ensures
            final(self).spec_get(branch) == Some(info),
            forall|b: MoonlightBranch| b != branch ==> final(self).spec_get(b) == old(self).spec_get(b),
    {
        match branch {
            MoonlightBranch::Stable => {
                self.stable = Some(info);
            }
            MoonlightBranch::Nightly => {
                self.nightly = Some(info);
            }
        }
    }
}

/// One release asset of an upstream release, as reported by the releases API.
#[derive(Clone, Debug)]
pub struct GitHubReleaseAsset {
    pub name: String,
    pub browser_download_url: String,
}

/// An upstream release: its name and its downloadable assets.
#[derive(Clone, Debug)]
pub struct GitHubRelease {
    pub name: String,
    pub assets: Vec<GitHubReleaseAsset>,
}

} // verus!

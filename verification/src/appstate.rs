//! Foreground state: what the UI or CLI loop knows about the installer, and
//! how each worker response updates it. The rendering around this state is
//! not part of the core; the update rules are.

use vstd::prelude::*;
use crate::bus::LogicResponse;
use crate::error::MoonlightError;
use crate::text::{chars_of, eq_str};
use crate::types::{Branch, DownloadedMap, InstallInfo, MoonlightBranch};

verus! {

/// The persisted foreground configuration: the branch selected for
/// downloads, and the branch selected per known install path.
pub struct Config {
    pub selected_branch: MoonlightBranch,
    pub install_selected_branches: Vec<(String, MoonlightBranch)>,
}

/// The first entry index for an install path.
pub open spec fn spec_config_index(l: Seq<(String, MoonlightBranch)>, path: Seq<char>, i: int) -> Option<int>
    decreases l.len() - i,
{
    if i < 0 || i >= l.len() {
        None
    } else if l[i].0@ == path {
        Some(i)
    } else {
        spec_config_index(l, path, i + 1)
    }
}

impl Config {
    /// A configuration with the default branch selection and no per-install
    /// choices.
    pub fn new() -> (r: Config)
        ensures
            r.selected_branch == MoonlightBranch::Stable,
            r.install_selected_branches@.len() == 0,
    {
        Config { selected_branch: MoonlightBranch::Stable, install_selected_branches: Vec::new() }
    }

    /// The branch selected for an install path, when one was chosen.
    pub fn branch_for(&self, path: &str) -> (r: Option<MoonlightBranch>)
        ensures
            match spec_config_index(self.install_selected_branches@, path@, 0) {
                Some(i) => r == Some(self.install_selected_branches@[i].1),
                None => r is None,
            },
    {
        let n = self.install_selected_branches.len();
        let mut i: usize = 0;
        while i < n
            invariant
                i <= n,
                n == self.install_selected_branches@.len(),
                spec_config_index(self.install_selected_branches@, path@, 0) == spec_config_index(
                    self.install_selected_branches@,
                    path@,
                    i as int,
                ),
            decreases n - i,
        {
            let key = chars_of(self.install_selected_branches[i].0.as_str());
            if eq_str(&key, path) {
                return Some(self.install_selected_branches[i].1);
            }
            i = i + 1;
        }
        None
    }

    /// Records the branch chosen for an install path: an existing entry is
    /// overwritten, else one is appended.
    pub fn select_branch(&mut self, path: &str, branch: MoonlightBranch)
        ensures
            match spec_config_index(old(self).install_selected_branches@, path@, 0) {
                Some(i) => final(self).install_selected_branches@ == old(self).install_selected_branches@.update(
                    i,
                    (old(self).install_selected_branches@[i].0, branch),
                ),
                None => final(self).install_selected_branches@.len() == old(self).install_selected_branches@.len() + 1 && final(self).install_selected_branches@.last().0@ == path@ && final(self).install_selected_branches@.last().1 == branch && final(self).install_selected_branches@.drop_last() == old(self).install_selected_branches@,
            },
            final(self).selected_branch == old(self).selected_branch,
    {
        let n = self.install_selected_branches.len();
        let mut i: usize = 0;
        while i < n
            invariant
                i <= n,
                n == self.install_selected_branches@.len(),
                self.install_selected_branches@ == old(self).install_selected_branches@,
                self.selected_branch == old(self).selected_branch,
                spec_config_index(self.install_selected_branches@, path@, 0) == spec_config_index(
                    self.install_selected_branches@,
                    path@,
                    i as int,
                ),
            decreases n - i,
        {
            let key = chars_of(self.install_selected_branches[i].0.as_str());
            if eq_str(&key, path) {
                let entry = self.install_selected_branches.remove(i);
                self.install_selected_branches.insert(i, (entry.0, branch));
                proof {
                    assert(self.install_selected_branches@ =~= old(self).install_selected_branches@.update(
                        i as int,
                        (old(self).install_selected_branches@[i as int].0, branch),
                    ));
                }
                return;
            }
            i = i + 1;
        }
        self.install_selected_branches.push((path.to_owned(), branch));
        proof {
            assert(self.install_selected_branches@.drop_last() =~= old(self).install_selected_branches@);
        }
    }
}

/// What the foreground currently knows: the last-read version map, the
/// latest known version per branch, the last install listing, and the
/// in-flight flags and errors of the download and patch operations.
pub struct AppState {
    pub downloaded_versions: Option<DownloadedMap>,
    pub latest_stable: Option<String>,
    pub latest_nightly: Option<String>,
    pub installs: Option<Vec<InstallInfo>>,
    pub downloading: bool,
    pub downloading_error: Option<MoonlightError>,
    pub patching: bool,
    pub patching_error: Option<MoonlightError>,
    pub patching_branch: Option<Branch>,
}

/// The first index of an install with the given path.
pub open spec fn spec_install_index(l: Seq<InstallInfo>, path: Seq<char>, i: int) -> Option<int>
    decreases l.len() - i,
{
    if i < 0 || i >= l.len() {
        None
    } else if l[i].install.path@ == path {
        Some(i)
    } else {
        spec_install_index(l, path, i + 1)
    }
}

/// The listing with the first install at `path` marked patched or
/// unpatched; the listing unchanged when no install has that path.
pub open spec fn spec_mark_patched(l: Seq<InstallInfo>, path: Seq<char>, value: bool) -> Seq<
    InstallInfo,
> {
    match spec_install_index(l, path, 0) {
        Some(i) => l.update(
            i,
            InstallInfo { install: l[i].install, patched: value, has_config: l[i].has_config },
        ),
        None => l,
    }
}

/// Marks the first install with the given path.
fn mark_patched(installs: &mut Vec<InstallInfo>, path: &str, value: bool)
    ensures
        final(installs)@ == spec_mark_patched(old(installs)@, path@, value),
{
    let n = installs.len();
    let mut i: usize = 0;
    while i < n
        invariant
            i <= n,
            n == installs@.len(),
            installs@ == old(installs)@,
            spec_install_index(installs@, path@, 0) == spec_install_index(
                installs@,
                path@,
                i as int,
            ),
        decreases n - i,
    {
        let key = chars_of(installs[i].install.path.as_str());
        if eq_str(&key, path) {
            let entry = installs.remove(i);
            installs.insert(
                i,
                InstallInfo { install: entry.install, patched: value, has_config: entry.has_config },
            );
            proof {
                assert(installs@ =~= spec_mark_patched(old(installs)@, path@, value));
            }
            return;
        }
        i = i + 1;
    }
}

impl AppState {
    /// The empty foreground state: nothing known yet, nothing in flight.
    pub fn new() -> (r: AppState)
        ensures
            r.downloaded_versions is None,
            r.latest_stable is None,
            r.latest_nightly is None,
            r.installs is None,
            !r.downloading,
            r.downloading_error is None,
            !r.patching,
            r.patching_error is None,
            r.patching_branch is None,
    {
        AppState {
            downloaded_versions: None,
            latest_stable: None,
            latest_nightly: None,
            installs: None,
            downloading: false,
            downloading_error: None,
            patching: false,
            patching_error: None,
            patching_branch: None,
        }
    }

    /// Applies one worker response to the state: a listing or version-map
    /// response replaces what was known; a version result records the
    /// version or the error; a completed update merges the new record into
    /// the known map and clears the in-flight flag; a completed patch or
    /// unpatch marks the affected install and clears the in-flight flag.
    pub fn apply_response(&mut self, resp: LogicResponse)
        ensures
            match resp {
                LogicResponse::Installs(v) => final(self).installs == Some(v) && same_versions(
                    *old(self),
                    *final(self),
                ) && same_latest(*old(self), *final(self)) && same_download(
                    *old(self),
                    *final(self),
                ) && same_patch(*old(self), *final(self)),
                LogicResponse::DownloadedVersions(m) => final(self).downloaded_versions == Some(m)
                    && same_installs(*old(self), *final(self)) && same_latest(
                    *old(self),
                    *final(self),
                ) && same_download(*old(self), *final(self)) && same_patch(
                    *old(self),
                    *final(self),
                ),
                LogicResponse::LatestVersion(res) => same_versions(*old(self), *final(self))
                    && same_installs(*old(self), *final(self)) && same_patch(
                    *old(self),
                    *final(self),
                ) && final(self).downloading == old(self).downloading && (match res {
                    Ok((b, v)) => final(self).downloading_error is None && (b is Stable ==> final(self).latest_stable == Some(v) && final(self).latest_nightly == old(self).latest_nightly) && (b is Nightly ==> final(self).latest_nightly == Some(v)
                        && final(self).latest_stable == old(self).latest_stable),
                    Err(e) => final(self).downloading_error == Some(e) && same_latest(
                        *old(self),
                        *final(self),
                    ),
                }),
                LogicResponse::UpdateComplete(res) => same_installs(*old(self), *final(self))
                    && same_latest(*old(self), *final(self)) && same_patch(
                    *old(self),
                    *final(self),
                ) && !final(self).downloading && (match res {
                    Ok((b, info)) => final(self).downloading_error is None && (match old(self).downloaded_versions {
                        Some(map) => final(self).downloaded_versions matches Some(m2)
                            && m2.spec_get(b) == Some(info) && (forall|bb: MoonlightBranch|
                            bb != b ==> m2.spec_get(bb) == map.spec_get(bb)),
                        None => final(self).downloaded_versions is None,
                    }),
                    Err(e) => final(self).downloading_error == Some(e) && same_versions(
                        *old(self),
                        *final(self),
                    ),
                }),
                LogicResponse::PatchComplete(res) => same_versions(*old(self), *final(self))
                    && same_latest(*old(self), *final(self)) && same_download(
                    *old(self),
                    *final(self),
                ) && !final(self).patching && final(self).patching_branch == old(self).patching_branch && (match res {
                    Ok(path) => final(self).patching_error is None && (match old(self).installs {
                        Some(l) => final(self).installs matches Some(l2) && l2@
                            == spec_mark_patched(l@, path@, true),
                        None => final(self).installs is None,
                    }),
                    Err(e) => final(self).patching_error == Some(e) && same_installs(
                        *old(self),
                        *final(self),
                    ),
                }),
                LogicResponse::UnpatchComplete(res) => same_versions(*old(self), *final(self))
                    && same_latest(*old(self), *final(self)) && same_download(
                    *old(self),
                    *final(self),
                ) && !final(self).patching && final(self).patching_branch == old(self).patching_branch && (match res {
                    Ok(path) => final(self).patching_error is None && (match old(self).installs {
                        Some(l) => final(self).installs matches Some(l2) && l2@
                            == spec_mark_patched(l@, path@, false),
                        None => final(self).installs is None,
                    }),
                    Err(e) => final(self).patching_error == Some(e) && same_installs(
                        *old(self),
                        *final(self),
                    ),
                }),
            },
    {
        match resp {
            LogicResponse::Installs(v) => {
                self.installs = Some(v);
            },
            LogicResponse::DownloadedVersions(m) => {
                self.downloaded_versions = Some(m);
            },
            LogicResponse::LatestVersion(res) => match res {
                Ok((b, v)) => {
                    match b {
                        MoonlightBranch::Stable => {
                            self.latest_stable = Some(v);
                        },
                        MoonlightBranch::Nightly => {
                            self.latest_nightly = Some(v);
                        },
                    }
                    self.downloading_error = None;
                },
                Err(e) => {
                    self.downloading_error = Some(e);
                },
            },
            LogicResponse::UpdateComplete(res) => {
                match res {
                    Ok((b, info)) => {
                        match &mut self.downloaded_versions {
                            Some(map) => {
                                map.insert(b, info);
                            },
                            None => {},
                        }
                        self.downloading_error = None;
                    },
                    Err(e) => {
                        self.downloading_error = Some(e);
                    },
                }
                self.downloading = false;
            },
            LogicResponse::PatchComplete(res) => {
                match res {
                    Ok(path) => {
                        match &mut self.installs {
                            Some(l) => {
                                mark_patched(l, path.as_str(), true);
                            },
                            None => {},
                        }
                        self.patching_error = None;
                    },
                    Err(e) => {
                        self.patching_error = Some(e);
                    },
                }
                self.patching = false;
            },
            LogicResponse::UnpatchComplete(res) => {
                match res {
                    Ok(path) => {
                        match &mut self.installs {
                            Some(l) => {
                                mark_patched(l, path.as_str(), false);
                            },
                            None => {},
                        }
                        self.patching_error = None;
                    },
                    Err(e) => {
                        self.patching_error = Some(e);
                    },
                }
                self.patching = false;
            },
        }
    }
}

/// The known version map is unchanged.
pub open spec fn same_versions(a: AppState, b: AppState) -> bool {
    a.downloaded_versions == b.downloaded_versions
}

/// The install listing is unchanged.
pub open spec fn same_installs(a: AppState, b: AppState) -> bool {
    a.installs == b.installs
}

/// The latest-version fields are unchanged.
pub open spec fn same_latest(a: AppState, b: AppState) -> bool {
    a.latest_stable == b.latest_stable && a.latest_nightly == b.latest_nightly
}

/// The download in-flight flag and error are unchanged.
pub open spec fn same_download(a: AppState, b: AppState) -> bool {
    a.downloading == b.downloading && a.downloading_error == b.downloading_error
}

/// The patch in-flight flag, error, and channel are unchanged.
pub open spec fn same_patch(a: AppState, b: AppState) -> bool {
    a.patching == b.patching && a.patching_error == b.patching_error && a.patching_branch
        == b.patching_branch
}

} // verus!

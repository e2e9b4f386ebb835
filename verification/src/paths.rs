//! Path resolver: the tool's private directory, the user's data roots and
//! per-channel files, resolved from environment values handed in by the
//! caller. Paths are modelled as plain strings joined with `/`.

use vstd::prelude::*;
use vstd::string::StrSliceExecFns;
use vstd::string::StringExecFns;
use crate::types::{Branch, InstallType, MoonlightBranch, TemplatedPathBuf, TemplatedPathBufBase};

verus! {

/// `base` and `leaf` joined with a single separator.
pub open spec fn spec_join(base: Seq<char>, leaf: Seq<char>) -> Seq<char> {
    base + "/"@ + leaf
}

/// Joins `base` and `leaf` with a separator.
pub fn join_path(base: &str, leaf: &str) -> (r: String)
    ensures
        r@ == spec_join(base@, leaf@),
{
    let mut r = base.to_owned();
    r.append("/");
    r.append(leaf);
    r
}

/// Whether a stored path is relative in this crate's path model: it is empty
/// or does not begin with a separator.
pub open spec fn spec_is_relative(p: Seq<char>) -> bool {
    p.len() == 0 || p[0] != '/'
}

/// Decides `spec_is_relative`.
pub fn is_relative_path(p: &str) -> (r: bool)
    ensures
        r == spec_is_relative(p@),
{
    p.unicode_len() == 0 || p.get_char(0) != '/'
}

/// What `pathdiff::diff_paths` returns for a path and a base, a function of
/// the two path strings alone.
pub uninterp spec fn rel_path_of(path: Seq<char>, base: Seq<char>) -> Option<Seq<char>>;

/// Relies on `pathdiff::diff_paths`: constructs the relative path from the
/// base directory to `path`, or reports that none exists; the result depends
/// on the two path strings alone.
#[verifier::external_body]
fn diff_paths(path: &str, base: &str) -> (r: Option<String>)
    ensures
        match r {
            Some(s) => rel_path_of(path@, base@) == Some(s@),
            None => rel_path_of(path@, base@) is None,
        },
{
    pathdiff::diff_paths(path, base).map(|p| p.to_string_lossy().into_owned())
}

impl TemplatedPathBuf {
    /// Templates `path` relative to the tool's configuration directory when a
    /// relative form exists, and keeps it as given otherwise.
    pub fn try_relative(path: String, moonlight_dir: &str) -> (r: TemplatedPathBuf)
        ensures
            match rel_path_of(path@, moonlight_dir@) {
                Some(p) => r.relative_to == Some(TemplatedPathBufBase::Moonlight) && r.path_str@
                    == p,
                None => r.relative_to is None && r.path_str == path,
            },
    {
        match diff_paths(path.as_str(), moonlight_dir) {
            Some(p) => TemplatedPathBuf {
                relative_to: Some(TemplatedPathBufBase::Moonlight),
                path_str: p,
            },
            None => TemplatedPathBuf { relative_to: None, path_str: path },
        }
    }

    /// The stored path, joined onto the tool's configuration directory when
    /// it was templated relative to it.
    pub fn resolve(&self, moonlight_dir: &str) -> (r: String)
        ensures
            self.relative_to == Some(TemplatedPathBufBase::Moonlight) ==> r@ == spec_join(
                moonlight_dir@,
                self.path_str@,
            ),
            self.relative_to is None ==> r@ == self.path_str@,
    {
        match self.relative_to {
            Some(TemplatedPathBufBase::Moonlight) => join_path(moonlight_dir, self.path_str.as_str()),
            None => self.path_str.clone(),
        }
    }
}

/// The tool's private configuration directory: an environment override first,
/// else the per-OS default. `None` when the environment value the default
/// needs is absent; creating the directory is the caller's task.
pub fn get_moonlight_dir(
    override_dir: Option<String>,
    os: InstallType,
    appdata: Option<&String>,
    home: Option<&String>,
    xdg_config_home: Option<&String>,
) -> (r: Option<String>)
    ensures
        override_dir is Some ==> r == override_dir,
        override_dir is None && os is Windows ==> match appdata {
            Some(a) => r matches Some(d) && d@ == spec_join(a@, "moonlight-mod"@),
            None => r is None,
        },
        override_dir is None && os is MacOS ==> match home {
            Some(h) => r matches Some(d) && d@ == spec_join(
                h@,
                "Library/Application Support/moonlight-mod"@,
            ),
            None => r is None,
        },
        override_dir is None && os is Linux ==> match (xdg_config_home, home) {
            (Some(x), _) => r matches Some(d) && d@ == spec_join(x@, "moonlight-mod"@),
            (None, Some(h)) => r matches Some(d) && d@ == spec_join(
                h@,
                ".config/moonlight-mod"@,
            ),
            (None, None) => r is None,
        },
{
    if let Some(d) = override_dir {
        return Some(d);
    }
    match os {
        InstallType::Windows => match appdata {
            Some(a) => Some(join_path(a.as_str(), "moonlight-mod")),
            None => None,
        },
        InstallType::MacOS => match home {
            Some(h) => Some(join_path(h.as_str(), "Library/Application Support/moonlight-mod")),
            None => None,
        },
        InstallType::Linux => match xdg_config_home {
            Some(x) => Some(join_path(x.as_str(), "moonlight-mod")),
            None => match home {
                Some(h) => Some(join_path(h.as_str(), ".config/moonlight-mod")),
                None => None,
            },
        },
    }
}

/// The XDG configuration home: the environment value when set, else
/// `~/.config`.
pub fn get_dot_config(xdg_config_home: Option<String>, home: &str) -> (r: String)
    ensures
        match xdg_config_home {
            Some(x) => r == x,
            None => r@ == spec_join(home@, ".config"@),
        },
{
    match xdg_config_home {
        Some(x) => x,
        None => join_path(home, ".config"),
    }
}

/// The per-user data root: a tool-specific override first, then the XDG data
/// home, else `~/.local/share`.
pub fn get_local_share(
    share_override: Option<String>,
    xdg_data_home: Option<String>,
    home: &str,
) -> (r: String)
    ensures
        match (share_override, xdg_data_home) {
            (Some(o), _) => r == o,
            (None, Some(x)) => r == x,
            (None, None) => r@ == spec_join(home@, ".local/share"@),
        },
{
    match share_override {
        Some(o) => o,
        None => match xdg_data_home {
            Some(x) => x,
            None => join_path(home, ".local/share"),
        },
    }
}

/// The hard-coded `~/.local/share` fallback, queried independently of the
/// XDG data home because container runtimes disagree on which is
/// authoritative.
pub fn get_local_share_workaround(home: &str) -> (r: String)
    ensures
        r@ == spec_join(home@, ".local/share"@),
{
    join_path(home, ".local/share")
}

/// The per-user Flatpak root: the data root's `flatpak` directory when it
/// exists, else the fallback root's when that exists, else the first again.
/// The two existence probes are supplied by the caller.
pub fn get_flatpak_home(
    local_share: &str,
    primary_exists: bool,
    local_share_workaround: &str,
    workaround_exists: bool,
) -> (r: String)
    ensures
        primary_exists ==> r@ == spec_join(local_share@, "flatpak"@),
        !primary_exists && workaround_exists ==> r@ == spec_join(
            local_share_workaround@,
            "flatpak"@,
        ),
        !primary_exists && !workaround_exists ==> r@ == spec_join(local_share@, "flatpak"@),
{
    let a = join_path(local_share, "flatpak");
    if primary_exists {
        a
    } else if workaround_exists {
        join_path(local_share_workaround, "flatpak")
    } else {
        a
    }
}

/// The subdirectory of an install's top-level path that holds its startup
/// archive: `resources` on Windows and Linux, the path itself on macOS.
pub fn get_app_dir(os: InstallType, path: &str) -> (r: String)
    ensures
        os is Windows || os is Linux ==> r@ == spec_join(path@, "resources"@),
        os is MacOS ==> r@ == path@,
{
    match os {
        InstallType::Windows | InstallType::Linux => join_path(path, "resources"),
        InstallType::MacOS => path.to_owned(),
    }
}

/// The branch-named directory a downloaded modification package is extracted
/// into, under the tool's configuration directory.
pub fn get_download_dir(moonlight_dir: &str, branch: MoonlightBranch) -> (r: String)
    ensures
        branch is Stable ==> r@ == spec_join(moonlight_dir@, "dist-stable"@),
        branch is Nightly ==> r@ == spec_join(moonlight_dir@, "dist-nightly"@),
{
    match branch {
        MoonlightBranch::Stable => join_path(moonlight_dir, "dist-stable"),
        MoonlightBranch::Nightly => join_path(moonlight_dir, "dist-nightly"),
    }
}

impl Branch {
    /// The channel's saved configuration file under the tool's configuration
    /// directory.
    pub fn config(&self, moonlight_dir: &str) -> (r: String)
        ensures
            r@ == spec_join(moonlight_dir@, self.spec_config_stem() + ".json"@),
    {
        let mut leaf = self.config_stem().to_owned();
        leaf.append(".json");
        join_path(moonlight_dir, leaf.as_str())
    }
}

/// The channel's saved configuration file; see [`Branch::config`].
pub fn get_branch_config(moonlight_dir: &str, branch: Branch) -> (r: String)
    ensures
        r@ == spec_join(moonlight_dir@, branch.spec_config_stem() + ".json"@),
{
    branch.config(moonlight_dir)
}

} // verus!

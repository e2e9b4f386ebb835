//! The installer core façade: deriving install listings from detection
//! snapshots, the version store's read and write cycle with its one-time
//! legacy migration, and the configuration-reset naming.

use vstd::prelude::*;
use vstd::string::StrSliceExecFns;
use crate::bootstrap::{meta_view, parse_meta, spec_parse_meta};
use crate::detect::InstallCandidate;
use crate::error::MoonlightError;
use crate::paths::{join_path, spec_join};
use crate::text::{chars_of, spec_first_line, first_line};
use crate::types::{
    Branch, DetectedInstall, DownloadedBranchInfo, DownloadedMap, GitHubRelease, InstallInfo,
    MoonlightBranch,
};
use crate::versions::{
    emit_version_map, migrate_legacy, parse_version_map, spec_emit_version_map,
    spec_map_view, spec_migrate_legacy, spec_parse_version_map,
};

verus! {

/// The stateless installer core. Every operation takes what it needs from
/// the caller and returns plain values or action plans.
pub struct Installer;

impl Installer {
    /// Creates the installer.
    pub fn new() -> (r: Installer) {
        Installer {}
    }
}

impl Default for Installer {
    fn default() -> (r: Installer) {
        Installer::new()
    }
}

/// What a version-store read found: either the one-time legacy migration,
/// carrying the text to persist in the new format (the caller then deletes
/// the legacy file, so the migration never repeats), or the current-format
/// entries, to be pruned against the extraction paths found on disk.
pub enum VersionsRead {
    Migrated { versions: DownloadedMap, new_file_text: String },
    Current { versions: DownloadedMap },
}

impl Installer {
    /// Whether an install is patched: exactly when its original startup
    /// archive is absent.
    pub fn is_install_patched(&self, asar_present: bool) -> (r: bool)
        ensures
            r == !asar_present,
    {
        !asar_present
    }

    /// Builds the detected installs from the platform scan's candidates and
    /// the bootstrap metadata text read from each candidate's application
    /// folder: a missing or unparseable file yields no metadata, not an
    /// error.
    pub fn detect_installs(
        &self,
        candidates: Vec<InstallCandidate>,
        meta_texts: Vec<Option<String>>,
    ) -> (r: Vec<DetectedInstall>)
        requires
            candidates@.len() == meta_texts@.len(),
        ensures
            r@.len() == candidates@.len(),
            forall|i: int|
                0 <= i < r@.len() ==> (#[trigger] r@[i]).branch == candidates@[i].branch
                    && r@[i].path == candidates@[i].path && r@[i].flatpak_id
                    == candidates@[i].flatpak_id && (match meta_texts@[i] {
                    None => r@[i].moonlight_info is None,
                    Some(t) => match spec_parse_meta(t@) {
                        Some(v) => r@[i].moonlight_info matches Some(m) && meta_view(m) == v,
                        None => r@[i].moonlight_info is None,
                    },
                }),
    {
        let n = candidates.len();
        let mut out: Vec<DetectedInstall> = Vec::new();
        let mut i: usize = 0;
        while i < n
            invariant
                i <= n,
                n == candidates@.len() == meta_texts@.len(),
                out@.len() == i,
                forall|k: int|
                    0 <= k < i ==> (#[trigger] out@[k]).branch == candidates@[k].branch
                        && out@[k].path == candidates@[k].path && out@[k].flatpak_id
                        == candidates@[k].flatpak_id && (match meta_texts@[k] {
                        None => out@[k].moonlight_info is None,
                        Some(t) => match spec_parse_meta(t@) {
                            Some(v) => out@[k].moonlight_info matches Some(m) && meta_view(m)
                                == v,
                            None => out@[k].moonlight_info is None,
                        },
                    }),
            decreases n - i,
        {
            let cand = &candidates[i];
            let info = match &meta_texts[i] {
                None => None,
                Some(t) => {
                    let doc = chars_of(t.as_str());
                    parse_meta(&doc)
                },
            };
            out.push(
                DetectedInstall {
                    branch: cand.branch,
                    path: cand.path.clone(),
                    moonlight_info: info,
                    flatpak_id: cand.flatpak_id.clone(),
                },
            );
            i = i + 1;
        }
        out
    }

    /// Combines detected installs with the on-disk probes: an install is
    /// patched exactly when its original archive was not found, and carries
    /// whether its channel's saved configuration file exists. A failed probe
    /// is reported by the caller as the archive being present, so it
    /// degrades to not-patched rather than aborting the listing.
    pub fn get_installs(
        &self,
        detected: Vec<DetectedInstall>,
        asar_present: &Vec<bool>,
        has_config: &Vec<bool>,
    ) -> (r: Vec<InstallInfo>)
        requires
            detected@.len() == asar_present@.len(),
            detected@.len() == has_config@.len(),
        ensures
            r@.len() == detected@.len(),
            forall|i: int|
                0 <= i < r@.len() ==> (#[trigger] r@[i]).install == detected@[i] && r@[i].patched
                    == !asar_present@[i] && r@[i].has_config == has_config@[i],
    {
        let n = detected.len();
        let ghost orig = detected@;
        let mut out: Vec<InstallInfo> = Vec::new();
        let mut i: usize = 0;
        let mut rest = detected;
        proof {
            assert(rest@ =~= orig.skip(0));
        }
        while i < n
            invariant
                i <= n,
                n == orig.len(),
                rest@.len() == n - i,
                rest@ == orig.skip(i as int),
                n == asar_present@.len() == has_config@.len(),
                out@.len() == i,
                forall|k: int|
                    0 <= k < i ==> (#[trigger] out@[k]).install == orig[k] && out@[k].patched
                        == !asar_present@[k] && out@[k].has_config == has_config@[k],
            decreases n - i,
        {
            let install = rest.remove(0);
            proof {
                assert(install == orig.skip(i as int)[0]);
                assert(orig.skip(i as int)[0] == orig[i as int]);
                assert(rest@ =~= orig.skip(i + 1));
            }
            let patched = self.is_install_patched(asar_present[i]);
            out.push(InstallInfo { install, patched, has_config: has_config[i] });
            i = i + 1;
        }
        out
    }

    /// Reads the version store from what is on disk: a present legacy file
    /// triggers the one-time migration — its content interpreted, the new
    /// document produced for persisting — else the current document is
    /// parsed, a missing file meaning an empty map and an unreadable one an
    /// error.
    pub fn get_downloaded_versions(
        &self,
        legacy: Option<&String>,
        current: Option<&String>,
        dist_exists: bool,
    ) -> (r: Result<VersionsRead, MoonlightError>)
        ensures
            match legacy {
                Some(content) => r matches Ok(
                    VersionsRead::Migrated { versions, new_file_text },
                ) && spec_map_view(versions) == spec_migrate_legacy(content@, dist_exists)
                    && new_file_text@ == spec_emit_version_map(
                    spec_migrate_legacy(content@, dist_exists).0,
                    spec_migrate_legacy(content@, dist_exists).1,
                ),
                None => match current {
                    None => r matches Ok(VersionsRead::Current { versions })
                        && versions.stable is None && versions.nightly is None,
                    Some(text) => match spec_parse_version_map(text@) {
                        Some(v) => r matches Ok(VersionsRead::Current { versions })
                            && spec_map_view(versions) == v,
                        None => r matches Err(e) && e is Unknown,
                    },
                },
            },
    {
        match legacy {
            Some(content) => {
                let versions = migrate_legacy(content.as_str(), dist_exists);
                let new_file_text = emit_version_map(&versions);
                Ok(VersionsRead::Migrated { versions, new_file_text })
            },
            None => match current {
                None => Ok(VersionsRead::Current { versions: DownloadedMap::empty() }),
                Some(text) => {
                    let doc = chars_of(text.as_str());
                    match parse_version_map(&doc) {
                        Some(versions) => Ok(VersionsRead::Current { versions }),
                        None => Err(
                            MoonlightError::Unknown(
                                String::from_str("the version document could not be read"),
                            ),
                        ),
                    }
                },
            },
        }
    }

    /// Inserts or overwrites the entry for `branch` and returns the
    /// document text to persist.
    pub fn set_downloaded_version(
        &self,
        map: &mut DownloadedMap,
        branch: MoonlightBranch,
        version: String,
        path: String,
    ) -> (text: String)
        ensures
            final(map).spec_get(branch) == Some(
                DownloadedBranchInfo { version, path },
            ),
            forall|b: MoonlightBranch| b != branch ==> final(map).spec_get(b) == old(
                map,
            ).spec_get(b),
            text@ == spec_emit_version_map(
                spec_map_view(*final(map)).0,
                spec_map_view(*final(map)).1,
            ),
    {
        map.insert(branch, DownloadedBranchInfo { version, path });
        emit_version_map(map)
    }

    /// The latest available version for a branch, from the fetched release
    /// data: the release name for the stable branch, the first line of the
    /// reference text for nightly. Missing data — a failed fetch — is a
    /// network error.
    pub fn get_latest_moonlight_version(
        &self,
        branch: MoonlightBranch,
        stable_release: Option<&GitHubRelease>,
        nightly_ref_text: Option<&String>,
    ) -> (r: Result<String, MoonlightError>)
        ensures
            branch is Stable ==> match stable_release {
                Some(rel) => r matches Ok(v) && v@ == rel.name@,
                None => r matches Err(e) && e is NetworkFailed,
            },
            branch is Nightly ==> match nightly_ref_text {
                Some(t) => r matches Ok(v) && v@ == spec_first_line(t@),
                None => r matches Err(e) && e is NetworkFailed,
            },
    {
        match branch {
            MoonlightBranch::Stable => match stable_release {
                Some(rel) => Ok(rel.name.clone()),
                None => Err(
                    MoonlightError::NetworkFailed(
                        String::from_str("the release listing could not be fetched"),
                    ),
                ),
            },
            MoonlightBranch::Nightly => match nightly_ref_text {
                Some(t) => Ok(first_line(t.as_str())),
                None => Err(
                    MoonlightError::NetworkFailed(
                        String::from_str("the reference text could not be fetched"),
                    ),
                ),
            },
        }
    }
}

/// What a package download must do: the fresh directory to extract into,
/// the archive's location, and the version string the result carries.
pub struct DownloadPlan {
    pub dir: String,
    pub url: String,
    pub version: String,
}

impl Installer {
    /// Decides a package download for a branch from the fetched release
    /// data: the stable branch downloads the release asset named exactly as
    /// required, nightly downloads the fixed archive location under the
    /// version named by the reference text's first line. Missing fetched
    /// data is a network error; a stable release without the required asset
    /// is an error of its own.
    pub fn download_moonlight(
        &self,
        branch: MoonlightBranch,
        moonlight_dir: &str,
        stable_release: Option<&GitHubRelease>,
        nightly_ref_text: Option<&String>,
    ) -> (r: Result<DownloadPlan, MoonlightError>)
        ensures
            branch is Stable ==> match stable_release {
                Some(rel) => {
                    if exists|i: int|
                        0 <= i < rel.assets@.len() && (#[trigger] crate::fetch::assets_view(
                            rel.assets@,
                        )[i]).0 == crate::fetch::spec_artifact_name() {
                        r matches Ok(p) && p.dir@ == spec_join(moonlight_dir@, "dist-stable"@)
                            && p.version@ == rel.name@ && (exists|i: int|
                            0 <= i < rel.assets@.len() && (#[trigger] crate::fetch::assets_view(
                                rel.assets@,
                            )[i]).0 == crate::fetch::spec_artifact_name() && p.url@
                                == crate::fetch::assets_view(rel.assets@)[i].1)
                    } else {
                        r matches Err(e) && e is Unknown
                    }
                },
                None => r matches Err(e) && e is NetworkFailed,
            },
            branch is Nightly ==> match nightly_ref_text {
                Some(t) => r matches Ok(p) && p.dir@ == spec_join(moonlight_dir@, "dist-nightly"@)
                    && p.version@ == spec_first_line(t@) && p.url@
                    == "https://moonlight-mod.github.io/moonlight/dist.tar.gz"@,
                None => r matches Err(e) && e is NetworkFailed,
            },
    {
        let dir = crate::paths::get_download_dir(moonlight_dir, branch);
        match branch {
            MoonlightBranch::Stable => match stable_release {
                Some(rel) => match crate::fetch::find_artifact(rel) {
                    Some(url) => Ok(DownloadPlan { dir, url, version: rel.name.clone() }),
                    None => Err(
                        MoonlightError::Unknown(
                            String::from_str("the release has no distributable archive"),
                        ),
                    ),
                },
                None => Err(
                    MoonlightError::NetworkFailed(
                        String::from_str("the release listing could not be fetched"),
                    ),
                ),
            },
            MoonlightBranch::Nightly => match nightly_ref_text {
                Some(t) => Ok(
                    DownloadPlan {
                        dir,
                        url: crate::fetch::nightly_dist_url().to_owned(),
                        version: first_line(t.as_str()),
                    },
                ),
                None => Err(
                    MoonlightError::NetworkFailed(
                        String::from_str("the reference text could not be fetched"),
                    ),
                ),
            },
        }
    }
}

/// The decimal digits of a number, most significant first.
pub open spec fn spec_dec_digits(n: nat) -> Seq<char>
    decreases n,
{
    if n < 10 {
        seq![spec_digit_char(n)]
    } else {
        spec_dec_digits(n / 10) + seq![spec_digit_char(n % 10)]
    }
}

/// The character of one decimal digit.
pub open spec fn spec_digit_char(d: nat) -> char {
    if d == 0 {
        '0'
    } else if d == 1 {
        '1'
    } else if d == 2 {
        '2'
    } else if d == 3 {
        '3'
    } else if d == 4 {
        '4'
    } else if d == 5 {
        '5'
    } else if d == 6 {
        '6'
    } else if d == 7 {
        '7'
    } else if d == 8 {
        '8'
    } else {
        '9'
    }
}

/// Appends the decimal digits of `n`.
fn push_dec(n: u64, out: &mut Vec<char>)
    ensures
        final(out)@ == old(out)@ + spec_dec_digits(n as nat),
    decreases n,
{
    if n < 10 {
        let d: char = match n {
            0u64 => '0',
            1u64 => '1',
            2u64 => '2',
            3u64 => '3',
            4u64 => '4',
            5u64 => '5',
            6u64 => '6',
            7u64 => '7',
            8u64 => '8',
            _ => '9',
        };
        out.push(d);
        proof {
            assert(out@ =~= old(out)@ + spec_dec_digits(n as nat));
        }
    } else {
        push_dec(n / 10, out);
        let d: char = match n % 10 {
            0u64 => '0',
            1u64 => '1',
            2u64 => '2',
            3u64 => '3',
            4u64 => '4',
            5u64 => '5',
            6u64 => '6',
            7u64 => '7',
            8u64 => '8',
            _ => '9',
        };
        out.push(d);
        proof {
            assert(spec_digit_char((n % 10) as nat) == d);
            assert(out@ =~= old(out)@ + spec_dec_digits(n as nat));
        }
    }
}

impl Installer {
    /// The path recorded in the version map for a download directory:
    /// relative to the tool's configuration directory when a relative form
    /// exists, the directory itself otherwise.
    pub fn download_store_path(&self, dir: String, moonlight_dir: &str) -> (r: String)
        ensures
            match crate::paths::rel_path_of(dir@, moonlight_dir@) {
                Some(p) => r@ == p,
                None => r == dir,
            },
    {
        let t = crate::types::TemplatedPathBuf::try_relative(dir, moonlight_dir);
        t.path_str
    }

    /// The rename a configuration reset performs: the channel's saved
    /// configuration file moves aside to a time-stamped backup name in the
    /// tool's configuration directory.
    pub fn reset_config(&self, branch: Branch, moonlight_dir: &str, now_secs: u64) -> (r: (
        String,
        String,
    ))
        ensures
            r.0@ == spec_join(moonlight_dir@, branch.spec_config_stem() + ".json"@),
            r.1@ == spec_join(
                moonlight_dir@,
                branch.spec_config_stem() + "-backup-"@ + spec_dec_digits(now_secs as nat)
                    + ".json"@,
            ),
    {
        let from = branch.config(moonlight_dir);
        let mut name: Vec<char> = Vec::new();
        crate::text::append_str(&mut name, branch.config_stem());
        crate::text::append_str(&mut name, "-backup-");
        push_dec(now_secs, &mut name);
        crate::text::append_str(&mut name, ".json");
        let leaf = crate::text::string_of(&name);
        let to = join_path(moonlight_dir, leaf.as_str());
        proof {
            assert(leaf@ =~= branch.spec_config_stem() + "-backup-"@ + spec_dec_digits(
                now_secs as nat,
            ) + ".json"@);
        }
        (from, to)
    }
}

} // verus!

//! Release fetcher logic: resolving the version string and the download
//! source for a branch from fetched release data. The transport itself —
//! HTTP and archive extraction — stays with the caller; this module decides
//! what to fetch and what the fetched data means.

use vstd::prelude::*;
use crate::types::{GitHubRelease, GitHubReleaseAsset};
use crate::text::eq_str;
use crate::text::chars_of;

verus! {

/// The fixed file name of the release asset the fetcher requires.
pub open spec fn spec_artifact_name() -> Seq<char> {
    "dist.tar.gz"@
}

/// Returns the required asset name.
pub fn artifact_name() -> (r: &'static str)
    ensures
        r@ == spec_artifact_name(),
{
    "dist.tar.gz"
}

/// The view of an asset: its name and its download location.
pub open spec fn asset_view(a: GitHubReleaseAsset) -> (Seq<char>, Seq<char>) {
    (a.name@, a.browser_download_url@)
}

/// The views of a release's assets.
pub open spec fn assets_view(v: Seq<GitHubReleaseAsset>) -> Seq<(Seq<char>, Seq<char>)> {
    v.map_values(|a: GitHubReleaseAsset| asset_view(a))
}

/// The download location of the first asset with the required name, when
/// the release has one; the fetcher requires the asset named exactly
/// `dist.tar.gz`.
pub fn find_artifact(release: &GitHubRelease) -> (r: Option<String>)
    ensures
        match r {
            Some(url) => exists|i: int|
                0 <= i < release.assets@.len() && (#[trigger] assets_view(release.assets@)[i]).0
                    == spec_artifact_name() && assets_view(release.assets@)[i].1 == url@ && (
                forall|j: int|
                    0 <= j < i ==> (#[trigger] assets_view(release.assets@)[j]).0
                        != spec_artifact_name()),
            None => forall|i: int|
                0 <= i < release.assets@.len() ==> (#[trigger] assets_view(release.assets@)[i]).0
                    != spec_artifact_name(),
        },
{
    let n = release.assets.len();
    let mut i: usize = 0;
    while i < n
        invariant
            i <= n,
            n == release.assets@.len(),
            forall|j: int|
                0 <= j < i ==> (#[trigger] assets_view(release.assets@)[j]).0
                    != spec_artifact_name(),
        decreases n - i,
    {
        let name_chars = chars_of(release.assets[i].name.as_str());
        proof {
            assert(assets_view(release.assets@)[i as int] == asset_view(
                release.assets@[i as int],
            ));
        }
        if eq_str(&name_chars, "dist.tar.gz") {
            return Some(release.assets[i].browser_download_url.clone());
        }
        i = i + 1;
    }
    None
}

/// Returns the location of the releases-listing endpoint for the upstream
/// repository.
pub fn stable_releases_url() -> (r: &'static str)
    ensures
        r@ == "https://api.github.com/repos/moonlight-mod/moonlight/releases/latest"@,
{
    "https://api.github.com/repos/moonlight-mod/moonlight/releases/latest"
}

/// Returns the location of the nightly reference endpoint, whose first line
/// is the version identifier.
pub fn nightly_ref_url() -> (r: &'static str)
    ensures
        r@ == "https://moonlight-mod.github.io/moonlight/ref"@,
{
    "https://moonlight-mod.github.io/moonlight/ref"
}

/// Returns the location of the nightly archive endpoint.
pub fn nightly_dist_url() -> (r: &'static str)
    ensures
        r@ == "https://moonlight-mod.github.io/moonlight/dist.tar.gz"@,
{
    "https://moonlight-mod.github.io/moonlight/dist.tar.gz"
}

/// Returns the agent identification sent with upstream requests.
pub fn user_agent() -> (r: &'static str)
    ensures
        r@ == "moonlight-installer (https://github.com/moonlight-mod/moonlight-installer)"@,
{
    "moonlight-installer (https://github.com/moonlight-mod/moonlight-installer)"
}

} // verus!

//! The release fetcher logic: version resolution and asset lookup.

use libmoonlight::fetch::{
    artifact_name, find_artifact, nightly_dist_url, nightly_ref_url, stable_releases_url,
};
use libmoonlight::installer::Installer;
use libmoonlight::text::first_line;
use libmoonlight::types::{GitHubRelease, GitHubReleaseAsset, MoonlightBranch};
use libmoonlight::error::MoonlightError;

fn asset(name: &str, url: &str) -> GitHubReleaseAsset {
    GitHubReleaseAsset { name: String::from(name), browser_download_url: String::from(url) }
}

#[test]
fn nightly_version_is_first_line() {
    // The reference text's first line is the version identifier.
    assert_eq!(first_line("2024.01.01\nextra\n"), "2024.01.01");
    assert_eq!(first_line("2024.01.01"), "2024.01.01");
    assert_eq!(first_line("2024.01.01\r\nextra"), "2024.01.01");
    assert_eq!(first_line(""), "");
}

#[test]
fn latest_version_nightly_from_text() {
    let ins = Installer::new();
    let text = String::from("2024.01.01\nextra\n");
    let v = ins
        .get_latest_moonlight_version(MoonlightBranch::Nightly, None, Some(&text))
        .unwrap();
    assert_eq!(v, "2024.01.01");
}

#[test]
fn latest_version_stable_from_release() {
    let ins = Installer::new();
    let rel = GitHubRelease { name: String::from("v1.3.0"), assets: Vec::new() };
    let v = ins
        .get_latest_moonlight_version(MoonlightBranch::Stable, Some(&rel), None)
        .unwrap();
    assert_eq!(v, "v1.3.0");
}

#[test]
fn latest_version_missing_fetch_is_network_error() {
    let ins = Installer::new();
    let e = ins.get_latest_moonlight_version(MoonlightBranch::Stable, None, None);
    assert!(matches!(e, Err(MoonlightError::NetworkFailed(_))));
    let e = ins.get_latest_moonlight_version(MoonlightBranch::Nightly, None, None);
    assert!(matches!(e, Err(MoonlightError::NetworkFailed(_))));
}

#[test]
fn artifact_lookup() {
    assert_eq!(artifact_name(), "dist.tar.gz");
    let rel = GitHubRelease {
        name: String::from("v1"),
        assets: vec![
            asset("source.zip", "https://example.invalid/1"),
            asset("dist.tar.gz", "https://example.invalid/2"),
            asset("dist.tar.gz", "https://example.invalid/3"),
        ],
    };
    // The first asset with the required name wins.
    assert_eq!(find_artifact(&rel).as_deref(), Some("https://example.invalid/2"));

    let rel = GitHubRelease { name: String::from("v1"), assets: vec![asset("other", "u")] };
    assert!(find_artifact(&rel).is_none());
}

#[test]
fn endpoint_locations() {
    assert!(stable_releases_url().contains("/releases/latest"));
    assert!(nightly_ref_url().ends_with("/ref"));
    assert!(nightly_dist_url().ends_with("/dist.tar.gz"));
}

#[test]
fn download_plan_stable() {
    let ins = Installer::new();
    let rel = GitHubRelease {
        name: String::from("v1.3.0"),
        assets: vec![asset("dist.tar.gz", "https://example.invalid/d")],
    };
    let plan = ins
        .download_moonlight(MoonlightBranch::Stable, "/cfg", Some(&rel), None)
        .unwrap();
    assert_eq!(plan.dir, "/cfg/dist-stable");
    assert_eq!(plan.url, "https://example.invalid/d");
    assert_eq!(plan.version, "v1.3.0");
}

#[test]
fn download_plan_stable_without_artifact() {
    let ins = Installer::new();
    let rel = GitHubRelease { name: String::from("v1"), assets: Vec::new() };
    let e = ins.download_moonlight(MoonlightBranch::Stable, "/cfg", Some(&rel), None);
    assert!(matches!(e, Err(MoonlightError::Unknown(_))));
}

#[test]
fn download_plan_nightly() {
    let ins = Installer::new();
    let text = String::from("2024.01.01\nextra\n");
    let plan = ins
        .download_moonlight(MoonlightBranch::Nightly, "/cfg", None, Some(&text))
        .unwrap();
    assert_eq!(plan.dir, "/cfg/dist-nightly");
    assert_eq!(plan.url, "https://moonlight-mod.github.io/moonlight/dist.tar.gz");
    assert_eq!(plan.version, "2024.01.01");
}

#[test]
fn download_plan_without_fetch_is_network_error() {
    let ins = Installer::new();
    let e = ins.download_moonlight(MoonlightBranch::Nightly, "/cfg", None, None);
    assert!(matches!(e, Err(MoonlightError::NetworkFailed(_))));
}

//! The command bus model and the foreground state updates.

use libmoonlight::appstate::{AppState, Config};
use libmoonlight::bus::{CommandBus, LogicCommand, LogicResponse};
use libmoonlight::error::MoonlightError;
use libmoonlight::types::{DownloadedBranchInfo, DownloadedMap, MoonlightBranch};

#[test]
fn bus_preserves_order_across_spaced_polls() {
    let mut bus = CommandBus::new();
    bus.submit(LogicCommand::GetDownloadedVersions);
    bus.submit(LogicCommand::GetLatestVersion(MoonlightBranch::Stable));
    bus.submit(LogicCommand::GetInstalls);

    // The worker takes commands strictly in submission order.
    let c1 = bus.take_command().unwrap();
    assert!(matches!(c1, LogicCommand::GetDownloadedVersions));
    bus.push_response(LogicResponse::DownloadedVersions(DownloadedMap {
        stable: None,
        nightly: None,
    }));

    // A poll between responses sees only what was produced so far.
    let first = bus.poll();
    assert_eq!(first.len(), 1);
    assert!(matches!(first[0], LogicResponse::DownloadedVersions(_)));

    let c2 = bus.take_command().unwrap();
    assert!(matches!(c2, LogicCommand::GetLatestVersion(MoonlightBranch::Stable)));
    bus.push_response(LogicResponse::LatestVersion(Ok((
        MoonlightBranch::Stable,
        String::from("v1"),
    ))));
    let c3 = bus.take_command().unwrap();
    assert!(matches!(c3, LogicCommand::GetInstalls));
    bus.push_response(LogicResponse::Installs(Vec::new()));

    // No response for a later command is observed before one for an
    // earlier command.
    let rest = bus.poll();
    assert_eq!(rest.len(), 2);
    assert!(matches!(rest[0], LogicResponse::LatestVersion(_)));
    assert!(matches!(rest[1], LogicResponse::Installs(_)));

    // Nothing is pending afterwards.
    assert!(bus.poll().is_empty());
    assert!(bus.take_command().is_none());
}

#[test]
fn state_records_listing_and_versions() {
    let mut st = AppState::new();
    st.apply_response(LogicResponse::Installs(Vec::new()));
    assert!(st.installs.as_ref().unwrap().is_empty());

    st.apply_response(LogicResponse::DownloadedVersions(DownloadedMap {
        stable: Some(DownloadedBranchInfo {
            version: String::from("v1"),
            path: String::from("dist-stable"),
        }),
        nightly: None,
    }));
    let m = st.downloaded_versions.as_ref().unwrap();
    assert_eq!(m.stable.as_ref().unwrap().version, "v1");
}

#[test]
fn state_latest_version_and_errors() {
    let mut st = AppState::new();
    st.apply_response(LogicResponse::LatestVersion(Ok((
        MoonlightBranch::Nightly,
        String::from("2024.01.01"),
    ))));
    assert_eq!(st.latest_nightly.as_deref(), Some("2024.01.01"));
    assert!(st.latest_stable.is_none());
    assert!(st.downloading_error.is_none());

    st.apply_response(LogicResponse::LatestVersion(Err(MoonlightError::NetworkFailed(
        String::from("down"),
    ))));
    assert!(matches!(st.downloading_error, Some(MoonlightError::NetworkFailed(_))));
    // The previously known version stays.
    assert_eq!(st.latest_nightly.as_deref(), Some("2024.01.01"));
}

#[test]
fn state_update_complete_merges_map() {
    let mut st = AppState::new();
    st.downloading = true;
    st.downloaded_versions = Some(DownloadedMap { stable: None, nightly: None });
    st.apply_response(LogicResponse::UpdateComplete(Ok((
        MoonlightBranch::Stable,
        DownloadedBranchInfo { version: String::from("v2"), path: String::from("dist-stable") },
    ))));
    assert!(!st.downloading);
    let m = st.downloaded_versions.as_ref().unwrap();
    assert_eq!(m.stable.as_ref().unwrap().version, "v2");
}

#[test]
fn state_patch_complete_marks_install() {
    let ins = libmoonlight::installer::Installer::new();
    let cands = libmoonlight::detect::detect_installs_macos(&vec![
        libmoonlight::detect::MacRootProbe {
            root: String::from("/Applications"),
            stable: true,
            ptb: true,
            canary: false,
            development: false,
        },
    ]);
    let detected = ins.detect_installs(cands, vec![None, None]);
    let infos = ins.get_installs(detected, &vec![true, true], &vec![false, false]);

    let mut st = AppState::new();
    st.patching = true;
    st.installs = Some(infos);
    st.apply_response(LogicResponse::PatchComplete(Ok(String::from(
        "/Applications/Discord PTB.app/Contents/Resources",
    ))));
    assert!(!st.patching);
    let installs = st.installs.as_ref().unwrap();
    assert!(!installs[0].patched);
    assert!(installs[1].patched);

    st.apply_response(LogicResponse::UnpatchComplete(Ok(String::from(
        "/Applications/Discord PTB.app/Contents/Resources",
    ))));
    let installs = st.installs.as_ref().unwrap();
    assert!(!installs[1].patched);
}

#[test]
fn state_patch_error_is_kept() {
    let mut st = AppState::new();
    st.patching = true;
    st.apply_response(LogicResponse::PatchComplete(Err(MoonlightError::WindowsFileLock(
        String::from("held"),
    ))));
    assert!(!st.patching);
    assert!(matches!(st.patching_error, Some(MoonlightError::WindowsFileLock(_))));
}

#[test]
fn config_selection_round_trip() {
    let mut cfg = Config::new();
    assert_eq!(cfg.selected_branch, MoonlightBranch::Stable);
    assert!(cfg.branch_for("/a").is_none());
    cfg.select_branch("/a", MoonlightBranch::Nightly);
    cfg.select_branch("/b", MoonlightBranch::Stable);
    assert_eq!(cfg.branch_for("/a"), Some(MoonlightBranch::Nightly));
    assert_eq!(cfg.branch_for("/b"), Some(MoonlightBranch::Stable));
    cfg.select_branch("/a", MoonlightBranch::Stable);
    assert_eq!(cfg.branch_for("/a"), Some(MoonlightBranch::Stable));
    assert_eq!(cfg.install_selected_branches.len(), 2);
}

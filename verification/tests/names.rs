//! Channel and branch naming, platform paths, and error classification.

use libmoonlight::error::{classify_io_error, MoonlightError};
use libmoonlight::paths::{
    get_app_dir, get_branch_config, get_dot_config, get_download_dir, get_flatpak_home,
    get_local_share, get_local_share_workaround, get_moonlight_dir, is_relative_path, join_path,
};
use libmoonlight::types::{Branch, InstallType, MoonlightBranch};

#[test]
fn moonlight_branch_names() {
    assert_eq!(MoonlightBranch::Stable.as_str(), "stable");
    assert_eq!(MoonlightBranch::Nightly.as_str(), "nightly");
    assert_eq!(MoonlightBranch::Stable.name(), "Stable");
    assert_eq!(MoonlightBranch::Nightly.name(), "Nightly");
    assert!(MoonlightBranch::Stable.description().contains("Periodic"));
    assert!(MoonlightBranch::Nightly.description().contains("development"));
}

#[test]
fn channel_names() {
    assert_eq!(Branch::Stable.as_str(), "Stable");
    assert_eq!(Branch::PTB.as_str(), "PTB");
    assert_eq!(Branch::Canary.as_str(), "Canary");
    assert_eq!(Branch::Development.as_str(), "Development");
    assert_eq!(Branch::Stable.name(), "Discord");
    assert_eq!(Branch::PTB.name(), "DiscordPTB");
    assert_eq!(Branch::Canary.name(), "DiscordCanary");
    assert_eq!(Branch::Development.name(), "DiscordDevelopment");
    assert_eq!(Branch::Stable.dashed_name(), "discord");
    assert_eq!(Branch::PTB.dashed_name(), "discord-ptb");
    assert_eq!(Branch::Canary.dashed_name(), "discord-canary");
    assert_eq!(Branch::Development.dashed_name(), "discord-development");
}

#[test]
fn preferred_moonlight_branch() {
    assert_eq!(Branch::Stable.preferred_moonlight_branch(), MoonlightBranch::Stable);
    assert_eq!(Branch::PTB.preferred_moonlight_branch(), MoonlightBranch::Nightly);
    assert_eq!(Branch::Canary.preferred_moonlight_branch(), MoonlightBranch::Nightly);
    assert_eq!(Branch::Development.preferred_moonlight_branch(), MoonlightBranch::Nightly);
}

#[test]
fn config_file_paths() {
    assert_eq!(Branch::Stable.config("/cfg"), "/cfg/stable.json");
    assert_eq!(Branch::PTB.config("/cfg"), "/cfg/ptb.json");
    assert_eq!(get_branch_config("/cfg", Branch::Canary), "/cfg/canary.json");
    assert_eq!(get_branch_config("/cfg", Branch::Development), "/cfg/development.json");
}

#[test]
fn moonlight_dir_resolution() {
    let over = Some(String::from("/custom"));
    assert_eq!(get_moonlight_dir(over, InstallType::Linux, None, None, None), Some(String::from("/custom")));

    let appdata = String::from("C:/Users/u/AppData/Roaming");
    assert_eq!(
        get_moonlight_dir(None, InstallType::Windows, Some(&appdata), None, None),
        Some(String::from("C:/Users/u/AppData/Roaming/moonlight-mod"))
    );
    assert_eq!(get_moonlight_dir(None, InstallType::Windows, None, None, None), None);

    let home = String::from("/home/u");
    assert_eq!(
        get_moonlight_dir(None, InstallType::MacOS, None, Some(&home), None),
        Some(String::from("/home/u/Library/Application Support/moonlight-mod"))
    );

    let xdg = String::from("/home/u/.config");
    assert_eq!(
        get_moonlight_dir(None, InstallType::Linux, None, Some(&home), Some(&xdg)),
        Some(String::from("/home/u/.config/moonlight-mod"))
    );
    assert_eq!(
        get_moonlight_dir(None, InstallType::Linux, None, Some(&home), None),
        Some(String::from("/home/u/.config/moonlight-mod"))
    );
    assert_eq!(get_moonlight_dir(None, InstallType::Linux, None, None, None), None);
}

#[test]
fn data_root_resolution() {
    assert_eq!(get_dot_config(Some(String::from("/xdg")), "/home/u"), "/xdg");
    assert_eq!(get_dot_config(None, "/home/u"), "/home/u/.config");
    assert_eq!(
        get_local_share(Some(String::from("/ovr")), Some(String::from("/xdg")), "/home/u"),
        "/ovr"
    );
    assert_eq!(get_local_share(None, Some(String::from("/xdg")), "/home/u"), "/xdg");
    assert_eq!(get_local_share(None, None, "/home/u"), "/home/u/.local/share");
    assert_eq!(get_local_share_workaround("/home/u"), "/home/u/.local/share");
}

#[test]
fn flatpak_home_resolution() {
    assert_eq!(get_flatpak_home("/a", true, "/b", true), "/a/flatpak");
    assert_eq!(get_flatpak_home("/a", false, "/b", true), "/b/flatpak");
    assert_eq!(get_flatpak_home("/a", false, "/b", false), "/a/flatpak");
}

#[test]
fn app_dir_per_platform() {
    assert_eq!(get_app_dir(InstallType::Windows, "/x"), "/x/resources");
    assert_eq!(get_app_dir(InstallType::Linux, "/x"), "/x/resources");
    assert_eq!(get_app_dir(InstallType::MacOS, "/x"), "/x");
}

#[test]
fn download_dir_is_branch_named() {
    assert_eq!(get_download_dir("/cfg", MoonlightBranch::Stable), "/cfg/dist-stable");
    assert_eq!(get_download_dir("/cfg", MoonlightBranch::Nightly), "/cfg/dist-nightly");
}

#[test]
fn path_model_helpers() {
    assert_eq!(join_path("/a", "b"), "/a/b");
    assert!(is_relative_path("dist"));
    assert!(is_relative_path(""));
    assert!(!is_relative_path("/abs"));
}

#[test]
fn io_error_classification() {
    let e = classify_io_error(Some(32), InstallType::Windows, String::from("locked"));
    assert!(matches!(e, MoonlightError::WindowsFileLock(m) if m == "locked"));

    let e = classify_io_error(Some(1), InstallType::MacOS, String::from("denied"));
    assert!(matches!(e, MoonlightError::MacOSNoPermission(m) if m == "denied"));

    let e = classify_io_error(Some(32), InstallType::Linux, String::from("x"));
    assert!(matches!(e, MoonlightError::Unknown(_)));

    let e = classify_io_error(Some(1), InstallType::Windows, String::from("x"));
    assert!(matches!(e, MoonlightError::Unknown(_)));

    let e = classify_io_error(None, InstallType::MacOS, String::from("x"));
    assert!(matches!(e, MoonlightError::Unknown(_)));
}

#[test]
fn error_message_access() {
    let e = MoonlightError::NetworkFailed(String::from("down"));
    assert_eq!(e.message(), "down");
}

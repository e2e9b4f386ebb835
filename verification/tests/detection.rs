//! Install detection: the per-platform search rules and the executable-path
//! helpers.

use libmoonlight::detect::{
    detect_install, detect_install_type, detect_installs_linux, detect_installs_macos,
    detect_installs_windows, linux_probe_path, ChannelDirListing, MacRootProbe,
    WindowsDetectSnapshot,
};
use libmoonlight::installer::Installer;
use libmoonlight::types::{Branch, MoonlightBranch, TemplatedPathBufBase};

fn listing(dir_exists: bool, children: &[&str]) -> ChannelDirListing {
    ChannelDirListing {
        dir_exists,
        children: children.iter().map(|c| String::from(*c)).collect(),
    }
}

#[test]
fn windows_picks_lexically_greatest_version_folder() {
    let snap = WindowsDetectSnapshot {
        app_data: String::from("C:/Users/u/AppData/Local"),
        stable: listing(true, &["app-1.0.8", "packages", "app-1.0.10", "app-1.0.9"]),
        ptb: listing(false, &[]),
        canary: listing(true, &[]),
        development: listing(true, &["installer.exe"]),
    };
    let r = detect_installs_windows(&snap);
    assert_eq!(r.len(), 1);
    assert_eq!(r[0].branch, Branch::Stable);
    // Lexical comparison, not version comparison: "app-1.0.9" outranks
    // "app-1.0.10".
    assert_eq!(r[0].path, "C:/Users/u/AppData/Local/Discord/app-1.0.9");
    assert!(r[0].flatpak_id.is_none());
}

#[test]
fn windows_absent_channels_not_detected() {
    let snap = WindowsDetectSnapshot {
        app_data: String::from("C:/x"),
        stable: listing(false, &["app-1.0.1"]),
        ptb: listing(true, &["app-0.5.0"]),
        canary: listing(false, &[]),
        development: listing(false, &[]),
    };
    let r = detect_installs_windows(&snap);
    assert_eq!(r.len(), 1);
    assert_eq!(r[0].branch, Branch::PTB);
    assert_eq!(r[0].path, "C:/x/DiscordPTB/app-0.5.0");
}

#[test]
fn macos_scans_both_roots_in_order() {
    let probes = vec![
        MacRootProbe {
            root: String::from("/Applications"),
            stable: true,
            ptb: false,
            canary: true,
            development: false,
        },
        MacRootProbe {
            root: String::from("/Users/u/Applications"),
            stable: false,
            ptb: true,
            canary: false,
            development: false,
        },
    ];
    let r = detect_installs_macos(&probes);
    assert_eq!(r.len(), 3);
    assert_eq!(r[0].branch, Branch::Stable);
    assert_eq!(r[0].path, "/Applications/Discord.app/Contents/Resources");
    assert_eq!(r[1].branch, Branch::Canary);
    assert_eq!(r[1].path, "/Applications/Discord Canary.app/Contents/Resources");
    assert_eq!(r[2].branch, Branch::PTB);
    assert_eq!(r[2].path, "/Users/u/Applications/Discord PTB.app/Contents/Resources");
}

#[test]
fn macos_absent_everywhere_detects_nothing() {
    let probes = vec![MacRootProbe {
        root: String::from("/Applications"),
        stable: false,
        ptb: false,
        canary: false,
        development: false,
    }];
    let r = detect_installs_macos(&probes);
    assert!(r.is_empty());
}

#[test]
fn linux_takes_first_data_root_with_a_match() {
    let shares = vec![String::from("/home/u/.local/custom"), String::from("/home/u/.local/share")];
    // Candidate order: the four native channel directories, then the two
    // container paths.
    let ex = vec![
        vec![false, true],   // native stable only under the second root
        vec![false, false],
        vec![true, true],    // canary under both; the first root wins
        vec![false, false],
        vec![false, false],
        vec![false, true],   // the canary container install
    ];
    let r = detect_installs_linux(&shares, &ex);
    assert_eq!(r.len(), 3);
    assert_eq!(r[0].branch, Branch::Stable);
    assert_eq!(r[0].path, "/home/u/.local/share/Discord");
    assert!(r[0].flatpak_id.is_none());
    assert_eq!(r[1].branch, Branch::Canary);
    assert_eq!(r[1].path, "/home/u/.local/custom/DiscordCanary");
    assert_eq!(r[2].branch, Branch::Canary);
    assert_eq!(
        r[2].path,
        "/home/u/.local/share/flatpak/app/com.discordapp.DiscordCanary/current/active/files/discord-canary"
    );
    assert_eq!(r[2].flatpak_id.as_deref(), Some("com.discordapp.DiscordCanary"));
}

#[test]
fn linux_absent_everywhere_detects_nothing() {
    let shares = vec![String::from("/s")];
    let ex = vec![vec![false]; 6];
    let r = detect_installs_linux(&shares, &ex);
    assert!(r.is_empty());
}

#[test]
fn linux_probe_paths_check_the_channel_child() {
    assert_eq!(linux_probe_path("/s", 0), "/s/Discord/Discord");
    assert_eq!(linux_probe_path("/s", 1), "/s/DiscordPTB/DiscordPTB");
    assert_eq!(
        linux_probe_path("/s", 4),
        "/s/flatpak/app/com.discordapp.Discord/current/active/files/discord/Discord"
    );
}

#[test]
fn install_type_from_executable_name() {
    assert_eq!(detect_install_type("/opt/DiscordPTB/DiscordPTB"), Some(Branch::PTB));
    assert_eq!(detect_install_type("/opt/DiscordCanary/DiscordCanary"), Some(Branch::Canary));
    assert_eq!(
        detect_install_type("/opt/DiscordDevelopment/DiscordDevelopment"),
        Some(Branch::Development)
    );
    assert_eq!(detect_install_type("/opt/Discord/Discord"), Some(Branch::Stable));
    // Anything without a channel marker is taken for the stable channel.
    assert_eq!(detect_install_type("/usr/bin/other"), Some(Branch::Stable));
    assert_eq!(detect_install_type("/opt/.."), None);
    assert_eq!(detect_install_type(""), None);
}

#[test]
fn detect_install_reads_parent_and_probe() {
    let info = detect_install("/opt/DiscordCanary/DiscordCanary", true).unwrap();
    assert_eq!(info.install.branch, Branch::Canary);
    assert_eq!(info.install.path, "/opt/DiscordCanary");
    assert!(info.patched);
    assert!(!info.has_config);
    assert!(info.install.flatpak_id.is_none());

    let info = detect_install("/opt/Discord/Discord", false).unwrap();
    assert!(!info.patched);

    assert!(detect_install("/opt/..", false).is_none());
}

#[test]
fn detect_installs_attaches_metadata() {
    let ins = Installer::new();
    let cands = detect_installs_macos(&vec![MacRootProbe {
        root: String::from("/Applications"),
        stable: true,
        ptb: true,
        canary: false,
        development: false,
    }]);
    let meta_text = String::from(
        "{\"moonlightInjector\":{\"relativeTo\":\"MOONLIGHT\",\"pathStr\":\"dist-stable/injector.js\"},\"patchedAsar\":\"_app.asar\",\"branch\":\"Stable\"}",
    );
    let detected = ins.detect_installs(cands, vec![Some(meta_text), None]);
    assert_eq!(detected.len(), 2);
    let meta = detected[0].moonlight_info.as_ref().unwrap();
    assert_eq!(meta.branch, MoonlightBranch::Stable);
    assert_eq!(meta.moonlight_injector.relative_to, Some(TemplatedPathBufBase::Moonlight));
    assert!(detected[1].moonlight_info.is_none());
}

#[test]
fn get_installs_combines_probes() {
    let ins = Installer::new();
    let cands = detect_installs_macos(&vec![MacRootProbe {
        root: String::from("/Applications"),
        stable: true,
        ptb: true,
        canary: false,
        development: false,
    }]);
    let detected = ins.detect_installs(cands, vec![None, None]);
    let infos = ins.get_installs(detected, &vec![false, true], &vec![true, false]);
    assert_eq!(infos.len(), 2);
    assert!(infos[0].patched);
    assert!(infos[0].has_config);
    assert_eq!(infos[0].install.branch, Branch::Stable);
    assert!(!infos[1].patched);
    assert!(!infos[1].has_config);
}

//! The patch engine: the step plans, the install state model, and the
//! bootstrap metadata round trip.

use libmoonlight::bootstrap::{emit_meta, emit_package, parse_meta};
use libmoonlight::installer::Installer;
use libmoonlight::patch::{
    apply_patch_model, apply_unpatch_model, patched_asar_name, FsAction, InstallFsState,
};
use libmoonlight::types::{
    Branch, DetectedInstall, InstallType, MoonlightBranch, MoonlightMeta, TemplatedPathBuf,
    TemplatedPathBufBase,
};

fn chars(s: &str) -> Vec<char> {
    s.chars().collect()
}

fn install_at(path: &str, branch: Branch, flatpak: Option<&str>) -> DetectedInstall {
    DetectedInstall {
        branch,
        path: String::from(path),
        moonlight_info: None,
        flatpak_id: flatpak.map(String::from),
    }
}

#[test]
fn patch_plan_steps() {
    let ins = Installer::new();
    let install = install_at("/apps/Discord", Branch::Stable, None);
    let (plan, flatpak) = ins.patch_install(
        &install,
        InstallType::Linux,
        "/cfg/dist-stable",
        MoonlightBranch::Stable,
        "/cfg",
        "inject();",
    );
    assert!(flatpak.is_none());
    assert_eq!(plan.len(), 5);
    match &plan[0] {
        FsAction::Rename { from, to } => {
            assert_eq!(from, "/apps/Discord/resources/app.asar");
            assert_eq!(to, "/apps/Discord/resources/_app.asar");
        }
        _ => panic!("the first step renames the archive aside"),
    }
    match &plan[1] {
        FsAction::CreateDir { path } => assert_eq!(path, "/apps/Discord/resources/app"),
        _ => panic!("the second step creates the application folder"),
    }
    match &plan[2] {
        FsAction::WriteFile { path, contents } => {
            assert_eq!(path, "/apps/Discord/resources/app/package.json");
            assert_eq!(
                contents,
                "{\"name\":\"discord\",\"main\":\"./injector.js\",\"private\":true}"
            );
        }
        _ => panic!("the third step writes the package descriptor"),
    }
    match &plan[3] {
        FsAction::WriteFile { path, contents } => {
            assert_eq!(path, "/apps/Discord/resources/app/moonlight.json");
            // The injector sits under the configuration directory, so its
            // recorded path is templated relative to it.
            assert_eq!(
                contents,
                "{\"moonlightInjector\":{\"relativeTo\":\"MOONLIGHT\",\"pathStr\":\"dist-stable/injector.js\"},\"patchedAsar\":\"_app.asar\",\"branch\":\"Stable\"}"
            );
        }
        _ => panic!("the fourth step writes the bootstrap metadata"),
    }
    match &plan[4] {
        FsAction::WriteFile { path, contents } => {
            assert_eq!(path, "/apps/Discord/resources/app/injector.js");
            assert_eq!(contents, "inject();");
        }
        _ => panic!("the fifth step writes the injector script"),
    }
}

#[test]
fn patch_plan_macos_uses_path_itself() {
    let ins = Installer::new();
    let install = install_at("/Applications/Discord.app/Contents/Resources", Branch::Stable, None);
    let (plan, _) = ins.patch_install(
        &install,
        InstallType::MacOS,
        "/cfg/dist-stable",
        MoonlightBranch::Stable,
        "/cfg",
        "x",
    );
    match &plan[0] {
        FsAction::Rename { from, .. } => {
            assert_eq!(from, "/Applications/Discord.app/Contents/Resources/app.asar");
        }
        _ => panic!("the first step renames the archive aside"),
    }
}

#[test]
fn patch_plan_reports_sandbox_id() {
    let ins = Installer::new();
    let install = install_at("/var/app/d", Branch::Canary, Some("com.discordapp.DiscordCanary"));
    let (_, flatpak) = ins.patch_install(
        &install,
        InstallType::Linux,
        "/cfg/dist-nightly",
        MoonlightBranch::Nightly,
        "/cfg",
        "x",
    );
    assert_eq!(flatpak.as_deref(), Some("com.discordapp.DiscordCanary"));
}

#[test]
fn unpatch_plan_steps() {
    let ins = Installer::new();
    let install = install_at("/apps/Discord", Branch::Stable, None);
    let plan = ins.unpatch_install(&install, InstallType::Windows);
    assert_eq!(plan.len(), 2);
    match &plan[0] {
        FsAction::Rename { from, to } => {
            assert_eq!(from, "/apps/Discord/resources/_app.asar");
            assert_eq!(to, "/apps/Discord/resources/app.asar");
        }
        _ => panic!("the first step renames the archive back"),
    }
    match &plan[1] {
        FsAction::RemoveDir { path } => assert_eq!(path, "/apps/Discord/resources/app"),
        _ => panic!("the second step removes the application folder"),
    }
}

#[test]
fn model_patch_unpatch_round_trip() {
    let initial = InstallFsState {
        asar_present: true,
        renamed_present: false,
        app_folder_present: false,
    };
    let patched = apply_patch_model(initial);
    assert!(!patched.asar_present);
    assert!(patched.renamed_present);
    assert!(patched.app_folder_present);
    let restored = apply_unpatch_model(patched);
    assert_eq!(restored, initial);
}

#[test]
fn patched_probe_matches_full_condition() {
    // On states the transitions produce, the probe — archive absent —
    // agrees with "archive absent and application folder present".
    let ins = Installer::new();
    let unpatched = InstallFsState {
        asar_present: true,
        renamed_present: false,
        app_folder_present: false,
    };
    assert!(!ins.is_install_patched(unpatched.asar_present));
    assert!(!(!unpatched.asar_present && unpatched.app_folder_present));
    let patched = apply_patch_model(unpatched);
    assert!(ins.is_install_patched(patched.asar_present));
    assert!(!patched.asar_present && patched.app_folder_present);
    let back = apply_unpatch_model(patched);
    assert!(!ins.is_install_patched(back.asar_present));
    assert!(!(!back.asar_present && back.app_folder_present));
}

#[test]
fn meta_round_trip() {
    let meta = MoonlightMeta {
        moonlight_injector: TemplatedPathBuf {
            relative_to: Some(TemplatedPathBufBase::Moonlight),
            path_str: String::from("dist-stable/injector.js"),
        },
        patched_asar: String::from(patched_asar_name()),
        branch: MoonlightBranch::Stable,
    };
    let text = emit_meta(&meta);
    let back = parse_meta(&chars(&text)).unwrap();
    assert_eq!(back.moonlight_injector.relative_to, Some(TemplatedPathBufBase::Moonlight));
    assert_eq!(back.moonlight_injector.path_str, "dist-stable/injector.js");
    assert_eq!(back.patched_asar, "_app.asar");
    assert_eq!(back.branch, MoonlightBranch::Stable);
}

#[test]
fn meta_round_trip_absolute_injector() {
    let meta = MoonlightMeta {
        moonlight_injector: TemplatedPathBuf {
            relative_to: None,
            path_str: String::from("/elsewhere/injector.js"),
        },
        patched_asar: String::from("_app.asar"),
        branch: MoonlightBranch::Nightly,
    };
    let text = emit_meta(&meta);
    let back = parse_meta(&chars(&text)).unwrap();
    assert!(back.moonlight_injector.relative_to.is_none());
    assert_eq!(back.moonlight_injector.path_str, "/elsewhere/injector.js");
    assert_eq!(back.branch, MoonlightBranch::Nightly);
}

#[test]
fn meta_rejects_foreign_documents() {
    assert!(parse_meta(&chars("")).is_none());
    assert!(parse_meta(&chars("{}")).is_none());
    assert!(parse_meta(&chars("{\"foo\":1}")).is_none());
}

#[test]
fn package_descriptor_text() {
    assert_eq!(
        emit_package("discord-ptb"),
        "{\"name\":\"discord-ptb\",\"main\":\"./injector.js\",\"private\":true}"
    );
}

#[test]
fn templated_path_relative_when_under_base() {
    // Through the real relative-path computation: a path under the base
    // templates to its relative remainder, so resolving joins it back.
    let t = TemplatedPathBuf::try_relative(String::from("/cfg/dist-stable/injector.js"), "/cfg");
    assert_eq!(t.relative_to, Some(TemplatedPathBufBase::Moonlight));
    assert_eq!(t.path_str, "dist-stable/injector.js");
    assert_eq!(t.resolve("/cfg"), "/cfg/dist-stable/injector.js");
}

#[test]
fn templated_path_relative_crossing_up() {
    let t = TemplatedPathBuf::try_relative(String::from("/other/x.js"), "/cfg");
    assert_eq!(t.relative_to, Some(TemplatedPathBufBase::Moonlight));
    assert_eq!(t.path_str, "../other/x.js");
}

#[test]
fn reset_config_backup_name() {
    let ins = Installer::new();
    let (from, to) = ins.reset_config(Branch::Stable, "/cfg", 1700000000);
    assert_eq!(from, "/cfg/stable.json");
    assert_eq!(to, "/cfg/stable-backup-1700000000.json");
}

#[test]
fn download_store_path_relative_when_possible() {
    let ins = Installer::new();
    assert_eq!(
        ins.download_store_path(String::from("/cfg/dist-nightly"), "/cfg"),
        "dist-nightly"
    );
}

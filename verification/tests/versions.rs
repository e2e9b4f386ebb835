//! The version store: document round trips, pruning, and the one-time
//! legacy migration.

use libmoonlight::installer::{Installer, VersionsRead};
use libmoonlight::types::{DownloadedBranchInfo, DownloadedMap, MoonlightBranch};
use libmoonlight::versions::{
    emit_version_map, interpret_legacy, migrate_legacy, parse_version_map, prune_version_map,
};

fn chars(s: &str) -> Vec<char> {
    s.chars().collect()
}

fn map_of(stable: Option<(&str, &str)>, nightly: Option<(&str, &str)>) -> DownloadedMap {
    DownloadedMap {
        stable: stable.map(|(v, p)| DownloadedBranchInfo {
            version: String::from(v),
            path: String::from(p),
        }),
        nightly: nightly.map(|(v, p)| DownloadedBranchInfo {
            version: String::from(v),
            path: String::from(p),
        }),
    }
}

fn assert_entry(e: &Option<DownloadedBranchInfo>, version: &str, path: &str) {
    let e = e.as_ref().unwrap();
    assert_eq!(e.version, version);
    assert_eq!(e.path, path);
}

#[test]
fn emit_two_entries_exact_text() {
    let m = map_of(Some(("v1.0.0", "dist-stable")), Some(("2024.01.01", "dist-nightly")));
    let text = emit_version_map(&m);
    assert_eq!(
        text,
        "{\"Stable\":{\"version\":\"v1.0.0\",\"path\":\"dist-stable\"},\"Nightly\":{\"version\":\"2024.01.01\",\"path\":\"dist-nightly\"}}"
    );
}

#[test]
fn round_trip_all_shapes() {
    for (st, ni) in [
        (None, None),
        (Some(("v1", "a")), None),
        (None, Some(("n1", "b"))),
        (Some(("v1", "a")), Some(("n1", "b"))),
    ] {
        let m = map_of(st, ni);
        let text = emit_version_map(&m);
        let back = parse_version_map(&chars(&text)).unwrap();
        match st {
            Some((v, p)) => assert_entry(&back.stable, v, p),
            None => assert!(back.stable.is_none()),
        }
        match ni {
            Some((v, p)) => assert_entry(&back.nightly, v, p),
            None => assert!(back.nightly.is_none()),
        }
    }
}

#[test]
fn round_trip_with_escapes() {
    let m = map_of(Some(("v\"1\"\\\n\t\r", "di\"st")), None);
    let text = emit_version_map(&m);
    let back = parse_version_map(&chars(&text)).unwrap();
    assert_entry(&back.stable, "v\"1\"\\\n\t\r", "di\"st");
}

#[test]
fn parse_tolerates_whitespace_and_order() {
    let text = "  {  \"Nightly\" : {\"version\" : \"n\" , \"path\" : \"d\"} ,\n  \"Stable\":{\"version\":\"s\",\"path\":\"e\"} }  ";
    let m = parse_version_map(&chars(text)).unwrap();
    assert_entry(&m.nightly, "n", "d");
    assert_entry(&m.stable, "s", "e");
}

#[test]
fn parse_rejects_bad_documents() {
    assert!(parse_version_map(&chars("")).is_none());
    assert!(parse_version_map(&chars("{")).is_none());
    assert!(parse_version_map(&chars("{}x")).is_none());
    assert!(parse_version_map(&chars("{\"Other\":{\"version\":\"v\",\"path\":\"p\"}}")).is_none());
    assert!(parse_version_map(&chars("{\"Stable\":{\"path\":\"p\",\"version\":\"v\"}}")).is_none());
    assert!(
        parse_version_map(&chars(
            "{\"Stable\":{\"version\":\"v\",\"path\":\"p\"},\"Stable\":{\"version\":\"v\",\"path\":\"p\"}}"
        ))
        .is_none()
    );
}

#[test]
fn pruning_drops_only_missing_paths() {
    let m = map_of(Some(("v1", "a")), Some(("n1", "b")));
    let pruned = prune_version_map(m, true, false);
    assert_entry(&pruned.stable, "v1", "a");
    assert!(pruned.nightly.is_none());

    let m = map_of(Some(("v1", "a")), Some(("n1", "b")));
    let pruned = prune_version_map(m, false, true);
    assert!(pruned.stable.is_none());
    assert_entry(&pruned.nightly, "n1", "b");
}

#[test]
fn legacy_interpretation() {
    assert!(interpret_legacy("").is_none());
    let (b, v) = interpret_legacy("v1.2.3").unwrap();
    assert_eq!(b, MoonlightBranch::Stable);
    assert_eq!(v, "v1.2.3");
    let (b, v) = interpret_legacy("2024.01.01").unwrap();
    assert_eq!(b, MoonlightBranch::Nightly);
    assert_eq!(v, "2024.01.01");
}

#[test]
fn legacy_migration_tagged_version() {
    let m = migrate_legacy("v1.2.3", true);
    assert_entry(&m.stable, "v1.2.3", "dist");
    assert!(m.nightly.is_none());
}

#[test]
fn legacy_migration_empty_file() {
    let m = migrate_legacy("", true);
    assert!(m.stable.is_none());
    assert!(m.nightly.is_none());
}

#[test]
fn legacy_migration_without_extraction_dir() {
    let m = migrate_legacy("v1.2.3", false);
    assert!(m.stable.is_none());
    assert!(m.nightly.is_none());
}

#[test]
fn legacy_migration_nightly_version() {
    let m = migrate_legacy("2024.01.01", true);
    assert!(m.stable.is_none());
    assert_entry(&m.nightly, "2024.01.01", "dist");
}

#[test]
fn migration_runs_once() {
    let ins = Installer::new();
    let legacy = String::from("v1.2.3");
    let first = ins.get_downloaded_versions(Some(&legacy), None, true).unwrap();
    let new_text = match first {
        VersionsRead::Migrated { versions, new_file_text } => {
            assert_entry(&versions.stable, "v1.2.3", "dist");
            new_file_text
        }
        VersionsRead::Current { .. } => panic!("expected a migration"),
    };
    // After the caller writes the new file and deletes the legacy one, the
    // next read takes the current-format path and sees the same entries.
    let second = ins.get_downloaded_versions(None, Some(&new_text), true).unwrap();
    match second {
        VersionsRead::Current { versions } => {
            assert_entry(&versions.stable, "v1.2.3", "dist");
            assert!(versions.nightly.is_none());
        }
        VersionsRead::Migrated { .. } => panic!("migration must not repeat"),
    }
}

#[test]
fn missing_file_reads_as_empty_map() {
    let ins = Installer::new();
    match ins.get_downloaded_versions(None, None, false).unwrap() {
        VersionsRead::Current { versions } => {
            assert!(versions.stable.is_none());
            assert!(versions.nightly.is_none());
        }
        VersionsRead::Migrated { .. } => panic!("no legacy file was given"),
    }
}

#[test]
fn unreadable_file_is_an_error() {
    let ins = Installer::new();
    let bad = String::from("not json");
    assert!(ins.get_downloaded_versions(None, Some(&bad), false).is_err());
}

#[test]
fn set_then_get_round_trip() {
    let ins = Installer::new();
    let mut m = DownloadedMap::empty();
    let text = ins.set_downloaded_version(
        &mut m,
        MoonlightBranch::Nightly,
        String::from("2024.02.02"),
        String::from("dist-nightly"),
    );
    let read = ins.get_downloaded_versions(None, Some(&text), true).unwrap();
    match read {
        VersionsRead::Current { versions } => {
            assert!(versions.stable.is_none());
            assert_entry(&versions.nightly, "2024.02.02", "dist-nightly");
            // An entry whose path was deleted between write and read is
            // absent after pruning.
            let pruned = prune_version_map(versions, true, false);
            assert!(pruned.nightly.is_none());
        }
        VersionsRead::Migrated { .. } => panic!("no legacy file was given"),
    }
}

#[test]
fn set_overwrites_existing_entry() {
    let ins = Installer::new();
    let mut m = map_of(Some(("v1", "a")), None);
    ins.set_downloaded_version(
        &mut m,
        MoonlightBranch::Stable,
        String::from("v2"),
        String::from("b"),
    );
    assert_entry(&m.stable, "v2", "b");
}

//! The sandbox override manager: grant parsing and serialization, the
//! exact-match rule for an existing grant, and document preservation.

use libmoonlight::overrides::{
    ensure_flatpak_overrides, ensure_grant, has_rw_grant, parse_list, parse_override,
    parse_override_checked, serialize_list, serialize_override, FlatpakFilesystemOverride,
    FlatpakFilesystemOverridePermission,
};

fn grant(path: &str, permission: FlatpakFilesystemOverridePermission) -> FlatpakFilesystemOverride {
    FlatpakFilesystemOverride { path: String::from(path), permission }
}

#[test]
fn parse_override_forms() {
    let o = parse_override("xdg-config/a").unwrap();
    assert_eq!(o.path, "xdg-config/a");
    assert_eq!(o.permission, FlatpakFilesystemOverridePermission::ReadWrite);

    let o = parse_override("p:rw").unwrap();
    assert_eq!(o.path, "p");
    assert_eq!(o.permission, FlatpakFilesystemOverridePermission::ReadWrite);

    let o = parse_override("p:ro").unwrap();
    assert_eq!(o.permission, FlatpakFilesystemOverridePermission::ReadOnly);

    let o = parse_override("p:create").unwrap();
    assert_eq!(o.permission, FlatpakFilesystemOverridePermission::Create);

    let o = parse_override("!p").unwrap();
    assert_eq!(o.path, "p");
    assert_eq!(o.permission, FlatpakFilesystemOverridePermission::Off);

    assert!(parse_override("p:bogus").is_none());
}

#[test]
fn serialize_override_forms() {
    assert_eq!(serialize_override(&grant("p", FlatpakFilesystemOverridePermission::ReadWrite)), "p");
    assert_eq!(serialize_override(&grant("p", FlatpakFilesystemOverridePermission::ReadOnly)), "p:ro");
    assert_eq!(
        serialize_override(&grant("p", FlatpakFilesystemOverridePermission::Create)),
        "p:create"
    );
    assert_eq!(serialize_override(&grant("p", FlatpakFilesystemOverridePermission::Off)), "!p");
}

#[test]
fn list_round_trip_with_trailing_delimiter() {
    let l = vec![
        grant("a", FlatpakFilesystemOverridePermission::ReadWrite),
        grant("b", FlatpakFilesystemOverridePermission::ReadOnly),
        grant("c", FlatpakFilesystemOverridePermission::Off),
    ];
    let text = serialize_list(&l);
    assert_eq!(text, "a;b:ro;!c;");
    let back = parse_list(&text).unwrap();
    assert_eq!(back.len(), 3);
    assert_eq!(back[0].path, "a");
    assert_eq!(back[0].permission, FlatpakFilesystemOverridePermission::ReadWrite);
    assert_eq!(back[1].path, "b");
    assert_eq!(back[1].permission, FlatpakFilesystemOverridePermission::ReadOnly);
    assert_eq!(back[2].path, "c");
    assert_eq!(back[2].permission, FlatpakFilesystemOverridePermission::Off);
}

#[test]
fn list_parse_without_trailing_delimiter() {
    let back = parse_list("a;b:create").unwrap();
    assert_eq!(back.len(), 2);
    assert_eq!(back[1].permission, FlatpakFilesystemOverridePermission::Create);
}

#[test]
fn exact_rw_grant_is_a_no_op() {
    let mut l = vec![grant("xdg-config/moonlight-mod", FlatpakFilesystemOverridePermission::ReadWrite)];
    assert!(has_rw_grant(&l, "xdg-config/moonlight-mod"));
    let changed = ensure_grant(&mut l, "xdg-config/moonlight-mod");
    assert!(!changed);
    assert_eq!(l.len(), 1);
}

#[test]
fn read_only_grant_is_not_upgraded() {
    // A grant for the path that holds only `ro` does not satisfy the
    // manager: the read-write grant is appended, leaving two entries.
    let mut l = vec![grant("xdg-config/moonlight-mod", FlatpakFilesystemOverridePermission::ReadOnly)];
    assert!(!has_rw_grant(&l, "xdg-config/moonlight-mod"));
    let changed = ensure_grant(&mut l, "xdg-config/moonlight-mod");
    assert!(changed);
    assert_eq!(l.len(), 2);
    assert_eq!(l[0].path, "xdg-config/moonlight-mod");
    assert_eq!(l[0].permission, FlatpakFilesystemOverridePermission::ReadOnly);
    assert_eq!(l[1].path, "xdg-config/moonlight-mod");
    assert_eq!(l[1].permission, FlatpakFilesystemOverridePermission::ReadWrite);
}

#[test]
fn revoked_grant_is_not_a_match_either() {
    let mut l = vec![grant("p", FlatpakFilesystemOverridePermission::Off)];
    let changed = ensure_grant(&mut l, "p");
    assert!(changed);
    assert_eq!(l.len(), 2);
}

#[test]
fn document_no_op_when_granted() {
    let doc = String::from("[Context]\nfilesystems=xdg-config/moonlight-mod;\nsockets=x11;");
    let (out, changed) = ensure_flatpak_overrides(Some(&doc), "xdg-config/moonlight-mod");
    assert!(!changed);
    assert_eq!(out, doc);
}

#[test]
fn document_appends_to_existing_list() {
    let doc = String::from("[Context]\nfilesystems=home:ro;\nsockets=x11;");
    let (out, changed) = ensure_flatpak_overrides(Some(&doc), "xdg-config/moonlight-mod");
    assert!(changed);
    assert_eq!(out, "[Context]\nfilesystems=home:ro;xdg-config/moonlight-mod;\nsockets=x11;");
}

#[test]
fn document_preserves_unknown_sections() {
    let doc = String::from("[Environment]\nFOO=bar\n[Context]\nsockets=x11;\n[Other]\nk=v");
    let (out, changed) = ensure_flatpak_overrides(Some(&doc), "g");
    assert!(changed);
    assert_eq!(out, "[Environment]\nFOO=bar\n[Context]\nfilesystems=g;\nsockets=x11;\n[Other]\nk=v");
}

#[test]
fn document_without_section_gains_one() {
    let doc = String::from("[Environment]\nFOO=bar");
    let (out, changed) = ensure_flatpak_overrides(Some(&doc), "g");
    assert!(changed);
    assert_eq!(out, "[Environment]\nFOO=bar\n[Context]\nfilesystems=g;");
}

#[test]
fn absent_document_is_created() {
    let (out, changed) = ensure_flatpak_overrides(None, "xdg-config/moonlight-mod");
    assert!(changed);
    assert_eq!(out, "\n[Context]\nfilesystems=xdg-config/moonlight-mod;");
}

#[test]
fn document_with_unparseable_list_is_rewritten() {
    let doc = String::from("[Context]\nfilesystems=weird:perm;\nsockets=x11;");
    let (out, changed) = ensure_flatpak_overrides(Some(&doc), "g");
    assert!(changed);
    assert_eq!(out, "[Context]\nfilesystems=g;\nsockets=x11;");
}

#[test]
fn checked_parse_reports_the_bad_tag() {
    let e = parse_override_checked("p:bogus").unwrap_err();
    assert_eq!(e.invalid_permission(), "bogus");
    assert_eq!(e.0, "bogus");
    assert!(parse_override_checked("p:ro").is_ok());
}

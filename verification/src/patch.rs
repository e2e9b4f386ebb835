//! Patch engine: the ordered filesystem steps that switch an install between
//! its unmodified and modified states, the state model of an install's
//! application directory, and the proofs that the patched probe, the
//! invariant, and the patch/unpatch round trip behave as specified.

use vstd::prelude::*;
use crate::bootstrap::{emit_meta, emit_package, spec_emit_meta, spec_emit_package};
use crate::paths::{get_app_dir, join_path, rel_path_of, spec_join};
use crate::types::{
    Branch, DetectedInstall, InstallType, MoonlightBranch, MoonlightMeta, TemplatedPathBuf,
    TemplatedPathBufBase,
};

verus! {

/// The name the startup archive is renamed to while an install is patched.
pub open spec fn spec_patched_asar() -> Seq<char> {
    "_app.asar"@
}

/// Returns the alternate archive name.
pub fn patched_asar_name() -> (r: &'static str)
    ensures
        r@ == spec_patched_asar(),
{
    "_app.asar"
}

/// One step of a patch or unpatch sequence, to be performed on the host
/// filesystem in order.
#[derive(Clone, Debug)]
pub enum FsAction {
    Rename { from: String, to: String },
    CreateDir { path: String },
    WriteFile { path: String, contents: String },
    RemoveDir { path: String },
}

/// The view of one step.
pub open spec fn action_view(a: FsAction) -> (int, Seq<char>, Seq<char>) {
    match a {
        FsAction::Rename { from, to } => (0int, from@, to@),
        FsAction::CreateDir { path } => (1int, path@, Seq::empty()),
        FsAction::WriteFile { path, contents } => (2int, path@, contents@),
        FsAction::RemoveDir { path } => (3int, path@, Seq::empty()),
    }
}

/// The presence model of one install's application directory: whether the
/// original startup archive, the renamed archive, and the unpacked
/// application subfolder are on disk.
#[derive(Clone, Copy, PartialEq, Eq, Structural, Debug)]
pub struct InstallFsState {
    pub asar_present: bool,
    pub renamed_present: bool,
    pub app_folder_present: bool,
}

/// An install that has never been patched: the archive is in place, nothing
/// else is.
pub open spec fn spec_unpatched(s: InstallFsState) -> bool {
    s.asar_present && !s.renamed_present && !s.app_folder_present
}

/// How detection probes an install: it is considered patched exactly when
/// the original startup archive is absent.
pub open spec fn spec_is_patched(s: InstallFsState) -> bool {
    !s.asar_present
}

/// The states the patch and unpatch sequences keep the model in: the
/// renamed archive and the application subfolder are there exactly when the
/// original archive is not.
pub open spec fn spec_install_inv(s: InstallFsState) -> bool {
    s.renamed_present == !s.asar_present && s.app_folder_present == !s.asar_present
}

/// What a completed patch sequence does to the model: the archive is
/// renamed aside and the application subfolder created.
pub open spec fn spec_apply_patch(s: InstallFsState) -> InstallFsState {
    InstallFsState { asar_present: false, renamed_present: true, app_folder_present: true }
}

/// What a completed unpatch sequence does to the model: the archive is
/// renamed back and the application subfolder removed.
pub open spec fn spec_apply_unpatch(s: InstallFsState) -> InstallFsState {
    InstallFsState { asar_present: true, renamed_present: false, app_folder_present: false }
}

/// Applies the patch transition to the model.
pub fn apply_patch_model(s: InstallFsState) -> (r: InstallFsState)
    requires
        !spec_is_patched(s),
    ensures
        r == spec_apply_patch(s),
{
    InstallFsState { asar_present: false, renamed_present: true, app_folder_present: true }
}

/// Applies the unpatch transition to the model.
pub fn apply_unpatch_model(s: InstallFsState) -> (r: InstallFsState)
    requires
        spec_is_patched(s),
    ensures
        r == spec_apply_unpatch(s),
{
    InstallFsState { asar_present: true, renamed_present: false, app_folder_present: false }
}

/// The patched probe agrees with the full condition — the archive absent
/// and the application subfolder present — on every state the patch and
/// unpatch sequences produce, so it holds after any sequence of such calls:
/// the invariant is established by an unpatched install and preserved by
/// both transitions.
pub proof fn lemma_patched_probe_exact(s: InstallFsState)
    requires
        spec_install_inv(s),
    ensures
        spec_is_patched(s) == (!s.asar_present && s.app_folder_present),
{
}

/// The invariant holds of a never-patched install and is preserved by the
/// patch and unpatch transitions, applied under their preconditions.
pub proof fn lemma_inv_preserved(s: InstallFsState)
    ensures
        spec_unpatched(s) ==> spec_install_inv(s),
        spec_install_inv(s) && !spec_is_patched(s) ==> spec_install_inv(spec_apply_patch(s)),
        spec_install_inv(s) && spec_is_patched(s) ==> spec_install_inv(spec_apply_unpatch(s)),
{
}

/// Patch followed by unpatch restores the model of a never-patched install
/// exactly: the archive is back under its original name and the application
/// subfolder is gone, so a later detection pass sees the pre-patch state.
pub proof fn lemma_patch_unpatch_round_trip(s: InstallFsState)
    requires
        spec_unpatched(s),
    ensures
        spec_apply_unpatch(spec_apply_patch(s)) == s,
{
}

impl crate::installer::Installer {

/// The patch steps for an install, in execution order: rename the archive
/// aside, create the application subfolder, write the package descriptor,
/// the bootstrap metadata and the injector script. The second result is the
/// sandbox identifier to hand to the override manager, when the install has
/// one. The precondition of the sequence — the install currently unpatched
/// — is the caller's to check against the probe.
pub fn patch_install(
    &self,
    install: &DetectedInstall,
    os: InstallType,
    download_dir: &str,
    branch: MoonlightBranch,
    moonlight_dir: &str,
    injector_script: &str,
) -> (r: (Vec<FsAction>, Option<String>))
    ensures
        ({
            let res_dir = if os is MacOS {
                install.path@
            } else {
                spec_join(install.path@, "resources"@)
            };
            let app_dir = spec_join(res_dir, "app"@);
            let injector_path = spec_join(download_dir@, "injector.js"@);
            let tpb: (Option<TemplatedPathBufBase>, Seq<char>) = match rel_path_of(
                injector_path,
                moonlight_dir@,
            ) {
                Some(p) => (Some(TemplatedPathBufBase::Moonlight), p),
                None => (None, injector_path),
            };
            r.0@.len() == 5 && action_view(r.0@[0]) == (
                0int,
                spec_join(res_dir, "app.asar"@),
                spec_join(res_dir, spec_patched_asar()),
            ) && action_view(r.0@[1]) == (1int, app_dir, Seq::<char>::empty()) && action_view(
                r.0@[2],
            ) == (
                2int,
                spec_join(app_dir, "package.json"@),
                spec_emit_package(install.branch.spec_dashed_name()),
            ) && action_view(r.0@[3]) == (
                2int,
                spec_join(app_dir, "moonlight.json"@),
                spec_emit_meta(tpb.0, tpb.1, spec_patched_asar(), branch),
            ) && action_view(r.0@[4]) == (
                2int,
                spec_join(app_dir, "injector.js"@),
                injector_script@,
            ) && r.1 == install.flatpak_id
        }),
{
    let res_dir = get_app_dir(os, install.path.as_str());
    let app_dir = join_path(res_dir.as_str(), "app");
    let asar = join_path(res_dir.as_str(), "app.asar");
    let renamed = join_path(res_dir.as_str(), patched_asar_name());
    let injector_path = join_path(download_dir, "injector.js");
    let tpb = TemplatedPathBuf::try_relative(injector_path, moonlight_dir);
    let meta = MoonlightMeta {
        moonlight_injector: tpb,
        patched_asar: patched_asar_name().to_owned(),
        branch,
    };
    let mut plan: Vec<FsAction> = Vec::new();
    plan.push(FsAction::Rename { from: asar, to: renamed });
    plan.push(FsAction::CreateDir { path: app_dir.clone() });
    plan.push(
        FsAction::WriteFile {
            path: join_path(app_dir.as_str(), "package.json"),
            contents: emit_package(install.branch.dashed_name()),
        },
    );
    plan.push(
        FsAction::WriteFile {
            path: join_path(app_dir.as_str(), "moonlight.json"),
            contents: emit_meta(&meta),
        },
    );
    plan.push(
        FsAction::WriteFile {
            path: join_path(app_dir.as_str(), "injector.js"),
            contents: injector_script.to_owned(),
        },
    );
    let flatpak = install.flatpak_id.clone();
    (plan, flatpak)
}

/// The unpatch steps for an install, in execution order: rename the
/// alternate archive back to its original name, then remove the application
/// subfolder. The precondition — the install currently patched — is the
/// caller's to check against the probe.
pub fn unpatch_install(&self, install: &DetectedInstall, os: InstallType) -> (r: Vec<FsAction>)
    ensures
        ({
            let res_dir = if os is MacOS {
                install.path@
            } else {
                spec_join(install.path@, "resources"@)
            };
            r@.len() == 2 && action_view(r@[0]) == (
                0int,
                spec_join(res_dir, spec_patched_asar()),
                spec_join(res_dir, "app.asar"@),
            ) && action_view(r@[1]) == (
                3int,
                spec_join(res_dir, "app"@),
                Seq::<char>::empty(),
            )
        }),
{
    let res_dir = get_app_dir(os, install.path.as_str());
    let renamed = join_path(res_dir.as_str(), patched_asar_name());
    let asar = join_path(res_dir.as_str(), "app.asar");
    let app_dir = join_path(res_dir.as_str(), "app");
    let mut plan: Vec<FsAction> = Vec::new();
    plan.push(FsAction::Rename { from: renamed, to: asar });
    plan.push(FsAction::RemoveDir { path: app_dir });
    plan
}

} // end of the Installer impl

} // verus!

//! Install detector: enumerates candidate installations of the target
//! client across the four release channels, from a snapshot of the relevant
//! directories that the caller probed. Each platform has its own search
//! rule; all of them return installs only from directories that exist.

use vstd::prelude::*;
use vstd::string::StrSliceExecFns;
use crate::text::{is_prefix_of, lex_le, str_lex_le, str_starts_with, strs_view};
use crate::paths::{join_path, spec_join};
use crate::types::Branch;

verus! {

/// One candidate install: its channel, its top-level path, and the
/// container identifier for sandboxed installs.
#[derive(Clone, Debug)]
pub struct InstallCandidate {
    pub branch: Branch,
    pub path: String,
    pub flatpak_id: Option<String>,
}

impl InstallCandidate {
    /// The view of a candidate.
    pub open spec fn view_of(self) -> (Branch, Seq<char>, Option<Seq<char>>) {
        (
            self.branch,
            self.path@,
            match self.flatpak_id {
                Some(s) => Some(s@),
                None => None,
            },
        )
    }
}

/// The views of a candidate list.
pub open spec fn cands_view(v: Seq<InstallCandidate>) -> Seq<(Branch, Seq<char>, Option<Seq<char>>)> {
    v.map_values(|c: InstallCandidate| c.view_of())
}

/// What one probed channel directory looks like: whether it exists, and the
/// names of its immediate children when it does.
#[derive(Clone, Debug)]
pub struct ChannelDirListing {
    pub dir_exists: bool,
    pub children: Vec<String>,
}

/// The probed per-user application-data state a Windows detection pass
/// works from.
#[derive(Clone, Debug)]
pub struct WindowsDetectSnapshot {
    pub app_data: String,
    pub stable: ChannelDirListing,
    pub ptb: ChannelDirListing,
    pub canary: ChannelDirListing,
    pub development: ChannelDirListing,
}

/// The child names that match the version-folder naming pattern, in their
/// listed order.
pub open spec fn spec_filter_versions(cs: Seq<Seq<char>>) -> Seq<Seq<char>>
    decreases cs.len(),
{
    if cs.len() == 0 {
        Seq::empty()
    } else {
        let rest = spec_filter_versions(cs.drop_last());
        if is_prefix_of("app-"@, cs.last()) {
            rest.push(cs.last())
        } else {
            rest
        }
    }
}

/// The lexicographically greatest name, the last among equals — what a
/// stable sort followed by taking the last element selects. The comparison
/// is by character code, not by parsed version numbers.
pub open spec fn spec_lex_max(cs: Seq<Seq<char>>) -> Seq<char>
    decreases cs.len(),
{
    if cs.len() == 0 {
        Seq::empty()
    } else if cs.len() == 1 {
        cs[0]
    } else {
        let m = spec_lex_max(cs.drop_last());
        if lex_le(m, cs.last()) {
            cs.last()
        } else {
            m
        }
    }
}

/// The selected name is one of the listed names, and no listed name
/// outranks it lexically: what the Windows channel search reports really is
/// the greatest version folder, in the string order the search uses.
pub proof fn lemma_lex_max_is_greatest(cs: Seq<Seq<char>>)
    requires
        cs.len() > 0,
    ensures
        exists|i: int| 0 <= i < cs.len() && cs[i] == spec_lex_max(cs),
        forall|i: int| 0 <= i < cs.len() ==> lex_le(#[trigger] cs[i], spec_lex_max(cs)),
    decreases cs.len(),
{
    let m = spec_lex_max(cs);
    if cs.len() == 1 {
        crate::text::lemma_lex_le_refl(cs[0]);
        assert(cs[0] == m);
    } else {
        lemma_lex_max_is_greatest(cs.drop_last());
        let m0 = spec_lex_max(cs.drop_last());
        crate::text::lemma_lex_le_refl(cs.last());
        crate::text::lemma_lex_le_refl(m0);
        if lex_le(m0, cs.last()) {
            assert(m == cs.last());
            assert(cs[cs.len() - 1] == m);
            assert forall|i: int| 0 <= i < cs.len() implies lex_le(#[trigger] cs[i], m) by {
                if i < cs.len() - 1 {
                    assert(cs.drop_last()[i] == cs[i]);
                    crate::text::lemma_lex_le_trans(cs[i], m0, m);
                }
            }
        } else {
            assert(m == m0);
            crate::text::lemma_lex_le_total(m0, cs.last());
            assert(lex_le(cs.last(), m0));
            let w = choose|i: int| 0 <= i < cs.drop_last().len() && cs.drop_last()[i] == m0;
            assert(cs[w] == cs.drop_last()[w]);
            assert forall|i: int| 0 <= i < cs.len() implies lex_le(#[trigger] cs[i], m) by {
                if i < cs.len() - 1 {
                    assert(cs.drop_last()[i] == cs[i]);
                }
            }
        }
    }
}

/// What one Windows channel contributes: nothing when its directory is
/// absent or holds no version folder, else the lexically greatest version
/// folder under it.
pub open spec fn spec_windows_channel(
    app_data: Seq<char>,
    b: Branch,
    dir_exists: bool,
    children: Seq<Seq<char>>,
) -> Seq<(Branch, Seq<char>, Option<Seq<char>>)> {
    if !dir_exists {
        Seq::empty()
    } else {
        let filtered = spec_filter_versions(children);
        if filtered.len() == 0 {
            Seq::empty()
        } else {
            seq![
                (
                    b,
                    spec_join(spec_join(app_data, b.spec_name()), spec_lex_max(filtered)),
                    Option::<Seq<char>>::None,
                ),
            ]
        }
    }
}

/// The full Windows detection result, channels in their fixed order.
pub open spec fn spec_windows_installs(
    app_data: Seq<char>,
    st: (bool, Seq<Seq<char>>),
    pt: (bool, Seq<Seq<char>>),
    ca: (bool, Seq<Seq<char>>),
    de: (bool, Seq<Seq<char>>),
) -> Seq<(Branch, Seq<char>, Option<Seq<char>>)> {
    spec_windows_channel(app_data, Branch::Stable, st.0, st.1) + spec_windows_channel(
        app_data,
        Branch::PTB,
        pt.0,
        pt.1,
    ) + spec_windows_channel(app_data, Branch::Canary, ca.0, ca.1) + spec_windows_channel(
        app_data,
        Branch::Development,
        de.0,
        de.1,
    )
}

/// The view of one probed channel listing.
pub open spec fn listing_view(l: ChannelDirListing) -> (bool, Seq<Seq<char>>) {
    (l.dir_exists, strs_view(l.children@))
}

/// Keeps the children that match the version-folder pattern.
fn filter_versions(children: &Vec<String>) -> (r: Vec<String>)
    ensures
        strs_view(r@) == spec_filter_versions(strs_view(children@)),
{
    let n = children.len();
    let mut out: Vec<String> = Vec::new();
    let mut i: usize = 0;
    proof {
        assert(strs_view(children@).take(0) =~= Seq::<Seq<char>>::empty());
        assert(strs_view(out@) =~= spec_filter_versions(strs_view(children@).take(0)));
    }
    while i < n
        invariant
            i <= n,
            n == children@.len(),
            strs_view(out@) == spec_filter_versions(strs_view(children@).take(i as int)),
        decreases n - i,
    {
        let keep = str_starts_with(children[i].as_str(), "app-");
        proof {
            let cv = strs_view(children@);
            assert(cv[i as int] == children@[i as int]@);
            assert(cv.take(i + 1).drop_last() =~= cv.take(i as int));
            assert(cv.take(i + 1).last() == cv[i as int]);
        }
        if keep {
            out.push(children[i].clone());
            proof {
                assert(strs_view(out@) =~= strs_view(out@.drop_last()).push(
                    children@[i as int]@,
                ));
            }
        }
        i = i + 1;
    }
    proof {
        assert(strs_view(children@).take(n as int) =~= strs_view(children@));
    }
    out
}

/// Selects the lexically greatest name; see [`spec_lex_max`].
fn lex_max(names: &Vec<String>) -> (r: String)
    requires
        names@.len() > 0,
    ensures
        r@ == spec_lex_max(strs_view(names@)),
{
    let n = names.len();
    let mut best = names[0].clone();
    let mut i: usize = 1;
    proof {
        assert(strs_view(names@).take(1).len() == 1);
        assert(strs_view(names@).take(1)[0] == names@[0]@);
    }
    while i < n
        invariant
            1 <= i <= n,
            n == names@.len(),
            best@ == spec_lex_max(strs_view(names@).take(i as int)),
        decreases n - i,
    {
        let cand = &names[i];
        proof {
            let nv = strs_view(names@);
            assert(nv[i as int] == names@[i as int]@);
            assert(nv.take(i + 1).drop_last() =~= nv.take(i as int));
            assert(nv.take(i + 1).last() == nv[i as int]);
            assert(nv.take(i + 1).len() == i + 1 >= 2);
        }
        if str_lex_le(best.as_str(), cand.as_str()) {
            best = cand.clone();
        }
        i = i + 1;
    }
    proof {
        assert(strs_view(names@).take(n as int) =~= strs_view(names@));
    }
    best
}

/// Detects one Windows channel from its probed listing.
fn detect_windows_channel(
    app_data: &str,
    b: Branch,
    listing: &ChannelDirListing,
    out: &mut Vec<InstallCandidate>,
)
    ensures
        cands_view(final(out)@) == cands_view(old(out)@) + spec_windows_channel(
            app_data@,
            b,
            listing.dir_exists,
            strs_view(listing.children@),
        ),
{
    if !listing.dir_exists {
        proof {
            assert(cands_view(out@) =~= cands_view(out@) + spec_windows_channel(
                app_data@,
                b,
                listing.dir_exists,
                strs_view(listing.children@),
            ));
        }
        return;
    }
    let filtered = filter_versions(&listing.children);
    if filtered.len() == 0 {
        proof {
            assert(strs_view(filtered@).len() == 0);
            assert(cands_view(out@) =~= cands_view(out@) + spec_windows_channel(
                app_data@,
                b,
                listing.dir_exists,
                strs_view(listing.children@),
            ));
        }
        return;
    }
    let top = lex_max(&filtered);
    let channel_dir = join_path(app_data, b.name());
    let path = join_path(channel_dir.as_str(), top.as_str());
    out.push(InstallCandidate { branch: b, path, flatpak_id: None });
    proof {
        assert(strs_view(filtered@).len() > 0);
        assert(cands_view(out@) =~= cands_view(out@.drop_last()) + spec_windows_channel(
            app_data@,
            b,
            listing.dir_exists,
            strs_view(listing.children@),
        ));
    }
}

/// Detects installs on Windows: for each channel directory under the
/// per-user application-data root that exists, the lexically greatest
/// version folder, channels in their fixed order.
pub fn detect_installs_windows(snap: &WindowsDetectSnapshot) -> (r: Vec<InstallCandidate>)
    ensures
        cands_view(r@) == spec_windows_installs(
            snap.app_data@,
            listing_view(snap.stable),
            listing_view(snap.ptb),
            listing_view(snap.canary),
            listing_view(snap.development),
        ),
{
    let mut out: Vec<InstallCandidate> = Vec::new();
    proof {
        assert(cands_view(out@) =~= Seq::<(Branch, Seq<char>, Option<Seq<char>>)>::empty());
    }
    detect_windows_channel(snap.app_data.as_str(), Branch::Stable, &snap.stable, &mut out);
    detect_windows_channel(snap.app_data.as_str(), Branch::PTB, &snap.ptb, &mut out);
    detect_windows_channel(snap.app_data.as_str(), Branch::Canary, &snap.canary, &mut out);
    detect_windows_channel(snap.app_data.as_str(), Branch::Development, &snap.development, &mut out);
    proof {
        assert(cands_view(out@) =~= spec_windows_installs(
            snap.app_data@,
            listing_view(snap.stable),
            listing_view(snap.ptb),
            listing_view(snap.canary),
            listing_view(snap.development),
        ));
    }
    out
}

/// A channel whose directory is absent contributes no Windows install, and
/// one whose directory exists contributes only paths under that directory:
/// detection returns installs only from directories that exist.
pub proof fn lemma_windows_absent_channel(
    app_data: Seq<char>,
    st: (bool, Seq<Seq<char>>),
    pt: (bool, Seq<Seq<char>>),
    ca: (bool, Seq<Seq<char>>),
    de: (bool, Seq<Seq<char>>),
    b: Branch,
)
    requires
        b is Stable ==> !st.0,
        b is PTB ==> !pt.0,
        b is Canary ==> !ca.0,
        b is Development ==> !de.0,
    ensures
        forall|k: int|
            0 <= k < spec_windows_installs(app_data, st, pt, ca, de).len()
                ==> #[trigger] spec_windows_installs(app_data, st, pt, ca, de)[k].0 != b,
{
    let r = spec_windows_installs(app_data, st, pt, ca, de);
    let s0 = spec_windows_channel(app_data, Branch::Stable, st.0, st.1);
    let s1 = spec_windows_channel(app_data, Branch::PTB, pt.0, pt.1);
    let s2 = spec_windows_channel(app_data, Branch::Canary, ca.0, ca.1);
    let s3 = spec_windows_channel(app_data, Branch::Development, de.0, de.1);
    assert forall|k: int| 0 <= k < r.len() implies #[trigger] r[k].0 != b by {
        if k < s0.len() {
            assert(r[k] == s0[k]);
            assert(s0[k].0 == Branch::Stable);
        } else if k < s0.len() + s1.len() {
            assert(r[k] == s1[k - s0.len()]);
            assert(s1[k - s0.len()].0 == Branch::PTB);
        } else if k < s0.len() + s1.len() + s2.len() {
            assert(r[k] == s2[k - s0.len() - s1.len()]);
            assert(s2[k - s0.len() - s1.len()].0 == Branch::Canary);
        } else {
            assert(r[k] == s3[k - s0.len() - s1.len() - s2.len()]);
            assert(s3[k - s0.len() - s1.len() - s2.len()].0 == Branch::Development);
        }
    }
}

/// The application-bundle name of a channel on macOS.
pub open spec fn spec_mac_bundle(b: Branch) -> Seq<char> {
    match b {
        Branch::Stable => "Discord.app"@,
        Branch::PTB => "Discord PTB.app"@,
        Branch::Canary => "Discord Canary.app"@,
        Branch::Development => "Discord Development.app"@,
    }
}

/// Returns the channel's bundle name.
pub fn mac_bundle_name(b: Branch) -> (r: &'static str)
    ensures
        r@ == spec_mac_bundle(b),
{
    match b {
        Branch::Stable => "Discord.app",
        Branch::PTB => "Discord PTB.app",
        Branch::Canary => "Discord Canary.app",
        Branch::Development => "Discord Development.app",
    }
}

/// The install path a bundle found under an application root resolves to.
pub open spec fn spec_mac_path(root: Seq<char>, b: Branch) -> Seq<char> {
    spec_join(spec_join(root, spec_mac_bundle(b)), "Contents/Resources"@)
}

/// Whether one probed application root holds the channel's bundle.
#[derive(Clone, Debug)]
pub struct MacRootProbe {
    pub root: String,
    pub stable: bool,
    pub ptb: bool,
    pub canary: bool,
    pub development: bool,
}

/// The view of one probed root.
pub open spec fn mac_probe_view(p: MacRootProbe) -> (Seq<char>, bool, bool, bool, bool) {
    (p.root@, p.stable, p.ptb, p.canary, p.development)
}

/// The views of the probed roots.
pub open spec fn mac_probes_view(v: Seq<MacRootProbe>) -> Seq<(Seq<char>, bool, bool, bool, bool)> {
    v.map_values(|p: MacRootProbe| mac_probe_view(p))
}

/// What one channel of one root contributes.
pub open spec fn spec_mac_entry(root: Seq<char>, b: Branch, present: bool) -> Seq<
    (Branch, Seq<char>, Option<Seq<char>>),
> {
    if present {
        seq![(b, spec_mac_path(root, b), Option::<Seq<char>>::None)]
    } else {
        Seq::empty()
    }
}

/// What one probed root contributes, channels in their fixed order.
pub open spec fn spec_mac_root(p: (Seq<char>, bool, bool, bool, bool)) -> Seq<
    (Branch, Seq<char>, Option<Seq<char>>),
> {
    spec_mac_entry(p.0, Branch::Stable, p.1) + spec_mac_entry(p.0, Branch::PTB, p.2)
        + spec_mac_entry(p.0, Branch::Canary, p.3) + spec_mac_entry(p.0, Branch::Development, p.4)
}

/// The full macOS detection result, roots in their given order.
pub open spec fn spec_mac_installs(ps: Seq<(Seq<char>, bool, bool, bool, bool)>) -> Seq<
    (Branch, Seq<char>, Option<Seq<char>>),
>
    decreases ps.len(),
{
    if ps.len() == 0 {
        Seq::empty()
    } else {
        spec_mac_installs(ps.drop_last()) + spec_mac_root(ps.last())
    }
}

/// Detects one channel of one root.
fn detect_mac_entry(root: &str, b: Branch, present: bool, out: &mut Vec<InstallCandidate>)
    ensures
        cands_view(final(out)@) == cands_view(old(out)@) + spec_mac_entry(root@, b, present),
{
    if present {
        let bundle_dir = join_path(root, mac_bundle_name(b));
        let path = join_path(bundle_dir.as_str(), "Contents/Resources");
        out.push(InstallCandidate { branch: b, path, flatpak_id: None });
        proof {
            assert(cands_view(out@) =~= cands_view(out@.drop_last()) + spec_mac_entry(
                root@,
                b,
                present,
            ));
        }
    } else {
        proof {
            assert(cands_view(out@) =~= cands_view(out@) + spec_mac_entry(root@, b, present));
        }
    }
}

/// Detects installs on macOS: for each probed application root and each of
/// the four bundle names present under it, the bundle's resource directory.
pub fn detect_installs_macos(probes: &Vec<MacRootProbe>) -> (r: Vec<InstallCandidate>)
    ensures
        cands_view(r@) == spec_mac_installs(mac_probes_view(probes@)),
{
    let n = probes.len();
    let mut out: Vec<InstallCandidate> = Vec::new();
    let mut i: usize = 0;
    proof {
        assert(mac_probes_view(probes@).take(0) =~= Seq::<(
            Seq<char>,
            bool,
            bool,
            bool,
            bool,
        )>::empty());
        assert(cands_view(out@) =~= spec_mac_installs(mac_probes_view(probes@).take(0)));
    }
    while i < n
        invariant
            i <= n,
            n == probes@.len(),
            cands_view(out@) == spec_mac_installs(mac_probes_view(probes@).take(i as int)),
        decreases n - i,
    {
        let p = &probes[i];
        detect_mac_entry(p.root.as_str(), Branch::Stable, p.stable, &mut out);
        detect_mac_entry(p.root.as_str(), Branch::PTB, p.ptb, &mut out);
        detect_mac_entry(p.root.as_str(), Branch::Canary, p.canary, &mut out);
        detect_mac_entry(p.root.as_str(), Branch::Development, p.development, &mut out);
        proof {
            let pv = mac_probes_view(probes@);
            assert(pv[i as int] == mac_probe_view(probes@[i as int]));
            assert(pv.take(i + 1).drop_last() =~= pv.take(i as int));
            assert(pv.take(i + 1).last() == pv[i as int]);
            assert(cands_view(out@) =~= spec_mac_installs(pv.take(i + 1)));
        }
        i = i + 1;
    }
    proof {
        assert(mac_probes_view(probes@).take(n as int) =~= mac_probes_view(probes@));
    }
    out
}

/// A channel no probed root reports present is absent from the macOS
/// detection result.
pub proof fn lemma_mac_absent_channel(ps: Seq<(Seq<char>, bool, bool, bool, bool)>, b: Branch)
    requires
        forall|i: int|
            0 <= i < ps.len() ==> !(match b {
                Branch::Stable => (#[trigger] ps[i]).1,
                Branch::PTB => ps[i].2,
                Branch::Canary => ps[i].3,
                Branch::Development => ps[i].4,
            }),
    ensures
        forall|k: int|
            0 <= k < spec_mac_installs(ps).len() ==> (#[trigger] spec_mac_installs(ps)[k]).0 != b,
    decreases ps.len(),
{
    if ps.len() > 0 {
        lemma_mac_absent_channel(ps.drop_last(), b);
        let prev = spec_mac_installs(ps.drop_last());
        let last = spec_mac_root(ps.last());
        assert(ps.last() == ps[ps.len() - 1]);
        assert forall|k: int| 0 <= k < spec_mac_installs(ps).len() implies (
        #[trigger] spec_mac_installs(ps)[k]).0 != b by {
            if k < prev.len() {
                assert(spec_mac_installs(ps)[k] == prev[k]);
            } else {
                assert(spec_mac_installs(ps)[k] == last[k - prev.len()]);
                let e1 = spec_mac_entry(ps.last().0, Branch::Stable, ps.last().1);
                let e2 = spec_mac_entry(ps.last().0, Branch::PTB, ps.last().2);
                let e3 = spec_mac_entry(ps.last().0, Branch::Canary, ps.last().3);
                let e4 = spec_mac_entry(ps.last().0, Branch::Development, ps.last().4);
                let j = k - prev.len();
                if j < e1.len() {
                    assert(last[j] == e1[j]);
                } else if j < e1.len() + e2.len() {
                    assert(last[j] == e2[j - e1.len()]);
                } else if j < e1.len() + e2.len() + e3.len() {
                    assert(last[j] == e3[j - e1.len() - e2.len()]);
                } else {
                    assert(last[j] == e4[j - e1.len() - e2.len() - e3.len()]);
                }
            }
        }
    }
}

/// The data-directory leaf searched for the Linux candidate at `i`: four
/// native channel directories, then the two known container paths.
pub open spec fn spec_linux_dir(i: int) -> Seq<char> {
    if i == 0 {
        "Discord"@
    } else if i == 1 {
        "DiscordPTB"@
    } else if i == 2 {
        "DiscordCanary"@
    } else if i == 3 {
        "DiscordDevelopment"@
    } else if i == 4 {
        "flatpak/app/com.discordapp.Discord/current/active/files/discord"@
    } else {
        "flatpak/app/com.discordapp.DiscordCanary/current/active/files/discord-canary"@
    }
}

/// The channel of the Linux candidate at `i`.
pub open spec fn spec_linux_branch(i: int) -> Branch {
    if i == 0 || i == 4 {
        Branch::Stable
    } else if i == 1 {
        Branch::PTB
    } else if i == 2 || i == 5 {
        Branch::Canary
    } else {
        Branch::Development
    }
}

/// The container identifier of the Linux candidate at `i`.
pub open spec fn spec_linux_flatpak(i: int) -> Option<Seq<char>> {
    if i == 4 {
        Some("com.discordapp.Discord"@)
    } else if i == 5 {
        Some("com.discordapp.DiscordCanary"@)
    } else {
        None
    }
}

/// The number of Linux candidates.
pub open spec fn spec_linux_candidate_count() -> int {
    6
}

/// Returns the candidate data at `i`: its directory leaf, channel, and
/// container identifier.
pub fn linux_candidate(i: usize) -> (r: (&'static str, Branch, Option<&'static str>))
    requires
        i < 6,
    ensures
        r.0@ == spec_linux_dir(i as int),
        r.1 == spec_linux_branch(i as int),
        match r.2 {
            Some(s) => spec_linux_flatpak(i as int) == Some(s@),
            None => spec_linux_flatpak(i as int) is None,
        },
{
    if i == 0 {
        ("Discord", Branch::Stable, None)
    } else if i == 1 {
        ("DiscordPTB", Branch::PTB, None)
    } else if i == 2 {
        ("DiscordCanary", Branch::Canary, None)
    } else if i == 3 {
        ("DiscordDevelopment", Branch::Development, None)
    } else if i == 4 {
        (
            "flatpak/app/com.discordapp.Discord/current/active/files/discord",
            Branch::Stable,
            Some("com.discordapp.Discord"),
        )
    } else {
        (
            "flatpak/app/com.discordapp.DiscordCanary/current/active/files/discord-canary",
            Branch::Canary,
            Some("com.discordapp.DiscordCanary"),
        )
    }
}

/// The path whose existence the caller probes for candidate `i` under one
/// data root: the candidate directory's child named after the channel.
pub fn linux_probe_path(share: &str, i: usize) -> (r: String)
    requires
        i < 6,
    ensures
        r@ == spec_join(
            spec_join(share@, spec_linux_dir(i as int)),
            spec_linux_branch(i as int).spec_name(),
        ),
{
    let (dir, b, _id) = linux_candidate(i);
    let base = join_path(share, dir);
    join_path(base.as_str(), b.name())
}

/// The first index at or after `j` whose probe is positive.
pub open spec fn spec_first_true(row: Seq<bool>, j: int) -> Option<int>
    decreases row.len() - j,
{
    if j < 0 || j >= row.len() {
        None
    } else if row[j] {
        Some(j)
    } else {
        spec_first_true(row, j + 1)
    }
}

/// What candidate `i` contributes: its directory under the first data root
/// whose probe found it, or nothing.
pub open spec fn spec_linux_entry(shares: Seq<Seq<char>>, row: Seq<bool>, i: int) -> Seq<
    (Branch, Seq<char>, Option<Seq<char>>),
> {
    match spec_first_true(row, 0) {
        Some(j) => seq![
            (
                spec_linux_branch(i),
                spec_join(shares[j], spec_linux_dir(i)),
                spec_linux_flatpak(i),
            ),
        ],
        None => Seq::empty(),
    }
}

/// The Linux detection result for the candidates below `upto`.
pub open spec fn spec_linux_upto(shares: Seq<Seq<char>>, ex: Seq<Seq<bool>>, upto: int) -> Seq<
    (Branch, Seq<char>, Option<Seq<char>>),
>
    decreases upto,
{
    if upto <= 0 {
        Seq::empty()
    } else {
        spec_linux_upto(shares, ex, upto - 1) + spec_linux_entry(shares, ex[upto - 1], upto - 1)
    }
}

/// The full Linux detection result.
pub open spec fn spec_linux_installs(shares: Seq<Seq<char>>, ex: Seq<Seq<bool>>) -> Seq<
    (Branch, Seq<char>, Option<Seq<char>>),
> {
    spec_linux_upto(shares, ex, 6)
}

/// Detects installs on Linux: for each fixed candidate — the four native
/// channel directories and the two known container paths — the first data
/// root whose probe found it. `ex[i][j]` reports the probe of candidate `i`
/// under root `j`.
pub fn detect_installs_linux(shares: &Vec<String>, ex: &Vec<Vec<bool>>) -> (r: Vec<
    InstallCandidate,
>)
    requires
        ex@.len() == 6,
        forall|i: int| 0 <= i < 6 ==> (#[trigger] ex@[i])@.len() == shares@.len(),
    ensures
        cands_view(r@) == spec_linux_installs(strs_view(shares@), ex@.map_values(|v: Vec<bool>| v@)),
{
    let ghost sv = strs_view(shares@);
    let ghost exv = ex@.map_values(|v: Vec<bool>| v@);
    let mut out: Vec<InstallCandidate> = Vec::new();
    let mut i: usize = 0;
    proof {
        assert(cands_view(out@) =~= spec_linux_upto(sv, exv, 0));
    }
    while i < 6
        invariant
            i <= 6,
            ex@.len() == 6,
            forall|k: int| 0 <= k < 6 ==> (#[trigger] ex@[k])@.len() == shares@.len(),
            sv == strs_view(shares@),
            exv == ex@.map_values(|v: Vec<bool>| v@),
            cands_view(out@) == spec_linux_upto(sv, exv, i as int),
        decreases 6 - i,
    {
        let (dir, b, id) = linux_candidate(i);
        let row = &ex[i];
        proof {
            assert(exv[i as int] == ex@[i as int]@);
        }
        let hit = first_true_index(row);
        match hit {
            Some(j0) => {
                proof {
                    lemma_first_true_from(row@, 0, j0 as int);
                }
                let path = join_path(shares[j0].as_str(), dir);
                let fid: Option<String> = match id {
                    Some(x) => Some(x.to_owned()),
                    None => None,
                };
                out.push(InstallCandidate { branch: b, path, flatpak_id: fid });
                proof {
                    assert(sv[j0 as int] == shares@[j0 as int]@);
                    assert(cands_view(out@) =~= cands_view(out@.drop_last()) + spec_linux_entry(
                        sv,
                        exv[i as int],
                        i as int,
                    ));
                    assert(cands_view(out@) =~= spec_linux_upto(sv, exv, i + 1));
                }
            },
            None => {
                proof {
                    lemma_first_true_none(row@, 0);
                    assert(spec_linux_entry(sv, exv[i as int], i as int) =~= Seq::<(
                        Branch,
                        Seq<char>,
                        Option<Seq<char>>,
                    )>::empty());
                    assert(cands_view(out@) =~= spec_linux_upto(sv, exv, i + 1));
                }
            },
        }
        i = i + 1;
    }
    out
}

/// The index of the first positive probe, when there is one.
fn first_true_index(row: &Vec<bool>) -> (r: Option<usize>)
    ensures
        match r {
            Some(k) => k < row@.len() && row@[k as int] && (forall|t: int| 0 <= t < k ==> !row@[t]),
            None => forall|t: int| 0 <= t < row@.len() ==> !row@[t],
        },
{
    let m = row.len();
    let mut j: usize = 0;
    while j < m
        invariant
            j <= m,
            m == row@.len(),
            forall|t: int| 0 <= t < j ==> !row@[t],
        decreases m - j,
    {
        if row[j] {
            return Some(j);
        }
        j = j + 1;
    }
    None
}

proof fn lemma_first_true_from(row: Seq<bool>, j: int, k: int)
    requires
        0 <= j <= k < row.len(),
        row[k],
        forall|t: int| j <= t < k ==> !row[t],
    ensures
        spec_first_true(row, j) == Some(k),
    decreases k - j,
{
    if j < k {
        lemma_first_true_from(row, j + 1, k);
    }
}

proof fn lemma_first_true_none(row: Seq<bool>, j: int)
    requires
        0 <= j,
        forall|t: int| j <= t < row.len() ==> !row[t],
    ensures
        spec_first_true(row, j) is None,
    decreases row.len() - j,
{
    if j < row.len() {
        lemma_first_true_none(row, j + 1);
    }
}

/// The file-name component of a path in this crate's path model: the
/// characters after the last separator, the whole path when it has none;
/// an empty component or a parent reference is no file name.
pub open spec fn spec_file_name(p: Seq<char>) -> Option<Seq<char>> {
    let name = match crate::text::spec_rfind(p, '/') {
        Some(i) => p.skip(i + 1),
        None => p,
    };
    if name.len() == 0 || name == ".."@ {
        None
    } else {
        Some(name)
    }
}

/// The directory component of a path: the characters before the last
/// separator, empty when it has none.
pub open spec fn spec_parent_dir(p: Seq<char>) -> Seq<char> {
    match crate::text::spec_rfind(p, '/') {
        Some(i) => p.take(i),
        None => Seq::empty(),
    }
}

/// The channel an executable name belongs to: the channel whose marker the
/// name contains, and the stable channel when it names none.
pub open spec fn spec_install_type_of(name: Seq<char>) -> Branch {
    if crate::text::spec_contains(name, "PTB"@) {
        Branch::PTB
    } else if crate::text::spec_contains(name, "Canary"@) {
        Branch::Canary
    } else if crate::text::spec_contains(name, "Development"@) {
        Branch::Development
    } else {
        Branch::Stable
    }
}

/// The channel of the install an executable path points into, read from the
/// executable's file name; a path without a file name has none.
pub fn detect_install_type(exe: &str) -> (r: Option<Branch>)
    ensures
        match spec_file_name(exe@) {
            Some(name) => r == Some(spec_install_type_of(name)),
            None => r is None,
        },
{
    let n = exe.unicode_len();
    let name = match crate::text::str_rfind(exe, '/') {
        Some(i) => exe.substring_char(i + 1, n),
        None => exe,
    };
    proof {
        match crate::text::spec_rfind(exe@, '/') {
            Some(i) => {
                assert(name@ =~= exe@.skip(i + 1));
            },
            None => {},
        }
    }
    let name_chars = crate::text::chars_of(name);
    if name.unicode_len() == 0 || crate::text::eq_str(&name_chars, "..") {
        return None;
    }
    let b = if crate::text::str_contains(name, "PTB") {
        Branch::PTB
    } else if crate::text::str_contains(name, "Canary") {
        Branch::Canary
    } else if crate::text::str_contains(name, "Development") {
        Branch::Development
    } else {
        Branch::Stable
    };
    Some(b)
}

/// Detects the install an executable path points into: its channel from
/// the executable's name, its folder as the install path, and whether the
/// renamed archive was found where a patched install keeps it. A path
/// without a file name detects nothing.
pub fn detect_install(exe: &str, patched_asar_exists: bool) -> (r: Option<crate::types::InstallInfo>)
    ensures
        match spec_file_name(exe@) {
            Some(name) => r matches Some(info) && info.install.branch == spec_install_type_of(
                name,
            ) && info.install.path@ == spec_parent_dir(exe@) && info.install.moonlight_info is None
                && info.install.flatpak_id is None && info.patched == patched_asar_exists
                && !info.has_config,
            None => r is None,
        },
{
    let branch = match detect_install_type(exe) {
        Some(b) => b,
        None => {
            return None;
        },
    };
    let n = exe.unicode_len();
    let folder = match crate::text::str_rfind(exe, '/') {
        Some(i) => exe.substring_char(0, i).to_owned(),
        None => String::new(),
    };
    proof {
        match crate::text::spec_rfind(exe@, '/') {
            Some(i) => {
                assert(folder@ =~= exe@.take(i));
            },
            None => {},
        }
    }
    Some(
        crate::types::InstallInfo {
            install: crate::types::DetectedInstall {
                branch,
                path: folder,
                moonlight_info: None,
                flatpak_id: None,
            },
            patched: patched_asar_exists,
            has_config: false,
        },
    )
}

/// A candidate none of whose probes is positive contributes no Linux
/// install.
pub proof fn lemma_linux_absent_candidate(shares: Seq<Seq<char>>, ex: Seq<Seq<bool>>, i: int)
    requires
        0 <= i < 6,
        forall|j: int| 0 <= j < ex[i].len() ==> !(ex[i][j]),
    ensures
        spec_linux_entry(shares, ex[i], i) == Seq::<(Branch, Seq<char>, Option<Seq<char>>)>::empty(),
{
    lemma_first_true_none(ex[i], 0);
}

/// A channel absent under every data root — both as a native directory and
/// as a container install — is absent from the Linux detection result.
pub proof fn lemma_linux_absent_channel(shares: Seq<Seq<char>>, ex: Seq<Seq<bool>>, b: Branch)
    requires
        ex.len() == 6,
        forall|i: int, j: int|
            0 <= i < 6 && spec_linux_branch(i) == b && 0 <= j < ex[i].len() ==> !(
            #[trigger] ex[i][j]),
    ensures
        forall|k: int|
            0 <= k < spec_linux_installs(shares, ex).len() ==> (#[trigger] spec_linux_installs(
                shares,
                ex,
            )[k]).0 != b,
{
    let e0 = spec_linux_entry(shares, ex[0], 0);
    let e1 = spec_linux_entry(shares, ex[1], 1);
    let e2 = spec_linux_entry(shares, ex[2], 2);
    let e3 = spec_linux_entry(shares, ex[3], 3);
    let e4 = spec_linux_entry(shares, ex[4], 4);
    let e5 = spec_linux_entry(shares, ex[5], 5);
    let r = spec_linux_installs(shares, ex);
    assert(r == e0 + e1 + e2 + e3 + e4 + e5) by {
        assert(spec_linux_upto(shares, ex, 0) =~= Seq::<(
            Branch,
            Seq<char>,
            Option<Seq<char>>,
        )>::empty());
        assert(spec_linux_upto(shares, ex, 1) == spec_linux_upto(shares, ex, 0) + e0);
        assert(spec_linux_upto(shares, ex, 2) == spec_linux_upto(shares, ex, 1) + e1);
        assert(spec_linux_upto(shares, ex, 3) == spec_linux_upto(shares, ex, 2) + e2);
        assert(spec_linux_upto(shares, ex, 4) == spec_linux_upto(shares, ex, 3) + e3);
        assert(spec_linux_upto(shares, ex, 5) == spec_linux_upto(shares, ex, 4) + e4);
        assert(spec_linux_upto(shares, ex, 6) == spec_linux_upto(shares, ex, 5) + e5);
        assert(Seq::<(Branch, Seq<char>, Option<Seq<char>>)>::empty() + e0 =~= e0);
        assert(r =~= e0 + e1 + e2 + e3 + e4 + e5);
    }
    assert forall|i: int| 0 <= i < 6 && spec_linux_branch(i) == b implies spec_linux_entry(
        shares,
        ex[i],
        i,
    ) == Seq::<(Branch, Seq<char>, Option<Seq<char>>)>::empty() by {
        lemma_linux_absent_candidate(shares, ex, i);
    }
    assert forall|k: int| 0 <= k < r.len() implies (#[trigger] r[k]).0 != b by {
        let l0 = e0.len() as int;
        let l1 = l0 + e1.len() as int;
        let l2 = l1 + e2.len() as int;
        let l3 = l2 + e3.len() as int;
        let l4 = l3 + e4.len() as int;
        if k < l0 {
            assert(r[k] == e0[k]);
            assert(e0[k].0 == spec_linux_branch(0));
        } else if k < l1 {
            assert(r[k] == e1[k - l0]);
            assert(e1[k - l0].0 == spec_linux_branch(1));
        } else if k < l2 {
            assert(r[k] == e2[k - l1]);
            assert(e2[k - l1].0 == spec_linux_branch(2));
        } else if k < l3 {
            assert(r[k] == e3[k - l2]);
            assert(e3[k - l2].0 == spec_linux_branch(3));
        } else if k < l4 {
            assert(r[k] == e4[k - l3]);
            assert(e4[k - l3].0 == spec_linux_branch(4));
        } else {
            assert(r[k] == e5[k - l4]);
            assert(e5[k - l4].0 == spec_linux_branch(5));
        }
    }
}

} // verus!

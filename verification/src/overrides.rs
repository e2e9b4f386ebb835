//! Sandbox override manager: the semicolon-delimited filesystem-grant list
//! of a container override document, its parser and serializer, and the
//! read-modify-write edit that ensures the tool's configuration directory is
//! granted read-write access.

use vstd::prelude::*;
use vstd::string::StrSliceExecFns;
use vstd::string::StringExecFns;
use crate::text::{
    append_str, char_index, chars_of, eq_str, is_prefix_of, join_strings, lemma_split_len,
    lemma_split_step, spec_join, spec_split, split_string, str_starts_with, string_of, strs_view,
};

verus! {

/// The permission a filesystem grant carries: read-write (the default),
/// read-only, create, or explicitly revoked.
#[derive(Clone, Copy, PartialEq, Eq, Structural, Debug)]
pub enum FlatpakFilesystemOverridePermission {
    ReadWrite,
    ReadOnly,
    Create,
    Off,
}

/// One filesystem grant: a path and its permission.
#[derive(Clone, Debug)]
pub struct FlatpakFilesystemOverride {
    pub path: String,
    pub permission: FlatpakFilesystemOverridePermission,
}

impl FlatpakFilesystemOverride {
    /// The view of a grant: its path characters and permission.
    pub open spec fn view_of(self) -> (Seq<char>, FlatpakFilesystemOverridePermission) {
        (self.path@, self.permission)
    }
}

/// The view of a grant list.
pub open spec fn list_view(l: Seq<FlatpakFilesystemOverride>) -> Seq<
    (Seq<char>, FlatpakFilesystemOverridePermission),
> {
    l.map_values(|o: FlatpakFilesystemOverride| o.view_of())
}

/// The text one grant serializes to: `path` for read-write, `path:ro`,
/// `path:create`, or `!path` for a revoked grant.
pub open spec fn spec_serialize_override(
    path: Seq<char>,
    perm: FlatpakFilesystemOverridePermission,
) -> Seq<char> {
    match perm {
        FlatpakFilesystemOverridePermission::ReadWrite => path,
        FlatpakFilesystemOverridePermission::ReadOnly => path + ":ro"@,
        FlatpakFilesystemOverridePermission::Create => path + ":create"@,
        FlatpakFilesystemOverridePermission::Off => "!"@ + path,
    }
}

/// The first position of `c` in `s` at or after `i`.
pub open spec fn spec_find(s: Seq<char>, c: char, i: int) -> Option<int>
    decreases s.len() - i,
{
    if i < 0 || i >= s.len() {
        None
    } else if s[i] == c {
        Some(i)
    } else {
        spec_find(s, c, i + 1)
    }
}

/// What one grant element parses to: a leading `!` revokes the rest; else
/// the text after the first `:` must name a permission; a bare path is
/// read-write.
pub open spec fn spec_parse_override(s: Seq<char>) -> Option<
    (Seq<char>, FlatpakFilesystemOverridePermission),
> {
    if s.len() > 0 && s[0] == '!' {
        Some((s.skip(1), FlatpakFilesystemOverridePermission::Off))
    } else {
        match spec_find(s, ':', 0) {
            None => Some((s, FlatpakFilesystemOverridePermission::ReadWrite)),
            Some(i) => {
                let lhs = s.take(i);
                let rhs = s.skip(i + 1);
                if rhs == "rw"@ {
                    Some((lhs, FlatpakFilesystemOverridePermission::ReadWrite))
                } else if rhs == "ro"@ {
                    Some((lhs, FlatpakFilesystemOverridePermission::ReadOnly))
                } else if rhs == "create"@ {
                    Some((lhs, FlatpakFilesystemOverridePermission::Create))
                } else {
                    None
                }
            },
        }
    }
}

/// Serializes one grant.
pub fn serialize_override(o: &FlatpakFilesystemOverride) -> (r: String)
    ensures
        r@ == spec_serialize_override(o.path@, o.permission),
{
    match o.permission {
        FlatpakFilesystemOverridePermission::ReadWrite => o.path.clone(),
        FlatpakFilesystemOverridePermission::ReadOnly => {
            let mut s = o.path.clone();
            s.append(":ro");
            s
        },
        FlatpakFilesystemOverridePermission::Create => {
            let mut s = o.path.clone();
            s.append(":create");
            s
        },
        FlatpakFilesystemOverridePermission::Off => {
            let mut s = String::from_str("!");
            s.append(o.path.as_str());
            s
        },
    }
}

/// Parses one grant element.
pub fn parse_override(s: &str) -> (r: Option<FlatpakFilesystemOverride>)
    ensures
        match r {
            Some(o) => spec_parse_override(s@) == Some(o.view_of()),
            None => spec_parse_override(s@) is None,
        },
{
    let n = s.unicode_len();
    if n > 0 && s.get_char(0) == '!' {
        let rest = s.substring_char(1, n);
        proof {
            assert(rest@ =~= s@.skip(1));
        }
        return Some(
            FlatpakFilesystemOverride {
                path: rest.to_owned(),
                permission: FlatpakFilesystemOverridePermission::Off,
            },
        );
    }
    match char_index(s, ':') {
        None => {
            proof {
                lemma_find_none(s@, ':', 0);
            }
            Some(
                FlatpakFilesystemOverride {
                    path: s.to_owned(),
                    permission: FlatpakFilesystemOverridePermission::ReadWrite,
                },
            )
        },
        Some(i) => {
            proof {
                lemma_find_first(s@, ':', i as int);
            }
            let lhs = s.substring_char(0, i);
            let rhs = s.substring_char(i + 1, n);
            proof {
                assert(lhs@ =~= s@.take(i as int));
                assert(rhs@ =~= s@.skip(i + 1));
            }
            let rhs_chars = chars_of(rhs);
            let perm = if eq_str(&rhs_chars, "rw") {
                FlatpakFilesystemOverridePermission::ReadWrite
            } else if eq_str(&rhs_chars, "ro") {
                FlatpakFilesystemOverridePermission::ReadOnly
            } else if eq_str(&rhs_chars, "create") {
                FlatpakFilesystemOverridePermission::Create
            } else {
                return None;
            };
            Some(FlatpakFilesystemOverride { path: lhs.to_owned(), permission: perm })
        },
    }
}

/// The error a grant element with an unrecognized permission tag parses
/// to, carrying the offending tag.
pub struct FlatpakFilesystemOverrideParseError(pub String);

impl FlatpakFilesystemOverrideParseError {
    /// The unrecognized tag.
    pub fn invalid_permission(&self) -> (r: &String)
        ensures
            r == self.0,
    {
        &self.0
    }
}

/// Parses one grant element, reporting the unrecognized permission tag on
/// failure.
pub fn parse_override_checked(s: &str) -> (r: Result<
    FlatpakFilesystemOverride,
    FlatpakFilesystemOverrideParseError,
>)
    ensures
        match r {
            Ok(o) => spec_parse_override(s@) == Some(o.view_of()),
            Err(e) => spec_parse_override(s@) is None && (match spec_find(s@, ':', 0) {
                Some(i) => e.0@ == s@.skip(i + 1),
                None => false,
            }),
        },
{
    match parse_override(s) {
        Some(o) => Ok(o),
        None => {
            let i = match char_index(s, ':') {
                Some(i) => i,
                None => {
                    proof {
                        lemma_find_none(s@, ':', 0);
                        assert(spec_parse_override(s@) is Some);
                    }
                    return Err(FlatpakFilesystemOverrideParseError(String::new()));
                },
            };
            proof {
                lemma_find_first(s@, ':', i as int);
            }
            let n = s.unicode_len();
            let rhs = s.substring_char(i + 1, n).to_owned();
            proof {
                assert(rhs@ =~= s@.skip(i + 1));
            }
            Err(FlatpakFilesystemOverrideParseError(rhs))
        },
    }
}

/// When no occurrence exists up to the end, `spec_find` is `None`.
proof fn lemma_find_none(s: Seq<char>, c: char, i: int)
    requires
        0 <= i,
        forall|j: int| i <= j < s.len() ==> s[j] != c,
    ensures
        spec_find(s, c, i) is None,
    decreases s.len() - i,
{
    if i < s.len() {
        lemma_find_none(s, c, i + 1);
    }
}

/// The first occurrence is what `spec_find` returns.
proof fn lemma_find_first(s: Seq<char>, c: char, k: int)
    requires
        0 <= k < s.len(),
        s[k] == c,
        forall|j: int| 0 <= j < k ==> s[j] != c,
    ensures
        spec_find(s, c, 0) == Some(k),
{
    lemma_find_from(s, c, 0, k);
}

proof fn lemma_find_from(s: Seq<char>, c: char, i: int, k: int)
    requires
        0 <= i <= k < s.len(),
        s[k] == c,
        forall|j: int| i <= j < k ==> s[j] != c,
    ensures
        spec_find(s, c, i) == Some(k),
    decreases k - i,
{
    if i < k {
        lemma_find_from(s, c, i + 1, k);
    }
}

/// Whether the list holds a grant for `path` with exactly read-write
/// permission.
pub open spec fn spec_has_rw_grant(
    l: Seq<(Seq<char>, FlatpakFilesystemOverridePermission)>,
    path: Seq<char>,
) -> bool {
    exists|i: int|
        0 <= i < l.len() && l[i].0 == path
            && l[i].1 is ReadWrite
}

/// Whether the grant list already grants `grant_path` read-write; only an
/// exact path plus read-write pair counts.
pub fn has_rw_grant(list: &Vec<FlatpakFilesystemOverride>, grant_path: &str) -> (r: bool)
    ensures
        r == spec_has_rw_grant(list_view(list@), grant_path@),
{
    let n = list.len();
    let mut i: usize = 0;
    while i < n
        invariant
            i <= n,
            n == list@.len(),
            forall|j: int| 0 <= j < i ==> !(list_view(list@)[j].0 == grant_path@
                && list_view(list@)[j].1 is ReadWrite),
        decreases n - i,
    {
        let e = &list[i];
        let matches_perm = match e.permission {
            FlatpakFilesystemOverridePermission::ReadWrite => true,
            _ => false,
        };
        let path_chars = chars_of(e.path.as_str());
        if matches_perm && eq_str(&path_chars, grant_path) {
            proof {
                assert(list_view(list@)[i as int].0 == grant_path@);
            }
            return true;
        }
        proof {
            assert(list_view(list@)[i as int] == list@[i as int].view_of());
        }
        i = i + 1;
    }
    false
}

/// Ensures the list grants `grant_path` read-write: a no-op when an exact
/// read-write grant for that path is present, else the grant is appended.
/// No weaker grant for the same path is upgraded or removed.
pub fn ensure_grant(list: &mut Vec<FlatpakFilesystemOverride>, grant_path: &str) -> (changed: bool)
    ensures
        spec_has_rw_grant(list_view(old(list)@), grant_path@) ==> !changed && final(list)@
            == old(list)@,
        !spec_has_rw_grant(list_view(old(list)@), grant_path@) ==> changed && list_view(
            final(list)@,
        ) == list_view(old(list)@).push(
            (grant_path@, FlatpakFilesystemOverridePermission::ReadWrite),
        ),
{
    if has_rw_grant(list, grant_path) {
        return false;
    }
    list.push(
        FlatpakFilesystemOverride {
            path: grant_path.to_owned(),
            permission: FlatpakFilesystemOverridePermission::ReadWrite,
        },
    );
    proof {
        assert(list_view(list@) =~= list_view(old(list)@).push(
            (grant_path@, FlatpakFilesystemOverridePermission::ReadWrite),
        ));
    }
    true
}

/// A grant list that holds a read-only entry for a path, and no exact
/// read-write entry for it, gains a second entry for that path when the
/// grant is ensured: the read-only entry stays as it is, the read-write
/// grant is appended, and no entry is upgraded in place.
pub proof fn lemma_no_permission_upgrade(
    l: Seq<(Seq<char>, FlatpakFilesystemOverridePermission)>,
    path: Seq<char>,
    i: int,
)
    requires
        0 <= i < l.len(),
        l[i].0 == path,
        l[i].1 is ReadOnly,
        !spec_has_rw_grant(l, path),
    ensures
        ({
            let l2 = l.push((path, FlatpakFilesystemOverridePermission::ReadWrite));
            l2.len() == l.len() + 1 && l2[i] == (
                path,
                FlatpakFilesystemOverridePermission::ReadOnly,
            ) && l2[l.len() as int] == (path, FlatpakFilesystemOverridePermission::ReadWrite)
                && l2[i].0 == l2[l.len() as int].0
        }),
{
    assert(l.push((path, FlatpakFilesystemOverridePermission::ReadWrite))[i] == l[i]);
    assert(l[i] == (path, FlatpakFilesystemOverridePermission::ReadOnly));
}

/// Serializes a grant list: every element followed by the delimiter, so a
/// trailing delimiter is always emitted.
pub open spec fn spec_serialize_list(
    l: Seq<(Seq<char>, FlatpakFilesystemOverridePermission)>,
) -> Seq<char>
    decreases l.len(),
{
    if l.len() == 0 {
        Seq::empty()
    } else {
        spec_serialize_override(l[0].0, l[0].1) + seq![';'] + spec_serialize_list(l.skip(1))
    }
}

/// Serializes the grant list, with a delimiter after every element.
pub fn serialize_list(list: &Vec<FlatpakFilesystemOverride>) -> (r: String)
    ensures
        r@ == spec_serialize_list(list_view(list@)),
{
    let mut out: Vec<char> = Vec::new();
    let n = list.len();
    let mut i: usize = 0;
    proof {
        assert(list_view(list@).skip(0) =~= list_view(list@));
        assert(out@ + spec_serialize_list(list_view(list@)) =~= spec_serialize_list(
            list_view(list@),
        ));
    }
    while i < n
        invariant
            i <= n,
            n == list@.len(),
            out@ + spec_serialize_list(list_view(list@).skip(i as int)) == spec_serialize_list(
                list_view(list@),
            ),
        decreases n - i,
    {
        let ghost prev = out@;
        let s = serialize_override(&list[i]);
        append_str(&mut out, s.as_str());
        out.push(';');
        proof {
            let lv = list_view(list@);
            assert(lv[i as int] == list@[i as int].view_of());
            assert(lv.skip(i as int).len() > 0);
            assert(lv.skip(i as int)[0] == lv[i as int]);
            assert(lv.skip(i as int).skip(1) =~= lv.skip(i + 1));
            assert(spec_serialize_list(lv.skip(i as int)) == spec_serialize_override(
                lv[i as int].0,
                lv[i as int].1,
            ) + seq![';'] + spec_serialize_list(lv.skip(i + 1)));
            assert(out@ =~= prev + s@ + seq![';']);
            assert(out@ + spec_serialize_list(lv.skip(i + 1)) =~= prev + spec_serialize_list(
                lv.skip(i as int),
            ));
        }
        i = i + 1;
    }
    proof {
        assert(list_view(list@).skip(n as int) =~= Seq::<(
            Seq<char>,
            FlatpakFilesystemOverridePermission,
        )>::empty());
        assert(out@ =~= spec_serialize_list(list_view(list@)));
    }
    string_of(&out)
}

/// What a sequence of grant elements parses to; any bad element fails the
/// whole list.
pub open spec fn spec_parse_segments(segs: Seq<Seq<char>>) -> Option<
    Seq<(Seq<char>, FlatpakFilesystemOverridePermission)>,
>
    decreases segs.len(),
{
    if segs.len() == 0 {
        Some(Seq::empty())
    } else {
        match spec_parse_override(segs[0]) {
            None => None,
            Some(e) => match spec_parse_segments(segs.skip(1)) {
                None => None,
                Some(t) => Some(seq![e] + t),
            },
        }
    }
}

/// What a grant-list text parses to: its delimiter-separated elements, with
/// one trailing delimiter tolerated.
pub open spec fn spec_parse_list(s: Seq<char>) -> Option<
    Seq<(Seq<char>, FlatpakFilesystemOverridePermission)>,
> {
    if s.len() == 0 {
        Some(seq![(Seq::<char>::empty(), FlatpakFilesystemOverridePermission::ReadWrite)])
    } else {
        let segs = spec_split(s, ';');
        let segs2 = if segs.len() > 0 && segs.last().len() == 0 {
            segs.drop_last()
        } else {
            segs
        };
        spec_parse_segments(segs2)
    }
}

/// Parses a grant-list text.
pub fn parse_list(s: &str) -> (r: Option<Vec<FlatpakFilesystemOverride>>)
    ensures
        match r {
            Some(l) => spec_parse_list(s@) == Some(list_view(l@)),
            None => spec_parse_list(s@) is None,
        },
{
    if s.unicode_len() == 0 {
        let mut l: Vec<FlatpakFilesystemOverride> = Vec::new();
        l.push(
            FlatpakFilesystemOverride {
                path: String::new(),
                permission: FlatpakFilesystemOverridePermission::ReadWrite,
            },
        );
        proof {
            assert(list_view(l@) =~= seq![
                (Seq::<char>::empty(), FlatpakFilesystemOverridePermission::ReadWrite),
            ]);
        }
        return Some(l);
    }
    let mut segs = split_string(s, ';');
    proof {
        lemma_split_len(s@, ';');
    }
    if segs[segs.len() - 1].as_str().unicode_len() == 0 {
        let _last = segs.pop();
        proof {
            assert(strs_view(segs@) =~= spec_split(s@, ';').drop_last());
        }
    }
    let ghost segs2 = strs_view(segs@);
    proof {
        assert(spec_parse_list(s@) == spec_parse_segments(segs2));
    }
    let n = segs.len();
    let mut out: Vec<FlatpakFilesystemOverride> = Vec::new();
    let mut i: usize = 0;
    proof {
        assert(segs2.skip(0) =~= segs2);
        match spec_parse_segments(segs2) {
            Some(t) => {
                assert(list_view(out@) + t =~= t);
            },
            None => {},
        }
    }
    while i < n
        invariant
            i <= n,
            n == segs@.len(),
            segs2 == strs_view(segs@),
            match spec_parse_segments(segs2.skip(i as int)) {
                Some(t) => spec_parse_list(s@) == Some(list_view(out@) + t),
                None => spec_parse_list(s@) is None,
            },
        decreases n - i,
    {
        match parse_override(segs[i].as_str()) {
            None => {
                proof {
                    assert(segs2.skip(i as int)[0] == segs2[i as int]);
                    assert(spec_parse_segments(segs2.skip(i as int)) is None);
                }
                return None;
            },
            Some(e) => {
                proof {
                    assert(segs2.skip(i as int)[0] == segs2[i as int]);
                    assert(segs2.skip(i as int).skip(1) =~= segs2.skip(i + 1));
                    match spec_parse_segments(segs2.skip(i + 1)) {
                        Some(t) => {
                            assert(spec_parse_segments(segs2.skip(i as int)) == Some(
                                seq![e.view_of()] + t,
                            ));
                            assert(list_view(out@) + (seq![e.view_of()] + t) =~= list_view(
                                out@.push(e),
                            ) + t);
                        },
                        None => {},
                    }
                }
                out.push(e);
            },
        }
        i = i + 1;
    }
    proof {
        assert(segs2.skip(n as int) =~= Seq::<Seq<char>>::empty());
        assert(list_view(out@) + Seq::<(
            Seq<char>,
            FlatpakFilesystemOverridePermission,
        )>::empty() =~= list_view(out@));
    }
    Some(out)
}

/// A grant that serializes into an unambiguous element: its path holds no
/// delimiter, and — unless the grant is revoked, whose form is marked by its
/// prefix — no permission separator and no revocation mark in front.
pub open spec fn wf_override(path: Seq<char>, perm: FlatpakFilesystemOverridePermission) -> bool {
    (forall|j: int| 0 <= j < path.len() ==> path[j] != ';') && (perm is Off || ((forall|j: int|
        0 <= j < path.len() ==> path[j] != ':') && (path.len() == 0 || path[0] != '!')))
}

/// A well-formed grant parses back from its serialized element.
proof fn lemma_override_round_trip(path: Seq<char>, perm: FlatpakFilesystemOverridePermission)
    requires
        wf_override(path, perm),
    ensures
        spec_parse_override(spec_serialize_override(path, perm)) == Some((path, perm)),
{
    reveal_strlit("!");
    reveal_strlit(":ro");
    reveal_strlit(":create");
    reveal_strlit("rw");
    reveal_strlit("ro");
    reveal_strlit("create");
    let s = spec_serialize_override(path, perm);
    match perm {
        FlatpakFilesystemOverridePermission::Off => {
            assert("!"@.len() == 1 && "!"@[0] == '!');
            assert(s[0] == '!');
            assert(s.skip(1) =~= path);
        },
        FlatpakFilesystemOverridePermission::ReadWrite => {
            assert(s == path);
            if path.len() > 0 {
                assert(path[0] != '!');
            }
            lemma_find_none(path, ':', 0);
        },
        FlatpakFilesystemOverridePermission::ReadOnly => {
            assert(":ro"@.len() == 3 && ":ro"@[0] == ':' && ":ro"@[1] == 'r' && ":ro"@[2] == 'o');
            assert(s.len() == path.len() + 3);
            assert forall|j: int| 0 <= j < path.len() implies s[j] == path[j] by {
                assert((path + ":ro"@)[j] == path[j]);
            }
            assert(s[path.len() as int] == ':');
            if path.len() == 0 {
                assert(s[0] == ':');
                assert(s[0] != '!');
            } else {
                assert(s[0] == path[0]);
                assert(s[0] != '!');
            }
            lemma_find_first(s, ':', path.len() as int);
            assert(s.take(path.len() as int) =~= path);
            assert(s.skip(path.len() as int + 1) =~= "ro"@) by {
                assert("ro"@.len() == 2 && "ro"@[0] == 'r' && "ro"@[1] == 'o');
                assert(s[path.len() as int + 1] == 'r');
                assert(s[path.len() as int + 2] == 'o');
            }
            assert("ro"@ != "rw"@) by {
                assert("rw"@.len() == 2 && "rw"@[1] == 'w');
            }
        },
        FlatpakFilesystemOverridePermission::Create => {
            assert(":create"@.len() == 7 && ":create"@[0] == ':');
            assert(s.len() == path.len() + 7);
            assert forall|j: int| 0 <= j < path.len() implies s[j] == path[j] by {
                assert((path + ":create"@)[j] == path[j]);
            }
            assert(s[path.len() as int] == ':');
            if path.len() == 0 {
                assert(s[0] == ':');
                assert(s[0] != '!');
            } else {
                assert(s[0] == path[0]);
                assert(s[0] != '!');
            }
            lemma_find_first(s, ':', path.len() as int);
            assert(s.take(path.len() as int) =~= path);
            assert(s.skip(path.len() as int + 1) =~= "create"@) by {
                assert("create"@.len() == 6);
                assert forall|j: int| 0 <= j < 6 implies s[path.len() as int + 1 + j] == "create"@[j] by {
                    assert((path + ":create"@)[path.len() as int + 1 + j] == ":create"@[1 + j]);
                    assert(":create"@[1 + j] == "create"@[j]);
                }
            }
            assert("create"@ != "rw"@) by {
                assert("rw"@.len() == 2);
            }
            assert("create"@ != "ro"@) by {
                assert("ro"@.len() == 2);
            }
        },
    }
}

/// A serialized element holds no delimiter.
proof fn lemma_serialized_no_delim(path: Seq<char>, perm: FlatpakFilesystemOverridePermission)
    requires
        wf_override(path, perm),
    ensures
        forall|j: int|
            0 <= j < spec_serialize_override(path, perm).len() ==> spec_serialize_override(
                path,
                perm,
            )[j] != ';',
{
    reveal_strlit("!");
    reveal_strlit(":ro");
    reveal_strlit(":create");
    let s = spec_serialize_override(path, perm);
    match perm {
        FlatpakFilesystemOverridePermission::Off => {
            assert("!"@.len() == 1 && "!"@[0] == '!');
            assert forall|j: int| 0 <= j < s.len() implies s[j] != ';' by {
                if j == 0 {
                    assert(s[0] == '!');
                } else {
                    assert(s[j] == path[j - 1]);
                }
            }
        },
        FlatpakFilesystemOverridePermission::ReadWrite => {},
        FlatpakFilesystemOverridePermission::ReadOnly => {
            assert(":ro"@.len() == 3);
            assert forall|j: int| 0 <= j < s.len() implies s[j] != ';' by {
                if j < path.len() {
                    assert(s[j] == path[j]);
                } else {
                    assert(s[j] == ":ro"@[j - path.len()]);
                    assert(":ro"@[0] == ':' && ":ro"@[1] == 'r' && ":ro"@[2] == 'o');
                }
            }
        },
        FlatpakFilesystemOverridePermission::Create => {
            assert(":create"@.len() == 7);
            assert forall|j: int| 0 <= j < s.len() implies s[j] != ';' by {
                if j < path.len() {
                    assert(s[j] == path[j]);
                } else {
                    assert(s[j] == ":create"@[j - path.len()]);
                    assert(":create"@[0] == ':' && ":create"@[1] == 'c' && ":create"@[2] == 'r'
                        && ":create"@[3] == 'e' && ":create"@[4] == 'a' && ":create"@[5] == 't'
                        && ":create"@[6] == 'e');
                }
            }
        },
    }
}

/// A non-empty well-formed grant list parses back from its serialized text:
/// the round-trip law of the override document's grant list, with the
/// trailing delimiter that writing always emits tolerated by the read.
pub proof fn lemma_list_round_trip(l: Seq<(Seq<char>, FlatpakFilesystemOverridePermission)>)
    requires
        l.len() > 0,
        forall|i: int| 0 <= i < l.len() ==> #[trigger] wf_override(l[i].0, l[i].1),
    ensures
        spec_parse_list(spec_serialize_list(l)) == Some(l),
    decreases l.len(),
{
    let e0 = spec_serialize_override(l[0].0, l[0].1);
    let rest = l.skip(1);
    let s = spec_serialize_list(l);
    assert(wf_override(l[0].0, l[0].1));
    lemma_serialized_no_delim(l[0].0, l[0].1);
    lemma_override_round_trip(l[0].0, l[0].1);
    let k = e0.len() as int;
    assert(s == e0 + seq![';'] + spec_serialize_list(rest));
    assert(s.len() > 0);
    assert forall|j: int| 0 <= j < k implies s[j] != ';' by {
        assert(s[j] == ((e0 + seq![';']) + spec_serialize_list(rest))[j]);
        assert(s[j] == e0[j]);
    }
    assert(s[k] == ';') by {
        assert(s[k] == (e0 + seq![';'])[k]);
    }
    assert(s.skip(0) =~= s);
    lemma_split_step(s, ';', 0, k);
    assert(s.subrange(0, k) =~= e0);
    assert(s.skip(k + 1) =~= spec_serialize_list(rest));
    let segs = spec_split(s, ';');
    assert(segs == seq![e0] + spec_split(spec_serialize_list(rest), ';'));
    if rest.len() == 0 {
        assert(spec_serialize_list(rest) =~= Seq::<char>::empty());
        assert(spec_split(spec_serialize_list(rest), ';') == seq![Seq::<char>::empty()]);
        assert(segs =~= seq![e0, Seq::<char>::empty()]);
        assert(segs.last().len() == 0);
        let segs2 = segs.drop_last();
        assert(segs2 =~= seq![e0]);
        assert(segs2.skip(1) =~= Seq::<Seq<char>>::empty());
        assert(seq![(l[0].0, l[0].1)] + Seq::<(
            Seq<char>,
            FlatpakFilesystemOverridePermission,
        )>::empty() =~= seq![(l[0].0, l[0].1)]);
        assert(spec_parse_segments(Seq::<Seq<char>>::empty()) == Some(Seq::<(
            Seq<char>,
            FlatpakFilesystemOverridePermission,
        )>::empty()));
        assert(segs2[0] == e0);
        assert(spec_parse_override(segs2[0]) == Some((l[0].0, l[0].1)));
        assert(spec_parse_segments(segs2) == Some(seq![(l[0].0, l[0].1)]));
        assert(seq![(l[0].0, l[0].1)] =~= l);
    } else {
        lemma_list_round_trip(rest);
        let sr = spec_serialize_list(rest);
        assert(sr.len() > 0) by {
            assert(sr == spec_serialize_override(rest[0].0, rest[0].1) + seq![';']
                + spec_serialize_list(rest.skip(1)));
        }
        let segs_r = spec_split(sr, ';');
        lemma_split_len(sr, ';');
        let segs_r2 = if segs_r.last().len() == 0 {
            segs_r.drop_last()
        } else {
            segs_r
        };
        assert(spec_parse_segments(segs_r2) == Some(rest));
        assert(segs.last() == segs_r.last()) by {
            assert(segs[segs.len() - 1] == (seq![e0] + segs_r)[segs.len() - 1]);
        }
        if segs_r.last().len() == 0 {
            let segs2 = segs.drop_last();
            assert(segs2 =~= seq![e0] + segs_r2);
            assert(segs2[0] == e0);
            assert(segs2.skip(1) =~= segs_r2);
            assert(spec_parse_segments(segs2) == Some(seq![(l[0].0, l[0].1)] + rest));
            assert(seq![(l[0].0, l[0].1)] + rest =~= l);
        } else {
            assert(segs.last().len() != 0);
            assert(segs[0] == e0);
            assert(segs.skip(1) =~= segs_r2);
            assert(spec_parse_segments(segs) == Some(seq![(l[0].0, l[0].1)] + rest));
            assert(seq![(l[0].0, l[0].1)] + rest =~= l);
        }
    }
}


/// The first line at or after `i` that is exactly `target`.
pub open spec fn spec_find_line(ls: Seq<Seq<char>>, target: Seq<char>, i: int) -> Option<int>
    decreases ls.len() - i,
{
    if i < 0 || i >= ls.len() {
        None
    } else if ls[i] == target {
        Some(i)
    } else {
        spec_find_line(ls, target, i + 1)
    }
}

/// The first line at or after `i` that opens the filesystem-grant key,
/// stopping at the next section header.
pub open spec fn spec_find_fs_key(ls: Seq<Seq<char>>, i: int) -> Option<int>
    decreases ls.len() - i,
{
    if i < 0 || i >= ls.len() {
        None
    } else if ls[i].len() > 0 && ls[i][0] == '[' {
        None
    } else if is_prefix_of("filesystems="@, ls[i]) {
        Some(i)
    } else {
        spec_find_fs_key(ls, i + 1)
    }
}

/// The key line carrying a serialized grant list.
pub open spec fn spec_fs_key_line(
    l: Seq<(Seq<char>, FlatpakFilesystemOverridePermission)>,
) -> Seq<char> {
    "filesystems="@ + spec_serialize_list(l)
}

/// The read-modify-write edit of the override document, at the line level:
/// a missing recognized section or key is created; an unparseable grant list
/// is replaced by one holding only the new grant; an exact read-write grant
/// for the path makes the edit a no-op; otherwise the grant is appended to
/// the list and only that line is rewritten. Every other line is kept
/// verbatim.
pub open spec fn spec_ensure_lines(ls: Seq<Seq<char>>, grant: Seq<char>) -> (Seq<Seq<char>>, bool) {
    let single = seq![(grant, FlatpakFilesystemOverridePermission::ReadWrite)];
    match spec_find_line(ls, "[Context]"@, 0) {
        None => (ls + seq!["[Context]"@, spec_fs_key_line(single)], true),
        Some(sidx) => match spec_find_fs_key(ls, sidx + 1) {
            None => (ls.insert(sidx + 1, spec_fs_key_line(single)), true),
            Some(kidx) => {
                let value = ls[kidx].skip("filesystems="@.len() as int);
                match spec_parse_list(value) {
                    Some(list) => if spec_has_rw_grant(list, grant) {
                        (ls, false)
                    } else {
                        (
                            ls.update(
                                kidx,
                                spec_fs_key_line(
                                    list.push(
                                        (grant, FlatpakFilesystemOverridePermission::ReadWrite),
                                    ),
                                ),
                            ),
                            true,
                        )
                    },
                    None => (ls.update(kidx, spec_fs_key_line(single)), true),
                }
            },
        },
    }
}

proof fn lemma_find_line_from(ls: Seq<Seq<char>>, target: Seq<char>, i: int, k: int)
    requires
        0 <= i <= k < ls.len(),
        ls[k] == target,
        forall|j: int| i <= j < k ==> ls[j] != target,
    ensures
        spec_find_line(ls, target, i) == Some(k),
    decreases k - i,
{
    if i < k {
        lemma_find_line_from(ls, target, i + 1, k);
    }
}

proof fn lemma_find_line_none(ls: Seq<Seq<char>>, target: Seq<char>, i: int)
    requires
        0 <= i,
        forall|j: int| i <= j < ls.len() ==> ls[j] != target,
    ensures
        spec_find_line(ls, target, i) is None,
    decreases ls.len() - i,
{
    if i < ls.len() {
        lemma_find_line_none(ls, target, i + 1);
    }
}

proof fn lemma_find_fs_key_from(ls: Seq<Seq<char>>, i: int, k: int)
    requires
        0 <= i <= k < ls.len(),
        is_prefix_of("filesystems="@, ls[k]),
        !(ls[k].len() > 0 && ls[k][0] == '['),
        forall|j: int|
            i <= j < k ==> !is_prefix_of("filesystems="@, ls[j]) && !(ls[j].len() > 0 && ls[j][0]
                == '['),
    ensures
        spec_find_fs_key(ls, i) == Some(k),
    decreases k - i,
{
    if i < k {
        lemma_find_fs_key_from(ls, i + 1, k);
    }
}

proof fn lemma_find_fs_key_stopped(ls: Seq<Seq<char>>, i: int, k: int)
    requires
        0 <= i <= k <= ls.len(),
        k < ls.len() ==> ls[k].len() > 0 && ls[k][0] == '[',
        forall|j: int|
            i <= j < k ==> !is_prefix_of("filesystems="@, ls[j]) && !(ls[j].len() > 0 && ls[j][0]
                == '['),
    ensures
        spec_find_fs_key(ls, i) is None,
    decreases k - i,
{
    if i < k {
        lemma_find_fs_key_stopped(ls, i + 1, k);
    }
}

/// Builds the key line for a grant list.
fn fs_key_line(list: &Vec<FlatpakFilesystemOverride>) -> (r: String)
    ensures
        r@ == spec_fs_key_line(list_view(list@)),
{
    let mut s = String::from_str("filesystems=");
    let ser = serialize_list(list);
    s.append(ser.as_str());
    s
}

/// Finds the first line that is exactly the recognized section header.
fn find_context_line(lines: &Vec<String>) -> (r: Option<usize>)
    ensures
        match r {
            Some(i) => i < lines@.len() && strs_view(lines@)[i as int] == "[Context]"@ && (
            forall|j: int| 0 <= j < i ==> strs_view(lines@)[j] != "[Context]"@),
            None => forall|j: int| 0 <= j < lines@.len() ==> strs_view(lines@)[j] != "[Context]"@,
        },
{
    let n = lines.len();
    let mut i: usize = 0;
    while i < n
        invariant
            i <= n,
            n == lines@.len(),
            forall|j: int| 0 <= j < i ==> strs_view(lines@)[j] != "[Context]"@,
        decreases n - i,
    {
        let line_chars = chars_of(lines[i].as_str());
        if eq_str(&line_chars, "[Context]") {
            proof {
                assert(strs_view(lines@)[i as int] == lines@[i as int]@);
            }
            return Some(i);
        }
        proof {
            assert(strs_view(lines@)[i as int] == lines@[i as int]@);
        }
        i = i + 1;
    }
    None
}

/// Finds the first grant-key line at or after `from`, before the next
/// section header: the found index, or the index the scan stopped at (the
/// end, or a section header).
fn find_fs_key_line(lines: &Vec<String>, from: usize) -> (r: Result<usize, usize>)
    requires
        from <= lines@.len(),
    ensures
        ({
            let ls = strs_view(lines@);
            match r {
                Ok(k) => from <= k < ls.len() && is_prefix_of("filesystems="@, ls[k as int]) && !(
                ls[k as int].len() > 0 && ls[k as int][0] == '[') && (forall|j: int|
                    from <= j < k ==> !is_prefix_of("filesystems="@, ls[j]) && !(ls[j].len() > 0
                        && ls[j][0] == '[')),
                Err(stop) => from <= stop <= ls.len() && (stop < ls.len() ==> ls[stop as int].len()
                    > 0 && ls[stop as int][0] == '[') && (forall|j: int|
                    from <= j < stop ==> !is_prefix_of("filesystems="@, ls[j]) && !(ls[j].len() > 0
                        && ls[j][0] == '[')),
            }
        }),
{
    let n = lines.len();
    let mut k: usize = from;
    while k < n
        invariant
            from <= k <= n,
            n == lines@.len(),
            forall|j: int|
                from <= j < k ==> !is_prefix_of("filesystems="@, strs_view(lines@)[j]) && !(
                strs_view(lines@)[j].len() > 0 && strs_view(lines@)[j][0] == '['),
        decreases n - k,
    {
        let ghost ls = strs_view(lines@);
        proof {
            assert(ls[k as int] == lines@[k as int]@);
        }
        if str_starts_with(lines[k].as_str(), "[") {
            proof {
                reveal_strlit("[");
                assert("["@.len() == 1 && "["@[0] == '[');
                assert(ls[k as int].take(1)[0] == ls[k as int][0]);
            }
            return Err(k);
        }
        if str_starts_with(lines[k].as_str(), "filesystems=") {
            proof {
                reveal_strlit("[");
                reveal_strlit("filesystems=");
                assert(ls[k as int].take("filesystems="@.len() as int)[0] == ls[k as int][0]);
                assert("filesystems="@[0] == 'f');
            }
            return Ok(k);
        }
        proof {
            reveal_strlit("[");
            if ls[k as int].len() > 0 && ls[k as int][0] == '[' {
                assert(ls[k as int].take("["@.len() as int) =~= "["@);
            }
        }
        k = k + 1;
    }
    Err(n)
}

/// Applies the read-modify-write edit to the document's lines; see
/// [`spec_ensure_lines`].
pub fn ensure_override_lines(lines: &mut Vec<String>, grant_path: &str) -> (changed: bool)
    ensures
        strs_view(final(lines)@) == spec_ensure_lines(strs_view(old(lines)@), grant_path@).0,
        changed == spec_ensure_lines(strs_view(old(lines)@), grant_path@).1,
{
    let ghost ls = strs_view(lines@);
    let mut single: Vec<FlatpakFilesystemOverride> = Vec::new();
    single.push(
        FlatpakFilesystemOverride {
            path: grant_path.to_owned(),
            permission: FlatpakFilesystemOverridePermission::ReadWrite,
        },
    );
    proof {
        assert(list_view(single@) =~= seq![
            (grant_path@, FlatpakFilesystemOverridePermission::ReadWrite),
        ]);
    }
    let sidx = match find_context_line(lines) {
        None => {
            proof {
                lemma_find_line_none(ls, "[Context]"@, 0);
            }
            lines.push(String::from_str("[Context]"));
            lines.push(fs_key_line(&single));
            proof {
                assert(strs_view(lines@) =~= ls + seq![
                    "[Context]"@,
                    spec_fs_key_line(
                        seq![(grant_path@, FlatpakFilesystemOverridePermission::ReadWrite)],
                    ),
                ]);
            }
            return true;
        },
        Some(s) => s,
    };
    proof {
        lemma_find_line_from(ls, "[Context]"@, 0, sidx as int);
    }
    let line_count = lines.len();
    proof {
        assert(sidx < line_count);
    }
    let kidx = match find_fs_key_line(lines, sidx + 1) {
        Err(stop) => {
            proof {
                lemma_find_fs_key_stopped(ls, sidx + 1, stop as int);
            }
            lines.insert(sidx + 1, fs_key_line(&single));
            return true;
        },
        Ok(k) => k,
    };
    proof {
        lemma_find_fs_key_from(ls, sidx + 1, kidx as int);
    }
    let plen = "filesystems=".unicode_len();
    let line_len = lines[kidx].as_str().unicode_len();
    proof {
        reveal_strlit("filesystems=");
    }
    let value = lines[kidx].as_str().substring_char(plen, line_len).to_owned();
    proof {
        assert(value@ =~= ls[kidx as int].skip("filesystems="@.len() as int));
    }
    match parse_list(value.as_str()) {
        Some(mut list) => {
            let appended = ensure_grant(&mut list, grant_path);
            if !appended {
                return false;
            }
            let new_line = fs_key_line(&list);
            let _old_line = lines.remove(kidx);
            lines.insert(kidx, new_line);
            proof {
                assert(strs_view(lines@) =~= ls.update(
                    kidx as int,
                    spec_fs_key_line(
                        spec_parse_list(
                            ls[kidx as int].skip("filesystems="@.len() as int),
                        ).unwrap().push(
                            (grant_path@, FlatpakFilesystemOverridePermission::ReadWrite),
                        ),
                    ),
                ));
            }
            true
        },
        None => {
            let new_line = fs_key_line(&single);
            let _old_line = lines.remove(kidx);
            lines.insert(kidx, new_line);
            proof {
                assert(strs_view(lines@) =~= ls.update(
                    kidx as int,
                    spec_fs_key_line(
                        seq![(grant_path@, FlatpakFilesystemOverridePermission::ReadWrite)],
                    ),
                ));
            }
            true
        },
    }
}

/// The full read-modify-write cycle on the override document text: an absent
/// document is treated as empty; the text is split into lines, the grant
/// edit applied, and the lines joined back. All content other than the
/// recognized grant line is preserved verbatim.
pub fn ensure_flatpak_overrides(doc: Option<&String>, grant_path: &str) -> (r: (String, bool))
    ensures
        ({
            let ls = match doc {
                Some(t) => spec_split(t@, '\n'),
                None => seq![Seq::<char>::empty()],
            };
            let (nl, ch) = spec_ensure_lines(ls, grant_path@);
            r.0@ == spec_join(nl, '\n') && r.1 == ch
        }),
        (!r.1 && doc is Some) ==> r.0@ == doc.unwrap()@,
{
    proof {
        if let Some(t) = doc {
            crate::text::lemma_join_split(t@, '\n');
        }
    }
    let mut lines: Vec<String> = match doc {
        Some(t) => split_string(t.as_str(), '\n'),
        None => {
            let mut v: Vec<String> = Vec::new();
            v.push(String::new());
            proof {
                assert(strs_view(v@) =~= seq![Seq::<char>::empty()]);
            }
            v
        },
    };
    let changed = ensure_override_lines(&mut lines, grant_path);
    (join_strings(&lines, '\n'), changed)
}

} // verus!

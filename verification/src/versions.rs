//! The persisted version map: a JSON object keyed by modification-branch
//! name, each value holding the downloaded version string and the extraction
//! path. This module defines the exact document the store writes, a
//! whitespace-tolerant parser for it, and the proof that the two round-trip.

use vstd::prelude::*;
use crate::json::{
    emit_json_string, lemma_json_string_first, lemma_parse_json_string, lemma_split, parse_string,
    skip_ws, spec_json_string, spec_parse_string, spec_skip_ws,
};
use crate::text::{eq_str, string_of};
use crate::types::{DownloadedBranchInfo, DownloadedMap, MoonlightBranch};

verus! {

/// The view of one optional record: its version and path as character
/// sequences.
pub open spec fn opt_info_view(o: Option<DownloadedBranchInfo>) -> Option<(Seq<char>, Seq<char>)> {
    match o {
        Some(i) => Some((i.version@, i.path@)),
        None => None,
    }
}

/// The emitted record for one branch: an object with its version and path.
pub open spec fn spec_emit_info(version: Seq<char>, path: Seq<char>) -> Seq<char> {
    seq!['{'] + spec_json_string("version"@) + seq![':'] + spec_json_string(version) + seq![',']
        + spec_json_string("path"@) + seq![':'] + spec_json_string(path) + seq!['}']
}

/// One emitted map entry: the branch key and its record.
pub open spec fn spec_emit_entry(key: Seq<char>, version: Seq<char>, path: Seq<char>) -> Seq<
    char,
> {
    spec_json_string(key) + seq![':'] + spec_emit_info(version, path)
}

/// The emitted version map document, entries in branch order.
pub open spec fn spec_emit_version_map(
    st: Option<(Seq<char>, Seq<char>)>,
    ni: Option<(Seq<char>, Seq<char>)>,
) -> Seq<char> {
    let entries = match (st, ni) {
        (Option::None, Option::None) => Seq::<char>::empty(),
        (Option::Some(s), Option::None) => spec_emit_entry("Stable"@, s.0, s.1),
        (Option::None, Option::Some(n)) => spec_emit_entry("Nightly"@, n.0, n.1),
        (Option::Some(s), Option::Some(n)) => spec_emit_entry("Stable"@, s.0, s.1) + seq![',']
            + spec_emit_entry("Nightly"@, n.0, n.1),
    };
    seq!['{'] + entries + seq!['}']
}

/// Parses one record object `{"version": ..., "path": ...}` at `i`,
/// whitespace-tolerant, fields in that order.
pub open spec fn spec_parse_info(s: Seq<char>, i: int) -> Option<(Seq<char>, Seq<char>, int)> {
    if !(0 <= i < s.len() && s[i] == '{') {
        None
    } else {
        match spec_parse_string(s, spec_skip_ws(s, i + 1)) {
            None => None,
            Some((key1, a)) => if key1 != "version"@ {
                None
            } else {
                let b = spec_skip_ws(s, a);
                if !(b < s.len() && s[b] == ':') {
                    None
                } else {
                    match spec_parse_string(s, spec_skip_ws(s, b + 1)) {
                        None => None,
                        Some((ver, c)) => {
                            let d = spec_skip_ws(s, c);
                            if !(d < s.len() && s[d] == ',') {
                                None
                            } else {
                                match spec_parse_string(s, spec_skip_ws(s, d + 1)) {
                                    None => None,
                                    Some((key2, e)) => if key2 != "path"@ {
                                        None
                                    } else {
                                        let f = spec_skip_ws(s, e);
                                        if !(f < s.len() && s[f] == ':') {
                                            None
                                        } else {
                                            match spec_parse_string(s, spec_skip_ws(s, f + 1)) {
                                                None => None,
                                                Some((p, g)) => {
                                                    let h = spec_skip_ws(s, g);
                                                    if h < s.len() && s[h] == '}' {
                                                        Some((ver, p, h + 1))
                                                    } else {
                                                        None
                                                    }
                                                },
                                            }
                                        }
                                    },
                                }
                            }
                        },
                    }
                }
            },
        }
    }
}

/// Parses one map entry `"key": record` at `i` (already past whitespace).
pub open spec fn spec_parse_entry(s: Seq<char>, i: int) -> Option<
    (Seq<char>, Seq<char>, Seq<char>, int),
> {
    match spec_parse_string(s, i) {
        None => None,
        Some((k, a)) => {
            let b = spec_skip_ws(s, a);
            if !(b < s.len() && s[b] == ':') {
                None
            } else {
                match spec_parse_info(s, spec_skip_ws(s, b + 1)) {
                    None => None,
                    Some((v, p, j)) => Some((k, v, p, j)),
                }
            }
        },
    }
}

/// The map holding one entry under `k`, when `k` is a branch key.
pub open spec fn spec_map_of_one(k: Seq<char>, v: Seq<char>, p: Seq<char>) -> Option<
    (Option<(Seq<char>, Seq<char>)>, Option<(Seq<char>, Seq<char>)>),
> {
    if k == "Stable"@ {
        Some((Some((v, p)), None))
    } else if k == "Nightly"@ {
        Some((None, Some((v, p))))
    } else {
        None
    }
}

/// The map holding two entries, when the keys are the two distinct branch
/// keys.
pub open spec fn spec_map_of_two(
    k1: Seq<char>,
    v1: Seq<char>,
    p1: Seq<char>,
    k2: Seq<char>,
    v2: Seq<char>,
    p2: Seq<char>,
) -> Option<(Option<(Seq<char>, Seq<char>)>, Option<(Seq<char>, Seq<char>)>)> {
    if k1 == "Stable"@ && k2 == "Nightly"@ {
        Some((Some((v1, p1)), Some((v2, p2))))
    } else if k1 == "Nightly"@ && k2 == "Stable"@ {
        Some((Some((v2, p2)), Some((v1, p1))))
    } else {
        None
    }
}

/// Parses a whole version map document: zero, one or two entries under
/// distinct branch keys, then the end of the text.
pub open spec fn spec_parse_version_map(s: Seq<char>) -> Option<
    (Option<(Seq<char>, Seq<char>)>, Option<(Seq<char>, Seq<char>)>),
> {
    let i0 = spec_skip_ws(s, 0);
    if !(i0 < s.len() && s[i0] == '{') {
        None
    } else {
        let i1 = spec_skip_ws(s, i0 + 1);
        if i1 < s.len() && s[i1] == '}' {
            if spec_skip_ws(s, i1 + 1) == s.len() {
                Some((None, None))
            } else {
                None
            }
        } else {
            match spec_parse_entry(s, i1) {
                None => None,
                Some((k1, v1, p1, j1)) => {
                    let i2 = spec_skip_ws(s, j1);
                    if i2 < s.len() && s[i2] == ',' {
                        match spec_parse_entry(s, spec_skip_ws(s, i2 + 1)) {
                            None => None,
                            Some((k2, v2, p2, j2)) => {
                                let i3 = spec_skip_ws(s, j2);
                                if i3 < s.len() && s[i3] == '}' && spec_skip_ws(s, i3 + 1)
                                    == s.len() {
                                    spec_map_of_two(k1, v1, p1, k2, v2, p2)
                                } else {
                                    None
                                }
                            },
                        }
                    } else if i2 < s.len() && s[i2] == '}' && spec_skip_ws(s, i2 + 1) == s.len() {
                        spec_map_of_one(k1, v1, p1)
                    } else {
                        None
                    }
                },
            }
        }
    }
}

/// Appends one record object to `out`.
fn emit_info(out: &mut Vec<char>, info: &DownloadedBranchInfo)
    ensures
        final(out)@ == old(out)@ + spec_emit_info(info.version@, info.path@),
{
    out.push('{');
    emit_json_string(out, "version");
    out.push(':');
    emit_json_string(out, info.version.as_str());
    out.push(',');
    emit_json_string(out, "path");
    out.push(':');
    emit_json_string(out, info.path.as_str());
    out.push('}');
    proof {
        assert(out@ =~= old(out)@ + spec_emit_info(info.version@, info.path@));
    }
}

/// Appends one map entry to `out`.
fn emit_entry(out: &mut Vec<char>, key: &str, info: &DownloadedBranchInfo)
    ensures
        final(out)@ == old(out)@ + spec_emit_entry(key@, info.version@, info.path@),
{
    emit_json_string(out, key);
    out.push(':');
    emit_info(out, info);
    proof {
        assert(out@ =~= old(out)@ + spec_emit_entry(key@, info.version@, info.path@));
    }
}

/// The serialized form of `map`, as written to the version file.
pub fn emit_version_map(map: &DownloadedMap) -> (r: String)
    ensures
        r@ == spec_emit_version_map(opt_info_view(map.stable), opt_info_view(map.nightly)),
{
    let mut out: Vec<char> = Vec::new();
    out.push('{');
    match (&map.stable, &map.nightly) {
        (Option::None, Option::None) => {},
        (Option::Some(s), Option::None) => {
            emit_entry(&mut out, "Stable", s);
        },
        (Option::None, Option::Some(n)) => {
            emit_entry(&mut out, "Nightly", n);
        },
        (Option::Some(s), Option::Some(n)) => {
            emit_entry(&mut out, "Stable", s);
            out.push(',');
            emit_entry(&mut out, "Nightly", n);
        },
    }
    out.push('}');
    proof {
        assert(out@ =~= spec_emit_version_map(
            opt_info_view(map.stable),
            opt_info_view(map.nightly),
        ));
    }
    string_of(&out)
}

/// Parses one record object at `start`.
fn parse_info(doc: &Vec<char>, start: usize) -> (r: Option<(Vec<char>, Vec<char>, usize)>)
    requires
        start <= doc@.len(),
    ensures
        match r {
            Some((v, p, j)) => spec_parse_info(doc@, start as int) == Some((v@, p@, j as int))
                && start < j <= doc@.len(),
            None => spec_parse_info(doc@, start as int) is None,
        },
{
    let n = doc.len();
    if !(start < n && doc[start] == '{') {
        return None;
    }
    let k1 = skip_ws(doc, start + 1);
    let (key1, a) = match parse_string(doc, k1) {
        Some(x) => x,
        None => {
            return None;
        },
    };
    if !eq_str(&key1, "version") {
        return None;
    }
    let b = skip_ws(doc, a);
    if !(b < n && doc[b] == ':') {
        return None;
    }
    let bs = skip_ws(doc, b + 1);
    let (ver, c) = match parse_string(doc, bs) {
        Some(x) => x,
        None => {
            return None;
        },
    };
    let d = skip_ws(doc, c);
    if !(d < n && doc[d] == ',') {
        return None;
    }
    let k2 = skip_ws(doc, d + 1);
    let (key2, e) = match parse_string(doc, k2) {
        Some(x) => x,
        None => {
            return None;
        },
    };
    if !eq_str(&key2, "path") {
        return None;
    }
    let f = skip_ws(doc, e);
    if !(f < n && doc[f] == ':') {
        return None;
    }
    let fs = skip_ws(doc, f + 1);
    let (p, g) = match parse_string(doc, fs) {
        Some(x) => x,
        None => {
            return None;
        },
    };
    let h = skip_ws(doc, g);
    if h < n && doc[h] == '}' {
        Some((ver, p, h + 1))
    } else {
        None
    }
}

/// Parses one map entry at `start`.
fn parse_entry(doc: &Vec<char>, start: usize) -> (r: Option<(Vec<char>, Vec<char>, Vec<char>, usize)>)
    requires
        start <= doc@.len(),
    ensures
        match r {
            Some((k, v, p, j)) => spec_parse_entry(doc@, start as int) == Some(
                (k@, v@, p@, j as int),
            ) && start < j <= doc@.len(),
            None => spec_parse_entry(doc@, start as int) is None,
        },
{
    let n = doc.len();
    let (k, a) = match parse_string(doc, start) {
        Some(x) => x,
        None => {
            return None;
        },
    };
    let b = skip_ws(doc, a);
    if !(b < n && doc[b] == ':') {
        return None;
    }
    let bs = skip_ws(doc, b + 1);
    match parse_info(doc, bs) {
        Some((v, p, j)) => Some((k, v, p, j)),
        None => None,
    }
}

/// Parses a version map document. Returns the map it denotes, or nothing
/// when the text is not a well-formed version map.
pub fn parse_version_map(doc: &Vec<char>) -> (r: Option<DownloadedMap>)
    ensures
        match r {
            Some(m) => spec_parse_version_map(doc@) == Some(
                (opt_info_view(m.stable), opt_info_view(m.nightly)),
            ),
            None => spec_parse_version_map(doc@) is None,
        },
{
    let n = doc.len();
    let i0 = skip_ws(doc, 0);
    if !(i0 < n && doc[i0] == '{') {
        return None;
    }
    let i1 = skip_ws(doc, i0 + 1);
    if i1 < n && doc[i1] == '}' {
        if skip_ws(doc, i1 + 1) == n {
            return Some(DownloadedMap { stable: None, nightly: None });
        } else {
            return None;
        }
    }
    let (k1, v1, p1, j1) = match parse_entry(doc, i1) {
        Some(x) => x,
        None => {
            return None;
        },
    };
    let i2 = skip_ws(doc, j1);
    if i2 < n && doc[i2] == ',' {
        let (k2, v2, p2, j2) = match parse_entry(doc, skip_ws(doc, i2 + 1)) {
            Some(x) => x,
            None => {
                return None;
            },
        };
        let i3 = skip_ws(doc, j2);
        if !(i3 < n && doc[i3] == '}') {
            return None;
        }
        if skip_ws(doc, i3 + 1) != n {
            return None;
        }
        let e1 = DownloadedBranchInfo { version: string_of(&v1), path: string_of(&p1) };
        let e2 = DownloadedBranchInfo { version: string_of(&v2), path: string_of(&p2) };
        if eq_str(&k1, "Stable") && eq_str(&k2, "Nightly") {
            Some(DownloadedMap { stable: Some(e1), nightly: Some(e2) })
        } else if eq_str(&k1, "Nightly") && eq_str(&k2, "Stable") {
            Some(DownloadedMap { stable: Some(e2), nightly: Some(e1) })
        } else {
            None
        }
    } else if i2 < n && doc[i2] == '}' {
        if skip_ws(doc, i2 + 1) != n {
            return None;
        }
        let e1 = DownloadedBranchInfo { version: string_of(&v1), path: string_of(&p1) };
        if eq_str(&k1, "Stable") {
            Some(DownloadedMap { stable: Some(e1), nightly: None })
        } else if eq_str(&k1, "Nightly") {
            Some(DownloadedMap { stable: None, nightly: Some(e1) })
        } else {
            None
        }
    } else {
        None
    }
}

/// Parsing an emitted record object at its position yields its fields back.
proof fn lemma_parse_info_of_emit(doc: Seq<char>, i: int, v: Seq<char>, p: Seq<char>)
    requires
        0 <= i,
        i + spec_emit_info(v, p).len() <= doc.len(),
        doc.subrange(i, i + spec_emit_info(v, p).len() as int) == spec_emit_info(v, p),
    ensures
        spec_parse_info(doc, i) == Some((v, p, i + spec_emit_info(v, p).len())),
{
    let jv = spec_json_string("version"@);
    let jvv = spec_json_string(v);
    let jp = spec_json_string("path"@);
    let jpp = spec_json_string(p);
    let e = spec_emit_info(v, p);
    let e8 = seq!['{'] + jv + seq![':'] + jvv + seq![','] + jp + seq![':'] + jpp;
    let e7 = seq!['{'] + jv + seq![':'] + jvv + seq![','] + jp + seq![':'];
    let e6 = seq!['{'] + jv + seq![':'] + jvv + seq![','] + jp;
    let e5 = seq!['{'] + jv + seq![':'] + jvv + seq![','];
    let e4 = seq!['{'] + jv + seq![':'] + jvv;
    let e3 = seq!['{'] + jv + seq![':'];
    let e2 = seq!['{'] + jv;
    assert(e == e8 + seq!['}']);
    lemma_split(doc, i, e8, seq!['}']);
    assert(e8 == e7 + jpp);
    lemma_split(doc, i, e7, jpp);
    assert(e7 == e6 + seq![':']);
    lemma_split(doc, i, e6, seq![':']);
    assert(e6 == e5 + jp);
    lemma_split(doc, i, e5, jp);
    assert(e5 == e4 + seq![',']);
    lemma_split(doc, i, e4, seq![',']);
    assert(e4 == e3 + jvv);
    lemma_split(doc, i, e3, jvv);
    assert(e3 == e2 + seq![':']);
    lemma_split(doc, i, e2, seq![':']);
    assert(e2 == seq!['{'] + jv);
    lemma_split(doc, i, seq!['{'], jv);
    let o2 = i + 1;
    let o3 = o2 + jv.len() as int;
    let o4 = o3 + 1;
    let o5 = o4 + jvv.len() as int;
    let o6 = o5 + 1;
    let o7 = o6 + jp.len() as int;
    let o8 = o7 + 1;
    let o9 = o8 + jpp.len() as int;
    lemma_json_string_first("version"@);
    lemma_json_string_first(v);
    lemma_json_string_first("path"@);
    lemma_json_string_first(p);
    assert(doc[i] == '{') by {
        assert(doc.subrange(i, i + 1)[0] == doc[i]);
    }
    assert(doc[o2] == '"') by {
        assert(doc.subrange(o2, o3)[0] == doc[o2]);
    }
    assert(spec_skip_ws(doc, o2) == o2);
    lemma_parse_json_string(doc, o2, "version"@);
    assert(doc[o3] == ':') by {
        assert(doc.subrange(o3, o4)[0] == doc[o3]);
    }
    assert(spec_skip_ws(doc, o3) == o3);
    assert(doc[o4] == '"') by {
        assert(doc.subrange(o4, o5)[0] == doc[o4]);
    }
    assert(spec_skip_ws(doc, o4) == o4);
    lemma_parse_json_string(doc, o4, v);
    assert(doc[o5] == ',') by {
        assert(doc.subrange(o5, o6)[0] == doc[o5]);
    }
    assert(spec_skip_ws(doc, o5) == o5);
    assert(doc[o6] == '"') by {
        assert(doc.subrange(o6, o7)[0] == doc[o6]);
    }
    assert(spec_skip_ws(doc, o6) == o6);
    lemma_parse_json_string(doc, o6, "path"@);
    assert(doc[o7] == ':') by {
        assert(doc.subrange(o7, o8)[0] == doc[o7]);
    }
    assert(spec_skip_ws(doc, o7) == o7);
    assert(doc[o8] == '"') by {
        assert(doc.subrange(o8, o9)[0] == doc[o8]);
    }
    assert(spec_skip_ws(doc, o8) == o8);
    lemma_parse_json_string(doc, o8, p);
    assert(doc[o9] == '}') by {
        assert(doc.subrange(o9, o9 + 1)[0] == doc[o9]);
    }
    assert(spec_skip_ws(doc, o9) == o9);
    assert(spec_parse_info(doc, i) == Some((v, p, o9 + 1)));
}

/// Parsing an emitted map entry at its position yields its key and fields.
proof fn lemma_parse_entry_of_emit(doc: Seq<char>, i: int, k: Seq<char>, v: Seq<char>, p: Seq<char>)
    requires
        0 <= i,
        i + spec_emit_entry(k, v, p).len() <= doc.len(),
        doc.subrange(i, i + spec_emit_entry(k, v, p).len() as int) == spec_emit_entry(k, v, p),
    ensures
        spec_parse_entry(doc, i) == Some((k, v, p, i + spec_emit_entry(k, v, p).len())),
{
    let jk = spec_json_string(k);
    let info = spec_emit_info(v, p);
    let e = spec_emit_entry(k, v, p);
    let e2 = jk + seq![':'];
    assert(e == e2 + info);
    lemma_split(doc, i, e2, info);
    assert(e2 == jk + seq![':']);
    lemma_split(doc, i, jk, seq![':']);
    let a = i + jk.len() as int;
    let b = a + 1;
    lemma_json_string_first(k);
    assert(doc[i] == '"') by {
        assert(doc.subrange(i, a)[0] == doc[i]);
    }
    lemma_parse_json_string(doc, i, k);
    assert(doc[a] == ':') by {
        assert(doc.subrange(a, b)[0] == doc[a]);
    }
    assert(spec_skip_ws(doc, a) == a);
    assert(doc[b] == '{') by {
        assert(doc.subrange(b, b + info.len() as int)[0] == doc[b]);
        assert(info[0] == '{');
    }
    assert(spec_skip_ws(doc, b) == b);
    lemma_parse_info_of_emit(doc, b, v, p);
    assert(spec_parse_entry(doc, i) == Some((k, v, p, b + info.len())));
}

/// The empty-map case of the round-trip law.
proof fn lemma_rt_none_none()
    ensures
        spec_parse_version_map(
            spec_emit_version_map(
                Option::<(Seq<char>, Seq<char>)>::None,
                Option::<(Seq<char>, Seq<char>)>::None,
            ),
        ) == Some(
            (Option::<(Seq<char>, Seq<char>)>::None, Option::<(Seq<char>, Seq<char>)>::None),
        ),
{
    let doc = spec_emit_version_map(
        Option::<(Seq<char>, Seq<char>)>::None,
        Option::<(Seq<char>, Seq<char>)>::None,
    );
    assert(doc =~= seq!['{', '}']);
    assert(doc[0] == '{' && doc[1] == '}');
    assert(spec_skip_ws(doc, 0) == 0);
    assert(spec_skip_ws(doc, 1) == 1);
    assert(spec_skip_ws(doc, 2) == 2);
}

/// The one-entry cases of the round-trip law: the document holding `key`
/// with fields `(v, p)` parses to that single entry.
#[verifier::rlimit(100)]
proof fn lemma_rt_one(key: Seq<char>, v: Seq<char>, p: Seq<char>)
    requires
        key == "Stable"@ || key == "Nightly"@,
    ensures
        ({
            let st: Option<(Seq<char>, Seq<char>)> = if key == "Stable"@ {
                Some((v, p))
            } else {
                None
            };
            let ni: Option<(Seq<char>, Seq<char>)> = if key == "Stable"@ {
                None
            } else {
                Some((v, p))
            };
            spec_parse_version_map(spec_emit_version_map(st, ni)) == Some((st, ni))
        }),
{
    reveal_strlit("Stable");
    reveal_strlit("Nightly");
    assert("Stable"@.len() == 6);
    assert("Nightly"@.len() == 7);
    assert("Stable"@ != "Nightly"@);
    let st: Option<(Seq<char>, Seq<char>)> = if key == "Stable"@ {
        Some((v, p))
    } else {
        None
    };
    let ni: Option<(Seq<char>, Seq<char>)> = if key == "Stable"@ {
        None
    } else {
        Some((v, p))
    };
    let doc = spec_emit_version_map(st, ni);
    assert(doc.subrange(0, doc.len() as int) =~= doc);
    let e1 = spec_emit_entry(key, v, p);
    let left = seq!['{'] + e1;
    assert(doc == left + seq!['}']);
    lemma_split(doc, 0, left, seq!['}']);
    lemma_split(doc, 0, seq!['{'], e1);
    let j1 = 1 + e1.len() as int;
    assert(doc[0] == '{') by {
        assert(doc.subrange(0, 1)[0] == doc[0]);
    }
    assert(spec_skip_ws(doc, 0) == 0);
    lemma_json_string_first(key);
    assert(doc[1] == '"') by {
        assert(doc.subrange(1, j1)[0] == doc[1]);
        assert(e1[0] == spec_json_string(key)[0]);
    }
    assert(spec_skip_ws(doc, 1) == 1);
    lemma_parse_entry_of_emit(doc, 1, key, v, p);
    assert(doc[j1] == '}') by {
        assert(doc.subrange(j1, j1 + 1)[0] == doc[j1]);
    }
    assert(spec_skip_ws(doc, j1) == j1);
    assert(spec_skip_ws(doc, j1 + 1) == doc.len());
}

/// Unfolds the whole-document parse for a text shaped as two entries between
/// braces, from facts about its key positions alone.
proof fn lemma_parse_map_two_shape(
    doc: Seq<char>,
    j1: int,
    j2: int,
    k1: Seq<char>,
    v1: Seq<char>,
    p1: Seq<char>,
    k2: Seq<char>,
    v2: Seq<char>,
    p2: Seq<char>,
)
    requires
        doc.len() >= 2,
        doc[0] == '{',
        doc[1] == '"',
        spec_parse_entry(doc, 1) == Some((k1, v1, p1, j1)),
        1 < j1,
        j1 + 1 < doc.len(),
        doc[j1] == ',',
        doc[j1 + 1] == '"',
        spec_parse_entry(doc, j1 + 1) == Some((k2, v2, p2, j2)),
        j1 + 1 < j2 < doc.len(),
        doc[j2] == '}',
        j2 + 1 == doc.len(),
    ensures
        spec_parse_version_map(doc) == spec_map_of_two(k1, v1, p1, k2, v2, p2),
{
    assert(spec_skip_ws(doc, 0) == 0);
    assert(spec_skip_ws(doc, 1) == 1);
    assert(spec_skip_ws(doc, j1) == j1);
    assert(spec_skip_ws(doc, j1 + 1) == j1 + 1);
    assert(spec_skip_ws(doc, j2) == j2);
    assert(spec_skip_ws(doc, j2 + 1) == doc.len());
}

/// The two-entry case of the round-trip law.
#[verifier::rlimit(100)]
proof fn lemma_rt_two(s: (Seq<char>, Seq<char>), n: (Seq<char>, Seq<char>))
    ensures
        spec_parse_version_map(spec_emit_version_map(Some(s), Some(n))) == Some(
            (Some(s), Some(n)),
        ),
{
    reveal_strlit("Stable");
    reveal_strlit("Nightly");
    assert("Stable"@.len() == 6);
    assert("Nightly"@.len() == 7);
    assert("Stable"@ != "Nightly"@);
    let doc = spec_emit_version_map(Some(s), Some(n));
    assert(doc.subrange(0, doc.len() as int) =~= doc);
    let e1 = spec_emit_entry("Stable"@, s.0, s.1);
    let e2 = spec_emit_entry("Nightly"@, n.0, n.1);
    let entries = e1 + seq![','] + e2;
    let left = seq!['{'] + entries;
    assert(doc == left + seq!['}']);
    lemma_split(doc, 0, left, seq!['}']);
    lemma_split(doc, 0, seq!['{'], entries);
    let j1 = 1 + e1.len() as int;
    let o2 = j1 + 1;
    let j2 = o2 + e2.len() as int;
    assert(doc.subrange(1, j2) == entries);
    assert(entries == (e1 + seq![',']) + e2);
    lemma_split(doc, 1, e1 + seq![','], e2);
    lemma_split(doc, 1, e1, seq![',']);
    assert(doc[0] == '{') by {
        assert(doc.subrange(0, 1)[0] == doc[0]);
    }
    assert(spec_skip_ws(doc, 0) == 0);
    lemma_json_string_first("Stable"@);
    lemma_json_string_first("Nightly"@);
    assert(doc[1] == '"') by {
        assert(doc.subrange(1, j1)[0] == doc[1]);
        assert(e1[0] == spec_json_string("Stable"@)[0]);
    }
    assert(spec_skip_ws(doc, 1) == 1);
    lemma_parse_entry_of_emit(doc, 1, "Stable"@, s.0, s.1);
    assert(doc[j1] == ',') by {
        assert(doc.subrange(j1, o2)[0] == doc[j1]);
    }
    assert(spec_skip_ws(doc, j1) == j1);
    assert(doc[o2] == '"') by {
        assert(doc.subrange(o2, j2)[0] == doc[o2]);
        assert(e2[0] == spec_json_string("Nightly"@)[0]);
    }
    assert(spec_skip_ws(doc, o2) == o2);
    lemma_parse_entry_of_emit(doc, o2, "Nightly"@, n.0, n.1);
    assert(doc[j2] == '}') by {
        assert(doc.subrange(j2, j2 + 1)[0] == doc[j2]);
    }
    lemma_parse_map_two_shape(
        doc,
        j1,
        j2,
        "Stable"@,
        s.0,
        s.1,
        "Nightly"@,
        n.0,
        n.1,
    );
    assert(spec_map_of_two("Stable"@, s.0, s.1, "Nightly"@, n.0, n.1) == Some(
        (Some((s.0, s.1)), Some((n.0, n.1))),
    ));
}

/// An emitted version map parses back to exactly the entries it was emitted
/// from: the round-trip law of the version store's document format.
pub proof fn lemma_version_map_round_trip(
    st: Option<(Seq<char>, Seq<char>)>,
    ni: Option<(Seq<char>, Seq<char>)>,
)
    ensures
        spec_parse_version_map(spec_emit_version_map(st, ni)) == Some((st, ni)),
{
    reveal_strlit("Stable");
    reveal_strlit("Nightly");
    assert("Stable"@.len() == 6);
    assert("Nightly"@.len() == 7);
    assert("Stable"@ != "Nightly"@);
    match (st, ni) {
        (Option::None, Option::None) => {
            lemma_rt_none_none();
        },
        (Option::Some(s), Option::None) => {
            lemma_rt_one("Stable"@, s.0, s.1);
            assert(st == Some((s.0, s.1)));
        },
        (Option::None, Option::Some(n)) => {
            lemma_rt_one("Nightly"@, n.0, n.1);
            assert(ni == Some((n.0, n.1)));
        },
        (Option::Some(s), Option::Some(n)) => {
            lemma_rt_two(s, n);
            assert(st == Some((s.0, s.1)) && ni == Some((n.0, n.1)));
        },
    }
}

/// The view of a whole map: both optional records as character sequences.
pub open spec fn spec_map_view(m: DownloadedMap) -> (
    Option<(Seq<char>, Seq<char>)>,
    Option<(Seq<char>, Seq<char>)>,
) {
    (opt_info_view(m.stable), opt_info_view(m.nightly))
}

/// How the content of the legacy single-value version file is read: empty
/// means no installed version; a version-tag prefix `v` means the Stable
/// branch; anything else means Nightly.
pub open spec fn spec_interpret_legacy(content: Seq<char>) -> Option<(MoonlightBranch, Seq<char>)> {
    if content.len() == 0 {
        None
    } else if content[0] == 'v' {
        Some((MoonlightBranch::Stable, content))
    } else {
        Some((MoonlightBranch::Nightly, content))
    }
}

/// The map the one-time legacy migration produces: the interpreted entry
/// under the extraction path `dist`, and only when that directory still
/// exists on disk.
pub open spec fn spec_migrate_legacy(content: Seq<char>, dist_exists: bool) -> (
    Option<(Seq<char>, Seq<char>)>,
    Option<(Seq<char>, Seq<char>)>,
) {
    if !dist_exists {
        (None, None)
    } else {
        match spec_interpret_legacy(content) {
            None => (None, None),
            Some((MoonlightBranch::Stable, v)) => (Some((v, "dist"@)), None),
            Some((MoonlightBranch::Nightly, v)) => (None, Some((v, "dist"@))),
        }
    }
}

/// Interprets the legacy file content; see [`spec_interpret_legacy`].
pub fn interpret_legacy(content: &str) -> (r: Option<(MoonlightBranch, String)>)
    ensures
        match r {
            Some((b, v)) => spec_interpret_legacy(content@) == Some((b, v@)),
            None => spec_interpret_legacy(content@) is None,
        },
{
    if content.unicode_len() == 0 {
        None
    } else if content.get_char(0) == 'v' {
        Some((MoonlightBranch::Stable, content.to_owned()))
    } else {
        Some((MoonlightBranch::Nightly, content.to_owned()))
    }
}

/// Builds the migrated map from the legacy file content; see
/// [`spec_migrate_legacy`].
pub fn migrate_legacy(content: &str, dist_exists: bool) -> (r: DownloadedMap)
    ensures
        spec_map_view(r) == spec_migrate_legacy(content@, dist_exists),
{
    if !dist_exists {
        return DownloadedMap { stable: None, nightly: None };
    }
    match interpret_legacy(content) {
        None => DownloadedMap { stable: None, nightly: None },
        Some((MoonlightBranch::Stable, v)) => DownloadedMap {
            stable: Some(DownloadedBranchInfo { version: v, path: String::from_str("dist") }),
            nightly: None,
        },
        Some((MoonlightBranch::Nightly, v)) => DownloadedMap {
            stable: None,
            nightly: Some(DownloadedBranchInfo { version: v, path: String::from_str("dist") }),
        },
    }
}

/// The map with the entries whose extraction path no longer exists dropped.
pub open spec fn spec_prune(
    st: Option<(Seq<char>, Seq<char>)>,
    ni: Option<(Seq<char>, Seq<char>)>,
    stable_path_exists: bool,
    nightly_path_exists: bool,
) -> (Option<(Seq<char>, Seq<char>)>, Option<(Seq<char>, Seq<char>)>) {
    (
        if stable_path_exists {
            st
        } else {
            None
        },
        if nightly_path_exists {
            ni
        } else {
            None
        },
    )
}

/// Drops the entries whose recorded extraction path the caller found
/// missing on disk. The persisted file is not rewritten for this.
pub fn prune_version_map(map: DownloadedMap, stable_path_exists: bool, nightly_path_exists: bool) -> (r: DownloadedMap)
    ensures
        spec_map_view(r) == spec_prune(
            opt_info_view(map.stable),
            opt_info_view(map.nightly),
            stable_path_exists,
            nightly_path_exists,
        ),
        r.stable == (if stable_path_exists { map.stable } else { None::<DownloadedBranchInfo> }),
        r.nightly == (if nightly_path_exists { map.nightly } else { None::<DownloadedBranchInfo> }),
{
    DownloadedMap {
        stable: if stable_path_exists { map.stable } else { None },
        nightly: if nightly_path_exists { map.nightly } else { None },
    }
}

/// Writing a version map and reading it back yields the same entries, except
/// entries whose extraction path has meanwhile been deleted, which are
/// absent after pruning.
pub proof fn lemma_version_store_round_trip(
    st: Option<(Seq<char>, Seq<char>)>,
    ni: Option<(Seq<char>, Seq<char>)>,
    stable_path_exists: bool,
    nightly_path_exists: bool,
)
    ensures
        match spec_parse_version_map(spec_emit_version_map(st, ni)) {
            Some((rs, rn)) => spec_prune(rs, rn, stable_path_exists, nightly_path_exists) == ((
                if stable_path_exists {
                    st
                } else {
                    None
                },
                if nightly_path_exists {
                    ni
                } else {
                    None
                },
            )),
            None => false,
        },
{
    lemma_version_map_round_trip(st, ni);
}

/// Migrating a legacy file holding a tagged version string yields a map with
/// one Stable entry carrying that string; an empty legacy file yields an
/// empty map; and the document written for the migrated map reads back as
/// that same map, so a second read, which no longer sees the legacy file,
/// returns the same entries without migrating again.
pub proof fn lemma_legacy_migration(content: Seq<char>, dist_exists: bool)
    ensures
        content.len() == 0 ==> spec_migrate_legacy(content, dist_exists) == (
            Option::<(Seq<char>, Seq<char>)>::None,
            Option::<(Seq<char>, Seq<char>)>::None,
        ),
        dist_exists && content.len() > 0 && content[0] == 'v' ==> spec_migrate_legacy(
            content,
            dist_exists,
        ) == (Some((content, "dist"@)), Option::<(Seq<char>, Seq<char>)>::None),
        spec_parse_version_map(
            spec_emit_version_map(
                spec_migrate_legacy(content, dist_exists).0,
                spec_migrate_legacy(content, dist_exists).1,
            ),
        ) == Some(spec_migrate_legacy(content, dist_exists)),
{
    let m = spec_migrate_legacy(content, dist_exists);
    lemma_version_map_round_trip(m.0, m.1);
}

} // verus!

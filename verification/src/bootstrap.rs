//! Bootstrap metadata: the JSON sidecar written into a patched install's
//! application folder, recording the injector's templated path, the renamed
//! archive name, and the branch that patched the install — and the minimal
//! package descriptor naming the injector entry point.

use vstd::prelude::*;
use crate::json::{
    emit_json_string, lemma_json_string_first, lemma_parse_json_string, lemma_split, parse_string,
    skip_ws, spec_json_string, spec_parse_string, spec_skip_ws,
};
use crate::text::{eq_str, string_of};
use crate::types::{MoonlightBranch, MoonlightMeta, TemplatedPathBuf, TemplatedPathBufBase};

verus! {

/// The view of bootstrap metadata: the templated injector path, the renamed
/// archive name, and the branch.
pub open spec fn meta_view(m: MoonlightMeta) -> (
    (Option<TemplatedPathBufBase>, Seq<char>),
    Seq<char>,
    MoonlightBranch,
) {
    ((m.moonlight_injector.relative_to, m.moonlight_injector.path_str@), m.patched_asar@, m.branch)
}

/// The emitted templated-path object: its base tag (or null) and its path.
pub open spec fn spec_emit_tpb(rel: Option<TemplatedPathBufBase>, path: Seq<char>) -> Seq<char> {
    seq!['{'] + spec_json_string("relativeTo"@) + seq![':'] + (match rel {
        Some(_) => spec_json_string("MOONLIGHT"@),
        None => "null"@,
    }) + seq![','] + spec_json_string("pathStr"@) + seq![':'] + spec_json_string(path)
        + seq!['}']
}

/// The emitted bootstrap metadata document.
pub open spec fn spec_emit_meta(
    rel: Option<TemplatedPathBufBase>,
    inj_path: Seq<char>,
    patched_asar: Seq<char>,
    branch: MoonlightBranch,
) -> Seq<char> {
    seq!['{'] + spec_json_string("moonlightInjector"@) + seq![':'] + spec_emit_tpb(rel, inj_path)
        + seq![','] + spec_json_string("patchedAsar"@) + seq![':'] + spec_json_string(
        patched_asar,
    ) + seq![','] + spec_json_string("branch"@) + seq![':'] + spec_json_string(branch.spec_name())
        + seq!['}']
}

/// Serializes bootstrap metadata.
#[verifier::rlimit(100)]
pub fn emit_meta(meta: &MoonlightMeta) -> (r: String)
    ensures
        r@ == spec_emit_meta(
            meta.moonlight_injector.relative_to,
            meta.moonlight_injector.path_str@,
            meta.patched_asar@,
            meta.branch,
        ),
{
    let mut out: Vec<char> = Vec::new();
    out.push('{');
    emit_json_string(&mut out, "moonlightInjector");
    out.push(':');
    out.push('{');
    emit_json_string(&mut out, "relativeTo");
    out.push(':');
    match meta.moonlight_injector.relative_to {
        Some(TemplatedPathBufBase::Moonlight) => {
            emit_json_string(&mut out, "MOONLIGHT");
        },
        None => {
            out.push('n');
            out.push('u');
            out.push('l');
            out.push('l');
            proof {
                reveal_strlit("null");
                assert("null"@.len() == 4);
                assert("null"@[0] == 'n' && "null"@[1] == 'u' && "null"@[2] == 'l' && "null"@[3]
                    == 'l');
            }
        },
    }
    out.push(',');
    emit_json_string(&mut out, "pathStr");
    out.push(':');
    emit_json_string(&mut out, meta.moonlight_injector.path_str.as_str());
    out.push('}');
    out.push(',');
    emit_json_string(&mut out, "patchedAsar");
    out.push(':');
    emit_json_string(&mut out, meta.patched_asar.as_str());
    out.push(',');
    emit_json_string(&mut out, "branch");
    out.push(':');
    emit_json_string(&mut out, meta.branch.name());
    out.push('}');
    proof {
        assert(out@ =~= spec_emit_meta(
            meta.moonlight_injector.relative_to,
            meta.moonlight_injector.path_str@,
            meta.patched_asar@,
            meta.branch,
        ));
    }
    string_of(&out)
}

/// Parses the templated-path object at `i`: the base tag (from the fixed tag
/// string or null) and the path, returning also the position after.
pub open spec fn spec_parse_tpb(s: Seq<char>, i: int) -> Option<
    (Option<TemplatedPathBufBase>, Seq<char>, int),
> {
    if !(0 <= i < s.len() && s[i] == '{') {
        None
    } else {
        match spec_parse_string(s, spec_skip_ws(s, i + 1)) {
            None => None,
            Some((k1, a)) => if k1 != "relativeTo"@ {
                None
            } else {
                let b = spec_skip_ws(s, a);
                if !(b < s.len() && s[b] == ':') {
                    None
                } else {
                    let c = spec_skip_ws(s, b + 1);
                    let rel_and_d: Option<(Option<TemplatedPathBufBase>, int)> = if c < s.len()
                        && s[c] == '"' {
                        match spec_parse_string(s, c) {
                            None => None,
                            Some((tag, d)) => if tag == "MOONLIGHT"@ {
                                Some((Some(TemplatedPathBufBase::Moonlight), d))
                            } else {
                                None
                            },
                        }
                    } else if c + 4 <= s.len() && s.subrange(c, c + 4) == "null"@ {
                        Some((None, c + 4))
                    } else {
                        None
                    };
                    match rel_and_d {
                        None => None,
                        Some((rel, d)) => {
                            let e = spec_skip_ws(s, d);
                            if !(e < s.len() && s[e] == ',') {
                                None
                            } else {
                                match spec_parse_string(s, spec_skip_ws(s, e + 1)) {
                                    None => None,
                                    Some((k2, f)) => if k2 != "pathStr"@ {
                                        None
                                    } else {
                                        let g = spec_skip_ws(s, f);
                                        if !(g < s.len() && s[g] == ':') {
                                            None
                                        } else {
                                            match spec_parse_string(s, spec_skip_ws(s, g + 1)) {
                                                None => None,
                                                Some((p, h)) => {
                                                    let z = spec_skip_ws(s, h);
                                                    if z < s.len() && s[z] == '}' {
                                                        Some((rel, p, z + 1))
                                                    } else {
                                                        None
                                                    }
                                                },
                                            }
                                        }
                                    },
                                }
                            }
                        },
                    }
                }
            },
        }
    }
}

/// Parses a whole bootstrap metadata document.
pub open spec fn spec_parse_meta(s: Seq<char>) -> Option<
    ((Option<TemplatedPathBufBase>, Seq<char>), Seq<char>, MoonlightBranch),
> {
    let i0 = spec_skip_ws(s, 0);
    if !(i0 < s.len() && s[i0] == '{') {
        None
    } else {
        match spec_parse_string(s, spec_skip_ws(s, i0 + 1)) {
            None => None,
            Some((k1, a)) => if k1 != "moonlightInjector"@ {
                None
            } else {
                let b = spec_skip_ws(s, a);
                if !(b < s.len() && s[b] == ':') {
                    None
                } else {
                    match spec_parse_tpb(s, spec_skip_ws(s, b + 1)) {
                        None => None,
                        Some((rel, inj, c)) => {
                            let d = spec_skip_ws(s, c);
                            if !(d < s.len() && s[d] == ',') {
                                None
                            } else {
                                match spec_parse_string(s, spec_skip_ws(s, d + 1)) {
                                    None => None,
                                    Some((k2, e)) => if k2 != "patchedAsar"@ {
                                        None
                                    } else {
                                        let f = spec_skip_ws(s, e);
                                        if !(f < s.len() && s[f] == ':') {
                                            None
                                        } else {
                                            match spec_parse_string(s, spec_skip_ws(s, f + 1)) {
                                                None => None,
                                                Some((asar, g)) => {
                                                    let h = spec_skip_ws(s, g);
                                                    if !(h < s.len() && s[h] == ',') {
                                                        None
                                                    } else {
                                                        spec_parse_meta_branch(
                                                            s,
                                                            spec_skip_ws(s, h + 1),
                                                            rel,
                                                            inj,
                                                            asar,
                                                        )
                                                    }
                                                },
                                            }
                                        }
                                    },
                                }
                            }
                        },
                    }
                }
            },
        }
    }
}

/// Parses the trailing branch field and the document close.
pub open spec fn spec_parse_meta_branch(
    s: Seq<char>,
    i: int,
    rel: Option<TemplatedPathBufBase>,
    inj: Seq<char>,
    asar: Seq<char>,
) -> Option<((Option<TemplatedPathBufBase>, Seq<char>), Seq<char>, MoonlightBranch)> {
    match spec_parse_string(s, i) {
        None => None,
        Some((k3, a)) => if k3 != "branch"@ {
            None
        } else {
            let b = spec_skip_ws(s, a);
            if !(b < s.len() && s[b] == ':') {
                None
            } else {
                match spec_parse_string(s, spec_skip_ws(s, b + 1)) {
                    None => None,
                    Some((bname, c)) => {
                        let d = spec_skip_ws(s, c);
                        if !(d < s.len() && s[d] == '}' && spec_skip_ws(s, d + 1) == s.len()) {
                            None
                        } else if bname == "Stable"@ {
                            Some(((rel, inj), asar, MoonlightBranch::Stable))
                        } else if bname == "Nightly"@ {
                            Some(((rel, inj), asar, MoonlightBranch::Nightly))
                        } else {
                            None
                        }
                    },
                }
            }
        },
    }
}

/// Parses the templated-path object at `start`.
fn parse_tpb(doc: &Vec<char>, start: usize) -> (r: Option<(TemplatedPathBuf, usize)>)
    requires
        start <= doc@.len(),
    ensures
        match r {
            Some((t, j)) => spec_parse_tpb(doc@, start as int) == Some(
                (t.relative_to, t.path_str@, j as int),
            ) && start < j <= doc@.len(),
            None => spec_parse_tpb(doc@, start as int) is None,
        },
{
    let n = doc.len();
    if !(start < n && doc[start] == '{') {
        return None;
    }
    let (k1, a) = match parse_string(doc, skip_ws(doc, start + 1)) {
        Some(x) => x,
        None => {
            return None;
        },
    };
    if !eq_str(&k1, "relativeTo") {
        return None;
    }
    let b = skip_ws(doc, a);
    if !(b < n && doc[b] == ':') {
        return None;
    }
    let c = skip_ws(doc, b + 1);
    let (rel, d): (Option<TemplatedPathBufBase>, usize) = if c < n && doc[c] == '"' {
        match parse_string(doc, c) {
            None => {
                return None;
            },
            Some((tag, d0)) => {
                if !eq_str(&tag, "MOONLIGHT") {
                    return None;
                }
                (Some(TemplatedPathBufBase::Moonlight), d0)
            },
        }
    } else if n - c >= 4 && doc[c] == 'n' && doc[c + 1] == 'u' && doc[c + 2] == 'l' && doc[c + 3]
        == 'l' {
        proof {
            reveal_strlit("null");
            assert("null"@.len() == 4);
            assert("null"@[0] == 'n' && "null"@[1] == 'u' && "null"@[2] == 'l' && "null"@[3]
                == 'l');
            assert(doc@.subrange(c as int, c + 4) =~= "null"@);
        }
        (None, c + 4)
    } else {
        proof {
            reveal_strlit("null");
            assert("null"@.len() == 4);
            if c + 4 <= n && doc@.subrange(c as int, c + 4) == "null"@ {
                assert(doc@.subrange(c as int, c + 4)[0] == doc@[c as int]);
                assert(doc@.subrange(c as int, c + 4)[1] == doc@[c as int + 1]);
                assert(doc@.subrange(c as int, c + 4)[2] == doc@[c as int + 2]);
                assert(doc@.subrange(c as int, c + 4)[3] == doc@[c as int + 3]);
            }
        }
        return None;
    };
    let e = skip_ws(doc, d);
    if !(e < n && doc[e] == ',') {
        return None;
    }
    let (k2, f) = match parse_string(doc, skip_ws(doc, e + 1)) {
        Some(x) => x,
        None => {
            return None;
        },
    };
    if !eq_str(&k2, "pathStr") {
        return None;
    }
    let g = skip_ws(doc, f);
    if !(g < n && doc[g] == ':') {
        return None;
    }
    let (p, h) = match parse_string(doc, skip_ws(doc, g + 1)) {
        Some(x) => x,
        None => {
            return None;
        },
    };
    let z = skip_ws(doc, h);
    if z < n && doc[z] == '}' {
        Some((TemplatedPathBuf { relative_to: rel, path_str: string_of(&p) }, z + 1))
    } else {
        None
    }
}

/// Parses a bootstrap metadata document. Returns the metadata it denotes,
/// or nothing when the text is not well-formed — a missing or foreign file
/// is a recoverable condition for detection, not an error.
pub fn parse_meta(doc: &Vec<char>) -> (r: Option<MoonlightMeta>)
    ensures
        match r {
            Some(m) => spec_parse_meta(doc@) == Some(meta_view(m)),
            None => spec_parse_meta(doc@) is None,
        },
{
    let n = doc.len();
    let i0 = skip_ws(doc, 0);
    if !(i0 < n && doc[i0] == '{') {
        return None;
    }
    let (k1, a) = match parse_string(doc, skip_ws(doc, i0 + 1)) {
        Some(x) => x,
        None => {
            return None;
        },
    };
    if !eq_str(&k1, "moonlightInjector") {
        return None;
    }
    let b = skip_ws(doc, a);
    if !(b < n && doc[b] == ':') {
        return None;
    }
    let (tpb, c) = match parse_tpb(doc, skip_ws(doc, b + 1)) {
        Some(x) => x,
        None => {
            return None;
        },
    };
    let d = skip_ws(doc, c);
    if !(d < n && doc[d] == ',') {
        return None;
    }
    let (k2, e) = match parse_string(doc, skip_ws(doc, d + 1)) {
        Some(x) => x,
        None => {
            return None;
        },
    };
    if !eq_str(&k2, "patchedAsar") {
        return None;
    }
    let f = skip_ws(doc, e);
    if !(f < n && doc[f] == ':') {
        return None;
    }
    let (asar, g) = match parse_string(doc, skip_ws(doc, f + 1)) {
        Some(x) => x,
        None => {
            return None;
        },
    };
    let h = skip_ws(doc, g);
    if !(h < n && doc[h] == ',') {
        return None;
    }
    let (k3, a3) = match parse_string(doc, skip_ws(doc, h + 1)) {
        Some(x) => x,
        None => {
            return None;
        },
    };
    if !eq_str(&k3, "branch") {
        return None;
    }
    let b3 = skip_ws(doc, a3);
    if !(b3 < n && doc[b3] == ':') {
        return None;
    }
    let (bname, c3) = match parse_string(doc, skip_ws(doc, b3 + 1)) {
        Some(x) => x,
        None => {
            return None;
        },
    };
    let d3 = skip_ws(doc, c3);
    if !(d3 < n && doc[d3] == '}') {
        return None;
    }
    if skip_ws(doc, d3 + 1) != n {
        return None;
    }
    let branch = if eq_str(&bname, "Stable") {
        MoonlightBranch::Stable
    } else if eq_str(&bname, "Nightly") {
        MoonlightBranch::Nightly
    } else {
        return None;
    };
    Some(
        MoonlightMeta {
            moonlight_injector: tpb,
            patched_asar: string_of(&asar),
            branch,
        },
    )
}

/// The emitted package descriptor naming the injector entry point.
pub open spec fn spec_emit_package(name: Seq<char>) -> Seq<char> {
    seq!['{'] + spec_json_string("name"@) + seq![':'] + spec_json_string(name) + seq![',']
        + spec_json_string("main"@) + seq![':'] + spec_json_string("./injector.js"@) + seq![',']
        + spec_json_string("private"@) + seq![':'] + "true"@ + seq!['}']
}

/// Serializes the minimal package descriptor for a patched install's
/// application folder.
pub fn emit_package(name: &str) -> (r: String)
    ensures
        r@ == spec_emit_package(name@),
{
    let mut out: Vec<char> = Vec::new();
    out.push('{');
    emit_json_string(&mut out, "name");
    out.push(':');
    emit_json_string(&mut out, name);
    out.push(',');
    emit_json_string(&mut out, "main");
    out.push(':');
    emit_json_string(&mut out, "./injector.js");
    out.push(',');
    emit_json_string(&mut out, "private");
    out.push(':');
    out.push('t');
    out.push('r');
    out.push('u');
    out.push('e');
    out.push('}');
    proof {
        reveal_strlit("true");
        assert("true"@.len() == 4);
        assert("true"@[0] == 't' && "true"@[1] == 'r' && "true"@[2] == 'u' && "true"@[3] == 'e');
        assert(out@ =~= spec_emit_package(name@));
    }
    string_of(&out)
}


/// Parsing an emitted templated-path object at its position yields its tag
/// and path back.
#[verifier::rlimit(100)]
proof fn lemma_parse_tpb_of_emit(
    doc: Seq<char>,
    i: int,
    rel: Option<TemplatedPathBufBase>,
    path: Seq<char>,
)
    requires
        0 <= i,
        i + spec_emit_tpb(rel, path).len() <= doc.len(),
        doc.subrange(i, i + spec_emit_tpb(rel, path).len() as int) == spec_emit_tpb(rel, path),
    ensures
        spec_parse_tpb(doc, i) == Some((rel, path, i + spec_emit_tpb(rel, path).len())),
{
    reveal_strlit("null");
    reveal_strlit("MOONLIGHT");
    assert("null"@.len() == 4);
    assert("null"@[0] == 'n');
    let jr = spec_json_string("relativeTo"@);
    let jtag: Seq<char> = match rel {
        Some(_) => spec_json_string("MOONLIGHT"@),
        None => "null"@,
    };
    let jp = spec_json_string("pathStr"@);
    let jpp = spec_json_string(path);
    let e = spec_emit_tpb(rel, path);
    let e8 = seq!['{'] + jr + seq![':'] + jtag + seq![','] + jp + seq![':'] + jpp;
    let e7 = seq!['{'] + jr + seq![':'] + jtag + seq![','] + jp + seq![':'];
    let e6 = seq!['{'] + jr + seq![':'] + jtag + seq![','] + jp;
    let e5 = seq!['{'] + jr + seq![':'] + jtag + seq![','];
    let e4 = seq!['{'] + jr + seq![':'] + jtag;
    let e3 = seq!['{'] + jr + seq![':'];
    let e2 = seq!['{'] + jr;
    assert(e == e8 + seq!['}']);
    lemma_split(doc, i, e8, seq!['}']);
    assert(e8 == e7 + jpp);
    lemma_split(doc, i, e7, jpp);
    assert(e7 == e6 + seq![':']);
    lemma_split(doc, i, e6, seq![':']);
    assert(e6 == e5 + jp);
    lemma_split(doc, i, e5, jp);
    assert(e5 == e4 + seq![',']);
    lemma_split(doc, i, e4, seq![',']);
    assert(e4 == e3 + jtag);
    lemma_split(doc, i, e3, jtag);
    assert(e3 == e2 + seq![':']);
    lemma_split(doc, i, e2, seq![':']);
    lemma_split(doc, i, seq!['{'], jr);
    let o2 = i + 1;
    let o3 = o2 + jr.len() as int;
    let o4 = o3 + 1;
    let o5 = o4 + jtag.len() as int;
    let o6 = o5 + 1;
    let o7 = o6 + jp.len() as int;
    let o8 = o7 + 1;
    let o9 = o8 + jpp.len() as int;
    lemma_json_string_first("relativeTo"@);
    lemma_json_string_first("MOONLIGHT"@);
    lemma_json_string_first("pathStr"@);
    lemma_json_string_first(path);
    assert(doc[i] == '{') by {
        assert(doc.subrange(i, i + 1)[0] == doc[i]);
    }
    assert(doc[o2] == '"') by {
        assert(doc.subrange(o2, o3)[0] == doc[o2]);
    }
    assert(spec_skip_ws(doc, o2) == o2);
    lemma_parse_json_string(doc, o2, "relativeTo"@);
    assert(doc[o3] == ':') by {
        assert(doc.subrange(o3, o4)[0] == doc[o3]);
    }
    assert(spec_skip_ws(doc, o3) == o3);
    assert(doc[o4] == jtag[0]) by {
        assert(doc.subrange(o4, o5)[0] == doc[o4]);
    }
    match rel {
        Some(TemplatedPathBufBase::Moonlight) => {
            assert(doc[o4] == '"');
            assert(spec_skip_ws(doc, o4) == o4);
            lemma_parse_json_string(doc, o4, "MOONLIGHT"@);
        },
        None => {
            assert(doc[o4] == 'n');
            assert(spec_skip_ws(doc, o4) == o4);
            assert(doc.subrange(o4, o4 + 4) =~= "null"@);
            assert(doc[o4] != '"');
        },
    }
    assert(doc[o5] == ',') by {
        assert(doc.subrange(o5, o6)[0] == doc[o5]);
    }
    assert(spec_skip_ws(doc, o5) == o5);
    assert(doc[o6] == '"') by {
        assert(doc.subrange(o6, o7)[0] == doc[o6]);
    }
    assert(spec_skip_ws(doc, o6) == o6);
    lemma_parse_json_string(doc, o6, "pathStr"@);
    assert(doc[o7] == ':') by {
        assert(doc.subrange(o7, o8)[0] == doc[o7]);
    }
    assert(spec_skip_ws(doc, o7) == o7);
    assert(doc[o8] == '"') by {
        assert(doc.subrange(o8, o9)[0] == doc[o8]);
    }
    assert(spec_skip_ws(doc, o8) == o8);
    lemma_parse_json_string(doc, o8, path);
    assert(doc[o9] == '}') by {
        assert(doc.subrange(o9, o9 + 1)[0] == doc[o9]);
    }
    assert(spec_skip_ws(doc, o9) == o9);
    assert(spec_parse_tpb(doc, i) == Some((rel, path, o9 + 1)));
}

/// The facts the whole-document parse needs, established from the emitted
/// text's structure: the characters at the token positions and the string
/// parses at the component positions.
#[verifier::rlimit(100)]
proof fn lemma_meta_positions(
    rel: Option<TemplatedPathBufBase>,
    inj_path: Seq<char>,
    patched_asar: Seq<char>,
    branch: MoonlightBranch,
)
    ensures
        ({
            let doc = spec_emit_meta(rel, inj_path, patched_asar, branch);
            let jm = spec_json_string("moonlightInjector"@);
            let tpb = spec_emit_tpb(rel, inj_path);
            let ja = spec_json_string("patchedAsar"@);
            let jaa = spec_json_string(patched_asar);
            let jb = spec_json_string("branch"@);
            let jbb = spec_json_string(branch.spec_name());
            let o2 = 1int;
            let o3 = o2 + jm.len() as int;
            let o4 = o3 + 1;
            let o5 = o4 + tpb.len() as int;
            let o6 = o5 + 1;
            let o7 = o6 + ja.len() as int;
            let o8 = o7 + 1;
            let o9 = o8 + jaa.len() as int;
            let o10 = o9 + 1;
            let o11 = o10 + jb.len() as int;
            let o12 = o11 + 1;
            let o13 = o12 + jbb.len() as int;
            doc.len() == o13 + 1 && doc[0] == '{' && doc[o2] == '"' && spec_parse_string(doc, o2)
                == Some(("moonlightInjector"@, o3)) && doc[o3] == ':' && doc[o4] == '{'
                && spec_parse_tpb(doc, o4) == Some((rel, inj_path, o5)) && doc[o5] == ','
                && doc[o6] == '"' && spec_parse_string(doc, o6) == Some(("patchedAsar"@, o7))
                && doc[o7] == ':' && doc[o8] == '"' && spec_parse_string(doc, o8) == Some(
                (patched_asar, o9),
            ) && doc[o9] == ',' && doc[o10] == '"' && spec_parse_string(doc, o10) == Some(
                ("branch"@, o11),
            ) && doc[o11] == ':' && doc[o12] == '"' && spec_parse_string(doc, o12) == Some(
                (branch.spec_name(), o13),
            ) && doc[o13] == '}'
        }),
{
    let doc = spec_emit_meta(rel, inj_path, patched_asar, branch);
    assert(doc.subrange(0, doc.len() as int) =~= doc);
    let jm = spec_json_string("moonlightInjector"@);
    let tpb = spec_emit_tpb(rel, inj_path);
    let ja = spec_json_string("patchedAsar"@);
    let jaa = spec_json_string(patched_asar);
    let jb = spec_json_string("branch"@);
    let jbb = spec_json_string(branch.spec_name());
    let e10 = seq!['{'] + jm + seq![':'] + tpb + seq![','] + ja + seq![':'] + jaa + seq![','] + jb
        + seq![':'];
    let e9 = seq!['{'] + jm + seq![':'] + tpb + seq![','] + ja + seq![':'] + jaa + seq![','] + jb;
    let e8 = seq!['{'] + jm + seq![':'] + tpb + seq![','] + ja + seq![':'] + jaa + seq![','];
    let e7 = seq!['{'] + jm + seq![':'] + tpb + seq![','] + ja + seq![':'] + jaa;
    let e6 = seq!['{'] + jm + seq![':'] + tpb + seq![','] + ja + seq![':'];
    let e5 = seq!['{'] + jm + seq![':'] + tpb + seq![','] + ja;
    let e4 = seq!['{'] + jm + seq![':'] + tpb + seq![','];
    let e3 = seq!['{'] + jm + seq![':'] + tpb;
    let e2 = seq!['{'] + jm + seq![':'];
    let e1 = seq!['{'] + jm;
    let e11 = e10 + jbb;
    assert(doc == e11 + seq!['}']);
    lemma_split(doc, 0, e11, seq!['}']);
    assert(e11 == e10 + jbb);
    lemma_split(doc, 0, e10, jbb);
    assert(e10 == e9 + seq![':']);
    lemma_split(doc, 0, e9, seq![':']);
    assert(e9 == e8 + jb);
    lemma_split(doc, 0, e8, jb);
    assert(e8 == e7 + seq![',']);
    lemma_split(doc, 0, e7, seq![',']);
    assert(e7 == e6 + jaa);
    lemma_split(doc, 0, e6, jaa);
    assert(e6 == e5 + seq![':']);
    lemma_split(doc, 0, e5, seq![':']);
    assert(e5 == e4 + ja);
    lemma_split(doc, 0, e4, ja);
    assert(e4 == e3 + seq![',']);
    lemma_split(doc, 0, e3, seq![',']);
    assert(e3 == e2 + tpb);
    lemma_split(doc, 0, e2, tpb);
    assert(e2 == e1 + seq![':']);
    lemma_split(doc, 0, e1, seq![':']);
    lemma_split(doc, 0, seq!['{'], jm);
    let o2 = 1int;
    let o3 = o2 + jm.len() as int;
    let o4 = o3 + 1;
    let o5 = o4 + tpb.len() as int;
    let o6 = o5 + 1;
    let o7 = o6 + ja.len() as int;
    let o8 = o7 + 1;
    let o9 = o8 + jaa.len() as int;
    let o10 = o9 + 1;
    let o11 = o10 + jb.len() as int;
    let o12 = o11 + 1;
    let o13 = o12 + jbb.len() as int;
    lemma_json_string_first("moonlightInjector"@);
    lemma_json_string_first("patchedAsar"@);
    lemma_json_string_first(patched_asar);
    lemma_json_string_first("branch"@);
    lemma_json_string_first(branch.spec_name());
    assert(doc[0] == '{') by {
        assert(doc.subrange(0, 1)[0] == doc[0]);
    }
    assert(doc[o2] == '"') by {
        assert(doc.subrange(o2, o3)[0] == doc[o2]);
    }
    lemma_parse_json_string(doc, o2, "moonlightInjector"@);
    assert(doc[o3] == ':') by {
        assert(doc.subrange(o3, o4)[0] == doc[o3]);
    }
    assert(doc[o4] == '{') by {
        assert(doc.subrange(o4, o5)[0] == doc[o4]);
        assert(tpb[0] == '{') by {
            lemma_json_string_first("relativeTo"@);
            assert(tpb == (seq!['{'] + spec_json_string("relativeTo"@) + seq![':'] + (match rel {
                Some(_) => spec_json_string("MOONLIGHT"@),
                None => "null"@,
            }) + seq![','] + spec_json_string("pathStr"@) + seq![':'] + spec_json_string(inj_path)
                + seq!['}']));
        }
    }
    lemma_parse_tpb_of_emit(doc, o4, rel, inj_path);
    assert(doc[o5] == ',') by {
        assert(doc.subrange(o5, o6)[0] == doc[o5]);
    }
    assert(doc[o6] == '"') by {
        assert(doc.subrange(o6, o7)[0] == doc[o6]);
    }
    lemma_parse_json_string(doc, o6, "patchedAsar"@);
    assert(doc[o7] == ':') by {
        assert(doc.subrange(o7, o8)[0] == doc[o7]);
    }
    assert(doc[o8] == '"') by {
        assert(doc.subrange(o8, o9)[0] == doc[o8]);
    }
    lemma_parse_json_string(doc, o8, patched_asar);
    assert(doc[o9] == ',') by {
        assert(doc.subrange(o9, o10)[0] == doc[o9]);
    }
    assert(doc[o10] == '"') by {
        assert(doc.subrange(o10, o11)[0] == doc[o10]);
    }
    lemma_parse_json_string(doc, o10, "branch"@);
    assert(doc[o11] == ':') by {
        assert(doc.subrange(o11, o12)[0] == doc[o11]);
    }
    assert(doc[o12] == '"') by {
        assert(doc.subrange(o12, o13)[0] == doc[o12]);
    }
    lemma_parse_json_string(doc, o12, branch.spec_name());
    assert(doc[o13] == '}') by {
        assert(doc.subrange(o13, o13 + 1)[0] == doc[o13]);
    }
}

/// An emitted bootstrap metadata document parses back to exactly the
/// metadata it was emitted from: what detection reads is what patching
/// wrote.
#[verifier::rlimit(100)]
pub proof fn lemma_meta_round_trip(
    rel: Option<TemplatedPathBufBase>,
    inj_path: Seq<char>,
    patched_asar: Seq<char>,
    branch: MoonlightBranch,
)
    ensures
        spec_parse_meta(spec_emit_meta(rel, inj_path, patched_asar, branch)) == Some(
            ((rel, inj_path), patched_asar, branch),
        ),
{
    reveal_strlit("Stable");
    reveal_strlit("Nightly");
    assert("Stable"@.len() == 6);
    assert("Nightly"@.len() == 7);
    assert("Stable"@ != "Nightly"@);
    lemma_meta_positions(rel, inj_path, patched_asar, branch);
    let doc = spec_emit_meta(rel, inj_path, patched_asar, branch);
    let jm = spec_json_string("moonlightInjector"@);
    let tpb = spec_emit_tpb(rel, inj_path);
    let ja = spec_json_string("patchedAsar"@);
    let jaa = spec_json_string(patched_asar);
    let jb = spec_json_string("branch"@);
    let jbb = spec_json_string(branch.spec_name());
    let o2 = 1int;
    let o3 = o2 + jm.len() as int;
    let o4 = o3 + 1;
    let o5 = o4 + tpb.len() as int;
    let o6 = o5 + 1;
    let o7 = o6 + ja.len() as int;
    let o8 = o7 + 1;
    let o9 = o8 + jaa.len() as int;
    let o10 = o9 + 1;
    let o11 = o10 + jb.len() as int;
    let o12 = o11 + 1;
    let o13 = o12 + jbb.len() as int;
    assert(spec_skip_ws(doc, 0) == 0);
    assert(spec_skip_ws(doc, o2) == o2);
    assert(spec_skip_ws(doc, o3) == o3);
    assert(spec_skip_ws(doc, o4) == o4);
    assert(spec_skip_ws(doc, o5) == o5);
    assert(spec_skip_ws(doc, o6) == o6);
    assert(spec_skip_ws(doc, o7) == o7);
    assert(spec_skip_ws(doc, o8) == o8);
    assert(spec_skip_ws(doc, o9) == o9);
    assert(spec_skip_ws(doc, o10) == o10);
    assert(spec_skip_ws(doc, o11) == o11);
    assert(spec_skip_ws(doc, o12) == o12);
    assert(spec_skip_ws(doc, o13) == o13);
    assert(spec_skip_ws(doc, o13 + 1) == doc.len());
    match branch {
        MoonlightBranch::Stable => {
            assert(branch.spec_name() == "Stable"@);
        },
        MoonlightBranch::Nightly => {
            assert(branch.spec_name() == "Nightly"@);
            assert(branch.spec_name() != "Stable"@);
        },
    }
}

} // verus!

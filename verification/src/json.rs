//! A small JSON text layer for the fixed documents this crate owns: string
//! escaping and unescaping, whitespace handling, and the string-literal
//! emitter and parser, with the round-trip proof connecting them. The
//! escapes handled are the five short forms `\"  \\  \n  \r  \t`.

use vstd::prelude::*;
use crate::text::append_str;

verus! {

/// JSON insignificant whitespace.
pub open spec fn is_ws(c: char) -> bool {
    c == ' ' || c == '\t' || c == '\n' || c == '\r'
}

/// The first position at or after `i` that does not hold whitespace.
pub open spec fn spec_skip_ws(s: Seq<char>, i: int) -> int
    decreases s.len() - i,
{
    if i < 0 || i >= s.len() {
        i
    } else if is_ws(s[i]) {
        spec_skip_ws(s, i + 1)
    } else {
        i
    }
}

/// Advances past whitespace.
pub fn skip_ws(doc: &Vec<char>, start: usize) -> (r: usize)
    requires
        start <= doc@.len(),
    ensures
        r as int == spec_skip_ws(doc@, start as int),
        start <= r <= doc@.len(),
{
    let n = doc.len();
    let mut i = start;
    while i < n && (doc[i] == ' ' || doc[i] == '\t' || doc[i] == '\n' || doc[i] == '\r')
        invariant
            start <= i <= n,
            n == doc@.len(),
            spec_skip_ws(doc@, start as int) == spec_skip_ws(doc@, i as int),
        decreases n - i,
    {
        i = i + 1;
    }
    i
}

/// How one character is written inside a JSON string literal.
pub open spec fn esc_char(c: char) -> Seq<char> {
    if c == '"' {
        seq!['\\', '"']
    } else if c == '\\' {
        seq!['\\', '\\']
    } else if c == '\n' {
        seq!['\\', 'n']
    } else if c == '\r' {
        seq!['\\', 'r']
    } else if c == '\t' {
        seq!['\\', 't']
    } else {
        seq![c]
    }
}

/// The character an escape code stands for.
pub open spec fn unesc_char(c: char) -> Option<char> {
    if c == '"' {
        Some('"')
    } else if c == '\\' {
        Some('\\')
    } else if c == 'n' {
        Some('\n')
    } else if c == 'r' {
        Some('\r')
    } else if c == 't' {
        Some('\t')
    } else {
        None
    }
}

/// The body of a JSON string literal holding the characters of `s`.
pub open spec fn esc_str(s: Seq<char>) -> Seq<char>
    decreases s.len(),
{
    if s.len() == 0 {
        Seq::empty()
    } else {
        esc_char(s[0]) + esc_str(s.skip(1))
    }
}

/// The JSON string literal holding the characters of `s`.
pub open spec fn spec_json_string(s: Seq<char>) -> Seq<char> {
    seq!['"'] + esc_str(s) + seq!['"']
}

pub proof fn lemma_esc_str_push(s: Seq<char>, c: char)
    ensures
        esc_str(s.push(c)) == esc_str(s) + esc_char(c),
    decreases s.len(),
{
    if s.len() == 0 {
        assert(s.push(c)[0] == c);
        assert(s.push(c).skip(1) =~= s);
        assert(esc_str(s.push(c)) == esc_char(c) + esc_str(s));
        assert(esc_str(s) == Seq::<char>::empty());
        assert(esc_char(c) + Seq::<char>::empty() =~= esc_char(c));
        assert(Seq::<char>::empty() + esc_char(c) =~= esc_char(c));
    } else {
        assert(s.push(c)[0] == s[0]);
        assert(s.push(c).skip(1) =~= s.skip(1).push(c));
        lemma_esc_str_push(s.skip(1), c);
        assert(esc_str(s.push(c)) == esc_char(s[0]) + (esc_str(s.skip(1)) + esc_char(c)));
        assert(esc_char(s[0]) + (esc_str(s.skip(1)) + esc_char(c)) =~= (esc_char(s[0]) + esc_str(
            s.skip(1),
        )) + esc_char(c));
        assert(esc_str(s) == esc_char(s[0]) + esc_str(s.skip(1)));
    }
}

/// Appends the JSON string literal for `s` to `out`.
pub fn emit_json_string(out: &mut Vec<char>, s: &str)
    ensures
        final(out)@ == old(out)@ + spec_json_string(s@),
{
    out.push('"');
    let n = s.unicode_len();
    let mut i: usize = 0;
    while i < n
        invariant
            n == s@.len(),
            i <= n,
            out@ == old(out)@ + seq!['"'] + esc_str(s@.take(i as int)),
        decreases n - i,
    {
        let c = s.get_char(i);
        if c == '"' {
            out.push('\\');
            out.push('"');
        } else if c == '\\' {
            out.push('\\');
            out.push('\\');
        } else if c == '\n' {
            out.push('\\');
            out.push('n');
        } else if c == '\r' {
            out.push('\\');
            out.push('r');
        } else if c == '\t' {
            out.push('\\');
            out.push('t');
        } else {
            out.push(c);
        }
        proof {
            lemma_esc_str_push(s@.take(i as int), c);
            assert(s@.take(i + 1) =~= s@.take(i as int).push(c));
            assert(out@ =~= old(out)@ + seq!['"'] + esc_str(s@.take(i + 1)));
        }
        i = i + 1;
    }
    out.push('"');
    proof {
        assert(s@.take(n as int) =~= s@);
        assert(out@ =~= old(out)@ + spec_json_string(s@));
    }
}

/// Parses the body of a string literal from position `i` up to and past its
/// closing quote: the characters it denotes and the position after.
pub open spec fn spec_parse_string_body(s: Seq<char>, i: int) -> Option<(Seq<char>, int)>
    decreases s.len() - i,
{
    if i < 0 || i >= s.len() {
        None
    } else if s[i] == '"' {
        Some((Seq::empty(), i + 1))
    } else if s[i] == '\\' {
        if i + 1 >= s.len() {
            None
        } else {
            match unesc_char(s[i + 1]) {
                None => None,
                Some(c) => match spec_parse_string_body(s, i + 2) {
                    None => None,
                    Some((t, j)) => Some((seq![c] + t, j)),
                },
            }
        }
    } else {
        match spec_parse_string_body(s, i + 1) {
            None => None,
            Some((t, j)) => Some((seq![s[i]] + t, j)),
        }
    }
}

/// Parses a whole string literal at position `i`: its opening quote, body and
/// closing quote.
pub open spec fn spec_parse_string(s: Seq<char>, i: int) -> Option<(Seq<char>, int)> {
    if 0 <= i < s.len() && s[i] == '"' {
        spec_parse_string_body(s, i + 1)
    } else {
        None
    }
}

pub proof fn lemma_parse_body_bounds(s: Seq<char>, i: int)
    ensures
        match spec_parse_string_body(s, i) {
            Some((t, j)) => i < j <= s.len(),
            None => true,
        },
    decreases s.len() - i,
{
    if 0 <= i < s.len() {
        if s[i] == '"' {
        } else if s[i] == '\\' {
            if i + 1 < s.len() {
                lemma_parse_body_bounds(s, i + 2);
            }
        } else {
            lemma_parse_body_bounds(s, i + 1);
        }
    }
}

/// Parsing the escaped form of `s`, followed by a closing quote, yields `s`
/// back and stops after that quote.
pub proof fn lemma_parse_escaped(doc: Seq<char>, i: int, s: Seq<char>)
    requires
        0 <= i,
        i + esc_str(s).len() + 1 <= doc.len(),
        doc.subrange(i, i + esc_str(s).len() as int) == esc_str(s),
        doc[i + esc_str(s).len() as int] == '"',
    ensures
        spec_parse_string_body(doc, i) == Some((s, i + esc_str(s).len() + 1)),
    decreases s.len(),
{
    let el = esc_str(s).len() as int;
    if s.len() == 0 {
        assert(doc[i] == '"');
    } else {
        let c = s[0];
        let e = esc_char(c);
        let tail = esc_str(s.skip(1));
        assert(esc_str(s) == e + tail);
        assert forall|k: int| 0 <= k < e.len() implies doc[i + k] == e[k] by {
            assert(doc.subrange(i, i + el)[k] == doc[i + k]);
            assert((e + tail)[k] == e[k]);
        }
        let i2 = i + e.len() as int;
        assert(doc.subrange(i2, i2 + tail.len() as int) =~= tail) by {
            assert forall|k: int| 0 <= k < tail.len() implies doc.subrange(
                i2,
                i2 + tail.len() as int,
            )[k] == tail[k] by {
                assert(doc.subrange(i, i + el)[e.len() + k] == doc[i2 + k]);
                assert((e + tail)[e.len() + k] == tail[k]);
            }
        }
        lemma_parse_escaped(doc, i2, s.skip(1));
        if c == '"' || c == '\\' || c == '\n' || c == '\r' || c == '\t' {
            assert(e.len() == 2);
            assert(doc[i + 0] == e[0]);
            assert(doc[i + 1] == e[1]);
            assert(doc[i] == '\\');
            assert(unesc_char(doc[i + 1]) == Some(c));
            assert(seq![c] + s.skip(1) =~= s);
        } else {
            assert(e.len() == 1);
            assert(doc[i + 0] == e[0]);
            assert(doc[i] == c);
            assert(doc[i] != '"' && doc[i] != '\\');
            assert(seq![c] + s.skip(1) =~= s);
        }
    }
}

/// Parsing a full string literal that was emitted for `s` yields `s`.
pub proof fn lemma_parse_json_string(doc: Seq<char>, i: int, s: Seq<char>)
    requires
        0 <= i,
        i + spec_json_string(s).len() <= doc.len(),
        doc.subrange(i, i + spec_json_string(s).len() as int) == spec_json_string(s),
    ensures
        spec_parse_string(doc, i) == Some((s, i + spec_json_string(s).len())),
{
    let l = spec_json_string(s).len() as int;
    let js = spec_json_string(s);
    assert forall|k: int| 0 <= k < l implies doc[i + k] == js[k] by {
        assert(doc.subrange(i, i + l)[k] == doc[i + k]);
    }
    assert(doc[i + 0] == js[0]);
    assert(js[0] == '"');
    assert(doc[i] == '"');
    let el = esc_str(s).len() as int;
    assert(doc.subrange(i + 1, i + 1 + el) =~= esc_str(s)) by {
        assert forall|k: int| 0 <= k < el implies doc.subrange(i + 1, i + 1 + el)[k] == esc_str(
            s,
        )[k] by {
            assert(doc[i + 1 + k] == js[1 + k]);
            assert(js[1 + k] == (seq!['"'] + esc_str(s) + seq!['"'])[1 + k]);
        }
    }
    assert(doc[i + 1 + el] == js[1 + el]);
    assert(js[1 + el] == '"');
    lemma_parse_escaped(doc, i + 1, s);
}

/// Parses a JSON string literal at `start` (no whitespace skipping), returning
/// the denoted characters and the position after the closing quote.
pub fn parse_string(doc: &Vec<char>, start: usize) -> (r: Option<(Vec<char>, usize)>)
    requires
        start <= doc@.len(),
    ensures
        match r {
            Some((t, j)) => spec_parse_string(doc@, start as int) == Some((t@, j as int)) && start
                < j <= doc@.len(),
            None => spec_parse_string(doc@, start as int) is None,
        },
{
    let n = doc.len();
    if start >= n || doc[start] != '"' {
        return None;
    }
    let mut acc: Vec<char> = Vec::new();
    let mut cur: usize = start + 1;
    loop
        invariant
            start + 1 <= cur <= n,
            n == doc@.len(),
            doc@[start as int] == '"',
            match spec_parse_string_body(doc@, cur as int) {
                Some((t, j)) => spec_parse_string_body(doc@, start + 1) == Some((acc@ + t, j)),
                None => spec_parse_string_body(doc@, start + 1) is None,
            },
        decreases n - cur,
    {
        if cur >= n {
            return None;
        }
        let c = doc[cur];
        if c == '"' {
            proof {
                assert(spec_parse_string_body(doc@, cur as int) == Some(
                    (Seq::<char>::empty(), cur + 1),
                ));
                assert(acc@ + Seq::<char>::empty() =~= acc@);
                lemma_parse_body_bounds(doc@, start + 1);
            }
            return Some((acc, cur + 1));
        } else if c == '\\' {
            if cur + 1 >= n {
                return None;
            }
            let e = doc[cur + 1];
            let u: char = if e == '"' {
                '"'
            } else if e == '\\' {
                '\\'
            } else if e == 'n' {
                '\n'
            } else if e == 'r' {
                '\r'
            } else if e == 't' {
                '\t'
            } else {
                return None;
            };
            proof {
                assert(unesc_char(doc@[cur + 1]) == Some(u));
                match spec_parse_string_body(doc@, cur + 2) {
                    Some((t, j)) => {
                        assert(spec_parse_string_body(doc@, cur as int) == Some(
                            (seq![u] + t, j),
                        ));
                        assert(acc@ + (seq![u] + t) =~= acc@.push(u) + t);
                    }
                    None => {},
                }
            }
            acc.push(u);
            cur = cur + 2;
        } else {
            proof {
                match spec_parse_string_body(doc@, cur + 1) {
                    Some((t, j)) => {
                        assert(spec_parse_string_body(doc@, cur as int) == Some(
                            (seq![doc@[cur as int]] + t, j),
                        ));
                        assert(acc@ + (seq![doc@[cur as int]] + t) =~= acc@.push(
                            doc@[cur as int],
                        ) + t);
                    }
                    None => {},
                }
            }
            acc.push(c);
            cur = cur + 1;
        }
    }
}

/// Appends a fixed fragment that contains no quote and no backslash, such as
/// a punctuation token, to `out`.
pub fn emit_raw(out: &mut Vec<char>, s: &str)
    ensures
        final(out)@ == old(out)@ + s@,
{
    append_str(out, s);
}

/// A region of `doc` equal to a concatenation splits into a region for each
/// part.
pub proof fn lemma_split(doc: Seq<char>, i: int, a: Seq<char>, b: Seq<char>)
    requires
        0 <= i,
        i + a.len() + b.len() <= doc.len(),
        doc.subrange(i, i + a.len() + b.len()) == a + b,
    ensures
        doc.subrange(i, i + a.len() as int) == a,
        doc.subrange(i + a.len() as int, i + a.len() + b.len()) == b,
{
    let la = a.len() as int;
    let lb = b.len() as int;
    assert forall|k: int| 0 <= k < la implies doc.subrange(i, i + la)[k] == a[k] by {
        assert(doc.subrange(i, i + la)[k] == doc[i + k]);
        assert(doc.subrange(i, i + la + lb)[k] == doc[i + k]);
        assert((a + b)[k] == a[k]);
    }
    assert(doc.subrange(i, i + la) =~= a);
    assert forall|k: int| 0 <= k < lb implies doc.subrange(i + la, i + la + lb)[k] == b[k] by {
        assert(doc.subrange(i + la, i + la + lb)[k] == doc[i + la + k]);
        assert(doc.subrange(i, i + la + lb)[la + k] == doc[i + la + k]);
        assert((a + b)[la + k] == b[k]);
    }
    assert(doc.subrange(i + la, i + la + lb) =~= b);
}

/// A string literal is at least two characters long and opens with a quote.
pub proof fn lemma_json_string_first(s: Seq<char>)
    ensures
        spec_json_string(s).len() >= 2,
        spec_json_string(s)[0] == '"',
{
    assert((seq!['"'] + esc_str(s) + seq!['"'])[0] == '"');
}

} // verus!

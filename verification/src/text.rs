//! Character-level text helpers: conversions between `&str`, `String` and
//! `Vec<char>`, lexicographic comparison, prefix and substring tests, and
//! line handling. All document processing in this crate works on characters.

use vstd::prelude::*;

verus! {

/// Relies on `String::push`: appends the given character to the end of the
/// string.
pub assume_specification[ String::push ](s: &mut String, c: char)
    ensures
        final(s)@ == old(s)@.push(c),
;

/// The characters of `s` as a vector.
pub fn chars_of(s: &str) -> (r: Vec<char>)
    ensures
        r@ == s@,
{
    let n = s.unicode_len();
    let mut r: Vec<char> = Vec::new();
    let mut i: usize = 0;
    while i < n
        invariant
            n == s@.len(),
            i <= n,
            r@ == s@.take(i as int),
        decreases n - i,
    {
        r.push(s.get_char(i));
        i = i + 1;
        proof {
            assert(r@ =~= s@.take(i as int));
        }
    }
    proof {
        assert(r@ =~= s@);
    }
    r
}

/// The characters of `v` as a `String`.
pub fn string_of(v: &Vec<char>) -> (r: String)
    ensures
        r@ == v@,
{
    let mut r = String::new();
    let mut i: usize = 0;
    while i < v.len()
        invariant
            i <= v@.len(),
            r@ == v@.take(i as int),
        decreases v@.len() - i,
    {
        r.push(v[i]);
        i = i + 1;
        proof {
            assert(r@ =~= v@.take(i as int));
        }
    }
    proof {
        assert(r@ =~= v@);
    }
    r
}

/// Appends the characters of `s` to `out`.
pub fn append_str(out: &mut Vec<char>, s: &str)
    ensures
        final(out)@ == old(out)@ + s@,
{
    let n = s.unicode_len();
    let mut i: usize = 0;
    while i < n
        invariant
            n == s@.len(),
            i <= n,
            out@ == old(out)@ + s@.take(i as int),
        decreases n - i,
    {
        out.push(s.get_char(i));
        i = i + 1;
        proof {
            assert(out@ =~= old(out)@ + s@.take(i as int));
        }
    }
    proof {
        assert(out@ =~= old(out)@ + s@);
    }
}

/// Whether `p` is a prefix of `s`.
pub open spec fn is_prefix_of(p: Seq<char>, s: Seq<char>) -> bool {
    p.len() <= s.len() && s.take(p.len() as int) == p
}

/// Whether the characters of `v` start with the characters of `p`.
pub fn starts_with_at(v: &Vec<char>, p: &str, at: usize) -> (r: bool)
    requires
        at <= v@.len(),
    ensures
        r == is_prefix_of(p@, v@.skip(at as int)),
{
    let n = p.unicode_len();
    let vn = v.len();
    if vn - at < n {
        proof {
            assert(!is_prefix_of(p@, v@.skip(at as int)));
        }
        return false;
    }
    let mut i: usize = 0;
    while i < n
        invariant
            n == p@.len(),
            i <= n,
            vn == v@.len(),
            at + n <= vn,
            forall|j: int| 0 <= j < i ==> v@[at + j] == p@[j],
        decreases n - i,
    {
        if v[at + i] != p.get_char(i) {
            proof {
                assert(v@.skip(at as int).take(p@.len() as int)[i as int] != p@[i as int]);
            }
            return false;
        }
        i = i + 1;
    }
    proof {
        assert(v@.skip(at as int).take(p@.len() as int) =~= p@);
    }
    true
}

/// Whether the string `s` starts with `p`.
pub fn str_starts_with(s: &str, p: &str) -> (r: bool)
    ensures
        r == is_prefix_of(p@, s@),
{
    let n = p.unicode_len();
    let m = s.unicode_len();
    if m < n {
        proof {
            assert(!is_prefix_of(p@, s@));
        }
        return false;
    }
    let mut i: usize = 0;
    while i < n
        invariant
            n == p@.len(),
            n <= m == s@.len(),
            i <= n,
            forall|j: int| 0 <= j < i ==> s@[j] == p@[j],
        decreases n - i,
    {
        if s.get_char(i) != p.get_char(i) {
            proof {
                assert(s@.take(p@.len() as int)[i as int] != p@[i as int]);
            }
            return false;
        }
        i = i + 1;
    }
    proof {
        assert(s@.take(p@.len() as int) =~= p@);
    }
    true
}

/// Joining the segments of a split yields the text back: nothing is lost
/// or reordered by cutting a document into segments and writing them out
/// again.
pub proof fn lemma_join_split(s: Seq<char>, c: char)
    ensures
        spec_join(spec_split(s, c), c) == s,
    decreases s.len(),
{
    if s.len() == 0 {
        assert(spec_split(s, c) =~= seq![Seq::<char>::empty()]);
        assert(spec_join(spec_split(s, c), c) =~= s);
    } else if s[0] == c {
        lemma_join_split(s.skip(1), c);
        let rest = spec_split(s.skip(1), c);
        lemma_split_len(s.skip(1), c);
        let ls = spec_split(s, c);
        assert(ls == seq![Seq::<char>::empty()] + rest);
        assert(ls.len() >= 2);
        assert(ls[0] =~= Seq::<char>::empty());
        assert(ls.skip(1) =~= rest);
        assert(spec_join(ls, c) == ls[0] + seq![c] + spec_join(rest, c));
        assert(spec_join(ls, c) =~= s);
    } else {
        lemma_join_split(s.skip(1), c);
        let rest = spec_split(s.skip(1), c);
        lemma_split_len(s.skip(1), c);
        let ls = spec_split(s, c);
        assert(ls == seq![seq![s[0]] + rest[0]] + rest.skip(1));
        if rest.len() == 1 {
            assert(rest.skip(1) =~= Seq::<Seq<char>>::empty());
            assert(ls =~= seq![seq![s[0]] + rest[0]]);
            assert(ls.len() == 1);
            assert(spec_join(ls, c) == ls[0]);
            assert(spec_join(rest, c) == rest[0]);
            assert(rest[0] == s.skip(1));
            assert(ls[0] =~= seq![s[0]] + s.skip(1));
            assert(seq![s[0]] + s.skip(1) =~= s);
        } else {
            assert(ls.len() == rest.len() >= 2);
            assert(ls[0] == seq![s[0]] + rest[0]);
            assert(ls.skip(1) =~= rest.skip(1));
            assert(spec_join(ls, c) == ls[0] + seq![c] + spec_join(ls.skip(1), c));
            assert(spec_join(rest, c) == rest[0] + seq![c] + spec_join(rest.skip(1), c));
            assert(spec_join(rest, c) == s.skip(1));
            assert(spec_join(ls, c) =~= seq![s[0]] + (rest[0] + seq![c] + spec_join(
                rest.skip(1),
                c,
            )));
            assert(seq![s[0]] + s.skip(1) =~= s);
        }
    }
}

/// Whether the characters of `v` are exactly those of `s`.
pub fn eq_str(v: &Vec<char>, s: &str) -> (r: bool)
    ensures
        r == (v@ == s@),
{
    let n = s.unicode_len();
    if v.len() != n {
        proof {
            assert(v@ != s@);
        }
        return false;
    }
    let r = starts_with_at(v, s, 0);
    proof {
        assert(v@.skip(0) =~= v@);
        if r {
            assert(v@.take(s@.len() as int) =~= v@);
        } else {
            if v@ == s@ {
                assert(v@.take(s@.len() as int) =~= s@);
            }
        }
    }
    r
}

/// Whether `sub` occurs in `s`.
pub open spec fn spec_contains(s: Seq<char>, sub: Seq<char>) -> bool {
    exists|i: int|
        0 <= i <= s.len() - sub.len() && #[trigger] s.subrange(i, i + sub.len() as int) == sub
}

/// Decides `spec_contains`.
pub fn str_contains(s: &str, sub: &str) -> (r: bool)
    ensures
        r == spec_contains(s@, sub@),
{
    let cs = chars_of(s);
    let n = cs.len();
    let m = sub.unicode_len();
    if m > n {
        proof {
            assert(!spec_contains(s@, sub@));
        }
        return false;
    }
    if m == 0 {
        proof {
            assert(s@.subrange(0, 0 + sub@.len() as int) =~= sub@);
            assert(spec_contains(s@, sub@));
        }
        return true;
    }
    let mut i: usize = 0;
    while i <= n - m
        invariant
            m == sub@.len(),
            n == s@.len(),
            cs@ == s@,
            1 <= m <= n,
            i <= n,
            forall|j: int|
                0 <= j < i ==> #[trigger] s@.subrange(j, j + sub@.len() as int) != sub@,
        decreases n - i,
    {
        if starts_with_at(&cs, sub, i) {
            proof {
                assert(s@.skip(i as int).take(sub@.len() as int) =~= s@.subrange(
                    i as int,
                    i + sub@.len(),
                ));
            }
            return true;
        }
        proof {
            assert(s@.skip(i as int).take(sub@.len() as int) =~= s@.subrange(
                i as int,
                i + sub@.len(),
            ));
        }
        i = i + 1;
    }
    false
}

/// The position of the last occurrence of `c` in `s`, when there is one.
pub open spec fn spec_rfind(s: Seq<char>, c: char) -> Option<int>
    decreases s.len(),
{
    if s.len() == 0 {
        None
    } else if s.last() == c {
        Some(s.len() - 1)
    } else {
        spec_rfind(s.drop_last(), c)
    }
}

/// Finds the last occurrence of `c`.
pub fn str_rfind(s: &str, c: char) -> (r: Option<usize>)
    ensures
        match r {
            Some(i) => spec_rfind(s@, c) == Some(i as int) && i < s@.len(),
            None => spec_rfind(s@, c) is None,
        },
{
    let n = s.unicode_len();
    let mut i: usize = n;
    proof {
        assert(s@.take(n as int) =~= s@);
    }
    while i > 0
        invariant
            i <= n,
            n == s@.len(),
            spec_rfind(s@, c) == spec_rfind(s@.take(i as int), c),
        decreases i,
    {
        proof {
            assert(s@.take(i as int).last() == s@[i - 1]);
            assert(s@.take(i as int).drop_last() =~= s@.take(i - 1));
        }
        if s.get_char(i - 1) == c {
            return Some(i - 1);
        }
        i = i - 1;
    }
    proof {
        assert(s@.take(0) =~= Seq::<char>::empty());
    }
    None
}

/// Lexicographic order on character sequences, by character code.
pub open spec fn lex_le(a: Seq<char>, b: Seq<char>) -> bool
    decreases a.len(),
{
    if a.len() == 0 {
        true
    } else if b.len() == 0 {
        false
    } else if a[0] == b[0] {
        lex_le(a.skip(1), b.skip(1))
    } else {
        (a[0] as int) < (b[0] as int)
    }
}

/// `lex_le` is reflexive.
pub proof fn lemma_lex_le_refl(a: Seq<char>)
    ensures
        lex_le(a, a),
    decreases a.len(),
{
    if a.len() != 0 {
        lemma_lex_le_refl(a.skip(1));
    }
}

/// `lex_le` is total: any two sequences compare one way or the other.
pub proof fn lemma_lex_le_total(a: Seq<char>, b: Seq<char>)
    ensures
        lex_le(a, b) || lex_le(b, a),
    decreases a.len(),
{
    if a.len() != 0 && b.len() != 0 && a[0] == b[0] {
        lemma_lex_le_total(a.skip(1), b.skip(1));
    }
}

/// `lex_le` is transitive.
pub proof fn lemma_lex_le_trans(a: Seq<char>, b: Seq<char>, c: Seq<char>)
    requires
        lex_le(a, b),
        lex_le(b, c),
    ensures
        lex_le(a, c),
    decreases a.len(),
{
    if a.len() != 0 {
        assert(b.len() != 0);
        if c.len() != 0 {
            if a[0] == b[0] && b[0] == c[0] {
                lemma_lex_le_trans(a.skip(1), b.skip(1), c.skip(1));
            }
        }
    }
}

/// Decides `lex_le` on two strings.
pub fn str_lex_le(a: &str, b: &str) -> (r: bool)
    ensures
        r == lex_le(a@, b@),
{
    let an = a.unicode_len();
    let bn = b.unicode_len();
    let mut i: usize = 0;
    proof {
        assert(a@.skip(0) =~= a@);
        assert(b@.skip(0) =~= b@);
    }
    loop
        invariant
            an == a@.len(),
            bn == b@.len(),
            i <= an,
            i <= bn,
            forall|j: int| 0 <= j < i ==> a@[j] == b@[j],
            lex_le(a@, b@) == lex_le(a@.skip(i as int), b@.skip(i as int)),
        decreases an - i,
    {
        if i == an {
            proof {
                assert(lex_le(a@.skip(i as int), b@.skip(i as int)));
            }
            return true;
        }
        if i == bn {
            proof {
                assert(a@.skip(i as int).len() > 0);
                assert(!lex_le(a@.skip(i as int), b@.skip(i as int)));
            }
            return false;
        }
        let ac = a.get_char(i);
        let bc = b.get_char(i);
        if ac != bc {
            proof {
                let sa = a@.skip(i as int);
                let sb = b@.skip(i as int);
                assert(sa[0] == ac && sb[0] == bc);
                assert(lex_le(sa, sb) == ((ac as int) < (bc as int)));
                assert(((ac as u32) < (bc as u32)) == ((ac as int) < (bc as int)));
            }
            return (ac as u32) < (bc as u32);
        }
        proof {
            let sa = a@.skip(i as int);
            let sb = b@.skip(i as int);
            assert(sa[0] == sb[0]);
            assert(lex_le(sa, sb) == lex_le(sa.skip(1), sb.skip(1)));
            assert(sa.skip(1) =~= a@.skip(i + 1));
            assert(sb.skip(1) =~= b@.skip(i + 1));
        }
        i = i + 1;
    }
}

/// The first line of `s`: the characters before the first newline (the whole
/// text when it has none), with one trailing carriage return stripped.
pub open spec fn spec_first_line(s: Seq<char>) -> Seq<char> {
    let upto = if exists|i: int| 0 <= i < s.len() && s[i] == '\n' {
        s.take(choose|i: int| 0 <= i < s.len() && s[i] == '\n' && (forall|j: int| 0 <= j < i ==> s[j] != '\n'))
    } else {
        s
    };
    if upto.len() > 0 && upto[upto.len() - 1] == '\r' {
        upto.take(upto.len() - 1)
    } else {
        upto
    }
}

/// The index of the first occurrence of `c` in `s` at or after `from`, when
/// there is one.
pub fn char_index_from(s: &str, c: char, from: usize) -> (r: Option<usize>)
    requires
        from <= s@.len(),
    ensures
        match r {
            Some(i) => from <= i < s@.len() && s@[i as int] == c
                && (forall|j: int| from <= j < i ==> s@[j] != c),
            None => forall|j: int| from <= j < s@.len() ==> s@[j] != c,
        },
{
    let n = s.unicode_len();
    let mut i: usize = from;
    while i < n
        invariant
            n == s@.len(),
            from <= i <= n,
            forall|j: int| from <= j < i ==> s@[j] != c,
        decreases n - i,
    {
        if s.get_char(i) == c {
            return Some(i);
        }
        i = i + 1;
    }
    None
}

/// The segments of `s` between occurrences of `c`: splitting the empty text
/// yields one empty segment, and every delimiter ends a segment.
pub open spec fn spec_split(s: Seq<char>, c: char) -> Seq<Seq<char>>
    decreases s.len(),
{
    if s.len() == 0 {
        seq![Seq::<char>::empty()]
    } else if s[0] == c {
        seq![Seq::<char>::empty()] + spec_split(s.skip(1), c)
    } else {
        let rest = spec_split(s.skip(1), c);
        seq![seq![s[0]] + rest[0]] + rest.skip(1)
    }
}

/// Splitting yields at least one segment.
pub proof fn lemma_split_len(s: Seq<char>, c: char)
    ensures
        spec_split(s, c).len() >= 1,
    decreases s.len(),
{
    if s.len() > 0 {
        lemma_split_len(s.skip(1), c);
    }
}

/// When the first delimiter at or after `i` stands at `k`, the split of the
/// tail from `i` opens with the segment between them.
pub proof fn lemma_split_step(s: Seq<char>, c: char, i: int, k: int)
    requires
        0 <= i <= k < s.len(),
        s[k] == c,
        forall|j: int| i <= j < k ==> s[j] != c,
    ensures
        spec_split(s.skip(i), c) == seq![s.subrange(i, k)] + spec_split(s.skip(k + 1), c),
    decreases k - i,
{
    let t = s.skip(i);
    if i == k {
        assert(t[0] == c);
        assert(t.skip(1) =~= s.skip(i + 1));
        assert(s.subrange(i, k) =~= Seq::<char>::empty());
    } else {
        assert(t[0] == s[i]);
        assert(t[0] != c);
        assert(t.skip(1) =~= s.skip(i + 1));
        lemma_split_step(s, c, i + 1, k);
        let rest = spec_split(s.skip(i + 1), c);
        assert(rest[0] == s.subrange(i + 1, k));
        assert(seq![s[i]] + s.subrange(i + 1, k) =~= s.subrange(i, k));
        assert(rest.skip(1) =~= spec_split(s.skip(k + 1), c));
        assert(spec_split(t, c) =~= seq![s.subrange(i, k)] + spec_split(s.skip(k + 1), c));
    }
}

/// When no delimiter stands at or after `i`, the tail from `i` is one
/// segment.
pub proof fn lemma_split_last(s: Seq<char>, c: char, i: int)
    requires
        0 <= i <= s.len(),
        forall|j: int| i <= j < s.len() ==> s[j] != c,
    ensures
        spec_split(s.skip(i), c) == seq![s.skip(i)],
    decreases s.len() - i,
{
    let t = s.skip(i);
    if t.len() == 0 {
        assert(t =~= Seq::<char>::empty());
    } else {
        assert(t[0] == s[i]);
        assert(t.skip(1) =~= s.skip(i + 1));
        lemma_split_last(s, c, i + 1);
        let rest = spec_split(s.skip(i + 1), c);
        assert(rest[0] == s.skip(i + 1));
        assert(seq![s[i]] + s.skip(i + 1) =~= s.skip(i));
        assert(rest.skip(1) =~= Seq::<Seq<char>>::empty());
        assert(spec_split(t, c) =~= seq![s.skip(i)]);
    }
}

/// The views of a vector of strings.
pub open spec fn strs_view(v: Seq<String>) -> Seq<Seq<char>> {
    v.map_values(|x: String| x@)
}

/// Splits `s` on the delimiter `c` into its segments.
pub fn split_string(s: &str, c: char) -> (r: Vec<String>)
    ensures
        strs_view(r@) == spec_split(s@, c),
{
    let n = s.unicode_len();
    let mut segs: Vec<String> = Vec::new();
    let mut i: usize = 0;
    proof {
        assert(s@.skip(0) =~= s@);
        assert(strs_view(segs@) =~= Seq::<Seq<char>>::empty());
        assert(Seq::<Seq<char>>::empty() + spec_split(s@, c) =~= spec_split(s@, c));
    }
    loop
        invariant
            i <= n,
            n == s@.len(),
            strs_view(segs@) + spec_split(s@.skip(i as int), c) == spec_split(s@, c),
        decreases n - i,
    {
        match char_index_from(s, c, i) {
            Some(k) => {
                let seg = s.substring_char(i, k).to_owned();
                proof {
                    lemma_split_step(s@, c, i as int, k as int);
                }
                segs.push(seg);
                proof {
                    assert(strs_view(segs@) =~= strs_view(segs@.drop_last()) + seq![
                        s@.subrange(i as int, k as int),
                    ]);
                    assert(strs_view(segs@) + spec_split(s@.skip(k + 1), c) =~= spec_split(
                        s@,
                        c,
                    ));
                }
                i = k + 1;
            },
            None => {
                let seg = s.substring_char(i, n).to_owned();
                proof {
                    lemma_split_last(s@, c, i as int);
                    assert(seg@ =~= s@.skip(i as int));
                }
                segs.push(seg);
                proof {
                    assert(strs_view(segs@) =~= strs_view(segs@.drop_last()) + seq![
                        s@.skip(i as int),
                    ]);
                    assert(strs_view(segs@) =~= spec_split(s@, c));
                }
                return segs;
            },
        }
    }
}

/// The segments joined back with the delimiter between them.
pub open spec fn spec_join(ls: Seq<Seq<char>>, c: char) -> Seq<char>
    decreases ls.len(),
{
    if ls.len() == 0 {
        Seq::empty()
    } else if ls.len() == 1 {
        ls[0]
    } else {
        ls[0] + seq![c] + spec_join(ls.skip(1), c)
    }
}

/// Joins segments with the delimiter `c` between them.
pub fn join_strings(ls: &Vec<String>, c: char) -> (r: String)
    ensures
        r@ == spec_join(strs_view(ls@), c),
{
    let n = ls.len();
    let mut out: Vec<char> = Vec::new();
    let mut i: usize = 0;
    proof {
        assert(strs_view(ls@).skip(0) =~= strs_view(ls@));
        assert(out@ + spec_join(strs_view(ls@), c) =~= spec_join(strs_view(ls@), c));
    }
    while i < n
        invariant
            i <= n,
            n == ls@.len(),
            out@ + spec_join(strs_view(ls@).skip(i as int), c) == spec_join(strs_view(ls@), c),
        decreases n - i,
    {
        let ghost prev = out@;
        append_str(&mut out, ls[i].as_str());
        if i + 1 < n {
            out.push(c);
        }
        proof {
            let lv = strs_view(ls@);
            assert(lv[i as int] == ls@[i as int]@);
            if i + 1 < n {
                assert(lv.skip(i as int).len() >= 2);
                assert(lv.skip(i as int)[0] == lv[i as int]);
                assert(lv.skip(i as int).skip(1) =~= lv.skip(i + 1));
                assert(spec_join(lv.skip(i as int), c) == lv[i as int] + seq![c] + spec_join(
                    lv.skip(i + 1),
                    c,
                ));
                assert(out@ =~= prev + lv[i as int] + seq![c]);
                assert(out@ + spec_join(lv.skip(i + 1), c) =~= prev + spec_join(
                    lv.skip(i as int),
                    c,
                ));
            } else {
                assert(lv.skip(i as int).len() == 1);
                assert(lv.skip(i as int)[0] == lv[i as int]);
                assert(spec_join(lv.skip(i as int), c) == lv[i as int]);
                assert(out@ =~= prev + lv[i as int]);
                assert(lv.skip(i + 1) =~= Seq::<Seq<char>>::empty());
                assert(out@ + spec_join(lv.skip(i + 1), c) =~= prev + spec_join(
                    lv.skip(i as int),
                    c,
                ));
            }
        }
        i = i + 1;
    }
    proof {
        assert(strs_view(ls@).skip(n as int) =~= Seq::<Seq<char>>::empty());
        assert(out@ =~= spec_join(strs_view(ls@), c));
    }
    string_of(&out)
}

/// The index of the first occurrence of `c` in `s`, when there is one.
pub fn char_index(s: &str, c: char) -> (r: Option<usize>)
    ensures
        match r {
            Some(i) => i < s@.len() && s@[i as int] == c
                && (forall|j: int| 0 <= j < i ==> s@[j] != c),
            None => forall|j: int| 0 <= j < s@.len() ==> s@[j] != c,
        },
{
    let n = s.unicode_len();
    let mut i: usize = 0;
    while i < n
        invariant
            n == s@.len(),
            i <= n,
            forall|j: int| 0 <= j < i ==> s@[j] != c,
        decreases n - i,
    {
        if s.get_char(i) == c {
            return Some(i);
        }
        i = i + 1;
    }
    None
}

/// Returns the first line of `s`.
pub fn first_line(s: &str) -> (r: String)
    ensures
        r@ == spec_first_line(s@),
{
    let n = s.unicode_len();
    let upto_len = match char_index(s, '\n') {
        Some(i) => i,
        None => n,
    };
    proof {
        if upto_len < n {
            let w = choose|k: int| 0 <= k < s@.len() && s@[k] == '\n'
                && (forall|j: int| 0 <= j < k ==> s@[j] != '\n');
            assert(s@[upto_len as int] == '\n');
            assert(w == upto_len as int);
        }
    }
    let end = if upto_len > 0 && s.get_char(upto_len - 1) == '\r' {
        upto_len - 1
    } else {
        upto_len
    };
    let sub = s.substring_char(0, end);
    let r = sub.to_owned();
    proof {
        let upto = if exists|k: int| 0 <= k < s@.len() && s@[k] == '\n' {
            s@.take(choose|k: int| 0 <= k < s@.len() && s@[k] == '\n'
                && (forall|j: int| 0 <= j < k ==> s@[j] != '\n'))
        } else {
            s@
        };
        assert(upto =~= s@.take(upto_len as int));
        assert(r@ =~= spec_first_line(s@));
    }
    r
}

} // verus!

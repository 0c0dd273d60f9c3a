//! Verified text primitives over the character view (`Seq<char>`) of strings.
//!
//! Every launcher rule that handles text (Maven coordinates, argument
//! templates, version strings, checksums) is stated over these spec functions.
use vstd::prelude::*;

verus! {

// ---------------------------------------------------------------------------
// Building strings
// ---------------------------------------------------------------------------

/// `String::push`: appends one character at the end.
#[verifier::external_body]
pub(crate) fn push_char(s: &mut String, c: char)
    ensures
        final(s)@ == old(s)@.push(c),
{
    s.push(c);
}

/// The characters of a string slice, in order.
pub fn chars_of(s: &str) -> (v: Vec<char>)
    ensures
        v@ == s@,
{
    let mut v: Vec<char> = Vec::new();
    for c in it: s.chars()
        invariant
            it.seq() == s@,
            v@ == it.seq().take(it.index() as int),
    {
        v.push(c);
    }
    v
}

/// A string made of the characters `v[from..to]`.
pub fn string_from_range(v: &Vec<char>, from: usize, to: usize) -> (s: String)
    requires
        from <= to <= v.len(),
    ensures
        s@ == v@.subrange(from as int, to as int),
{
    let mut s = String::new();
    let mut i = from;
    while i < to
        invariant
            from <= i <= to <= v.len(),
            s@ == v@.subrange(from as int, i as int),
        decreases to - i,
    {
        push_char(&mut s, v[i]);
        i += 1;
        assert(s@ =~= v@.subrange(from as int, i as int));
    }
    s
}

/// A string made of all the characters of `v`.
pub fn string_from_chars(v: &Vec<char>) -> (s: String)
    ensures
        s@ == v@,
{
    let s = string_from_range(v, 0, v.len());
    assert(v@.subrange(0, v.len() as int) =~= v@);
    s
}

/// A fresh owned copy of a string slice.
pub fn owned(s: &str) -> (r: String)
    ensures
        r@ == s@,
{
    String::from_str(s)
}

/// `a` followed by `b`.
pub fn concat2(a: &str, b: &str) -> (r: String)
    ensures
        r@ == a@ + b@,
{
    let mut r = String::from_str(a);
    r.append(b);
    r
}

/// `a`, `b`, `c` one after the other.
pub fn concat3(a: &str, b: &str, c: &str) -> (r: String)
    ensures
        r@ == a@ + b@ + c@,
{
    let mut r = String::from_str(a);
    r.append(b);
    r.append(c);
    r
}

/// Character-wise equality of two string slices.
pub fn str_eq(a: &str, b: &str) -> (r: bool)
    ensures
        r == (a@ == b@),
{
    let x = String::from_str(a);
    let y = String::from_str(b);
    x == y
}

// ---------------------------------------------------------------------------
// Prefixes and suffixes
// ---------------------------------------------------------------------------

pub open spec fn spec_starts_with(s: Seq<char>, p: Seq<char>) -> bool {
    p.len() <= s.len() && s.take(p.len() as int) == p
}

pub open spec fn spec_ends_with(s: Seq<char>, p: Seq<char>) -> bool {
    p.len() <= s.len() && s.skip(s.len() - p.len()) == p
}

/// Does `s[at..]` start with `p`?
pub fn chars_match_at(s: &Vec<char>, at: usize, p: &Vec<char>) -> (r: bool)
    requires
        at <= s.len(),
    ensures
        r == spec_starts_with(s@.skip(at as int), p@),
{
    if p.len() > s.len() - at {
        return false;
    }
    let mut i: usize = 0;
    while i < p.len()
        invariant
            at <= s.len(),
            p.len() <= s.len() - at,
            i <= p.len(),
            forall|j: int| 0 <= j < i ==> s@[at + j] == p@[j],
        decreases p.len() - i,
    {
        if s[at + i] != p[i] {
            assert(s@.skip(at as int).take(p.len() as int)[i as int] != p@[i as int]);
            return false;
        }
        i += 1;
    }
    assert(s@.skip(at as int).take(p.len() as int) =~= p@);
    true
}

/// `str::starts_with` with a string pattern.
pub fn starts_with(s: &str, p: &str) -> (r: bool)
    ensures
        r == spec_starts_with(s@, p@),
{
    let sv = chars_of(s);
    let pv = chars_of(p);
    assert(sv@.skip(0) =~= sv@);
    chars_match_at(&sv, 0, &pv)
}

/// `str::ends_with` with a string pattern.
pub fn ends_with(s: &str, p: &str) -> (r: bool)
    ensures
        r == spec_ends_with(s@, p@),
{
    let sv = chars_of(s);
    let pv = chars_of(p);
    if pv.len() > sv.len() {
        return false;
    }
    let at = sv.len() - pv.len();
    let r = chars_match_at(&sv, at, &pv);
    assert(sv@.skip(at as int).take(pv.len() as int) =~= sv@.skip(at as int));
    r
}

// ---------------------------------------------------------------------------
// Whitespace (`char::is_whitespace`: the Unicode White_Space property)
// ---------------------------------------------------------------------------

pub open spec fn spec_is_whitespace(c: char) -> bool {
    ||| c == '\t'
    ||| c == '\n'
    ||| c == '\u{0B}'
    ||| c == '\u{0C}'
    ||| c == '\r'
    ||| c == ' '
    ||| c == '\u{85}'
    ||| c == '\u{A0}'
    ||| c == '\u{1680}'
    ||| ('\u{2000}' <= c && c <= '\u{200A}')
    ||| c == '\u{2028}'
    ||| c == '\u{2029}'
    ||| c == '\u{202F}'
    ||| c == '\u{205F}'
    ||| c == '\u{3000}'
}

pub fn is_whitespace(c: char) -> (r: bool)
    ensures
        r == spec_is_whitespace(c),
{
    c == '\t' || c == '\n' || c == '\u{0B}' || c == '\u{0C}' || c == '\r' || c == ' '
        || c == '\u{85}' || c == '\u{A0}' || c == '\u{1680}' || ('\u{2000}' <= c && c
        <= '\u{200A}') || c == '\u{2028}' || c == '\u{2029}' || c == '\u{202F}' || c
        == '\u{205F}' || c == '\u{3000}'
}

/// Index of the first non-whitespace character (or the length).
pub open spec fn lead_ws(s: Seq<char>) -> nat
    decreases s.len(),
{
    if s.len() > 0 && spec_is_whitespace(s[0]) {
        1 + lead_ws(s.drop_first())
    } else {
        0
    }
}

/// Number of trailing whitespace characters.
pub open spec fn trail_ws(s: Seq<char>) -> nat
    decreases s.len(),
{
    if s.len() > 0 && spec_is_whitespace(s.last()) {
        1 + trail_ws(s.drop_last())
    } else {
        0
    }
}

/// `str::trim_start`.
pub open spec fn spec_trim_start(s: Seq<char>) -> Seq<char> {
    s.skip(lead_ws(s) as int)
}

/// `str::trim`: leading and trailing whitespace removed.
pub open spec fn spec_trim(s: Seq<char>) -> Seq<char> {
    let t = spec_trim_start(s);
    t.take(t.len() - trail_ws(t))
}

/// Characters `s[i..]` are all whitespace iff `lead_ws(s[i..])` covers them.
proof fn lemma_lead_ws_step(s: Seq<char>, i: int)
    requires
        0 <= i < s.len(),
        spec_is_whitespace(s[i]),
    ensures
        lead_ws(s.skip(i)) == 1 + lead_ws(s.skip(i + 1)),
{
    assert(s.skip(i).drop_first() =~= s.skip(i + 1));
}

proof fn lemma_trail_ws_step(s: Seq<char>, i: int)
    requires
        0 < i <= s.len(),
        spec_is_whitespace(s[i - 1]),
    ensures
        trail_ws(s.take(i)) == 1 + trail_ws(s.take(i - 1)),
{
    assert(s.take(i).drop_last() =~= s.take(i - 1));
}

/// Bounds `[start, end)` of the trimmed part of `v`.
pub fn trim_bounds(v: &Vec<char>) -> (r: (usize, usize))
    ensures
        r.0 <= r.1 <= v.len(),
        v@.subrange(r.0 as int, r.1 as int) == spec_trim(v@),
        r.0 == lead_ws(v@),
{
    let mut i: usize = 0;
    assert(v@.skip(0) =~= v@);
    while i < v.len() && is_whitespace(v[i])
        invariant
            i <= v.len(),
            lead_ws(v@) == i + lead_ws(v@.skip(i as int)),
        decreases v.len() - i,
    {
        proof {
            lemma_lead_ws_step(v@, i as int);
        }
        i += 1;
    }
    proof {
        assert(lead_ws(v@.skip(i as int)) == 0);
    }
    let ghost t = spec_trim_start(v@);
    assert(t =~= v@.skip(i as int));
    let mut j: usize = v.len();
    assert(t.take(j - i) =~= t);
    while j > i && is_whitespace(v[j - 1])
        invariant
            i <= j <= v.len(),
            t =~= v@.skip(i as int),
            trail_ws(t) == (v.len() - j) + trail_ws(t.take(j - i)),
        decreases j,
    {
        proof {
            assert(t[j - i - 1] == v@[j - 1]);
            lemma_trail_ws_step(t, j - i);
        }
        j -= 1;
    }
    proof {
        assert(trail_ws(t.take(j - i)) == 0);
        assert(t.take(t.len() - trail_ws(t)) =~= v@.subrange(i as int, j as int));
    }
    (i, j)
}

/// `str::trim`.
pub fn trim(s: &str) -> (r: String)
    ensures
        r@ == spec_trim(s@),
{
    let v = chars_of(s);
    let (a, b) = trim_bounds(&v);
    string_from_range(&v, a, b)
}

/// `str::trim().is_empty()`: the text has only whitespace.
pub fn is_blank(s: &str) -> (r: bool)
    ensures
        r == (spec_trim(s@).len() == 0),
{
    let v = chars_of(s);
    let (a, b) = trim_bounds(&v);
    a == b
}


// ---------------------------------------------------------------------------
// Splitting and joining
// ---------------------------------------------------------------------------

/// `str::split` on one separator character: the pieces between separators,
/// empty pieces included (`n` separators give `n + 1` pieces).
pub open spec fn spec_split(s: Seq<char>, sep: char) -> Seq<Seq<char>>
    decreases s.len(),
{
    if s.len() == 0 {
        seq![Seq::<char>::empty()]
    } else {
        let p = spec_split(s.drop_last(), sep);
        if s.last() == sep {
            p.push(Seq::<char>::empty())
        } else {
            p.update(p.len() - 1, p.last().push(s.last()))
        }
    }
}

pub proof fn lemma_split_nonempty(s: Seq<char>, sep: char)
    ensures
        spec_split(s, sep).len() >= 1,
    decreases s.len(),
{
    if s.len() > 0 {
        lemma_split_nonempty(s.drop_last(), sep);
    }
}

/// No piece of a split contains the separator.
pub proof fn lemma_split_pieces_lack_sep(s: Seq<char>, sep: char)
    ensures
        forall|k: int, j: int|
            0 <= k < spec_split(s, sep).len() && 0 <= j < spec_split(s, sep)[k].len() ==> #[trigger] spec_split(s, sep)[k][j] != sep,
    decreases s.len(),
{
    if s.len() > 0 {
        lemma_split_pieces_lack_sep(s.drop_last(), sep);
        lemma_split_nonempty(s.drop_last(), sep);
        let p = spec_split(s.drop_last(), sep);
        if s.last() != sep {
            let q = p.update(p.len() - 1, p.last().push(s.last()));
            assert forall|k: int, j: int| 0 <= k < q.len() && 0 <= j < q[k].len() implies #[trigger] q[k][j] != sep by {
                if k == p.len() - 1 {
                    if j < p.last().len() {
                        assert(q[k][j] == p[k][j]);
                    }
                } else {
                    assert(q[k] == p[k]);
                }
            }
        } else {
            let q = p.push(Seq::<char>::empty());
            assert forall|k: int, j: int| 0 <= k < q.len() && 0 <= j < q[k].len() implies #[trigger] q[k][j] != sep by {
                if k < p.len() {
                    assert(q[k] == p[k]);
                }
            }
        }
    }
}

/// Two texts joined by a separator that the left parts lack are equal only
/// when the parts are.
pub proof fn lemma_sep_join_injective(x1: Seq<char>, y1: Seq<char>, x2: Seq<char>, y2: Seq<char>, sep: char)
    requires
        forall|j: int| 0 <= j < x1.len() ==> x1[j] != sep,
        forall|j: int| 0 <= j < x2.len() ==> x2[j] != sep,
        x1 + seq![sep] + y1 == x2 + seq![sep] + y2,
    ensures
        x1 == x2,
        y1 == y2,
{
    let l = x1 + seq![sep] + y1;
    let r = x2 + seq![sep] + y2;
    if x1.len() < x2.len() {
        assert(l[x1.len() as int] == sep);
        assert(r[x1.len() as int] == x2[x1.len() as int]);
    } else if x2.len() < x1.len() {
        assert(r[x2.len() as int] == sep);
        assert(l[x2.len() as int] == x1[x2.len() as int]);
    } else {
        assert forall|j: int| 0 <= j < x1.len() implies x1[j] == x2[j] by {
            assert(l[j] == r[j]);
        }
        assert(x1 =~= x2);
        assert(l.len() == r.len());
        assert(y1.len() == y2.len());
        assert forall|j: int| 0 <= j < y1.len() implies y1[j] == y2[j] by {
            assert(l[x1.len() + 1 + j] == r[x1.len() + 1 + j]);
            assert(l[x1.len() + 1 + j] == y1[j]);
            assert(r[x2.len() + 1 + j] == y2[j]);
        }
        assert(y1 =~= y2);
    }
}

/// The views of a vector of strings.
pub open spec fn views(v: Seq<String>) -> Seq<Seq<char>> {
    v.map_values(|x: String| x@)
}

/// `str::split(sep)` collected into a vector.
pub fn split_char(s: &str, sep: char) -> (r: Vec<String>)
    ensures
        views(r@) == spec_split(s@, sep),
{
    let v = chars_of(s);
    let mut parts: Vec<String> = Vec::new();
    let mut cur: Vec<char> = Vec::new();
    let mut i: usize = 0;
    assert(v@.take(0) =~= Seq::<char>::empty());
    assert(views(parts@).push(cur@) =~= spec_split(v@.take(0), sep));
    while i < v.len()
        invariant
            i <= v.len(),
            views(parts@).push(cur@) == spec_split(v@.take(i as int), sep),
        decreases v.len() - i,
    {
        let c = v[i];
        proof {
            assert(v@.take(i + 1).drop_last() =~= v@.take(i as int));
            assert(v@.take(i + 1).last() == c);
            lemma_split_nonempty(v@.take(i as int), sep);
        }
        if c == sep {
            let piece = string_from_chars(&cur);
            parts.push(piece);
            cur = Vec::new();
            assert(views(parts@).push(cur@) =~= spec_split(v@.take(i + 1), sep));
        } else {
            cur.push(c);
            assert(views(parts@).push(cur@) =~= spec_split(v@.take(i + 1), sep));
        }
        i += 1;
    }
    let last = string_from_chars(&cur);
    parts.push(last);
    assert(v@.take(v.len() as int) =~= v@);
    assert(views(parts@) =~= spec_split(v@, sep));
    parts
}

/// `parts` joined with `sep` between consecutive items (`[T]::join`).
pub open spec fn spec_join(parts: Seq<Seq<char>>, sep: Seq<char>) -> Seq<char>
    decreases parts.len(),
{
    if parts.len() == 0 {
        Seq::<char>::empty()
    } else if parts.len() == 1 {
        parts[0]
    } else {
        spec_join(parts.drop_last(), sep) + sep + parts.last()
    }
}

/// `parts.join(sep)`.
pub fn join(parts: &Vec<String>, sep: &str) -> (r: String)
    ensures
        r@ == spec_join(views(parts@), sep@),
{
    let mut r = String::new();
    let mut i: usize = 0;
    while i < parts.len()
        invariant
            i <= parts.len(),
            r@ == spec_join(views(parts@).take(i as int), sep@),
        decreases parts.len() - i,
    {
        proof {
            assert(views(parts@).take(i + 1).drop_last() =~= views(parts@).take(i as int));
        }
        if i > 0 {
            r.append(sep);
        }
        r.append(parts[i].as_str());
        proof {
            if i == 0 {
                assert(r@ =~= spec_join(views(parts@).take(1), sep@));
            }
        }
        i += 1;
    }
    assert(views(parts@).take(parts.len() as int) =~= views(parts@));
    r
}

/// State of the `split_whitespace` scan: finished words and the word in progress.
pub open spec fn ws_scan(s: Seq<char>) -> (Seq<Seq<char>>, Seq<char>)
    decreases s.len(),
{
    if s.len() == 0 {
        (Seq::<Seq<char>>::empty(), Seq::<char>::empty())
    } else {
        let (w, c) = ws_scan(s.drop_last());
        if spec_is_whitespace(s.last()) {
            if c.len() > 0 {
                (w.push(c), Seq::<char>::empty())
            } else {
                (w, Seq::<char>::empty())
            }
        } else {
            (w, c.push(s.last()))
        }
    }
}

/// `str::split_whitespace`: the maximal runs of non-whitespace characters.
pub open spec fn spec_split_whitespace(s: Seq<char>) -> Seq<Seq<char>> {
    let (w, c) = ws_scan(s);
    if c.len() > 0 {
        w.push(c)
    } else {
        w
    }
}

/// The words of `split_whitespace` are non-empty and hold no whitespace.
pub proof fn lemma_split_whitespace_words(s: Seq<char>)
    ensures
        forall|k: int|
            0 <= k < spec_split_whitespace(s).len() ==> {
                &&& (#[trigger] spec_split_whitespace(s)[k]).len() > 0
                &&& forall|j: int|
                    0 <= j < spec_split_whitespace(s)[k].len() ==> !spec_is_whitespace(
                        spec_split_whitespace(s)[k][j],
                    )
            },
{
    lemma_ws_scan_words(s);
    let (w, c) = ws_scan(s);
    if c.len() > 0 {
        assert forall|k: int| 0 <= k < w.push(c).len() implies {
            &&& (#[trigger] w.push(c)[k]).len() > 0
            &&& forall|j: int| 0 <= j < w.push(c)[k].len() ==> !spec_is_whitespace(w.push(c)[k][j])
        } by {
            if k < w.len() {
                assert(w.push(c)[k] == w[k]);
            } else {
                assert(w.push(c)[k] == c);
            }
        }
    }
}

proof fn lemma_ws_scan_words(s: Seq<char>)
    ensures
        forall|k: int|
            0 <= k < ws_scan(s).0.len() ==> {
                &&& (#[trigger] ws_scan(s).0[k]).len() > 0
                &&& forall|j: int|
                    0 <= j < ws_scan(s).0[k].len() ==> !spec_is_whitespace(ws_scan(s).0[k][j])
            },
        forall|j: int| 0 <= j < ws_scan(s).1.len() ==> !spec_is_whitespace(ws_scan(s).1[j]),
    decreases s.len(),
{
    if s.len() > 0 {
        lemma_ws_scan_words(s.drop_last());
        let (w, c) = ws_scan(s.drop_last());
        let ch = s.last();
        if spec_is_whitespace(ch) {
            if c.len() > 0 {
                assert forall|k: int| 0 <= k < w.push(c).len() implies {
                    &&& (#[trigger] w.push(c)[k]).len() > 0
                    &&& forall|j: int|
                        0 <= j < w.push(c)[k].len() ==> !spec_is_whitespace(w.push(c)[k][j])
                } by {
                    if k < w.len() {
                        assert(w.push(c)[k] == w[k]);
                    } else {
                        assert(w.push(c)[k] == c);
                    }
                }
            }
        } else {
            assert forall|j: int| 0 <= j < c.push(ch).len() implies !spec_is_whitespace(
                c.push(ch)[j],
            ) by {
                if j < c.len() {
                    assert(c.push(ch)[j] == c[j]);
                }
            }
        }
    }
}

/// Clones of the strings of `v` added at the end of `out`.
pub fn push_all_cloned(out: &mut Vec<String>, v: &Vec<String>)
    ensures
        views(final(out)@) == views(old(out)@) + views(v@),
{
    let mut i: usize = 0;
    while i < v.len()
        invariant
            i <= v.len(),
            views(out@) == views(old(out)@) + views(v@.take(i as int)),
        decreases v.len() - i,
    {
        let ghost prev = out@;
        let c = v[i].clone();
        out.push(c);
        proof {
            assert(out@ =~= prev.push(v@[i as int]));
            assert(views(out@) =~= views(prev).push(v@[i as int]@));
            assert(views(v@.take(i + 1)) =~= views(v@.take(i as int)).push(v@[i as int]@));
        }
        i += 1;
        assert(views(out@) =~= views(old(out)@) + views(v@.take(i as int)));
    }
    assert(v@.take(v.len() as int) =~= v@);
}

/// `str::split_whitespace` collected into a vector.
pub fn split_whitespace(s: &str) -> (r: Vec<String>)
    ensures
        views(r@) == spec_split_whitespace(s@),
{
    let v = chars_of(s);
    let mut words: Vec<String> = Vec::new();
    let mut cur: Vec<char> = Vec::new();
    let mut i: usize = 0;
    assert(v@.take(0) =~= Seq::<char>::empty());
    while i < v.len()
        invariant
            i <= v.len(),
            (views(words@), cur@) == ws_scan(v@.take(i as int)),
        decreases v.len() - i,
    {
        let c = v[i];
        proof {
            assert(v@.take(i + 1).drop_last() =~= v@.take(i as int));
            assert(v@.take(i + 1).last() == c);
        }
        if is_whitespace(c) {
            if cur.len() > 0 {
                let word = string_from_chars(&cur);
                words.push(word);
                assert(views(words@) =~= ws_scan(v@.take(i + 1)).0);
            }
            cur = Vec::new();
            assert(cur@ =~= ws_scan(v@.take(i + 1)).1);
        } else {
            cur.push(c);
        }
        i += 1;
    }
    assert(v@.take(v.len() as int) =~= v@);
    if cur.len() > 0 {
        let word = string_from_chars(&cur);
        words.push(word);
        assert(views(words@) =~= spec_split_whitespace(v@));
    }
    words
}

// ---------------------------------------------------------------------------
// Replacing
// ---------------------------------------------------------------------------

/// `str::replace` with a non-empty pattern: occurrences are found left to
/// right without overlap and each one is replaced by `with`.
pub open spec fn spec_replace(s: Seq<char>, pat: Seq<char>, with: Seq<char>) -> Seq<char>
    recommends
        pat.len() > 0,
    decreases s.len(),
{
    if s.len() == 0 {
        Seq::<char>::empty()
    } else if pat.len() > 0 && spec_starts_with(s, pat) {
        with + spec_replace(s.skip(pat.len() as int), pat, with)
    } else {
        seq![s[0]] + spec_replace(s.drop_first(), pat, with)
    }
}

/// A text with no occurrence of the pattern is left as it is.
pub proof fn lemma_replace_absent(s: Seq<char>, pat: Seq<char>, with: Seq<char>)
    requires
        pat.len() > 0,
        forall|i: int| 0 <= i <= s.len() ==> !spec_starts_with(#[trigger] s.skip(i), pat),
    ensures
        spec_replace(s, pat, with) == s,
    decreases s.len(),
{
    if s.len() > 0 {
        assert(s.skip(0) =~= s);
        assert forall|i: int| 0 <= i <= s.drop_first().len() implies !spec_starts_with(
            #[trigger] s.drop_first().skip(i),
            pat,
        ) by {
            assert(s.drop_first().skip(i) =~= s.skip(i + 1));
        }
        lemma_replace_absent(s.drop_first(), pat, with);
        assert(seq![s[0]] + s.drop_first() =~= s);
    }
}

/// `s.replace(pat, with)` for a non-empty pattern.
pub fn replace_all(s: &str, pat: &str, with: &str) -> (r: String)
    requires
        pat@.len() > 0,
    ensures
        r@ == spec_replace(s@, pat@, with@),
{
    let v = chars_of(s);
    let p = chars_of(pat);
    let mut out = String::new();
    let mut i: usize = 0;
    assert(v@.skip(0) =~= v@);
    while i < v.len()
        invariant
            i <= v.len(),
            p@ == pat@,
            p@.len() > 0,
            spec_replace(v@, p@, with@) == out@ + spec_replace(v@.skip(i as int), p@, with@),
        decreases v.len() - i,
    {
        if chars_match_at(&v, i, &p) {
            out.append(with);
            proof {
                assert(v@.skip(i as int).skip(p.len() as int) =~= v@.skip(i + p.len()));
            }
            i = i + p.len();
        } else {
            push_char(&mut out, v[i]);
            proof {
                assert(v@.skip(i as int).drop_first() =~= v@.skip(i + 1));
                assert(v@.skip(i as int)[0] == v@[i as int]);
            }
            i = i + 1;
        }
    }
    assert(v@.skip(i as int) =~= Seq::<char>::empty());
    assert(out@ + Seq::<char>::empty() =~= out@);
    out
}

/// Every occurrence of one character replaced by another (`str::replace` with chars).
pub open spec fn spec_replace_char(s: Seq<char>, from: char, to: char) -> Seq<char> {
    s.map_values(|c: char|
        if c == from {
            to
        } else {
            c
        })
}

pub fn replace_char(s: &str, from: char, to: char) -> (r: String)
    ensures
        r@ == spec_replace_char(s@, from, to),
{
    let v = chars_of(s);
    let mut out = String::new();
    let mut i: usize = 0;
    while i < v.len()
        invariant
            i <= v.len(),
            out@ == spec_replace_char(v@.take(i as int), from, to),
        decreases v.len() - i,
    {
        if v[i] == from {
            push_char(&mut out, to);
        } else {
            push_char(&mut out, v[i]);
        }
        i += 1;
        assert(out@ =~= spec_replace_char(v@.take(i as int), from, to));
    }
    assert(v@.take(v.len() as int) =~= v@);
    out
}


// ---------------------------------------------------------------------------
// Decimal numbers
// ---------------------------------------------------------------------------

/// The ASCII digit for `d` (`0 <= d <= 9`).
pub open spec fn digit_char(d: nat) -> char {
    if d == 0 {
        '0'
    } else if d == 1 {
        '1'
    } else if d == 2 {
        '2'
    } else if d == 3 {
        '3'
    } else if d == 4 {
        '4'
    } else if d == 5 {
        '5'
    } else if d == 6 {
        '6'
    } else if d == 7 {
        '7'
    } else if d == 8 {
        '8'
    } else {
        '9'
    }
}

/// Decimal notation of `n`, as `u64`'s `Display` writes it.
pub open spec fn spec_decimal(n: nat) -> Seq<char>
    decreases n,
{
    if n < 10 {
        seq![digit_char(n)]
    } else {
        spec_decimal(n / 10).push(digit_char(n % 10))
    }
}

fn digit(d: u64) -> (c: char)
    requires
        d < 10,
    ensures
        c == digit_char(d as nat),
{
    if d == 0 {
        '0'
    } else if d == 1 {
        '1'
    } else if d == 2 {
        '2'
    } else if d == 3 {
        '3'
    } else if d == 4 {
        '4'
    } else if d == 5 {
        '5'
    } else if d == 6 {
        '6'
    } else if d == 7 {
        '7'
    } else if d == 8 {
        '8'
    } else {
        '9'
    }
}

/// `n.to_string()` for an unsigned number.
pub fn decimal(n: u64) -> (s: String)
    ensures
        s@ == spec_decimal(n as nat),
    decreases n,
{
    if n < 10 {
        let mut s = String::new();
        push_char(&mut s, digit(n));
        assert(s@ =~= seq![digit_char(n as nat)]);
        s
    } else {
        let mut s = decimal(n / 10);
        push_char(&mut s, digit(n % 10));
        s
    }
}

/// Decimal notation of a signed number, as `i32`'s `Display` writes it.
pub open spec fn spec_decimal_signed(n: int) -> Seq<char> {
    if n < 0 {
        seq!['-'] + spec_decimal((-n) as nat)
    } else {
        spec_decimal(n as nat)
    }
}

/// `n.to_string()` for an `i32`.
pub fn decimal_i32(n: i32) -> (s: String)
    ensures
        s@ == spec_decimal_signed(n as int),
{
    if n < 0 {
        let m: i64 = -(n as i64);
        let d = decimal(m as u64);
        let mut s = String::new();
        push_char(&mut s, '-');
        s.append(d.as_str());
        assert(s@ =~= seq!['-'] + spec_decimal((-(n as int)) as nat));
        s
    } else {
        decimal(n as u64)
    }
}

pub open spec fn is_digit(c: char) -> bool {
    '0' <= c && c <= '9'
}

pub open spec fn digit_value(c: char) -> nat {
    ((c as u32) - ('0' as u32)) as nat
}

/// Value of a run of decimal digits.
pub open spec fn digits_value(d: Seq<char>) -> nat
    decreases d.len(),
{
    if d.len() == 0 {
        0
    } else {
        digits_value(d.drop_last()) * 10 + digit_value(d.last())
    }
}

/// The text of a number without its optional leading `+`.
pub open spec fn unsigned_digits(s: Seq<char>) -> Seq<char> {
    if s.len() > 0 && s[0] == '+' {
        s.drop_first()
    } else {
        s
    }
}

pub open spec fn all_digits(d: Seq<char>) -> bool {
    forall|i: int| 0 <= i < d.len() ==> is_digit(#[trigger] d[i])
}

/// `u32::from_str`: an optional `+`, then one or more ASCII digits whose value fits.
pub open spec fn spec_parse_u32(s: Seq<char>) -> Option<u32> {
    let d = unsigned_digits(s);
    if d.len() > 0 && all_digits(d) && digits_value(d) <= u32::MAX {
        Some(digits_value(d) as u32)
    } else {
        None
    }
}

proof fn lemma_digits_value_prefix(d: Seq<char>, i: int)
    requires
        0 <= i <= d.len(),
    ensures
        digits_value(d.take(i)) <= digits_value(d),
    decreases d.len(),
{
    if i < d.len() {
        lemma_digits_value_prefix(d.drop_last(), i);
        assert(d.drop_last().take(i) =~= d.take(i));
    } else {
        assert(d.take(i) =~= d);
    }
}

/// `s.parse::<u32>().ok()`.
pub fn parse_u32(s: &str) -> (r: Option<u32>)
    ensures
        r == spec_parse_u32(s@),
{
    let v = chars_of(s);
    let start: usize = if v.len() > 0 && v[0] == '+' {
        1
    } else {
        0
    };
    let ghost d = unsigned_digits(v@);
    assert(d =~= v@.skip(start as int));
    if start == v.len() {
        return None;
    }
    let mut acc: u64 = 0;
    let mut i: usize = start;
    assert(d.take(0) =~= Seq::<char>::empty());
    while i < v.len()
        invariant
            v@ == s@,
            d == unsigned_digits(s@),
            start <= i <= v.len(),
            d =~= v@.skip(start as int),
            acc == digits_value(d.take(i - start)),
            acc <= u32::MAX,
            forall|j: int| 0 <= j < i - start ==> is_digit(#[trigger] d[j]),
        decreases v.len() - i,
    {
        let c = v[i];
        assert(d[i - start] == c);
        if !('0' <= c && c <= '9') {
            assert(!is_digit(d[i - start]));
            return None;
        }
        let dv = (c as u32 - '0' as u32) as u64;
        proof {
            assert(d.take(i - start + 1).drop_last() =~= d.take(i - start));
            assert(d.take(i - start + 1).last() == c);
        }
        acc = acc * 10 + dv;
        i += 1;
        if acc > 0xFFFF_FFFF {
            proof {
                lemma_digits_value_prefix(d, i - start);
                assert(digits_value(d) > u32::MAX);
            }
            return None;
        }
    }
    assert(d.take(i - start) =~= d);
    Some(acc as u32)
}

// ---------------------------------------------------------------------------
// ASCII case and hexadecimal
// ---------------------------------------------------------------------------

/// Code point of `c` after `char::to_ascii_lowercase`.
pub open spec fn ascii_lower_code(c: char) -> u32 {
    if 'A' <= c && c <= 'Z' {
        ((c as u32) + 32) as u32
    } else {
        c as u32
    }
}

/// `str::eq_ignore_ascii_case`.
pub open spec fn spec_eq_ignore_ascii_case(a: Seq<char>, b: Seq<char>) -> bool {
    a.len() == b.len() && forall|i: int|
        0 <= i < a.len() ==> ascii_lower_code(#[trigger] a[i]) == ascii_lower_code(b[i])
}

fn lower_code(c: char) -> (r: u32)
    ensures
        r == ascii_lower_code(c),
{
    if 'A' <= c && c <= 'Z' {
        c as u32 + 32
    } else {
        c as u32
    }
}

pub fn eq_ignore_ascii_case(a: &str, b: &str) -> (r: bool)
    ensures
        r == spec_eq_ignore_ascii_case(a@, b@),
{
    let x = chars_of(a);
    let y = chars_of(b);
    if x.len() != y.len() {
        return false;
    }
    let mut i: usize = 0;
    while i < x.len()
        invariant
            x@ == a@,
            y@ == b@,
            x.len() == y.len(),
            i <= x.len(),
            forall|j: int| 0 <= j < i ==> ascii_lower_code(#[trigger] x@[j]) == ascii_lower_code(y@[j]),
        decreases x.len() - i,
    {
        if lower_code(x[i]) != lower_code(y[i]) {
            assert(ascii_lower_code(a@[i as int]) != ascii_lower_code(b@[i as int]));
            return false;
        }
        i += 1;
    }
    true
}

/// Lower-case hexadecimal digit for `n < 16`.
pub open spec fn hex_digit(n: nat) -> char {
    if n < 10 {
        digit_char(n)
    } else if n == 10 {
        'a'
    } else if n == 11 {
        'b'
    } else if n == 12 {
        'c'
    } else if n == 13 {
        'd'
    } else if n == 14 {
        'e'
    } else {
        'f'
    }
}

/// Lower-case hexadecimal form of bytes, two digits per byte, high nibble first.
pub open spec fn spec_hex_lower(b: Seq<u8>) -> Seq<char>
    decreases b.len(),
{
    if b.len() == 0 {
        Seq::<char>::empty()
    } else {
        spec_hex_lower(b.drop_last()).push(hex_digit((b.last() / 16) as nat)).push(
            hex_digit((b.last() % 16) as nat),
        )
    }
}

} // verus!

//! Character-sequence algorithms behind the intent processor: lowercasing,
//! substring search, whitespace tokenization, filler removal and joining.

use vstd::prelude::*;

verus! {

// ---------------------------------------------------------------------------
// Whitespace and lowercasing
// ---------------------------------------------------------------------------

/// The whitespace characters recognized when tokenizing a transcript.
pub open spec fn is_space(c: char) -> bool {
    c == ' ' || c == '\t' || c == '\n' || c == '\r' || c == '\x0b' || c == '\x0c'
}

/// ASCII lowercasing of a single character; all other characters are kept.
pub open spec fn lower_char(c: char) -> char {
    if 65 <= c as u32 && c as u32 <= 90 {
        ((c as u32 + 32) as char)
    } else {
        c
    }
}

/// ASCII lowercasing of a whole character sequence.
pub open spec fn lower(s: Seq<char>) -> Seq<char> {
    Seq::new(s.len(), |i: int| lower_char(s[i]))
}

/// Reads the characters of a string slice into a vector.
pub fn str_to_chars(s: &str) -> (r: Vec<char>)
    ensures
        r@ == s@,
{
    let n = s.unicode_len();
    let mut r: Vec<char> = Vec::new();
    let mut i: usize = 0;
    while i < n
        invariant
            n == s@.len(),
            i <= n,
            r@ == s@.subrange(0, i as int),
        decreases n - i,
    {
        r.push(s.get_char(i));
        assert(r@ =~= s@.subrange(0, i + 1 as int));
        i = i + 1;
    }
    assert(r@ =~= s@);
    r
}

/// Appends one character to a string.
///
/// Relies on `String::push`, which appends the given `char` to the end of
/// the string.
#[verifier::external_body]
fn push_char(s: &mut String, c: char)
    ensures
        final(s)@ == old(s)@.push(c),
{
    s.push(c);
}

/// Builds a string out of a vector of characters.
pub fn chars_to_string(v: &Vec<char>) -> (r: String)
    ensures
        r@ == v@,
{
    let mut r = String::new();
    let mut i: usize = 0;
    while i < v.len()
        invariant
            i <= v@.len(),
            r@ == v@.subrange(0, i as int),
        decreases v@.len() - i,
    {
        push_char(&mut r, v[i]);
        assert(r@ =~= v@.subrange(0, i + 1 as int));
        i = i + 1;
    }
    assert(r@ =~= v@);
    r
}

/// Lowercases a vector of characters.
pub fn to_lower(v: &Vec<char>) -> (r: Vec<char>)
    ensures
        r@ == lower(v@),
{
    let mut r: Vec<char> = Vec::new();
    let mut i: usize = 0;
    while i < v.len()
        invariant
            i <= v@.len(),
            r@ == lower(v@).subrange(0, i as int),
        decreases v@.len() - i,
    {
        let c = v[i];
        let u = c as u32;
        let lc: char = if 65 <= u && u <= 90 {
            ((u + 32) as u8) as char
        } else {
            c
        };
        assert(lc == lower_char(v@[i as int]));
        r.push(lc);
        assert(r@ =~= lower(v@).subrange(0, i + 1 as int));
        i = i + 1;
    }
    assert(r@ =~= lower(v@));
    r
}

// ---------------------------------------------------------------------------
// Substring search
// ---------------------------------------------------------------------------

/// `needle` occurs in `hay` starting at position `i`.
pub open spec fn matches_at(hay: Seq<char>, needle: Seq<char>, i: int) -> bool {
    0 <= i && i + needle.len() <= hay.len() && hay.subrange(i, i + needle.len()) == needle
}

/// `needle` occurs somewhere in `hay` (literal, not word-boundary-aware).
pub open spec fn is_substring(hay: Seq<char>, needle: Seq<char>) -> bool {
    exists|i: int| matches_at(hay, needle, i)
}

/// Compares `needle` against `hay` at position `i`.
fn check_match_at(hay: &Vec<char>, needle: &Vec<char>, i: usize) -> (r: bool)
    requires
        i + needle@.len() <= hay@.len(),
    ensures
        r == matches_at(hay@, needle@, i as int),
{
    let n = needle.len();
    let hn = hay.len();
    let mut j: usize = 0;
    while j < n
        invariant
            n == needle@.len(),
            hn == hay@.len(),
            i + n <= hn,
            j <= n,
            hay@.subrange(i as int, i + j) =~= needle@.subrange(0, j as int),
        decreases n - j,
    {
        if hay[i + j] != needle[j] {
            assert(!matches_at(hay@, needle@, i as int)) by {
                assert(hay@.subrange(i as int, i + n as int)[j as int] == hay@[i + j]);
            }
            return false;
        }
        assert(hay@.subrange(i as int, i + j + 1) =~= needle@.subrange(0, j + 1 as int));
        j = j + 1;
    }
    assert(hay@.subrange(i as int, i + n as int) =~= needle@);
    true
}

/// Substring search over character vectors.
pub fn contains_seq(hay: &Vec<char>, needle: &Vec<char>) -> (r: bool)
    ensures
        r == is_substring(hay@, needle@),
{
    let m = needle.len();
    let n = hay.len();
    if m > n {
        assert(!is_substring(hay@, needle@));
        return false;
    }
    if m == 0 {
        assert(matches_at(hay@, needle@, 0)) by {
            assert(hay@.subrange(0, 0) =~= needle@);
        }
        return true;
    }
    let mut i: usize = 0;
    let last = n - m;
    while i <= last
        invariant
            m == needle@.len(),
            n == hay@.len(),
            1 <= m <= n,
            last == n - m,
            i <= last + 1,
            forall|k: int| 0 <= k < i ==> !matches_at(hay@, needle@, k),
        decreases last + 1 - i,
    {
        if check_match_at(hay, needle, i) {
            assert(is_substring(hay@, needle@));
            return true;
        }
        i = i + 1;
    }
    assert(forall|k: int| !matches_at(hay@, needle@, k));
    false
}

/// Substring search for a literal pattern.
pub fn contains_lit(hay: &Vec<char>, lit: &str) -> (r: bool)
    ensures
        r == is_substring(hay@, lit@),
{
    let pat = str_to_chars(lit);
    contains_seq(hay, &pat)
}

/// Equality of two string slices.
pub fn str_eq(a: &str, b: &str) -> (r: bool)
    ensures
        r == (a@ == b@),
{
    let ao: String = a.to_owned();
    let bo: String = b.to_owned();
    ao.eq(&bo)
}

/// Equality of a character vector against a literal.
pub fn chars_eq_lit(w: &Vec<char>, lit: &str) -> (r: bool)
    ensures
        r == (w@ == lit@),
{
    let n = lit.unicode_len();
    if w.len() != n {
        return false;
    }
    let mut i: usize = 0;
    while i < n
        invariant
            n == lit@.len(),
            w@.len() == n,
            i <= n,
            w@.subrange(0, i as int) =~= lit@.subrange(0, i as int),
        decreases n - i,
    {
        if w[i] != lit.get_char(i) {
            assert(w@ != lit@) by {
                assert(w@[i as int] != lit@[i as int]);
            }
            return false;
        }
        assert(w@.subrange(0, i + 1 as int) =~= lit@.subrange(0, i + 1 as int));
        i = i + 1;
    }
    assert(w@ =~= w@.subrange(0, n as int));
    assert(lit@ =~= lit@.subrange(0, n as int));
    assert(w@ =~= lit@);
    true
}

// ---------------------------------------------------------------------------
// Tokenization
// ---------------------------------------------------------------------------

/// The whitespace-separated words of `s`, read left to right, with `cur`
/// the partial word already consumed.
pub open spec fn split_ws_from(s: Seq<char>, cur: Seq<char>) -> Seq<Seq<char>>
    decreases s.len(),
{
    if s.len() == 0 {
        if cur.len() == 0 {
            Seq::empty()
        } else {
            seq![cur]
        }
    } else if is_space(s[0]) {
        if cur.len() == 0 {
            split_ws_from(s.skip(1), Seq::empty())
        } else {
            seq![cur] + split_ws_from(s.skip(1), Seq::empty())
        }
    } else {
        split_ws_from(s.skip(1), cur.push(s[0]))
    }
}

/// The whitespace-separated words of `s`.
pub open spec fn split_ws(s: Seq<char>) -> Seq<Seq<char>> {
    split_ws_from(s, Seq::empty())
}

/// Whether `c` is one of the recognized whitespace characters.
pub fn is_space_char(c: char) -> (r: bool)
    ensures
        r == is_space(c),
{
    c == ' ' || c == '\t' || c == '\n' || c == '\r' || c == '\x0b' || c == '\x0c'
}

/// Splits a character vector into its whitespace-separated words.
pub fn tokenize(v: &Vec<char>) -> (r: Vec<Vec<char>>)
    ensures
        r.deep_view() == split_ws(v@),
{
    let mut out: Vec<Vec<char>> = Vec::new();
    let mut cur: Vec<char> = Vec::new();
    let mut i: usize = 0;
    proof {
        assert(v@.skip(0) =~= v@);
        assert(out.deep_view() + split_ws_from(v@.skip(0), cur@) =~= split_ws(v@));
    }
    while i < v.len()
        invariant
            i <= v@.len(),
            split_ws(v@) == out.deep_view() + split_ws_from(v@.skip(i as int), cur@),
        decreases v@.len() - i,
    {
        let c = v[i];
        let ghost tail = v@.skip(i as int);
        proof {
            assert(tail.skip(1) =~= v@.skip(i as int + 1));
            assert(tail[0] == v@[i as int]);
        }
        if is_space_char(c) {
            if cur.len() > 0 {
                let ghost out0 = out.deep_view();
                let ghost w = cur@;
                proof {
                    assert(split_ws_from(tail, w) == seq![w] + split_ws_from(
                        v@.skip(i as int + 1),
                        Seq::empty(),
                    ));
                }
                out.push(cur);
                cur = Vec::new();
                proof {
                    assert(cur@ =~= Seq::<char>::empty());
                    assert(out.deep_view() =~~= out0.push(w));
                    assert(out0.push(w) =~= out0 + seq![w]);
                    assert(out0 + (seq![w] + split_ws_from(v@.skip(i as int + 1), Seq::empty()))
                        =~= (out0 + seq![w]) + split_ws_from(v@.skip(i as int + 1), Seq::empty()));
                    assert(split_ws(v@) == out.deep_view() + split_ws_from(
                        v@.skip(i as int + 1),
                        cur@,
                    ));
                }
            } else {
                proof {
                    assert(cur@ =~= Seq::<char>::empty());
                    assert(split_ws_from(tail, cur@) == split_ws_from(
                        v@.skip(i as int + 1),
                        Seq::empty(),
                    ));
                    assert(split_ws(v@) == out.deep_view() + split_ws_from(
                        v@.skip(i as int + 1),
                        cur@,
                    ));
                }
            }
        } else {
            let ghost w = cur@;
            proof {
                assert(split_ws_from(tail, w) == split_ws_from(
                    v@.skip(i as int + 1),
                    w.push(v@[i as int]),
                ));
            }
            cur.push(c);
            proof {
                assert(cur@ == w.push(v@[i as int]));
                assert(split_ws(v@) == out.deep_view() + split_ws_from(v@.skip(i as int + 1), cur@));
            }
        }
        i = i + 1;
    }
    proof {
        assert(v@.skip(v@.len() as int) =~= Seq::<char>::empty());
    }
    if cur.len() > 0 {
        let ghost out0 = out.deep_view();
        let ghost w = cur@;
        out.push(cur);
        proof {
            assert(out.deep_view() =~~= out0.push(w));
            assert(out0.push(w) =~= out0 + seq![w]);
        }
    } else {
        proof {
            assert(out.deep_view() + Seq::<Seq<char>>::empty() =~= out.deep_view());
        }
    }
    out
}

// ---------------------------------------------------------------------------
// Filler removal
// ---------------------------------------------------------------------------

/// `s` with every non-overlapping occurrence of `pat` removed, scanning
/// left to right.
pub open spec fn remove_all(s: Seq<char>, pat: Seq<char>) -> Seq<char>
    decreases s.len(),
{
    if pat.len() == 0 || s.len() < pat.len() {
        s
    } else if s.subrange(0, pat.len() as int) == pat {
        remove_all(s.skip(pat.len() as int), pat)
    } else {
        seq![s[0]] + remove_all(s.skip(1), pat)
    }
}

/// Removes every occurrence of `pat` from `v`, scanning left to right.
pub fn remove_all_exec(v: &Vec<char>, pat: &Vec<char>) -> (r: Vec<char>)
    requires
        pat@.len() >= 1,
    ensures
        r@ == remove_all(v@, pat@),
{
    let m = pat.len();
    let n = v.len();
    let mut out: Vec<char> = Vec::new();
    let mut i: usize = 0;
    proof {
        assert(v@.skip(0) =~= v@);
        assert(out@ + remove_all(v@.skip(0), pat@) =~= remove_all(v@, pat@));
    }
    while i < n
        invariant
            m == pat@.len(),
            n == v@.len(),
            1 <= m,
            i <= n,
            remove_all(v@, pat@) == out@ + remove_all(v@.skip(i as int), pat@),
        decreases n - i,
    {
        if m <= n - i && check_match_at(v, pat, i) {
            proof {
                assert(v@.skip(i as int).subrange(0, m as int)
                    =~= v@.subrange(i as int, i + m as int));
                assert(v@.skip(i as int).skip(m as int) =~= v@.skip(i + m as int));
            }
            i = i + m;
        } else {
            proof {
                let tail = v@.skip(i as int);
                assert(tail[0] == v@[i as int]);
                assert(tail.skip(1) =~= v@.skip(i as int + 1));
                if m <= tail.len() && tail.subrange(0, m as int) == pat@ {
                    // the guard above would have matched
                    assert(tail.subrange(0, m as int) =~= v@.subrange(i as int, i + m as int));
                    assert(matches_at(v@, pat@, i as int));
                    assert(false);
                }
                assert(remove_all(tail, pat@) == seq![v@[i as int]] + remove_all(
                    v@.skip(i as int + 1),
                    pat@,
                ));
                assert((out@ + seq![v@[i as int]]) + remove_all(v@.skip(i as int + 1), pat@)
                    =~= out@ + (seq![v@[i as int]] + remove_all(v@.skip(i as int + 1), pat@)));
                assert(out@.push(v@[i as int]) =~= out@ + seq![v@[i as int]]);
            }
            out.push(v[i]);
            i = i + 1;
        }
    }
    proof {
        assert(v@.skip(n as int) =~= Seq::<char>::empty());
        assert(out@ + Seq::<char>::empty() =~= out@);
    }
    out
}

/// Removes every occurrence of the literal `lit` from `v`.
pub fn remove_lit(v: &Vec<char>, lit: &str) -> (r: Vec<char>)
    requires
        lit@.len() >= 1,
    ensures
        r@ == remove_all(v@, lit@),
{
    let pat = str_to_chars(lit);
    remove_all_exec(v, &pat)
}

// ---------------------------------------------------------------------------
// Joining words with single spaces
// ---------------------------------------------------------------------------

/// The words of `ws` joined with a single space between adjacent words.
pub open spec fn join_sp(ws: Seq<Seq<char>>) -> Seq<char>
    decreases ws.len(),
{
    if ws.len() == 0 {
        Seq::empty()
    } else if ws.len() == 1 {
        ws[0]
    } else {
        ws[0] + seq![' '] + join_sp(ws.skip(1))
    }
}

/// Appending one more word extends the join by a space and that word.
pub proof fn lemma_join_push(ws: Seq<Seq<char>>, w: Seq<char>)
    ensures
        join_sp(ws.push(w)) == if ws.len() == 0 {
            w
        } else {
            join_sp(ws) + seq![' '] + w
        },
    decreases ws.len(),
{
    if ws.len() == 0 {
        assert(ws.push(w)[0] == w);
    } else if ws.len() == 1 {
        assert(ws.push(w)[0] == ws[0]);
        assert(ws.push(w).skip(1) =~= seq![w]);
        assert(join_sp(seq![w]) == w);
        assert(join_sp(ws) == ws[0]);
    } else {
        assert(ws.push(w)[0] == ws[0]);
        assert(ws.push(w).skip(1) =~= ws.skip(1).push(w));
        lemma_join_push(ws.skip(1), w);
        assert(ws.skip(1).len() >= 1);
        assert(join_sp(ws.push(w)) == ws[0] + seq![' '] + (join_sp(ws.skip(1)) + seq![' '] + w));
        assert(ws[0] + seq![' '] + (join_sp(ws.skip(1)) + seq![' '] + w)
            =~= (ws[0] + seq![' '] + join_sp(ws.skip(1))) + seq![' '] + w);
    }
}

/// Removing a pattern that never occurs leaves the text unchanged.
pub proof fn lemma_remove_all_absent(s: Seq<char>, pat: Seq<char>)
    requires
        pat.len() >= 1,
        !is_substring(s, pat),
    ensures
        remove_all(s, pat) == s,
    decreases s.len(),
{
    if s.len() < pat.len() {
    } else {
        if s.subrange(0, pat.len() as int) == pat {
            assert(matches_at(s, pat, 0));
            assert(false);
        }
        assert(!is_substring(s.skip(1), pat)) by {
            if is_substring(s.skip(1), pat) {
                let i = choose|i: int| matches_at(s.skip(1), pat, i);
                assert(s.subrange(i + 1, i + 1 + pat.len()) =~= s.skip(1).subrange(
                    i,
                    i + pat.len(),
                ));
                assert(matches_at(s, pat, i + 1));
            }
        }
        lemma_remove_all_absent(s.skip(1), pat);
        assert(seq![s[0]] + s.skip(1) =~= s);
    }
}

/// Whitespace-canonical text: the only whitespace is single interior
/// spaces — no leading or trailing space, no run of two spaces, and no
/// whitespace character other than a plain space.
pub open spec fn ws_canonical(s: Seq<char>) -> bool {
    &&& (forall|i: int| 0 <= i < s.len() && is_space(#[trigger] s[i]) ==> s[i] == ' ')
    &&& (s.len() > 0 ==> s[0] != ' ' && s[s.len() - 1] != ' ')
    &&& (forall|i: int| 0 <= i && i + 1 < s.len() ==> !(#[trigger] s[i] == ' ' && s[i + 1] == ' '))
}

/// Splitting canonical text and joining the words again restores the
/// text exactly; `cur` generalizes the statement to a partially read word.
proof fn lemma_split_join_from(s: Seq<char>, cur: Seq<char>)
    requires
        forall|i: int| 0 <= i < s.len() && is_space(#[trigger] s[i]) ==> s[i] == ' ',
        forall|i: int| 0 <= i && i + 1 < s.len() ==> !(#[trigger] s[i] == ' ' && s[i + 1] == ' '),
        s.len() > 0 ==> s[s.len() - 1] != ' ',
        forall|i: int| 0 <= i < cur.len() ==> !is_space(#[trigger] cur[i]),
        s.len() > 0 && s[0] == ' ' ==> cur.len() > 0,
    ensures
        join_sp(split_ws_from(s, cur)) == cur + s,
    decreases s.len(),
{
    let s1 = s.skip(1);
    if s.len() > 0 {
        assert(forall|i: int| 0 <= i < s1.len() ==> s1[i] == s[i + 1]);
    }
    if s.len() == 0 {
        assert(cur + s =~= cur);
        if cur.len() == 0 {
            assert(cur =~= Seq::<char>::empty());
            assert(join_sp(split_ws_from(s, cur)) == cur);
        } else {
            assert(split_ws_from(s, cur) == seq![cur]);
            assert(join_sp(seq![cur]) == cur);
        }
    } else if is_space(s[0]) {
        assert(s[0] == ' ');
        assert(cur.len() > 0);
        assert(s.len() >= 2) by {
            if s.len() == 1 {
                assert(s[s.len() - 1] == ' ');
            }
        }
        assert(!is_space(s1[0])) by {
            if is_space(s1[0]) {
                assert(s[1] == ' ');
            }
        }
        lemma_split_join_from(s1, Seq::empty());
        let rest = split_ws_from(s1, Seq::empty());
        assert(join_sp(rest) == Seq::<char>::empty() + s1);
        assert(Seq::<char>::empty() + s1 =~= s1);
        assert(rest.len() > 0) by {
            if rest.len() == 0 {
                assert(join_sp(rest) == Seq::<char>::empty());
                assert(s1.len() > 0);
            }
        }
        assert(split_ws_from(s, cur) == seq![cur] + rest);
        assert((seq![cur] + rest)[0] == cur);
        assert((seq![cur] + rest).skip(1) =~= rest);
        assert((seq![cur] + rest).len() >= 2);
        assert(join_sp(seq![cur] + rest) == cur + seq![' '] + join_sp(rest));
        assert(cur + seq![' '] + s1 =~= cur + s);
    } else {
        assert(split_ws_from(s, cur) == split_ws_from(s1, cur.push(s[0])));
        assert(forall|i: int| 0 <= i < cur.push(s[0]).len() ==> !is_space(
            #[trigger] cur.push(s[0])[i],
        ));
        lemma_split_join_from(s1, cur.push(s[0]));
        assert(cur.push(s[0]) + s1 =~= cur + s);
    }
}

/// Splitting whitespace-canonical text into words and joining them with
/// single spaces gives the text back unchanged.
pub proof fn lemma_join_split_canonical(s: Seq<char>)
    requires
        ws_canonical(s),
    ensures
        join_sp(split_ws(s)) == s,
{
    lemma_split_join_from(s, Seq::empty());
    assert(Seq::<char>::empty() + s =~= s);
}

/// Joins words with single spaces.
pub fn join_words(ws: &Vec<Vec<char>>) -> (r: Vec<char>)
    ensures
        r@ == join_sp(ws.deep_view()),
{
    let mut out: Vec<char> = Vec::new();
    let mut k: usize = 0;
    proof {
        assert(ws.deep_view().take(0) =~= Seq::<Seq<char>>::empty());
    }
    while k < ws.len()
        invariant
            k <= ws@.len(),
            ws.deep_view().len() == ws@.len(),
            out@ == join_sp(ws.deep_view().take(k as int)),
        decreases ws@.len() - k,
    {
        let ghost pre = out@;
        if k > 0 {
            out.push(' ');
        }
        let ghost mid = out@;
        let w = &ws[k];
        let wn = w.len();
        let mut j: usize = 0;
        while j < wn
            invariant
                wn == w@.len(),
                j <= wn,
                out@ == mid + w@.subrange(0, j as int),
            decreases wn - j,
        {
            out.push(w[j]);
            assert(out@ =~= mid + w@.subrange(0, j + 1 as int));
            j = j + 1;
        }
        proof {
            let dv = ws.deep_view();
            assert(dv[k as int] == ws@[k as int].deep_view());
            assert(ws@[k as int].deep_view() =~= ws@[k as int]@);
            assert(w@.subrange(0, wn as int) =~= w@);
            assert(dv.take(k + 1 as int) =~= dv.take(k as int).push(dv[k as int]));
            lemma_join_push(dv.take(k as int), dv[k as int]);
            if k == 0 {
                assert(out@ =~= dv[0]);
            } else {
                assert(dv.take(k as int).len() == k);
                assert(out@ =~= join_sp(dv.take(k as int)) + seq![' '] + dv[k as int]);
            }
        }
        k = k + 1;
    }
    proof {
        assert(ws.deep_view().take(ws@.len() as int) =~= ws.deep_view());
    }
    out
}

} // verus!

//! Character-level text algorithms: substring search, suffix trimming,
//! whitespace collapsing and trimming, and joining.
use vstd::prelude::*;

verus! {

// ---------------------------------------------------------------------------
// Conversions between `str`/`String` and vectors of characters
// ---------------------------------------------------------------------------

/// Appends one character to a string. Calls `String::push`, which by its
/// documentation appends the given char to the end of the string.
#[verifier::external_body]
fn push_char(s: &mut String, c: char)
    ensures
        final(s)@ == old(s)@.push(c),
{
    s.push(c);
}

/// The characters of `s`, in order.
pub fn chars_of(s: &str) -> (r: Vec<char>)
    ensures
        r@ == s@,
{
    let mut r: Vec<char> = Vec::new();
    for c in it: s.chars()
        invariant
            r@ == it.seq().take(it.index() as int),
    {
        r.push(c);
    }
    r
}

/// The string whose characters are `v`.
pub fn string_of(v: &Vec<char>) -> (r: String)
    ensures
        r@ == v@,
{
    let mut r = String::new();
    let mut i: usize = 0;
    while i < v.len()
        invariant
            i <= v.len(),
            r@ == v@.take(i as int),
        decreases v.len() - i,
    {
        push_char(&mut r, v[i]);
        i = i + 1;
        assert(v@.take(i as int) =~= v@.take((i - 1) as int).push(v@[i - 1]));
    }
    assert(v@.take(v.len() as int) =~= v@);
    r
}

// ---------------------------------------------------------------------------
// Whitespace
// ---------------------------------------------------------------------------

/// The characters with the Unicode `White_Space` property, which is what
/// `char::is_whitespace` (and so `str::split_whitespace` and `str::trim`) test.
pub open spec fn is_white_space(c: char) -> bool {
    let u = c as u32;
    ||| 0x9 <= u <= 0xd
    ||| u == 0x20
    ||| u == 0x85
    ||| u == 0xa0
    ||| u == 0x1680
    ||| 0x2000 <= u <= 0x200a
    ||| u == 0x2028
    ||| u == 0x2029
    ||| u == 0x202f
    ||| u == 0x205f
    ||| u == 0x3000
}

/// Whether `c` is a Unicode whitespace character.
pub fn is_white_space_char(c: char) -> (b: bool)
    ensures
        b == is_white_space(c),
{
    let u = c as u32;
    (0x9 <= u && u <= 0xd) || u == 0x20 || u == 0x85 || u == 0xa0 || u == 0x1680 || (0x2000 <= u
        && u <= 0x200a) || u == 0x2028 || u == 0x2029 || u == 0x202f || u == 0x205f || u == 0x3000
}

/// The maximal runs of non-whitespace characters of `s`, in order
/// (what `str::split_whitespace` yields).
pub open spec fn words(s: Seq<char>) -> Seq<Seq<char>>
    decreases s.len(),
{
    if s.len() == 0 {
        seq![]
    } else {
        let w = words(s.drop_last());
        let c = s.last();
        if is_white_space(c) {
            w
        } else if s.len() >= 2 && !is_white_space(s[s.len() - 2]) {
            w.update(w.len() - 1, w.last().push(c))
        } else {
            w.push(seq![c])
        }
    }
}

/// `parts` joined with `sep` between neighbours (what `join` on a slice of
/// strings yields).
pub open spec fn join_with(parts: Seq<Seq<char>>, sep: Seq<char>) -> Seq<char>
    decreases parts.len(),
{
    if parts.len() == 0 {
        seq![]
    } else if parts.len() == 1 {
        parts[0]
    } else {
        join_with(parts.drop_last(), sep) + sep + parts.last()
    }
}

/// The single space used as separator.
pub open spec fn space() -> Seq<char> {
    seq![' ']
}

/// `s` with every run of whitespace collapsed to one space and no leading or
/// trailing whitespace: the words of `s` joined by single spaces.
pub open spec fn collapse_whitespace(s: Seq<char>) -> Seq<char> {
    join_with(words(s), space())
}

/// A word: non-empty and free of whitespace.
pub open spec fn is_word(w: Seq<char>) -> bool {
    w.len() > 0 && forall|k: int| 0 <= k < w.len() ==> !is_white_space(#[trigger] w[k])
}

/// Text in collapsed form: its only whitespace is single spaces strictly
/// between non-whitespace characters.
pub open spec fn is_collapsed(t: Seq<char>) -> bool {
    forall|i: int|
        0 <= i < t.len() && is_white_space(#[trigger] t[i]) ==> {
            &&& t[i] == ' '
            &&& 0 < i < t.len() - 1
            &&& !is_white_space(t[i - 1])
            &&& !is_white_space(t[i + 1])
        }
}

proof fn lemma_words_step(s: Seq<char>, i: int)
    requires
        0 <= i < s.len(),
    ensures
        words(s.take(i + 1)) == (if is_white_space(s[i]) {
            words(s.take(i))
        } else if i >= 1 && !is_white_space(s[i - 1]) {
            words(s.take(i)).update(
                words(s.take(i)).len() - 1,
                words(s.take(i)).last().push(s[i]),
            )
        } else {
            words(s.take(i)).push(seq![s[i]])
        }),
{
    assert(s.take(i + 1).drop_last() =~= s.take(i));
}

proof fn lemma_join_push(parts: Seq<Seq<char>>, w: Seq<char>, sep: Seq<char>)
    ensures
        join_with(parts.push(w), sep) == (if parts.len() == 0 {
            w
        } else {
            join_with(parts, sep) + sep + w
        }),
{
    assert(parts.push(w).drop_last() =~= parts);
}

proof fn lemma_join_extend_last(parts: Seq<Seq<char>>, c: char, sep: Seq<char>)
    requires
        parts.len() > 0,
    ensures
        join_with(parts.update(parts.len() - 1, parts.last().push(c)), sep) == join_with(
            parts,
            sep,
        ).push(c),
{
    let p2 = parts.update(parts.len() - 1, parts.last().push(c));
    if parts.len() == 1 {
        assert(join_with(p2, sep) == p2[0]);
    } else {
        assert(p2.drop_last() =~= parts.drop_last());
        assert(join_with(p2, sep) == join_with(parts.drop_last(), sep) + sep + parts.last().push(c));
        assert((join_with(parts.drop_last(), sep) + sep + parts.last()).push(c)
            =~= join_with(parts.drop_last(), sep) + sep + parts.last().push(c));
    }
}

/// `text` with whitespace collapsed: the whitespace-separated words of `text`
/// joined by single spaces (`split_whitespace` followed by `join(" ")`).
pub fn collapse_whitespace_str(text: &str) -> (r: String)
    ensures
        r@ == collapse_whitespace(text@),
{
    let cs = chars_of(text);
    let mut out: Vec<char> = Vec::new();
    let mut in_word = false;
    let mut any_word = false;
    let mut i: usize = 0;
    while i < cs.len()
        invariant
            i <= cs.len(),
            out@ == join_with(words(cs@.take(i as int)), space()),
            any_word == (words(cs@.take(i as int)).len() > 0),
            in_word == (i > 0 && !is_white_space(cs@[i - 1])),
            in_word ==> any_word,
        decreases cs.len() - i,
    {
        let c = cs[i];
        let ghost w = words(cs@.take(i as int));
        proof {
            lemma_words_step(cs@, i as int);
        }
        if is_white_space_char(c) {
            in_word = false;
        } else if in_word {
            proof {
                lemma_join_extend_last(w, c, space());
            }
            out.push(c);
        } else {
            proof {
                lemma_join_push(w, seq![c], space());
            }
            if any_word {
                out.push(' ');
            }
            out.push(c);
            proof {
                if w.len() > 0 {
                    assert(out@ =~= join_with(w, space()) + space() + seq![c]);
                } else {
                    assert(out@ =~= seq![c]);
                }
            }
            any_word = true;
            in_word = true;
        }
        i = i + 1;
    }
    assert(cs@.take(cs.len() as int) =~= cs@);
    string_of(&out)
}

proof fn lemma_words_are_words(s: Seq<char>)
    ensures
        forall|k: int| 0 <= k < words(s).len() ==> is_word(#[trigger] words(s)[k]),
        s.len() > 0 && !is_white_space(s.last()) ==> words(s).len() > 0,
    decreases s.len(),
{
    if s.len() > 0 {
        let p = s.drop_last();
        lemma_words_are_words(p);
        let w = words(p);
        let c = s.last();
        if is_white_space(c) {
        } else if s.len() >= 2 && !is_white_space(s[s.len() - 2]) {
            assert(p.last() == s[s.len() - 2]);
            let nw = w.last().push(c);
            assert(is_word(nw)) by {
                assert forall|k: int| 0 <= k < nw.len() implies !is_white_space(#[trigger] nw[k]) by {
                    if k < nw.len() - 1 {
                        assert(nw[k] == w.last()[k]);
                    }
                }
            }
            assert forall|k: int| 0 <= k < words(s).len() implies is_word(#[trigger] words(s)[k]) by {
                if k < w.len() - 1 {
                    assert(words(s)[k] == w[k]);
                }
            }
        } else {
            let nw = seq![c];
            assert(is_word(nw));
            assert forall|k: int| 0 <= k < words(s).len() implies is_word(#[trigger] words(s)[k]) by {
                if k < w.len() {
                    assert(words(s)[k] == w[k]);
                }
            }
        }
    }
}

proof fn lemma_join_collapsed(ws: Seq<Seq<char>>)
    requires
        forall|k: int| 0 <= k < ws.len() ==> is_word(#[trigger] ws[k]),
    ensures
        is_collapsed(join_with(ws, space())),
        ws.len() > 0 ==> {
            let t = join_with(ws, space());
            &&& t.len() > 0
            &&& !is_white_space(t[0])
            &&& !is_white_space(t.last())
        },
    decreases ws.len(),
{
    if ws.len() == 1 {
        assert(is_word(ws[0]));
    } else if ws.len() > 1 {
        let init = ws.drop_last();
        let last = ws.last();
        assert(is_word(ws[ws.len() - 1]));
        lemma_join_collapsed(init);
        let a = join_with(init, space());
        let t = join_with(ws, space());
        assert(t == a + space() + last);
        assert(t.len() == a.len() + 1 + last.len());
        assert forall|i: int| 0 <= i < t.len() && is_white_space(#[trigger] t[i]) implies {
            &&& t[i] == ' '
            &&& 0 < i < t.len() - 1
            &&& !is_white_space(t[i - 1])
            &&& !is_white_space(t[i + 1])
        } by {
            if i < a.len() {
                assert(t[i] == a[i]);
                assert(a[i] == ' ' && 0 < i < a.len() - 1 && !is_white_space(a[i - 1])
                    && !is_white_space(a[i + 1]));
                assert(t[i - 1] == a[i - 1]);
                assert(t[i + 1] == a[i + 1]);
            } else if i == a.len() {
                assert(t[i - 1] == a[a.len() - 1]);
                assert(t[i + 1] == last[0]);
            } else {
                assert(t[i] == last[i - a.len() - 1]);
            }
        }
        assert(t[0] == a[0]);
        assert(t.last() == last[last.len() - 1]);
    }
}

proof fn lemma_words_append_word(x: Seq<char>, w: Seq<char>)
    requires
        x.len() == 0 || is_white_space(x.last()),
        is_word(w),
    ensures
        words(x + w) == words(x).push(w),
    decreases w.len(),
{
    let s = x + w;
    if w.len() == 1 {
        assert(s.drop_last() =~= x);
        assert(s.last() == w[0]);
        assert(seq![w[0]] =~= w);
        if s.len() >= 2 {
            assert(s[s.len() - 2] == x.last());
        }
    } else {
        let wi = w.drop_last();
        assert(is_word(wi)) by {
            assert forall|k: int| 0 <= k < wi.len() implies !is_white_space(#[trigger] wi[k]) by {
                assert(wi[k] == w[k]);
            }
        }
        lemma_words_append_word(x, wi);
        assert(s.drop_last() =~= x + wi);
        assert(s.last() == w[w.len() - 1]);
        assert(s[s.len() - 2] == w[w.len() - 2]);
        let ww = words(x + wi);
        assert(ww.update(ww.len() - 1, ww.last().push(w.last())) =~= words(x).push(w)) by {
            assert(wi.push(w.last()) =~= w);
        }
    }
}

proof fn lemma_words_of_join(ws: Seq<Seq<char>>)
    requires
        forall|k: int| 0 <= k < ws.len() ==> is_word(#[trigger] ws[k]),
    ensures
        words(join_with(ws, space())) == ws,
    decreases ws.len(),
{
    if ws.len() == 0 {
        assert(words(seq![]) =~= ws);
    } else if ws.len() == 1 {
        assert(is_word(ws[0]));
        lemma_words_append_word(seq![], ws[0]);
        assert(Seq::<char>::empty() + ws[0] =~= ws[0]);
        assert(Seq::<Seq<char>>::empty().push(ws[0]) =~= ws);
    } else {
        let init = ws.drop_last();
        assert(is_word(ws[ws.len() - 1]));
        lemma_words_of_join(init);
        let a = join_with(init, space());
        let x = a + space();
        assert(x.drop_last() =~= a);
        assert(words(x) == words(a));
        lemma_words_append_word(x, ws.last());
        assert(init.push(ws.last()) =~= ws);
    }
}

/// Law: collapsing whitespace leaves exactly the words of the text.
pub proof fn law_collapse_keeps_words(s: Seq<char>)
    ensures
        words(collapse_whitespace(s)) == words(s),
{
    lemma_words_are_words(s);
    lemma_words_of_join(words(s));
}

/// Law: collapsed text has no whitespace but single spaces between
/// non-whitespace characters (none leading, none trailing).
pub proof fn law_collapse_is_collapsed(s: Seq<char>)
    ensures
        is_collapsed(collapse_whitespace(s)),
{
    lemma_words_are_words(s);
    lemma_join_collapsed(words(s));
}

/// Law: collapsing whitespace twice is the same as collapsing it once.
pub proof fn law_collapse_idempotent(s: Seq<char>)
    ensures
        collapse_whitespace(collapse_whitespace(s)) == collapse_whitespace(s),
{
    law_collapse_keeps_words(s);
}

// ---------------------------------------------------------------------------
// Substrings, prefixes and suffixes
// ---------------------------------------------------------------------------

/// `needle` occurs in `hay` starting at index `i`.
pub open spec fn occurs_at(hay: Seq<char>, needle: Seq<char>, i: int) -> bool {
    0 <= i && i + needle.len() <= hay.len() && hay.subrange(i, i + needle.len()) == needle
}

/// `needle` occurs somewhere in `hay` (what `str::contains` tests).
pub open spec fn contains_seq(hay: Seq<char>, needle: Seq<char>) -> bool {
    exists|i: int| occurs_at(hay, needle, i)
}

/// `s` ends with `suffix`.
pub open spec fn ends_with_seq(s: Seq<char>, suffix: Seq<char>) -> bool {
    suffix.len() <= s.len() && s.subrange(s.len() - suffix.len(), s.len() as int) == suffix
}

/// `s` starts with `prefix`.
pub open spec fn starts_with_seq(s: Seq<char>, prefix: Seq<char>) -> bool {
    prefix.len() <= s.len() && s.subrange(0, prefix.len() as int) == prefix
}

/// Whether `needle` occurs in `hay` at index `i`.
fn occurs_at_exec(hay: &Vec<char>, needle: &Vec<char>, i: usize) -> (b: bool)
    requires
        i + needle.len() <= hay.len(),
    ensures
        b == occurs_at(hay@, needle@, i as int),
{
    let mut k: usize = 0;
    while k < needle.len()
        invariant
            i + needle.len() <= hay.len(),
            k <= needle.len(),
            forall|j: int| 0 <= j < k ==> hay@[i + j] == needle@[j],
        decreases needle.len() - k,
    {
        if hay[i + k] != needle[k] {
            assert(hay@.subrange(i as int, i + needle.len())[k as int] != needle@[k as int]);
            return false;
        }
        k = k + 1;
    }
    assert(hay@.subrange(i as int, i + needle.len()) =~= needle@);
    true
}

/// Whether `needle` occurs in `hay`.
pub fn contains_chars(hay: &Vec<char>, needle: &Vec<char>) -> (b: bool)
    ensures
        b == contains_seq(hay@, needle@),
{
    if needle.len() == 0 {
        assert(hay@.subrange(0, 0) =~= needle@);
        assert(occurs_at(hay@, needle@, 0));
        return true;
    }
    if needle.len() > hay.len() {
        assert forall|i: int| !occurs_at(hay@, needle@, i) by {}
        return false;
    }
    let last = hay.len() - needle.len();
    let mut i: usize = 0;
    while i <= last
        invariant
            last + needle.len() == hay.len(),
            needle.len() > 0,
            i <= last + 1,
            forall|j: int| 0 <= j < i ==> !occurs_at(hay@, needle@, j),
        decreases last + 1 - i,
    {
        if occurs_at_exec(hay, needle, i) {
            return true;
        }
        i = i + 1;
    }
    assert forall|j: int| !occurs_at(hay@, needle@, j) by {
        if 0 <= j < i {
        }
    }
    false
}

/// Whether `needle` occurs in `hay` (`str::contains` with a string pattern).
pub fn str_contains(hay: &str, needle: &str) -> (b: bool)
    ensures
        b == contains_seq(hay@, needle@),
{
    let h = chars_of(hay);
    let n = chars_of(needle);
    contains_chars(&h, &n)
}

/// Whether `s` starts with `prefix`.
pub fn starts_with_chars(s: &Vec<char>, prefix: &Vec<char>) -> (b: bool)
    ensures
        b == starts_with_seq(s@, prefix@),
{
    if prefix.len() > s.len() {
        return false;
    }
    let b = occurs_at_exec(s, prefix, 0);
    assert(s@.subrange(0, prefix.len() as int) == s@.subrange(0int, 0 + prefix.len()));
    b
}

/// Whether the first `end` characters of `s` end with `suffix`.
fn ends_at_with(s: &Vec<char>, end: usize, suffix: &Vec<char>) -> (b: bool)
    requires
        end <= s.len(),
    ensures
        b == ends_with_seq(s@.take(end as int), suffix@),
{
    if suffix.len() > end {
        return false;
    }
    let b = occurs_at_exec(s, suffix, end - suffix.len());
    assert(s@.take(end as int).subrange(end - suffix.len(), end as int) =~= s@.subrange(
        end - suffix.len(),
        end - suffix.len() + suffix.len(),
    ));
    b
}

/// Whether `s` ends with `suffix`.
pub fn ends_with_chars(s: &Vec<char>, suffix: &Vec<char>) -> (b: bool)
    ensures
        b == ends_with_seq(s@, suffix@),
{
    assert(s@.take(s.len() as int) =~= s@);
    ends_at_with(s, s.len(), suffix)
}

/// `s` with every trailing occurrence of `pat` removed, repeatedly
/// (what `str::trim_end_matches` does with a string pattern).
pub open spec fn trim_end_matches(s: Seq<char>, pat: Seq<char>) -> Seq<char>
    decreases s.len(),
{
    if pat.len() > 0 && ends_with_seq(s, pat) {
        trim_end_matches(s.subrange(0, s.len() - pat.len()), pat)
    } else {
        s
    }
}

/// `pat` repeated `k` times.
pub open spec fn repeat_seq(pat: Seq<char>, k: nat) -> Seq<char>
    decreases k,
{
    if k == 0 {
        seq![]
    } else {
        repeat_seq(pat, (k - 1) as nat) + pat
    }
}

/// `s` with every trailing occurrence of `pat` removed, repeatedly.
pub fn trim_end_matches_str(s: &str, pat: &str) -> (r: String)
    ensures
        r@ == trim_end_matches(s@, pat@),
{
    let cs = chars_of(s);
    let p = chars_of(pat);
    let mut end = cs.len();
    proof {
        assert(cs@.take(end as int) =~= cs@);
    }
    while p.len() > 0 && ends_at_with(&cs, end, &p)
        invariant
            end <= cs.len(),
            trim_end_matches(cs@.take(end as int), p@) == trim_end_matches(cs@, p@),
        decreases end,
    {
        assert(cs@.take(end as int).subrange(0, end - p.len()) =~= cs@.take(end - p.len()));
        end = end - p.len();
    }
    let mut out: Vec<char> = Vec::new();
    let mut i: usize = 0;
    while i < end
        invariant
            end <= cs.len(),
            i <= end,
            out@ == cs@.take(i as int),
        decreases end - i,
    {
        out.push(cs[i]);
        i = i + 1;
        assert(out@ =~= cs@.take(i as int));
    }
    string_of(&out)
}

/// Law: after `trim_end_matches` with a non-empty pattern the text no longer
/// ends with the pattern, and the text is the result followed by some number
/// of copies of the pattern.
pub proof fn law_trim_end_matches_shape(s: Seq<char>, pat: Seq<char>)
    requires
        pat.len() > 0,
    ensures
        !ends_with_seq(trim_end_matches(s, pat), pat),
        exists|k: nat| s == trim_end_matches(s, pat) + repeat_seq(pat, k),
    decreases s.len(),
{
    if ends_with_seq(s, pat) {
        let p = s.subrange(0, s.len() - pat.len());
        law_trim_end_matches_shape(p, pat);
        let k = choose|k: nat| p == trim_end_matches(p, pat) + repeat_seq(pat, k);
        assert(repeat_seq(pat, k + 1) == repeat_seq(pat, k) + pat);
        assert(s =~= p + pat);
        assert(s == trim_end_matches(s, pat) + repeat_seq(pat, k + 1));
    } else {
        assert(s =~= s + repeat_seq(pat, 0));
    }
}

/// Law: trimming a pattern from the end a second time changes nothing.
pub proof fn law_trim_end_matches_idempotent(s: Seq<char>, pat: Seq<char>)
    ensures
        trim_end_matches(trim_end_matches(s, pat), pat) == trim_end_matches(s, pat),
{
    if pat.len() > 0 {
        law_trim_end_matches_shape(s, pat);
    }
}

// ---------------------------------------------------------------------------
// Trimming whitespace and joining
// ---------------------------------------------------------------------------

/// `s` without its leading whitespace.
pub open spec fn trim_start_ws(s: Seq<char>) -> Seq<char>
    decreases s.len(),
{
    if s.len() > 0 && is_white_space(s[0]) {
        trim_start_ws(s.drop_first())
    } else {
        s
    }
}

/// `s` without its trailing whitespace.
pub open spec fn trim_end_ws(s: Seq<char>) -> Seq<char>
    decreases s.len(),
{
    if s.len() > 0 && is_white_space(s.last()) {
        trim_end_ws(s.drop_last())
    } else {
        s
    }
}

/// `s` without leading and trailing whitespace (what `str::trim` does).
pub open spec fn trim_ws(s: Seq<char>) -> Seq<char> {
    trim_end_ws(trim_start_ws(s))
}

/// `s` without leading and trailing whitespace.
pub fn trim_whitespace(s: &str) -> (r: String)
    ensures
        r@ == trim_ws(s@),
{
    let cs = chars_of(s);
    let mut a: usize = 0;
    assert(cs@.subrange(0, cs.len() as int) =~= cs@);
    while a < cs.len() && is_white_space_char(cs[a])
        invariant
            a <= cs.len(),
            trim_start_ws(cs@.subrange(a as int, cs.len() as int)) == trim_start_ws(cs@),
        decreases cs.len() - a,
    {
        assert(cs@.subrange(a as int, cs.len() as int).drop_first() =~= cs@.subrange(
            a + 1,
            cs.len() as int,
        ));
        a = a + 1;
    }
    let mut b: usize = cs.len();
    while b > a && is_white_space_char(cs[b - 1])
        invariant
            a <= b <= cs.len(),
            trim_start_ws(cs@) == cs@.subrange(a as int, cs.len() as int),
            trim_end_ws(cs@.subrange(a as int, b as int)) == trim_ws(cs@),
        decreases b,
    {
        assert(cs@.subrange(a as int, b as int).drop_last() =~= cs@.subrange(a as int, b - 1));
        b = b - 1;
    }
    let mut out: Vec<char> = Vec::new();
    let mut i: usize = a;
    while i < b
        invariant
            a <= i <= b <= cs.len(),
            out@ == cs@.subrange(a as int, i as int),
        decreases b - i,
    {
        out.push(cs[i]);
        i = i + 1;
        assert(out@ =~= cs@.subrange(a as int, i as int));
    }
    string_of(&out)
}

/// Law: collapsed text is already trimmed.
pub proof fn law_trim_collapsed(t: Seq<char>)
    requires
        is_collapsed(t),
    ensures
        trim_ws(t) == t,
{
    if t.len() > 0 {
        assert(!is_white_space(t[0])) by {
            if is_white_space(t[0]) {
                assert(0 < 0);
            }
        }
        assert(!is_white_space(t.last())) by {
            if is_white_space(t[t.len() - 1]) {
                assert(t.len() - 1 < t.len() - 1);
            }
        }
    }
}

/// Appends the characters of `s` to `out`.
fn push_str_chars(out: &mut Vec<char>, s: &str)
    ensures
        final(out)@ == old(out)@ + s@,
{
    let cs = chars_of(s);
    let mut i: usize = 0;
    while i < cs.len()
        invariant
            i <= cs.len(),
            out@ == old(out)@ + cs@.take(i as int),
        decreases cs.len() - i,
    {
        out.push(cs[i]);
        i = i + 1;
        assert(out@ =~= old(out)@ + cs@.take(i as int));
    }
    assert(cs@.take(cs.len() as int) =~= cs@);
}

/// `parts` joined with `sep` between neighbours (`join` on a slice of strings).
pub fn join_strings(parts: &Vec<String>, sep: &str) -> (r: String)
    ensures
        r@ == join_with(parts.deep_view(), sep@),
{
    let ghost dv = parts.deep_view();
    let mut out: Vec<char> = Vec::new();
    let mut i: usize = 0;
    while i < parts.len()
        invariant
            i <= parts.len(),
            dv == parts.deep_view(),
            out@ == join_with(dv.take(i as int), sep@),
        decreases parts.len() - i,
    {
        proof {
            assert(dv.take(i + 1) =~= dv.take(i as int).push(dv[i as int]));
            lemma_join_push(dv.take(i as int), dv[i as int], sep@);
        }
        if i > 0 {
            push_str_chars(&mut out, sep);
        }
        push_str_chars(&mut out, parts[i].as_str());
        proof {
            if i > 0 {
                assert(out@ =~= join_with(dv.take(i as int), sep@) + sep@ + dv[i as int]);
            } else {
                assert(out@ =~= dv[i as int]);
            }
        }
        i = i + 1;
    }
    assert(dv.take(parts.len() as int) =~= dv);
    string_of(&out)
}

/// Law: trimmed text neither starts nor ends with whitespace.
pub proof fn law_trim_ws_shape(s: Seq<char>)
    ensures
        trim_ws(s).len() > 0 ==> !is_white_space(trim_ws(s)[0]) && !is_white_space(
            trim_ws(s).last(),
        ),
        trim_ws(trim_ws(s)) == trim_ws(s),
{
    lemma_trim_start_shape(s);
    lemma_trim_end_shape(trim_start_ws(s));
    let u = trim_ws(s);
    assert(trim_start_ws(u) == u);
    assert(trim_end_ws(u) == u);
}

proof fn lemma_trim_start_shape(s: Seq<char>)
    ensures
        trim_start_ws(s).len() > 0 ==> !is_white_space(trim_start_ws(s)[0]),
        trim_start_ws(s).len() <= s.len(),
        trim_start_ws(s) == s.subrange(s.len() - trim_start_ws(s).len(), s.len() as int),
    decreases s.len(),
{
    if s.len() > 0 && is_white_space(s[0]) {
        lemma_trim_start_shape(s.drop_first());
        let t = trim_start_ws(s.drop_first());
        assert(s.drop_first().subrange(s.len() - 1 - t.len(), s.len() - 1) =~= s.subrange(
            s.len() - t.len(),
            s.len() as int,
        ));
    } else {
        assert(s.subrange(0, s.len() as int) =~= s);
    }
}

proof fn lemma_trim_end_shape(s: Seq<char>)
    requires
        s.len() > 0 ==> !is_white_space(s[0]),
    ensures
        trim_end_ws(s).len() > 0 ==> !is_white_space(trim_end_ws(s)[0]) && !is_white_space(
            trim_end_ws(s).last(),
        ),
        trim_end_ws(s).len() <= s.len(),
        trim_end_ws(s) == s.take(trim_end_ws(s).len() as int),
    decreases s.len(),
{
    if s.len() > 0 && is_white_space(s.last()) {
        if s.len() > 1 {
            assert(s.drop_last()[0] == s[0]);
        }
        lemma_trim_end_shape(s.drop_last());
        let t = trim_end_ws(s.drop_last());
        assert(s.drop_last().take(t.len() as int) =~= s.take(t.len() as int));
    } else {
        assert(s.take(s.len() as int) =~= s);
    }
}

proof fn lemma_collapsed_prefix(t: Seq<char>, k: int)
    requires
        is_collapsed(t),
        0 < k <= t.len(),
        !is_white_space(t[k - 1]),
    ensures
        is_collapsed(t.take(k)),
{
    let p = t.take(k);
    assert forall|i: int| 0 <= i < p.len() && is_white_space(#[trigger] p[i]) implies {
        &&& p[i] == ' '
        &&& 0 < i < p.len() - 1
        &&& !is_white_space(p[i - 1])
        &&& !is_white_space(p[i + 1])
    } by {
        assert(p[i] == t[i]);
        assert(is_white_space(t[i]));
        assert(i != k - 1);
        assert(p[i - 1] == t[i - 1]);
        assert(p[i + 1] == t[i + 1]);
    }
}

/// Law: collapsed text is left as it is by collapsing whitespace.
pub proof fn law_collapse_fixes_collapsed(t: Seq<char>)
    requires
        is_collapsed(t),
    ensures
        collapse_whitespace(t) == t,
    decreases t.len(),
{
    if t.len() == 0 {
        assert(words(t) =~= Seq::<Seq<char>>::empty());
    } else {
        let n = t.len();
        let c = t.last();
        assert(!is_white_space(c)) by {
            if is_white_space(t[n - 1]) {
                assert(n - 1 < n - 1);
            }
        }
        let p = t.drop_last();
        if n == 1 {
            assert(p =~= Seq::<char>::empty());
            assert(words(p) =~= Seq::<Seq<char>>::empty());
            assert(words(t) == words(p).push(seq![c]));
            assert(words(t) =~= seq![seq![c]]);
            assert(seq![c] =~= t);
        } else if !is_white_space(t[n - 2]) {
            lemma_collapsed_prefix(t, n - 1);
            assert(t.take(n - 1) =~= p);
            law_collapse_fixes_collapsed(p);
            lemma_words_are_words(p);
            assert(p.last() == t[n - 2]);
            lemma_join_extend_last(words(p), c, space());
            assert(p.push(c) =~= t);
        } else {
            assert(t[n - 2] == ' ' && 0 < n - 2 && !is_white_space(t[n - 3]));
            let q = t.take(n - 2);
            lemma_collapsed_prefix(t, n - 2);
            law_collapse_fixes_collapsed(q);
            assert(p.drop_last() =~= q);
            assert(p.last() == t[n - 2]);
            assert(words(p) == words(q));
            assert(words(t) == words(p).push(seq![c]));
            lemma_words_are_words(q);
            assert(q.last() == t[n - 3]);
            lemma_join_push(words(q), seq![c], space());
            assert(q + space() + seq![c] =~= t);
        }
    }
}

} // verus!

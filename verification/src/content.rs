//! The text of a job page as it is stored: the link without a trailing
//! `/apply`, and the page's visible text cleaned of whitespace runs, the
//! application form's section and HTML entities.
use vstd::prelude::*;
use crate::html::{body_texts, page_body_texts};
use crate::text::{
    collapse_whitespace, collapse_whitespace_str, join_strings, join_with, space, trim_end_matches,
    trim_end_matches_str, trim_whitespace, trim_ws,
};

verus! {

/// The expression that marks the start of a page's application section; the
/// text is cut from its first match on.
pub const APPLY_SECTION_PATTERN: &'static str = r"(?i)Apply for this job.*$";

/// The expression of an HTML entity, removed from the text.
pub const ENTITY_PATTERN: &'static str = r"&[a-zA-Z]+;";

/// The phrase that starts the application section, in lower case.
pub open spec fn apply_phrase() -> Seq<char> {
    seq!['a', 'p', 'p', 'l', 'y', ' ', 'f', 'o', 'r', ' ', 't', 'h', 'i', 's', ' ', 'j', 'o', 'b']
}

/// Whether `c` matches the lower-case phrase character `p` case-insensitively,
/// under the simple case folding that the `regex` crate applies with `(?i)`:
/// an ASCII letter matches itself in either case, and `s` also matches `ſ`
/// (U+017F); every other character only matches itself.
pub open spec fn folds_to(c: char, p: char) -> bool {
    ||| c == p
    ||| ('a' <= p && p <= 'z' && (c as u32) + 32 == (p as u32))
    ||| (p == 's' && c == '\u{17f}')
}

/// The phrase occurs, case-insensitively, in `text` at index `i`.
pub open spec fn phrase_at(text: Seq<char>, i: int) -> bool {
    &&& 0 <= i
    &&& i + apply_phrase().len() <= text.len()
    &&& forall|k: int| 0 <= k < apply_phrase().len() ==> folds_to(#[trigger] text[i + k], apply_phrase()[k])
}

/// No line feed occurs in `text` from index `j` on (`.` does not match one,
/// and `$` is only the end of the text).
pub open spec fn no_line_feed_from(text: Seq<char>, j: int) -> bool {
    forall|m: int| j <= m < text.len() ==> #[trigger] text[m] != '\n'
}

/// The leftmost index, from `i` on, where `(?i)Apply for this job.*$` matches:
/// the phrase starts there and no line feed follows up to the end.
pub open spec fn section_start_from(text: Seq<char>, i: int) -> Option<int>
    decreases text.len() - i,
{
    if i < 0 || i + apply_phrase().len() > text.len() {
        None
    } else if phrase_at(text, i) && no_line_feed_from(text, i + apply_phrase().len()) {
        Some(i)
    } else {
        section_start_from(text, i + 1)
    }
}

/// `text` cut at the leftmost match of `(?i)Apply for this job.*$` (that
/// match, which runs to the end, replaced by nothing); `text` itself where
/// there is no match.
pub open spec fn apply_section_removed(text: Seq<char>) -> Seq<char> {
    match section_start_from(text, 0) {
        Some(i) => text.take(i),
        None => text,
    }
}

/// Calls `regex::Regex::new(pattern)` and `Regex::replace(text, replacement)`.
/// The contract claims what the `regex` documentation and its case-folding
/// table give for the one pattern admitted: the first (leftmost) match is
/// replaced by the empty replacement. The pattern is valid, so `unwrap` does
/// not panic.
#[verifier::external_body]
fn regex_replace(pattern: &str, text: &str, replacement: &str) -> (r: String)
    requires
        pattern@ == APPLY_SECTION_PATTERN@,
        replacement@.len() == 0,
    ensures
        r@ == apply_section_removed(text@),
{
    regex::Regex::new(pattern).unwrap().replace(text, replacement).to_string()
}

/// Law: cutting the application section leaves a prefix of the text, which
/// ends where a match starts, and only where there is none is the text kept
/// whole.
pub proof fn law_apply_section_prefix(text: Seq<char>)
    ensures
        apply_section_removed(text).len() <= text.len(),
        apply_section_removed(text) == text.take(apply_section_removed(text).len() as int),
        apply_section_removed(text).len() < text.len() ==> phrase_at(
            text,
            apply_section_removed(text).len() as int,
        ),
{
    lemma_section_start_from(text, 0);
    if section_start_from(text, 0) is None {
        assert(text.take(text.len() as int) =~= text);
    }
}

proof fn lemma_section_start_from(text: Seq<char>, i: int)
    ensures
        section_start_from(text, i) matches Some(k) ==> i <= k && k + apply_phrase().len()
            <= text.len() && phrase_at(text, k),
    decreases text.len() - i,
{
    if !(i < 0 || i + apply_phrase().len() > text.len()) {
        if !(phrase_at(text, i) && no_line_feed_from(text, i + apply_phrase().len())) {
            lemma_section_start_from(text, i + 1);
        }
    }
}

/// Whether `c` is an ASCII letter (`[a-zA-Z]`).
pub open spec fn is_ascii_letter(c: char) -> bool {
    ('a' <= c && c <= 'z') || ('A' <= c && c <= 'Z')
}

/// The number of ASCII letters in a row in `s` from index `j` on.
pub open spec fn letter_run(s: Seq<char>, j: int) -> nat
    decreases s.len() - j,
{
    if 0 <= j < s.len() && is_ascii_letter(s[j]) {
        1 + letter_run(s, j + 1)
    } else {
        0
    }
}

/// The length of the HTML entity (`&`, one or more ASCII letters, `;`) at the
/// start of `s`, or 0 where `s` does not start with one.
pub open spec fn entity_len(s: Seq<char>) -> nat {
    let n = letter_run(s, 1);
    if s.len() > 0 && s[0] == '&' && n >= 1 && 1 + n < s.len() && s[1 + n as int] == ';' {
        n + 2
    } else {
        0
    }
}

/// `s` with every HTML entity removed, scanning from the left: the matches of
/// `&[a-zA-Z]+;` that `Regex::replace_all` finds. An entity's letters are a
/// maximal run, since a letter is never `;`.
pub open spec fn strip_entities(s: Seq<char>) -> Seq<char>
    decreases s.len(),
{
    if s.len() == 0 {
        seq![]
    } else if entity_len(s) > 0 {
        strip_entities(s.skip(entity_len(s) as int))
    } else {
        seq![s[0]] + strip_entities(s.skip(1))
    }
}

/// Calls `regex::Regex::new(pattern)` and `Regex::replace_all(text,
/// replacement)`. The contract claims what the `regex` documentation gives
/// for the one pattern admitted: every leftmost, non-overlapping match is
/// replaced by the empty replacement. The pattern is valid, so `unwrap` does
/// not panic.
#[verifier::external_body]
fn regex_replace_all(pattern: &str, text: &str, replacement: &str) -> (r: String)
    requires
        pattern@ == ENTITY_PATTERN@,
        replacement@.len() == 0,
    ensures
        r@ == strip_entities(text@),
{
    regex::Regex::new(pattern).unwrap().replace_all(text, replacement).to_string()
}

/// The link as it is fetched and stored: without trailing `/apply`s.
pub open spec fn processed_link_spec(link: Seq<char>) -> Seq<char> {
    trim_end_matches(link, "/apply"@)
}

/// `link` without trailing `/apply`s.
pub fn processed_link(link: &str) -> (r: String)
    ensures
        r@ == processed_link_spec(link@),
{
    trim_end_matches_str(link, "/apply")
}

/// The text pieces of a page joined by spaces, whitespace collapsed.
pub open spec fn joined_text(texts: Seq<Seq<char>>) -> Seq<char> {
    collapse_whitespace(join_with(texts, space()))
}

/// The text pieces joined by spaces, with whitespace collapsed.
pub fn join_texts(texts: &Vec<String>) -> (r: String)
    ensures
        r@ == joined_text(texts.deep_view()),
{
    let joined = join_strings(texts, " ");
    proof {
        reveal_strlit(" ");
        assert(" "@ =~= space());
    }
    collapse_whitespace_str(joined.as_str())
}

/// Text after the application section is cut, with entities removed and,
/// where `trim` holds, leading and trailing whitespace removed.
pub open spec fn finished_text(cut: Seq<char>, trim: bool) -> Seq<char> {
    if trim {
        trim_ws(strip_entities(cut))
    } else {
        strip_entities(cut)
    }
}

/// The end of the cleaning, after the application section is cut: entities
/// removed, and the result trimmed where `trim` holds.
pub fn finish_text(cut: &str, trim: bool) -> (r: String)
    ensures
        r@ == finished_text(cut@, trim),
{
    proof {
        reveal_strlit("");
    }
    let stripped = regex_replace_all(ENTITY_PATTERN, cut, "");
    if trim {
        trim_whitespace(stripped.as_str())
    } else {
        stripped
    }
}

/// The stored content of a page: its visible text, whitespace collapsed, the
/// application section cut, entities removed, and trimmed where `trim` holds.
pub open spec fn page_content_spec(html: Seq<char>, trim: bool) -> Seq<char> {
    finished_text(apply_section_removed(joined_text(page_body_texts(html))), trim)
}

/// The stored content of a page (`trim` is the one difference between the
/// two scrapers: the first trims, the second does not).
pub fn page_content(html: &str, trim: bool) -> (r: String)
    ensures
        r@ == page_content_spec(html@, trim),
{
    let texts = body_texts(html);
    let joined = join_texts(&texts);
    proof {
        reveal_strlit("");
    }
    let cut = regex_replace(APPLY_SECTION_PATTERN, joined.as_str(), "");
    finish_text(cut.as_str(), trim)
}

/// Law: removing entities never lengthens the text, and text without `&` is
/// left as it is.
pub proof fn law_strip_entities_bounds(s: Seq<char>)
    ensures
        strip_entities(s).len() <= s.len(),
        (forall|i: int| 0 <= i < s.len() ==> s[i] != '&') ==> strip_entities(s) == s,
    decreases s.len(),
{
    if s.len() > 0 {
        if entity_len(s) > 0 {
            law_strip_entities_bounds(s.skip(entity_len(s) as int));
        } else {
            law_strip_entities_bounds(s.skip(1));
            if forall|i: int| 0 <= i < s.len() ==> s[i] != '&' {
                assert forall|i: int| 0 <= i < s.skip(1).len() implies s.skip(1)[i] != '&' by {
                    assert(s.skip(1)[i] == s[i + 1]);
                }
                assert(seq![s[0]] + s.skip(1) =~= s);
            }
        }
    }
}

/// Law: a processed link never ends with `/apply`, and processing it again
/// changes nothing.
pub proof fn law_processed_link(link: Seq<char>)
    ensures
        !crate::text::ends_with_seq(processed_link_spec(link), "/apply"@),
        processed_link_spec(processed_link_spec(link)) == processed_link_spec(link),
{
    reveal_strlit("/apply");
    crate::text::law_trim_end_matches_shape(link, "/apply"@);
    crate::text::law_trim_end_matches_idempotent(link, "/apply"@);
}

/// Law: the content the first scraper stores neither starts nor ends with
/// whitespace.
pub proof fn law_trimmed_content(html: Seq<char>)
    ensures
        page_content_spec(html, true).len() > 0 ==> !crate::text::is_white_space(
            page_content_spec(html, true)[0],
        ) && !crate::text::is_white_space(page_content_spec(html, true).last()),
{
    crate::text::law_trim_ws_shape(
        strip_entities(apply_section_removed(joined_text(page_body_texts(html)))),
    );
}

/// Law: the first scraper stores exactly the second scraper's text, trimmed.
pub proof fn law_trimmed_is_untrimmed_trimmed(html: Seq<char>)
    ensures
        page_content_spec(html, true) == trim_ws(page_content_spec(html, false)),
{
}

} // verus!

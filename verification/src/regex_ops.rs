//! Regular-expression operations of the `regex` crate, by pattern text.

use vstd::prelude::*;

verus! {

/// `Regex::new(pattern)` followed by `replace_all(text, replacement)`, where
/// `$name` groups in `replacement` are expanded; `None` when the pattern is
/// refused.
pub uninterp spec fn regex_replaced_all(
    pattern: Seq<char>,
    text: Seq<char>,
    replacement: Seq<char>,
) -> Option<Seq<char>>;

/// `Regex::new(pattern)` followed by `replace(text, NoExpand(replacement))`:
/// the leftmost match, if any, replaced by `replacement` taken literally;
/// `None` when the pattern is refused.
pub uninterp spec fn regex_replaced_first(
    pattern: Seq<char>,
    text: Seq<char>,
    replacement: Seq<char>,
) -> Option<Seq<char>>;

/// `Regex::new(pattern)` followed by `find_iter(text).count()`; `None` when
/// the pattern is refused.
pub uninterp spec fn regex_match_count(pattern: Seq<char>, text: Seq<char>) -> Option<usize>;

/// Whether `c` is one of the meta characters that `regex::escape` escapes.
pub open spec fn is_regex_meta(c: char) -> bool {
    c == '\\' || c == '.' || c == '+' || c == '*' || c == '?' || c == '(' || c == ')' || c == '|'
        || c == '[' || c == ']' || c == '{' || c == '}' || c == '^' || c == '$' || c == '#' || c
        == '&' || c == '-' || c == '~'
}

/// `regex::escape(text)`: `text` with a backslash put before each meta
/// character.
pub open spec fn regex_escaped(text: Seq<char>) -> Seq<char>
    decreases text.len(),
{
    if text.len() == 0 {
        Seq::empty()
    } else {
        let prev = regex_escaped(text.drop_last());
        let c = text.last();
        if is_regex_meta(c) {
            prev + seq!['\\', c]
        } else {
            prev.push(c)
        }
    }
}


// ----------------------------------------------------------------------
// What a match of a literal between word boundaries can be
// ----------------------------------------------------------------------

/// An ASCII character of `\w`: a digit, a letter or `_`. For ASCII text the
/// regex crate's Unicode `\w` is exactly this set.
pub open spec fn is_ascii_word(c: char) -> bool {
    ('0' <= c && c <= '9') || ('a' <= c && c <= 'z') || ('A' <= c && c <= 'Z') || c == '_'
}

/// Whether `c` is ASCII.
pub open spec fn is_ascii_char(c: char) -> bool {
    (c as int) < 128
}

/// The character at `i`, or `None` outside `s`.
pub open spec fn char_at(s: Seq<char>, i: int) -> Option<char> {
    if 0 <= i < s.len() {
        Some(s[i])
    } else {
        None
    }
}

/// Whether `c` is a word character as far as ASCII decides: outside the
/// text counts as not a word character.
pub open spec fn word_side(c: Option<char>) -> bool {
    c matches Some(x) && is_ascii_word(x)
}

/// A necessary condition for `\b` between `prev` and `next`: when both
/// sides are ASCII (or outside the text), exactly one is a word character.
pub open spec fn boundary_possible(prev: Option<char>, next: Option<char>) -> bool {
    (prev matches Some(a) ==> is_ascii_char(a)) && (next matches Some(b) ==> is_ascii_char(b))
        ==> word_side(prev) != word_side(next)
}

/// Word boundaries possible at both ends of `text[i .. i + len]`.
pub open spec fn boundaries_possible(text: Seq<char>, i: int, len: int) -> bool {
    &&& boundary_possible(char_at(text, i - 1), char_at(text, i))
    &&& boundary_possible(char_at(text, i + len - 1), char_at(text, i + len))
}

/// `t` occurs in `text` at `i` between possible word boundaries.
pub open spec fn word_occurrence(text: Seq<char>, t: Seq<char>, i: int) -> bool {
    &&& 0 <= i
    &&& i + t.len() <= text.len()
    &&& text.subrange(i, i + t.len()) == t
    &&& boundaries_possible(text, i, t.len() as int)
}

/// The ASCII lower case of a character's code.
pub open spec fn ascii_lower(c: char) -> int {
    let u = c as int;
    if 65 <= u && u <= 90 {
        u + 32
    } else {
        u
    }
}

/// `text[i ..]` agrees with `t` case-insensitively as far as ASCII decides:
/// wherever both characters are ASCII, they are equal up to ASCII case.
pub open spec fn ascii_ci_match(text: Seq<char>, t: Seq<char>, i: int) -> bool {
    &&& 0 <= i
    &&& i + t.len() <= text.len()
    &&& forall|j: int|
        0 <= j < t.len() ==> (is_ascii_char(#[trigger] text[i + j]) && is_ascii_char(t[j]))
            ==> ascii_lower(text[i + j]) == ascii_lower(t[j])
}

/// A `[[t]]` link at `i`, the name matched case-insensitively.
pub open spec fn link_occurrence(text: Seq<char>, t: Seq<char>, i: int) -> bool {
    &&& 0 <= i
    &&& i + t.len() + 4 <= text.len()
    &&& text[i] == '['
    &&& text[i + 1] == '['
    &&& ascii_ci_match(text, t, i + 2)
    &&& text[i + 2 + t.len()] == ']'
    &&& text[i + 3 + t.len()] == ']'
}

/// `t` at `i` as a whole word, matched case-insensitively.
pub open spec fn word_occurrence_ci(text: Seq<char>, t: Seq<char>, i: int) -> bool {
    &&& ascii_ci_match(text, t, i)
    &&& boundaries_possible(text, i, t.len() as int)
}

/// The pattern of the literal `t` as a whole word: `\bt\b`.
pub open spec fn word_pattern(t: Seq<char>) -> Seq<char> {
    "\\b"@ + regex_escaped(t) + "\\b"@
}

/// The pattern of a `[[t]]` link or `t` as a whole word, ignoring case.
pub open spec fn link_or_word_pattern(t: Seq<char>) -> Seq<char> {
    "(?i)\\[\\["@ + regex_escaped(t) + "]]|\\b"@ + regex_escaped(t) + "\\b"@
}

/// `s` is `text`, or `text` with one whole-word occurrence of `t` replaced
/// by `replacement`.
pub open spec fn replaced_at_word(text: Seq<char>, t: Seq<char>, replacement: Seq<char>, s: Seq<char>) -> bool {
    ||| s == text
    ||| exists|i: int|
        word_occurrence(text, t, i) && s == text.take(i) + replacement + text.skip(i + t.len())
}

/// Compiles `pattern` with `Regex::new` and calls `replace_all`.
#[verifier::external_body]
pub(crate) fn regex_replace_all(pattern: &str, text: &str, replacement: &str) -> (res: Option<
    String,
>)
    ensures
        match res {
            Some(s) => regex_replaced_all(pattern@, text@, replacement@) == Some(s@),
            None => regex_replaced_all(pattern@, text@, replacement@) is None,
        },
{
    match regex::Regex::new(pattern) {
        Ok(re) => Some(re.replace_all(text, replacement).into_owned()),
        Err(_) => None,
    }
}

/// Compiles `pattern` with `Regex::new` and calls `replace` with
/// `NoExpand(replacement)`. For a pattern `\bE\b`, `E` the escaped literal
/// `t`, the contract also claims what the regex documentation gives: the
/// text is unchanged when nothing matches, and otherwise one occurrence of
/// `t` (the match of the escaped literal) with a word boundary on each
/// side is replaced by `replacement` taken literally.
#[verifier::external_body]
pub(crate) fn regex_replace_first(pattern: &str, text: &str, replacement: &str) -> (res: Option<
    String,
>)
    ensures
        match res {
            Some(s) => regex_replaced_first(pattern@, text@, replacement@) == Some(s@),
            None => regex_replaced_first(pattern@, text@, replacement@) is None,
        },
        forall|t: Seq<char>|
            #[trigger] word_pattern(t) == pattern@ ==> (res matches Some(s) ==> replaced_at_word(
                text@,
                t,
                replacement@,
                s@,
            )),
{
    match regex::Regex::new(pattern) {
        Ok(re) => Some(re.replace(text, regex::NoExpand(replacement)).into_owned()),
        Err(_) => None,
    }
}

/// Compiles `pattern` with `Regex::new` and counts `find_iter` matches.
/// For a pattern `(?i)\[\[E]]|\bE\b`, `E` the escaped literal `t`, the
/// contract also claims that a match exists only where the text holds a
/// `[[t]]` link or `t` between word boundaries, ignoring case.
#[verifier::external_body]
pub(crate) fn regex_count_matches(pattern: &str, text: &str) -> (res: Option<usize>)
    ensures
        res == regex_match_count(pattern@, text@),
        forall|t: Seq<char>|
            #[trigger] link_or_word_pattern(t) == pattern@ ==> (res matches Some(n) && n > 0
                ==> exists|i: int| link_occurrence(text@, t, i) || word_occurrence_ci(text@, t, i)),
{
    match regex::Regex::new(pattern) {
        Ok(re) => Some(re.find_iter(text).count()),
        Err(_) => None,
    }
}

/// Calls `regex::escape`.
#[verifier::external_body]
pub(crate) fn regex_escape(text: &str) -> (res: String)
    ensures
        res@ == regex_escaped(text@),
{
    regex::escape(text)
}

} // verus!

//! Formatting of values sent to WebSocket clients.

use vstd::prelude::*;

use crate::strings::{
    char_pred, chars_of, has_prefix, lemma_trim_end_by_prefix, lemma_trim_start_by_suffix,
    lemma_trim_start_seq_suffix, push_all, string_from_chars, trim_end_by, trim_matches,
    trim_matches_char, trim_start_by, trim_start_char, trim_start_matches,
    trim_start_matches_char, trim_start_seq,
};

verus! {

/// The hex digits of a colour setting: surrounding double quotes removed,
/// then leading `0x` prefixes, then leading `#` characters.
pub open spec fn color_digits(color: Seq<char>) -> Seq<char> {
    trim_start_char(trim_start_seq(trim_matches_char(color, '"'), "0x"@), '#')
}

/// What `format_color` returns for `color`: `#` followed by its digits.
pub open spec fn formatted_color(color: Seq<char>) -> Seq<char> {
    seq!['#'] + color_digits(color)
}

/// Normalises a colour setting such as `0xFF0000`, `"#FF0000"` or
/// `"0xFF0000"` to the CSS form `#FF0000`.
pub fn format_color(color: &str) -> (res: String)
    ensures
        res@ == formatted_color(color@),
{
    let chars = chars_of(color);
    let unquoted = trim_matches(&chars, '"');
    let prefix = chars_of("0x");
    let no_hex_prefix = trim_start_matches(&unquoted, &prefix);
    let digits = trim_start_matches_char(&no_hex_prefix, '#');
    let mut out: Vec<char> = Vec::new();
    out.push('#');
    push_all(&mut out, &digits);
    string_from_chars(&out)
}

/// The digits of a colour never start with `#` and never end with a
/// double quote.
proof fn lemma_color_digits_shape(color: Seq<char>)
    ensures
        color_digits(color).len() > 0 ==> color_digits(color)[0] != '#',
        color_digits(color).len() > 0 ==> color_digits(color).last() != '"',
{
    let p = char_pred('"');
    let a = trim_start_by(color, p);
    let u = trim_end_by(a, p);
    lemma_trim_end_by_prefix(a, p);
    let v = trim_start_seq(u, "0x"@);
    lemma_trim_start_seq_suffix(u, "0x"@);
    let d = trim_start_by(v, char_pred('#'));
    lemma_trim_start_by_suffix(v, char_pred('#'));
    if d.len() > 0 {
        assert(d.last() == v.last());
        assert(v.last() == u.last());
    }
}

/// Formatting a colour that is already formatted changes nothing.
pub proof fn lemma_format_color_idempotent(color: Seq<char>)
    ensures
        formatted_color(formatted_color(color)) == formatted_color(color),
        formatted_color(color).len() > 0 && formatted_color(color)[0] == '#',
{
    let d = color_digits(color);
    let f = formatted_color(color);
    lemma_color_digits_shape(color);
    reveal_strlit("0x");
    let q = char_pred('"');
    // No quote at either end of `f`.
    assert(trim_start_by(f, q) == f);
    assert(f.last() != '"');
    assert(trim_end_by(f, q) == f);
    // `f` starts with `#`, so no `0x` prefix.
    assert(!has_prefix(f, "0x"@)) by {
        if has_prefix(f, "0x"@) {
            assert(f.subrange(0, 2)[0] == f[0]);
        }
    }
    assert(trim_start_seq(f, "0x"@) == f);
    // Removing the leading `#` of `f` leaves `d`, which has no leading `#`.
    let h = char_pred('#');
    assert(f.drop_first() =~= d);
    assert(trim_start_by(f, h) == trim_start_by(d, h));
    assert(trim_start_by(d, h) == d);
}

} // verus!

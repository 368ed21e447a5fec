//! Character-level string operations with their specifications: trimming,
//! prefix/suffix tests, substring search, replacement, joining and the
//! first line of a text. Text is handled as `Vec<char>` and converted at the
//! edges; every operation is stated over `Seq<char>`.

use vstd::prelude::*;

verus! {

// ----------------------------------------------------------------------
// Conversions between `str`/`String` and character vectors
// ----------------------------------------------------------------------

/// The characters of `s`, in order.
pub(crate) fn chars_of(s: &str) -> (v: Vec<char>)
    ensures
        v@ == s@,
{
    let mut v: Vec<char> = Vec::new();
    for c in it: s.chars()
        invariant
            it.seq() == s@,
            v@ == it.seq().take(it.index() as int),
    {
        v.push(c);
    }
    v
}

/// The string made of the characters of `v`, in order
/// (`String: FromIterator<&char>`).
#[verifier::external_body]
pub(crate) fn string_from_chars(v: &[char]) -> (s: String)
    ensures
        s@ == v@,
{
    v.iter().collect()
}

/// Appends the characters of `w` to `v`.
pub fn push_all(v: &mut Vec<char>, w: &[char])
    ensures
        final(v)@ == old(v)@ + w@,
{
    let mut i: usize = 0;
    while i < w.len()
        invariant
            i <= w.len(),
            v@ == old(v)@ + w@.subrange(0, i as int),
        decreases w.len() - i,
    {
        v.push(w[i]);
        i = i + 1;
        assert(w@.subrange(0, i as int) =~= w@.subrange(0, (i - 1) as int).push(w@[i - 1]));
    }
    assert(w@.subrange(0, w@.len() as int) =~= w@);
}

/// Whether two character sequences are equal.
pub fn chars_eq(a: &[char], b: &[char]) -> (res: bool)
    ensures
        res == (a@ == b@),
{
    if a.len() != b.len() {
        return false;
    }
    let mut i: usize = 0;
    while i < a.len()
        invariant
            a@.len() == b@.len(),
            i <= a.len(),
            forall|k: int| 0 <= k < i ==> a@[k] == b@[k],
        decreases a.len() - i,
    {
        if a[i] != b[i] {
            return false;
        }
        i = i + 1;
    }
    assert(a@ =~= b@);
    true
}

// ----------------------------------------------------------------------
// Whitespace
// ----------------------------------------------------------------------

/// Unicode `White_Space`, the property `char::is_whitespace` tests.
pub open spec fn is_ws(c: char) -> bool {
    let u = c as u32;
    (0x09 <= u && u <= 0x0D) || u == 0x20 || u == 0x85 || u == 0xA0 || u == 0x1680
        || (0x2000 <= u && u <= 0x200A) || u == 0x2028 || u == 0x2029 || u == 0x202F
        || u == 0x205F || u == 0x3000
}

/// Whether `c` is Unicode white space.
pub fn is_whitespace(c: char) -> (res: bool)
    ensures
        res == is_ws(c),
{
    let u = c as u32;
    (0x09 <= u && u <= 0x0D) || u == 0x20 || u == 0x85 || u == 0xA0 || u == 0x1680 || (0x2000
        <= u && u <= 0x200A) || u == 0x2028 || u == 0x2029 || u == 0x202F || u == 0x205F || u
        == 0x3000
}

// ----------------------------------------------------------------------
// Trimming by a character predicate
// ----------------------------------------------------------------------

/// `s` without its leading characters that satisfy `p`.
pub open spec fn trim_start_by(s: Seq<char>, p: spec_fn(char) -> bool) -> Seq<char>
    decreases s.len(),
{
    if s.len() > 0 && p(s[0]) {
        trim_start_by(s.drop_first(), p)
    } else {
        s
    }
}

/// `s` without its trailing characters that satisfy `p`.
pub open spec fn trim_end_by(s: Seq<char>, p: spec_fn(char) -> bool) -> Seq<char>
    decreases s.len(),
{
    if s.len() > 0 && p(s.last()) {
        trim_end_by(s.drop_last(), p)
    } else {
        s
    }
}

pub open spec fn ws_pred() -> spec_fn(char) -> bool {
    |c: char| is_ws(c)
}

pub open spec fn char_pred(c0: char) -> spec_fn(char) -> bool {
    |c: char| c == c0
}

/// `str::trim_start`.
pub open spec fn trim_start_ws(s: Seq<char>) -> Seq<char> {
    trim_start_by(s, ws_pred())
}

/// `str::trim_end`.
pub open spec fn trim_end_ws(s: Seq<char>) -> Seq<char> {
    trim_end_by(s, ws_pred())
}

/// `str::trim`.
pub open spec fn trim_ws(s: Seq<char>) -> Seq<char> {
    trim_end_ws(trim_start_ws(s))
}

/// `str::trim_start_matches` with a character pattern.
pub open spec fn trim_start_char(s: Seq<char>, c: char) -> Seq<char> {
    trim_start_by(s, char_pred(c))
}

/// `str::trim_matches` with a character pattern.
pub open spec fn trim_matches_char(s: Seq<char>, c: char) -> Seq<char> {
    trim_end_by(trim_start_by(s, char_pred(c)), char_pred(c))
}

/// What `trim_start_by` removes is a prefix: the result is a suffix of `s`.
pub proof fn lemma_trim_start_by_suffix(s: Seq<char>, p: spec_fn(char) -> bool)
    ensures
        trim_start_by(s, p).len() <= s.len(),
        trim_start_by(s, p) == s.subrange(s.len() - trim_start_by(s, p).len(), s.len() as int),
        trim_start_by(s, p).len() > 0 ==> !p(trim_start_by(s, p)[0]),
    decreases s.len(),
{
    if s.len() > 0 && p(s[0]) {
        lemma_trim_start_by_suffix(s.drop_first(), p);
        let t = trim_start_by(s.drop_first(), p);
        assert(s.drop_first().subrange(s.len() - 1 - t.len(), s.len() - 1) =~= s.subrange(
            s.len() - t.len(),
            s.len() as int,
        ));
    } else {
        assert(s.subrange(0, s.len() as int) =~= s);
    }
}

/// What `trim_end_by` removes is a suffix: the result is a prefix of `s`.
pub proof fn lemma_trim_end_by_prefix(s: Seq<char>, p: spec_fn(char) -> bool)
    ensures
        trim_end_by(s, p).len() <= s.len(),
        trim_end_by(s, p) == s.subrange(0, trim_end_by(s, p).len() as int),
        trim_end_by(s, p).len() > 0 ==> !p(trim_end_by(s, p).last()),
    decreases s.len(),
{
    if s.len() > 0 && p(s.last()) {
        lemma_trim_end_by_prefix(s.drop_last(), p);
        let t = trim_end_by(s.drop_last(), p);
        assert(s.drop_last().subrange(0, t.len() as int) =~= s.subrange(0, t.len() as int));
    } else {
        assert(s.subrange(0, s.len() as int) =~= s);
    }
}

/// Everything `trim_start_by` removes satisfies `p`.
pub proof fn lemma_trim_start_by_removed(s: Seq<char>, p: spec_fn(char) -> bool)
    ensures
        trim_start_by(s, p).len() <= s.len(),
        forall|j: int| 0 <= j < s.len() - trim_start_by(s, p).len() ==> p(#[trigger] s[j]),
    decreases s.len(),
{
    lemma_trim_start_by_suffix(s, p);
    if s.len() > 0 && p(s[0]) {
        lemma_trim_start_by_removed(s.drop_first(), p);
        assert forall|j: int| 0 <= j < s.len() - trim_start_by(s, p).len() implies p(#[trigger] s[j]) by {
            if j > 0 {
                assert(s[j] == s.drop_first()[j - 1]);
            }
        }
    }
}

/// Everything `trim_end_by` removes satisfies `p`.
pub proof fn lemma_trim_end_by_removed(s: Seq<char>, p: spec_fn(char) -> bool)
    ensures
        trim_end_by(s, p).len() <= s.len(),
        forall|j: int| trim_end_by(s, p).len() <= j < s.len() ==> p(#[trigger] s[j]),
    decreases s.len(),
{
    lemma_trim_end_by_prefix(s, p);
    if s.len() > 0 && p(s.last()) {
        lemma_trim_end_by_removed(s.drop_last(), p);
        assert forall|j: int| trim_end_by(s, p).len() <= j < s.len() implies p(#[trigger] s[j]) by {
            if j < s.len() - 1 {
                assert(s[j] == s.drop_last()[j]);
            }
        }
    }
}

/// `trim_start_by` removes exactly the first `a` characters when they all
/// satisfy `p` and the next one does not.
pub proof fn lemma_trim_start_by_exact(s: Seq<char>, p: spec_fn(char) -> bool, a: int)
    requires
        0 <= a <= s.len(),
        forall|j: int| 0 <= j < a ==> p(#[trigger] s[j]),
        a < s.len() ==> !p(s[a]),
    ensures
        trim_start_by(s, p) == s.skip(a),
    decreases a,
{
    if a == 0 {
        assert(s.skip(0) =~= s);
    } else {
        assert(p(s[0]));
        let d = s.drop_first();
        assert forall|j: int| 0 <= j < a - 1 implies p(#[trigger] d[j]) by {
            assert(d[j] == s[j + 1]);
        }
        if a - 1 < d.len() {
            assert(d[a - 1] == s[a]);
        }
        lemma_trim_start_by_exact(d, p, a - 1);
        assert(d.skip(a - 1) =~= s.skip(a));
    }
}

/// `trim_end_by` keeps exactly the first `b` characters when all later ones
/// satisfy `p` and the one before them does not.
pub proof fn lemma_trim_end_by_exact(s: Seq<char>, p: spec_fn(char) -> bool, b: int)
    requires
        0 <= b <= s.len(),
        forall|j: int| b <= j < s.len() ==> p(#[trigger] s[j]),
        b > 0 ==> !p(s[b - 1]),
    ensures
        trim_end_by(s, p) == s.take(b),
    decreases s.len() - b,
{
    if b == s.len() {
        assert(s.take(b) =~= s);
    } else {
        assert(p(s.last()));
        let d = s.drop_last();
        assert forall|j: int| b <= j < d.len() implies p(#[trigger] d[j]) by {
            assert(d[j] == s[j]);
        }
        if b > 0 {
            assert(d[b - 1] == s[b - 1]);
        }
        lemma_trim_end_by_exact(d, p, b);
        assert(d.take(b) =~= s.take(b));
    }
}

/// Index of the first character of `s` that is not white space (or `s.len()`).
fn leading_ws_len(s: &[char]) -> (n: usize)
    ensures
        n <= s.len(),
        trim_start_ws(s@) == s@.subrange(n as int, s@.len() as int),
{
    let mut i: usize = 0;
    assert(s@.subrange(0, s@.len() as int) =~= s@);
    while i < s.len() && is_whitespace(s[i])
        invariant
            i <= s.len(),
            trim_start_ws(s@) == trim_start_ws(s@.subrange(i as int, s@.len() as int)),
        decreases s.len() - i,
    {
        let ghost sub = s@.subrange(i as int, s@.len() as int);
        assert(sub.drop_first() =~= s@.subrange(i + 1, s@.len() as int));
        i = i + 1;
    }
    i
}

/// Length of `s` once its trailing white space is removed.
fn trailing_ws_end(s: &[char]) -> (n: usize)
    ensures
        n <= s.len(),
        trim_end_ws(s@) == s@.subrange(0, n as int),
{
    let mut j: usize = s.len();
    assert(s@.subrange(0, j as int) =~= s@);
    while j > 0 && is_whitespace(s[j - 1])
        invariant
            j <= s.len(),
            trim_end_ws(s@) == trim_end_ws(s@.subrange(0, j as int)),
        decreases j,
    {
        let ghost sub = s@.subrange(0, j as int);
        assert(sub.drop_last() =~= s@.subrange(0, j - 1));
        j = j - 1;
    }
    j
}

/// A copy of `s[from..to]`.
pub fn sub_chars(s: &[char], from: usize, to: usize) -> (res: Vec<char>)
    requires
        from <= to <= s.len(),
    ensures
        res@ == s@.subrange(from as int, to as int),
{
    let mut v: Vec<char> = Vec::new();
    let mut i: usize = from;
    while i < to
        invariant
            from <= i <= to <= s.len(),
            v@ == s@.subrange(from as int, i as int),
        decreases to - i,
    {
        v.push(s[i]);
        i = i + 1;
        assert(v@ =~= s@.subrange(from as int, i as int));
    }
    v
}

/// `s.trim_start()`.
pub fn trim_start(s: &[char]) -> (res: Vec<char>)
    ensures
        res@ == trim_start_ws(s@),
{
    let n = leading_ws_len(s);
    sub_chars(s, n, s.len())
}

/// `s.trim_end()`.
pub fn trim_end(s: &[char]) -> (res: Vec<char>)
    ensures
        res@ == trim_end_ws(s@),
{
    let n = trailing_ws_end(s);
    sub_chars(s, 0, n)
}

/// `s.trim()`.
pub fn trim(s: &[char]) -> (res: Vec<char>)
    ensures
        res@ == trim_ws(s@),
{
    let a = trim_start(s);
    trim_end(&a)
}

/// `s.trim_start_matches(c)`.
pub fn trim_start_matches_char(s: &[char], c: char) -> (res: Vec<char>)
    ensures
        res@ == trim_start_char(s@, c),
{
    let mut i: usize = 0;
    assert(s@.subrange(0, s@.len() as int) =~= s@);
    while i < s.len() && s[i] == c
        invariant
            i <= s.len(),
            trim_start_char(s@, c) == trim_start_char(s@.subrange(i as int, s@.len() as int), c),
        decreases s.len() - i,
    {
        let ghost sub = s@.subrange(i as int, s@.len() as int);
        assert(sub.drop_first() =~= s@.subrange(i + 1, s@.len() as int));
        i = i + 1;
    }
    sub_chars(s, i, s.len())
}

/// `s.trim_matches(c)`.
pub fn trim_matches(s: &[char], c: char) -> (res: Vec<char>)
    ensures
        res@ == trim_matches_char(s@, c),
{
    let a = trim_start_matches_char(s, c);
    let mut j: usize = a.len();
    assert(a@.subrange(0, j as int) =~= a@);
    while j > 0 && a[j - 1] == c
        invariant
            j <= a.len(),
            trim_matches_char(s@, c) == trim_end_by(a@.subrange(0, j as int), char_pred(c)),
        decreases j,
    {
        let ghost sub = a@.subrange(0, j as int);
        assert(sub.drop_last() =~= a@.subrange(0, j - 1));
        j = j - 1;
    }
    sub_chars(&a, 0, j)
}

// ----------------------------------------------------------------------
// Prefixes, suffixes and substrings
// ----------------------------------------------------------------------

/// `p` occurs in `s` at position `i`.
pub open spec fn occurs_at(s: Seq<char>, p: Seq<char>, i: int) -> bool {
    0 <= i && i + p.len() <= s.len() && s.subrange(i, i + p.len()) == p
}

/// `str::starts_with`.
pub open spec fn has_prefix(s: Seq<char>, p: Seq<char>) -> bool {
    occurs_at(s, p, 0)
}

/// `str::ends_with`.
pub open spec fn has_suffix(s: Seq<char>, p: Seq<char>) -> bool {
    occurs_at(s, p, s.len() - p.len())
}

/// `str::contains` with a string pattern.
pub open spec fn has_substring(s: Seq<char>, p: Seq<char>) -> bool {
    exists|i: int| occurs_at(s, p, i)
}

/// Whether `p` occurs in `s` at position `i`.
pub fn matches_at(s: &[char], p: &[char], i: usize) -> (res: bool)
    ensures
        res == occurs_at(s@, p@, i as int),
{
    if i > s.len() || p.len() > s.len() - i {
        return false;
    }
    let mut k: usize = 0;
    while k < p.len()
        invariant
            i + p.len() <= s.len(),
            k <= p.len(),
            forall|m: int| 0 <= m < k ==> s@[i + m] == p@[m],
        decreases p.len() - k,
    {
        if s[i + k] != p[k] {
            assert(s@.subrange(i as int, i + p.len())[k as int] != p@[k as int]);
            return false;
        }
        k = k + 1;
    }
    assert(s@.subrange(i as int, i + p.len()) =~= p@);
    true
}

/// `s.starts_with(p)`.
pub fn starts_with(s: &[char], p: &[char]) -> (res: bool)
    ensures
        res == has_prefix(s@, p@),
{
    matches_at(s, p, 0)
}

/// `s.ends_with(p)`.
pub fn ends_with(s: &[char], p: &[char]) -> (res: bool)
    ensures
        res == has_suffix(s@, p@),
{
    if p.len() > s.len() {
        return false;
    }
    matches_at(s, p, s.len() - p.len())
}

/// `s.contains(p)`.
pub fn contains(s: &[char], p: &[char]) -> (res: bool)
    ensures
        res == has_substring(s@, p@),
{
    if p.len() > s.len() {
        assert forall|i: int| !occurs_at(s@, p@, i) by {}
        return false;
    }
    if p.len() == 0 {
        assert(s@.subrange(0, 0) =~= p@);
        assert(occurs_at(s@, p@, 0));
        return true;
    }
    let last = s.len() - p.len();
    let mut i: usize = 0;
    while i <= last
        invariant
            last + p.len() == s.len(),
            p.len() > 0,
            i <= last + 1,
            forall|k: int| 0 <= k < i ==> !occurs_at(s@, p@, k),
        decreases last + 1 - i,
    {
        if matches_at(s, p, i) {
            return true;
        }
        i = i + 1;
    }
    assert forall|k: int| !occurs_at(s@, p@, k) by {
        if 0 <= k < i {
        }
    }
    false
}

// ----------------------------------------------------------------------
// Repeated prefix / suffix removal with a string pattern
// ----------------------------------------------------------------------

/// `str::trim_start_matches` with a string pattern.
pub open spec fn trim_start_seq(s: Seq<char>, p: Seq<char>) -> Seq<char>
    decreases s.len(),
{
    if p.len() > 0 && has_prefix(s, p) {
        trim_start_seq(s.skip(p.len() as int), p)
    } else {
        s
    }
}

/// `str::trim_end_matches` with a string pattern.
pub open spec fn trim_end_seq(s: Seq<char>, p: Seq<char>) -> Seq<char>
    decreases s.len(),
{
    if p.len() > 0 && has_suffix(s, p) {
        trim_end_seq(s.take(s.len() - p.len()), p)
    } else {
        s
    }
}

/// The result of `trim_start_seq` is a suffix of `s`.
pub proof fn lemma_trim_start_seq_suffix(s: Seq<char>, p: Seq<char>)
    ensures
        trim_start_seq(s, p).len() <= s.len(),
        trim_start_seq(s, p) == s.subrange(s.len() - trim_start_seq(s, p).len(), s.len() as int),
    decreases s.len(),
{
    if p.len() > 0 && has_prefix(s, p) {
        let r = s.skip(p.len() as int);
        lemma_trim_start_seq_suffix(r, p);
        let t = trim_start_seq(r, p);
        assert(r.subrange(r.len() - t.len(), r.len() as int) =~= s.subrange(
            s.len() - t.len(),
            s.len() as int,
        ));
    } else {
        assert(s.subrange(0, s.len() as int) =~= s);
    }
}

/// `s.trim_start_matches(p)`.
pub fn trim_start_matches(s: &[char], p: &[char]) -> (res: Vec<char>)
    ensures
        res@ == trim_start_seq(s@, p@),
{
    if p.len() == 0 {
        return sub_chars(s, 0, s.len());
    }
    let mut i: usize = 0;
    assert(s@.subrange(0, s@.len() as int) =~= s@);
    while matches_at(s, p, i)
        invariant
            i <= s.len(),
            p@.len() > 0,
            trim_start_seq(s@, p@) == trim_start_seq(s@.subrange(i as int, s@.len() as int), p@),
        decreases s.len() - i,
    {
        let ghost sub = s@.subrange(i as int, s@.len() as int);
        assert(sub.subrange(0, p@.len() as int) =~= s@.subrange(i as int, i + p@.len()));
        assert(sub.skip(p@.len() as int) =~= s@.subrange(i + p@.len(), s@.len() as int));
        i = i + p.len();
    }
    let ghost sub = s@.subrange(i as int, s@.len() as int);
    assert(!has_prefix(sub, p@)) by {
        if has_prefix(sub, p@) {
            assert(sub.subrange(0, p@.len() as int) =~= s@.subrange(i as int, i + p@.len()));
        }
    }
    sub_chars(s, i, s.len())
}

/// `s.trim_end_matches(p)`.
pub fn trim_end_matches(s: &[char], p: &[char]) -> (res: Vec<char>)
    ensures
        res@ == trim_end_seq(s@, p@),
{
    if p.len() == 0 {
        return sub_chars(s, 0, s.len());
    }
    let mut j: usize = s.len();
    assert(s@.subrange(0, j as int) =~= s@);
    while j >= p.len() && matches_at(s, p, j - p.len())
        invariant
            j <= s.len(),
            p@.len() > 0,
            trim_end_seq(s@, p@) == trim_end_seq(s@.subrange(0, j as int), p@),
        decreases j,
    {
        let ghost sub = s@.subrange(0, j as int);
        assert(sub.subrange(j - p@.len(), j as int) =~= s@.subrange(j - p@.len(), j as int));
        assert(sub.take(j - p@.len()) =~= s@.subrange(0, j - p@.len()));
        j = j - p.len();
    }
    let ghost sub = s@.subrange(0, j as int);
    assert(!has_suffix(sub, p@)) by {
        if has_suffix(sub, p@) {
            assert(sub.subrange(j - p@.len(), j as int) =~= s@.subrange(j - p@.len(), j as int));
        }
    }
    sub_chars(s, 0, j)
}

// ----------------------------------------------------------------------
// Replacement
// ----------------------------------------------------------------------

/// `str::replace` with a non-empty pattern: non-overlapping occurrences of
/// `from`, taken from left to right, are replaced by `to`.
pub open spec fn replace_seq(s: Seq<char>, from: Seq<char>, to: Seq<char>) -> Seq<char>
    recommends
        from.len() > 0,
    decreases s.len(),
{
    if s.len() == 0 || from.len() == 0 {
        s
    } else if has_prefix(s, from) {
        to + replace_seq(s.skip(from.len() as int), from, to)
    } else {
        seq![s[0]] + replace_seq(s.drop_first(), from, to)
    }
}

/// `s.replace(from, to)` for a non-empty `from`.
pub fn replace(s: &[char], from: &[char], to: &[char]) -> (res: Vec<char>)
    requires
        from@.len() > 0,
    ensures
        res@ == replace_seq(s@, from@, to@),
{
    let mut out: Vec<char> = Vec::new();
    let mut i: usize = 0;
    assert(s@.subrange(0, s@.len() as int) =~= s@);
    assert(out@ + replace_seq(s@, from@, to@) =~= replace_seq(s@, from@, to@));
    while i < s.len()
        invariant
            i <= s.len(),
            from@.len() > 0,
            replace_seq(s@, from@, to@) == out@ + replace_seq(
                s@.subrange(i as int, s@.len() as int),
                from@,
                to@,
            ),
        decreases s.len() - i,
    {
        let ghost sub = s@.subrange(i as int, s@.len() as int);
        if matches_at(s, from, i) {
            assert(sub.subrange(0, from@.len() as int) =~= s@.subrange(i as int, i + from@.len()));
            assert(sub.skip(from@.len() as int) =~= s@.subrange(i + from@.len(), s@.len() as int));
            push_all(&mut out, to);
            i = i + from.len();
            assert(replace_seq(s@, from@, to@) == out@ + replace_seq(
                s@.subrange(i as int, s@.len() as int),
                from@,
                to@,
            ));
        } else {
            assert(!has_prefix(sub, from@)) by {
                if has_prefix(sub, from@) {
                    assert(sub.subrange(0, from@.len() as int) =~= s@.subrange(
                        i as int,
                        i + from@.len(),
                    ));
                }
            }
            assert(sub.drop_first() =~= s@.subrange(i + 1, s@.len() as int));
            out.push(s[i]);
            i = i + 1;
            assert(replace_seq(s@, from@, to@) == out@ + replace_seq(
                s@.subrange(i as int, s@.len() as int),
                from@,
                to@,
            ));
        }
    }
    assert(out@ + replace_seq(s@.subrange(i as int, s@.len() as int), from@, to@) =~= out@);
    out
}

// ----------------------------------------------------------------------
// Joining
// ----------------------------------------------------------------------

/// `[String]::join(sep)`.
pub open spec fn join_seqs(parts: Seq<Seq<char>>, sep: Seq<char>) -> Seq<char>
    decreases parts.len(),
{
    if parts.len() == 0 {
        Seq::empty()
    } else if parts.len() == 1 {
        parts[0]
    } else {
        join_seqs(parts.drop_last(), sep) + sep + parts.last()
    }
}

/// The views of a vector of strings.
pub open spec fn views(v: Seq<String>) -> Seq<Seq<char>> {
    v.map_values(|s: String| s@)
}

/// `parts.join(sep)`, as characters.
pub fn join_chars(parts: &[String], sep: &[char]) -> (res: Vec<char>)
    ensures
        res@ == join_seqs(views(parts@), sep@),
{
    let mut out: Vec<char> = Vec::new();
    let mut i: usize = 0;
    while i < parts.len()
        invariant
            i <= parts.len(),
            out@ == join_seqs(views(parts@).take(i as int), sep@),
        decreases parts.len() - i,
    {
        let ghost before = views(parts@).take(i as int);
        let ghost after = views(parts@).take(i + 1);
        assert(after.drop_last() =~= before);
        if i > 0 {
            push_all(&mut out, sep);
        }
        let piece = chars_of(parts[i].as_str());
        push_all(&mut out, &piece);
        i = i + 1;
        if i == 1 {
            assert(out@ =~= join_seqs(views(parts@).take(i as int), sep@));
        }
    }
    assert(views(parts@).take(parts@.len() as int) =~= views(parts@));
    out
}

/// `parts.join(sep)`.
pub fn join(parts: &[String], sep: &str) -> (res: String)
    ensures
        res@ == join_seqs(views(parts@), sep@),
{
    let sep_chars = chars_of(sep);
    let out = join_chars(parts, &sep_chars);
    string_from_chars(&out)
}

// ----------------------------------------------------------------------
// Lines
// ----------------------------------------------------------------------

/// Index of the first `'\n'` in `s`, or `s.len()` when there is none.
pub open spec fn line_end(s: Seq<char>) -> int
    decreases s.len(),
{
    if s.len() == 0 || s[0] == '\n' {
        0
    } else {
        1 + line_end(s.drop_first())
    }
}

/// `s.lines().next().unwrap_or("")`: the text before the first line feed,
/// without the carriage return of a `"\r\n"` ending.
pub open spec fn first_line(s: Seq<char>) -> Seq<char> {
    let raw = s.take(line_end(s));
    if line_end(s) < s.len() && raw.len() > 0 && raw.last() == '\r' {
        raw.drop_last()
    } else {
        raw
    }
}

pub proof fn lemma_line_end_bounds(s: Seq<char>)
    ensures
        0 <= line_end(s) <= s.len(),
        line_end(s) < s.len() ==> s[line_end(s)] == '\n',
        forall|k: int| 0 <= k < line_end(s) ==> s[k] != '\n',
    decreases s.len(),
{
    if s.len() > 0 && s[0] != '\n' {
        lemma_line_end_bounds(s.drop_first());
        assert forall|k: int| 0 <= k < line_end(s) implies s[k] != '\n' by {
            if k > 0 {
                assert(s[k] == s.drop_first()[k - 1]);
            }
        }
    }
}

/// `s.lines().next().unwrap_or("")`.
pub fn first_line_of(s: &[char]) -> (res: Vec<char>)
    ensures
        res@ == first_line(s@),
{
    let mut i: usize = 0;
    assert(s@.subrange(0, s@.len() as int) =~= s@);
    while i < s.len() && s[i] != '\n'
        invariant
            i <= s.len(),
            line_end(s@) == i + line_end(s@.subrange(i as int, s@.len() as int)),
        decreases s.len() - i,
    {
        let ghost sub = s@.subrange(i as int, s@.len() as int);
        assert(sub.drop_first() =~= s@.subrange(i + 1, s@.len() as int));
        i = i + 1;
    }
    assert(line_end(s@) == i);
    if i < s.len() && i > 0 && s[i - 1] == '\r' {
        sub_chars(s, 0, i - 1)
    } else {
        sub_chars(s, 0, i)
    }
}

} // verus!

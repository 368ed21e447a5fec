//! Decisions of the Logseq file pipeline: which GitHub entries are pages,
//! which pages are public, which need fetching again, which local files are
//! gone, and what is recorded about a page (references to other pages,
//! hyperlinks, content hash).

use sha1::Digest;
use vstd::prelude::*;

use crate::regex_ops::{
    link_occurrence, link_or_word_pattern, regex_count_matches, regex_escape, regex_escaped,
    regex_match_count, word_occurrence_ci,
};
use crate::strings::{
    chars_eq, chars_of, contains, ends_with, first_line, first_line_of, has_substring,
    has_suffix, string_from_chars, trim, trim_end_matches, trim_end_seq, trim_ws,
};

verus! {

/// A file entry of the GitHub contents API.
#[derive(Debug)]
pub struct GithubFile {
    pub name: String,
    pub path: String,
    pub sha: String,
    pub size: usize,
    pub url: String,
    pub download_url: String,
}

/// How often a page mentions another page.
#[derive(Debug)]
pub struct ReferenceInfo {
    pub direct_mentions: usize,
}

/// The file pipeline; it holds no state.
pub struct FileService;

// ----------------------------------------------------------------------
// Specifications
// ----------------------------------------------------------------------

/// A page is public when its first line, trimmed, is `public:: true`.
pub open spec fn is_public_text(content: Seq<char>) -> bool {
    trim_ws(first_line(content)) == "public:: true"@
}

/// A page is public exactly when its first line is `public:: true` with
/// only white space around it; any other first line, `public:: false` among
/// them, makes it private.
pub proof fn lemma_public_first_line(content: Seq<char>)
    ensures
        is_public_text(content) <==> exists|a: int|
            0 <= a && a + 13 <= first_line(content).len() && #[trigger] first_line(content).subrange(
                a,
                a + 13,
            ) == "public:: true"@ && (forall|j: int|
                0 <= j < a ==> crate::strings::is_ws(#[trigger] first_line(content)[j])) && (forall|
                j: int,
            |
                a + 13 <= j < first_line(content).len() ==> crate::strings::is_ws(
                    #[trigger] first_line(content)[j],
                )),
{
    reveal_strlit("public:: true");
    let line = first_line(content);
    let m = "public:: true"@;
    let w = crate::strings::ws_pred();
    let t1 = crate::strings::trim_start_by(line, w);
    crate::strings::lemma_trim_start_by_suffix(line, w);
    crate::strings::lemma_trim_start_by_removed(line, w);
    crate::strings::lemma_trim_end_by_prefix(t1, w);
    crate::strings::lemma_trim_end_by_removed(t1, w);
    if is_public_text(content) {
        let a = line.len() - t1.len();
        let t2 = crate::strings::trim_end_by(t1, w);
        assert(t2 == m);
        assert(line.subrange(a, a + 13) =~= t1.subrange(0, 13));
        assert forall|j: int| 0 <= j < a implies crate::strings::is_ws(#[trigger] line[j]) by {
            assert(w(line[j]));
        }
        assert forall|j: int| a + 13 <= j < line.len() implies crate::strings::is_ws(#[trigger] line[j]) by {
            assert(line[j] == t1[j - a]);
            assert(w(t1[j - a]));
        }
        assert(line.subrange(a, a + 13) == m);
    }
    if exists|a: int|
        0 <= a && a + 13 <= line.len() && #[trigger] line.subrange(a, a + 13) == m && (forall|j: int|
            0 <= j < a ==> crate::strings::is_ws(#[trigger] line[j])) && (forall|j: int|
            a + 13 <= j < line.len() ==> crate::strings::is_ws(#[trigger] line[j])) {
        let a = choose|a: int|
            0 <= a && a + 13 <= line.len() && #[trigger] line.subrange(a, a + 13) == m && (forall|
                j: int,
            | 0 <= j < a ==> crate::strings::is_ws(#[trigger] line[j])) && (forall|j: int|
                a + 13 <= j < line.len() ==> crate::strings::is_ws(#[trigger] line[j]));
        assert(line[a] == line.subrange(a, a + 13)[0]);
        assert(line[a] == 'p');
        assert forall|j: int| 0 <= j < a implies w(#[trigger] line[j]) by {}
        crate::strings::lemma_trim_start_by_exact(line, w, a);
        let s1 = line.skip(a);
        assert forall|j: int| 13 <= j < s1.len() implies w(#[trigger] s1[j]) by {
            assert(s1[j] == line[a + j]);
        }
        assert(s1[12] == line.subrange(a, a + 13)[12]);
        assert(s1[12] == 'e');
        crate::strings::lemma_trim_end_by_exact(s1, w, 13);
        assert(s1.take(13) =~= line.subrange(a, a + 13));
    }
}

/// The node name of a page file: its name without trailing `.md` suffixes.
pub open spec fn node_name_of(file_name: Seq<char>) -> Seq<char> {
    trim_end_seq(file_name, ".md"@)
}

/// A contents-API entry is listed as a page when it is a file whose name
/// ends in `.md`; in debug mode only the two debug pages are listed.
pub open spec fn is_listed_page(item_type: Seq<char>, name: Seq<char>, debug_mode: bool) -> bool {
    &&& item_type == "file"@
    &&& has_suffix(name, ".md"@)
    &&& !debug_mode || has_substring(name, "Debug Test Page"@) || has_substring(
        name,
        "debug linked node"@,
    )
}

/// The pattern counting mentions of page `name`: a `[[name]]` link or the
/// name as a whole word, case-insensitively.
pub open spec fn reference_pattern(name: Seq<char>) -> Seq<char> {
    "(?i)\\[\\["@ + regex_escaped(name) + "]]|\\b"@ + regex_escaped(name) + "\\b"@
}

/// How often `content` mentions page `name` (0 when the pattern is refused).
pub open spec fn mention_count(content: Seq<char>, name: Seq<char>) -> usize {
    match regex_match_count(reference_pattern(name), content) {
        Some(n) => n,
        None => 0,
    }
}

/// `content` mentions page `name` somewhere: as a `[[name]]` link or as
/// the whole word `name`, ignoring case.
pub open spec fn is_mentioned(content: Seq<char>, name: Seq<char>) -> bool {
    exists|p: int| link_occurrence(content, name, p) || word_occurrence_ci(content, name, p)
}

/// The names of a list of entries.
pub open spec fn entry_names<T>(entries: Seq<(String, T)>) -> Seq<Seq<char>> {
    entries.map_values(|e: (String, T)| e.0@)
}

/// No name occurs twice.
pub open spec fn distinct_names(names: Seq<Seq<char>>) -> bool {
    forall|i: int, j: int| 0 <= i < j < names.len() ==> names[i] != names[j]
}

/// The pattern of a markdown hyperlink `[text](target)`.
pub open spec fn hyperlink_pattern() -> Seq<char> {
    "\\[([^\\]]+)\\]\\(([^)]+)\\)"@
}

/// The SHA-1 digest of `data` (`sha1::Sha1::digest`).
pub uninterp spec fn sha1_digest(data: Seq<u8>) -> Seq<u8>;

/// A lower-case hexadecimal digit.
pub open spec fn hex_digit(d: u8) -> char {
    if d < 10 {
        (48 + d) as char
    } else {
        (87 + d) as char
    }
}

/// Lower-case hexadecimal of `bytes`, two digits per byte (`{:x}`).
pub open spec fn hex_lower(bytes: Seq<u8>) -> Seq<char>
    decreases bytes.len(),
{
    if bytes.len() == 0 {
        Seq::empty()
    } else {
        hex_lower(bytes.drop_last()) + seq![
            hex_digit(bytes.last() / 16),
            hex_digit(bytes.last() % 16),
        ]
    }
}

pub open spec fn is_hex_lower_char(c: char) -> bool {
    ('0' <= c && c <= '9') || ('a' <= c && c <= 'f')
}

/// Computes the SHA-1 digest with the sha1 crate; SHA-1 digests are 20
/// bytes long.
#[verifier::external_body]
fn sha1_bytes(data: &[u8]) -> (res: Vec<u8>)
    ensures
        res@ == sha1_digest(data@),
        res@.len() == 20,
{
    sha1::Sha1::digest(data).to_vec()
}

/// The index of the first entry named `name`, or `entries.len()`.
pub open spec fn entry_index(names: Seq<Seq<char>>, name: Seq<char>) -> int
    decreases names.len(),
{
    if names.len() == 0 || names[0] == name {
        0
    } else {
        1 + entry_index(names.drop_first(), name)
    }
}

proof fn lemma_entry_index(names: Seq<Seq<char>>, name: Seq<char>)
    ensures
        0 <= entry_index(names, name) <= names.len(),
        entry_index(names, name) < names.len() ==> names[entry_index(names, name)] == name,
        entry_index(names, name) == names.len() ==> !names.contains(name),
    decreases names.len(),
{
    if names.len() > 0 && names[0] != name {
        lemma_entry_index(names.drop_first(), name);
        if entry_index(names, name) == names.len() {
            assert forall|k: int| 0 <= k < names.len() implies names[k] != name by {
                if k > 0 {
                    assert(names[k] == names.drop_first()[k - 1]);
                }
            }
        }
    }
}

/// Whether the GitHub file `(name, sha)` is fetched again: no local record
/// has its name, or the first one that has records another hash.
pub open spec fn needs_fetch(local: Seq<(String, String)>, name: Seq<char>, sha: Seq<char>) -> bool {
    let i = entry_index(entry_names(local), name);
    i >= local.len() || local[i].1@ != sha
}

// ----------------------------------------------------------------------
// Helpers
// ----------------------------------------------------------------------

/// `a`, `b`, `c`, `d` and `e` in a row.
fn concat5(a: &str, b: &str, c: &str, d: &str, e: &str) -> (res: String)
    ensures
        res@ == a@ + b@ + c@ + d@ + e@,
{
    let mut s = String::from_str(a);
    s.append(b);
    s.append(c);
    s.append(d);
    s.append(e);
    s
}

/// The names of `local` that `github` lacks, each once, in the order of
/// their first appearance in `local`.
pub open spec fn removed_names(local: Seq<Seq<char>>, github: Seq<Seq<char>>) -> Seq<Seq<char>>
    decreases local.len(),
{
    if local.len() == 0 {
        Seq::empty()
    } else {
        let r = removed_names(local.drop_last(), github);
        let x = local.last();
        if github.contains(x) || r.contains(x) {
            r
        } else {
            r.push(x)
        }
    }
}

/// The removed names are local names missing from `github`, with no name
/// twice, and every local name missing from `github` is among them.
proof fn lemma_removed_names(local: Seq<Seq<char>>, github: Seq<Seq<char>>)
    ensures
        forall|i: int|
            0 <= i < removed_names(local, github).len() ==> local.contains(
                #[trigger] removed_names(local, github)[i],
            ) && !github.contains(removed_names(local, github)[i]),
        forall|k: int|
            0 <= k < local.len() && !github.contains(#[trigger] local[k]) ==> removed_names(
                local,
                github,
            ).contains(local[k]),
        forall|i: int, j: int|
            0 <= i < j < removed_names(local, github).len() ==> removed_names(local, github)[i]
                != removed_names(local, github)[j],
    decreases local.len(),
{
    if local.len() > 0 {
        let p = local.drop_last();
        lemma_removed_names(p, github);
        let r = removed_names(p, github);
        let x = local.last();
        assert forall|i: int| 0 <= i < r.len() implies local.contains(#[trigger] r[i]) by {
            let w = choose|w: int| 0 <= w < p.len() && p[w] == r[i];
            assert(local[w] == r[i]);
        }
        assert(local[local.len() - 1] == x);
        if !(github.contains(x) || r.contains(x)) {
            let r2 = r.push(x);
            assert forall|k: int|
                0 <= k < local.len() && !github.contains(#[trigger] local[k]) implies r2.contains(local[k]) by {
                if k < p.len() {
                    assert(p[k] == local[k]);
                    let w = choose|w: int| 0 <= w < r.len() && r[w] == local[k];
                    assert(r2[w] == local[k]);
                } else {
                    assert(r2[r.len() as int] == local[k]);
                }
            }
        } else {
            assert forall|k: int|
                0 <= k < local.len() && !github.contains(#[trigger] local[k]) implies r.contains(local[k]) by {
                if k < p.len() {
                    assert(p[k] == local[k]);
                }
            }
        }
    }
}

/// Position of the first entry named `name` in `names`, or its length.
fn find_name(names: &[String], name: &str) -> (idx: usize)
    ensures
        idx as int == entry_index(crate::strings::views(names@), name@),
{
    let ghost nv = crate::strings::views(names@);
    let target = chars_of(name);
    let mut idx: usize = 0;
    assert(nv.subrange(0, nv.len() as int) =~= nv);
    while idx < names.len()
        invariant
            idx <= names.len(),
            nv == crate::strings::views(names@),
            target@ == name@,
            entry_index(nv, name@) == idx + entry_index(nv.subrange(idx as int, nv.len() as int), name@),
        decreases names.len() - idx,
    {
        let ghost sub = nv.subrange(idx as int, nv.len() as int);
        assert(sub[0] == names@[idx as int]@);
        let c = chars_of(names[idx].as_str());
        if chars_eq(&c, &target) {
            assert(sub[0] == name@);
            assert(entry_index(sub, name@) == 0);
            return idx;
        }
        assert(sub[0] != name@);
        assert(entry_index(sub, name@) == 1 + entry_index(sub.drop_first(), name@));
        assert(sub.drop_first() =~= nv.subrange(idx + 1, nv.len() as int));
        idx = idx + 1;
    }
    idx
}

impl FileService {
    /// Whether a page is public: its first line, trimmed, is `public:: true`.
    pub fn is_public_file(content: &str) -> (res: bool)
        ensures
            res == is_public_text(content@),
    {
        let c = chars_of(content);
        let line = trim(&first_line_of(&c));
        let marker = chars_of("public:: true");
        chars_eq(&line, &marker)
    }

    /// The node name of a page file: `name.trim_end_matches(".md")`.
    pub fn node_name(file_name: &str) -> (res: String)
        ensures
            res@ == node_name_of(file_name@),
    {
        let c = chars_of(file_name);
        let md = chars_of(".md");
        string_from_chars(&trim_end_matches(&c, &md))
    }

    /// Whether an entry of the GitHub contents listing is taken as a page.
    pub fn is_listed_page(item_type: &str, name: &str, debug_mode: bool) -> (res: bool)
        ensures
            res == is_listed_page(item_type@, name@, debug_mode),
    {
        let t = chars_of(item_type);
        let file = chars_of("file");
        if !chars_eq(&t, &file) {
            return false;
        }
        let n = chars_of(name);
        let md = chars_of(".md");
        if !ends_with(&n, &md) {
            return false;
        }
        if !debug_mode {
            return true;
        }
        let a = chars_of("Debug Test Page");
        let b = chars_of("debug linked node");
        contains(&n, &a) || contains(&n, &b)
    }

    /// How often `content` mentions each page of `valid_nodes`, for the pages
    /// it mentions at least once; each page appears once.
    pub fn extract_references(content: &str, valid_nodes: &[String]) -> (res: Vec<(String, ReferenceInfo)>)
        ensures
            distinct_names(entry_names(res@)),
            forall|i: int|
                0 <= i < res@.len() ==> crate::strings::views(valid_nodes@).contains(
                    #[trigger] res@[i].0@,
                ) && res@[i].1.direct_mentions == mention_count(content@, res@[i].0@)
                    && res@[i].1.direct_mentions > 0,
            forall|k: int|
                0 <= k < valid_nodes@.len() && mention_count(content@, #[trigger] valid_nodes@[k]@)
                    > 0 ==> entry_names(res@).contains(valid_nodes@[k]@),
            forall|i: int| 0 <= i < res@.len() ==> is_mentioned(content@, #[trigger] res@[i].0@),
    {
        let ghost vv = crate::strings::views(valid_nodes@);
        let mut out: Vec<(String, ReferenceInfo)> = Vec::new();
        let mut names: Vec<String> = Vec::new();
        let mut i: usize = 0;
        while i < valid_nodes.len()
            invariant
                i <= valid_nodes.len(),
                vv == crate::strings::views(valid_nodes@),
                out@.len() == names@.len(),
                forall|j: int| 0 <= j < out@.len() ==> #[trigger] out@[j].0@ == names@[j]@,
                distinct_names(entry_names(out@)),
                forall|j: int|
                    0 <= j < out@.len() ==> vv.contains(#[trigger] out@[j].0@)
                        && out@[j].1.direct_mentions == mention_count(content@, out@[j].0@)
                        && out@[j].1.direct_mentions > 0,
                forall|k: int|
                    0 <= k < i && mention_count(content@, #[trigger] valid_nodes@[k]@) > 0
                        ==> entry_names(out@).contains(valid_nodes@[k]@),
                forall|j: int| 0 <= j < out@.len() ==> is_mentioned(content@, #[trigger] out@[j].0@),
            decreases valid_nodes.len() - i,
        {
            let name = &valid_nodes[i];
            let esc = regex_escape(name.as_str());
            let pattern = concat5("(?i)\\[\\[", esc.as_str(), "]]|\\b", esc.as_str(), "\\b");
            assert(pattern@ == link_or_word_pattern(name@));
            let count: usize = match regex_count_matches(pattern.as_str(), content) {
                Some(n) => n,
                None => 0,
            };
            assert(count == mention_count(content@, valid_nodes@[i as int]@));
            assert(vv[i as int] == valid_nodes@[i as int]@);
            assert(count > 0 ==> is_mentioned(content@, name@));
            if count > 0 {
                let pos = find_name(&names, name.as_str());
                proof {
                    assert(crate::strings::views(names@) =~= entry_names(out@));
                    lemma_entry_index(entry_names(out@), name@);
                }
                if pos == names.len() {
                    let ghost old_out = out@;
                    out.push((name.clone(), ReferenceInfo { direct_mentions: count }));
                    names.push(name.clone());
                    proof {
                        assert forall|j: int| 0 <= j < out@.len() implies is_mentioned(
                            content@,
                            #[trigger] out@[j].0@,
                        ) by {
                            if j < old_out.len() {
                                assert(out@[j] == old_out[j]);
                            } else {
                                assert(out@[j].0@ == name@);
                            }
                        }
                        assert(entry_names(out@) =~= entry_names(old_out).push(name@));
                        assert forall|k: int|
                            0 <= k < i + 1 && mention_count(content@, #[trigger] valid_nodes@[k]@)
                                > 0 implies entry_names(out@).contains(valid_nodes@[k]@) by {
                            if k < i {
                                let w = choose|w: int|
                                    0 <= w < entry_names(old_out).len()
                                        && entry_names(old_out)[w] == valid_nodes@[k]@;
                                assert(entry_names(out@)[w] == valid_nodes@[k]@);
                            } else {
                                assert(entry_names(out@)[old_out.len() as int] == name@);
                            }
                        }
                    }
                } else {
                    proof {
                        assert(entry_names(out@)[pos as int] == name@);
                    }
                }
            }
            i = i + 1;
        }
        out
    }

    /// The mention counts of a reference list, entry by entry.
    pub fn convert_references_to_topic_counts(references: Vec<(String, ReferenceInfo)>) -> (res: Vec<(String, usize)>)
        ensures
            res@.len() == references@.len(),
            forall|i: int|
                0 <= i < res@.len() ==> #[trigger] res@[i].0@ == references@[i].0@ && res@[i].1
                    == references@[i].1.direct_mentions,
    {
        let mut out: Vec<(String, usize)> = Vec::new();
        let mut i: usize = 0;
        while i < references.len()
            invariant
                i <= references.len(),
                out@.len() == i,
                forall|j: int|
                    0 <= j < i ==> #[trigger] out@[j].0@ == references@[j].0@ && out@[j].1
                        == references@[j].1.direct_mentions,
            decreases references.len() - i,
        {
            let name = references[i].0.clone();
            out.push((name, references[i].1.direct_mentions));
            i = i + 1;
        }
        out
    }

    /// How many markdown hyperlinks `[text](target)` `content` holds.
    pub fn count_hyperlinks(content: &str) -> (res: usize)
        requires
            regex_match_count(hyperlink_pattern(), content@) is Some,
        ensures
            regex_match_count(hyperlink_pattern(), content@) == Some(res),
    {
        match regex_count_matches("\\[([^\\]]+)\\]\\(([^)]+)\\)", content) {
            Some(n) => n,
            None => {
                assert(false);
                0
            },
        }
    }

    /// `count_hyperlinks`, or `None` where the hyperlink pattern is refused.
    pub fn count_hyperlinks_checked(content: &str) -> (res: Option<usize>)
        ensures
            res == regex_match_count(hyperlink_pattern(), content@),
    {
        match regex_count_matches("\\[([^\\]]+)\\]\\(([^)]+)\\)", content) {
            Some(_) => Some(FileService::count_hyperlinks(content)),
            None => None,
        }
    }

    /// The SHA-1 of the UTF-8 bytes of `content`, in lower-case hexadecimal.
    pub fn calculate_sha1(content: &str) -> (res: String)
        ensures
            res@ == hex_lower(sha1_digest(vstd::utf8::encode_utf8(content@))),
            res@.len() == 40,
            forall|i: int| 0 <= i < res@.len() ==> is_hex_lower_char(#[trigger] res@[i]),
    {
        let digest = sha1_bytes(content.as_bytes());
        let mut out: Vec<char> = Vec::new();
        let mut i: usize = 0;
        while i < digest.len()
            invariant
                i <= digest.len(),
                digest@.len() == 20,
                out@ == hex_lower(digest@.take(i as int)),
                out@.len() == 2 * i,
                forall|k: int| 0 <= k < out@.len() ==> is_hex_lower_char(#[trigger] out@[k]),
            decreases digest.len() - i,
        {
            let b = digest[i];
            let hi = b / 16;
            let lo = b % 16;
            let ch = if hi < 10 { (48u8 + hi) as char } else { (87u8 + hi) as char };
            let cl = if lo < 10 { (48u8 + lo) as char } else { (87u8 + lo) as char };
            assert(ch == hex_digit(hi) && cl == hex_digit(lo));
            let ghost prev = out@;
            out.push(ch);
            out.push(cl);
            proof {
                assert(digest@.take(i + 1).drop_last() =~= digest@.take(i as int));
                assert(out@ =~= prev + seq![ch, cl]);
                assert(is_hex_lower_char(ch) && is_hex_lower_char(cl));
            }
            i = i + 1;
        }
        assert(digest@.take(20) =~= digest@);
        string_from_chars(&out)
    }

    /// The local pages that the GitHub listing no longer has: each name once,
    /// in the order of its first appearance among the local pages.
    pub fn removed_files(local_files: &[String], github_files: &[String]) -> (res: Vec<String>)
        ensures
            crate::strings::views(res@) == removed_names(
                crate::strings::views(local_files@),
                crate::strings::views(github_files@),
            ),
            forall|i: int|
                0 <= i < res@.len() ==> crate::strings::views(local_files@).contains(
                    #[trigger] res@[i]@,
                ) && !crate::strings::views(github_files@).contains(res@[i]@),
            forall|k: int|
                0 <= k < local_files@.len() && !crate::strings::views(github_files@).contains(
                    #[trigger] local_files@[k]@,
                ) ==> crate::strings::views(res@).contains(local_files@[k]@),
            forall|i: int, j: int| 0 <= i < j < res@.len() ==> res@[i]@ != res@[j]@,
    {
        let ghost lv = crate::strings::views(local_files@);
        let ghost gv = crate::strings::views(github_files@);
        let mut out: Vec<String> = Vec::new();
        let mut i: usize = 0;
        assert(lv.take(0) =~= Seq::<Seq<char>>::empty());
        assert(crate::strings::views(out@) =~= Seq::<Seq<char>>::empty());
        while i < local_files.len()
            invariant
                i <= local_files.len(),
                lv == crate::strings::views(local_files@),
                gv == crate::strings::views(github_files@),
                crate::strings::views(out@) == removed_names(lv.take(i as int), gv),
            decreases local_files.len() - i,
        {
            let ghost before = lv.take(i as int);
            assert(lv.take(i + 1).drop_last() =~= before);
            assert(lv.take(i + 1).last() == local_files@[i as int]@);
            let pos = find_name(github_files, local_files[i].as_str());
            let seen = find_name(&out, local_files[i].as_str());
            proof {
                lemma_entry_index(gv, local_files@[i as int]@);
                lemma_entry_index(crate::strings::views(out@), local_files@[i as int]@);
            }
            if pos == github_files.len() && seen == out.len() {
                let ghost old_out = out@;
                out.push(local_files[i].clone());
                proof {
                    assert(crate::strings::views(out@) =~= crate::strings::views(old_out).push(
                        local_files@[i as int]@,
                    ));
                }
            } else {
                proof {
                    if pos < github_files.len() {
                        assert(gv[pos as int] == local_files@[i as int]@);
                    } else {
                        assert(crate::strings::views(out@)[seen as int] == local_files@[i as int]@);
                    }
                }
            }
            i = i + 1;
        }
        assert(lv.take(local_files@.len() as int) =~= lv);
        proof {
            lemma_removed_names(lv, gv);
            assert forall|i: int| 0 <= i < out@.len() implies lv.contains(#[trigger] out@[i]@)
                && !gv.contains(out@[i]@) by {
                assert(crate::strings::views(out@)[i] == out@[i]@);
            }
            assert forall|k: int|
                0 <= k < local_files@.len() && !gv.contains(#[trigger] local_files@[k]@)
                implies crate::strings::views(out@).contains(local_files@[k]@) by {
                assert(lv[k] == local_files@[k]@);
            }
            assert forall|i: int, j: int| 0 <= i < j < out@.len() implies out@[i]@ != out@[j]@ by {
                assert(crate::strings::views(out@)[i] == out@[i]@);
                assert(crate::strings::views(out@)[j] == out@[j]@);
            }
        }
        out
    }

    /// The positions, in increasing order, of the GitHub files `(name, sha)`
    /// to fetch again: those with no local record `(name, sha1)`, or whose
    /// first local record holds another hash.
    pub fn files_to_process(local: &[(String, String)], github: &[(String, String)]) -> (res: Vec<usize>)
        ensures
            forall|i: int, j: int| 0 <= i < j < res@.len() ==> res@[i] < res@[j],
            forall|i: int| 0 <= i < res@.len() ==> res@[i] < github@.len(),
            forall|k: int|
                0 <= k < github@.len() ==> (res@.contains(k as usize) <==> needs_fetch(
                    local@,
                    #[trigger] github@[k].0@,
                    github@[k].1@,
                )),
    {
        let mut local_names: Vec<String> = Vec::new();
        let mut m: usize = 0;
        while m < local.len()
            invariant
                m <= local.len(),
                crate::strings::views(local_names@) == entry_names(local@).take(m as int),
            decreases local.len() - m,
        {
            let ghost prev = local_names@;
            let nm = local[m].0.clone();
            assert(nm@ == entry_names(local@)[m as int]);
            local_names.push(nm);
            assert(crate::strings::views(local_names@) =~= crate::strings::views(prev).push(nm@));
            m = m + 1;
            assert(crate::strings::views(local_names@) =~= entry_names(local@).take(m as int));
        }
        assert(entry_names(local@).take(local@.len() as int) =~= entry_names(local@));
        let mut out: Vec<usize> = Vec::new();
        let mut i: usize = 0;
        while i < github.len()
            invariant
                i <= github.len(),
                crate::strings::views(local_names@) == entry_names(local@),
                forall|a: int, b: int| 0 <= a < b < out@.len() ==> out@[a] < out@[b],
                forall|a: int| 0 <= a < out@.len() ==> out@[a] < i,
                forall|k: int|
                    0 <= k < i ==> (out@.contains(k as usize) <==> needs_fetch(
                        local@,
                        #[trigger] github@[k].0@,
                        github@[k].1@,
                    )),
            decreases github.len() - i,
        {
            let pos = find_name(&local_names, github[i].0.as_str());
            proof {
                lemma_entry_index(entry_names(local@), github@[i as int].0@);
            }
            let fetch = if pos == local_names.len() {
                true
            } else {
                let a = chars_of(local[pos].1.as_str());
                let b = chars_of(github[i].1.as_str());
                !chars_eq(&a, &b)
            };
            assert(fetch == needs_fetch(local@, github@[i as int].0@, github@[i as int].1@));
            let ghost old_out = out@;
            if fetch {
                out.push(i);
            }
            proof {
                assert forall|k: int|
                    0 <= k < i + 1 implies (out@.contains(k as usize) <==> needs_fetch(
                        local@,
                        #[trigger] github@[k].0@,
                        github@[k].1@,
                    )) by {
                    if k < i {
                        if out@.contains(k as usize) {
                            let w = choose|w: int| 0 <= w < out@.len() && out@[w] == k as usize;
                            if w < old_out.len() {
                                assert(old_out[w] == k as usize);
                            }
                        }
                        if old_out.contains(k as usize) {
                            let w = choose|w: int| 0 <= w < old_out.len() && old_out[w] == k as usize;
                            assert(out@[w] == k as usize);
                        }
                    } else {
                        if fetch {
                            assert(out@[old_out.len() as int] == k as usize);
                        } else {
                            assert(!out@.contains(k as usize));
                        }
                    }
                }
            }
            i = i + 1;
        }
        out
    }
}

} // verus!

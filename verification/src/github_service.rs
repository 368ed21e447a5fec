//! Texts of the pull requests that carry Perplexity-enhanced pages back to
//! GitHub: branch names, titles, bodies and commit messages.

use base64::Engine;
use vstd::prelude::*;
use vstd::string::StringSliceAdditionalSpecFns;

use crate::audio_processor::base64_decoded;
use crate::json::{json_array_len, json_array_len_at, json_parse_error, json_str_at, json_string_at};
use crate::strings::{chars_of, push_all, replace, replace_seq, string_from_chars};

verus! {

/// The decimal digit for `d < 10`.
pub open spec fn digit_char(d: nat) -> char {
    (48 + d) as char
}

/// Decimal digits of `n`, most significant first, without leading zeros.
pub open spec fn decimal_digits(n: nat) -> Seq<char>
    decreases n,
{
    if n < 10 {
        seq![digit_char(n)]
    } else {
        decimal_digits(n / 10) + seq![digit_char(n % 10)]
    }
}

/// `n` written in decimal, with a leading `-` when negative (`Display`).
pub open spec fn decimal(n: int) -> Seq<char> {
    if n < 0 {
        seq!['-'] + decimal_digits((-n) as nat)
    } else {
        decimal_digits(n as nat)
    }
}

/// The decimal digits of `m`.
pub(crate) fn digits_u64(m: u64) -> (res: Vec<char>)
    ensures
        res@ == decimal_digits(m as nat),
{
    let mut rest: u64 = m;
    let mut acc: Vec<char> = Vec::new();
    while rest >= 10
        invariant
            decimal_digits(m as nat) == decimal_digits(rest as nat) + acc@,
        decreases rest,
    {
        let d = rest % 10;
        let c = (48u8 + (d as u8)) as char;
        assert(c == digit_char((rest % 10) as nat));
        let ghost old_acc = acc@;
        acc.insert(0, c);
        assert(acc@ =~= seq![c] + old_acc);
        assert(decimal_digits(rest as nat) == decimal_digits((rest / 10) as nat) + seq![c]);
        rest = rest / 10;
        assert(decimal_digits(m as nat) =~= decimal_digits(rest as nat) + acc@);
    }
    let c = (48u8 + (rest as u8)) as char;
    let mut out: Vec<char> = Vec::new();
    out.push(c);
    push_all(&mut out, &acc);
    assert(out@ =~= decimal_digits(rest as nat) + acc@);
    out
}

/// `n` in decimal.
fn decimal_string(n: i64) -> (res: Vec<char>)
    ensures
        res@ == decimal(n as int),
{
    if n < 0 {
        let magnitude: u64 = ((-(n + 1)) as u64) + 1;
        assert(magnitude as int == -(n as int));
        let d = digits_u64(magnitude);
        let mut out: Vec<char> = Vec::new();
        out.push('-');
        push_all(&mut out, &d);
        out
    } else {
        digits_u64(n as u64)
    }
}

/// The branch of a pull request: `perplexity-update-{name}-{timestamp}`,
/// where `name` is the file name with every `.md` removed.
pub open spec fn branch_name_text(file_name: Seq<char>, timestamp: i64) -> Seq<char> {
    "perplexity-update-"@ + replace_seq(file_name, ".md"@, Seq::empty()) + "-"@ + decimal(
        timestamp as int,
    )
}

/// The branch of the pull request for `file_name`, made at `timestamp`
/// (seconds since the epoch).
pub fn pr_branch_name(file_name: &str, timestamp: i64) -> (res: String)
    ensures
        res@ == branch_name_text(file_name@, timestamp),
{
    let name = chars_of(file_name);
    let md = chars_of(".md");
    proof {
        reveal_strlit(".md");
    }
    let empty: Vec<char> = Vec::new();
    let stem = replace(&name, &md, &empty);
    let mut out = chars_of("perplexity-update-");
    push_all(&mut out, &stem);
    out.push('-');
    push_all(&mut out, &decimal_string(timestamp));
    assert(out@ =~= branch_name_text(file_name@, timestamp)) by {
        reveal_strlit("-");
    }
    string_from_chars(&out)
}

/// The title of the pull request for `file_name`.
pub fn pr_title(file_name: &str) -> (res: String)
    ensures
        res@ == "Perplexity Enhancement: "@ + file_name@,
{
    let mut s = String::from_str("Perplexity Enhancement: ");
    s.append(file_name);
    s
}

/// The body of the pull request: the file, its original hash and the hash
/// of the updated file.
pub fn pr_body(file_name: &str, original_sha: &str, new_sha: &str) -> (res: String)
    ensures
        res@ == "This PR contains Perplexity-enhanced content for "@ + file_name@
            + ".\n\nOriginal SHA: "@ + original_sha@ + "\nNew SHA: "@ + new_sha@,
{
    let mut s = String::from_str("This PR contains Perplexity-enhanced content for ");
    s.append(file_name);
    s.append(".\n\nOriginal SHA: ");
    s.append(original_sha);
    s.append("\nNew SHA: ");
    s.append(new_sha);
    s
}

/// The commit message of the file update.
pub fn update_commit_message(file_path: &str) -> (res: String)
    ensures
        res@ == "Update "@ + file_path@ + " with Perplexity-enhanced content"@,
{
    let mut s = String::from_str("Update ");
    s.append(file_path);
    s.append(" with Perplexity-enhanced content");
    s
}

/// The repository path of a page: `{base_path}/{file_name}`.
pub fn repository_path(base_path: &str, file_name: &str) -> (res: String)
    ensures
        res@ == base_path@ + "/"@ + file_name@,
{
    let mut s = String::from_str(base_path);
    s.append("/");
    s.append(file_name);
    s
}

// ----------------------------------------------------------------------
// The body of a file update
// ----------------------------------------------------------------------

/// What `base64::engine::general_purpose::STANDARD.encode(data)` returns.
pub uninterp spec fn base64_encoded(data: Seq<u8>) -> Seq<char>;

/// Whether `text` decodes, with the standard base64 engine, to `data`.
pub open spec fn decodes_to(text: Seq<char>, data: Seq<u8>) -> bool {
    base64_decoded(text) == Ok::<Seq<u8>, Seq<char>>(data)
}

/// Calls `STANDARD.encode` of the base64 crate. Decoding with the same
/// engine gives `data` back.
#[verifier::external_body]
fn base64_encode(data: &[u8]) -> (res: String)
    ensures
        res@ == base64_encoded(data@),
        decodes_to(res@, data@),
{
    base64::engine::general_purpose::STANDARD.encode(data)
}

/// The body of the request that writes a page to a branch.
#[derive(Debug)]
pub struct UpdateFileRequest {
    pub message: String,
    pub content: String,
    pub sha: String,
    pub branch: String,
}

/// The update of `file_path` on `branch_name`: the commit message, the
/// UTF-8 bytes of `content` in base64, the hash of the file replaced and
/// the branch.
pub fn update_file_request(file_path: &str, content: &str, branch_name: &str, original_sha: &str) -> (res:
    UpdateFileRequest)
    ensures
        res.message@ == "Update "@ + file_path@ + " with Perplexity-enhanced content"@,
        res.content@ == base64_encoded(content.spec_bytes()),
        decodes_to(res.content@, content.spec_bytes()),
        res.sha@ == original_sha@,
        res.branch@ == branch_name@,
{
    UpdateFileRequest {
        message: update_commit_message(file_path),
        content: base64_encode(content.as_bytes()),
        sha: String::from_str(original_sha),
        branch: String::from_str(branch_name),
    }
}

// ----------------------------------------------------------------------
// Reading GitHub replies
// ----------------------------------------------------------------------

/// The error when a reply that should be a JSON array is not one.
pub open spec fn not_an_array_message() -> Seq<char> {
    "expected a JSON array"@
}

/// An entry of a directory listing, its absent fields read as empty.
#[derive(Debug)]
pub struct ListedFile {
    pub item_type: String,
    pub name: String,
    pub sha: String,
    pub download_url: String,
}

/// The pointer to `field` of the `i`-th element of the document.
pub open spec fn element_pointer(i: nat, field: Seq<char>) -> Seq<char> {
    "/"@ + decimal_digits(i) + "/"@ + field
}

/// The string at `field` of the `i`-th element, empty when there is none.
pub open spec fn element_field(listing: Seq<u8>, i: nat, field: Seq<char>) -> Seq<char> {
    match json_string_at(listing, element_pointer(i, field)) {
        Some(s) => s,
        None => Seq::empty(),
    }
}

/// Whether `entry` holds the fields of the `i`-th element of `listing`.
pub open spec fn is_listing_entry(listing: Seq<u8>, i: nat, entry: ListedFile) -> bool {
    &&& entry.item_type@ == element_field(listing, i, "type"@)
    &&& entry.name@ == element_field(listing, i, "name"@)
    &&& entry.sha@ == element_field(listing, i, "sha"@)
    &&& entry.download_url@ == element_field(listing, i, "download_url"@)
}

/// The pointer text `/{i}/{field}`.
fn element_pointer_text(i: usize, field: &str) -> (res: String)
    ensures
        res@ == element_pointer(i as nat, field@),
{
    let mut p: Vec<char> = Vec::new();
    p.push('/');
    let d = digits_u64(i as u64);
    push_all(&mut p, &d);
    p.push('/');
    let f = chars_of(field);
    push_all(&mut p, &f);
    assert(p@ =~= "/"@ + decimal_digits(i as nat) + "/"@ + field@) by {
        reveal_strlit("/");
    }
    string_from_chars(&p)
}

/// The string at `field` of the `i`-th element of a document that parses.
fn element_field_text(listing: &[u8], i: usize, field: &str) -> (res: String)
    requires
        json_parse_error(listing@) is None,
    ensures
        res@ == element_field(listing@, i as nat, field@),
{
    let p = element_pointer_text(i, field);
    match json_str_at(listing, p.as_str()) {
        Ok(Some(s)) => s,
        _ => String::new(),
    }
}

/// The entries of a directory listing of the contents API: `Err` with the
/// parse error when it is not JSON, or when it is no array; otherwise each
/// element's `type`, `name`, `sha` and `download_url`, in order.
pub fn listing_entries(listing: &[u8]) -> (res: Result<Vec<ListedFile>, String>)
    ensures
        match json_parse_error(listing@) {
            Some(e) => res matches Err(m) && m@ == e,
            None => match json_array_len(listing@, ""@) {
                None => res matches Err(m) && m@ == not_an_array_message(),
                Some(n) => res matches Ok(v) && v@.len() == n && forall|i: int|
                    0 <= i < n ==> is_listing_entry(listing@, i as nat, #[trigger] v@[i]),
            },
        },
{
    let n = match json_array_len_at(listing, "") {
        Err(e) => {
            return Err(e);
        },
        Ok(None) => {
            return Err(String::from_str("expected a JSON array"));
        },
        Ok(Some(n)) => n,
    };
    let mut out: Vec<ListedFile> = Vec::new();
    let mut i: usize = 0;
    while i < n
        invariant
            i <= n,
            json_parse_error(listing@) is None,
            out@.len() == i,
            forall|k: int| 0 <= k < i ==> is_listing_entry(listing@, k as nat, #[trigger] out@[k]),
        decreases n - i,
    {
        let entry = ListedFile {
            item_type: element_field_text(listing, i, "type"),
            name: element_field_text(listing, i, "name"),
            sha: element_field_text(listing, i, "sha"),
            download_url: element_field_text(listing, i, "download_url"),
        };
        out.push(entry);
        i = i + 1;
    }
    Ok(out)
}

/// The commit date of the newest commit of a commit list (`commit`,
/// `committer`, `date` of its first element): `Err` when the list is not
/// JSON or no array; `None` when it is empty or the date is missing.
pub fn last_commit_date(commits: &[u8]) -> (res: Result<Option<String>, String>)
    ensures
        match json_parse_error(commits@) {
            Some(e) => res matches Err(m) && m@ == e,
            None => match json_array_len(commits@, ""@) {
                None => res matches Err(m) && m@ == not_an_array_message(),
                Some(_) => match res {
                    Ok(Some(d)) => json_string_at(commits@, "/0/commit/committer/date"@) == Some(d@),
                    Ok(None) => json_string_at(commits@, "/0/commit/committer/date"@) is None,
                    Err(_) => false,
                },
            },
        },
{
    match json_array_len_at(commits, "") {
        Err(e) => {
            return Err(e);
        },
        Ok(None) => {
            return Err(String::from_str("expected a JSON array"));
        },
        Ok(Some(_)) => {},
    }
    match json_str_at(commits, "/0/commit/committer/date") {
        Ok(d) => Ok(d),
        Err(e) => Err(e),
    }
}

/// The hash that a branch reference points at (`object.sha`): `Err` with
/// the parse error, or `SHA not found` when there is none.
pub fn reference_sha(reply: &[u8]) -> (res: Result<String, String>)
    ensures
        match json_parse_error(reply@) {
            Some(e) => res matches Err(m) && m@ == e,
            None => match json_string_at(reply@, "/object/sha"@) {
                Some(s) => res matches Ok(x) && x@ == s,
                None => res matches Err(m) && m@ == "SHA not found"@,
            },
        },
{
    match json_str_at(reply, "/object/sha") {
        Err(e) => Err(e),
        Ok(Some(s)) => Ok(s),
        Ok(None) => Err(String::from_str("SHA not found")),
    }
}

/// The address of a new pull request (`html_url`): `Err` with the parse
/// error, or `PR URL not found` when there is none.
pub fn pull_request_url(reply: &[u8]) -> (res: Result<String, String>)
    ensures
        match json_parse_error(reply@) {
            Some(e) => res matches Err(m) && m@ == e,
            None => match json_string_at(reply@, "/html_url"@) {
                Some(s) => res matches Ok(x) && x@ == s,
                None => res matches Err(m) && m@ == "PR URL not found"@,
            },
        },
{
    match json_str_at(reply, "/html_url") {
        Err(e) => Err(e),
        Ok(Some(s)) => Ok(s),
        Ok(None) => Err(String::from_str("PR URL not found")),
    }
}

} // verus!

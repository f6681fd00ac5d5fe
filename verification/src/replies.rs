//! Reading API replies: upload tokens and URLs, transfer codes, and public
//! suffix candidates.

use vstd::prelude::*;
use crate::json::{JsonValue, field, text_field, text_of, array_of};
use crate::text::{to_owned_string, push_str, push_decimal, decimal, same_text};
use crate::prompts::texts_view;

verus! {

/// Why an upload could not go on.
#[derive(Debug, PartialEq, Eq)]
pub enum UploadError {
    /// The file is empty or larger than 100 MB.
    Size,
    /// The API did not return a client token.
    NoToken,
    /// The storage service did not return the file's URL.
    NoUrl,
}

/// The largest file an upload accepts: 100 MB.
pub const MAX_UPLOAD_BYTES: u64 = 104857600;

/// Files of 1 byte up to 100 MB can be uploaded.
pub fn check_upload_size(len: u64) -> (r: Result<(), UploadError>)
    ensures
        r is Ok <==> 1 <= len <= 100 * 1024 * 1024,
        r matches Err(e) ==> e == UploadError::Size,
{
    if len == 0 || len > MAX_UPLOAD_BYTES {
        Err(UploadError::Size)
    } else {
        Ok(())
    }
}

/// Where an uploaded file is stored: `files/suffix/ACCOUNT/UUID/NAME`.
pub open spec fn upload_pathname_of(account_id: Seq<char>, uuid: Seq<char>, file_name: Seq<char>) -> Seq<char> {
    "files/suffix/"@ + account_id + "/"@ + uuid + "/"@ + file_name
}

pub fn upload_pathname(account_id: &str, uuid: &str, file_name: &str) -> (r: String)
    ensures
        r@ == upload_pathname_of(account_id@, uuid@, file_name@),
{
    let mut r = to_owned_string("files/suffix/");
    push_str(&mut r, account_id);
    push_str(&mut r, "/");
    push_str(&mut r, uuid);
    push_str(&mut r, "/");
    push_str(&mut r, file_name);
    r
}

/// The client token of an upload-token reply.
pub fn client_token(token: &JsonValue) -> (r: Result<String, UploadError>)
    ensures
        match text_field(*token, "clientToken"@) {
            Some(t) => r matches Ok(x) && x@ == t,
            None => r == Err::<String, UploadError>(UploadError::NoToken),
        },
{
    match token.str_field("clientToken") {
        Some(t) => Ok(to_owned_string(t)),
        None => Err(UploadError::NoToken),
    }
}

/// The stored file's URL and its download URL (the stored URL when the reply
/// has no `downloadUrl`).
pub fn uploaded_urls(uploaded: &JsonValue) -> (r: Result<(String, String), UploadError>)
    ensures
        match text_field(*uploaded, "url"@) {
            Some(u) => r matches Ok((b, d)) && b@ == u && d@ == (match text_field(*uploaded, "downloadUrl"@) {
                Some(x) => x,
                None => u,
            }),
            None => r == Err::<(String, String), UploadError>(UploadError::NoUrl),
        },
{
    let blob = match uploaded.str_field("url") {
        Some(u) => u,
        None => return Err(UploadError::NoUrl),
    };
    let download = match uploaded.str_field("downloadUrl") {
        Some(d) => d,
        None => blob,
    };
    Ok((to_owned_string(blob), to_owned_string(download)))
}

/// Why a transfer reply could not be read.
#[derive(Debug, PartialEq, Eq)]
pub enum TransferError {
    /// The reply has no transfer code.
    NoCode,
}

/// The expiry time of a transfer reply, empty when it has none.
pub open spec fn transfer_expiry_of(payload: JsonValue) -> Seq<char> {
    match field(payload, "transfer"@) {
        Some(t) => match text_field(t, "expiresAt"@) {
            Some(e) => e,
            None => Seq::empty(),
        },
        None => Seq::empty(),
    }
}

/// What `suffix transfer` prints for a reply with transfer code `code`.
pub open spec fn transfer_report_of(code: Seq<char>, expires: Seq<char>) -> Seq<char> {
    "Transfer code: "@ + code + "\n"@ + (if expires.len() == 0 {
        Seq::empty()
    } else {
        "Expires: "@ + expires + "\n"@
    }) + "Give this code to the receiving account, then run: suffix accept "@ + code + "\n"@
}

/// The lines `suffix transfer` prints for the API's reply.
pub fn transfer_report(payload: &JsonValue) -> (r: Result<String, TransferError>)
    ensures
        match text_field(*payload, "code"@) {
            Some(c) => r matches Ok(t) && t@ == transfer_report_of(c, transfer_expiry_of(*payload)),
            None => r == Err::<String, TransferError>(TransferError::NoCode),
        },
{
    let code = match payload.str_field("code") {
        Some(c) => c,
        None => return Err(TransferError::NoCode),
    };
    let expires = match payload.get("transfer") {
        Some(t) => match t.str_field("expiresAt") {
            Some(e) => e,
            None => "",
        },
        None => "",
    };
    proof {
        reveal_strlit("");
    }
    let mut out = to_owned_string("Transfer code: ");
    push_str(&mut out, code);
    push_str(&mut out, "\n");
    let mut tail = to_owned_string("Give this code to the receiving account, then run: suffix accept ");
    push_str(&mut tail, code);
    push_str(&mut tail, "\n");
    if expires.unicode_len() > 0 {
        let mut e = to_owned_string("Expires: ");
        push_str(&mut e, expires);
        push_str(&mut e, "\n");
        push_str(&mut out, e.as_str());
    } else {
        assert(out@ =~= out@ + Seq::<char>::empty());
    }
    push_str(&mut out, tail.as_str());
    assert(out@ =~= transfer_report_of(code@, transfer_expiry_of(*payload)));
    Ok(out)
}

/// The hostname an accepted transfer names, `domain` when the reply has none.
pub open spec fn accepted_domain_of(payload: JsonValue) -> Seq<char> {
    match field(payload, "domain"@) {
        Some(d) => match text_field(d, "hostname"@) {
            Some(h) => h,
            None => "domain"@,
        },
        None => "domain"@,
    }
}

/// The line `suffix accept` prints for the API's reply.
pub fn accepted_report(payload: &JsonValue) -> (r: String)
    ensures
        r@ == "Accepted transfer for "@ + accepted_domain_of(*payload) + ".\n"@,
{
    let domain = match payload.get("domain") {
        Some(d) => match d.str_field("hostname") {
            Some(h) => h,
            None => "domain",
        },
        None => "domain",
    };
    let mut out = to_owned_string("Accepted transfer for ");
    push_str(&mut out, domain);
    push_str(&mut out, ".\n");
    out
}

/// The suffix styles asked for: letters unless only other styles were chosen,
/// then alphanumeric and words as chosen.
pub open spec fn styles_of(letters: bool, alphanumeric: bool, words: bool) -> Seq<Seq<char>> {
    (if letters || (!alphanumeric && !words) { seq!["letters"@] } else { Seq::empty() })
        + (if alphanumeric { seq!["alphanumeric"@] } else { Seq::empty() })
        + (if words { seq!["words"@] } else { Seq::empty() })
}

/// The texts of a list of string slices.
pub open spec fn strs_view(v: Seq<&str>) -> Seq<Seq<char>> {
    v.map_values(|s: &str| s@)
}

pub fn public_tail_styles(letters: bool, alphanumeric: bool, words: bool) -> (r: Vec<&'static str>)
    ensures
        strs_view(r@) == styles_of(letters, alphanumeric, words),
{
    let mut r: Vec<&'static str> = Vec::new();
    if letters || (!alphanumeric && !words) {
        r.push("letters");
    }
    if alphanumeric {
        r.push("alphanumeric");
    }
    if words {
        r.push("words");
    }
    assert(strs_view(r@) =~= styles_of(letters, alphanumeric, words));
    r
}

/// `styles` joined with commas.
pub open spec fn comma_joined(styles: Seq<Seq<char>>) -> Seq<char>
    decreases styles.len(),
{
    if styles.len() == 0 {
        Seq::empty()
    } else if styles.len() == 1 {
        styles[0]
    } else {
        comma_joined(styles.drop_last()) + ","@ + styles.last()
    }
}

/// The resource that asks for public suffix candidates of the given styles.
pub fn candidates_resource(styles: &Vec<&str>) -> (r: String)
    ensures
        r@ == "candidates?styles="@ + comma_joined(strs_view(styles@)),
{
    let mut joined = String::new();
    let mut i: usize = 0;
    while i < styles.len()
        invariant
            i <= styles@.len(),
            joined@ == comma_joined(strs_view(styles@).take(i as int)),
        decreases styles.len() - i,
    {
        proof {
            let t = strs_view(styles@).take(i + 1);
            assert(t.drop_last() =~= strs_view(styles@).take(i as int));
            assert(t.last() == styles@[i as int]@);
            if i == 0 {
                assert(strs_view(styles@).take(0) =~= Seq::<Seq<char>>::empty());
                assert(t[0] == styles@[0]@);
            }
        }
        if i > 0 {
            push_str(&mut joined, ",");
        } else {
            assert(joined@ =~= Seq::<char>::empty());
        }
        push_str(&mut joined, styles[i]);
        i = i + 1;
    }
    assert(strs_view(styles@).take(i as int) =~= strs_view(styles@));
    let mut r = to_owned_string("candidates?styles=");
    push_str(&mut r, joined.as_str());
    r
}

/// Why no public suffix could be offered.
#[derive(Debug, PartialEq, Eq)]
pub enum CandidateError {
    /// The reply has no `candidates` object.
    Missing,
    /// No style offered any candidate.
    NoneAvailable,
}

/// The text values among `items`, in order.
pub open spec fn texts_in(items: Seq<JsonValue>) -> Seq<Seq<char>>
    decreases items.len(),
{
    if items.len() == 0 {
        Seq::empty()
    } else {
        texts_in(items.drop_last()) + match text_of(Some(items.last())) {
            Some(t) => seq![t],
            None => Seq::empty(),
        }
    }
}

/// The candidates offered for `style`: the text items of its array.
pub open spec fn style_candidates(groups: JsonValue, style: Seq<char>) -> Seq<Seq<char>> {
    match array_of(field(groups, style)) {
        Some(items) => texts_in(items),
        None => Seq::empty(),
    }
}

/// The candidates for all `styles`, style by style.
pub open spec fn candidates_of(groups: JsonValue, styles: Seq<Seq<char>>) -> Seq<Seq<char>>
    decreases styles.len(),
{
    if styles.len() == 0 {
        Seq::empty()
    } else {
        candidates_of(groups, styles.drop_last()) + style_candidates(groups, styles.last())
    }
}

fn push_texts(out: &mut Vec<String>, items: &Vec<JsonValue>)
    ensures
        texts_view(final(out)@) == texts_view(old(out)@) + texts_in(items@),
{
    let mut i: usize = 0;
    while i < items.len()
        invariant
            i <= items@.len(),
            texts_view(out@) == texts_view(old(out)@) + texts_in(items@.take(i as int)),
        decreases items.len() - i,
    {
        proof {
            assert(items@.take(i + 1).drop_last() =~= items@.take(i as int));
        }
        let ghost before = out@;
        match items[i].as_str() {
            Some(t) => {
                out.push(to_owned_string(t));
                assert(texts_view(out@) =~= texts_view(before) + seq![t@]);
            },
            None => {},
        }
        i = i + 1;
    }
    assert(items@.take(i as int) =~= items@);
}

/// The public suffix candidates of a reply, in the order of `styles`.
pub fn public_tail_candidates(payload: &JsonValue, styles: &Vec<&str>) -> (r: Result<Vec<String>, CandidateError>)
    ensures
        match field(*payload, "candidates"@) {
            Some(g) if g is Object => {
                let c = candidates_of(g, strs_view(styles@));
                if c.len() == 0 {
                    r == Err::<Vec<String>, CandidateError>(CandidateError::NoneAvailable)
                } else {
                    r matches Ok(v) && texts_view(v@) == c
                }
            },
            _ => r == Err::<Vec<String>, CandidateError>(CandidateError::Missing),
        },
{
    let groups = match payload.get("candidates") {
        Some(g) => g,
        None => return Err(CandidateError::Missing),
    };
    if !matches!(groups, JsonValue::Object(_)) {
        return Err(CandidateError::Missing);
    }
    let mut out: Vec<String> = Vec::new();
    let mut i: usize = 0;
    while i < styles.len()
        invariant
            i <= styles@.len(),
            texts_view(out@) == candidates_of(*groups, strs_view(styles@).take(i as int)),
        decreases styles.len() - i,
    {
        proof {
            let t = strs_view(styles@).take(i + 1);
            assert(t.drop_last() =~= strs_view(styles@).take(i as int));
            assert(t.last() == styles@[i as int]@);
        }
        match groups.array_field(styles[i]) {
            Some(items) => push_texts(&mut out, items),
            None => {
                assert(texts_view(out@) =~= texts_view(out@) + Seq::<Seq<char>>::empty());
            },
        }
        i = i + 1;
    }
    assert(strs_view(styles@).take(i as int) =~= strs_view(styles@));
    if out.len() == 0 {
        return Err(CandidateError::NoneAvailable);
    }
    Ok(out)
}

} // verus!

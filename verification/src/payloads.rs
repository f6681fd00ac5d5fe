//! Request bodies sent to the API.

use vstd::prelude::*;
use crate::json::{
    JsonValue, field, text_of, text_field, u64_of, accepts_members, text_value, empty_object, opt_text_value,
    number_value, holds_opt_text,
};
use crate::text::{decimal, push_decimal, push_str, to_owned_string};
use crate::shortcuts::{PhotoMode, ShortcutAddDomain, DomainChoice};

verus! {

/// The API spelling of a photo mode.
pub open spec fn photo_mode_text(m: PhotoMode) -> Seq<char> {
    match m {
        PhotoMode::Local => "local"@,
        PhotoMode::Remote => "remote"@,
    }
}

pub fn photo_mode_value(m: PhotoMode) -> (r: JsonValue)
    ensures
        text_of(Some(r)) == Some(photo_mode_text(m)),
{
    match m {
        PhotoMode::Local => text_value("local"),
        PhotoMode::Remote => text_value("remote"),
    }
}

/// Marks a shortcut body as a Photo shortcut with the given mode, when `photo` is set.
pub fn shortcut_payload(payload: JsonValue, photo: bool, photo_mode: PhotoMode) -> (r: JsonValue)
    requires
        accepts_members(payload),
    ensures
        !photo ==> r == payload,
        photo ==> {
            &&& r is Object
            &&& text_of(field(r, "type"@)) == Some("photo"@)
            &&& text_of(field(r, "photoMode"@)) == Some(photo_mode_text(photo_mode))
            &&& forall|k: Seq<char>| k != "type"@ && k != "photoMode"@ ==> #[trigger] field(r, k) == field(payload, k)
        },
{
    let mut payload = payload;
    if photo {
        proof {
            reveal_strlit("type");
            reveal_strlit("photoMode");
            assert("type"@.len() != "photoMode"@.len());
        }
        payload.set("type", text_value("photo"));
        payload.set("photoMode", photo_mode_value(photo_mode));
    }
    payload
}

/// The body `suffix add` starts from: tail, target and optional label
/// (`null` when absent).
pub fn add_payload(tail: &str, target_url: &str, title: &Option<String>) -> (r: JsonValue)
    ensures
        r is Object,
        text_field(r, "tail"@) == Some(tail@),
        text_field(r, "targetUrl"@) == Some(target_url@),
        holds_opt_text(field(r, "title"@), *title),
        forall|k: Seq<char>| k != "tail"@ && k != "targetUrl"@ && k != "title"@ ==> #[trigger] field(r, k) is None,
{
    proof {
        reveal_strlit("tail");
        reveal_strlit("targetUrl");
        reveal_strlit("title");
        assert("tail"@.len() != "targetUrl"@.len());
        assert("tail"@.len() != "title"@.len());
        assert("targetUrl"@.len() != "title"@.len());
    }
    let mut r = empty_object();
    r.set("tail", text_value(tail));
    r.set("targetUrl", text_value(target_url));
    r.set("title", opt_text_value(title));
    r
}

/// The body that drops a Photo shortcut's managed photo and protection.
pub fn photo_drop_patch(id: &str, version: u64) -> (r: JsonValue)
    ensures
        r is Object,
        text_field(r, "id"@) == Some(id@),
        u64_of(field(r, "version"@)) == Some(version),
        field(r, "storePhoto"@) == Some(JsonValue::Bool(false)),
        field(r, "serveLocalPhoto"@) == Some(JsonValue::Bool(false)),
        field(r, "preservePhotoPage"@) == Some(JsonValue::Bool(false)),
        field(r, "protectStorage"@) == Some(JsonValue::Bool(false)),
        forall|k: Seq<char>| k != "id"@ && k != "version"@ && k != "storePhoto"@ && k != "serveLocalPhoto"@ && k != "preservePhotoPage"@ && k != "protectStorage"@ ==> #[trigger] field(r, k) is None,
{
    proof {
        reveal_strlit("id");
        reveal_strlit("version");
        reveal_strlit("storePhoto");
        reveal_strlit("serveLocalPhoto");
        reveal_strlit("preservePhotoPage");
        reveal_strlit("protectStorage");
        assert("id"@.len() != "version"@.len());
        assert("id"@.len() != "storePhoto"@.len());
        assert("id"@.len() != "serveLocalPhoto"@.len());
        assert("id"@.len() != "preservePhotoPage"@.len());
        assert("id"@.len() != "protectStorage"@.len());
        assert("version"@.len() != "storePhoto"@.len());
        assert("version"@.len() != "serveLocalPhoto"@.len());
        assert("version"@.len() != "preservePhotoPage"@.len());
        assert("version"@.len() != "protectStorage"@.len());
        assert("storePhoto"@.len() != "serveLocalPhoto"@.len());
        assert("storePhoto"@.len() != "preservePhotoPage"@.len());
        assert("storePhoto"@.len() != "protectStorage"@.len());
        assert("serveLocalPhoto"@.len() != "preservePhotoPage"@.len());
        assert("serveLocalPhoto"@.len() != "protectStorage"@.len());
        assert("preservePhotoPage"@.len() != "protectStorage"@.len());
    }
    let mut r = empty_object();
    r.set("id", text_value(id));
    r.set("version", number_value(version));
    r.set("storePhoto", JsonValue::Bool(false));
    r.set("serveLocalPhoto", JsonValue::Bool(false));
    r.set("preservePhotoPage", JsonValue::Bool(false));
    r.set("protectStorage", JsonValue::Bool(false));
    r
}

/// The body that makes a shortcut a Photo shortcut with the given mode.
pub fn photo_mode_patch(id: &str, version: u64, mode: PhotoMode) -> (r: JsonValue)
    ensures
        r is Object,
        text_field(r, "id"@) == Some(id@),
        u64_of(field(r, "version"@)) == Some(version),
        text_field(r, "type"@) == Some("photo"@),
        text_field(r, "photoMode"@) == Some(photo_mode_text(mode)),
        forall|k: Seq<char>| k != "id"@ && k != "version"@ && k != "type"@ && k != "photoMode"@ ==> #[trigger] field(r, k) is None,
{
    proof {
        reveal_strlit("id");
        reveal_strlit("version");
        reveal_strlit("type");
        reveal_strlit("photoMode");
        assert("id"@.len() != "version"@.len());
        assert("id"@.len() != "type"@.len());
        assert("id"@.len() != "photoMode"@.len());
        assert("version"@.len() != "type"@.len());
        assert("version"@.len() != "photoMode"@.len());
        assert("type"@.len() != "photoMode"@.len());
    }
    let mut r = empty_object();
    r.set("id", text_value(id));
    r.set("version", number_value(version));
    r.set("type", text_value("photo"));
    r.set("photoMode", photo_mode_value(mode));
    r
}

/// The body of `suffix password`: protection on (`add`) or off.
pub fn password_patch(id: &str, version: u64, add: bool) -> (r: JsonValue)
    ensures
        r is Object,
        text_field(r, "id"@) == Some(id@),
        u64_of(field(r, "version"@)) == Some(version),
        field(r, "protectStorage"@) == Some(JsonValue::Bool(add)),
        forall|k: Seq<char>| k != "id"@ && k != "version"@ && k != "protectStorage"@ ==> #[trigger] field(r, k) is None,
{
    proof {
        reveal_strlit("id");
        reveal_strlit("version");
        reveal_strlit("protectStorage");
        assert("id"@.len() != "version"@.len());
        assert("id"@.len() != "protectStorage"@.len());
        assert("version"@.len() != "protectStorage"@.len());
    }
    let mut r = empty_object();
    r.set("id", text_value(id));
    r.set("version", number_value(version));
    r.set("protectStorage", JsonValue::Bool(add));
    r
}

/// The body of `suffix transfer`: the domain, the optional receiving email
/// (`null` when absent) and the code's lifetime.
pub fn transfer_request(domain: &str, to: &Option<String>, minutes: u16) -> (r: JsonValue)
    ensures
        r is Object,
        text_field(r, "domain"@) == Some(domain@),
        holds_opt_text(field(r, "targetEmail"@), *to),
        u64_of(field(r, "lifetimeMinutes"@)) == Some(minutes as u64),
        forall|k: Seq<char>| k != "domain"@ && k != "targetEmail"@ && k != "lifetimeMinutes"@ ==> #[trigger] field(r, k) is None,
{
    proof {
        reveal_strlit("domain");
        reveal_strlit("targetEmail");
        reveal_strlit("lifetimeMinutes");
        assert("domain"@.len() != "targetEmail"@.len());
        assert("domain"@.len() != "lifetimeMinutes"@.len());
        assert("targetEmail"@.len() != "lifetimeMinutes"@.len());
    }
    let mut r = empty_object();
    r.set("domain", text_value(domain));
    r.set("targetEmail", opt_text_value(to));
    r.set("lifetimeMinutes", number_value(minutes as u64));
    r
}

/// The body of `suffix accept`.
pub fn accept_request(code: &str) -> (r: JsonValue)
    ensures
        r is Object,
        text_field(r, "code"@) == Some(code@),
        forall|k: Seq<char>| k != "code"@ ==> #[trigger] field(r, k) is None,
{
    proof {
        reveal_strlit("code");
    }
    let mut r = empty_object();
    r.set("code", text_value(code));
    r
}

/// The body that moves a domain to the account holding `target_key`.
pub fn domain_transfer_payload(domain: &str, target_key: &str) -> (r: JsonValue)
    ensures
        r is Object,
        text_field(r, "action"@) == Some("transfer"@),
        text_field(r, "domain"@) == Some(domain@),
        text_field(r, "targetApiKey"@) == Some(target_key@),
        forall|k: Seq<char>| k != "action"@ && k != "domain"@ && k != "targetApiKey"@ ==> #[trigger] field(r, k) is None,
{
    proof {
        reveal_strlit("action");
        reveal_strlit("domain");
        reveal_strlit("targetApiKey");
        assert("action"@[0] != "domain"@[0]);
        assert("action"@.len() != "targetApiKey"@.len());
        assert("domain"@.len() != "targetApiKey"@.len());
    }
    let mut r = empty_object();
    r.set("action", text_value("transfer"));
    r.set("domain", text_value(domain));
    r.set("targetApiKey", text_value(target_key));
    r
}

/// The body that adds a domain.
pub fn hostname_payload(hostname: &str) -> (r: JsonValue)
    ensures
        r is Object,
        text_field(r, "hostname"@) == Some(hostname@),
        forall|k: Seq<char>| k != "hostname"@ ==> #[trigger] field(r, k) is None,
{
    proof {
        reveal_strlit("hostname");
    }
    let mut r = empty_object();
    r.set("hostname", text_value(hostname));
    r
}

/// The body of `suffix shortcuts create`, before any photo fields.
pub fn create_payload(domain_id: &str, tail: &str, target_url: &str, title: &Option<String>) -> (r: JsonValue)
    ensures
        r is Object,
        text_field(r, "domainId"@) == Some(domain_id@),
        text_field(r, "tail"@) == Some(tail@),
        text_field(r, "targetUrl"@) == Some(target_url@),
        holds_opt_text(field(r, "title"@), *title),
        forall|k: Seq<char>| k != "domainId"@ && k != "tail"@ && k != "targetUrl"@ && k != "title"@ ==> #[trigger] field(r, k) is None,
{
    proof {
        reveal_strlit("domainId");
        reveal_strlit("tail");
        reveal_strlit("targetUrl");
        reveal_strlit("title");
        assert("domainId"@.len() != "tail"@.len());
        assert("domainId"@.len() != "targetUrl"@.len());
        assert("domainId"@.len() != "title"@.len());
        assert("tail"@.len() != "targetUrl"@.len());
        assert("tail"@.len() != "title"@.len());
        assert("targetUrl"@.len() != "title"@.len());
    }
    let mut r = empty_object();
    r.set("domainId", text_value(domain_id));
    r.set("tail", text_value(tail));
    r.set("targetUrl", text_value(target_url));
    r.set("title", opt_text_value(title));
    r
}

/// The body of `suffix shortcuts update`, before any photo fields.
pub fn update_payload(id: &str, version: u64, domain_id: &str, tail: &str, target_url: &str, title: &Option<String>, active: bool) -> (r: JsonValue)
    ensures
        r is Object,
        text_field(r, "id"@) == Some(id@),
        u64_of(field(r, "version"@)) == Some(version),
        text_field(r, "domainId"@) == Some(domain_id@),
        text_field(r, "tail"@) == Some(tail@),
        text_field(r, "targetUrl"@) == Some(target_url@),
        holds_opt_text(field(r, "title"@), *title),
        field(r, "isActive"@) == Some(JsonValue::Bool(active)),
        forall|k: Seq<char>| k != "id"@ && k != "version"@ && k != "domainId"@ && k != "tail"@ && k != "targetUrl"@ && k != "title"@ && k != "isActive"@ ==> #[trigger] field(r, k) is None,
{
    proof {
        reveal_strlit("id");
        reveal_strlit("version");
        reveal_strlit("domainId");
        reveal_strlit("tail");
        reveal_strlit("targetUrl");
        reveal_strlit("title");
        reveal_strlit("isActive");
        assert("id"@.len() != "version"@.len());
        assert("id"@.len() != "domainId"@.len());
        assert("id"@.len() != "tail"@.len());
        assert("id"@.len() != "targetUrl"@.len());
        assert("id"@.len() != "title"@.len());
        assert("id"@.len() != "isActive"@.len());
        assert("version"@.len() != "domainId"@.len());
        assert("version"@.len() != "tail"@.len());
        assert("version"@.len() != "targetUrl"@.len());
        assert("version"@.len() != "title"@.len());
        assert("version"@.len() != "isActive"@.len());
        assert("domainId"@.len() != "tail"@.len());
        assert("domainId"@.len() != "targetUrl"@.len());
        assert("domainId"@.len() != "title"@.len());
        assert("domainId"@[0] != "isActive"@[0]);
        assert("tail"@.len() != "targetUrl"@.len());
        assert("tail"@.len() != "title"@.len());
        assert("tail"@.len() != "isActive"@.len());
        assert("targetUrl"@.len() != "title"@.len());
        assert("targetUrl"@.len() != "isActive"@.len());
        assert("title"@.len() != "isActive"@.len());
    }
    let mut r = empty_object();
    r.set("id", text_value(id));
    r.set("version", number_value(version));
    r.set("domainId", text_value(domain_id));
    r.set("tail", text_value(tail));
    r.set("targetUrl", text_value(target_url));
    r.set("title", opt_text_value(title));
    r.set("isActive", JsonValue::Bool(active));
    r
}

/// The shortcut body of an uploaded file: its download URL is the target.
pub fn file_payload(tail: &str, download_url: &str, blob_url: &str, file_name: &str, title: &Option<String>) -> (r: JsonValue)
    ensures
        r is Object,
        text_field(r, "type"@) == Some("file"@),
        text_field(r, "tail"@) == Some(tail@),
        text_field(r, "targetUrl"@) == Some(download_url@),
        text_field(r, "fileUrl"@) == Some(blob_url@),
        text_field(r, "fileName"@) == Some(file_name@),
        holds_opt_text(field(r, "title"@), *title),
        forall|k: Seq<char>| k != "type"@ && k != "tail"@ && k != "targetUrl"@ && k != "fileUrl"@ && k != "fileName"@ && k != "title"@ ==> #[trigger] field(r, k) is None,
{
    proof {
        reveal_strlit("type");
        reveal_strlit("tail");
        reveal_strlit("targetUrl");
        reveal_strlit("fileUrl");
        reveal_strlit("fileName");
        reveal_strlit("title");
        assert("type"@[1] != "tail"@[1]);
        assert("type"@.len() != "targetUrl"@.len());
        assert("type"@.len() != "fileUrl"@.len());
        assert("type"@.len() != "fileName"@.len());
        assert("type"@.len() != "title"@.len());
        assert("tail"@.len() != "targetUrl"@.len());
        assert("tail"@.len() != "fileUrl"@.len());
        assert("tail"@.len() != "fileName"@.len());
        assert("tail"@.len() != "title"@.len());
        assert("targetUrl"@.len() != "fileUrl"@.len());
        assert("targetUrl"@.len() != "fileName"@.len());
        assert("targetUrl"@.len() != "title"@.len());
        assert("fileUrl"@.len() != "fileName"@.len());
        assert("fileUrl"@.len() != "title"@.len());
        assert("fileName"@.len() != "title"@.len());
    }
    let mut r = empty_object();
    r.set("type", text_value("file"));
    r.set("tail", text_value(tail));
    r.set("targetUrl", text_value(download_url));
    r.set("fileUrl", text_value(blob_url));
    r.set("fileName", text_value(file_name));
    r.set("title", opt_text_value(title));
    r
}

/// The body that asks the API to delete an uploaded file again.
pub fn cleanup_payload(blob_url: &str) -> (r: JsonValue)
    ensures
        r is Object,
        text_field(r, "action"@) == Some("cleanup"@),
        text_field(r, "url"@) == Some(blob_url@),
        forall|k: Seq<char>| k != "action"@ && k != "url"@ ==> #[trigger] field(r, k) is None,
{
    proof {
        reveal_strlit("action");
        reveal_strlit("url");
        assert("action"@.len() != "url"@.len());
    }
    let mut r = empty_object();
    r.set("action", text_value("cleanup"));
    r.set("url", text_value(blob_url));
    r
}

/// The `payload` part of an upload-token request.
fn token_request_fields(pathname: &str, size: u64) -> (r: JsonValue)
    ensures
        r is Object,
        text_field(r, "pathname"@) == Some(pathname@),
        field(r, "multipart"@) == Some(JsonValue::Bool(false)),
        text_field(r, "clientPayload"@) == Some(client_payload_of(size)),
        forall|k: Seq<char>| k != "pathname"@ && k != "multipart"@ && k != "clientPayload"@ ==> #[trigger] field(r, k) is None,
{
    proof {
        reveal_strlit("pathname");
        reveal_strlit("multipart");
        reveal_strlit("clientPayload");
        assert("pathname"@.len() != "multipart"@.len());
        assert("pathname"@.len() != "clientPayload"@.len());
        assert("multipart"@.len() != "clientPayload"@.len());
    }
    let mut r = empty_object();
    r.set("pathname", text_value(pathname));
    r.set("multipart", JsonValue::Bool(false));
    r.set("clientPayload", text_value(client_payload_text(size).as_str()));
    r
}

/// A new shortcut's body: tail, target and label, marked as a Photo shortcut
/// when `photo` is set.
pub fn new_shortcut_payload(tail: &str, target_url: &str, title: &Option<String>, photo: bool, photo_mode: PhotoMode) -> (r: JsonValue)
    ensures
        r is Object,
        text_field(r, "tail"@) == Some(tail@),
        text_field(r, "targetUrl"@) == Some(target_url@),
        holds_opt_text(field(r, "title"@), *title),
        photo ==> text_of(field(r, "type"@)) == Some("photo"@) && text_of(field(r, "photoMode"@)) == Some(photo_mode_text(photo_mode)),
        forall|k: Seq<char>| k != "tail"@ && k != "targetUrl"@ && k != "title"@ && (!photo || (k != "type"@ && k != "photoMode"@)) ==> #[trigger] field(r, k) is None,
{
    proof {
        reveal_strlit("tail");
        reveal_strlit("targetUrl");
        reveal_strlit("title");
        reveal_strlit("type");
        reveal_strlit("photoMode");
        assert("tail"@[1] != "type"@[1]);
        assert("tail"@.len() != "photoMode"@.len());
        assert("targetUrl"@.len() != "type"@.len());
        assert("targetUrl"@[0] != "photoMode"@[0]);
        assert("title"@.len() != "type"@.len());
        assert("title"@.len() != "photoMode"@.len());
    }
    let base = add_payload(tail, target_url, title);
    shortcut_payload(base, photo, photo_mode)
}

/// The body of `suffix photo`: drop the managed photo, or switch to the local
/// or remote mode.
pub fn photo_patch(id: &str, version: u64, drop: bool, local: bool) -> (r: JsonValue)
    ensures
        r is Object,
        text_field(r, "id"@) == Some(id@),
        u64_of(field(r, "version"@)) == Some(version),
        drop ==> field(r, "storePhoto"@) == Some(JsonValue::Bool(false)) && field(r, "serveLocalPhoto"@) == Some(JsonValue::Bool(false))
            && field(r, "preservePhotoPage"@) == Some(JsonValue::Bool(false)) && field(r, "protectStorage"@) == Some(JsonValue::Bool(false))
            && forall|k: Seq<char>| k != "id"@ && k != "version"@ && k != "storePhoto"@ && k != "serveLocalPhoto"@ && k != "preservePhotoPage"@ && k != "protectStorage"@ ==> #[trigger] field(r, k) is None,
        !drop ==> text_field(r, "type"@) == Some("photo"@)
            && text_field(r, "photoMode"@) == Some(photo_mode_text(if local { PhotoMode::Local } else { PhotoMode::Remote }))
            && forall|k: Seq<char>| k != "id"@ && k != "version"@ && k != "type"@ && k != "photoMode"@ ==> #[trigger] field(r, k) is None,
{
    if drop {
        photo_drop_patch(id, version)
    } else {
        let mode = if local { PhotoMode::Local } else { PhotoMode::Remote };
        photo_mode_patch(id, version, mode)
    }
}

/// Why a storage password was not applied.
#[derive(Debug, PartialEq, Eq)]
pub enum PasswordError {
    /// Protection was asked for, but no password could be read (no terminal, no file).
    Unavailable,
    /// The password is not 8 to 128 characters long.
    Length,
}

/// Whether a storage password has an accepted length: 8 to 128 characters.
pub open spec fn password_fits(p: Seq<char>) -> bool {
    8 <= p.len() <= 128
}

/// `s` without its trailing carriage returns and line feeds.
pub open spec fn without_line_ends(s: Seq<char>) -> Seq<char>
    decreases s.len(),
{
    if s.len() > 0 && (s.last() == '\r' || s.last() == '\n') {
        without_line_ends(s.drop_last())
    } else {
        s
    }
}

/// The password a password file holds: its text without trailing line ends.
pub fn password_from_file(contents: &str) -> (r: String)
    ensures
        r@ == without_line_ends(contents@),
{
    let v = crate::text::chars_of(contents);
    let mut end: usize = v.len();
    assert(v@.take(end as int) =~= v@);
    while end > 0 && (v[end - 1] == '\r' || v[end - 1] == '\n')
        invariant
            end <= v@.len(),
            without_line_ends(v@.take(end as int)) == without_line_ends(v@),
        decreases end,
    {
        proof {
            assert(v@.take(end as int).drop_last() =~= v@.take(end - 1));
        }
        end = end - 1;
    }
    proof {
        if end > 0 {
            assert(v@.take(end as int).last() == v@[end - 1]);
        }
    }
    crate::text::string_of(&v, 0, end)
}

/// Adds storage protection with `password` when `protect` is set: `protectStorage`
/// becomes true and `storagePassword` the password. Without a password, or with
/// one of the wrong length, nothing changes and the error says why.
pub fn apply_storage_password(payload: &mut JsonValue, protect: bool, password: Option<String>) -> (r: Result<(), PasswordError>)
    requires
        accepts_members(*old(payload)),
    ensures
        !protect ==> r is Ok && *final(payload) == *old(payload),
        protect ==> match password {
            None => r == Err::<(), PasswordError>(PasswordError::Unavailable) && *final(payload) == *old(payload),
            Some(p) => if !password_fits(p@) {
                r == Err::<(), PasswordError>(PasswordError::Length) && *final(payload) == *old(payload)
            } else {
                &&& r is Ok
                &&& field(*final(payload), "protectStorage"@) == Some(JsonValue::Bool(true))
                &&& text_field(*final(payload), "storagePassword"@) == Some(p@)
                &&& forall|k: Seq<char>| k != "protectStorage"@ && k != "storagePassword"@ ==> #[trigger] field(*final(payload), k) == field(*old(payload), k)
            },
        },
{
    if !protect {
        return Ok(());
    }
    let password = match password {
        Some(p) => p,
        None => return Err(PasswordError::Unavailable),
    };
    let n = password.as_str().unicode_len();
    if n < 8 || n > 128 {
        return Err(PasswordError::Length);
    }
    proof {
        reveal_strlit("protectStorage");
        reveal_strlit("storagePassword");
        assert("protectStorage"@[0] != "storagePassword"@[0]);
    }
    payload.set("protectStorage", JsonValue::Bool(true));
    payload.set("storagePassword", text_value(password.as_str()));
    Ok(())
}

/// Puts the chosen domain into a shortcut body: a hostname as `domain`, an ID as
/// `domainId`, and for the default choice `default_domain_id` as `domainId`.
pub fn apply_domain(payload: &mut JsonValue, domain: &ShortcutAddDomain, default_domain_id: &str)
    requires
        accepts_members(*old(payload)),
    ensures
        match domain@ {
            DomainChoice::Hostname(h) => text_field(*final(payload), "domain"@) == Some(h)
                && forall|k: Seq<char>| k != "domain"@ ==> #[trigger] field(*final(payload), k) == field(*old(payload), k),
            DomainChoice::Id(i) => text_field(*final(payload), "domainId"@) == Some(i)
                && forall|k: Seq<char>| k != "domainId"@ ==> #[trigger] field(*final(payload), k) == field(*old(payload), k),
            DomainChoice::Default => text_field(*final(payload), "domainId"@) == Some(default_domain_id@)
                && forall|k: Seq<char>| k != "domainId"@ ==> #[trigger] field(*final(payload), k) == field(*old(payload), k),
        },
{
    match domain {
        ShortcutAddDomain::Hostname(h) => payload.set("domain", text_value(h.as_str())),
        ShortcutAddDomain::Id(i) => payload.set("domainId", text_value(i.as_str())),
        ShortcutAddDomain::Default => payload.set("domainId", text_value(default_domain_id)),
    }
}

/// A member's value, or `dflt` when it is absent (`get(..).cloned().unwrap_or(..)`).
pub open spec fn member_or(v: Option<JsonValue>, dflt: JsonValue) -> JsonValue {
    match v {
        Some(x) => x,
        None => dflt,
    }
}

/// Turns a new shortcut body into an edit of `existing`: its `id` and `version`
/// (null when missing) and its `isActive` (true when missing).
pub fn edit_existing_payload(payload: &mut JsonValue, existing: JsonValue)
    requires
        accepts_members(*old(payload)),
    ensures
        field(*final(payload), "id"@) == Some(member_or(field(existing, "id"@), JsonValue::Null)),
        field(*final(payload), "version"@) == Some(member_or(field(existing, "version"@), JsonValue::Null)),
        field(*final(payload), "isActive"@) == Some(member_or(field(existing, "isActive"@), JsonValue::Bool(true))),
        forall|k: Seq<char>| k != "id"@ && k != "version"@ && k != "isActive"@ ==> #[trigger] field(*final(payload), k) == field(*old(payload), k),
{
    proof {
        reveal_strlit("id");
        reveal_strlit("version");
        reveal_strlit("isActive");
        assert("id"@.len() != "version"@.len());
        assert("id"@.len() != "isActive"@.len());
        assert("version"@.len() != "isActive"@.len());
    }
    let ghost e0 = existing;
    let mut existing = existing;
    let id = match existing.take_member("id") {
        Some(v) => v,
        None => JsonValue::Null,
    };
    let version = match existing.take_member("version") {
        Some(v) => v,
        None => JsonValue::Null,
    };
    let active = match existing.take_member("isActive") {
        Some(v) => v,
        None => JsonValue::Bool(true),
    };
    payload.set("id", id);
    payload.set("version", version);
    payload.set("isActive", active);
}

/// The arguments of `suffix edit`.
pub struct EditArgs {
    pub id: String,
    pub tail: Option<String>,
    pub target_url: Option<String>,
    pub title: Option<String>,
    pub active: Option<bool>,
    pub account: Option<String>,
    pub version: Option<u64>,
}

/// Why an edit was refused.
#[derive(Debug, PartialEq, Eq)]
pub enum EditError {
    /// None of tail, target, label or active state was given.
    NothingToChange,
}

/// Whether an edit changes anything: one of its optional fields is given.
pub open spec fn edit_changes(a: EditArgs) -> bool {
    a.tail is Some || a.target_url is Some || a.title is Some || a.active is Some
}

/// Refuses an edit that changes nothing.
pub fn check_edit(args: &EditArgs) -> (r: Result<(), EditError>)
    ensures
        r is Ok <==> edit_changes(*args),
        r matches Err(e) ==> e == EditError::NothingToChange,
{
    if args.tail.is_none() && args.target_url.is_none() && args.title.is_none() && args.active.is_none() {
        Err(EditError::NothingToChange)
    } else {
        Ok(())
    }
}

/// Whether member `key` of `r` holds the optional text `t`, and is absent without it.
pub open spec fn opt_text_member(r: JsonValue, key: Seq<char>, t: Option<String>) -> bool {
    match t {
        Some(x) => text_field(r, key) == Some(x@),
        None => field(r, key) is None,
    }
}

/// The body of `suffix edit`: ID and version, then each field that was given.
pub fn edit_payload(args: &EditArgs, version: u64) -> (r: JsonValue)
    ensures
        r is Object,
        text_field(r, "id"@) == Some(args.id@),
        u64_of(field(r, "version"@)) == Some(version),
        opt_text_member(r, "tail"@, args.tail),
        opt_text_member(r, "targetUrl"@, args.target_url),
        opt_text_member(r, "title"@, args.title),
        match args.active {
            Some(b) => field(r, "isActive"@) == Some(JsonValue::Bool(b)),
            None => field(r, "isActive"@) is None,
        },
        forall|k: Seq<char>| k != "id"@ && k != "version"@ && k != "tail"@ && k != "targetUrl"@ && k != "title"@ && k != "isActive"@
            ==> #[trigger] field(r, k) is None,
{
    proof {
        reveal_strlit("id");
        reveal_strlit("version");
        reveal_strlit("tail");
        reveal_strlit("targetUrl");
        reveal_strlit("title");
        reveal_strlit("isActive");
        assert("id"@.len() != "version"@.len());
        assert("id"@.len() != "tail"@.len());
        assert("id"@.len() != "targetUrl"@.len());
        assert("id"@.len() != "title"@.len());
        assert("id"@.len() != "isActive"@.len());
        assert("version"@.len() != "tail"@.len());
        assert("version"@.len() != "targetUrl"@.len());
        assert("version"@.len() != "title"@.len());
        assert("version"@.len() != "isActive"@.len());
        assert("tail"@.len() != "targetUrl"@.len());
        assert("tail"@.len() != "title"@.len());
        assert("tail"@.len() != "isActive"@.len());
        assert("targetUrl"@.len() != "title"@.len());
        assert("targetUrl"@[0] != "isActive"@[0]);
        assert("title"@.len() != "isActive"@.len());
    }
    let mut r = empty_object();
    r.set("id", text_value(args.id.as_str()));
    r.set("version", number_value(version));
    if let Some(t) = &args.tail {
        r.set("tail", text_value(t.as_str()));
    }
    if let Some(t) = &args.target_url {
        r.set("targetUrl", text_value(t.as_str()));
    }
    if let Some(t) = &args.title {
        r.set("title", text_value(t.as_str()));
    }
    if let Some(b) = args.active {
        r.set("isActive", JsonValue::Bool(b));
    }
    r
}

/// The `clientPayload` text of an upload-token request: `{"size":N}`.
pub open spec fn client_payload_of(size: u64) -> Seq<char> {
    "{\"size\":"@ + decimal(size as nat) + "}"@
}

fn client_payload_text(size: u64) -> (r: String)
    ensures
        r@ == client_payload_of(size),
{
    let mut r = to_owned_string("{\"size\":");
    push_decimal(&mut r, size);
    push_str(&mut r, "}");
    r
}

/// Whether `p` is the `payload` part of an upload-token request for `pathname`
/// and a file of `size` bytes.
pub open spec fn token_fields_of(p: JsonValue, pathname: Seq<char>, size: u64) -> bool {
    &&& p is Object
    &&& text_field(p, "pathname"@) == Some(pathname)
    &&& field(p, "multipart"@) == Some(JsonValue::Bool(false))
    &&& text_field(p, "clientPayload"@) == Some(client_payload_of(size))
    &&& forall|k: Seq<char>| k != "pathname"@ && k != "multipart"@ && k != "clientPayload"@ ==> #[trigger] field(p, k) is None
}

/// The request for a client token that lets the file be stored under `pathname`.
pub fn upload_token_request(pathname: &str, size: u64) -> (r: JsonValue)
    ensures
        r is Object,
        text_field(r, "type"@) == Some("blob.generate-client-token"@),
        field(r, "payload"@) matches Some(p) && token_fields_of(p, pathname@, size),
        forall|k: Seq<char>| k != "type"@ && k != "payload"@ ==> #[trigger] field(r, k) is None,
{
    proof {
        reveal_strlit("type");
        reveal_strlit("payload");
        assert("type"@[0] != "payload"@[0]);
    }
    let fields = token_request_fields(pathname, size);
    let mut r = empty_object();
    r.set("type", text_value("blob.generate-client-token"));
    r.set("payload", fields);
    r
}

} // verus!

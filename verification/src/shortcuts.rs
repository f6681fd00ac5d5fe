//! Resolving `suffix add` and `suffix upload` arguments into a shortcut's
//! domain, tail and target, and the naming rules for uploaded files.

use vstd::prelude::*;
use crate::trusted::push_char;
use crate::text::{
    chars_of, find_char, first_index, has_char, same_text, string_of, to_owned_string, trim,
    trim_bounds, push_str,
};
use crate::trusted::{
    parse_last_segment, parse_scheme, parse_serialization, url_last_segment, url_scheme,
    url_serialization, file_extension, path_extension, random_bits, plain_file_name, plain_extension,
};
use crate::text::{ascii_lowercase, ascii_lowercase_string, opt_seq};
use crate::accounts::{login_email_of, looks_like_email};

verus! {

/// Whether `value` parses as an absolute `http` or `https` URL.
pub open spec fn is_web_url(value: Seq<char>) -> bool {
    url_scheme(value) matches Some(s) && (s == "http"@ || s == "https"@)
}

pub fn looks_like_url(value: &str) -> (r: bool)
    ensures
        r == is_web_url(value@),
{
    match parse_scheme(value) {
        Some(s) => same_text(s.as_str(), "http") || same_text(s.as_str(), "https"),
        None => false,
    }
}

/// The tail a target URL suggests: its last non-empty path segment, else `link`.
pub open spec fn derived_tail(target_url: Seq<char>) -> Seq<char> {
    match url_last_segment(target_url) {
        Some(t) => if t.len() > 0 {
            t
        } else {
            "link"@
        },
        None => "link"@,
    }
}

pub fn derive_tail(target_url: &str) -> (r: String)
    ensures
        r@ == derived_tail(target_url@),
{
    match parse_last_segment(target_url) {
        Some(t) => if t.as_str().unicode_len() > 0 {
            t
        } else {
            to_owned_string("link")
        },
        None => to_owned_string("link"),
    }
}

/// Whether two targets are the same: equal parsed URLs when both parse, else equal
/// after trimming.
pub open spec fn same_target_spec(left: Seq<char>, right: Seq<char>) -> bool {
    match (url_serialization(left), url_serialization(right)) {
        (Some(a), Some(b)) => a == b,
        _ => trim(left) == trim(right),
    }
}

pub fn same_target(left: &str, right: &str) -> (r: bool)
    ensures
        r == same_target_spec(left@, right@),
{
    match (parse_serialization(left), parse_serialization(right)) {
        (Some(a), Some(b)) => same_text(a.as_str(), b.as_str()),
        _ => {
            let l = crate::text::trim_string(left);
            let r = crate::text::trim_string(right);
            same_text(l.as_str(), r.as_str())
        },
    }
}

/// The host and tail of a `HOST/TAIL` locator: split at the first `/`, both parts
/// non-empty, and no further `/` in the tail.
pub open spec fn locator_parts(value: Seq<char>) -> Option<(Seq<char>, Seq<char>)> {
    match first_index(value, '/') {
        Some(i) => {
            let host = value.take(i);
            let tail = value.skip(i + 1);
            if host.len() > 0 && tail.len() > 0 && !tail.contains('/') {
                Some((host, tail))
            } else {
                None
            }
        },
        None => None,
    }
}

/// Why `add` or `upload` arguments do not name a shortcut.
#[derive(Debug, PartialEq, Eq)]
pub enum AddError {
    /// Both `-d/--domain` and `--domain-id` were given.
    DomainAndId,
    /// `--public` needs a URL, or a tail and a URL.
    PublicUsage,
    /// `-d HOST` needs a tail and a URL.
    DomainUsage,
    /// A target URL was given where a `HOST/TAIL` form was expected.
    LocatorUsage,
    /// The shortcut is not of the form `HOST/TAIL`.
    Locator,
}

/// Splits `HOST/TAIL`.
pub fn split_shortcut_locator(value: &str) -> (r: Result<(String, String), AddError>)
    ensures
        match locator_parts(value@) {
            Some((h, t)) => r matches Ok((a, b)) && a@ == h && b@ == t,
            None => r == Err::<(String, String), AddError>(AddError::Locator),
        },
{
    let v = chars_of(value);
    match find_char(&v, '/') {
        None => Err(AddError::Locator),
        Some(i) => {
            let host = string_of(&v, 0, i);
            let tail = string_of(&v, i + 1, v.len());
            let t = chars_of(tail.as_str());
            proof {
                assert(host@ =~= value@.take(i as int));
                assert(tail@ =~= value@.skip(i + 1));
            }
            if i == 0 || t.len() == 0 || has_char(&t, '/') {
                Err(AddError::Locator)
            } else {
                Ok((host, tail))
            }
        },
    }
}

/// Photo source for a Photo shortcut.
#[derive(Debug, Clone, Copy, PartialEq, Eq)]
pub enum PhotoMode {
    /// Serve the account-stored copy.
    Local,
    /// Resolve to the original image.
    Remote,
}

/// The arguments of `suffix add`.
pub struct AddArgs {
    pub domain: Option<String>,
    pub public: bool,
    pub letters: bool,
    pub alphanumeric: bool,
    pub words: bool,
    pub value: String,
    pub tail: Option<String>,
    pub target_url: Option<String>,
    pub account: Option<String>,
    pub domain_id: Option<String>,
    pub title: Option<String>,
    pub photo: bool,
    pub photo_mode: PhotoMode,
    pub allow_duplicate_target: bool,
    pub edit_existing: bool,
    pub protect: bool,
    pub password_file: Option<String>,
}

/// Which domain a new shortcut goes to.
#[derive(Debug, PartialEq, Eq)]
pub enum ShortcutAddDomain {
    /// The account's first owned domain.
    Default,
    /// A domain by ID.
    Id(String),
    /// A domain by hostname.
    Hostname(String),
}

/// The abstract domain choice.
pub enum DomainChoice {
    Default,
    Id(Seq<char>),
    Hostname(Seq<char>),
}

impl View for ShortcutAddDomain {
    type V = DomainChoice;

    open spec fn view(&self) -> DomainChoice {
        match self {
            ShortcutAddDomain::Default => DomainChoice::Default,
            ShortcutAddDomain::Id(s) => DomainChoice::Id(s@),
            ShortcutAddDomain::Hostname(s) => DomainChoice::Hostname(s@),
        }
    }
}

/// Domain, tail and target of a shortcut to create.
#[derive(Debug, PartialEq, Eq)]
pub struct ShortcutAddFields {
    pub domain: ShortcutAddDomain,
    pub tail: String,
    pub target_url: String,
}

impl View for ShortcutAddFields {
    type V = (DomainChoice, Seq<char>, Seq<char>);

    open spec fn view(&self) -> (DomainChoice, Seq<char>, Seq<char>) {
        (self.domain@, self.tail@, self.target_url@)
    }
}

/// The public shortcut hostname.
pub open spec fn public_host() -> Seq<char> {
    "suf.cx"@
}

/// Whether an optional argument holds text that is not an email address.
pub open spec fn non_email(o: Option<String>) -> bool {
    o matches Some(u) && login_email_of(u@) is Err
}

/// What `suffix add` arguments resolve to.
pub open spec fn add_fields_of(a: AddArgs) -> Result<(DomainChoice, Seq<char>, Seq<char>), AddError> {
    if a.domain is Some && a.domain_id is Some {
        Err(AddError::DomainAndId)
    } else if a.public {
        if a.tail matches Some(t) && is_web_url(t@) {
            Ok((DomainChoice::Hostname(public_host()), a.value@, (a.tail->0)@))
        } else if !is_web_url(a.value@) {
            Err(AddError::PublicUsage)
        } else {
            Ok((DomainChoice::Hostname(public_host()), Seq::empty(), a.value@))
        }
    } else if a.domain is Some {
        if non_email(a.target_url) {
            Ok((DomainChoice::Hostname((a.domain->0)@), a.value@, (a.target_url->0)@))
        } else if a.tail is Some {
            Ok((DomainChoice::Hostname((a.domain->0)@), a.value@, (a.tail->0)@))
        } else {
            Err(AddError::DomainUsage)
        }
    } else if non_email(a.target_url) {
        Err(AddError::LocatorUsage)
    } else if a.tail matches Some(t) && !is_web_url(a.value@) && is_web_url(t@) {
        match locator_parts(a.value@) {
            Some((h, tail)) => Ok((DomainChoice::Hostname(h), tail, (a.tail->0)@)),
            None => Err(AddError::Locator),
        }
    } else {
        Ok(
            (
                match a.domain_id {
                    Some(id) => DomainChoice::Id(id@),
                    None => DomainChoice::Default,
                },
                match a.tail {
                    Some(t) => t@,
                    None => derived_tail(a.value@),
                },
                a.value@,
            ),
        )
    }
}

fn copy_opt(o: &Option<String>) -> (r: Option<String>)
    ensures
        opt_seq_eq(r, *o),
{
    match o {
        Some(s) => Some(s.clone()),
        None => None,
    }
}

pub open spec fn opt_seq_eq(a: Option<String>, b: Option<String>) -> bool {
    crate::text::opt_seq(a) == crate::text::opt_seq(b)
}

/// Resolves `suffix add` arguments into the shortcut's domain, tail and target.
pub fn shortcut_add_fields(args: &AddArgs) -> (r: Result<ShortcutAddFields, AddError>)
    ensures
        add_fields_of(*args) == match r {
            Ok(f) => Ok(f@),
            Err(e) => Err(e),
        },
{
    if args.domain.is_some() && args.domain_id.is_some() {
        return Err(AddError::DomainAndId);
    }
    if args.public {
        if let Some(t) = &args.tail {
            if looks_like_url(t.as_str()) {
                return Ok(
                    ShortcutAddFields {
                        domain: ShortcutAddDomain::Hostname(to_owned_string("suf.cx")),
                        tail: args.value.clone(),
                        target_url: t.clone(),
                    },
                );
            }
        }
        if !looks_like_url(args.value.as_str()) {
            return Err(AddError::PublicUsage);
        }
        return Ok(
            ShortcutAddFields {
                domain: ShortcutAddDomain::Hostname(to_owned_string("suf.cx")),
                tail: String::new(),
                target_url: args.value.clone(),
            },
        );
    }
    let target_not_email = match &args.target_url {
        Some(u) => !looks_like_email(u.as_str()),
        None => false,
    };
    if let Some(hostname) = &args.domain {
        let target = if target_not_email {
            copy_opt(&args.target_url)
        } else {
            copy_opt(&args.tail)
        };
        return match target {
            Some(t) => Ok(
                ShortcutAddFields {
                    domain: ShortcutAddDomain::Hostname(hostname.clone()),
                    tail: args.value.clone(),
                    target_url: t,
                },
            ),
            None => Err(AddError::DomainUsage),
        };
    }
    if target_not_email {
        return Err(AddError::LocatorUsage);
    }
    if let Some(t) = &args.tail {
        if !looks_like_url(args.value.as_str()) && looks_like_url(t.as_str()) {
            return match split_shortcut_locator(args.value.as_str()) {
                Ok((hostname, tail)) => Ok(
                    ShortcutAddFields {
                        domain: ShortcutAddDomain::Hostname(hostname),
                        tail,
                        target_url: t.clone(),
                    },
                ),
                Err(e) => Err(e),
            };
        }
    }
    let domain = match &args.domain_id {
        Some(id) => ShortcutAddDomain::Id(id.clone()),
        None => ShortcutAddDomain::Default,
    };
    let tail = match &args.tail {
        Some(t) => t.clone(),
        None => derive_tail(args.value.as_str()),
    };
    Ok(ShortcutAddFields { domain, tail, target_url: args.value.clone() })
}

/// The account an `add` runs against: the explicit account, else a trailing
/// email-like argument.
pub open spec fn add_account_of(a: AddArgs) -> Option<Seq<char>> {
    match a.account {
        Some(x) => Some(x@),
        None => match a.target_url {
            Some(u) => if login_email_of(u@) is Ok {
                Some(u@)
            } else {
                None
            },
            None => None,
        },
    }
}

pub fn add_account(args: &AddArgs) -> (r: Option<&str>)
    ensures
        add_account_of(*args) == match r {
            Some(s) => Some(s@),
            None => None,
        },
{
    if let Some(a) = &args.account {
        return Some(a.as_str());
    }
    match &args.target_url {
        Some(u) => if looks_like_email(u.as_str()) {
            Some(u.as_str())
        } else {
            None
        },
        None => None,
    }
}


/// The arguments of `suffix upload`.
pub struct UploadArgs {
    pub domain: Option<String>,
    pub value: String,
    pub file: String,
    pub account: Option<String>,
    pub domain_id: Option<String>,
    pub title: Option<String>,
    pub protect: bool,
    pub password_file: Option<String>,
}

/// Where an upload's shortcut goes: `-d HOST` with `VALUE` as tail; else a
/// `HOST/TAIL` value; else `--domain-id` (or the default domain) with `VALUE` as tail.
pub open spec fn upload_locator_of(a: UploadArgs) -> (DomainChoice, Seq<char>) {
    match a.domain {
        Some(h) => (DomainChoice::Hostname(h@), a.value@),
        None => match locator_parts(a.value@) {
            Some((h, t)) => (DomainChoice::Hostname(h), t),
            None => (
                match a.domain_id {
                    Some(id) => DomainChoice::Id(id@),
                    None => DomainChoice::Default,
                },
                a.value@,
            ),
        },
    }
}

pub fn upload_locator(args: &UploadArgs) -> (r: Result<(ShortcutAddDomain, String), AddError>)
    ensures
        r matches Ok((d, t)) && (d@, t@) == upload_locator_of(*args),
{
    if let Some(hostname) = &args.domain {
        return Ok((ShortcutAddDomain::Hostname(hostname.clone()), args.value.clone()));
    }
    if let Ok((hostname, tail)) = split_shortcut_locator(args.value.as_str()) {
        return Ok((ShortcutAddDomain::Hostname(hostname), tail));
    }
    let domain = match &args.domain_id {
        Some(id) => ShortcutAddDomain::Id(id.clone()),
        None => ShortcutAddDomain::Default,
    };
    Ok((domain, args.value.clone()))
}

/// Unicode general category Cc (`char::is_control`).
pub open spec fn is_control(c: char) -> bool {
    (c as u32) <= 0x1f || (0x7f <= (c as u32) && (c as u32) <= 0x9f)
}

/// Path separators and control characters become `_`.
pub open spec fn upload_char(c: char) -> char {
    if c == '/' || c == '\\' || is_control(c) {
        '_'
    } else {
        c
    }
}

/// The name an uploaded file is stored under: separators and control characters
/// replaced, trimmed, `download` in place of an empty, `.` or `..` name, and at
/// most 180 characters.
pub open spec fn safe_upload_name_of(value: Seq<char>) -> Seq<char> {
    let trimmed = trim(value.map_values(|c: char| upload_char(c)));
    let safe = if trimmed.len() == 0 || trimmed == "."@ || trimmed == ".."@ {
        "download"@
    } else {
        trimmed
    };
    if safe.len() <= 180 {
        safe
    } else {
        safe.take(180)
    }
}

pub fn safe_upload_name(value: &str) -> (r: String)
    ensures
        r@ == safe_upload_name_of(value@),
{
    let v = chars_of(value);
    let mut mapped: Vec<char> = Vec::new();
    let mut i: usize = 0;
    while i < v.len()
        invariant
            v@ == value@,
            i <= v.len(),
            mapped@ == value@.take(i as int).map_values(|c: char| upload_char(c)),
        decreases v.len() - i,
    {
        let c = v[i];
        let u = c as u32;
        let d = if c == '/' || c == '\\' || u <= 0x1f || (0x7f <= u && u <= 0x9f) {
            '_'
        } else {
            c
        };
        mapped.push(d);
        i = i + 1;
        assert(mapped@ =~= value@.take(i as int).map_values(|c: char| upload_char(c)));
    }
    assert(value@.take(v.len() as int) =~= value@);
    let (a, b) = trim_bounds(&mapped);
    let trimmed = string_of(&mapped, a, b);
    let safe = if b == a || same_text(trimmed.as_str(), ".") || same_text(trimmed.as_str(), "..") {
        to_owned_string("download")
    } else {
        trimmed
    };
    let sv = chars_of(safe.as_str());
    if sv.len() <= 180 {
        safe
    } else {
        string_of(&sv, 0, 180)
    }
}

/// The media type served for a lower-cased file extension.
pub open spec fn content_type_for(ext: Seq<char>) -> Seq<char> {
    if ext == "pdf"@ {
        "application/pdf"@
    } else if ext == "txt"@ || ext == "md"@ || ext == "csv"@ {
        "text/plain"@
    } else if ext == "json"@ {
        "application/json"@
    } else if ext == "jpg"@ || ext == "jpeg"@ {
        "image/jpeg"@
    } else if ext == "png"@ {
        "image/png"@
    } else if ext == "gif"@ {
        "image/gif"@
    } else if ext == "webp"@ {
        "image/webp"@
    } else if ext == "avif"@ {
        "image/avif"@
    } else if ext == "docx"@ {
        "application/vnd.openxmlformats-officedocument.wordprocessingml.document"@
    } else if ext == "xlsx"@ {
        "application/vnd.openxmlformats-officedocument.spreadsheetml.sheet"@
    } else if ext == "pptx"@ {
        "application/vnd.openxmlformats-officedocument.presentationml.presentation"@
    } else {
        "application/octet-stream"@
    }
}

/// The media type for an extension, compared without regard to ASCII case.
pub fn content_type_for_extension(ext: &str) -> (r: &'static str)
    ensures
        r@ == content_type_for(ascii_lowercase(ext@)),
{
    let e = ascii_lowercase_string(ext);
    let e = e.as_str();
    if same_text(e, "pdf") {
        "application/pdf"
    } else if same_text(e, "txt") || same_text(e, "md") || same_text(e, "csv") {
        "text/plain"
    } else if same_text(e, "json") {
        "application/json"
    } else if same_text(e, "jpg") || same_text(e, "jpeg") {
        "image/jpeg"
    } else if same_text(e, "png") {
        "image/png"
    } else if same_text(e, "gif") {
        "image/gif"
    } else if same_text(e, "webp") {
        "image/webp"
    } else if same_text(e, "avif") {
        "image/avif"
    } else if same_text(e, "docx") {
        "application/vnd.openxmlformats-officedocument.wordprocessingml.document"
    } else if same_text(e, "xlsx") {
        "application/vnd.openxmlformats-officedocument.spreadsheetml.sheet"
    } else if same_text(e, "pptx") {
        "application/vnd.openxmlformats-officedocument.presentationml.presentation"
    } else {
        "application/octet-stream"
    }
}

/// The media type an uploaded file is sent with, chosen by its extension.
pub fn file_content_type(name: &str) -> (r: &'static str)
    ensures
        r@ == content_type_for(
            ascii_lowercase(
                match path_extension(name@) {
                    Some(e) => e,
                    None => Seq::empty(),
                },
            ),
        ),
        plain_file_name(name@) ==> r@ == content_type_for(
            ascii_lowercase(
                match plain_extension(name@) {
                    Some(e) => e,
                    None => Seq::empty(),
                },
            ),
        ),
{
    match file_extension(name) {
        Some(e) => content_type_for_extension(e.as_str()),
        None => {
            proof {
                reveal_strlit("");
                assert(""@ =~= Seq::<char>::empty());
            }
            content_type_for_extension("")
        },
    }
}

/// Lower-case hexadecimal digit for `d < 16`.
pub open spec fn hex_char(d: nat) -> char {
    if d < 10 {
        ((d + 48) as u32) as char
    } else {
        ((d + 87) as u32) as char
    }
}

/// The last `n` hexadecimal digits of `v`, most significant first (`{:0n$x}`).
pub open spec fn hex_digits(v: nat, n: nat) -> Seq<char>
    decreases n,
{
    if n == 0 {
        Seq::empty()
    } else {
        hex_digits(v / 16, (n - 1) as nat).push(hex_char(v % 16))
    }
}

/// `hex_digits(v, n)` has `n` digits.
pub proof fn lemma_hex_len(v: nat, n: nat)
    ensures
        hex_digits(v, n).len() == n,
    decreases n,
{
    if n > 0 {
        lemma_hex_len(v / 16, (n - 1) as nat);
    }
}

fn push_hex(out: &mut Vec<char>, v: u128, n: u32)
    ensures
        final(out)@ == old(out)@ + hex_digits(v as nat, n as nat),
    decreases n,
{
    if n > 0 {
        push_hex(out, v / 16, n - 1);
        let d = (v % 16) as u8;
        let c = if d < 10 {
            (d + 48) as char
        } else {
            (d + 87) as char
        };
        out.push(c);
    }
    assert(final(out)@ =~= old(out)@ + hex_digits(v as nat, n as nat));
}

/// A version-4 style UUID text built from 32 hex digits: groups of 8-4-4-4-12
/// with the third group starting with `4` and the fourth with `8`.
pub open spec fn uuid_text(h: Seq<char>) -> Seq<char> {
    h.subrange(0, 8) + "-"@ + h.subrange(8, 12) + "-4"@ + h.subrange(13, 16) + "-8"@
        + h.subrange(17, 20) + "-"@ + h.subrange(20, 32)
}

/// The UUID text for 128 bits.
pub fn uuid_from_bits(v: u128) -> (r: String)
    ensures
        r@ == uuid_text(hex_digits(v as nat, 32)),
        r@.len() == 36,
{
    let mut h: Vec<char> = Vec::new();
    push_hex(&mut h, v, 32);
    proof {
        lemma_hex_len(v as nat, 32);
        assert(h@ =~= hex_digits(v as nat, 32));
        reveal_strlit("-");
        reveal_strlit("-4");
        reveal_strlit("-8");
    }
    let mut r = string_of(&h, 0, 8);
    push_str(&mut r, "-");
    push_str(&mut r, string_of(&h, 8, 12).as_str());
    push_str(&mut r, "-4");
    push_str(&mut r, string_of(&h, 13, 16).as_str());
    push_str(&mut r, "-8");
    push_str(&mut r, string_of(&h, 17, 20).as_str());
    push_str(&mut r, "-");
    push_str(&mut r, string_of(&h, 20, 32).as_str());
    r
}

/// A random UUID used to keep uploaded file paths unique.
pub fn random_uuid() -> (r: String)
    ensures
        r@.len() == 36,
        exists|v: u128| r@ == uuid_text(hex_digits(v as nat, 32)),
{
    let v = random_bits();
    uuid_from_bits(v)
}

} // verus!

//! API routing, request paths, and the local login exchange.

use vstd::prelude::*;
use crate::trusted::push_char;
use crate::text::{
    chars_of, find_char, first_index, has_char, lemma_first_index_props, same_text, string_of, to_owned_string, push_str,
    push_decimal, decimal, is_white, is_whitespace, opt_seq,
};
use crate::trusted::{
    url_encode, percent_encoded, random_alphanumeric, is_ascii_alphanumeric, append_query_pairs, url_with_query, pairs_view, parse_query_pairs,
    url_query_pairs,
};

verus! {

/// Why an API request could not be formed.
#[derive(Debug, PartialEq, Eq)]
pub enum ApiError {
    /// The resource name is not one the API serves.
    UnsupportedResource,
    /// Neither the environment nor a saved profile supplies a key.
    NotLoggedIn,
    /// The selected profile has no key.
    LoggedOut,
    /// The dashboard URL is not absolute.
    InvalidAppUrl,
    /// The browser callback has no request path.
    InvalidCallback,
    /// The browser callback path is not a valid URL.
    InvalidCallbackUrl,
}

/// The part of `s` before its first `?`.
pub open spec fn before_query(s: Seq<char>) -> Seq<char> {
    match first_index(s, '?') {
        Some(i) => s.take(i),
        None => s,
    }
}

/// The part of `s` after its first `?`, empty when there is none.
pub open spec fn after_query(s: Seq<char>) -> Seq<char> {
    match first_index(s, '?') {
        Some(i) => s.skip(i + 1),
        None => Seq::empty(),
    }
}

/// The API route for a resource name (the part before any `?`).
pub open spec fn route_of(resource: Seq<char>) -> Option<Seq<char>> {
    let name = before_query(resource);
    if name == "shortcuts"@ || name == "domains"@ || name == "transfers"@ || name == "stats"@
        || name == "files"@ || name == "candidates"@ {
        Some(name)
    } else {
        None
    }
}

/// The route a resource is served under.
pub fn route_resource(resource: &str) -> (r: Result<&'static str, ApiError>)
    ensures
        match route_of(resource@) {
            Some(n) => r matches Ok(s) && s@ == n,
            None => r == Err::<&'static str, ApiError>(ApiError::UnsupportedResource),
        },
{
    let v = chars_of(resource);
    let name = match find_char(&v, '?') {
        Some(i) => string_of(&v, 0, i),
        None => string_of(&v, 0, v.len()),
    };
    proof {
        assert(v@.subrange(0, v@.len() as int) =~= v@);
        assert(name@ == before_query(resource@)) by {
            match first_index(resource@, '?') {
                Some(i) => assert(name@ =~= resource@.take(i)),
                None => {},
            }
        }
    }
    let n = name.as_str();
    if same_text(n, "shortcuts") {
        Ok("shortcuts")
    } else if same_text(n, "domains") {
        Ok("domains")
    } else if same_text(n, "transfers") {
        Ok("transfers")
    } else if same_text(n, "stats") {
        Ok("stats")
    } else if same_text(n, "files") {
        Ok("files")
    } else if same_text(n, "candidates") {
        Ok("candidates")
    } else {
        Err(ApiError::UnsupportedResource)
    }
}

/// Where API requests go, with which key, on behalf of which profile.
pub struct Api {
    pub base: String,
    pub key: String,
    pub account: String,
}

/// The request URL for a resource: `BASE?resource=ROUTE`, then `&QUERY` when the
/// resource carries a query.
pub open spec fn api_url_of(base: Seq<char>, resource: Seq<char>) -> Option<Seq<char>> {
    match route_of(before_query(resource)) {
        Some(route) => Some(
            base + "?resource="@ + route + if after_query(resource).len() == 0 {
                Seq::<char>::empty()
            } else {
                "&"@ + after_query(resource)
            },
        ),
        None => None,
    }
}

proof fn lemma_before_query_idempotent(s: Seq<char>)
    ensures
        before_query(before_query(s)) == before_query(s),
{
    lemma_first_index_props(s, '?');
    match first_index(s, '?') {
        Some(i) => {
            let t = s.take(i);
            assert(!t.contains('?')) by {
                if t.contains('?') {
                    let k = choose|k: int| 0 <= k < t.len() && t[k] == '?';
                    assert(s[k] == '?');
                }
            }
            lemma_first_index_props(t, '?');
        },
        None => {},
    }
}

/// The resource name and its query.
fn split_query(resource: &str) -> (r: (String, String))
    ensures
        r.0@ == before_query(resource@),
        r.1@ == after_query(resource@),
{
    let v = chars_of(resource);
    let r = match find_char(&v, '?') {
        Some(i) => (string_of(&v, 0, i), string_of(&v, i + 1, v.len())),
        None => (string_of(&v, 0, v.len()), String::new()),
    };
    proof {
        assert(v@.subrange(0, v@.len() as int) =~= v@);
        match first_index(resource@, '?') {
            Some(i) => {
                assert(r.0@ =~= before_query(resource@));
                assert(r.1@ =~= after_query(resource@));
            },
            None => {
                assert(r.1@ =~= after_query(resource@));
            },
        }
    }
    r
}

impl Api {
    /// The request URL for `resource`.
    pub fn url(&self, resource: &str) -> (r: Result<String, ApiError>)
        ensures
            match api_url_of(self.base@, resource@) {
                Some(u) => r matches Ok(s) && s@ == u,
                None => r == Err::<String, ApiError>(ApiError::UnsupportedResource),
            },
    {
        let (name, query) = split_query(resource);
        proof {
            lemma_before_query_idempotent(resource@);
        }
        let route = match route_resource(name.as_str()) {
            Ok(r) => r,
            Err(e) => return Err(e),
        };
        let mut out = self.base.clone();
        push_str(&mut out, "?resource=");
        push_str(&mut out, route);
        if query.as_str().unicode_len() > 0 {
            push_str(&mut out, "&");
            push_str(&mut out, query.as_str());
        } else {
            proof {
                assert(out@ =~= out@ + Seq::<char>::empty());
            }
        }
        Ok(out)
    }
}

/// Percent-encodes `value` for a query parameter.
pub fn encode(value: &str) -> (r: String)
    ensures
        r@ == percent_encoded(vstd::utf8::encode_utf8(value@)),
{
    url_encode(value)
}

/// The arguments of `suffix rm`.
pub struct RemoveArgs {
    /// Remove a domain instead of a shortcut.
    pub domain: bool,
    /// Shortcut or domain ID.
    pub id: String,
    /// Saved account to act for.
    pub account: Option<String>,
    /// Shortcut version, when known.
    pub version: Option<u64>,
}

/// The next step of `suffix rm`.
#[derive(Debug, PartialEq, Eq)]
pub enum RemoveStep {
    /// The shortcut's current version must be looked up first.
    LookupVersion,
    /// Send a DELETE for this resource.
    Delete(String),
}

/// What `suffix rm` does next: delete a domain by ID; delete a shortcut by ID
/// and version (the given one, else the looked-up one); or look the version up.
pub open spec fn remove_step_of(args: RemoveArgs, looked_up: Option<u64>) -> Option<Seq<char>> {
    let id = percent_encoded(vstd::utf8::encode_utf8(args.id@));
    if args.domain {
        Some("domains?id="@ + id)
    } else {
        match (if args.version is Some { args.version } else { looked_up }) {
            Some(v) => Some("shortcuts?id="@ + id + "&version="@ + decimal(v as nat)),
            None => None,
        }
    }
}

pub fn remove(args: &RemoveArgs, looked_up_version: Option<u64>) -> (r: RemoveStep)
    ensures
        match remove_step_of(*args, looked_up_version) {
            Some(res) => r matches RemoveStep::Delete(s) && s@ == res,
            None => r == RemoveStep::LookupVersion,
        },
{
    let id = encode(args.id.as_str());
    if args.domain {
        let mut s = to_owned_string("domains?id=");
        push_str(&mut s, id.as_str());
        return RemoveStep::Delete(s);
    }
    let version = match args.version {
        Some(v) => Some(v),
        None => looked_up_version,
    };
    match version {
        Some(v) => {
            let mut s = to_owned_string("shortcuts?id=");
            push_str(&mut s, id.as_str());
            push_str(&mut s, "&version=");
            push_decimal(&mut s, v);
            RemoveStep::Delete(s)
        },
        None => RemoveStep::LookupVersion,
    }
}

/// HTML text for one character of a message.
pub open spec fn html_char(c: char) -> Seq<char> {
    if c == '&' {
        "&amp;"@
    } else if c == '<' {
        "&lt;"@
    } else if c == '>' {
        "&gt;"@
    } else {
        seq![c]
    }
}

pub open spec fn html_escaped(s: Seq<char>) -> Seq<char>
    decreases s.len(),
{
    if s.len() == 0 {
        Seq::empty()
    } else {
        html_escaped(s.drop_last()) + html_char(s.last())
    }
}

/// The page shown to the browser after a login callback.
pub open spec fn response_body(message: Seq<char>) -> Seq<char> {
    "<!doctype html><title>suffix</title><main><h1>"@ + html_escaped(message) + "</h1></main>"@
}

/// The complete HTTP response for the login callback.
pub open spec fn response_text(status: u16, message: Seq<char>) -> Seq<char> {
    let body = response_body(message);
    "HTTP/1.1 "@ + decimal(status as nat) + " "@ + (if status == 200 {
        "OK"@
    } else {
        "Bad Request"@
    }) + "\r\ncontent-type: text/html; charset=utf-8\r\ncontent-length: "@ + decimal(
        (vstd::utf8::encode_utf8(body).len() as usize) as nat,
    ) + "\r\nconnection: close\r\n\r\n"@ + body
}

/// The HTTP response sent back to the browser: status line, HTML headers with the
/// body's byte length, and a page holding the escaped message.
pub fn respond(status: u16, message: &str) -> (r: String)
    ensures
        r@ == response_text(status, message@),
{
    let v = chars_of(message);
    let mut body = to_owned_string("<!doctype html><title>suffix</title><main><h1>");
    let ghost start = body@;
    let mut i: usize = 0;
    while i < v.len()
        invariant
            v@ == message@,
            i <= v.len(),
            body@ == start + html_escaped(message@.take(i as int)),
        decreases v.len() - i,
    {
        let c = v[i];
        proof {
            assert(message@.take(i + 1).drop_last() =~= message@.take(i as int));
            assert(message@.take(i + 1).last() == c);
        }
        if c == '&' {
            push_str(&mut body, "&amp;");
        } else if c == '<' {
            push_str(&mut body, "&lt;");
        } else if c == '>' {
            push_str(&mut body, "&gt;");
        } else {
            push_char(&mut body, c);
            assert(seq![c] =~= html_char(c));
        }
        i = i + 1;
        assert(body@ =~= start + html_escaped(message@.take(i as int)));
    }
    assert(message@.take(v.len() as int) =~= message@);
    push_str(&mut body, "</h1></main>");
    assert(body@ =~= response_body(message@));
    let length = body.as_str().len();
    assert(length == (vstd::utf8::encode_utf8(body@).len() as usize));
    let mut out = to_owned_string("HTTP/1.1 ");
    push_decimal(&mut out, status as u64);
    push_str(&mut out, " ");
    if status == 200 {
        push_str(&mut out, "OK");
    } else {
        push_str(&mut out, "Bad Request");
    }
    push_str(&mut out, "\r\ncontent-type: text/html; charset=utf-8\r\ncontent-length: ");
    push_decimal(&mut out, length as u64);
    push_str(&mut out, "\r\nconnection: close\r\n\r\n");
    push_str(&mut out, body.as_str());
    assert(out@ =~= response_text(status, message@));
    out
}

/// The query pairs a login URL carries.
pub open spec fn login_pairs(callback: Seq<char>, state: Seq<char>, name: Seq<char>, email: Option<Seq<char>>) -> Seq<(Seq<char>, Seq<char>)> {
    let base = seq![("cli_auth"@, "1"@), ("callback"@, callback), ("state"@, state), ("name"@, name)];
    match email {
        Some(e) => base.push(("email"@, e)),
        None => base,
    }
}

/// The dashboard URL that starts browser approval, carrying the loopback callback,
/// the state, the key label and the optional email hint as query pairs.
pub fn build_login_url(app_url: &str, callback: &str, state: &str, name: &str, email: Option<&str>) -> (r: Result<String, ApiError>)
    ensures
        match url_with_query(app_url@, login_pairs(callback@, state@, name@, match email { Some(e) => Some(e@), None => None })) {
            Some(u) => r matches Ok(s) && s@ == u,
            None => r == Err::<String, ApiError>(ApiError::InvalidAppUrl),
        },
{
    let mut pairs: Vec<(String, String)> = Vec::new();
    pairs.push((to_owned_string("cli_auth"), to_owned_string("1")));
    pairs.push((to_owned_string("callback"), to_owned_string(callback)));
    pairs.push((to_owned_string("state"), to_owned_string(state)));
    pairs.push((to_owned_string("name"), to_owned_string(name)));
    if let Some(e) = email {
        pairs.push((to_owned_string("email"), to_owned_string(e)));
    }
    proof {
        assert(pairs_view(pairs@) =~= login_pairs(callback@, state@, name@, match email { Some(e) => Some(e@), None => None }));
    }
    match append_query_pairs(app_url, &pairs) {
        Some(u) => Ok(u),
        None => Err(ApiError::InvalidAppUrl),
    }
}


/// Index of the first whitespace-free position at or after `i`.
pub open spec fn skip_white(s: Seq<char>, i: int) -> int
    decreases s.len() - i,
{
    if 0 <= i < s.len() && is_white(s[i]) {
        skip_white(s, i + 1)
    } else {
        i
    }
}

/// Index of the first whitespace position at or after `i`.
pub open spec fn skip_word(s: Seq<char>, i: int) -> int
    decreases s.len() - i,
{
    if 0 <= i < s.len() && !is_white(s[i]) {
        skip_word(s, i + 1)
    } else {
        i
    }
}

/// The second whitespace-separated word of `s` (`split_whitespace().nth(1)`).
pub open spec fn second_word(s: Seq<char>) -> Option<Seq<char>> {
    let a = skip_white(s, 0);
    let b = skip_word(s, a);
    let c = skip_white(s, b);
    let d = skip_word(s, c);
    if c < s.len() {
        Some(s.subrange(c, d))
    } else {
        None
    }
}

/// The first line of `s` without its line ending (`lines().next()`, empty when none).
pub open spec fn first_line(s: Seq<char>) -> Seq<char> {
    match first_index(s, '\n') {
        Some(i) => if i > 0 && s[i - 1] == '\r' {
            s.take(i - 1)
        } else {
            s.take(i)
        },
        None => s,
    }
}

fn skip_white_exec(s: &Vec<char>, i: usize) -> (r: usize)
    requires
        i <= s.len(),
    ensures
        r == skip_white(s@, i as int),
        i <= r <= s.len(),
    decreases s.len() - i,
{
    if i < s.len() && is_whitespace(s[i]) {
        skip_white_exec(s, i + 1)
    } else {
        i
    }
}

fn skip_word_exec(s: &Vec<char>, i: usize) -> (r: usize)
    requires
        i <= s.len(),
    ensures
        r == skip_word(s@, i as int),
        i <= r <= s.len(),
    decreases s.len() - i,
{
    if i < s.len() && !is_whitespace(s[i]) {
        skip_word_exec(s, i + 1)
    } else {
        i
    }
}

/// The request path of an HTTP request: the second word of its first line.
pub fn request_path(request: &str) -> (r: Option<String>)
    ensures
        opt_seq(r) == second_word(first_line(request@)),
{
    let v = chars_of(request);
    let line = match find_char(&v, '\n') {
        Some(i) => if i > 0 && v[i - 1] == '\r' {
            string_of(&v, 0, i - 1)
        } else {
            string_of(&v, 0, i)
        },
        None => string_of(&v, 0, v.len()),
    };
    proof {
        assert(v@.subrange(0, v@.len() as int) =~= v@);
        match first_index(request@, '\n') {
            Some(i) => {
                assert(request@.take(i) =~= v@.subrange(0, i));
                if i > 0 {
                    assert(request@.take(i - 1) =~= v@.subrange(0, i - 1));
                }
            },
            None => {},
        }
    }
    let w = chars_of(line.as_str());
    let a = skip_white_exec(&w, 0);
    let b = skip_word_exec(&w, a);
    let c = skip_white_exec(&w, b);
    let d = skip_word_exec(&w, c);
    if c < w.len() {
        Some(string_of(&w, c, d))
    } else {
        None
    }
}

/// What the browser callback reports.
#[derive(Debug)]
pub struct LoginCallback {
    pub state: String,
    pub key: Option<String>,
    pub api_base: Option<String>,
    pub error: Option<String>,
}

/// The abstract content of a login callback.
pub struct CallbackView {
    pub state: Seq<char>,
    pub key: Option<Seq<char>>,
    pub api_base: Option<Seq<char>>,
    pub error: Option<Seq<char>>,
}

pub open spec fn callback_view(c: LoginCallback) -> CallbackView {
    CallbackView { state: c.state@, key: opt_seq(c.key), api_base: opt_seq(c.api_base), error: opt_seq(c.error) }
}

/// The callback after reading one query pair; other keys are ignored.
pub open spec fn apply_pair(c: CallbackView, p: (Seq<char>, Seq<char>)) -> CallbackView {
    if p.0 == "state"@ {
        CallbackView { state: p.1, ..c }
    } else if p.0 == "key"@ {
        CallbackView { key: Some(p.1), ..c }
    } else if p.0 == "api_base"@ {
        CallbackView { api_base: Some(p.1), ..c }
    } else if p.0 == "error"@ {
        CallbackView { error: Some(p.1), ..c }
    } else {
        c
    }
}

/// The callback read from query pairs in order; a later pair overrides an earlier one.
pub open spec fn callback_from(pairs: Seq<(Seq<char>, Seq<char>)>) -> CallbackView
    decreases pairs.len(),
{
    if pairs.len() == 0 {
        CallbackView { state: Seq::empty(), key: None, api_base: None, error: None }
    } else {
        apply_pair(callback_from(pairs.drop_last()), pairs.last())
    }
}

/// What the loopback request carries: its path is read as a URL on
/// `http://127.0.0.1`, and the query pairs fill the callback.
pub open spec fn parsed_callback(request: Seq<char>) -> Result<CallbackView, ApiError> {
    match second_word(first_line(request)) {
        None => Err(ApiError::InvalidCallback),
        Some(path) => match url_query_pairs("http://127.0.0.1"@ + path) {
            None => Err(ApiError::InvalidCallbackUrl),
            Some(pairs) => Ok(callback_from(pairs)),
        },
    }
}

/// Reads the state, key, API base and error from the browser's callback request.
pub fn parse_callback(request: &str) -> (r: Result<LoginCallback, ApiError>)
    ensures
        parsed_callback(request@) == match r {
            Ok(c) => Ok(callback_view(c)),
            Err(e) => Err(e),
        },
{
    proof {
        reveal_strlit("");
    }
    let path = match request_path(request) {
        Some(p) => p,
        None => return Err(ApiError::InvalidCallback),
    };
    let mut url = to_owned_string("http://127.0.0.1");
    push_str(&mut url, path.as_str());
    let pairs = match parse_query_pairs(url.as_str()) {
        Some(p) => p,
        None => return Err(ApiError::InvalidCallbackUrl),
    };
    let mut callback = LoginCallback { state: String::new(), key: None, api_base: None, error: None };
    let mut i: usize = 0;
    while i < pairs.len()
        invariant
            i <= pairs@.len(),
            callback_view(callback) == callback_from(pairs_view(pairs@).take(i as int)),
        decreases pairs.len() - i,
    {
        let k = pairs[i].0.as_str();
        let v = pairs[i].1.clone();
        proof {
            assert(pairs_view(pairs@).take(i + 1).drop_last() =~= pairs_view(pairs@).take(i as int));
        }
        if same_text(k, "state") {
            callback.state = v;
        } else if same_text(k, "key") {
            callback.key = Some(v);
        } else if same_text(k, "api_base") {
            callback.api_base = Some(v);
        } else if same_text(k, "error") {
            callback.error = Some(v);
        }
        i = i + 1;
    }
    assert(pairs_view(pairs@).take(pairs@.len() as int) =~= pairs_view(pairs@));
    Ok(callback)
}


/// The random `state` of a browser login: 32 ASCII letters and digits.
pub fn random_state() -> (r: String)
    ensures
        r@.len() == 32,
        forall|i: int| 0 <= i < 32 ==> is_ascii_alphanumeric(#[trigger] r@[i]),
{
    let mut r = String::new();
    let mut i: usize = 0;
    while i < 32
        invariant
            i <= 32,
            r@.len() == i,
            forall|j: int| 0 <= j < i ==> is_ascii_alphanumeric(#[trigger] r@[j]),
        decreases 32 - i,
    {
        let c = random_alphanumeric();
        push_char(&mut r, c);
        i = i + 1;
    }
    r
}

/// The resource that reads a shortcut's statistics over `days` days.
pub open spec fn stats_resource_of(shortcut_id: Seq<char>, days: u16) -> Seq<char> {
    "stats?shortcutId="@ + percent_encoded(vstd::utf8::encode_utf8(shortcut_id)) + "&days="@ + decimal(days as nat)
}

pub fn stats_resource(shortcut_id: &str, days: u16) -> (r: String)
    ensures
        r@ == stats_resource_of(shortcut_id@, days),
{
    let mut r = to_owned_string("stats?shortcutId=");
    let id = encode(shortcut_id);
    push_str(&mut r, id.as_str());
    push_str(&mut r, "&days=");
    push_decimal(&mut r, days as u64);
    r
}

} // verus!

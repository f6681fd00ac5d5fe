//! Calls into std and outside crates whose behaviour is believed, not proved.

use vstd::prelude::*;
use crate::text::opt_seq;

verus! {

/// `String::push`: appends the character `c` to the end of `s`.
#[verifier::external_body]
pub(crate) fn push_char(s: &mut String, c: char)
    ensures
        final(s)@ == old(s)@.push(c),
{
    s.push(c);
}

/// The text that `str::to_lowercase` gives for `s` (Unicode full lower-case mapping).
pub uninterp spec fn lowercase(s: Seq<char>) -> Seq<char>;

/// `str::to_lowercase`: the result is the Unicode lower-case mapping of `s`, a
/// function of `s` alone. Nothing more is stated about that mapping.
#[verifier::external_body]
pub(crate) fn to_lowercase(s: &str) -> (r: String)
    ensures
        r@ == lowercase(s@),
{
    s.to_lowercase()
}


/// The scheme of the URL that `url::Url::parse` reads from `s`, or `None` when it rejects `s`.
pub uninterp spec fn url_scheme(s: Seq<char>) -> Option<Seq<char>>;

/// `url::Url::parse` followed by `Url::scheme`. The result is a function of `s`
/// alone; which texts parse, and to which scheme, is not stated.
#[verifier::external_body]
pub(crate) fn parse_scheme(s: &str) -> (r: Option<String>)
    ensures
        opt_seq(r) == url_scheme(s@),
{
    url::Url::parse(s).ok().map(|u| u.scheme().to_string())
}

/// The serialization of the URL that `url::Url::parse` reads from `s`.
pub uninterp spec fn url_serialization(s: Seq<char>) -> Option<Seq<char>>;

/// `url::Url::parse` followed by `Url::as_str`; two parsed URLs compare equal
/// exactly when these serializations are equal (`impl PartialEq for Url`).
#[verifier::external_body]
pub(crate) fn parse_serialization(s: &str) -> (r: Option<String>)
    ensures
        opt_seq(r) == url_serialization(s@),
{
    url::Url::parse(s).ok().map(|u| u.as_str().to_string())
}

/// The last path segment of the URL that `url::Url::parse` reads from `s`, when
/// the URL has a hierarchical path.
pub uninterp spec fn url_last_segment(s: Seq<char>) -> Option<Seq<char>>;

/// `url::Url::parse`, `Url::path_segments` and the last segment, as a string.
#[verifier::external_body]
pub(crate) fn parse_last_segment(s: &str) -> (r: Option<String>)
    ensures
        opt_seq(r) == url_last_segment(s@),
{
    url::Url::parse(s).ok().and_then(|u| u.path_segments().and_then(|mut segments| segments.next_back().map(|t| t.to_string())))
}


/// The extension that `std::path::Path::extension` finds in `name`, as text.
pub uninterp spec fn path_extension(name: Seq<char>) -> Option<Seq<char>>;

/// Whether `name` is one plain file name: not empty, not `.` or `..`, and free of
/// `/`, `\` and `:`, so that no platform reads a separator or prefix in it.
pub open spec fn plain_file_name(name: Seq<char>) -> bool {
    &&& name.len() > 0
    &&& name != "."@
    &&& name != ".."@
    &&& forall|i: int| 0 <= i < name.len() ==> #[trigger] name[i] != '/' && name[i] != '\\' && name[i] != ':'
}

/// Position of the last `.` in `s`.
pub open spec fn last_dot(s: Seq<char>) -> Option<int>
    decreases s.len(),
{
    if s.len() == 0 {
        None
    } else if s.last() == '.' {
        Some(s.len() - 1)
    } else {
        last_dot(s.drop_last())
    }
}

/// The extension of a plain file name as `Path::extension` documents it: none
/// without a `.`, none when the only `.` begins the name, else the text after
/// the last `.`.
pub open spec fn plain_extension(name: Seq<char>) -> Option<Seq<char>> {
    match last_dot(name) {
        None => None,
        Some(i) => if i == 0 {
            None
        } else {
            Some(name.skip(i + 1))
        },
    }
}

/// `Path::new(name).extension()`: the part of the final path component after its
/// last `.`; `None` when there is no file name, no `.`, or only a leading `.`.
/// For a plain file name (one component on every platform) that rule is stated;
/// for other paths only that the result is a function of `name`.
#[verifier::external_body]
pub(crate) fn file_extension(name: &str) -> (r: Option<String>)
    ensures
        opt_seq(r) == path_extension(name@),
        plain_file_name(name@) ==> opt_seq(r) == plain_extension(name@),
{
    std::path::Path::new(name).extension().and_then(|e| e.to_str()).map(|e| e.to_string())
}

/// Whether `c` is an ASCII letter or digit.
pub open spec fn is_ascii_alphanumeric(c: char) -> bool {
    ('0' <= c && c <= '9') || ('A' <= c && c <= 'Z') || ('a' <= c && c <= 'z')
}

/// `rand::rng().sample(rand::distr::Alphanumeric)` as a `char`: one random
/// character among `A-Z`, `a-z` and `0-9` (the distribution's charset). Which
/// one is not stated.
#[verifier::external_body]
pub(crate) fn random_alphanumeric() -> (r: char)
    ensures
        is_ascii_alphanumeric(r),
{
    char::from(rand::RngExt::sample(&mut rand::rng(), rand::distr::Alphanumeric))
}

/// `rand::random::<u128>()`: 128 random bits. Nothing is stated of them.
#[verifier::external_body]
pub(crate) fn random_bits() -> u128 {
    rand::random::<u128>()
}


/// Whether `regex::RegexBuilder` accepts `p` as a case-insensitive pattern.
pub uninterp spec fn regex_valid(p: Seq<char>) -> bool;

/// Whether the case-insensitive regex `p` matches somewhere in `t`.
pub uninterp spec fn regex_matches(p: Seq<char>, t: Seq<char>) -> bool;

/// `RegexBuilder::new(p).case_insensitive(true).build()`: succeeds exactly for
/// the patterns it accepts, which is a property of `p` alone.
#[verifier::external_body]
pub(crate) fn regex_compiles(p: &str) -> (r: bool)
    ensures
        r == regex_valid(p@),
{
    regex::RegexBuilder::new(p).case_insensitive(true).build().is_ok()
}

/// Builds the case-insensitive regex `p` and calls `Regex::is_match` on `t`;
/// `None` exactly when the pattern is not accepted.
#[verifier::external_body]
pub(crate) fn regex_is_match(p: &str, t: &str) -> (r: Option<bool>)
    ensures
        r is Some <==> regex_valid(p@),
        r matches Some(b) ==> b == regex_matches(p@, t@),
{
    regex::RegexBuilder::new(p).case_insensitive(true).build().ok().map(|re| re.is_match(t))
}


/// Characters that `urlencoding` leaves as they are.
pub open spec fn unreserved_byte(b: u8) -> bool {
    (48 <= b && b <= 57) || (65 <= b && b <= 90) || (97 <= b && b <= 122) || b == 45 || b == 46 || b
        == 95 || b == 126
}

/// Upper-case hexadecimal digit for `d < 16`.
pub open spec fn hex_upper(d: nat) -> char {
    if d < 10 {
        ((d + 48) as u32) as char
    } else {
        ((d + 55) as u32) as char
    }
}

/// One byte, percent-encoded unless unreserved.
pub open spec fn percent_byte(b: u8) -> Seq<char> {
    if unreserved_byte(b) {
        seq![(b as u32) as char]
    } else {
        seq!['%', hex_upper((b / 16) as nat), hex_upper((b % 16) as nat)]
    }
}

/// Percent-encoding of a byte string.
pub open spec fn percent_encoded(bytes: Seq<u8>) -> Seq<char>
    decreases bytes.len(),
{
    if bytes.len() == 0 {
        Seq::empty()
    } else {
        percent_encoded(bytes.drop_last()) + percent_byte(bytes.last())
    }
}

/// `urlencoding::encode`: percent-encodes every byte of the UTF-8 text except
/// ASCII letters, digits, `-`, `.`, `_`, `~`, with upper-case hex digits.
#[verifier::external_body]
pub(crate) fn url_encode(value: &str) -> (r: String)
    ensures
        r@ == percent_encoded(vstd::utf8::encode_utf8(value@)),
{
    urlencoding::encode(value).into_owned()
}

/// The URL text that `url::Url::parse(base)` gives after `query_pairs_mut().append_pair`
/// with each pair in order, or `None` when `base` does not parse.
pub uninterp spec fn url_with_query(base: Seq<char>, pairs: Seq<(Seq<char>, Seq<char>)>) -> Option<Seq<char>>;

pub open spec fn pairs_view(pairs: Seq<(String, String)>) -> Seq<(Seq<char>, Seq<char>)> {
    pairs.map_values(|p: (String, String)| (p.0@, p.1@))
}

/// `Url::parse(base)`, then `query_pairs_mut().extend_pairs(..)` (`append_pair` for
/// each pair in order), then the URL text. The result is a function of its arguments alone.
#[verifier::external_body]
pub(crate) fn append_query_pairs(base: &str, pairs: &Vec<(String, String)>) -> (r: Option<String>)
    ensures
        opt_seq(r) == url_with_query(base@, pairs_view(pairs@)),
{
    let mut url = url::Url::parse(base).ok()?;
    url.query_pairs_mut().extend_pairs(pairs.iter());
    Some(url.to_string())
}

/// The decoded query pairs of the URL that `url::Url::parse` reads from `s`.
pub uninterp spec fn url_query_pairs(s: Seq<char>) -> Option<Seq<(Seq<char>, Seq<char>)>>;

/// `Url::parse(s)` and `Url::query_pairs`, each pair as owned strings, in order.
#[verifier::external_body]
pub(crate) fn parse_query_pairs(s: &str) -> (r: Option<Vec<(String, String)>>)
    ensures
        match r {
            Some(v) => url_query_pairs(s@) == Some(pairs_view(v@)),
            None => url_query_pairs(s@) is None,
        },
{
    let url = url::Url::parse(s).ok()?;
    Some(url.query_pairs().map(|(k, v)| (k.into_owned(), v.into_owned())).collect())
}

} // verus!

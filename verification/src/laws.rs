//! Properties that hold across the library's operations.

use vstd::prelude::*;
use crate::text::{
    trim, leading_white, trailing_white, is_white, eq_ignore_ascii_case, ascii_lower,
    first_index, lemma_first_index, lemma_first_index_props,
};
use crate::accounts::{
    AccountConfig, AccountError, account_name_of, name_char, has_key, lookup, key_index, keys_sorted,
    without_legacy, legacy_name, lemma_key_index, lemma_remove_others, selected_account,
    saved_key_reusable, email_matches, Config, move_names_of, MoveArgs,
};
use crate::shortcuts::{lemma_hex_len, locator_parts, safe_upload_name_of, upload_char, is_control, uuid_text, hex_digits};
use crate::output::{xml_escaped, xml_char, shortcut_text};
use crate::session::{logged_in_account, configured_key, configured_base, configured_account};
use crate::accounts::{login_email_of, email_shaped, active_name, holds_text, login_account_of, lemma_first_email_match};
use crate::prompts::{
    parse_usize_of, digits_value, all_digits, unsigned_digits, is_digit, choice_of, confirm_answer_of, AnswerError,
    ChoiceError,
};
use crate::payloads::without_line_ends;
use crate::text::{decimal, digit_char};
use crate::text::opt_seq;
use crate::trusted::lowercase;

verus! {

proof fn lemma_leading_props(s: Seq<char>)
    ensures
        leading_white(s) <= s.len(),
        forall|j: int| 0 <= j < leading_white(s) ==> is_white(#[trigger] s[j]),
        leading_white(s) < s.len() ==> !is_white(s[leading_white(s) as int]),
    decreases s.len(),
{
    if s.len() > 0 && is_white(s[0]) {
        let t = s.drop_first();
        lemma_leading_props(t);
        assert forall|j: int| 0 <= j < leading_white(s) implies is_white(#[trigger] s[j]) by {
            if j > 0 {
                assert(s[j] == t[j - 1]);
            }
        }
        if leading_white(s) < s.len() {
            assert(s[leading_white(s) as int] == t[leading_white(t) as int]);
        }
    }
}

proof fn lemma_trailing_props(s: Seq<char>)
    ensures
        trailing_white(s) <= s.len(),
        forall|j: int| s.len() - trailing_white(s) <= j < s.len() ==> is_white(#[trigger] s[j]),
        trailing_white(s) < s.len() ==> !is_white(s[s.len() - 1 - trailing_white(s)]),
    decreases s.len(),
{
    if s.len() > 0 && is_white(s.last()) {
        let t = s.drop_last();
        lemma_trailing_props(t);
        assert forall|j: int| s.len() - trailing_white(s) <= j < s.len() implies is_white(#[trigger] s[j]) by {
            if j < s.len() - 1 {
                assert(s[j] == t[j]);
            }
        }
        if trailing_white(s) < s.len() {
            assert(s[s.len() - 1 - trailing_white(s)] == t[t.len() - 1 - trailing_white(t)]);
        }
    }
}

/// The trimmed text neither starts nor ends with whitespace.
pub proof fn law_trim_edges(s: Seq<char>)
    ensures
        trim(s).len() > 0 ==> !is_white(trim(s)[0]) && !is_white(trim(s).last()),
{
    lemma_leading_props(s);
    let u = s.skip(leading_white(s) as int);
    lemma_trailing_props(u);
    let t = trim(s);
    if t.len() > 0 {
        assert(t[0] == u[0]);
        assert(u[0] == s[leading_white(s) as int]);
        assert(t.last() == u[u.len() - 1 - trailing_white(u)]);
    }
}

/// Trimming twice is the same as trimming once.
pub proof fn law_trim_idempotent(s: Seq<char>)
    ensures
        trim(trim(s)) == trim(s),
{
    let t = trim(s);
    law_trim_edges(s);
    if t.len() > 0 {
        assert(leading_white(t) == 0);
        assert(t.skip(0) =~= t);
        assert(trailing_white(t) == 0);
        assert(t.take(t.len() as int) =~= t);
    } else {
        assert(t.skip(leading_white(t) as int) =~= t);
        assert(trim(t) =~= t);
    }
}

/// A profile name, once accepted, is accepted again unchanged.
pub proof fn law_account_name_stable(value: Seq<char>)
    ensures
        account_name_of(value) matches Ok(n) ==> account_name_of(n) == Ok::<Seq<char>, AccountError>(n),
{
    law_trim_idempotent(value);
}

/// A selector resolves either to a stored profile or to a new, valid profile name.
pub proof fn law_selector_resolves(s: Seq<(Seq<char>, AccountConfig)>, selector: Seq<char>)
    requires
        keys_sorted(s),
    ensures
        selected_account(s, selector) matches Ok(n) ==> has_key(s, n) || account_name_of(selector) == Ok::<Seq<char>, AccountError>(n),
{
    let norm = crate::trusted::lowercase(trim(selector));
    lemma_matching_names_stored(s, norm);
}

proof fn lemma_matching_names_stored(s: Seq<(Seq<char>, AccountConfig)>, norm: Seq<char>)
    ensures
        forall|j: int| 0 <= j < crate::accounts::matching_names(s, norm).len() ==> has_key(s, #[trigger] crate::accounts::matching_names(s, norm)[j]),
    decreases s.len(),
{
    if s.len() > 0 {
        let t = s.drop_last();
        lemma_matching_names_stored(t, norm);
        let m = crate::accounts::matching_names(s, norm);
        assert forall|j: int| 0 <= j < m.len() implies has_key(s, #[trigger] m[j]) by {
            let mt = crate::accounts::matching_names(t, norm);
            if j < mt.len() {
                assert(m[j] == mt[j]);
                assert(has_key(t, mt[j]));
                let q = choose|q: int| 0 <= q < t.len() && (#[trigger] t[q]).0 == mt[j];
                assert(s[q] == t[q]);
            } else {
                assert(m[j] == s.last().0);
                assert(s[s.len() - 1].0 == m[j]);
            }
        }
    }
}

/// Dropping legacy profiles leaves no profile named `default`, and doing it again
/// changes nothing.
pub proof fn law_legacy_discard_settles(s: Seq<(Seq<char>, AccountConfig)>)
    requires
        keys_sorted(s),
    ensures
        !has_key(without_legacy(s), legacy_name()),
        without_legacy(without_legacy(s)) == without_legacy(s),
        keys_sorted(without_legacy(s)),
{
    if has_key(s, legacy_name()) {
        let i = key_index(s, legacy_name());
        lemma_key_index(s, i);
        assert(s[i].0 == legacy_name()) by {
            let w = choose|w: int| 0 <= w < s.len() && (#[trigger] s[w]).0 == legacy_name();
            lemma_key_index(s, w);
        }
        reveal_strlit("x");
        reveal_strlit("default");
        assert("x"@ != legacy_name()) by {
            assert("x"@.len() != "default"@.len());
        }
        lemma_remove_others(s, i, "x"@);
    }
}

/// A saved key is reused for a login email only when the profile caches an email
/// equal to it up to ASCII case; a different email never reuses it.
pub proof fn law_saved_key_needs_same_email(c: Config, account: Seq<char>, email: Seq<char>)
    ensures
        saved_key_reusable(c, account, Some(email)) ==> has_key(c.accounts@, account) && lookup(c.accounts@, account).api_key is Some && (lookup(c.accounts@, account).email matches Some(x) && eq_ignore_ascii_case(x@, email)),
{
}

/// Moving `--from` an account is the reverse of moving to it.
pub proof fn law_move_from_reverses_to(c: Config, args: MoveArgs)
    requires
        args.target is None,
        !args.to,
    ensures
        move_names_of(c, MoveArgs { from: true, ..args }) == match move_names_of(c, MoveArgs { from: false, ..args }) {
            Ok((a, b)) => Ok::<(Seq<char>, Seq<char>), AccountError>((b, a)),
            Err(e) => Err(e),
        },
{
}

/// Splitting `host/tail` gives back the host and tail it was written from.
pub proof fn law_locator_round_trip(host: Seq<char>, tail: Seq<char>)
    requires
        host.len() > 0,
        tail.len() > 0,
        !host.contains('/'),
        !tail.contains('/'),
    ensures
        locator_parts(shortcut_text(host, tail)) == Some((host, tail)),
{
    reveal_strlit("/");
    let s = shortcut_text(host, tail);
    assert(s =~= host + seq!['/'] + tail);
    let i = host.len() as int;
    assert(s[i] == '/');
    assert forall|j: int| 0 <= j < i implies s[j] != '/' by {
        assert(s[j] == host[j]);
        if s[j] == '/' {
            assert(host.contains('/'));
        }
    }
    lemma_first_index(s, '/', i);
    assert(s.take(i) =~= host);
    assert(s.skip(i + 1) =~= tail);
}

proof fn lemma_xml_no_markup(s: Seq<char>)
    ensures
        !xml_escaped(s).contains('<'),
        !xml_escaped(s).contains('>'),
        !xml_escaped(s).contains('"'),
        !xml_escaped(s).contains('\''),
    decreases s.len(),
{
    reveal_strlit("&amp;");
    reveal_strlit("&lt;");
    reveal_strlit("&gt;");
    reveal_strlit("&quot;");
    reveal_strlit("&apos;");
    if s.len() > 0 {
        lemma_xml_no_markup(s.drop_last());
        let a = xml_escaped(s.drop_last());
        let b = xml_char(s.last());
        assert(xml_escaped(s) == a + b);
        assert forall|c: char| c == '<' || c == '>' || c == '"' || c == '\'' implies !(a + b).contains(c) by {
            if (a + b).contains(c) {
                let k = choose|k: int| 0 <= k < (a + b).len() && (a + b)[k] == c;
                if k < a.len() {
                    assert(a[k] == c);
                } else {
                    assert(b[k - a.len()] == c);
                }
            }
        }
    }
}

/// Escaped XML text holds no `<`, `>`, `"` or `'`.
pub proof fn law_xml_escape_has_no_markup(s: Seq<char>)
    ensures
        !xml_escaped(s).contains('<'),
        !xml_escaped(s).contains('>'),
        !xml_escaped(s).contains('"'),
        !xml_escaped(s).contains('\''),
{
    lemma_xml_no_markup(s);
}

/// An upload name is never empty, has at most 180 characters, and holds no path
/// separator or control character.
pub proof fn law_upload_name_is_safe(value: Seq<char>)
    ensures
        safe_upload_name_of(value).len() > 0,
        safe_upload_name_of(value).len() <= 180,
        forall|i: int| 0 <= i < safe_upload_name_of(value).len() ==> {
            let c = #[trigger] safe_upload_name_of(value)[i];
            c != '/' && c != '\\' && !is_control(c)
        },
{
    reveal_strlit("download");
    let mapped = value.map_values(|c: char| upload_char(c));
    let trimmed = trim(mapped);
    lemma_leading_props(mapped);
    let u = mapped.skip(leading_white(mapped) as int);
    lemma_trailing_props(u);
    assert forall|i: int| 0 <= i < trimmed.len() implies {
        let c = #[trigger] trimmed[i];
        c != '/' && c != '\\' && !is_control(c)
    } by {
        assert(trimmed[i] == mapped[i + leading_white(mapped)]);
    }
}

/// A generated UUID has 36 characters, hyphens at positions 8, 13, 18 and 23,
/// version digit `4` and variant digit `8`.
pub proof fn law_uuid_shape(v: u128)
    ensures
        uuid_text(hex_digits(v as nat, 32)).len() == 36,
        uuid_text(hex_digits(v as nat, 32))[8] == '-',
        uuid_text(hex_digits(v as nat, 32))[13] == '-',
        uuid_text(hex_digits(v as nat, 32))[14] == '4',
        uuid_text(hex_digits(v as nat, 32))[18] == '-',
        uuid_text(hex_digits(v as nat, 32))[19] == '8',
        uuid_text(hex_digits(v as nat, 32))[23] == '-',
{
    reveal_strlit("-");
    reveal_strlit("-4");
    reveal_strlit("-8");
    lemma_hex_len(v as nat, 32);
}


/// A stored profile name selects that profile.
pub proof fn law_stored_name_selects_itself(s: Seq<(Seq<char>, AccountConfig)>, name: Seq<char>)
    requires
        has_key(s, name),
    ensures
        selected_account(s, name) == Ok::<Seq<char>, AccountError>(name),
{
}

/// After a login stores a key for an email, a later login for the same email may
/// reuse that saved key.
pub proof fn law_login_then_reuse(c: Config, account: Seq<char>, base: Seq<char>, key: Seq<char>, email: Seq<char>)
    requires
        has_key(c.accounts@, account),
        logged_in_account(lookup(c.accounts@, account), base, key, Some(email)),
    ensures
        saved_key_reusable(c, account, Some(email)),
{
    let a = lookup(c.accounts@, account);
    assert(a.email is Some);
    let x = a.email->0;
    assert(x@ == email);
    assert(eq_ignore_ascii_case(x@, email));
}


/// The profile a switch makes active is the one listed as active.
pub proof fn law_switched_profile_is_active(c: Config, n: Seq<char>)
    requires
        holds_text(c.active_account, n),
        has_key(c.accounts@, n),
    ensures
        active_name(c) == Some(n),
{
    let i = key_index(c.accounts@, n);
    assert(c.accounts@[i].0 == n);
}

/// After a logout, the profile's saved key is never reused by a login.
pub proof fn law_logged_out_key_not_reused(c: Config, n: Seq<char>, email: Option<Seq<char>>)
    requires
        has_key(c.accounts@, n),
        lookup(c.accounts@, n).api_key is None,
    ensures
        !saved_key_reusable(c, n, email),
{
}

proof fn lemma_digit_char(d: nat)
    requires
        d < 10,
    ensures
        (digit_char(d) as u32) - 48 == d,
        is_digit(digit_char(d)),
{
}

proof fn lemma_decimal_digits(n: nat)
    ensures
        decimal(n).len() > 0,
        all_digits(decimal(n)),
        digits_value(decimal(n)) == n,
    decreases n,
{
    if n < 10 {
        lemma_digit_char(n);
        let d = decimal(n);
        assert(d == seq![digit_char(n)]);
        assert(d.drop_last() =~= Seq::<char>::empty());
        assert(digits_value(d.drop_last()) == 0);
        assert(d.last() == digit_char(n));
        assert(digits_value(d) == digits_value(d.drop_last()) * 10 + ((d.last() as u32) - 48) as nat);
    } else {
        lemma_digit_char(n % 10);
        lemma_decimal_digits(n / 10);
        let d = decimal(n);
        assert(d == decimal(n / 10).push(digit_char(n % 10)));
        assert(d.drop_last() =~= decimal(n / 10));
        assert(d.last() == digit_char(n % 10));
        assert(digits_value(d) == digits_value(d.drop_last()) * 10 + ((d.last() as u32) - 48) as nat);
        assert(digits_value(d) == (n / 10) * 10 + n % 10);
        assert forall|i: int| 0 <= i < d.len() implies is_digit(#[trigger] d[i]) by {
            if i < d.len() - 1 {
                assert(d[i] == decimal(n / 10)[i]);
            }
        }
    }
}

proof fn lemma_decimal_not_white(n: nat)
    ensures
        trim(decimal(n)) == decimal(n),
        decimal(n)[0] != '+',
{
    lemma_decimal_digits(n);
    let d = decimal(n);
    assert(is_digit(d[0]));
    assert(is_digit(d.last()));
    assert(leading_white(d) == 0);
    assert(d.skip(0) =~= d);
    assert(trailing_white(d) == 0);
    assert(d.take(d.len() as int) =~= d);
}

/// A number written in decimal reads back as the same number.
pub proof fn law_number_round_trip(n: usize)
    ensures
        parse_usize_of(decimal(n as nat)) == Some(n),
{
    lemma_decimal_digits(n as nat);
    lemma_decimal_not_white(n as nat);
    assert(unsigned_digits(decimal(n as nat)) == decimal(n as nat));
}

/// Typing the number shown before a candidate picks that candidate, and an
/// empty answer picks the first.
pub proof fn law_menu_number_picks_candidate(c: Seq<Seq<char>>, k: usize)
    requires
        1 <= k <= c.len(),
    ensures
        choice_of(c, decimal(k as nat)) == Ok::<Seq<char>, ChoiceError>(c[k - 1]),
        choice_of(c, Seq::empty()) == Ok::<Seq<char>, ChoiceError>(c[0]),
{
    law_number_round_trip(k);
    lemma_decimal_not_white(k as nat);
    lemma_decimal_digits(k as nat);
    assert(Seq::<char>::empty().skip(0) =~= Seq::<char>::empty());
    assert(trim(Seq::<char>::empty()) =~= Seq::<char>::empty());
}

/// An answer of only whitespace takes the prompt's default.
pub proof fn law_blank_answer_takes_default(answer: Seq<char>, default: bool)
    requires
        forall|i: int| 0 <= i < answer.len() ==> is_white(#[trigger] answer[i]),
    ensures
        confirm_answer_of(answer, default) == Ok::<bool, AnswerError>(default),
{
    lemma_leading_props(answer);
    if leading_white(answer) < answer.len() {
        assert(is_white(answer[leading_white(answer) as int]));
    }
    let t = trim(answer);
    assert(t.len() == 0);
    assert(crate::text::ascii_lowercase(t) =~= Seq::<char>::empty());
    reveal_strlit("y");
    reveal_strlit("yes");
    reveal_strlit("n");
    reveal_strlit("no");
}

/// A password file's trailing line end is not part of the password.
pub proof fn law_password_line_end_dropped(p: Seq<char>)
    requires
        p.len() == 0 || (p.last() != '\r' && p.last() != '\n'),
    ensures
        without_line_ends(p + "\n"@) == p,
        without_line_ends(p + "\r\n"@) == p,
{
    reveal_strlit("\n");
    reveal_strlit("\r\n");
    reveal_strlit("\r");
    assert("\n"@ =~= seq!['\n']);
    assert("\r\n"@ =~= seq!['\r', '\n']);
    assert("\r"@ =~= seq!['\r']);
    assert(without_line_ends(p) == p);
    let a = p + "\n"@;
    assert(a.last() == '\n');
    assert(a.drop_last() =~= p);
    assert(without_line_ends(a) == without_line_ends(a.drop_last()));
    let b = p + "\r\n"@;
    assert(b.last() == '\n');
    assert(b.drop_last() =~= p + "\r"@);
    assert((p + "\r"@).last() == '\r');
    assert((p + "\r"@).drop_last() =~= p);
    assert(without_line_ends(b) == without_line_ends(b.drop_last()));
    assert(without_line_ends(p + "\r"@) == without_line_ends((p + "\r"@).drop_last()));
}

/// `--to` is only an explicit spelling of the default direction of a move.
pub proof fn law_move_to_is_default(c: Config, args: MoveArgs)
    requires
        args.target is None,
    ensures
        move_names_of(c, MoveArgs { to: true, from: false, ..args }) == move_names_of(c, MoveArgs { to: false, from: false, ..args }),
{
}


/// Once the first profile caching a login email holds a key, logging in with
/// that email again selects that profile and may reuse its key.
pub proof fn law_repeat_login_reuses_saved_key(c: Config, e: Seq<char>, i: int)
    requires
        keys_sorted(c.accounts@),
        0 <= i < c.accounts@.len(),
        email_matches(c.accounts@[i].1, e),
        forall|j: int| 0 <= j < i ==> !email_matches((#[trigger] c.accounts@[j]).1, e),
        c.accounts@[i].1.api_key is Some,
    ensures
        login_account_of(c, None, Some(e)) == Ok::<Seq<char>, AccountError>(c.accounts@[i].0),
        saved_key_reusable(c, c.accounts@[i].0, Some(e)),
{
    lemma_first_email_match(c.accounts@, e, i);
    lemma_key_index(c.accounts@, i);
}


/// Once a login or a manual add has made a profile active, commands made without
/// environment overrides use that profile's key, API base and name.
pub proof fn law_active_profile_is_used(c: Config, n: Seq<char>, key: Seq<char>)
    requires
        has_key(c.accounts@, n),
        holds_text(c.active_account, n),
        opt_seq(lookup(c.accounts@, n).api_key) == Some(key),
    ensures
        configured_key(c, None) == Some(key),
        configured_base(c, None) == lookup(c.accounts@, n).api_base@,
        configured_account(c) == n,
{
    let i = key_index(c.accounts@, n);
    assert(c.accounts@[i].0 == n);
}


/// `SUFFIX_API_BASE` and `SUFFIX_API_KEY` override whatever the saved
/// configuration holds.
pub proof fn law_environment_overrides_saved_config(c: Config, base: Seq<char>, key: Seq<char>)
    ensures
        configured_base(c, Some(base)) == base,
        configured_key(c, Some(key)) == Some(key),
{
}


/// Whether `s` begins with `prefix`.
pub open spec fn starts_with(s: Seq<char>, prefix: Seq<char>, n: int) -> bool {
    n <= s.len() && s.take(n) == prefix
}

/// XML text with the entities `&amp;`, `&lt;`, `&gt;`, `&quot;` and `&apos;`
/// read back as characters, left to right; any other character is kept.
pub open spec fn xml_unescaped(s: Seq<char>) -> Seq<char>
    decreases s.len(),
{
    if s.len() == 0 {
        Seq::empty()
    } else if starts_with(s, "&amp;"@, 5) {
        seq!['&'] + xml_unescaped(s.skip(5))
    } else if starts_with(s, "&lt;"@, 4) {
        seq!['<'] + xml_unescaped(s.skip(4))
    } else if starts_with(s, "&gt;"@, 4) {
        seq!['>'] + xml_unescaped(s.skip(4))
    } else if starts_with(s, "&quot;"@, 6) {
        seq!['"'] + xml_unescaped(s.skip(6))
    } else if starts_with(s, "&apos;"@, 6) {
        seq!['\''] + xml_unescaped(s.skip(6))
    } else {
        seq![s[0]] + xml_unescaped(s.skip(1))
    }
}


proof fn lemma_xml_escaped_concat(a: Seq<char>, b: Seq<char>)
    ensures
        xml_escaped(a + b) == xml_escaped(a) + xml_escaped(b),
    decreases b.len(),
{
    if b.len() == 0 {
        assert(a + b =~= a);
        assert(xml_escaped(b) =~= Seq::<char>::empty());
        assert(xml_escaped(a) + xml_escaped(b) =~= xml_escaped(a));
    } else {
        lemma_xml_escaped_concat(a, b.drop_last());
        assert((a + b).drop_last() =~= a + b.drop_last());
        assert((a + b).last() == b.last());
        assert(xml_escaped(a) + xml_escaped(b) =~= (xml_escaped(a) + xml_escaped(b.drop_last())) + xml_char(b.last()));
    }
}

proof fn lemma_unescape_char(c: char, t: Seq<char>)
    ensures
        xml_unescaped(xml_char(c) + t) == seq![c] + xml_unescaped(t),
{
    reveal_strlit("&amp;");
    reveal_strlit("&lt;");
    reveal_strlit("&gt;");
    reveal_strlit("&quot;");
    reveal_strlit("&apos;");
    let u = xml_char(c) + t;
    assert(u.len() > 0);
    if c == '&' {
        assert(u.take(5) =~= "&amp;"@);
        assert(u.skip(5) =~= t);
    } else if c == '<' {
        assert(u[1] == 'l');
        assert(!starts_with(u, "&amp;"@, 5)) by {
            if starts_with(u, "&amp;"@, 5) {
                assert(u.take(5)[1] == u[1]);
            }
        }
        assert(u.take(4) =~= "&lt;"@);
        assert(u.skip(4) =~= t);
    } else if c == '>' {
        assert(u[1] == 'g');
        assert(!starts_with(u, "&amp;"@, 5)) by {
            if starts_with(u, "&amp;"@, 5) {
                assert(u.take(5)[1] == u[1]);
            }
        }
        assert(!starts_with(u, "&lt;"@, 4)) by {
            if starts_with(u, "&lt;"@, 4) {
                assert(u.take(4)[1] == u[1]);
            }
        }
        assert(u.take(4) =~= "&gt;"@);
        assert(u.skip(4) =~= t);
    } else if c == '"' {
        assert(u[1] == 'q');
        assert(!starts_with(u, "&amp;"@, 5)) by {
            if starts_with(u, "&amp;"@, 5) {
                assert(u.take(5)[1] == u[1]);
            }
        }
        assert(!starts_with(u, "&lt;"@, 4)) by {
            if starts_with(u, "&lt;"@, 4) {
                assert(u.take(4)[1] == u[1]);
            }
        }
        assert(!starts_with(u, "&gt;"@, 4)) by {
            if starts_with(u, "&gt;"@, 4) {
                assert(u.take(4)[1] == u[1]);
            }
        }
        assert(u.take(6) =~= "&quot;"@);
        assert(u.skip(6) =~= t);
    } else if c == '\'' {
        assert(u[2] == 'p');
        assert(u[1] == 'a');
        assert(!starts_with(u, "&amp;"@, 5)) by {
            if starts_with(u, "&amp;"@, 5) {
                assert(u.take(5)[2] == u[2]);
            }
        }
        assert(!starts_with(u, "&lt;"@, 4)) by {
            if starts_with(u, "&lt;"@, 4) {
                assert(u.take(4)[1] == u[1]);
            }
        }
        assert(!starts_with(u, "&gt;"@, 4)) by {
            if starts_with(u, "&gt;"@, 4) {
                assert(u.take(4)[1] == u[1]);
            }
        }
        assert(!starts_with(u, "&quot;"@, 6)) by {
            if starts_with(u, "&quot;"@, 6) {
                assert(u.take(6)[1] == u[1]);
            }
        }
        assert(u.take(6) =~= "&apos;"@);
        assert(u.skip(6) =~= t);
    } else {
        assert(xml_char(c) == seq![c]);
        assert(u[0] == c);
        assert(!starts_with(u, "&amp;"@, 5)) by {
            if starts_with(u, "&amp;"@, 5) {
                assert(u.take(5)[0] == u[0]);
            }
        }
        assert(!starts_with(u, "&lt;"@, 4)) by {
            if starts_with(u, "&lt;"@, 4) {
                assert(u.take(4)[0] == u[0]);
            }
        }
        assert(!starts_with(u, "&gt;"@, 4)) by {
            if starts_with(u, "&gt;"@, 4) {
                assert(u.take(4)[0] == u[0]);
            }
        }
        assert(!starts_with(u, "&quot;"@, 6)) by {
            if starts_with(u, "&quot;"@, 6) {
                assert(u.take(6)[0] == u[0]);
            }
        }
        assert(!starts_with(u, "&apos;"@, 6)) by {
            if starts_with(u, "&apos;"@, 6) {
                assert(u.take(6)[0] == u[0]);
            }
        }
        assert(u.skip(1) =~= t);
    }
}

/// Reading the entities of escaped XML text back gives the text that was escaped.
pub proof fn law_xml_escape_round_trip(s: Seq<char>)
    ensures
        xml_unescaped(xml_escaped(s)) == s,
    decreases s.len(),
{
    if s.len() == 0 {
        assert(xml_escaped(s) =~= Seq::<char>::empty());
    } else {
        let rest = s.skip(1);
        assert(s =~= seq![s[0]] + rest);
        lemma_xml_escaped_concat(seq![s[0]], rest);
        let one = seq![s[0]];
        assert(one.drop_last() =~= Seq::<char>::empty());
        assert(one.last() == s[0]);
        assert(xml_escaped(one.drop_last()) =~= Seq::<char>::empty());
        assert(xml_escaped(one) == xml_escaped(one.drop_last()) + xml_char(one.last()));
        assert(xml_escaped(one) =~= xml_char(s[0]));
        lemma_unescape_char(s[0], xml_escaped(rest));
        law_xml_escape_round_trip(rest);
    }
}


/// A login email, once normalized, is normalized again unchanged whenever
/// lower-casing leaves it as it is. (Whether lower-casing a lower-cased text
/// can change it is a property of `str::to_lowercase` that nothing here states.)
pub proof fn law_login_email_normalized_once(value: Seq<char>, e: Seq<char>)
    requires
        login_email_of(value) == Ok::<Seq<char>, AccountError>(e),
        lowercase(e) == e,
    ensures
        login_email_of(e) == Ok::<Seq<char>, AccountError>(e),
{
    assert(email_shaped(e));
    assert(e.len() > 0);
    assert(!is_white(e[0]));
    assert(!is_white(e.last()));
    assert(leading_white(e) == 0);
    assert(e.skip(0) =~= e);
    assert(trailing_white(e) == 0);
    assert(e.take(e.len() as int) =~= e);
    assert(trim(e) == e);
}

} // verus!

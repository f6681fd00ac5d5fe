//! Saved account profiles: an ordered map from profile name to account, the
//! configuration that holds it, and the rules that select, name and reuse them.

use vstd::prelude::*;
use crate::text::{
    lex_lt, lemma_lex_irreflexive, lemma_lex_transitive, lemma_lex_total, same_text, text_less,
    trim, trim_string, is_white, is_whitespace, chars_of, has_char, eq_ignore_ascii_case,
    equal_ignore_ascii_case, to_owned_string, trim_end_slashes, trim_trailing_slashes, opt_seq,
    push_str, push_decimal, decimal,
};
use crate::trusted::{lowercase, to_lowercase};


verus! {

/// One saved account profile.
pub struct AccountConfig {
    pub api_base: String,
    pub api_key: Option<String>,
    pub email: Option<String>,
    pub domain_count: Option<u64>,
    pub link_count: Option<u64>,
    pub visit_count: Option<u64>,
    pub last_checked_at: Option<String>,
    pub last_error: Option<String>,
}

/// The abstract content of an account map: (name, account) entries in name order.
pub open spec fn entries_view(v: Seq<(String, AccountConfig)>) -> Seq<(Seq<char>, AccountConfig)> {
    v.map_values(|e: (String, AccountConfig)| (e.0@, e.1))
}

/// Names strictly increase along the entries (so each name occurs once).
pub open spec fn keys_sorted(s: Seq<(Seq<char>, AccountConfig)>) -> bool {
    forall|i: int, j: int| 0 <= i < j < s.len() ==> lex_lt(#[trigger] s[i].0, #[trigger] s[j].0)
}

pub open spec fn has_key(s: Seq<(Seq<char>, AccountConfig)>, k: Seq<char>) -> bool {
    exists|i: int| 0 <= i < s.len() && (#[trigger] s[i]).0 == k
}

/// Position of the entry named `k` (meaningful when `has_key(s, k)`).
pub open spec fn key_index(s: Seq<(Seq<char>, AccountConfig)>, k: Seq<char>) -> int {
    choose|i: int| 0 <= i < s.len() && (#[trigger] s[i]).0 == k
}

/// The account named `k` (meaningful when `has_key(s, k)`).
pub open spec fn lookup(s: Seq<(Seq<char>, AccountConfig)>, k: Seq<char>) -> AccountConfig {
    s[key_index(s, k)].1
}

/// In sorted entries, the entry at `i` is the one `key_index` finds for its name.
pub proof fn lemma_key_index(s: Seq<(Seq<char>, AccountConfig)>, i: int)
    requires
        keys_sorted(s),
        0 <= i < s.len(),
    ensures
        has_key(s, s[i].0),
        key_index(s, s[i].0) == i,
        lookup(s, s[i].0) == s[i].1,
{
    let k = s[i].0;
    assert(s[i].0 == k);
    assert(has_key(s, k));
    let j = key_index(s, k);
    if j < i {
        assert(lex_lt(s[j].0, s[i].0));
        lemma_lex_irreflexive(k);
    } else if j > i {
        assert(lex_lt(s[i].0, s[j].0));
        lemma_lex_irreflexive(k);
    }
}

/// Dropping the entry at `i` keeps every other name and its account.
pub proof fn lemma_remove_others(s: Seq<(Seq<char>, AccountConfig)>, i: int, k: Seq<char>)
    requires
        keys_sorted(s),
        0 <= i < s.len(),
        k != s[i].0,
    ensures
        keys_sorted(s.remove(i)),
        has_key(s.remove(i), k) == has_key(s, k),
        has_key(s, k) ==> lookup(s.remove(i), k) == lookup(s, k),
        !has_key(s.remove(i), s[i].0),
{
    let t = s.remove(i);
    assert forall|a: int, b: int| 0 <= a < b < t.len() implies lex_lt(#[trigger] t[a].0, #[trigger] t[b].0) by {
        if b < i {
            assert(t[a] == s[a] && t[b] == s[b]);
        } else if a < i {
            assert(t[a] == s[a] && t[b] == s[b + 1]);
        } else {
            assert(t[a] == s[a + 1] && t[b] == s[b + 1]);
        }
    }
    if has_key(s, k) {
        let m = key_index(s, k);
        lemma_key_index(s, m);
        let j = if m < i { m } else { m - 1 };
        assert(t[j] == s[m]);
        lemma_key_index(t, j);
    }
    if has_key(t, k) {
        let j = choose|j: int| 0 <= j < t.len() && (#[trigger] t[j]).0 == k;
        if j < i {
            assert(s[j] == t[j]);
        } else {
            assert(s[j + 1] == t[j]);
        }
    }
    if has_key(t, s[i].0) {
        let j = choose|j: int| 0 <= j < t.len() && (#[trigger] t[j]).0 == s[i].0;
        if j < i {
            assert(s[j] == t[j]);
            lemma_lex_irreflexive(s[i].0);
        } else {
            assert(s[j + 1] == t[j]);
            lemma_lex_irreflexive(s[i].0);
        }
    }
}

/// Account profiles keyed by name and kept in name order.
pub struct AccountMap {
    entries: Vec<(String, AccountConfig)>,
}

impl View for AccountMap {
    type V = Seq<(Seq<char>, AccountConfig)>;

    closed spec fn view(&self) -> Seq<(Seq<char>, AccountConfig)> {
        entries_view(self.entries@)
    }
}

proof fn lemma_view_insert(v: Seq<(String, AccountConfig)>, i: int, x: (String, AccountConfig))
    requires
        0 <= i <= v.len(),
    ensures
        entries_view(v.insert(i, x)) == entries_view(v).insert(i, (x.0@, x.1)),
{
    assert(entries_view(v.insert(i, x)) =~= entries_view(v).insert(i, (x.0@, x.1)));
}

proof fn lemma_view_remove(v: Seq<(String, AccountConfig)>, i: int)
    requires
        0 <= i < v.len(),
    ensures
        entries_view(v.remove(i)) == entries_view(v).remove(i),
{
    assert(entries_view(v.remove(i)) =~= entries_view(v).remove(i));
}

proof fn lemma_view_update(v: Seq<(String, AccountConfig)>, i: int, x: (String, AccountConfig))
    requires
        0 <= i < v.len(),
    ensures
        entries_view(v.update(i, x)) == entries_view(v).update(i, (x.0@, x.1)),
{
    assert(entries_view(v.update(i, x)) =~= entries_view(v).update(i, (x.0@, x.1)));
}

impl AccountMap {
    #[verifier::type_invariant]
    spec fn sorted(self) -> bool {
        keys_sorted(self@)
    }

    /// An empty map.
    pub fn new() -> (r: Self)
        ensures
            r@.len() == 0,
    {
        let r = AccountMap { entries: Vec::new() };
        assert(r@ =~= Seq::<(Seq<char>, AccountConfig)>::empty());
        r
    }

    pub fn len(&self) -> (r: usize)
        ensures
            r == self@.len(),
            keys_sorted(self@),
    {
        proof {
            use_type_invariant(self);
        }
        self.entries.len()
    }

    pub fn is_empty(&self) -> (r: bool)
        ensures
            r == (self@.len() == 0),
    {
        self.entries.len() == 0
    }

    /// The name and account at position `i` in name order.
    pub fn entry(&self, i: usize) -> (r: (&str, &AccountConfig))
        requires
            i < self@.len(),
        ensures
            r.0@ == self@[i as int].0,
            *r.1 == self@[i as int].1,
    {
        let e = &self.entries[i];
        (e.0.as_str(), &e.1)
    }

    /// Position of the entry named `name`.
    pub fn find(&self, name: &str) -> (r: Option<usize>)
        ensures
            keys_sorted(self@),
            r matches Some(i) ==> i < self@.len() && self@[i as int].0 == name@ && key_index(
                self@,
                name@,
            ) == i && has_key(self@, name@),
            r is None ==> !has_key(self@, name@),
    {
        proof {
            use_type_invariant(self);
        }
        let n = self.entries.len();
        let mut i: usize = 0;
        while i < n
            invariant
                n == self@.len(),
                keys_sorted(self@),
                i <= n,
                forall|j: int| 0 <= j < i ==> (#[trigger] self@[j]).0 != name@,
            decreases n - i,
        {
            if same_text(self.entries[i].0.as_str(), name) {
                proof {
                    lemma_key_index(self@, i as int);
                }
                return Some(i);
            }
            i = i + 1;
        }
        None
    }

    pub fn contains_key(&self, name: &str) -> (r: bool)
        ensures
            r == has_key(self@, name@),
    {
        self.find(name).is_some()
    }

    /// The account saved under `name`.
    pub fn get(&self, name: &str) -> (r: Option<&AccountConfig>)
        ensures
            r matches Some(a) ==> has_key(self@, name@) && *a == lookup(self@, name@),
            r is None ==> !has_key(self@, name@),
    {
        match self.find(name) {
            Some(i) => Some(&self.entries[i].1),
            None => None,
        }
    }

    /// The first name in order.
    pub fn first_name(&self) -> (r: Option<&str>)
        ensures
            r matches Some(n) ==> self@.len() > 0 && n@ == self@[0].0,
            r is None ==> self@.len() == 0,
    {
        if self.entries.len() == 0 {
            None
        } else {
            Some(self.entries[0].0.as_str())
        }
    }

    /// Saves `account` under `name`, replacing any account already saved there.
    pub fn insert(&mut self, name: String, account: AccountConfig)
        ensures
            keys_sorted(final(self)@),
            forall|e: (Seq<char>, AccountConfig)|
                #![trigger final(self)@.contains(e)]
                final(self)@.contains(e) <==> (e == (name@, account) || (old(self)@.contains(e)
                    && e.0 != name@)),
            has_key(final(self)@, name@),
            lookup(final(self)@, name@) == account,
            forall|k: Seq<char>|
                k != name@ ==> (has_key(final(self)@, k) == has_key(old(self)@, k) && (has_key(
                    old(self)@,
                    k,
                ) ==> lookup(final(self)@, k) == lookup(old(self)@, k))),
    {
        proof {
            use_type_invariant(&*self);
        }
        let ghost s = self@;
        let mut v: Vec<(String, AccountConfig)> = Vec::new();
        std::mem::swap(&mut v, &mut self.entries);
        assert(entries_view(v@) == s);
        let n = v.len();
        let mut i: usize = 0;
        while i < n && text_less(v[i].0.as_str(), name.as_str())
            invariant
                n == v.len() == s.len(),
                entries_view(v@) == s,
                keys_sorted(s),
                i <= n,
                forall|j: int| 0 <= j < i ==> lex_lt((#[trigger] s[j]).0, name@),
            decreases n - i,
        {
            i = i + 1;
        }
        let ghost k = name@;
        let ghost x = (k, account);
        let ghost t: Seq<(Seq<char>, AccountConfig)>;
        if i < n && same_text(v[i].0.as_str(), name.as_str()) {
            proof {
                lemma_view_update(v@, i as int, (name, account));
                t = s.update(i as int, x);
                assert forall|a: int, b: int| 0 <= a < b < t.len() implies lex_lt(
                    #[trigger] t[a].0,
                    #[trigger] t[b].0,
                ) by {
                    assert(s[a].0 == t[a].0 && s[b].0 == t[b].0);
                }
            }
            v.set(i, (name, account));
        } else {
            proof {
                lemma_view_insert(v@, i as int, (name, account));
                t = s.insert(i as int, x);
                if i < n {
                    assert(!lex_lt(s[i as int].0, k));
                    lemma_lex_total(s[i as int].0, k);
                }
                assert forall|a: int, b: int| 0 <= a < b < t.len() implies lex_lt(
                    #[trigger] t[a].0,
                    #[trigger] t[b].0,
                ) by {
                    if b < i {
                        assert(t[a] == s[a] && t[b] == s[b]);
                    } else if b == i {
                        assert(t[a] == s[a]);
                    } else if a == i {
                        assert(t[b] == s[b - 1]);
                        if b - 1 > i {
                            assert(lex_lt(s[i as int].0, s[b - 1].0));
                            lemma_lex_transitive(k, s[i as int].0, s[b - 1].0);
                        }
                    } else if a < i {
                        assert(t[a] == s[a] && t[b] == s[b - 1]);
                        if a < b - 1 {
                        } else {
                        }
                        assert(lex_lt(s[a].0, s[b - 1].0)) by {
                            if a < b - 1 {
                            } else {
                                assert(false);
                            }
                        }
                    } else {
                        assert(t[a] == s[a - 1] && t[b] == s[b - 1]);
                    }
                }
            }
            v.insert(i, (name, account));
        }
        assert(entries_view(v@) == t);
        proof {
            let ghost f = entries_view(v@);
            assert forall|e: (Seq<char>, AccountConfig)|
                #![trigger f.contains(e)]
                f.contains(e) <==> (e == x || (s.contains(e) && e.0 != k)) by {
                if f.contains(e) {
                    let j = choose|j: int| 0 <= j < f.len() && f[j] == e;
                    if e != x {
                        if t == s.update(i as int, x) {
                            assert(j != i);
                            assert(s[j] == e);
                            lemma_key_index(t, j);
                            lemma_key_index(t, i as int);
                        } else {
                            if j < i {
                                assert(s[j] == e);
                            } else {
                                assert(s[j - 1] == e);
                            }
                            lemma_key_index(t, j);
                            lemma_key_index(t, i as int);
                        }
                    }
                }
                if e == x {
                    assert(f[i as int] == x);
                }
                if s.contains(e) && e.0 != k {
                    let j = choose|j: int| 0 <= j < s.len() && s[j] == e;
                    if t == s.update(i as int, x) {
                        assert(j != i);
                        assert(f[j] == e);
                    } else if j < i {
                        assert(f[j] == e);
                    } else {
                        assert(f[j + 1] == e);
                    }
                }
            }
            lemma_key_index(t, i as int);
            assert forall|q: Seq<char>| q != k implies (has_key(t, q) == has_key(s, q) && (has_key(s, q) ==> lookup(t, q) == lookup(s, q))) by {
                if has_key(t, q) {
                    let j = choose|j: int| 0 <= j < t.len() && (#[trigger] t[j]).0 == q;
                    assert(t.contains(t[j]));
                    assert(s.contains(t[j]));
                    let m = choose|m: int| 0 <= m < s.len() && s[m] == t[j];
                    assert(s[m].0 == q);
                }
                if has_key(s, q) {
                    let m = choose|m: int| 0 <= m < s.len() && (#[trigger] s[m]).0 == q;
                    assert(s.contains(s[m]));
                    assert(t.contains(s[m]));
                    let j = choose|j: int| 0 <= j < t.len() && t[j] == s[m];
                    assert(t[j].0 == q);
                    lemma_key_index(t, j);
                    lemma_key_index(s, m);
                }
            }
        }
        self.entries = v;
    }

    /// Forgets the account saved under `name`, returning it.
    pub fn remove(&mut self, name: &str) -> (r: Option<AccountConfig>)
        ensures
            keys_sorted(final(self)@),
            r matches Some(a) ==> has_key(old(self)@, name@) && a == lookup(old(self)@, name@)
                && final(self)@ == old(self)@.remove(key_index(old(self)@, name@)),
            r is None ==> !has_key(old(self)@, name@) && final(self)@ == old(self)@,
    {
        proof {
            use_type_invariant(&*self);
        }
        match self.find(name) {
            None => None,
            Some(i) => {
                let ghost s = self@;
                let mut v: Vec<(String, AccountConfig)> = Vec::new();
                std::mem::swap(&mut v, &mut self.entries);
                proof {
                    lemma_view_remove(v@, i as int);
                    lemma_key_index(s, i as int);
                    let t = s.remove(i as int);
                    assert forall|a: int, b: int| 0 <= a < b < t.len() implies lex_lt(
                        #[trigger] t[a].0,
                        #[trigger] t[b].0,
                    ) by {
                        if b < i {
                            assert(t[a] == s[a] && t[b] == s[b]);
                        } else if a < i {
                            assert(t[a] == s[a] && t[b] == s[b + 1]);
                        } else {
                            assert(t[a] == s[a + 1] && t[b] == s[b + 1]);
                        }
                    }
                }
                let e = v.remove(i);
                self.entries = v;
                Some(e.1)
            },
        }
    }
}


/// Why an account could not be named, selected or resolved.
#[derive(Debug, PartialEq, Eq)]
pub enum AccountError {
    /// The account name is empty after trimming.
    EmptyName,
    /// The account name holds a character other than letters, digits, `-`, `_`, `.`, `@`.
    InvalidName,
    /// An email-like selector matches no stored account.
    NoMatch,
    /// A selector matches more than one stored account.
    Ambiguous,
    /// The login email is not an email address.
    InvalidEmail,
    /// The login email was given both positionally and with `--email`.
    BothEmails,
    /// Neither an email nor `--account` was given and no account is stored.
    FirstLogin,
    /// No account is active.
    NoActive,
    /// `mv` was given no account.
    MissingAccount,
    /// `--from` or `--to` was combined with two explicit accounts.
    DirectionWithTarget,
    /// No account is stored under the selected name.
    NotStored,
    /// `account add` was given no `--key`.
    MissingKey,
}

/// The saved configuration: legacy single-profile fields and named profiles.
pub struct Config {
    pub api_base: Option<String>,
    pub api_key: Option<String>,
    pub active_account: Option<String>,
    pub accounts: AccountMap,
}

impl Default for Config {
    fn default() -> (r: Config)
        ensures
            r.api_base is None,
            r.api_key is None,
            r.active_account is None,
            r.accounts@.len() == 0,
    {
        Config { api_base: None, api_key: None, active_account: None, accounts: AccountMap::new() }
    }
}

/// The text of a successful result.
pub open spec fn text_result(r: Result<String, AccountError>) -> Result<Seq<char>, AccountError> {
    match r {
        Ok(s) => Ok(s@),
        Err(e) => Err(e),
    }
}

/// Whether `o` holds the text `x`.
pub open spec fn holds_text(o: Option<String>, x: Seq<char>) -> bool {
    o matches Some(n) && n@ == x
}

/// Position of the active profile: the one named by `active_account` when it is
/// stored, otherwise the first profile in name order.
pub open spec fn active_index(c: Config) -> Option<int> {
    if c.active_account is Some && has_key(c.accounts@, (c.active_account->0)@) {
        Some(key_index(c.accounts@, (c.active_account->0)@))
    } else if c.accounts@.len() > 0 {
        Some(0)
    } else {
        None
    }
}

/// The active profile's name and account.
pub fn active_account(config: &Config) -> (r: Option<(&str, &AccountConfig)>)
    ensures
        match active_index(*config) {
            Some(i) => 0 <= i < config.accounts@.len() && (r matches Some((n, a)) && n@
                == config.accounts@[i].0 && *a == config.accounts@[i].1),
            None => r is None,
        },
{
    if let Some(name) = &config.active_account {
        if let Some(i) = config.accounts.find(name.as_str()) {
            return Some(config.accounts.entry(i));
        }
    }
    if config.accounts.len() > 0 {
        Some(config.accounts.entry(0))
    } else {
        None
    }
}

/// `i` is the first position whose account holds an API key.
pub open spec fn is_first_logged_in(s: Seq<(Seq<char>, AccountConfig)>, i: int) -> bool {
    &&& 0 <= i < s.len()
    &&& s[i].1.api_key is Some
    &&& forall|j: int| 0 <= j < i ==> (#[trigger] s[j]).1.api_key is None
}

/// The first profile, in name order, that still holds an API key.
pub fn first_logged_in_account(config: &Config) -> (r: Option<String>)
    ensures
        r matches Some(n) ==> exists|i: int|
            is_first_logged_in(config.accounts@, i) && config.accounts@[i].0 == n@,
        r is None ==> forall|i: int|
            0 <= i < config.accounts@.len() ==> (#[trigger] config.accounts@[i]).1.api_key is None,
{
    let n = config.accounts.len();
    let mut i: usize = 0;
    while i < n
        invariant
            n == config.accounts@.len(),
            i <= n,
            forall|j: int| 0 <= j < i ==> (#[trigger] config.accounts@[j]).1.api_key is None,
        decreases n - i,
    {
        let (name, account) = config.accounts.entry(i);
        if account.api_key.is_some() {
            let r = to_owned_string(name);
            assert(is_first_logged_in(config.accounts@, i as int));
            return Some(r);
        }
        i = i + 1;
    }
    None
}

/// The profile name that older releases used for their single key.
pub open spec fn legacy_name() -> Seq<char> {
    "default"@
}

/// The profiles left once the legacy profile is dropped.
pub open spec fn without_legacy(s: Seq<(Seq<char>, AccountConfig)>) -> Seq<(Seq<char>, AccountConfig)> {
    if has_key(s, legacy_name()) {
        s.remove(key_index(s, legacy_name()))
    } else {
        s
    }
}

/// Drops the legacy single-profile fields and the `default` profile. When the
/// active profile was `default`, the first remaining profile becomes active.
/// Returns whether anything changed.
pub fn discard_legacy_profiles(config: &mut Config) -> (changed: bool)
    ensures
        final(config).api_base is None,
        final(config).api_key is None,
        final(config).accounts@ == without_legacy(old(config).accounts@),
        holds_text(old(config).active_account, legacy_name()) ==> (match final(config).active_account {
            Some(n) => final(config).accounts@.len() > 0 && n@ == final(config).accounts@[0].0,
            None => final(config).accounts@.len() == 0,
        }),
        !holds_text(old(config).active_account, legacy_name()) ==> final(config).active_account
            == old(config).active_account,
        changed == (old(config).api_base is Some || old(config).api_key is Some || has_key(
            old(config).accounts@,
            legacy_name(),
        ) || holds_text(old(config).active_account, legacy_name())),
{
    let mut changed = config.api_base.is_some();
    config.api_base = None;
    changed = changed || config.api_key.is_some();
    config.api_key = None;
    let removed = config.accounts.remove("default");
    changed = changed || removed.is_some();
    let is_legacy = match &config.active_account {
        Some(name) => same_text(name.as_str(), "default"),
        None => false,
    };
    if is_legacy {
        config.active_account = match config.accounts.first_name() {
            Some(n) => Some(to_owned_string(n)),
            None => None,
        };
        changed = true;
    }
    changed
}

/// The label shown for an account: its cached email, else its profile name.
pub fn account_display_email(name: &str, account: &AccountConfig) -> (r: String)
    ensures
        r@ == match account.email {
            Some(e) => e@,
            None => name@,
        },
{
    match &account.email {
        Some(e) => e.clone(),
        None => to_owned_string(name),
    }
}

/// Characters allowed in a profile name.
pub open spec fn name_char(c: char) -> bool {
    ('a' <= c && c <= 'z') || ('A' <= c && c <= 'Z') || ('0' <= c && c <= '9') || c == '-' || c
        == '_' || c == '.' || c == '@'
}

/// The profile name that `value` denotes, or why it is not one.
pub open spec fn account_name_of(value: Seq<char>) -> Result<Seq<char>, AccountError> {
    let name = trim(value);
    if name.len() == 0 {
        Err(AccountError::EmptyName)
    } else if !(forall|i: int| 0 <= i < name.len() ==> name_char(#[trigger] name[i])) {
        Err(AccountError::InvalidName)
    } else {
        Ok(name)
    }
}

/// Trims `value` and accepts it as a profile name when non-empty and made of
/// letters, digits, `-`, `_`, `.` and `@`.
pub fn normalize_account_name(value: &str) -> (r: Result<String, AccountError>)
    ensures
        text_result(r) == account_name_of(value@),
{
    let name = trim_string(value);
    let v = chars_of(name.as_str());
    if v.len() == 0 {
        return Err(AccountError::EmptyName);
    }
    let mut i: usize = 0;
    while i < v.len()
        invariant
            v@ == trim(value@),
            i <= v.len(),
            forall|j: int| 0 <= j < i ==> name_char(#[trigger] v@[j]),
        decreases v.len() - i,
    {
        let c = v[i];
        if !(('a' <= c && c <= 'z') || ('A' <= c && c <= 'Z') || ('0' <= c && c <= '9') || c == '-'
            || c == '_' || c == '.' || c == '@') {
            assert(!name_char(v@[i as int]));
            return Err(AccountError::InvalidName);
        }
        i = i + 1;
    }
    Ok(name)
}

/// Whether `e` has the shape of an email address: an `@` that is neither first nor
/// last, and no whitespace.
pub open spec fn email_shaped(e: Seq<char>) -> bool {
    &&& e.contains('@')
    &&& e[0] != '@'
    &&& e[e.len() - 1] != '@'
    &&& forall|i: int| 0 <= i < e.len() ==> !is_white(#[trigger] e[i])
}

/// The login email that `value` denotes: trimmed and lower-cased.
pub open spec fn login_email_of(value: Seq<char>) -> Result<Seq<char>, AccountError> {
    let e = lowercase(trim(value));
    if email_shaped(e) {
        Ok(e)
    } else {
        Err(AccountError::InvalidEmail)
    }
}

/// Trims and lower-cases `value`, accepting it when it has the shape of an email address.
pub fn normalize_login_email(value: &str) -> (r: Result<String, AccountError>)
    ensures
        text_result(r) == login_email_of(value@),
{
    let trimmed = trim_string(value);
    let email = to_lowercase(trimmed.as_str());
    let v = chars_of(email.as_str());
    if !has_char(&v, '@') {
        return Err(AccountError::InvalidEmail);
    }
    if v[0] == '@' || v[v.len() - 1] == '@' {
        return Err(AccountError::InvalidEmail);
    }
    let mut i: usize = 0;
    while i < v.len()
        invariant
            v@ == lowercase(trim(value@)),
            i <= v.len(),
            forall|j: int| 0 <= j < i ==> !is_white(#[trigger] v@[j]),
        decreases v.len() - i,
    {
        if is_whitespace(v[i]) {
            assert(is_white(v@[i as int]));
            return Err(AccountError::InvalidEmail);
        }
        i = i + 1;
    }
    Ok(email)
}

/// Whether `value` is accepted as a login email.
pub fn looks_like_email(value: &str) -> (r: bool)
    ensures
        r == login_email_of(value@) is Ok,
{
    normalize_login_email(value).is_ok()
}


/// The arguments of `suffix login`.
pub struct LoginArgs {
    /// Email given positionally.
    pub login_email: Option<String>,
    /// Dashboard URL to open.
    pub app_url: String,
    /// Email given with `--email`.
    pub email: Option<String>,
    /// Profile name given with `--account`.
    pub account: Option<String>,
    /// Dashboard label for a newly minted key.
    pub name: Option<String>,
    /// Mint a new key even when a matching one is saved.
    pub renew: bool,
    /// Print the login URL instead of opening it.
    pub no_open: bool,
    /// Seconds to wait for browser approval.
    pub timeout: u64,
}

/// The email hint of a login: the positional email or `--email` (never both), normalized.
pub open spec fn login_hint_of(args: LoginArgs) -> Result<Option<Seq<char>>, AccountError> {
    match (args.login_email, args.email) {
        (Some(_), Some(_)) => Err(AccountError::BothEmails),
        (Some(v), None) | (None, Some(v)) => match login_email_of(v@) {
            Ok(e) => Ok(Some(e)),
            Err(err) => Err(err),
        },
        (None, None) => Ok(None),
    }
}

pub fn login_email_hint(args: &LoginArgs) -> (r: Result<Option<String>, AccountError>)
    ensures
        login_hint_of(*args) == match r {
            Ok(Some(e)) => Ok(Some(e@)),
            Ok(None) => Ok(None),
            Err(err) => Err(err),
        },
{
    match (&args.login_email, &args.email) {
        (Some(_), Some(_)) => Err(AccountError::BothEmails),
        (Some(value), None) | (None, Some(value)) => match normalize_login_email(value.as_str()) {
            Ok(e) => Ok(Some(e)),
            Err(err) => Err(err),
        },
        (None, None) => Ok(None),
    }
}

/// Whether `account` caches an email equal to `email` up to ASCII case.
pub open spec fn email_matches(account: AccountConfig, email: Seq<char>) -> bool {
    account.email matches Some(x) && eq_ignore_ascii_case(x@, email)
}

/// The first position, in name order, whose cached email matches `email`.
pub open spec fn first_email_match(s: Seq<(Seq<char>, AccountConfig)>, email: Seq<char>) -> Option<int> {
    if exists|i: int| 0 <= i < s.len() && email_matches((#[trigger] s[i]).1, email) {
        Some(
            choose|i: int|
                0 <= i < s.len() && email_matches((#[trigger] s[i]).1, email) && forall|j: int|
                    0 <= j < i ==> !email_matches((#[trigger] s[j]).1, email),
        )
    } else {
        None
    }
}

/// When position `i` is the first whose cached email matches, `first_email_match` finds it.
pub proof fn lemma_first_email_match(s: Seq<(Seq<char>, AccountConfig)>, email: Seq<char>, i: int)
    requires
        0 <= i < s.len(),
        email_matches(s[i].1, email),
        forall|j: int| 0 <= j < i ==> !email_matches((#[trigger] s[j]).1, email),
    ensures
        first_email_match(s, email) == Some(i),
{
    let k = choose|k: int|
        0 <= k < s.len() && email_matches((#[trigger] s[k]).1, email) && forall|j: int|
            0 <= j < k ==> !email_matches((#[trigger] s[j]).1, email);
    assert(0 <= k < s.len() && email_matches(s[k].1, email));
    if k < i {
        assert(!email_matches(s[k].1, email));
    } else if k > i {
        assert(!email_matches(s[i].1, email));
    }
}

/// The profile a login uses: `--account` when given; else the profile whose
/// cached email matches, or a new one named after the email; else the active one.
pub open spec fn login_account_of(
    c: Config,
    account_input: Option<Seq<char>>,
    email: Option<Seq<char>>,
) -> Result<Seq<char>, AccountError> {
    match account_input {
        Some(a) => account_name_of(a),
        None => match email {
            Some(e) => match first_email_match(c.accounts@, e) {
                Some(i) => Ok(c.accounts@[i].0),
                None => account_name_of(e),
            },
            None => match active_index(c) {
                Some(i) => Ok(c.accounts@[i].0),
                None => Err(AccountError::FirstLogin),
            },
        },
    }
}

pub open spec fn opt_text(o: Option<&str>) -> Option<Seq<char>> {
    match o {
        Some(s) => Some(s@),
        None => None,
    }
}

pub fn login_account_name(config: &Config, account_input: Option<&str>, email: Option<&str>) -> (r:
    Result<String, AccountError>)
    ensures
        text_result(r) == login_account_of(*config, opt_text(account_input), opt_text(email)),
{
    if let Some(account) = account_input {
        return normalize_account_name(account);
    }
    if let Some(e) = email {
        let n = config.accounts.len();
        let mut i: usize = 0;
        while i < n
            invariant
                n == config.accounts@.len(),
                i <= n,
                account_input is None,
                email == Some(e),
                forall|j: int| 0 <= j < i ==> !email_matches((#[trigger] config.accounts@[j]).1, e@),
            decreases n - i,
        {
            let (name, account) = config.accounts.entry(i);
            let hit = match &account.email {
                Some(saved) => equal_ignore_ascii_case(saved.as_str(), e),
                None => false,
            };
            if hit {
                proof {
                    assert(email_matches(config.accounts@[i as int].1, e@));
                    lemma_first_email_match(config.accounts@, e@, i as int);
                    assert(opt_text(account_input) is None);
                    assert(login_account_of(*config, None, Some(e@)) == Ok::<Seq<char>, AccountError>(config.accounts@[i as int].0));
                }
                let r = to_owned_string(name);
                assert(r@ == config.accounts@[i as int].0);
                return Ok(r);
            }
            i = i + 1;
        }
        return normalize_account_name(e);
    }
    match active_account(config) {
        Some((name, _)) => Ok(to_owned_string(name)),
        None => Err(AccountError::FirstLogin),
    }
}

/// Whether the saved profile `account` holds a key that a login for `email` may reuse.
pub open spec fn saved_key_reusable(c: Config, account: Seq<char>, email: Option<Seq<char>>) -> bool {
    has_key(c.accounts@, account) && lookup(c.accounts@, account).api_key is Some && match email {
        Some(expected) => email_matches(lookup(c.accounts@, account), expected),
        None => true,
    }
}

pub fn saved_key_matches(config: &Config, account: &str, email: Option<&str>) -> (r: bool)
    ensures
        r == saved_key_reusable(*config, account@, opt_text(email)),
{
    let saved = match config.accounts.get(account) {
        Some(saved) => saved,
        None => return false,
    };
    if saved.api_key.is_none() {
        return false;
    }
    match (email, &saved.email) {
        (Some(expected), Some(actual)) => equal_ignore_ascii_case(actual.as_str(), expected),
        (Some(_), None) => false,
        (None, _) => true,
    }
}

/// Whether a profile answers to the normalized selector, by name or cached email.
pub open spec fn selector_match(e: (Seq<char>, AccountConfig), normalized: Seq<char>) -> bool {
    eq_ignore_ascii_case(e.0, normalized) || email_matches(e.1, normalized)
}

/// The names, in order, of the profiles that answer to `normalized`.
pub open spec fn matching_names(s: Seq<(Seq<char>, AccountConfig)>, normalized: Seq<char>) -> Seq<Seq<char>>
    decreases s.len(),
{
    if s.len() == 0 {
        Seq::empty()
    } else {
        let r = matching_names(s.drop_last(), normalized);
        if selector_match(s.last(), normalized) {
            r.push(s.last().0)
        } else {
            r
        }
    }
}

/// The profile a selector names: an exact stored name; else the single profile
/// whose name or email matches the trimmed, lower-cased selector; else, when no
/// profile matches and the selector has no `@`, the selector as a new profile name.
pub open spec fn selected_account(s: Seq<(Seq<char>, AccountConfig)>, selector: Seq<char>) -> Result<Seq<char>, AccountError> {
    let normalized = lowercase(trim(selector));
    if has_key(s, selector) {
        Ok(selector)
    } else {
        let m = matching_names(s, normalized);
        if m.len() == 1 {
            Ok(m[0])
        } else if m.len() == 0 && normalized.contains('@') {
            Err(AccountError::NoMatch)
        } else if m.len() == 0 {
            account_name_of(selector)
        } else {
            Err(AccountError::Ambiguous)
        }
    }
}

/// How many profiles answer to `normalized`, and the name of the first of them.
fn count_matches(config: &Config, normalized: &str) -> (r: (usize, Option<String>))
    ensures
        r.0 == matching_names(config.accounts@, normalized@).len(),
        r.0 == 0 <==> r.1 is None,
        r.1 matches Some(f) ==> f@ == matching_names(config.accounts@, normalized@)[0],
{
    let ghost s = config.accounts@;
    let n = config.accounts.len();
    let mut count: usize = 0;
    let mut first: Option<String> = None;
    let mut i: usize = 0;
    while i < n
        invariant
            s == config.accounts@,
            n == s.len(),
            i <= n,
            count == matching_names(s.take(i as int), normalized@).len(),
            count <= i,
            count == 0 <==> first is None,
            first matches Some(f) ==> f@ == matching_names(s.take(i as int), normalized@)[0],
        decreases n - i,
    {
        let (name, account) = config.accounts.entry(i);
        let by_name = equal_ignore_ascii_case(name, normalized);
        let by_email = match &account.email {
            Some(e) => equal_ignore_ascii_case(e.as_str(), normalized),
            None => false,
        };
        let hit = by_name || by_email;
        proof {
            let t = s.take(i + 1);
            assert(t.drop_last() =~= s.take(i as int));
            assert(t.last() == s[i as int]);
            assert(hit == selector_match(s[i as int], normalized@));
            assert(matching_names(t, normalized@) == if hit {
                matching_names(s.take(i as int), normalized@).push(s[i as int].0)
            } else {
                matching_names(s.take(i as int), normalized@)
            });
        }
        if hit {
            if count == 0 {
                first = Some(to_owned_string(name));
            }
            count = count + 1;
        }
        i = i + 1;
    }
    assert(s.take(n as int) =~= s);
    (count, first)
}

pub fn account_selector(config: &Config, selector: &str) -> (r: Result<String, AccountError>)
    ensures
        text_result(r) == selected_account(config.accounts@, selector@),
{
    let trimmed = trim_string(selector);
    let normalized = to_lowercase(trimmed.as_str());
    if config.accounts.contains_key(selector) {
        return Ok(to_owned_string(selector));
    }
    let (count, first) = count_matches(config, normalized.as_str());
    let has_at = has_char(&chars_of(normalized.as_str()), '@');
    if count == 1 {
        match first {
            Some(f) => Ok(f),
            None => Err(AccountError::NoMatch),
        }
    } else if count == 0 && has_at {
        Err(AccountError::NoMatch)
    } else if count == 0 {
        normalize_account_name(selector)
    } else {
        Err(AccountError::Ambiguous)
    }
}

/// The arguments of `suffix mv`.
pub struct MoveArgs {
    /// Domain hostname or ID to move.
    pub domain: String,
    /// Other account; with `target`, the source account.
    pub account: Option<String>,
    /// Explicit target account.
    pub target: Option<String>,
    /// Move from the active account to `account`.
    pub to: bool,
    /// Move from `account` to the active account.
    pub from: bool,
    /// Skip the confirmation prompt.
    pub yes: bool,
}

/// The (source, target) profile names of a domain move.
pub open spec fn move_names_of(c: Config, args: MoveArgs) -> Result<(Seq<char>, Seq<char>), AccountError> {
    match active_index(c) {
        None => Err(AccountError::NoActive),
        Some(i) => {
            let active = c.accounts@[i].0;
            match args.account {
                None => Err(AccountError::MissingAccount),
                Some(account) => match args.target {
                    Some(target) => if args.from || args.to {
                        Err(AccountError::DirectionWithTarget)
                    } else {
                        match selected_account(c.accounts@, account@) {
                            Err(e) => Err(e),
                            Ok(a) => match selected_account(c.accounts@, target@) {
                                Err(e) => Err(e),
                                Ok(b) => Ok((a, b)),
                            },
                        }
                    },
                    None => match selected_account(c.accounts@, account@) {
                        Err(e) => Err(e),
                        Ok(other) => if args.from {
                            Ok((other, active))
                        } else {
                            Ok((active, other))
                        },
                    },
                },
            }
        },
    }
}

pub fn move_account_names(config: &Config, args: &MoveArgs) -> (r: Result<(String, String), AccountError>)
    ensures
        move_names_of(*config, *args) == match r {
            Ok((a, b)) => Ok((a@, b@)),
            Err(e) => Err(e),
        },
{
    let active = match active_account(config) {
        Some((name, _)) => to_owned_string(name),
        None => return Err(AccountError::NoActive),
    };
    let account = match &args.account {
        Some(a) => a,
        None => return Err(AccountError::MissingAccount),
    };
    if let Some(target) = &args.target {
        if args.from || args.to {
            return Err(AccountError::DirectionWithTarget);
        }
        let a = match account_selector(config, account.as_str()) {
            Ok(a) => a,
            Err(e) => return Err(e),
        };
        let b = match account_selector(config, target.as_str()) {
            Ok(b) => b,
            Err(e) => return Err(e),
        };
        return Ok((a, b));
    }
    let other = match account_selector(config, account.as_str()) {
        Ok(o) => o,
        Err(e) => return Err(e),
    };
    if args.from {
        Ok((other, active))
    } else {
        Ok((active, other))
    }
}


/// The active profile after `name` loses its key: unchanged unless it was `name`,
/// in which case the first profile still holding a key, else `name` itself.
pub open spec fn active_after_logout(old_active: Option<String>, name: Seq<char>, s: Seq<(Seq<char>, AccountConfig)>, new_active: Option<String>) -> bool {
    if holds_text(old_active, name) {
        new_active matches Some(a) && ((exists|i: int| is_first_logged_in(s, i) && s[i].0 == a@) || ((forall|i: int| 0 <= i < s.len() ==> (#[trigger] s[i]).1.api_key is None) && a@ == name))
    } else {
        new_active == old_active
    }
}

/// Every profile other than `name` is kept as it was.
pub open spec fn others_kept(old: Seq<(Seq<char>, AccountConfig)>, new: Seq<(Seq<char>, AccountConfig)>, name: Seq<char>) -> bool {
    forall|k: Seq<char>| k != name ==> (has_key(new, k) == has_key(old, k) && (has_key(old, k) ==> lookup(new, k) == lookup(old, k)))
}

/// Forgets the API key (and last error) of the selected profile, keeping its
/// cached metadata. When it was active, another logged-in profile becomes active.
pub fn logout(config: &mut Config, account: &str) -> (r: Result<String, AccountError>)
    ensures
        match selected_account(old(config).accounts@, account@) {
            Err(e) => r == Err::<String, AccountError>(e) && *final(config) == *old(config),
            Ok(n) => if !has_key(old(config).accounts@, n) {
                r == Err::<String, AccountError>(AccountError::NotStored) && *final(config) == *old(config)
            } else {
                &&& r matches Ok(x) && x@ == n
                &&& has_key(final(config).accounts@, n)
                &&& lookup(final(config).accounts@, n) == (AccountConfig { api_key: None, last_error: None, ..lookup(old(config).accounts@, n) })
                &&& others_kept(old(config).accounts@, final(config).accounts@, n)
                &&& final(config).api_base == old(config).api_base
                &&& final(config).api_key == old(config).api_key
                &&& active_after_logout(old(config).active_account, n, final(config).accounts@, final(config).active_account)
            },
        },
{
    let name = match account_selector(config, account) {
        Ok(n) => n,
        Err(e) => return Err(e),
    };
    let ghost s = config.accounts@;
    let i = match config.accounts.find(name.as_str()) {
        Some(i) => i,
        None => return Err(AccountError::NotStored),
    };
    let mut saved = match config.accounts.remove(name.as_str()) {
        Some(a) => a,
        None => return Err(AccountError::NotStored),
    };
    proof {
        lemma_key_index(s, i as int);
    }
    saved.api_key = None;
    saved.last_error = None;
    let ghost mid = config.accounts@;
    config.accounts.insert(name.clone(), saved);
    proof {
        assert forall|k: Seq<char>| k != name@ implies (has_key(config.accounts@, k) == has_key(s, k) && (has_key(s, k) ==> lookup(config.accounts@, k) == lookup(s, k))) by {
            lemma_remove_others(s, i as int, k);
        }
    }
    let is_active = match &config.active_account {
        Some(a) => same_text(a.as_str(), name.as_str()),
        None => false,
    };
    if is_active {
        config.active_account = match first_logged_in_account(config) {
            Some(n) => Some(n),
            None => Some(name.clone()),
        };
    }
    Ok(name)
}

/// Makes the selected stored profile active.
pub fn account_switch(config: &mut Config, selector: &str) -> (r: Result<String, AccountError>)
    ensures
        final(config).accounts@ == old(config).accounts@,
        final(config).api_base == old(config).api_base,
        final(config).api_key == old(config).api_key,
        match selected_account(old(config).accounts@, selector@) {
            Err(e) => r == Err::<String, AccountError>(e) && final(config).active_account == old(config).active_account,
            Ok(n) => if has_key(old(config).accounts@, n) {
                r matches Ok(x) && x@ == n && holds_text(final(config).active_account, n)
            } else {
                r == Err::<String, AccountError>(AccountError::NotStored) && final(config).active_account == old(config).active_account
            },
        },
{
    let name = match account_selector(config, selector) {
        Ok(n) => n,
        Err(e) => return Err(e),
    };
    if !config.accounts.contains_key(name.as_str()) {
        return Err(AccountError::NotStored);
    }
    config.active_account = Some(name.clone());
    Ok(name)
}

/// The account `account add` stores.
pub open spec fn added_account(a: AccountConfig, api_base: Seq<char>, key: Seq<char>, email: Option<Seq<char>>) -> bool {
    &&& a.api_base@ == trim_trailing_slashes(api_base)
    &&& opt_seq(a.api_key) == Some(key)
    &&& opt_seq(a.email) == email
    &&& a.domain_count is None && a.link_count is None && a.visit_count is None
    &&& a.last_checked_at is None && a.last_error is None
}

/// Stores a profile from a key given by hand and makes it active, dropping the
/// legacy single-profile fields.
pub fn account_add(config: &mut Config, name: &str, key: Option<String>, email: Option<&str>, api_base: &str) -> (r: Result<String, AccountError>)
    ensures
        match key {
            None => r == Err::<String, AccountError>(AccountError::MissingKey) && *final(config) == *old(config),
            Some(k) => match account_name_of(name@) {
                Err(e) => r == Err::<String, AccountError>(e) && *final(config) == *old(config),
                Ok(n) => match email {
                    Some(e) if login_email_of(e@) is Err => r == Err::<String, AccountError>(AccountError::InvalidEmail) && *final(config) == *old(config),
                    _ => {
                        &&& r matches Ok(x) && x@ == n
                        &&& final(config).api_base is None
                        &&& final(config).api_key is None
                        &&& holds_text(final(config).active_account, n)
                        &&& has_key(final(config).accounts@, n)
                        &&& added_account(lookup(final(config).accounts@, n), api_base@, k@, match email {
                            Some(e) => Some(login_email_of(e@)->Ok_0),
                            None => None,
                        })
                        &&& others_kept(old(config).accounts@, final(config).accounts@, n)
                    },
                },
            },
        },
{
    let key = match key {
        Some(k) => k,
        None => return Err(AccountError::MissingKey),
    };
    let name = match normalize_account_name(name) {
        Ok(n) => n,
        Err(e) => return Err(e),
    };
    let email = match email {
        Some(e) => match normalize_login_email(e) {
            Ok(x) => Some(x),
            Err(_) => return Err(AccountError::InvalidEmail),
        },
        None => None,
    };
    let account = AccountConfig {
        api_base: trim_end_slashes(api_base),
        api_key: Some(key),
        email,
        domain_count: None,
        link_count: None,
        visit_count: None,
        last_checked_at: None,
        last_error: None,
    };
    config.api_base = None;
    config.api_key = None;
    config.accounts.insert(name.clone(), account);
    config.active_account = Some(name.clone());
    Ok(name)
}

/// Forgets the selected stored profile. When it was active, the first remaining
/// profile becomes active.
pub fn account_remove(config: &mut Config, selector: &str) -> (r: Result<String, AccountError>)
    ensures
        final(config).api_base == old(config).api_base,
        final(config).api_key == old(config).api_key,
        match selected_account(old(config).accounts@, selector@) {
            Err(e) => r == Err::<String, AccountError>(e) && *final(config) == *old(config),
            Ok(n) => if !has_key(old(config).accounts@, n) {
                r == Err::<String, AccountError>(AccountError::NotStored) && *final(config) == *old(config)
            } else {
                &&& r matches Ok(x) && x@ == n
                &&& final(config).accounts@ == old(config).accounts@.remove(key_index(old(config).accounts@, n))
                &&& if holds_text(old(config).active_account, n) {
                    match final(config).active_account {
                        Some(a) => final(config).accounts@.len() > 0 && a@ == final(config).accounts@[0].0,
                        None => final(config).accounts@.len() == 0,
                    }
                } else {
                    final(config).active_account == old(config).active_account
                }
            },
        },
{
    let name = match account_selector(config, selector) {
        Ok(n) => n,
        Err(e) => return Err(e),
    };
    if !config.accounts.contains_key(name.as_str()) {
        return Err(AccountError::NotStored);
    }
    config.accounts.remove(name.as_str());
    let is_active = match &config.active_account {
        Some(a) => same_text(a.as_str(), name.as_str()),
        None => false,
    };
    if is_active {
        config.active_account = match config.accounts.first_name() {
            Some(n) => Some(to_owned_string(n)),
            None => None,
        };
    }
    Ok(name)
}


/// The name of the active profile, if any.
pub open spec fn active_name(c: Config) -> Option<Seq<char>> {
    match active_index(c) {
        Some(i) => Some(c.accounts@[i].0),
        None => None,
    }
}

/// An optional `  label\tvalue` line of the long account listing.
pub open spec fn opt_count_line(label: Seq<char>, v: Option<u64>) -> Seq<char> {
    match v {
        Some(n) => label + decimal(n as nat) + "\n"@,
        None => Seq::empty(),
    }
}

pub open spec fn opt_text_line(label: Seq<char>, v: Option<String>) -> Seq<char> {
    match v {
        Some(t) => label + t@ + "\n"@,
        None => Seq::empty(),
    }
}

/// The first listing line of one profile: a `*` marks the active one, then
/// its label and login state.
pub open spec fn account_head_text(e: (Seq<char>, AccountConfig), active: Option<Seq<char>>) -> Seq<char> {
    (if active == Some(e.0) {
        "*"@
    } else {
        " "@
    }) + " "@ + (match e.1.email {
        Some(x) => x@,
        None => e.0,
    }) + "\t"@ + (if e.1.api_key is Some {
        "logged in"@
    } else {
        "logged out"@
    }) + "\n"@
}

/// The detail lines of the long listing: name, API base and cached fields.
pub open spec fn account_detail_text(e: (Seq<char>, AccountConfig)) -> Seq<char> {
    let a = e.1;
    "  name\t"@ + e.0 + "\n"@ + "  api_base\t"@ + a.api_base@ + "\n"@ + opt_count_line(
        "  domains\t"@,
        a.domain_count,
    ) + opt_count_line("  links\t"@, a.link_count) + opt_count_line("  visits\t"@, a.visit_count)
        + opt_text_line("  checked_at\t"@, a.last_checked_at) + opt_text_line(
        "  last_error\t"@,
        a.last_error,
    )
}

/// The listing lines of one profile; `long` adds the detail lines.
pub open spec fn account_entry_text(e: (Seq<char>, AccountConfig), active: Option<Seq<char>>, long: bool) -> Seq<char> {
    account_head_text(e, active) + if long {
        account_detail_text(e)
    } else {
        Seq::empty()
    }
}

pub open spec fn account_entries_text(s: Seq<(Seq<char>, AccountConfig)>, active: Option<Seq<char>>, long: bool) -> Seq<char>
    decreases s.len(),
{
    if s.len() == 0 {
        Seq::empty()
    } else {
        account_entries_text(s.drop_last(), active, long) + account_entry_text(s.last(), active, long)
    }
}

/// The account listing of `suffix account ls`.
pub open spec fn accounts_listing_of(c: Config, long: bool) -> Seq<char> {
    if c.accounts@.len() == 0 {
        "No accounts. Run `suffix login EMAIL` or `suffix login --account NAME`.\n"@
    } else {
        account_entries_text(c.accounts@, active_name(c), long)
    }
}

fn push_opt_count(out: &mut String, label: &str, v: Option<u64>)
    ensures
        final(out)@ == old(out)@ + opt_count_line(label@, v),
{
    match v {
        Some(n) => {
            push_str(out, label);
            push_decimal(out, n);
            push_str(out, "\n");
        },
        None => assert(out@ =~= old(out)@ + opt_count_line(label@, v)),
    }
}

fn push_opt_text(out: &mut String, label: &str, v: &Option<String>)
    ensures
        final(out)@ == old(out)@ + opt_text_line(label@, *v),
{
    match v {
        Some(t) => {
            push_str(out, label);
            push_str(out, t.as_str());
            push_str(out, "\n");
        },
        None => assert(out@ =~= old(out)@ + opt_text_line(label@, *v)),
    }
}

fn push_account_head(out: &mut String, name: &str, a: &AccountConfig, active: Option<&str>)
    ensures
        final(out)@ == old(out)@ + account_head_text((name@, *a), match active { Some(x) => Some(x@), None => None }),
{
    let marked = match active {
        Some(x) => same_text(x, name),
        None => false,
    };
    if marked {
        push_str(out, "*");
    } else {
        push_str(out, " ");
    }
    push_str(out, " ");
    match &a.email {
        Some(e) => push_str(out, e.as_str()),
        None => push_str(out, name),
    }
    push_str(out, "\t");
    if a.api_key.is_some() {
        push_str(out, "logged in");
    } else {
        push_str(out, "logged out");
    }
    push_str(out, "\n");
    assert(out@ =~= old(out)@ + account_head_text((name@, *a), match active { Some(x) => Some(x@), None => None }));
}

fn push_account_detail(out: &mut String, name: &str, a: &AccountConfig)
    ensures
        final(out)@ == old(out)@ + account_detail_text((name@, *a)),
{
    let mut d = to_owned_string("  name\t");
    push_str(&mut d, name);
    push_str(&mut d, "\n");
    push_str(&mut d, "  api_base\t");
    push_str(&mut d, a.api_base.as_str());
    push_str(&mut d, "\n");
    push_opt_count(&mut d, "  domains\t", a.domain_count);
    push_opt_count(&mut d, "  links\t", a.link_count);
    push_opt_count(&mut d, "  visits\t", a.visit_count);
    push_opt_text(&mut d, "  checked_at\t", &a.last_checked_at);
    push_opt_text(&mut d, "  last_error\t", &a.last_error);
    push_str(out, d.as_str());
}

fn push_account_entry(out: &mut String, name: &str, a: &AccountConfig, active: Option<&str>, long: bool)
    ensures
        final(out)@ == old(out)@ + account_entry_text((name@, *a), match active { Some(x) => Some(x@), None => None }, long),
{
    push_account_head(out, name, a, active);
    if long {
        push_account_detail(out, name, a);
    }
    assert(out@ =~= old(out)@ + account_entry_text((name@, *a), match active { Some(x) => Some(x@), None => None }, long));
}

/// The text `suffix account ls` prints.
pub fn accounts_listing(config: &Config, long: bool) -> (r: String)
    ensures
        r@ == accounts_listing_of(*config, long),
{
    let n = config.accounts.len();
    if n == 0 {
        return to_owned_string("No accounts. Run `suffix login EMAIL` or `suffix login --account NAME`.\n");
    }
    let active = match active_account(config) {
        Some((name, _)) => Some(name),
        None => None,
    };
    let ghost act = match active { Some(x) => Some(x@), None => None };
    assert(act == active_name(*config));
    let mut out = String::new();
    let mut i: usize = 0;
    while i < n
        invariant
            n == config.accounts@.len(),
            i <= n,
            act == match active { Some(x) => Some(x@), None => None::<Seq<char>> },
            out@ == account_entries_text(config.accounts@.take(i as int), act, long),
        decreases n - i,
    {
        let (name, a) = config.accounts.entry(i);
        proof {
            assert(config.accounts@.take(i + 1).drop_last() =~= config.accounts@.take(i as int));
            assert(config.accounts@.take(i + 1).last() == (name@, *a));
        }
        push_account_entry(&mut out, name, a, active, long);
        i = i + 1;
    }
    assert(config.accounts@.take(n as int) =~= config.accounts@);
    out
}


/// What `suffix account ARGS...` asks for.
#[derive(Debug, PartialEq, Eq)]
pub enum AccountCommand {
    /// No argument, or `ls`: list the profiles.
    List,
    /// One other argument: switch to that profile.
    Switch(String),
    /// `add NAME`: store a profile.
    Add(String),
    /// `rm NAME`: forget a profile.
    Remove(String),
    /// Anything else: print the usage.
    Usage,
}

/// The abstract command.
pub enum AccountCommandView {
    List,
    Switch(Seq<char>),
    Add(Seq<char>),
    Remove(Seq<char>),
    Usage,
}

/// How the arguments of `suffix account` are read.
pub open spec fn account_command_of(args: Seq<Seq<char>>) -> AccountCommandView {
    if args.len() == 0 {
        AccountCommandView::List
    } else if args.len() == 1 {
        if args[0] == "ls"@ {
            AccountCommandView::List
        } else {
            AccountCommandView::Switch(args[0])
        }
    } else if args.len() == 2 && args[0] == "add"@ {
        AccountCommandView::Add(args[1])
    } else if args.len() == 2 && args[0] == "rm"@ {
        AccountCommandView::Remove(args[1])
    } else {
        AccountCommandView::Usage
    }
}

impl View for AccountCommand {
    type V = AccountCommandView;

    open spec fn view(&self) -> AccountCommandView {
        match self {
            AccountCommand::List => AccountCommandView::List,
            AccountCommand::Switch(s) => AccountCommandView::Switch(s@),
            AccountCommand::Add(s) => AccountCommandView::Add(s@),
            AccountCommand::Remove(s) => AccountCommandView::Remove(s@),
            AccountCommand::Usage => AccountCommandView::Usage,
        }
    }
}

pub fn account_command(args: &Vec<String>) -> (r: AccountCommand)
    ensures
        r@ == account_command_of(args@.map_values(|s: String| s@)),
{
    let ghost v = args@.map_values(|s: String| s@);
    let n = args.len();
    if n == 0 {
        return AccountCommand::List;
    }
    assert(v[0] == args@[0]@);
    if n == 1 {
        if same_text(args[0].as_str(), "ls") {
            return AccountCommand::List;
        }
        return AccountCommand::Switch(args[0].clone());
    }
    assert(v[1] == args@[1]@);
    if n == 2 && same_text(args[0].as_str(), "add") {
        return AccountCommand::Add(args[1].clone());
    }
    if n == 2 && same_text(args[0].as_str(), "rm") {
        return AccountCommand::Remove(args[1].clone());
    }
    AccountCommand::Usage
}

} // verus!

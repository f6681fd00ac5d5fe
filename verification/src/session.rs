//! Choosing the API endpoint and key for a command, and completing a browser login.

use vstd::prelude::*;
use crate::accounts::{
    AccountConfig, AccountError, Config, active_account, active_index, account_selector,
    selected_account, has_key, lookup, holds_text, others_kept, MoveArgs, move_names_of, move_account_names,
    account_display_email, LoginArgs, login_hint_of, login_account_of, login_email_hint, login_account_name,
    saved_key_matches, saved_key_reusable,
};
use crate::api::{Api, ApiError, LoginCallback, callback_view, CallbackView, respond, response_text};
use crate::text::{same_text, to_owned_string, trim_end_slashes, trim_trailing_slashes, opt_seq, push_str, push_decimal, decimal};

verus! {

/// The API base used when nothing else is configured.
pub const DEFAULT_API_BASE: &'static str = "https://suffix.org/api/v1";

/// The dashboard that approves browser logins.
pub const DEFAULT_APP_URL: &'static str = "https://suffix.org";

/// Why no API endpoint could be chosen.
#[derive(Debug, PartialEq, Eq)]
pub enum SessionError {
    Api(ApiError),
    Account(AccountError),
    /// The selected name is not a stored profile.
    NoStoredAccount,
}

/// The API base for the active configuration: the environment override, else
/// the active profile's base, else the legacy base, else the default.
pub open spec fn configured_base(c: Config, env_base: Option<Seq<char>>) -> Seq<char> {
    match env_base {
        Some(b) => b,
        None => match active_index(c) {
            Some(i) => c.accounts@[i].1.api_base@,
            None => match c.api_base {
                Some(b) => b@,
                None => DEFAULT_API_BASE@,
            },
        },
    }
}

/// The API key for the active configuration: the environment override, else the
/// active profile's key, else the legacy key.
pub open spec fn configured_key(c: Config, env_key: Option<Seq<char>>) -> Option<Seq<char>> {
    match env_key {
        Some(k) => Some(k),
        None => match active_index(c) {
            Some(i) if c.accounts@[i].1.api_key is Some => opt_seq(c.accounts@[i].1.api_key),
            _ => opt_seq(c.api_key),
        },
    }
}

/// The name requests are made for: the active profile, else `env`.
pub open spec fn configured_account(c: Config) -> Seq<char> {
    match active_index(c) {
        Some(i) => c.accounts@[i].0,
        None => "env"@,
    }
}

fn opt_string(o: &Option<String>) -> (r: Option<String>)
    ensures
        opt_seq(r) == opt_seq(*o),
{
    match o {
        Some(s) => Some(s.clone()),
        None => None,
    }
}

impl Api {
    /// The endpoint for the active configuration, with environment overrides.
    pub fn from_config(config: &Config, env_base: Option<String>, env_key: Option<String>) -> (r: Result<Api, ApiError>)
        ensures
            match configured_key(*config, opt_seq(env_key)) {
                None => r == Err::<Api, ApiError>(ApiError::NotLoggedIn),
                Some(k) => r matches Ok(api) && api.key@ == k && api.base@ == trim_trailing_slashes(
                    configured_base(*config, opt_seq(env_base)),
                ) && api.account@ == configured_account(*config),
            },
    {
        let active = active_account(config);
        let base = match env_base {
            Some(b) => b,
            None => match active {
                Some((_, a)) => a.api_base.clone(),
                None => match &config.api_base {
                    Some(b) => b.clone(),
                    None => to_owned_string(DEFAULT_API_BASE),
                },
            },
        };
        let key = match env_key {
            Some(k) => Some(k),
            None => match active {
                Some((_, a)) if a.api_key.is_some() => opt_string(&a.api_key),
                _ => opt_string(&config.api_key),
            },
        };
        let key = match key {
            Some(k) => k,
            None => return Err(ApiError::NotLoggedIn),
        };
        let account = match active {
            Some((name, _)) => to_owned_string(name),
            None => to_owned_string("env"),
        };
        Ok(Api { base: trim_end_slashes(base.as_str()), key, account })
    }

    /// The endpoint for one stored profile.
    pub fn from_account(name: &str, account: &AccountConfig) -> (r: Result<Api, ApiError>)
        ensures
            match account.api_key {
                None => r == Err::<Api, ApiError>(ApiError::LoggedOut),
                Some(k) => r matches Ok(api) && api.key@ == k@ && api.base@ == trim_trailing_slashes(account.api_base@) && api.account@ == name@,
            },
    {
        let key = match &account.api_key {
            Some(k) => k.clone(),
            None => return Err(ApiError::LoggedOut),
        };
        Ok(Api { base: trim_end_slashes(account.api_base.as_str()), key, account: to_owned_string(name) })
    }
}

/// The endpoint for a command: the active configuration, or the profile a
/// selector names (without changing the active profile).
pub fn api_for_account(config: &Config, selector: Option<&str>, env_base: Option<String>, env_key: Option<String>) -> (r: Result<Api, SessionError>)
    ensures
        match selector {
            None => match configured_key(*config, opt_seq(env_key)) {
                None => r == Err::<Api, SessionError>(SessionError::Api(ApiError::NotLoggedIn)),
                Some(k) => r matches Ok(api) && api.key@ == k && api.base@ == trim_trailing_slashes(configured_base(*config, opt_seq(env_base))) && api.account@ == configured_account(*config),
            },
            Some(sel) => match selected_account(config.accounts@, sel@) {
                Err(e) => r == Err::<Api, SessionError>(SessionError::Account(e)),
                Ok(n) => if !has_key(config.accounts@, n) {
                    r == Err::<Api, SessionError>(SessionError::NoStoredAccount)
                } else {
                    match lookup(config.accounts@, n).api_key {
                        None => r == Err::<Api, SessionError>(SessionError::Api(ApiError::LoggedOut)),
                        Some(k) => r matches Ok(api) && api.key@ == k@ && api.base@ == trim_trailing_slashes(lookup(config.accounts@, n).api_base@) && api.account@ == n,
                    }
                },
            },
        },
{
    let selector = match selector {
        None => return match Api::from_config(config, env_base, env_key) {
            Ok(a) => Ok(a),
            Err(e) => Err(SessionError::Api(e)),
        },
        Some(s) => s,
    };
    let name = match account_selector(config, selector) {
        Ok(n) => n,
        Err(e) => return Err(SessionError::Account(e)),
    };
    let account = match config.accounts.get(name.as_str()) {
        Some(a) => a,
        None => return Err(SessionError::NoStoredAccount),
    };
    match Api::from_account(name.as_str(), account) {
        Ok(a) => Ok(a),
        Err(e) => Err(SessionError::Api(e)),
    }
}

/// Why a browser login did not complete.
#[derive(Debug, PartialEq, Eq)]
pub enum LoginFailure {
    /// The callback's state is not the one this login sent.
    StateMismatch,
    /// The browser reported an error.
    Browser(String),
    /// The callback carried no API key.
    MissingKey,
}

/// The account a completed login stores.
pub open spec fn logged_in_account(a: AccountConfig, api_base: Seq<char>, key: Seq<char>, email: Option<Seq<char>>) -> bool {
    &&& a.api_base@ == api_base
    &&& opt_seq(a.api_key) == Some(key)
    &&& opt_seq(a.email) == email
    &&& a.domain_count is None && a.link_count is None && a.visit_count is None
    &&& a.last_checked_at is None && a.last_error is None
}

/// Applies the browser's callback to the configuration: the state must match, the
/// browser must report no error, and a key must be present. Then the key is
/// stored under `account` (with the callback's API base, else the default), the
/// profile becomes active, and the legacy fields are dropped. Returns the API base.
pub fn complete_login(config: &mut Config, account: &str, expected_state: &str, callback: LoginCallback, email: Option<String>) -> (r: Result<String, LoginFailure>)
    ensures
        callback.state@ != expected_state@ ==> r == Err::<String, LoginFailure>(LoginFailure::StateMismatch) && *final(config) == *old(config),
        callback.state@ == expected_state@ && callback.error is Some ==> (r matches Err(LoginFailure::Browser(e)) && e@ == (callback.error->0)@) && *final(config) == *old(config),
        callback.state@ == expected_state@ && callback.error is None && callback.key is None ==> r == Err::<String, LoginFailure>(LoginFailure::MissingKey) && *final(config) == *old(config),
        callback.state@ == expected_state@ && callback.error is None && callback.key is Some ==> {
            let base = match callback.api_base {
                Some(b) => b@,
                None => DEFAULT_API_BASE@,
            };
            &&& r matches Ok(b) && b@ == base
            &&& final(config).api_base is None
            &&& final(config).api_key is None
            &&& holds_text(final(config).active_account, account@)
            &&& has_key(final(config).accounts@, account@)
            &&& logged_in_account(lookup(final(config).accounts@, account@), base, (callback.key->0)@, opt_seq(email))
            &&& others_kept(old(config).accounts@, final(config).accounts@, account@)
        },
{
    if !same_text(callback.state.as_str(), expected_state) {
        return Err(LoginFailure::StateMismatch);
    }
    if let Some(e) = callback.error {
        return Err(LoginFailure::Browser(e));
    }
    let key = match callback.key {
        Some(k) => k,
        None => return Err(LoginFailure::MissingKey),
    };
    let api_base = match callback.api_base {
        Some(b) => b,
        None => to_owned_string(DEFAULT_API_BASE),
    };
    config.api_base = None;
    config.api_key = None;
    config.active_account = Some(to_owned_string(account));
    config.accounts.insert(
        to_owned_string(account),
        AccountConfig {
            api_base: api_base.clone(),
            api_key: Some(key),
            email,
            domain_count: None,
            link_count: None,
            visit_count: None,
            last_checked_at: None,
            last_error: None,
        },
    );
    Ok(api_base)
}

/// Makes `account` active without contacting the dashboard (a saved key is reused).
pub fn reuse_saved_login(config: &mut Config, account: &str)
    ensures
        holds_text(final(config).active_account, account@),
        final(config).accounts@ == old(config).accounts@,
        final(config).api_base == old(config).api_base,
        final(config).api_key == old(config).api_key,
{
    config.active_account = Some(to_owned_string(account));
}

/// The dashboard label of a newly minted key.
pub open spec fn key_name_of(account: Seq<char>, host: Option<Seq<char>>) -> Seq<char> {
    "suffix CLI "@ + account + " on "@ + match host {
        Some(h) => h,
        None => "local machine"@,
    }
}

/// `suffix CLI ACCOUNT on HOST`, with `local machine` when the host is unknown.
pub fn default_key_name(account: &str, host: Option<&str>) -> (r: String)
    ensures
        r@ == key_name_of(account@, match host { Some(h) => Some(h@), None => None }),
{
    let mut r = to_owned_string("suffix CLI ");
    push_str(&mut r, account);
    push_str(&mut r, " on ");
    match host {
        Some(h) => push_str(&mut r, h),
        None => push_str(&mut r, "local machine"),
    }
    r
}


/// What `suffix config` prints: API base, active profile, whether a key is
/// configured (never the key itself), and the configuration file.
pub open spec fn config_report_of(c: Config, env_base: Option<Seq<char>>, env_key_set: bool, config_file: Seq<char>) -> Seq<char> {
    "api_base = "@ + configured_base(c, env_base) + "\n"@ + "account = "@ + (match active_index(c) {
        Some(i) => c.accounts@[i].0,
        None => "none"@,
    }) + "\n"@ + "api_key = "@ + (if env_key_set || configured_key(c, None) is Some {
        "configured"@
    } else {
        "missing"@
    }) + "\n"@ + "config_file = "@ + config_file + "\n"@
}

pub fn config_report(config: &Config, env_base: Option<String>, env_key_set: bool, config_file: &str) -> (r: String)
    ensures
        r@ == config_report_of(*config, opt_seq(env_base), env_key_set, config_file@),
{
    let active = active_account(config);
    let mut out = to_owned_string("api_base = ");
    match env_base {
        Some(b) => push_str(&mut out, b.as_str()),
        None => match active {
            Some((_, a)) => push_str(&mut out, a.api_base.as_str()),
            None => match &config.api_base {
                Some(b) => push_str(&mut out, b.as_str()),
                None => push_str(&mut out, DEFAULT_API_BASE),
            },
        },
    }
    push_str(&mut out, "\n");
    let mut line = to_owned_string("account = ");
    match active {
        Some((name, _)) => push_str(&mut line, name),
        None => push_str(&mut line, "none"),
    }
    push_str(&mut line, "\n");
    let has_key = env_key_set || match active {
        Some((_, a)) => a.api_key.is_some(),
        None => false,
    } || config.api_key.is_some();
    push_str(&mut line, "api_key = ");
    if has_key {
        push_str(&mut line, "configured");
    } else {
        push_str(&mut line, "missing");
    }
    push_str(&mut line, "\n");
    push_str(&mut line, "config_file = ");
    push_str(&mut line, config_file);
    push_str(&mut line, "\n");
    push_str(&mut out, line.as_str());
    assert(out@ =~= config_report_of(*config, opt_seq(env_base), env_key_set, config_file@));
    out
}

/// The local address the browser is sent back to after approving a login.
pub open spec fn callback_url_of(port: u16) -> Seq<char> {
    "http://127.0.0.1:"@ + decimal(port as nat) + "/callback"@
}

pub fn callback_url(port: u16) -> (r: String)
    ensures
        r@ == callback_url_of(port),
{
    let mut r = to_owned_string("http://127.0.0.1:");
    push_decimal(&mut r, port as u64);
    push_str(&mut r, "/callback");
    r
}

/// Why a domain move cannot go ahead.
#[derive(Debug, PartialEq, Eq)]
pub enum MoveError {
    /// The accounts could not be resolved.
    Account(AccountError),
    /// Source and target are the same account.
    SameAccount,
    /// A resolved name is not a stored profile.
    NoStoredAccount,
    /// The target profile has no key; carries its display label.
    TargetLoggedOut(String),
}

/// A domain move that may go ahead: the two profiles, the key that receives the
/// domain, and the labels shown when asking for confirmation.
pub struct MovePlan {
    pub from_name: String,
    pub to_name: String,
    pub target_key: String,
    pub from_label: String,
    pub to_label: String,
}

/// How a profile is shown: its email, else its name.
pub open spec fn display_of(name: Seq<char>, a: AccountConfig) -> Seq<char> {
    match a.email {
        Some(e) => e@,
        None => name,
    }
}

/// The plan of `suffix mv`: resolve source and target, refuse the same account
/// twice, and take the target's key.
pub fn move_plan(config: &Config, args: &MoveArgs) -> (r: Result<MovePlan, MoveError>)
    ensures
        match move_names_of(*config, *args) {
            Err(e) => r == Err::<MovePlan, MoveError>(MoveError::Account(e)),
            Ok((f, t)) => if f == t {
                r == Err::<MovePlan, MoveError>(MoveError::SameAccount)
            } else if !has_key(config.accounts@, f) || !has_key(config.accounts@, t) {
                r == Err::<MovePlan, MoveError>(MoveError::NoStoredAccount)
            } else {
                let to = lookup(config.accounts@, t);
                let from = lookup(config.accounts@, f);
                match to.api_key {
                    None => r matches Err(MoveError::TargetLoggedOut(l)) && l@ == display_of(t, to),
                    Some(k) => r matches Ok(p) && p.from_name@ == f && p.to_name@ == t && p.target_key@ == k@
                        && p.from_label@ == display_of(f, from) && p.to_label@ == display_of(t, to),
                }
            },
        },
{
    let (from_name, to_name) = match move_account_names(config, args) {
        Ok(names) => names,
        Err(e) => return Err(MoveError::Account(e)),
    };
    if same_text(from_name.as_str(), to_name.as_str()) {
        return Err(MoveError::SameAccount);
    }
    let from = match config.accounts.get(from_name.as_str()) {
        Some(a) => a,
        None => return Err(MoveError::NoStoredAccount),
    };
    let to = match config.accounts.get(to_name.as_str()) {
        Some(a) => a,
        None => return Err(MoveError::NoStoredAccount),
    };
    let to_label = account_display_email(to_name.as_str(), to);
    let target_key = match &to.api_key {
        Some(k) => k.clone(),
        None => return Err(MoveError::TargetLoggedOut(to_label)),
    };
    let from_label = account_display_email(from_name.as_str(), from);
    Ok(MovePlan { from_name, to_name, target_key, from_label, to_label })
}


/// How a login starts: the normalized email hint, the profile it is for, and
/// whether that profile's saved key is reused instead of asking the browser.
pub struct LoginPlan {
    pub email: Option<String>,
    pub account: String,
    pub reuse: bool,
}

/// The start of `suffix login`: email hint, profile name, and whether a saved
/// key matching that email is reused (never with `--renew`).
pub fn plan_login(config: &Config, args: &LoginArgs) -> (r: Result<LoginPlan, AccountError>)
    ensures
        match login_hint_of(*args) {
            Err(e) => r == Err::<LoginPlan, AccountError>(e),
            Ok(email) => match login_account_of(*config, opt_seq(args.account), email) {
                Err(e) => r == Err::<LoginPlan, AccountError>(e),
                Ok(account) => r matches Ok(p) && opt_seq(p.email) == email && p.account@ == account
                    && p.reuse == (!args.renew && saved_key_reusable(*config, account, email)),
            },
        },
{
    let email = match login_email_hint(args) {
        Ok(e) => e,
        Err(e) => return Err(e),
    };
    let account_input = match &args.account {
        Some(a) => Some(a.as_str()),
        None => None,
    };
    let email_text = match &email {
        Some(e) => Some(e.as_str()),
        None => None,
    };
    let account = match login_account_name(config, account_input, email_text) {
        Ok(a) => a,
        Err(e) => return Err(e),
    };
    let reuse = !args.renew && saved_key_matches(config, account.as_str(), email_text);
    Ok(LoginPlan { email, account, reuse })
}

/// The page sent back to the browser for a login's outcome: failure pages for a
/// state mismatch or a browser error, a completion page on success, and none
/// when the callback carried no key.
pub open spec fn callback_reply_of(outcome: Result<String, LoginFailure>) -> Option<Seq<char>> {
    match outcome {
        Ok(_) => Some(response_text(200, "suffix login complete. You can close this tab."@)),
        Err(LoginFailure::StateMismatch) => Some(response_text(400, "suffix login failed: state mismatch"@)),
        Err(LoginFailure::Browser(e)) => Some(response_text(400, "suffix login failed: "@ + e@)),
        Err(LoginFailure::MissingKey) => None,
    }
}

pub fn callback_reply(outcome: &Result<String, LoginFailure>) -> (r: Option<String>)
    ensures
        opt_seq(r) == callback_reply_of(*outcome),
{
    match outcome {
        Ok(_) => Some(respond(200, "suffix login complete. You can close this tab.")),
        Err(LoginFailure::StateMismatch) => Some(respond(400, "suffix login failed: state mismatch")),
        Err(LoginFailure::Browser(e)) => {
            let mut m = to_owned_string("suffix login failed: ");
            push_str(&mut m, e.as_str());
            Some(respond(400, m.as_str()))
        },
        Err(LoginFailure::MissingKey) => None,
    }
}


/// The dashboard label of a login's new key: the one given with `--name`, else
/// the default label for the profile and host.
pub fn login_key_name(name: Option<&str>, account: &str, host: Option<&str>) -> (r: String)
    ensures
        r@ == match name {
            Some(n) => n@,
            None => key_name_of(account@, match host { Some(h) => Some(h@), None => None }),
        },
{
    match name {
        Some(n) => to_owned_string(n),
        None => default_key_name(account, host),
    }
}

} // verus!

use suffix::accounts::{
    account_add, account_command, account_remove, account_selector, account_switch, accounts_listing,
    active_account, first_logged_in_account, login_account_name, logout, looks_like_email,
    normalize_account_name, normalize_login_email, saved_key_matches, AccountCommand, AccountConfig,
    AccountError, AccountMap, Config, LoginArgs, MoveArgs,
};
use suffix::api::{respond, LoginCallback, ApiError, Api};
use suffix::session::{
    login_key_name,
    api_for_account, callback_reply, callback_url, complete_login, config_report, default_key_name,
    move_plan, plan_login, reuse_saved_login, LoginFailure, MoveError, SessionError, DEFAULT_API_BASE,
};

fn account(api_key: Option<&str>, email: Option<&str>) -> AccountConfig {
    AccountConfig {
        api_base: DEFAULT_API_BASE.to_string(),
        api_key: api_key.map(str::to_string),
        email: email.map(str::to_string),
        domain_count: None,
        link_count: None,
        visit_count: None,
        last_checked_at: None,
        last_error: None,
    }
}

fn config(entries: Vec<(&str, AccountConfig)>, active: Option<&str>) -> Config {
    let mut accounts = AccountMap::new();
    for (name, a) in entries {
        accounts.insert(name.to_string(), a);
    }
    Config { api_base: None, api_key: None, active_account: active.map(str::to_string), accounts }
}

fn move_args(account: Option<&str>, target: Option<&str>, to: bool, from: bool) -> MoveArgs {
    MoveArgs {
        domain: "go.example.com".to_string(),
        account: account.map(str::to_string),
        target: target.map(str::to_string),
        to,
        from,
        yes: false,
    }
}

fn login(email: Option<&str>, renew: bool) -> LoginArgs {
    LoginArgs {
        login_email: email.map(str::to_string),
        app_url: "https://suffix.org".to_string(),
        email: None,
        account: None,
        name: None,
        renew,
        no_open: false,
        timeout: 120,
    }
}

#[test]
fn account_names_are_trimmed_and_checked() {
    assert_eq!(normalize_account_name("  work.main@x "), Ok("work.main@x".to_string()));
    assert_eq!(normalize_account_name("   "), Err(AccountError::EmptyName));
    assert_eq!(normalize_account_name("my work"), Err(AccountError::InvalidName));
    assert_eq!(normalize_account_name("caf\u{e9}"), Err(AccountError::InvalidName));
}

#[test]
fn login_emails_are_trimmed_lowercased_and_checked() {
    assert_eq!(normalize_login_email("  Person@Example.COM\n"), Ok("person@example.com".to_string()));
    assert_eq!(normalize_login_email("nobody"), Err(AccountError::InvalidEmail));
    assert_eq!(normalize_login_email("@example.com"), Err(AccountError::InvalidEmail));
    assert_eq!(normalize_login_email("person@"), Err(AccountError::InvalidEmail));
    assert_eq!(normalize_login_email("per son@example.com"), Err(AccountError::InvalidEmail));
    assert!(looks_like_email("a@b"));
    assert!(!looks_like_email("https://example.com"));
}

#[test]
fn selectors_report_missing_and_ambiguous_accounts() {
    let c = config(
        vec![("alpha", account(Some("k1"), Some("beta@example.com"))), ("beta@example.com", account(Some("k2"), None))],
        None,
    );
    assert_eq!(account_selector(&c, "nobody@example.com"), Err(AccountError::NoMatch));
    assert_eq!(account_selector(&c, " BETA@example.com "), Err(AccountError::Ambiguous));
    assert_eq!(account_selector(&c, "gamma"), Ok("gamma".to_string()));
    assert_eq!(account_selector(&c, "bad name"), Err(AccountError::InvalidName));
}

#[test]
fn switching_makes_the_profile_active_and_listed_first() {
    let mut c = config(vec![("alpha", account(Some("k1"), None)), ("beta", account(None, Some("b@example.com")))], Some("alpha"));
    assert_eq!(account_switch(&mut c, "b@example.com"), Ok("beta".to_string()));
    assert_eq!(c.active_account.as_deref(), Some("beta"));
    assert_eq!(active_account(&c).map(|(n, _)| n), Some("beta"));
    assert!(accounts_listing(&c, false).contains("* b@example.com\tlogged out\n"));
    assert_eq!(account_switch(&mut c, "nobody@example.com"), Err(AccountError::NoMatch));
    assert_eq!(account_switch(&mut c, "gamma"), Err(AccountError::NotStored));
    assert_eq!(c.active_account.as_deref(), Some("beta"));
}

#[test]
fn logout_keeps_the_profile_but_its_key_is_no_longer_reused() {
    let mut saved = account(Some("k1"), Some("a@example.com"));
    saved.last_error = Some("boom".to_string());
    saved.link_count = Some(4);
    let mut c = config(vec![("alpha", saved), ("beta", account(Some("k2"), None))], Some("alpha"));
    assert!(saved_key_matches(&c, "alpha", Some("a@example.com")));
    assert_eq!(logout(&mut c, "alpha"), Ok("alpha".to_string()));
    let kept = c.accounts.get("alpha").unwrap();
    assert_eq!(kept.api_key, None);
    assert_eq!(kept.last_error, None);
    assert_eq!(kept.link_count, Some(4));
    assert_eq!(kept.email.as_deref(), Some("a@example.com"));
    assert!(!saved_key_matches(&c, "alpha", Some("a@example.com")));
    assert_eq!(c.active_account.as_deref(), Some("beta"));
    assert_eq!(logout(&mut c, "gamma"), Err(AccountError::NotStored));
}

#[test]
fn logout_of_the_last_logged_in_profile_keeps_it_active() {
    let mut c = config(vec![("alpha", account(Some("k1"), None)), ("beta", account(None, None))], Some("alpha"));
    assert_eq!(logout(&mut c, "alpha"), Ok("alpha".to_string()));
    assert_eq!(c.active_account.as_deref(), Some("alpha"));
    assert_eq!(first_logged_in_account(&c), None);
}

#[test]
fn manual_account_add_stores_a_normalized_profile() {
    let mut c = config(vec![], None);
    c.api_key = Some("legacy".to_string());
    assert_eq!(account_add(&mut c, "work", None, None, DEFAULT_API_BASE), Err(AccountError::MissingKey));
    assert_eq!(account_add(&mut c, "bad name", Some("k".to_string()), None, DEFAULT_API_BASE), Err(AccountError::InvalidName));
    assert_eq!(account_add(&mut c, "work", Some("k".to_string()), Some("nobody"), DEFAULT_API_BASE), Err(AccountError::InvalidEmail));
    assert_eq!(
        account_add(&mut c, " work ", Some("k".to_string()), Some(" W@Example.com "), "https://x.example/api//"),
        Ok("work".to_string())
    );
    let a = c.accounts.get("work").unwrap();
    assert_eq!(a.api_base, "https://x.example/api");
    assert_eq!(a.api_key.as_deref(), Some("k"));
    assert_eq!(a.email.as_deref(), Some("w@example.com"));
    assert_eq!(c.active_account.as_deref(), Some("work"));
    assert_eq!(c.api_key, None);
}

#[test]
fn removing_the_active_profile_activates_the_first_remaining() {
    let mut c = config(vec![("alpha", account(Some("k1"), None)), ("beta", account(Some("k2"), None)), ("gamma", account(None, None))], Some("beta"));
    assert_eq!(account_remove(&mut c, "beta"), Ok("beta".to_string()));
    assert!(!c.accounts.contains_key("beta"));
    assert_eq!(c.active_account.as_deref(), Some("alpha"));
    assert_eq!(account_remove(&mut c, "delta"), Err(AccountError::NotStored));
    let mut single = config(vec![("solo", account(None, None))], Some("solo"));
    assert_eq!(account_remove(&mut single, "solo"), Ok("solo".to_string()));
    assert_eq!(single.active_account, None);
}

#[test]
fn account_listing_marks_the_active_profile_and_adds_details_when_long() {
    let empty = config(vec![], None);
    assert_eq!(accounts_listing(&empty, true), "No accounts. Run `suffix login EMAIL` or `suffix login --account NAME`.\n");
    let mut work = account(Some("k"), Some("w@example.com"));
    work.domain_count = Some(2);
    work.visit_count = Some(17);
    work.last_checked_at = Some("2024-01-02".to_string());
    let c = config(vec![("home", account(None, None)), ("work", work)], Some("work"));
    assert_eq!(accounts_listing(&c, false), "  home\tlogged out\n* w@example.com\tlogged in\n");
    assert_eq!(
        accounts_listing(&c, true),
        "  home\tlogged out\n  name\thome\n  api_base\thttps://suffix.org/api/v1\n\
         * w@example.com\tlogged in\n  name\twork\n  api_base\thttps://suffix.org/api/v1\n  domains\t2\n  visits\t17\n  checked_at\t2024-01-02\n"
    );
}

#[test]
fn account_arguments_select_the_subcommand() {
    let args = |v: &[&str]| v.iter().map(|s| s.to_string()).collect::<Vec<String>>();
    assert_eq!(account_command(&args(&[])), AccountCommand::List);
    assert_eq!(account_command(&args(&["ls"])), AccountCommand::List);
    assert_eq!(account_command(&args(&["work"])), AccountCommand::Switch("work".to_string()));
    assert_eq!(account_command(&args(&["add", "work"])), AccountCommand::Add("work".to_string()));
    assert_eq!(account_command(&args(&["rm", "work"])), AccountCommand::Remove("work".to_string()));
    assert_eq!(account_command(&args(&["mv", "work"])), AccountCommand::Usage);
    assert_eq!(account_command(&args(&["add", "a", "b"])), AccountCommand::Usage);
}

#[test]
fn first_login_needs_an_email_or_account() {
    let c = config(vec![], None);
    assert_eq!(login_account_name(&c, None, None), Err(AccountError::FirstLogin));
    assert_eq!(login_account_name(&c, None, Some("a@example.com")), Ok("a@example.com".to_string()));
}

#[test]
fn login_plans_reuse_a_matching_saved_key_unless_renewing() {
    let c = config(vec![("p", account(Some("k"), Some("a@example.com")))], Some("p"));
    let plan = plan_login(&c, &login(Some("A@Example.com"), false)).unwrap();
    assert_eq!(plan.account, "p");
    assert_eq!(plan.email.as_deref(), Some("a@example.com"));
    assert!(plan.reuse);
    assert!(!plan_login(&c, &login(Some("a@example.com"), true)).unwrap().reuse);
    let other = plan_login(&c, &login(Some("b@example.com"), false)).unwrap();
    assert_eq!(other.account, "b@example.com");
    assert!(!other.reuse);
    let mut both = login(Some("a@example.com"), false);
    both.email = Some("b@example.com".to_string());
    assert!(matches!(plan_login(&c, &both), Err(AccountError::BothEmails)));
}

#[test]
fn completed_login_stores_the_key_and_then_reuses_it() {
    let mut c = config(vec![], None);
    c.api_base = Some("legacy".to_string());
    let cb = |state: &str, key: Option<&str>, error: Option<&str>| LoginCallback {
        state: state.to_string(),
        key: key.map(str::to_string),
        api_base: None,
        error: error.map(str::to_string),
    };
    assert_eq!(complete_login(&mut c, "p", "s1", cb("s2", Some("k"), None), None), Err(LoginFailure::StateMismatch));
    assert_eq!(complete_login(&mut c, "p", "s1", cb("s1", Some("k"), Some("denied")), None), Err(LoginFailure::Browser("denied".to_string())));
    assert_eq!(complete_login(&mut c, "p", "s1", cb("s1", None, None), None), Err(LoginFailure::MissingKey));
    assert_eq!(c.accounts.len(), 0);
    let done = complete_login(&mut c, "p", "s1", cb("s1", Some("k"), None), Some("a@example.com".to_string()));
    assert_eq!(done, Ok(DEFAULT_API_BASE.to_string()));
    assert_eq!(c.api_base, None);
    assert_eq!(c.active_account.as_deref(), Some("p"));
    assert!(saved_key_matches(&c, "p", Some("A@example.com")));
    let mut other = config(vec![("p", account(Some("k"), None)), ("q", account(None, None))], Some("q"));
    reuse_saved_login(&mut other, "p");
    assert_eq!(other.active_account.as_deref(), Some("p"));
}

#[test]
fn callback_replies_describe_the_outcome() {
    assert_eq!(callback_reply(&Ok("x".to_string())), Some(respond(200, "suffix login complete. You can close this tab.")));
    assert_eq!(callback_reply(&Err(LoginFailure::StateMismatch)), Some(respond(400, "suffix login failed: state mismatch")));
    assert_eq!(callback_reply(&Err(LoginFailure::Browser("no".to_string()))), Some(respond(400, "suffix login failed: no")));
    assert_eq!(callback_reply(&Err(LoginFailure::MissingKey)), None);
}

#[test]
fn the_callback_response_is_a_complete_http_page() {
    let body = "<!doctype html><title>suffix</title><main><h1>a&lt;b &amp; c&gt;</h1></main>";
    assert_eq!(
        respond(400, "a<b & c>"),
        format!(
            "HTTP/1.1 400 Bad Request\r\ncontent-type: text/html; charset=utf-8\r\ncontent-length: {}\r\nconnection: close\r\n\r\n{}",
            body.len(),
            body
        )
    );
    let accented = "<!doctype html><title>suffix</title><main><h1>\u{e9}</h1></main>";
    assert!(respond(200, "\u{e9}").starts_with("HTTP/1.1 200 OK\r\n"));
    assert!(respond(200, "\u{e9}").contains(&format!("content-length: {}\r\n", accented.len())));
}

#[test]
fn callback_urls_and_key_names() {
    assert_eq!(callback_url(44123), "http://127.0.0.1:44123/callback");
    assert_eq!(default_key_name("work", Some("laptop")), "suffix CLI work on laptop");
    assert_eq!(default_key_name("work", None), "suffix CLI work on local machine");
}

#[test]
fn config_report_names_the_endpoint_without_the_key() {
    let c = config(vec![("work", account(Some("secret-key"), None))], Some("work"));
    assert_eq!(
        config_report(&c, None, false, "/home/x/.config/suffix/config.toml"),
        "api_base = https://suffix.org/api/v1\naccount = work\napi_key = configured\nconfig_file = /home/x/.config/suffix/config.toml\n"
    );
    let empty = config(vec![], None);
    assert_eq!(
        config_report(&empty, Some("http://localhost:3000".to_string()), false, "c.toml"),
        "api_base = http://localhost:3000\naccount = none\napi_key = missing\nconfig_file = c.toml\n"
    );
    assert!(config_report(&empty, None, true, "c.toml").contains("api_key = configured\n"));
    assert!(!config_report(&c, None, false, "c.toml").contains("secret-key"));
}

#[test]
fn environment_overrides_the_saved_endpoint() {
    let c = config(vec![("work", account(Some("k1"), None))], Some("work"));
    let api = Api::from_config(&c, Some("https://env.example/api/".to_string()), Some("env-key".to_string())).unwrap();
    assert_eq!(api.base, "https://env.example/api");
    assert_eq!(api.key, "env-key");
    assert_eq!(api.account, "work");
    let saved = Api::from_config(&c, None, None).unwrap();
    assert_eq!(saved.key, "k1");
    let empty = config(vec![], None);
    assert!(matches!(Api::from_config(&empty, None, None), Err(ApiError::NotLoggedIn)));
    let env_only = Api::from_config(&empty, None, Some("k".to_string())).unwrap();
    assert_eq!(env_only.account, "env");
    assert_eq!(env_only.base, DEFAULT_API_BASE);
    assert!(matches!(Api::from_account("x", &account(None, None)), Err(ApiError::LoggedOut)));
}

#[test]
fn a_trailing_account_selects_that_profile_without_switching() {
    let c = config(vec![("home", account(Some("k1"), None)), ("work", account(Some("k2"), Some("w@example.com")))], Some("home"));
    let api = api_for_account(&c, Some("w@example.com"), None, None).unwrap();
    assert_eq!(api.key, "k2");
    assert_eq!(api.account, "work");
    assert_eq!(c.active_account.as_deref(), Some("home"));
    assert!(matches!(api_for_account(&c, Some("x@example.com"), None, None), Err(SessionError::Account(AccountError::NoMatch))));
    assert!(matches!(api_for_account(&c, Some("other"), None, None), Err(SessionError::NoStoredAccount)));
}

#[test]
fn domain_moves_need_two_accounts_and_the_target_key() {
    let c = config(
        vec![("home", account(Some("k1"), Some("h@example.com"))), ("work", account(Some("k2"), Some("w@example.com"))), ("old", account(None, Some("o@example.com")))],
        Some("home"),
    );
    let plan = move_plan(&c, &move_args(Some("w@example.com"), None, false, false)).unwrap();
    assert_eq!((plan.from_name.as_str(), plan.to_name.as_str()), ("home", "work"));
    assert_eq!(plan.target_key, "k2");
    assert_eq!((plan.from_label.as_str(), plan.to_label.as_str()), ("h@example.com", "w@example.com"));
    let to = move_plan(&c, &move_args(Some("w@example.com"), None, true, false)).unwrap();
    assert_eq!((to.from_name, to.to_name), (plan.from_name, plan.to_name));
    let from = move_plan(&c, &move_args(Some("work"), None, false, true)).unwrap();
    assert_eq!((from.from_name.as_str(), from.to_name.as_str()), ("work", "home"));
    assert_eq!(from.target_key, "k1");
    assert!(matches!(move_plan(&c, &move_args(Some("home"), None, false, false)), Err(MoveError::SameAccount)));
    match move_plan(&c, &move_args(Some("old"), None, false, false)) {
        Err(MoveError::TargetLoggedOut(label)) => assert_eq!(label, "o@example.com"),
        _ => panic!("expected a logged-out target"),
    }
    assert!(matches!(move_plan(&c, &move_args(None, None, false, false)), Err(MoveError::Account(AccountError::MissingAccount))));
    assert!(matches!(move_plan(&c, &move_args(Some("work"), Some("home"), true, false)), Err(MoveError::Account(AccountError::DirectionWithTarget))));
    let none = config(vec![], None);
    assert!(matches!(move_plan(&none, &move_args(Some("work"), None, false, false)), Err(MoveError::Account(AccountError::NoActive))));
    assert!(matches!(move_plan(&c, &move_args(Some("gamma"), None, false, false)), Err(MoveError::NoStoredAccount)));
}

#[test]
fn an_added_profile_is_used_by_later_commands() {
    let mut c = config(vec![("home", account(Some("k1"), None))], Some("home"));
    account_add(&mut c, "work", Some("k2".to_string()), None, "https://work.example/api/").unwrap();
    let api = Api::from_config(&c, None, None).unwrap();
    assert_eq!((api.key.as_str(), api.base.as_str(), api.account.as_str()), ("k2", "https://work.example/api", "work"));
}

#[test]
fn login_key_labels_prefer_the_given_name() {
    assert_eq!(login_key_name(Some("ci"), "work", Some("laptop")), "ci");
    assert_eq!(login_key_name(None, "work", Some("laptop")), "suffix CLI work on laptop");
    assert_eq!(login_key_name(None, "work", None), "suffix CLI work on local machine");
}

use suffix::accounts::{
    account_selector, discard_legacy_profiles, login_account_name, login_email_hint,
    move_account_names, saved_key_matches, AccountConfig, AccountMap, Config, LoginArgs, MoveArgs,
};
use suffix::api::{build_login_url, parse_callback, remove, Api, RemoveArgs, RemoveStep};
use suffix::json::{JsonNumber, JsonValue};
use suffix::manual::{manpage_directories_for, MANPAGE};
use suffix::output::{
    domains_xml, domains_yaml, output_format, shortcuts_xml, shortcuts_yaml, DomainRow, ShortcutRow,
};
use suffix::payloads::shortcut_payload;
use suffix::records::{
    domain_rows, domain_visit_counts, occupied_tail, shortcut_name, shortcut_rows,
};
use suffix::session::{DEFAULT_API_BASE, DEFAULT_APP_URL};
use suffix::shortcuts::{
    add_account, derive_tail, file_content_type, random_uuid, safe_upload_name, same_target,
    shortcut_add_fields, upload_locator, AddArgs, PhotoMode, ShortcutAddDomain, ShortcutAddFields,
    UploadArgs,
};

fn text(s: &str) -> JsonValue {
    JsonValue::Text(s.to_string())
}

fn number(n: u64) -> JsonValue {
    JsonValue::Number(JsonNumber::Unsigned(n))
}

fn object(members: Vec<(&str, JsonValue)>) -> JsonValue {
    JsonValue::Object(members.into_iter().map(|(k, v)| (k.to_string(), v)).collect())
}

fn account(api_key: Option<&str>, email: Option<&str>) -> AccountConfig {
    AccountConfig {
        api_base: DEFAULT_API_BASE.to_string(),
        api_key: api_key.map(str::to_string),
        email: email.map(str::to_string),
        domain_count: None,
        link_count: None,
        visit_count: None,
        last_checked_at: None,
        last_error: None,
    }
}

fn login_args(login_email: Option<&str>, email: Option<&str>) -> LoginArgs {
    LoginArgs {
        login_email: login_email.map(str::to_string),
        app_url: DEFAULT_APP_URL.to_string(),
        email: email.map(str::to_string),
        account: None,
        name: None,
        renew: false,
        no_open: false,
        timeout: 120,
    }
}

fn add_args(value: &str, tail: Option<&str>, target_url: Option<&str>) -> AddArgs {
    AddArgs {
        domain: None,
        public: false,
        letters: false,
        alphanumeric: false,
        words: false,
        value: value.to_string(),
        tail: tail.map(str::to_string),
        target_url: target_url.map(str::to_string),
        account: None,
        domain_id: None,
        title: None,
        photo: false,
        photo_mode: PhotoMode::Remote,
        allow_duplicate_target: false,
        edit_existing: false,
        protect: false,
        password_file: None,
    }
}

#[test]
fn man_install_uses_standard_platform_directories_and_embeds_the_manual() {
    assert_eq!(
        manpage_directories_for("macos", "/Users/example"),
        vec![
            "/opt/homebrew/share/man/man1".to_string(),
            "/usr/local/share/man/man1".to_string(),
            "/Users/example/.local/share/man/man1".to_string(),
        ]
    );
    assert_eq!(
        manpage_directories_for("linux", "/home/example"),
        vec![
            "/usr/local/share/man/man1".to_string(),
            "/home/example/.local/share/man/man1".to_string(),
            "/usr/share/man/man1".to_string(),
        ]
    );
    assert!(MANPAGE.contains(".TH SUFFIX 1"));
}

#[test]
fn login_url_carries_loopback_callback_and_state() {
    let url = build_login_url(
        "https://suffix.org",
        "http://127.0.0.1:44123/callback",
        "abc123abc123abc123",
        "suffix CLI on test",
        Some("person@example.com"),
    )
    .unwrap();
    let parsed = url::Url::parse(&url).unwrap();
    let params: std::collections::HashMap<_, _> = parsed.query_pairs().collect();
    assert_eq!(parsed.as_str().split('?').next().unwrap(), "https://suffix.org/");
    assert_eq!(params.get("cli_auth").map(|v| v.as_ref()), Some("1"));
    assert_eq!(
        params.get("callback").map(|v| v.as_ref()),
        Some("http://127.0.0.1:44123/callback")
    );
    assert_eq!(params.get("state").map(|v| v.as_ref()), Some("abc123abc123abc123"));
    assert_eq!(params.get("email").map(|v| v.as_ref()), Some("person@example.com"));
}

#[test]
fn login_accepts_email_hint_positionally_or_by_flag() {
    let args = login_args(Some("Person@Example.COM"), None);
    assert_eq!(login_email_hint(&args).unwrap().as_deref(), Some("person@example.com"));

    let args = login_args(None, Some("person@example.com"));
    assert_eq!(login_email_hint(&args).unwrap().as_deref(), Some("person@example.com"));

    let args = login_args(Some("one@example.com"), Some("two@example.com"));
    assert!(login_email_hint(&args).is_err());
}

#[test]
fn move_uses_the_active_account_when_one_other_account_is_given() {
    let mut config = Config { active_account: Some("personal@example.com".to_string()), ..Config::default() };
    for email in ["personal@example.com", "work@example.com"] {
        let key = format!("key-{email}");
        config.accounts.insert(email.to_string(), account(Some(&key), Some(email)));
    }

    let to = MoveArgs {
        domain: "go.example.com".to_string(),
        account: Some("work@example.com".to_string()),
        target: None,
        to: false,
        from: false,
        yes: false,
    };
    assert_eq!(
        move_account_names(&config, &to).unwrap(),
        ("personal@example.com".to_string(), "work@example.com".to_string())
    );

    let from = MoveArgs { from: true, ..to };
    assert_eq!(
        move_account_names(&config, &from).unwrap(),
        ("work@example.com".to_string(), "personal@example.com".to_string())
    );
}

#[test]
fn email_login_reuses_the_matching_saved_profile() {
    let mut config = Config::default();
    config
        .accounts
        .insert("default".to_string(), account(Some("curtail_sk_saved"), Some("person@example.com")));

    let name = login_account_name(&config, None, Some("person@example.com")).unwrap();
    assert_eq!(name, "default");
    assert!(saved_key_matches(&config, &name, Some("person@example.com")));
}

#[test]
fn email_login_uses_a_distinct_profile_for_a_new_account() {
    let config = Config::default();
    let name = login_account_name(&config, None, Some("work@example.com")).unwrap();
    assert_eq!(name, "work@example.com");
    assert!(!saved_key_matches(&config, &name, Some("work@example.com")));
}

#[test]
fn saved_key_is_not_reused_for_a_different_email() {
    let mut config = Config::default();
    config
        .accounts
        .insert("shared".to_string(), account(Some("curtail_sk_saved"), Some("person@example.com")));
    assert!(!saved_key_matches(&config, "shared", Some("other@example.com")));
}

#[test]
fn callback_parser_reads_key_state_and_api_base() {
    let request = "GET /callback?state=s1&key=curtail_sk_abc&api_base=https%3A%2F%2Fsuffix.org%2Fapi%2Fv1 HTTP/1.1\r\nhost: 127.0.0.1\r\n\r\n";
    let callback = parse_callback(request).unwrap();
    assert_eq!(callback.state, "s1");
    assert_eq!(callback.key.as_deref(), Some("curtail_sk_abc"));
    assert_eq!(callback.api_base.as_deref(), Some("https://suffix.org/api/v1"));
    assert!(callback.error.is_none());
}

#[test]
fn api_urls_target_the_static_v1_function() {
    let api = Api {
        base: "https://suffix.org/api/v1".to_string(),
        key: "secret".to_string(),
        account: "test".to_string(),
    };
    assert_eq!(api.url("shortcuts").unwrap(), "https://suffix.org/api/v1?resource=shortcuts");
    assert_eq!(
        api.url("shortcuts?id=abc&version=3").unwrap(),
        "https://suffix.org/api/v1?resource=shortcuts&id=abc&version=3"
    );
}

#[test]
fn terse_shortcut_commands_parse() {
    let mut args = add_args("https://example.com/launch", Some("go"), None);
    args.domain_id = Some("domain-1".to_string());
    assert!(args.domain.is_none());
    assert_eq!(args.value, "https://example.com/launch");
    assert_eq!(args.tail.as_deref(), Some("go"));
    assert_eq!(args.domain_id.as_deref(), Some("domain-1"));
    assert_eq!(
        shortcut_add_fields(&args).unwrap(),
        ShortcutAddFields {
            domain: ShortcutAddDomain::Id("domain-1".to_string()),
            tail: "go".to_string(),
            target_url: "https://example.com/launch".to_string(),
        }
    );

    let args = add_args("pair.rs/typesec", Some("https://github.com/querygraph/typesec"), None);
    assert_eq!(
        shortcut_add_fields(&args).unwrap(),
        ShortcutAddFields {
            domain: ShortcutAddDomain::Hostname("pair.rs".to_string()),
            tail: "typesec".to_string(),
            target_url: "https://github.com/querygraph/typesec".to_string(),
        }
    );

    let args = add_args(
        "pair.rs/typesec",
        Some("https://github.com/querygraph/typesec"),
        Some("work@example.com"),
    );
    assert_eq!(add_account(&args), Some("work@example.com"));
    assert_eq!(
        shortcut_add_fields(&args).unwrap(),
        ShortcutAddFields {
            domain: ShortcutAddDomain::Hostname("pair.rs".to_string()),
            tail: "typesec".to_string(),
            target_url: "https://github.com/querygraph/typesec".to_string(),
        }
    );

    let mut args = add_args("typesec", Some("https://github.com/querygraph/typesec"), None);
    args.domain = Some("pair.rs".to_string());
    assert_eq!(
        shortcut_add_fields(&args).unwrap(),
        ShortcutAddFields {
            domain: ShortcutAddDomain::Hostname("pair.rs".to_string()),
            tail: "typesec".to_string(),
            target_url: "https://github.com/querygraph/typesec".to_string(),
        }
    );

    let args = RemoveArgs {
        domain: false,
        id: "shortcut-1".to_string(),
        account: Some("work@example.com".to_string()),
        version: Some(7),
    };
    assert!(!args.domain);
    assert_eq!(args.id, "shortcut-1");
    assert_eq!(args.account.as_deref(), Some("work@example.com"));
    assert_eq!(args.version, Some(7));
    assert_eq!(
        remove(&args, None),
        RemoveStep::Delete("shortcuts?id=shortcut-1&version=7".to_string())
    );
}

#[test]
fn public_shortcut_commands_support_generated_and_custom_tails() {
    let mut args = add_args("https://example.com/launch", None, None);
    args.public = true;
    args.letters = true;
    args.words = true;
    assert!(args.public && args.letters && args.words);
    assert_eq!(
        shortcut_add_fields(&args).unwrap(),
        ShortcutAddFields {
            domain: ShortcutAddDomain::Hostname("suf.cx".to_string()),
            tail: String::new(),
            target_url: "https://example.com/launch".to_string(),
        }
    );

    let mut args = add_args("dog-cat", Some("https://example.com/launch"), None);
    args.public = true;
    assert_eq!(
        shortcut_add_fields(&args).unwrap(),
        ShortcutAddFields {
            domain: ShortcutAddDomain::Hostname("suf.cx".to_string()),
            tail: "dog-cat".to_string(),
            target_url: "https://example.com/launch".to_string(),
        }
    );
}

#[test]
fn photo_commands_parse_and_build_api_fields() {
    let mut args = add_args("foto.gs/sunset", Some("https://example.com/sunset.jpg"), None);
    args.photo = true;
    args.photo_mode = PhotoMode::Local;
    args.protect = true;
    args.password_file = Some("./secret.txt".to_string());
    assert!(args.photo);
    assert_eq!(args.photo_mode, PhotoMode::Local);
    assert!(args.protect);
    assert_eq!(args.password_file.as_deref(), Some("./secret.txt"));
    let payload = shortcut_payload(object(vec![]), args.photo, args.photo_mode);
    assert_eq!(payload, object(vec![("type", text("photo")), ("photoMode", text("local"))]));
}

#[test]
fn legacy_default_profiles_are_discarded() {
    let mut config = Config {
        api_base: Some("https://suffix.org/api/v1".to_string()),
        api_key: Some("curtail_sk_old".to_string()),
        active_account: Some("default".to_string()),
        accounts: AccountMap::new(),
    };
    config.accounts.insert("default".to_string(), account(Some("curtail_sk_old"), None));

    assert!(discard_legacy_profiles(&mut config));
    assert!(config.active_account.is_none());
    assert!(config.api_base.is_none());
    assert!(config.api_key.is_none());
    assert!(config.accounts.is_empty());
}

#[test]
fn account_selector_matches_name_or_cached_email() {
    let mut config = Config::default();
    config.accounts.insert(
        "personal".to_string(),
        AccountConfig {
            api_base: DEFAULT_API_BASE.to_string(),
            api_key: Some("key".to_string()),
            email: Some("person@example.com".to_string()),
            domain_count: Some(2),
            link_count: Some(5),
            visit_count: Some(13),
            last_checked_at: Some("123".to_string()),
            last_error: None,
        },
    );
    assert_eq!(account_selector(&config, "personal").unwrap(), "personal");
    assert_eq!(account_selector(&config, "Person@Example.COM").unwrap(), "personal");
    assert!(account_selector(&config, "missing@example.com").is_err());
}

#[test]
fn tail_derives_from_url_path() {
    assert_eq!(derive_tail("https://example.com/path/launch"), "launch");
    assert_eq!(derive_tail("https://example.com/"), "link");
}

#[test]
fn shortcut_rows_normalize_api_payload() {
    let payload = object(vec![(
        "shortcuts",
        JsonValue::Array(vec![object(vec![
            ("hostname", text("go.example.com")),
            ("tail", text("launch")),
            ("targetUrl", text("https://example.com/launch")),
            ("clickCount", number(42)),
        ])]),
    )]);
    let rows = shortcut_rows(&payload, true).unwrap();
    assert_eq!(rows[0].shortcut, "go.example.com/launch");
    assert_eq!(rows[0].target, "https://example.com/launch");
    assert_eq!(rows[0].visits, Some(42));

    let rows = shortcut_rows(&payload, false).unwrap();
    assert_eq!(rows[0].visits, None);
}

#[test]
fn domain_rows_aggregate_shortcut_visits() {
    let domains = object(vec![(
        "domains",
        JsonValue::Array(vec![
            object(vec![
                ("id", text("domain-1")),
                ("hostname", text("go.example.com")),
                ("status", text("verified")),
                ("ownerName", text("Test User")),
                ("ownerEmail", text("test@example.com")),
                ("vercelVerified", JsonValue::Bool(true)),
            ]),
            object(vec![
                ("id", text("domain-2")),
                ("hostname", text("jump.example.com")),
                ("status", text("pending")),
            ]),
        ]),
    )]);
    let shortcuts = object(vec![(
        "shortcuts",
        JsonValue::Array(vec![
            object(vec![("domainId", text("domain-1")), ("clickCount", number(3))]),
            object(vec![("domainId", text("domain-1")), ("clickCount", number(4))]),
            object(vec![("domainId", text("domain-2")), ("clickCount", number(0))]),
        ]),
    )]);
    let visits = domain_visit_counts(&shortcuts).unwrap();
    let rows = domain_rows(&domains, Some(&visits)).unwrap();
    assert_eq!(rows[0].hostname, "go.example.com");
    assert_eq!(rows[0].status, "verified");
    assert_eq!(rows[0].owner_name.as_deref(), Some("Test User"));
    assert_eq!(rows[0].visits, Some(7));
    assert_eq!(rows[1].visits, Some(0));

    let rows = domain_rows(&domains, None).unwrap();
    assert_eq!(rows[0].visits, None);
}

#[test]
fn list_output_format_rejects_multiple_structured_flags() {
    assert!(output_format(true, true, false).is_err());
}

#[test]
fn xml_output_escapes_shortcuts() {
    let rows = [ShortcutRow {
        shortcut: "go.example.com/a&b".to_string(),
        target: "https://example.com/?a=1&b=2".to_string(),
        visits: Some(3),
    }];
    let xml = shortcuts_xml(&rows);
    assert!(xml.contains("<short>go.example.com/a&amp;b</short>"));
    assert!(xml.contains("<target>https://example.com/?a=1&amp;b=2</target>"));
    assert!(xml.contains("<visits>3</visits>"));
}

#[test]
fn yaml_output_quotes_shortcuts() {
    let rows = [ShortcutRow {
        shortcut: "go.example.com/a".to_string(),
        target: "https://example.com/\"quoted\"".to_string(),
        visits: None,
    }];
    let yaml = shortcuts_yaml(&rows);
    assert!(yaml.contains("- shortcut: \"go.example.com/a\""));
    assert!(yaml.contains("target: \"https://example.com/\\\"quoted\\\"\""));
}

#[test]
fn domain_structured_output_includes_verbose_fields() {
    let rows = [DomainRow {
        id: "domain-1".to_string(),
        hostname: "go.example.com".to_string(),
        status: "needs<dns>".to_string(),
        owner_name: Some("Test User".to_string()),
        owner_email: Some("test@example.com".to_string()),
        vercel_verified: Some(false),
        vercel_misconfigured: Some(true),
        last_checked_at: Some("2026-07-16T00:00:00Z".to_string()),
        last_error: Some("A & CNAME conflict".to_string()),
        visits: Some(11),
    }];
    let xml = domains_xml(&rows);
    assert!(xml.contains("<hostname>go.example.com</hostname>"));
    assert!(xml.contains("<status>needs&lt;dns&gt;</status>"));
    assert!(xml.contains("<last_error>A &amp; CNAME conflict</last_error>"));
    assert!(xml.contains("<visits>11</visits>"));

    let yaml = domains_yaml(&rows);
    assert!(yaml.contains("- id: \"domain-1\""));
    assert!(yaml.contains("owner_email: \"test@example.com\""));
    assert!(yaml.contains("vercel_misconfigured: true"));
}

#[test]
fn upload_command_parses_and_sanitizes_file_names() {
    let args = UploadArgs {
        domain: None,
        value: "files.example/report".to_string(),
        file: "./Board Notes.pdf".to_string(),
        account: None,
        domain_id: None,
        title: Some("Board report".to_string()),
        protect: true,
        password_file: Some("./secret.txt".to_string()),
    };
    assert_eq!(args.value, "files.example/report");
    assert_eq!(args.file, "./Board Notes.pdf");
    assert!(args.protect);
    let (domain, tail) = upload_locator(&args).unwrap();
    assert!(matches!(domain, ShortcutAddDomain::Hostname(value) if value == "files.example"));
    assert_eq!(tail, "report");
    assert_eq!(safe_upload_name("../secret\0.txt"), ".._secret_.txt");
    assert_eq!(file_content_type("report.pdf"), "application/pdf");
    assert_eq!(random_uuid().len(), 36);
}

#[test]
fn search_and_creation_conflict_helpers_cover_both_fields() {
    let shortcuts = vec![object(vec![
        ("id", text("link-1")),
        ("version", number(2)),
        ("domainId", text("domain-1")),
        ("hostname", text("go.example")),
        ("tail", text("report")),
        ("targetUrl", text("https://files.example/report.pdf")),
    ])];
    let occupied = occupied_tail(
        &shortcuts,
        &object(vec![("domainId", text("domain-1")), ("tail", text("report"))]),
    )
    .unwrap();
    assert_eq!(shortcut_name(occupied), "go.example/report");
    assert!(same_target("https://files.example", "https://files.example/"));
}

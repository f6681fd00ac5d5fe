use suffix::json::{JsonNumber, JsonValue};
use suffix::manual::manpage_directories_for;
use suffix::output::{
    domain_table, format_shortcut, output_format, shortcut_table, xml_escape, yaml_scalar, DomainRow,
    OutputFormat, ShortcutRow, TooManyFormats,
};
use suffix::records::{
    account_id, check_search_pattern, default_domain_id, domain_rows, domain_visit_counts, occupied_tail_index,
    search_shortcuts, shortcut_list, shortcut_rows, shortcut_version, RecordError, SearchError,
};
use suffix::shortcuts::{
    derive_tail, file_content_type, looks_like_url, safe_upload_name, shortcut_add_fields, split_shortcut_locator,
    upload_locator, uuid_from_bits, AddArgs, AddError, PhotoMode, ShortcutAddDomain, UploadArgs,
};

fn text(s: &str) -> JsonValue {
    JsonValue::Text(s.to_string())
}

fn number(n: u64) -> JsonValue {
    JsonValue::Number(JsonNumber::Unsigned(n))
}

fn object(members: Vec<(&str, JsonValue)>) -> JsonValue {
    JsonValue::Object(members.into_iter().map(|(k, v)| (k.to_string(), v)).collect())
}

fn add_args(value: &str, tail: Option<&str>, target_url: Option<&str>) -> AddArgs {
    AddArgs {
        domain: None,
        public: false,
        letters: false,
        alphanumeric: false,
        words: false,
        value: value.to_string(),
        tail: tail.map(str::to_string),
        target_url: target_url.map(str::to_string),
        account: None,
        domain_id: None,
        title: None,
        photo: false,
        photo_mode: PhotoMode::Remote,
        allow_duplicate_target: false,
        edit_existing: false,
        protect: false,
        password_file: None,
    }
}

fn upload_args(domain: Option<&str>, value: &str, domain_id: Option<&str>) -> UploadArgs {
    UploadArgs {
        domain: domain.map(str::to_string),
        value: value.to_string(),
        file: "./report.pdf".to_string(),
        account: None,
        domain_id: domain_id.map(str::to_string),
        title: None,
        protect: false,
        password_file: None,
    }
}

#[test]
fn text_tables_are_tab_separated_with_optional_visits() {
    let rows = vec![
        ShortcutRow { shortcut: "pair.rs/typesec".to_string(), target: "https://github.com".to_string(), visits: Some(12) },
        ShortcutRow { shortcut: "go.example".to_string(), target: "https://e.com".to_string(), visits: None },
    ];
    assert_eq!(shortcut_table(&rows), "pair.rs/typesec\thttps://github.com\t12\ngo.example\thttps://e.com\n");
    let domain = |hostname: &str, status: &str, visits: Option<u64>| DomainRow {
        id: "d".to_string(),
        hostname: hostname.to_string(),
        status: status.to_string(),
        owner_name: None,
        owner_email: None,
        vercel_verified: None,
        vercel_misconfigured: None,
        last_checked_at: None,
        last_error: None,
        visits,
    };
    assert_eq!(domain_table(&[domain("a.example", "active", Some(0)), domain("b.example", "unknown", None)]), "a.example\tactive\t0\nb.example\tunknown\n");
    assert_eq!(shortcut_table(&[]), "");
}

#[test]
fn formatting_helpers() {
    assert_eq!(format_shortcut("go.example", ""), "go.example");
    assert_eq!(format_shortcut("go.example", "x"), "go.example/x");
    assert_eq!(xml_escape("<a href=\"x\">Tom's & Jerry</a>"), "&lt;a href=&quot;x&quot;&gt;Tom&apos;s &amp; Jerry&lt;/a&gt;");
    assert_eq!(yaml_scalar("say \"hi\"\\now"), "\"say \\\"hi\\\"\\\\now\"");
    assert_eq!(output_format(false, false, false), Ok(OutputFormat::Text));
    assert_eq!(output_format(false, false, true), Ok(OutputFormat::Yaml));
    assert_eq!(output_format(true, true, true), Err(TooManyFormats));
}

#[test]
fn shortcut_records_need_hostname_tail_and_target() {
    assert_eq!(shortcut_rows(&object(vec![]), false).err(), Some(RecordError::MissingShortcuts));
    let list = |s: JsonValue| object(vec![("shortcuts", JsonValue::Array(vec![s]))]);
    assert_eq!(shortcut_rows(&list(object(vec![("tail", text("t"))])), false).err(), Some(RecordError::MissingHostname));
    assert_eq!(shortcut_rows(&list(object(vec![("hostname", text("h"))])), false).err(), Some(RecordError::MissingTail));
    assert_eq!(
        shortcut_rows(&list(object(vec![("hostname", text("h")), ("tail", text("t"))])), false).err(),
        Some(RecordError::MissingTarget)
    );
    let rows = shortcut_rows(&list(object(vec![("hostname", text("h")), ("tail", text("")), ("targetUrl", text("u"))])), true).unwrap();
    assert_eq!(rows[0].shortcut, "h");
    assert_eq!(rows[0].visits, Some(0));
    assert_eq!(shortcut_list(&object(vec![("shortcuts", text("x"))])).err(), Some(RecordError::MissingShortcuts));
}

#[test]
fn domain_records_and_visit_totals() {
    assert_eq!(domain_rows(&object(vec![]), None).err(), Some(RecordError::MissingDomains));
    let list = object(vec![("domains", JsonValue::Array(vec![object(vec![("hostname", text("a"))])]))]);
    assert_eq!(domain_rows(&list, None).err(), Some(RecordError::MissingId));
    let list = object(vec![("domains", JsonValue::Array(vec![object(vec![("id", text("d1"))])]))]);
    assert_eq!(domain_rows(&list, None).err(), Some(RecordError::MissingHostname));
    assert_eq!(domain_visit_counts(&object(vec![])).err(), Some(RecordError::MissingShortcuts));
    let shortcuts = object(vec![(
        "shortcuts",
        JsonValue::Array(vec![
            object(vec![("domainId", text("d1")), ("clickCount", number(3))]),
            object(vec![("clickCount", number(100))]),
            object(vec![("domainId", text("d1")), ("clickCount", number(4))]),
            object(vec![("domainId", text("d2"))]),
        ]),
    )]);
    let visits = domain_visit_counts(&shortcuts).unwrap();
    assert_eq!(visits.count("d1"), 7);
    assert_eq!(visits.count("d2"), 0);
    assert_eq!(visits.count("d3"), 0);
}

#[test]
fn versions_default_domains_and_owner_ids() {
    let list = object(vec![(
        "shortcuts",
        JsonValue::Array(vec![object(vec![("id", text("s1")), ("version", number(5))]), object(vec![("id", text("s2"))])]),
    )]);
    assert_eq!(shortcut_version(&list, "s1"), Ok(5));
    assert_eq!(shortcut_version(&list, "s2"), Err(RecordError::MissingVersion));
    assert_eq!(shortcut_version(&list, "s3"), Err(RecordError::ShortcutNotFound));
    assert_eq!(shortcut_version(&object(vec![]), "s1"), Err(RecordError::MissingShortcuts));
    let domains = |v: Vec<JsonValue>| object(vec![("domains", JsonValue::Array(v))]);
    assert_eq!(default_domain_id(&domains(vec![])).err(), Some(RecordError::NoDomains));
    assert_eq!(default_domain_id(&object(vec![])).err(), Some(RecordError::MissingDomains));
    assert_eq!(default_domain_id(&domains(vec![object(vec![])])).err(), Some(RecordError::DomainWithoutId));
    let two = default_domain_id(&domains(vec![object(vec![("id", text("d1"))]), object(vec![("id", text("d2"))])])).unwrap();
    assert_eq!((two.id.as_str(), two.several), ("d1", true));
    assert_eq!(account_id(&domains(vec![object(vec![("ownerAccountId", text("acc"))])])), Ok("acc".to_string()));
    assert_eq!(account_id(&domains(vec![])), Err(RecordError::NoOwnedDomain));
}

#[test]
fn searches_report_why_each_shortcut_matched() {
    assert_eq!(check_search_pattern("(unclosed"), Err(SearchError::InvalidPattern));
    assert_eq!(check_search_pattern("foto\\.gs|report.*pdf"), Ok(()));
    let list = vec![
        object(vec![("hostname", text("foto.gs")), ("tail", text("sunset")), ("targetUrl", text("https://x.com/a.jpg"))]),
        object(vec![("hostname", text("files.example")), ("tail", text("q3")), ("targetUrl", text("https://x.com/REPORT-q3.pdf"))]),
        object(vec![("hostname", text("foto.gs")), ("tail", text("report")), ("targetUrl", text("https://x.com/report.pdf"))]),
        object(vec![("hostname", text("other.example")), ("tail", text("x")), ("targetUrl", text("https://x.com"))]),
    ];
    let hits = search_shortcuts("foto\\.gs|report.*pdf", &list).unwrap();
    let seen: Vec<(&str, &str, &str)> = hits.iter().map(|h| (h.scope, h.shortcut.as_str(), h.target.as_str())).collect();
    assert_eq!(
        seen,
        vec![
            ("shortcut", "foto.gs/sunset", "https://x.com/a.jpg"),
            ("target", "files.example/q3", "https://x.com/REPORT-q3.pdf"),
            ("shortcut+target", "foto.gs/report", "https://x.com/report.pdf"),
        ]
    );
    assert!(search_shortcuts("[", &list).is_err());
}

#[test]
fn taken_tails_are_found_by_position() {
    let list = vec![
        object(vec![("tail", text("A")), ("domainId", text("d1"))]),
        object(vec![("tail", text("a")), ("domainId", text("d2"))]),
    ];
    assert_eq!(occupied_tail_index(&list, &object(vec![("tail", text("a")), ("domainId", text("d2"))])), Some(1));
    assert_eq!(occupied_tail_index(&list, &object(vec![("tail", text("a")), ("domainId", text("d3"))])), None);
    assert_eq!(occupied_tail_index(&list, &object(vec![("domainId", text("d1"))])), None);
}

#[test]
fn shortcut_arguments_are_checked() {
    let mut both = add_args("t", None, None);
    both.domain = Some("h".to_string());
    both.domain_id = Some("d".to_string());
    assert_eq!(shortcut_add_fields(&both), Err(AddError::DomainAndId));
    let mut public = add_args("not a url", None, None);
    public.public = true;
    assert_eq!(shortcut_add_fields(&public), Err(AddError::PublicUsage));
    let mut host_only = add_args("t", None, None);
    host_only.domain = Some("h".to_string());
    assert_eq!(shortcut_add_fields(&host_only), Err(AddError::DomainUsage));
    assert_eq!(shortcut_add_fields(&add_args("pair.rs/x", Some("y"), Some("https://e.com"))), Err(AddError::LocatorUsage));
    assert_eq!(shortcut_add_fields(&add_args("nohost", Some("https://e.com"), None)), Err(AddError::Locator));
    let derived = shortcut_add_fields(&add_args("https://e.com/docs/guide", None, None)).unwrap();
    assert_eq!(derived.tail, "guide");
    assert_eq!(derived.domain, ShortcutAddDomain::Default);
    assert_eq!(split_shortcut_locator("a/b/c"), Err(AddError::Locator));
    assert_eq!(split_shortcut_locator("/b"), Err(AddError::Locator));
    assert_eq!(split_shortcut_locator("a/"), Err(AddError::Locator));
}

#[test]
fn url_helpers_go_through_the_url_parser() {
    assert!(looks_like_url("https://example.com"));
    assert!(looks_like_url("HTTP://example.com"));
    assert!(!looks_like_url("ftp://example.com"));
    assert!(!looks_like_url("example.com"));
    assert_eq!(derive_tail("https://example.com/"), "link");
    assert_eq!(derive_tail("not a url"), "link");
    assert_eq!(derive_tail("https://example.com/a/b.pdf?x=1"), "b.pdf");
}

#[test]
fn upload_locations_and_names() {
    let (d, t) = upload_locator(&upload_args(Some("h"), "tail", None)).unwrap();
    assert_eq!((d, t.as_str()), (ShortcutAddDomain::Hostname("h".to_string()), "tail"));
    let (d, t) = upload_locator(&upload_args(None, "files.example/report", None)).unwrap();
    assert_eq!((d, t.as_str()), (ShortcutAddDomain::Hostname("files.example".to_string()), "report"));
    let (d, t) = upload_locator(&upload_args(None, "report", Some("d1"))).unwrap();
    assert_eq!((d, t.as_str()), (ShortcutAddDomain::Id("d1".to_string()), "report"));
    let (d, _) = upload_locator(&upload_args(None, "a/b/c", None)).unwrap();
    assert_eq!(d, ShortcutAddDomain::Default);
    assert_eq!(safe_upload_name(" .. "), "download");
    assert_eq!(safe_upload_name("a/b\\c\u{7}.txt"), "a_b_c_.txt");
    assert_eq!(safe_upload_name(&"x".repeat(200)).chars().count(), 180);
    assert_eq!(file_content_type("Report.PDF"), "application/pdf");
    assert_eq!(file_content_type("notes.md"), "text/plain");
    assert_eq!(file_content_type("archive"), "application/octet-stream");
    assert_eq!(file_content_type(".png"), "application/octet-stream");
}

#[test]
fn uuids_have_the_version_four_shape() {
    let u = uuid_from_bits(0x0123456789abcdef0123456789abcdef);
    assert_eq!(u, "01234567-89ab-4def-8123-456789abcdef");
}

#[test]
fn other_platforms_use_the_linux_directories() {
    assert_eq!(manpage_directories_for("freebsd", "/h")[1], "/h/.local/share/man/man1");
}

#[test]
fn escaping_escaped_text_escapes_the_ampersand_again() {
    assert_eq!(xml_escape("&lt;"), "&amp;lt;");
    assert_eq!(xml_escape("plain"), "plain");
}

#[test]
fn plain_file_names_take_the_text_after_the_last_dot() {
    assert_eq!(file_content_type("archive.tar.JPEG"), "image/jpeg");
    assert_eq!(file_content_type("notes."), "application/octet-stream");
    assert_eq!(file_content_type(".hidden.csv"), "text/plain");
}

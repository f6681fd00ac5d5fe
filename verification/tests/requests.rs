use suffix::adding::{duplicate_report, duplicate_targets, plan_add, reuse_line, AddPlan};
use suffix::api::{encode, random_state, stats_resource};
use suffix::json::{JsonNumber, JsonValue};
use suffix::payloads::{
    accept_request, add_payload, apply_domain, apply_storage_password, check_edit, cleanup_payload,
    create_payload, domain_transfer_payload, edit_existing_payload, edit_payload, file_payload,
    hostname_payload, new_shortcut_payload, password_from_file, password_patch, photo_patch,
    transfer_request, update_payload, upload_token_request, EditArgs, EditError, PasswordError,
};
use suffix::prompts::{
    candidate_menu, choose_candidate, confirm_answer, move_confirmed, parse_usize, AnswerError, ChoiceError,
};
use suffix::replies::{
    accepted_report, candidates_resource, check_upload_size, client_token, public_tail_candidates,
    public_tail_styles, transfer_report, upload_pathname, uploaded_urls, CandidateError, TransferError,
    UploadError,
};
use suffix::shortcuts::{PhotoMode, ShortcutAddDomain};

fn text(s: &str) -> JsonValue {
    JsonValue::Text(s.to_string())
}

fn number(n: u64) -> JsonValue {
    JsonValue::Number(JsonNumber::Unsigned(n))
}

fn object(members: Vec<(&str, JsonValue)>) -> JsonValue {
    JsonValue::Object(members.into_iter().map(|(k, v)| (k.to_string(), v)).collect())
}

fn keys(v: &JsonValue) -> Vec<String> {
    match v {
        JsonValue::Object(m) => m.iter().map(|(k, _)| k.clone()).collect(),
        _ => vec![],
    }
}

fn shortcut(host: &str, tail: &str, target: &str) -> JsonValue {
    object(vec![("hostname", text(host)), ("tail", text(tail)), ("targetUrl", text(target))])
}

#[test]
fn new_shortcut_bodies_carry_tail_target_and_label() {
    let plain = add_payload("launch", "https://example.com", &None);
    assert_eq!(plain.get("tail"), Some(&text("launch")));
    assert_eq!(plain.get("targetUrl"), Some(&text("https://example.com")));
    assert_eq!(plain.get("title"), Some(&JsonValue::Null));
    let photo = new_shortcut_payload("sunset", "https://e.com/s.jpg", &Some("Sunset".to_string()), true, PhotoMode::Local);
    assert_eq!(photo.get("title"), Some(&text("Sunset")));
    assert_eq!(photo.get("type"), Some(&text("photo")));
    assert_eq!(photo.get("photoMode"), Some(&text("local")));
    assert_eq!(keys(&photo), vec!["tail", "targetUrl", "title", "type", "photoMode"]);
    let not_photo = new_shortcut_payload("a", "b", &None, false, PhotoMode::Local);
    assert_eq!(not_photo.get("type"), None);
}

#[test]
fn storage_passwords_must_be_eight_to_128_characters() {
    let mut body = add_payload("t", "u", &None);
    assert_eq!(apply_storage_password(&mut body, false, None), Ok(()));
    assert_eq!(body.get("protectStorage"), None);
    assert_eq!(apply_storage_password(&mut body, true, None), Err(PasswordError::Unavailable));
    assert_eq!(apply_storage_password(&mut body, true, Some("short".to_string())), Err(PasswordError::Length));
    assert_eq!(apply_storage_password(&mut body, true, Some("x".repeat(129))), Err(PasswordError::Length));
    assert_eq!(body.get("storagePassword"), None);
    assert_eq!(apply_storage_password(&mut body, true, Some("\u{e9}".repeat(8))), Ok(()));
    assert_eq!(body.get("protectStorage"), Some(&JsonValue::Bool(true)));
    assert_eq!(body.get("storagePassword"), Some(&text(&"\u{e9}".repeat(8))));
    assert_eq!(body.get("tail"), Some(&text("t")));
}

#[test]
fn password_files_lose_only_their_trailing_line_ends() {
    assert_eq!(password_from_file("correct horse\r\n\n"), "correct horse");
    assert_eq!(password_from_file("  spaced  \n"), "  spaced  ");
    assert_eq!(password_from_file("a\nb"), "a\nb");
    assert_eq!(password_from_file("\n\r"), "");
}

#[test]
fn the_domain_goes_in_by_hostname_or_id() {
    let mut a = add_payload("t", "u", &None);
    apply_domain(&mut a, &ShortcutAddDomain::Hostname("pair.rs".to_string()), "unused");
    assert_eq!(a.get("domain"), Some(&text("pair.rs")));
    assert_eq!(a.get("domainId"), None);
    let mut b = add_payload("t", "u", &None);
    apply_domain(&mut b, &ShortcutAddDomain::Id("d1".to_string()), "unused");
    assert_eq!(b.get("domainId"), Some(&text("d1")));
    let mut c = add_payload("t", "u", &None);
    apply_domain(&mut c, &ShortcutAddDomain::Default, "first");
    assert_eq!(c.get("domainId"), Some(&text("first")));
}

#[test]
fn editing_an_existing_shortcut_takes_its_id_version_and_state() {
    let mut body = add_payload("t", "u", &None);
    let existing = object(vec![("id", text("s1")), ("version", number(7)), ("isActive", JsonValue::Bool(false))]);
    edit_existing_payload(&mut body, existing);
    assert_eq!(body.get("id"), Some(&text("s1")));
    assert_eq!(body.get("version"), Some(&number(7)));
    assert_eq!(body.get("isActive"), Some(&JsonValue::Bool(false)));
    let mut bare = add_payload("t", "u", &None);
    edit_existing_payload(&mut bare, object(vec![]));
    assert_eq!(bare.get("id"), Some(&JsonValue::Null));
    assert_eq!(bare.get("version"), Some(&JsonValue::Null));
    assert_eq!(bare.get("isActive"), Some(&JsonValue::Bool(true)));
}

#[test]
fn taking_a_member_leaves_null_behind() {
    let mut v = object(vec![("a", number(1)), ("b", text("x"))]);
    assert_eq!(v.take_member("b"), Some(text("x")));
    assert_eq!(v.get("b"), Some(&JsonValue::Null));
    assert_eq!(v.get("a"), Some(&number(1)));
    assert_eq!(v.take_member("c"), None);
    let mut t = text("x");
    assert_eq!(t.take_member("a"), None);
    assert_eq!(t, text("x"));
}

#[test]
fn edits_must_change_something() {
    let mut args = EditArgs { id: "s1".to_string(), tail: None, target_url: None, title: None, active: None, account: None, version: None };
    assert_eq!(check_edit(&args), Err(EditError::NothingToChange));
    args.title = Some(String::new());
    args.active = Some(false);
    assert_eq!(check_edit(&args), Ok(()));
    let body = edit_payload(&args, 3);
    assert_eq!(keys(&body), vec!["id", "version", "title", "isActive"]);
    assert_eq!(body.get("title"), Some(&text("")));
    assert_eq!(body.get("version"), Some(&number(3)));
    assert_eq!(body.get("isActive"), Some(&JsonValue::Bool(false)));
}

#[test]
fn photo_and_password_patches() {
    let drop = photo_patch("s1", 2, true, false);
    assert_eq!(keys(&drop), vec!["id", "version", "storePhoto", "serveLocalPhoto", "preservePhotoPage", "protectStorage"]);
    assert_eq!(drop.get("storePhoto"), Some(&JsonValue::Bool(false)));
    let local = photo_patch("s1", 2, false, true);
    assert_eq!(local.get("photoMode"), Some(&text("local")));
    assert_eq!(local.get("type"), Some(&text("photo")));
    let remote = photo_patch("s1", 2, false, false);
    assert_eq!(remote.get("photoMode"), Some(&text("remote")));
    let off = password_patch("s1", 4, false);
    assert_eq!(keys(&off), vec!["id", "version", "protectStorage"]);
    assert_eq!(off.get("protectStorage"), Some(&JsonValue::Bool(false)));
}

#[test]
fn transfer_accept_and_move_bodies() {
    let t = transfer_request("go.example.com", &None, 15);
    assert_eq!(t.get("targetEmail"), Some(&JsonValue::Null));
    assert_eq!(t.get("lifetimeMinutes"), Some(&number(15)));
    let pinned = transfer_request("go.example.com", &Some("p@example.com".to_string()), 5);
    assert_eq!(pinned.get("targetEmail"), Some(&text("p@example.com")));
    assert_eq!(accept_request("SUF-1").get("code"), Some(&text("SUF-1")));
    let mv = domain_transfer_payload("go.example.com", "k2");
    assert_eq!(keys(&mv), vec!["action", "domain", "targetApiKey"]);
    assert_eq!(mv.get("action"), Some(&text("transfer")));
    assert_eq!(hostname_payload("go.example.com").get("hostname"), Some(&text("go.example.com")));
}

#[test]
fn low_level_shortcut_bodies() {
    let c = create_payload("d1", "t", "https://e.com", &None);
    assert_eq!(keys(&c), vec!["domainId", "tail", "targetUrl", "title"]);
    let u = update_payload("s1", 9, "d1", "t", "https://e.com", &Some("T".to_string()), false);
    assert_eq!(keys(&u), vec!["id", "version", "domainId", "tail", "targetUrl", "title", "isActive"]);
    assert_eq!(u.get("isActive"), Some(&JsonValue::Bool(false)));
    assert_eq!(u.get("version"), Some(&number(9)));
}

#[test]
fn upload_requests_and_replies() {
    assert_eq!(check_upload_size(0), Err(UploadError::Size));
    assert_eq!(check_upload_size(1), Ok(()));
    assert_eq!(check_upload_size(100 * 1024 * 1024), Ok(()));
    assert_eq!(check_upload_size(100 * 1024 * 1024 + 1), Err(UploadError::Size));
    assert_eq!(upload_pathname("acc", "u-1", "r.pdf"), "files/suffix/acc/u-1/r.pdf");
    let token = upload_token_request("files/suffix/acc/u-1/r.pdf", 1234);
    assert_eq!(token.get("type"), Some(&text("blob.generate-client-token")));
    let fields = token.get("payload").unwrap();
    assert_eq!(fields.get("pathname"), Some(&text("files/suffix/acc/u-1/r.pdf")));
    assert_eq!(fields.get("multipart"), Some(&JsonValue::Bool(false)));
    assert_eq!(fields.get("clientPayload"), Some(&text("{\"size\":1234}")));
    assert_eq!(client_token(&object(vec![("clientToken", text("ct"))])), Ok("ct".to_string()));
    assert_eq!(client_token(&object(vec![])), Err(UploadError::NoToken));
    assert_eq!(
        uploaded_urls(&object(vec![("url", text("b")), ("downloadUrl", text("d"))])),
        Ok(("b".to_string(), "d".to_string()))
    );
    assert_eq!(uploaded_urls(&object(vec![("url", text("b"))])), Ok(("b".to_string(), "b".to_string())));
    assert_eq!(uploaded_urls(&object(vec![("downloadUrl", text("d"))])), Err(UploadError::NoUrl));
    let file = file_payload("t", "d", "b", "r.pdf", &None);
    assert_eq!(keys(&file), vec!["type", "tail", "targetUrl", "fileUrl", "fileName", "title"]);
    assert_eq!(file.get("targetUrl"), Some(&text("d")));
    assert_eq!(file.get("fileUrl"), Some(&text("b")));
    let cleanup = cleanup_payload("b");
    assert_eq!(cleanup.get("action"), Some(&text("cleanup")));
    assert_eq!(cleanup.get("url"), Some(&text("b")));
}

#[test]
fn transfer_replies_become_instructions() {
    let reply = object(vec![("code", text("SUF-X7K9")), ("transfer", object(vec![("expiresAt", text("12:00"))]))]);
    assert_eq!(
        transfer_report(&reply),
        Ok("Transfer code: SUF-X7K9\nExpires: 12:00\nGive this code to the receiving account, then run: suffix accept SUF-X7K9\n".to_string())
    );
    assert_eq!(
        transfer_report(&object(vec![("code", text("C"))])),
        Ok("Transfer code: C\nGive this code to the receiving account, then run: suffix accept C\n".to_string())
    );
    assert_eq!(transfer_report(&object(vec![])), Err(TransferError::NoCode));
    assert_eq!(accepted_report(&object(vec![("domain", object(vec![("hostname", text("go.example.com"))]))])), "Accepted transfer for go.example.com.\n");
    assert_eq!(accepted_report(&object(vec![])), "Accepted transfer for domain.\n");
}

#[test]
fn public_suffix_candidates_follow_the_requested_styles() {
    assert_eq!(public_tail_styles(false, false, false), vec!["letters"]);
    assert_eq!(public_tail_styles(false, true, true), vec!["alphanumeric", "words"]);
    assert_eq!(public_tail_styles(true, false, true), vec!["letters", "words"]);
    assert_eq!(candidates_resource(&vec!["letters", "words"]), "candidates?styles=letters,words");
    assert_eq!(candidates_resource(&vec!["letters"]), "candidates?styles=letters");
    let reply = object(vec![(
        "candidates",
        object(vec![
            ("words", JsonValue::Array(vec![text("sunny-day"), number(3)])),
            ("letters", JsonValue::Array(vec![text("abq"), text("zzt")])),
        ]),
    )]);
    assert_eq!(public_tail_candidates(&reply, &vec!["letters", "words"]), Ok(vec!["abq".to_string(), "zzt".to_string(), "sunny-day".to_string()]));
    assert_eq!(public_tail_candidates(&reply, &vec!["alphanumeric"]), Err(CandidateError::NoneAvailable));
    assert_eq!(public_tail_candidates(&object(vec![]), &vec!["letters"]), Err(CandidateError::Missing));
    assert_eq!(public_tail_candidates(&object(vec![("candidates", JsonValue::Array(vec![]))]), &vec!["letters"]), Err(CandidateError::Missing));
}

#[test]
fn candidate_numbers_pick_from_the_menu() {
    let c = vec!["abq".to_string(), "zzt".to_string(), "sunny-day".to_string()];
    assert_eq!(candidate_menu(&c), "  1. abq\n  2. zzt\n  3. sunny-day\n");
    assert_eq!(choose_candidate(&c, "\n"), Ok("abq".to_string()));
    assert_eq!(choose_candidate(&c, " 2 \n"), Ok("zzt".to_string()));
    assert_eq!(choose_candidate(&c, "+3"), Ok("sunny-day".to_string()));
    assert_eq!(choose_candidate(&c, "0"), Ok("abq".to_string()));
    assert_eq!(choose_candidate(&c, "4"), Err(ChoiceError::OutOfRange));
    assert_eq!(choose_candidate(&c, "two"), Err(ChoiceError::NotANumber));
    assert_eq!(choose_candidate(&c, "-1"), Err(ChoiceError::NotANumber));
}

#[test]
fn numbers_parse_as_std_does() {
    assert_eq!(parse_usize("42"), Some(42));
    assert_eq!(parse_usize("+7"), Some(7));
    assert_eq!(parse_usize("007"), Some(7));
    assert_eq!(parse_usize(""), None);
    assert_eq!(parse_usize("+"), None);
    assert_eq!(parse_usize("4 2"), None);
    assert_eq!(parse_usize("99999999999999999999999"), None);
    assert_eq!(parse_usize(&usize::MAX.to_string()), Some(usize::MAX));
    for n in [0usize, 9, 10, 123456] {
        assert_eq!(parse_usize(&n.to_string()), Some(n));
    }
}

#[test]
fn yes_no_answers_and_move_confirmations() {
    assert_eq!(confirm_answer(" YES \n", false), Ok(true));
    assert_eq!(confirm_answer("y", false), Ok(true));
    assert_eq!(confirm_answer("No", true), Ok(false));
    assert_eq!(confirm_answer("\n", true), Ok(true));
    assert_eq!(confirm_answer("   ", false), Ok(false));
    assert_eq!(confirm_answer("maybe", true), Err(AnswerError::NotYesOrNo));
    assert!(move_confirmed("go.example.com", "  move go.example.com\n"));
    assert!(!move_confirmed("go.example.com", "move  go.example.com"));
    assert!(!move_confirmed("go.example.com", "yes"));
}

#[test]
fn duplicate_targets_are_found_by_url() {
    let list = vec![
        shortcut("a.example", "one", "https://example.com/x"),
        shortcut("b.example", "two", "https://other.com"),
        shortcut("c.example", "three", "HTTPS://EXAMPLE.COM/x"),
    ];
    let body = add_payload("new", " https://example.com/x ", &None);
    assert_eq!(duplicate_targets(&list, &body), vec![0, 2]);
    assert_eq!(
        duplicate_report(&list, &vec![0, 2]),
        "That target already has 2 shortcuts:\n  1. a.example/one\thttps://example.com/x\n  2. c.example/three\tHTTPS://EXAMPLE.COM/x\n"
    );
    assert_eq!(duplicate_report(&list, &vec![1]), "That target already has 1 shortcut:\n  1. b.example/two\thttps://other.com\n");
    assert_eq!(reuse_line(&list[1]), "b.example/two\thttps://other.com\n");
}

#[test]
fn adding_edits_a_taken_tail_reviews_duplicates_or_creates() {
    let list = vec![
        object(vec![("hostname", text("pair.rs")), ("tail", text("TypeSec")), ("targetUrl", text("https://old.example")), ("domainId", text("d1"))]),
        shortcut("pair.rs", "other", "https://new.example"),
    ];
    let mut taken = add_payload("typesec", "https://new.example", &None);
    apply_domain(&mut taken, &ShortcutAddDomain::Hostname("PAIR.RS".to_string()), "");
    assert_eq!(plan_add(&list, &taken, true, false), AddPlan::UpdateExisting(0));
    assert_eq!(plan_add(&list, &taken, false, false), AddPlan::ConfirmEdit(0));
    let mut by_id = add_payload("typesec", "https://x.example", &None);
    apply_domain(&mut by_id, &ShortcutAddDomain::Id("d2".to_string()), "");
    assert_eq!(plan_add(&list, &by_id, false, false), AddPlan::Create);
    let mut fresh = add_payload("fresh", "https://new.example", &None);
    apply_domain(&mut fresh, &ShortcutAddDomain::Hostname("pair.rs".to_string()), "");
    assert_eq!(plan_add(&list, &fresh, false, false), AddPlan::ReviewDuplicates(vec![1]));
    assert_eq!(plan_add(&list, &fresh, false, true), AddPlan::Create);
}

#[test]
fn resources_and_random_values() {
    assert_eq!(encode("a b/\u{fc}~"), "a%20b%2F%C3%BC~");
    assert_eq!(stats_resource("id 1", 30), "stats?shortcutId=id%201&days=30");
    let s = random_state();
    assert_eq!(s.chars().count(), 32);
    assert!(s.chars().all(|c| c.is_ascii_alphanumeric()));
    assert_ne!(random_state(), s);
}

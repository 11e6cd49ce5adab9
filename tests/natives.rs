use titan_runtime::fetch::prepare_fetch;
use titan_runtime::files::{check_relative, check_target, within_root, ReadError};
use titan_runtime::natives::{decode_buffer, format_js_error, log_message};

fn s(x: &str) -> String {
    x.to_string()
}

#[test]
fn read_rejects_traversal_and_absolute_paths() {
    assert!(matches!(check_relative("../../etc/passwd"), Err(ReadError::EscapesRoot)));
    assert!(matches!(check_relative("/etc/passwd"), Err(ReadError::Absolute)));
}

#[test]
fn read_accepts_paths_that_stay_inside() {
    assert!(check_relative("db/file.sql").is_ok());
    assert!(check_relative("./db/../db/file.sql").is_ok());
    assert!(matches!(check_relative("db/../../x"), Err(ReadError::EscapesRoot)));
    assert!(matches!(check_relative("a/b/../../../x"), Err(ReadError::EscapesRoot)));
}

#[test]
fn containment_is_by_whole_segments() {
    assert!(within_root("/srv/app", "/srv/app/db/file.sql"));
    assert!(within_root("/srv/app", "/srv/app"));
    assert!(!within_root("/srv/app", "/srv/application/secret"));
    assert!(!within_root("/srv/app", "/etc/passwd"));
}

#[test]
fn target_checks_after_canonicalisation() {
    assert!(check_target("db/x", "/srv/app", Some("/srv/app/db/x")).is_ok());
    assert!(matches!(check_target("l", "/srv/app", Some("/etc/shadow")), Err(ReadError::EscapesRoot)));
    match check_target("missing.txt", "/srv/app", None) {
        Err(ReadError::NotFound(p)) => assert_eq!(p, "missing.txt"),
        other => panic!("unexpected {:?}", other),
    }
}

#[test]
fn read_error_messages() {
    assert_eq!(ReadError::Absolute.message(), "t.read expects a relative path like 'db/file.sql'");
    assert_eq!(ReadError::EscapesRoot.message(), "t.read: path escapes allowed root");
    assert_eq!(ReadError::NotFound(s("a.txt")).message(), "t.read: file not found: a.txt");
    assert_eq!(ReadError::Failed(s("denied")).message(), "t.read failed: denied");
}

#[test]
fn log_line_names_the_action() {
    assert_eq!(log_message(Some("hello"), &vec![s("a"), s("{\"b\":1}")]), "log(hello): a {\"b\":1}");
    assert_eq!(log_message(None, &vec![]), "log(init): ");
}

#[test]
fn js_error_report() {
    assert_eq!(format_js_error("boom", "act"), "Action: act\nboom");
}

#[test]
fn decode_utf8_replaces_invalid_bytes() {
    assert_eq!(decode_buffer(Some("héllo".as_bytes())), Some(s("héllo")));
    assert_eq!(decode_buffer(Some(&[0x61, 0xff, 0x62])), Some(s("a\u{fffd}b")));
    assert_eq!(decode_buffer(None), None);
    assert_eq!(decode_buffer(Some(&[])), Some(s("")));
}

#[test]
fn fetch_method_defaults_to_get() {
    let r = prepare_fetch(s("http://x"), None, vec![], None).expect("request");
    assert_eq!(r.method, "GET");
    assert_eq!(r.url, "http://x");
    let r = prepare_fetch(s("http://x"), Some(s("POST")), vec![], Some(s("{}"))).expect("request");
    assert_eq!(r.method, "POST");
    assert_eq!(r.body, Some(s("{}")));
}

#[test]
fn fetch_refuses_an_invalid_method() {
    let e = prepare_fetch(s("http://x"), Some(s("GE T")), vec![], None).expect_err("refused");
    assert_eq!(e, "t.fetch: invalid method: GE T");
    assert!(prepare_fetch(s("http://x"), Some(s("")), vec![], None).is_err());
    assert!(prepare_fetch(s("http://x"), Some(s("PÖST")), vec![], None).is_err());
}

#[test]
fn fetch_drops_headers_the_client_refuses() {
    let r = prepare_fetch(
        s("http://x"),
        None,
        vec![
            (s("X-Good"), s("yes")),
            (s(""), s("empty name")),
            (s("bad name"), s("v")),
            (s("X-Bad-Value"), s("line\nbreak")),
            (s("Accept"), s("text/plain")),
            ("a".repeat(65536), s("too long")),
            ("b".repeat(65535), s("longest")),
        ],
        None,
    )
    .expect("request");
    assert_eq!(
        r.headers,
        vec![(s("X-Good"), s("yes")), (s("Accept"), s("text/plain")), ("b".repeat(65535), s("longest"))]
    );
}

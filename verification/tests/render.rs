use curlio::client::{plan_transport, TransportSettings, MAX_REDIRECTS};
use curlio::config::{Delivery, RequestConfig};
use curlio::error::ConfigError;
use curlio::json::{object_members, pretty_json};
use curlio::outcome::ResponseHead;
use curlio::render::{render, render_body, render_head, RenderAction};
use curlio::text::{chars_of, decimal_text, join_text, same_text, split_text, text_between, text_of};

fn head() -> ResponseHead {
    ResponseHead {
        status: 200,
        reason: "OK".to_string(),
        headers: vec![
            ("content-type".to_string(), "application/json".to_string()),
            ("set-cookie".to_string(), "a=1".to_string()),
            ("set-cookie".to_string(), "b=2".to_string()),
        ],
        content_length: Some(7),
    }
}

#[test]
fn json_body_is_pretty_printed() {
    assert_eq!(
        render_body("{\"id\":1,\"tags\":[\"a\",\"b\"]}", false, None),
        vec![RenderAction::Print(
            "{\n  \"id\": 1,\n  \"tags\": [\n    \"a\",\n    \"b\"\n  ]\n}".to_string()
        )]
    );
    assert_eq!(render_body("  17 ", false, None), vec![RenderAction::Print("17".to_string())]);
    assert_eq!(pretty_json("{\"a\":1}"), Some("{\n  \"a\": 1\n}".to_string()));
    assert_eq!(pretty_json("\"s\""), Some("\"s\"".to_string()));
}

#[test]
fn other_body_is_printed_unchanged() {
    for body in ["<html>hi</html>", "", "{\"open\": ", "plain text\nwith lines", "{'a': 1}"] {
        assert_eq!(render_body(body, false, None), vec![RenderAction::Print(body.to_string())]);
        assert_eq!(pretty_json(body), None);
    }
}

#[test]
fn silent_keeps_the_body_off_the_console_but_stores_it() {
    assert_eq!(render_body("{\"a\":1}", true, None), vec![]);
    assert_eq!(
        render_body("{\"a\":1}", true, Some("out.json")),
        vec![RenderAction::Store { path: "out.json".to_string(), content: "{\"a\":1}".to_string() }]
    );
    assert_eq!(
        render_body("{\"a\":1}", false, Some("out.json")),
        vec![
            RenderAction::Print("{\n  \"a\": 1\n}".to_string()),
            RenderAction::Store { path: "out.json".to_string(), content: "{\"a\":1}".to_string() },
        ]
    );
}

#[test]
fn verbose_prints_status_and_headers_first() {
    assert_eq!(
        render_head(&head(), true),
        vec![
            "Status Code: 200 OK".to_string(),
            "Response Headers:".to_string(),
            "content-type: application/json".to_string(),
            "set-cookie: a=1".to_string(),
            "set-cookie: b=2".to_string(),
        ]
    );
    assert_eq!(render_head(&head(), false), Vec::<String>::new());
    let bare = ResponseHead { status: 599, reason: String::new(), headers: vec![], content_length: None };
    assert_eq!(
        render_head(&bare, true),
        vec!["Status Code: 599".to_string(), "Response Headers:".to_string()]
    );
}

#[test]
fn verbose_is_not_suppressed_by_silent() {
    assert_eq!(
        render(&head(), "not json", true, true, Some("/tmp/out")),
        vec![
            RenderAction::Print("Status Code: 200 OK".to_string()),
            RenderAction::Print("Response Headers:".to_string()),
            RenderAction::Print("content-type: application/json".to_string()),
            RenderAction::Print("set-cookie: a=1".to_string()),
            RenderAction::Print("set-cookie: b=2".to_string()),
            RenderAction::Store { path: "/tmp/out".to_string(), content: "not json".to_string() },
        ]
    );
    assert_eq!(
        render(&head(), "not json", false, false, None),
        vec![RenderAction::Print("not json".to_string())]
    );
    assert_eq!(render(&head(), "[]", false, true, None), vec![]);
}

#[test]
fn object_members_keep_non_strings_without_text() {
    let mut members = object_members("{\"a\": \"x\", \"b\": 2, \"c\": {\"d\": \"e\"}}").unwrap().unwrap();
    members.sort();
    assert_eq!(
        members,
        vec![
            ("a".to_string(), Some("x".to_string())),
            ("b".to_string(), None),
            ("c".to_string(), None),
        ]
    );
    assert_eq!(object_members("[]"), Ok(None));
    assert_eq!(object_members("\"a\""), Ok(None));
    assert_eq!(object_members("{} x"), Err(ConfigError::MalformedJson));
}

#[test]
fn transport_settings() {
    assert_eq!(
        plan_transport(Some(10), true, Some("http://proxy.test:8080")),
        Ok(TransportSettings {
            timeout_seconds: Some(10),
            redirect_limit: Some(10),
            proxy_url: Some("http://proxy.test:8080".to_string()),
        })
    );
    assert_eq!(MAX_REDIRECTS, 10);
    assert_eq!(
        plan_transport(None, false, None),
        Ok(TransportSettings { timeout_seconds: None, redirect_limit: None, proxy_url: None })
    );
    assert_eq!(plan_transport(None, true, Some("http://")), Err(ConfigError::MalformedProxy));
    assert_eq!(plan_transport(Some(1), false, Some("")), Err(ConfigError::MalformedProxy));
    assert!(plan_transport(None, false, Some("socks5://127.0.0.1")).is_ok());
    assert!(plan_transport(None, false, Some("proxy.test:3128")).is_ok());
}

#[test]
fn delivery_prefers_download() {
    let mut config = RequestConfig::new("http://example.test/");
    assert_eq!(config.delivery(), Delivery::Render { store_path: None });
    config.store_path = Some("body.txt".to_string());
    assert_eq!(config.delivery(), Delivery::Render { store_path: Some("body.txt".to_string()) });
    config.download_path = Some("file.bin".to_string());
    assert_eq!(config.delivery(), Delivery::Download("file.bin".to_string()));
}

#[test]
fn text_helpers() {
    assert_eq!(chars_of("h\u{e9}!"), vec!['h', '\u{e9}', '!']);
    assert_eq!(text_of(&vec!['a', '\u{1F600}']), "a\u{1F600}");
    assert_eq!(text_between(&vec!['a', 'b', 'c', 'd'], 1, 3), "bc");
    assert_eq!(text_between(&vec!['a', 'b'], 2, 2), "");
    assert!(same_text("abc", "abc"));
    assert!(!same_text("abc", "abd"));
    assert!(!same_text("abc", "ab"));
    for n in [0u64, 7, 9, 10, 11, 99, 100, 1234567890, u64::MAX] {
        assert_eq!(decimal_text(n), n.to_string());
    }
    assert_eq!(split_text("a:b::c", ':'), vec!["a", "b", "", "c"]);
    assert_eq!(split_text("", ':'), vec![""]);
    assert_eq!(split_text(":", ':'), vec!["", ""]);
    assert_eq!(split_text("abc", ':'), vec!["abc"]);
    for text in ["a:b::c", "", ":", "abc", "::a"] {
        let parts = split_text(text, ':');
        assert_eq!(parts.len(), text.matches(':').count() + 1);
        assert_eq!(join_text(&parts, ":"), text);
    }
    assert_eq!(join_text(&vec![], ", "), "");
    assert_eq!(join_text(&vec!["a".to_string()], ", "), "a");
    assert_eq!(join_text(&vec!["a".to_string(), "b".to_string(), "c".to_string()], "; "), "a; b; c");
}

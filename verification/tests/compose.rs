use curlio::compose::{compose, parse_headers, Body, ComposedRequest};
use curlio::config::{split_credentials, split_urls, BasicAuth, RequestConfig};
use curlio::cookies::{cookie_header, load_cookies, parse_cookies, Cookie};
use curlio::error::ConfigError;
use curlio::form::{basename_of, form_entries, form_part, form_parts, FormField, FormPart};
use curlio::headers::HeaderSet;
use curlio::method::{parse_method, Method};

fn pair(name: &str, value: &str) -> (String, String) {
    (name.to_string(), value.to_string())
}

fn config_for(url: &str, method: &str) -> RequestConfig {
    let mut config = RequestConfig::new(url);
    config.method = method.to_string();
    config
}

#[test]
fn post_with_header_and_body() {
    let mut config = config_for("http://example.test/items", "POST");
    config.headers = Some("{\"Content-Type\":\"application/json\"}".to_string());
    config.body = Some("{\"id\":1}".to_string());
    let request = compose(&config).unwrap();
    assert_eq!(request.method, Method::Post);
    assert_eq!(request.url, "http://example.test/items");
    assert_eq!(request.headers.len(), 1);
    assert_eq!(request.headers.to_pairs(), vec![pair("Content-Type", "application/json")]);
    assert_eq!(request.body, Body::Raw("{\"id\":1}".to_string()));
    match &request.body {
        Body::Raw(text) => assert_eq!(text.as_bytes(), b"{\"id\":1}"),
        _ => panic!("raw body expected"),
    }
    assert_eq!(request.auth, None);
}

#[test]
fn every_supported_method_is_kept() {
    let cases = vec![
        ("GET", Method::Get),
        ("POST", Method::Post),
        ("PUT", Method::Put),
        ("PATCH", Method::Patch),
        ("DELETE", Method::Delete),
    ];
    for (name, method) in cases {
        assert_eq!(parse_method(name), Ok(method));
        assert_eq!(method.name(), name);
        let request = compose(&config_for("http://example.test/", name)).unwrap();
        assert_eq!(request.method, method);
    }
}

#[test]
fn any_other_method_is_unsupported() {
    for name in ["", "get", "Get", "HEAD", "OPTIONS", "GET ", "POSTS", "DELET"] {
        assert_eq!(parse_method(name), Err(ConfigError::UnsupportedMethod));
        assert_eq!(
            compose(&config_for("http://example.test/", name)),
            Err(ConfigError::UnsupportedMethod)
        );
    }
}

#[test]
fn unsupported_method_comes_before_other_errors() {
    let mut config = config_for("http://example.test/", "FETCH");
    config.headers = Some("not json".to_string());
    assert_eq!(compose(&config), Err(ConfigError::UnsupportedMethod));
}

#[test]
fn header_set_is_the_object() {
    let mut config = config_for("http://example.test/", "GET");
    config.headers = Some("{\"X-Api-Key\": \"abc123\", \"Content-Type\": \"application/json\", \"x-api-key\": \"lower\"}".to_string());
    let request = compose(&config).unwrap();
    assert_eq!(request.headers.len(), 3);
    assert_eq!(request.headers.get("X-Api-Key"), Some("abc123".to_string()));
    assert_eq!(request.headers.get("x-api-key"), Some("lower".to_string()));
    assert_eq!(request.headers.get("Content-Type"), Some("application/json".to_string()));
    assert_eq!(request.headers.get("content-type"), None);
    let mut pairs = request.headers.to_pairs();
    pairs.sort();
    assert_eq!(
        pairs,
        vec![
            pair("Content-Type", "application/json"),
            pair("X-Api-Key", "abc123"),
            pair("x-api-key", "lower"),
        ]
    );
}

#[test]
fn duplicate_key_keeps_the_last_value() {
    let set = parse_headers("{\"A\": \"1\", \"B\": \"2\", \"A\": \"3\"}").unwrap();
    assert_eq!(set.len(), 2);
    assert_eq!(set.get("A"), Some("3".to_string()));
    assert_eq!(set.get("B"), Some("2".to_string()));
}

#[test]
fn header_document_errors() {
    assert_eq!(parse_headers("{\"A\": "), Err(ConfigError::MalformedJson));
    assert_eq!(parse_headers(""), Err(ConfigError::MalformedJson));
    assert_eq!(parse_headers("{\"A\": 1}"), Err(ConfigError::InvalidHeader));
    assert_eq!(parse_headers("{\"A\": null}"), Err(ConfigError::InvalidHeader));
    assert_eq!(parse_headers("{\"bad name\": \"v\"}"), Err(ConfigError::InvalidHeader));
    assert_eq!(parse_headers("{\"\": \"v\"}"), Err(ConfigError::InvalidHeader));
    assert_eq!(parse_headers("{\"A\": \"line\\nbreak\"}"), Err(ConfigError::InvalidHeader));
    let mut config = config_for("http://example.test/", "GET");
    config.headers = Some("{\"A\": [\"v\"]}".to_string());
    assert_eq!(compose(&config), Err(ConfigError::InvalidHeader));
}

#[test]
fn header_document_that_is_no_object_gives_no_header() {
    assert_eq!(parse_headers("[1, 2]").unwrap().len(), 0);
    assert_eq!(parse_headers("\"text\"").unwrap().len(), 0);
    assert_eq!(parse_headers("null").unwrap().len(), 0);
    assert_eq!(parse_headers("{}").unwrap().len(), 0);
}

#[test]
fn header_names_and_values_are_checked() {
    let mut set = HeaderSet::new();
    assert_eq!(set.put("X-One", "1"), Ok(()));
    assert_eq!(set.put("", "1"), Err(ConfigError::InvalidHeader));
    assert_eq!(set.put("X Two", "1"), Err(ConfigError::InvalidHeader));
    assert_eq!(set.put("X:Two", "1"), Err(ConfigError::InvalidHeader));
    assert_eq!(set.put("X-Tw\u{f6}", "1"), Err(ConfigError::InvalidHeader));
    assert_eq!(set.put("X-Two", "a\u{7f}"), Err(ConfigError::InvalidHeader));
    assert_eq!(set.put("X-Two", "a\rb"), Err(ConfigError::InvalidHeader));
    assert_eq!(set.put("X-Two", "a\u{0}b"), Err(ConfigError::InvalidHeader));
    assert_eq!(set.to_pairs(), vec![pair("X-One", "1")]);
    assert_eq!(set.put("!#$%&'*+-.^_`|~09azAZ", "tab\there \u{e9}~"), Ok(()));
    assert_eq!(set.put("X-Empty", ""), Ok(()));
    assert_eq!(set.len(), 3);
    let long = "a".repeat(65535);
    assert_eq!(set.put(&long, "v"), Ok(()));
    let too_long = "a".repeat(65536);
    assert_eq!(set.put(&too_long, "v"), Err(ConfigError::InvalidHeader));
    assert_eq!(set.len(), 4);
}

#[test]
fn put_replaces_in_place_and_appends() {
    let mut set = HeaderSet::new();
    set.put("A", "1").unwrap();
    set.put("B", "2").unwrap();
    set.put("C", "3").unwrap();
    set.put("B", "4").unwrap();
    assert_eq!(set.to_pairs(), vec![pair("A", "1"), pair("B", "4"), pair("C", "3")]);
    set.put("b", "5").unwrap();
    assert_eq!(
        set.to_pairs(),
        vec![pair("A", "1"), pair("B", "4"), pair("C", "3"), pair("b", "5")]
    );
    set.remove("A");
    set.remove("Z");
    assert_eq!(set.to_pairs(), vec![pair("B", "4"), pair("C", "3"), pair("b", "5")]);
    assert_eq!(set.get("A"), None);
    assert_eq!(set.duplicate(), set);
}

#[test]
fn cookies_user_agent_and_credentials_win() {
    let mut config = config_for("http://example.test/", "GET");
    config.headers = Some(
        "{\"Authorization\": \"Bearer t\", \"Cookie\": \"old=1\", \"User-Agent\": \"old\", \"X-Keep\": \"k\"}"
            .to_string(),
    );
    config.cookies = Some(vec![
        Cookie { name: "sid".to_string(), value: "abc".to_string() },
        Cookie { name: "theme".to_string(), value: "dark".to_string() },
    ]);
    config.user_agent = Some("curlio/0.3".to_string());
    config.basic_auth =
        Some(BasicAuth { username: "alice".to_string(), password: "secret".to_string() });
    let request = compose(&config).unwrap();
    assert_eq!(request.headers.get("Cookie"), Some("sid=abc; theme=dark".to_string()));
    assert_eq!(request.headers.get("User-Agent"), Some("curlio/0.3".to_string()));
    assert_eq!(request.headers.get("Authorization"), None);
    assert_eq!(request.headers.get("X-Keep"), Some("k".to_string()));
    assert_eq!(request.headers.len(), 3);
    assert_eq!(
        request.auth,
        Some(BasicAuth { username: "alice".to_string(), password: "secret".to_string() })
    );
}

#[test]
fn explicit_authorization_stays_without_credentials() {
    let mut config = config_for("http://example.test/", "GET");
    config.headers = Some("{\"Authorization\": \"Bearer t\"}".to_string());
    let request = compose(&config).unwrap();
    assert_eq!(request.headers.get("Authorization"), Some("Bearer t".to_string()));
    assert_eq!(request.auth, None);
}

#[test]
fn cookie_header_is_appended_after_explicit_headers() {
    let mut config = config_for("http://example.test/", "GET");
    config.headers = Some("{\"A\": \"1\"}".to_string());
    config.cookies = Some(vec![Cookie { name: "a".to_string(), value: "b".to_string() }]);
    let request = compose(&config).unwrap();
    assert_eq!(request.headers.to_pairs(), vec![pair("A", "1"), pair("Cookie", "a=b")]);
}

#[test]
fn invalid_user_agent_or_cookie_refuses_the_request() {
    let mut config = config_for("http://example.test/", "GET");
    config.user_agent = Some("bad\nagent".to_string());
    assert_eq!(compose(&config), Err(ConfigError::InvalidHeader));
    let mut config = config_for("http://example.test/", "GET");
    config.cookies = Some(vec![Cookie { name: "a".to_string(), value: "\u{1}".to_string() }]);
    assert_eq!(compose(&config), Err(ConfigError::InvalidHeader));
}

#[test]
fn composing_twice_gives_equal_requests() {
    let mut config = config_for("http://example.test/a?b=c", "PUT");
    config.headers = Some("{\"A\": \"1\", \"B\": \"2\"}".to_string());
    config.body = Some("payload".to_string());
    config.user_agent = Some("ua".to_string());
    config.cookies = Some(vec![Cookie { name: "a".to_string(), value: "b".to_string() }]);
    let first = compose(&config).unwrap();
    let second = compose(&config).unwrap();
    assert_eq!(first, second);
    assert_eq!(first.duplicate(), first);
    let moved = first.with_url("http://other.test/");
    assert_eq!(moved.url, "http://other.test/");
    assert_eq!(moved.method, first.method);
    assert_eq!(moved.headers, first.headers);
    assert_eq!(moved.body, first.body);
}

#[test]
fn form_takes_the_place_of_the_body() {
    let mut config = config_for("http://example.test/upload", "POST");
    config.body = Some("raw".to_string());
    config.form_fields = Some(vec![
        FormField { name: "name".to_string(), value: "alice".to_string(), is_file: false },
        FormField { name: "avatar".to_string(), value: "./img/photo.png".to_string(), is_file: true },
    ]);
    let request = compose(&config).unwrap();
    assert_eq!(
        request.body,
        Body::Multipart(vec![
            FormPart::Text { name: "name".to_string(), value: "alice".to_string() },
            FormPart::File {
                name: "avatar".to_string(),
                path: "./img/photo.png".to_string(),
                filename: "photo.png".to_string(),
            },
        ])
    );
    config.form_fields = Some(vec![]);
    assert_eq!(compose(&config).unwrap().body, Body::Multipart(vec![]));
    config.form_fields = None;
    assert_eq!(compose(&config).unwrap().body, Body::Raw("raw".to_string()));
    config.body = None;
    assert_eq!(compose(&config).unwrap().body, Body::Empty);
}

#[test]
fn form_field_routing() {
    let existing = FormField { name: "f".to_string(), value: "/tmp/data.bin".to_string(), is_file: true };
    let missing = FormField { name: "f".to_string(), value: "/tmp/data.bin".to_string(), is_file: false };
    assert_eq!(
        form_part(&existing),
        FormPart::File {
            name: "f".to_string(),
            path: "/tmp/data.bin".to_string(),
            filename: "data.bin".to_string(),
        }
    );
    assert_eq!(
        form_part(&missing),
        FormPart::Text { name: "f".to_string(), value: "/tmp/data.bin".to_string() }
    );
    assert_eq!(form_parts(&vec![]), vec![]);
    assert_eq!(
        form_parts(&vec![missing.clone(), existing.clone()]),
        vec![form_part(&missing), form_part(&existing)]
    );
}

#[test]
fn basename_is_what_follows_the_last_slash() {
    assert_eq!(basename_of("photo.png"), "photo.png");
    assert_eq!(basename_of("./photo.png"), "photo.png");
    assert_eq!(basename_of("/a/b/c.txt"), "c.txt");
    assert_eq!(basename_of("a/b/"), "");
    assert_eq!(basename_of(""), "");
    assert_eq!(basename_of("/"), "");
    assert_eq!(basename_of("d\u{e9}j\u{e0}/vu\u{e9}"), "vu\u{e9}");
}

#[test]
fn form_document_gives_its_string_members() {
    let mut entries = form_entries("{\"name\": \"alice\", \"avatar\": \"./photo.png\", \"age\": 3, \"x\": null}").unwrap();
    entries.sort();
    assert_eq!(entries, vec![pair("avatar", "./photo.png"), pair("name", "alice")]);
    assert_eq!(form_entries("[\"a\"]"), Ok(vec![]));
    assert_eq!(form_entries("{}"), Ok(vec![]));
    assert_eq!(form_entries("{"), Err(ConfigError::MalformedJson));
}

#[test]
fn cookies_are_loaded_in_file_order() {
    let cookies = parse_cookies(
        "[{\"name\": \"b\", \"value\": \"2\"}, {\"value\": \"1\", \"name\": \"a\", \"path\": \"/\"}]",
    )
    .unwrap();
    assert_eq!(
        cookies,
        vec![
            Cookie { name: "b".to_string(), value: "2".to_string() },
            Cookie { name: "a".to_string(), value: "1".to_string() },
        ]
    );
    assert_eq!(cookie_header(&cookies), "b=2; a=1");
    assert_eq!(cookie_header(&cookies[..1].to_vec()), "b=2");
    assert_eq!(cookie_header(&vec![]), "");
    assert_eq!(parse_cookies("[]"), Ok(vec![]));
}

#[test]
fn cookie_document_errors() {
    assert_eq!(parse_cookies("[{"), Err(ConfigError::MalformedJson));
    assert_eq!(parse_cookies("{\"name\": \"a\", \"value\": \"1\"}"), Err(ConfigError::InvalidCookie));
    assert_eq!(parse_cookies("[{\"name\": \"a\"}]"), Err(ConfigError::InvalidCookie));
    assert_eq!(parse_cookies("[{\"name\": \"a\", \"value\": 1}]"), Err(ConfigError::InvalidCookie));
    assert_eq!(parse_cookies("[\"a=1\"]"), Err(ConfigError::InvalidCookie));
    assert_eq!(
        parse_cookies("[{\"name\": \"a\", \"value\": \"1\"}, 7]"),
        Err(ConfigError::InvalidCookie)
    );
}

#[test]
fn cookie_file_that_cannot_be_read() {
    assert_eq!(load_cookies(None), Err(ConfigError::UnreadableFile));
    assert_eq!(
        load_cookies(Some("[{\"name\": \"a\", \"value\": \"1\"}]")),
        Ok(vec![Cookie { name: "a".to_string(), value: "1".to_string() }])
    );
    assert_eq!(load_cookies(Some("oops")), Err(ConfigError::MalformedJson));
}

#[test]
fn urls_are_split_on_commas() {
    assert_eq!(split_urls("http://a.test,http://b.test"), vec!["http://a.test", "http://b.test"]);
    assert_eq!(split_urls("http://a.test"), vec!["http://a.test"]);
    assert_eq!(split_urls(""), vec![""]);
    assert_eq!(split_urls("a,,b,"), vec!["a", "", "b", ""]);
}

#[test]
fn credentials_are_split_on_colons() {
    assert_eq!(
        split_credentials("alice:secret"),
        Ok(BasicAuth { username: "alice".to_string(), password: "secret".to_string() })
    );
    assert_eq!(
        split_credentials("alice:se:cret"),
        Ok(BasicAuth { username: "alice".to_string(), password: "se".to_string() })
    );
    assert_eq!(
        split_credentials(":"),
        Ok(BasicAuth { username: "".to_string(), password: "".to_string() })
    );
    assert_eq!(split_credentials("alice"), Err(ConfigError::MalformedCredentials));
    assert_eq!(split_credentials(""), Err(ConfigError::MalformedCredentials));
}

#[test]
fn errors_have_messages() {
    assert_eq!(ConfigError::UnsupportedMethod.message(), "Unsupported method!");
    assert_eq!(ConfigError::InvalidHeader.message(), "Invalid header name or value");
    assert_eq!(ConfigError::MalformedJson.message(), "Malformed JSON");
    assert_eq!(ConfigError::MalformedProxy.message(), "Malformed proxy URL");
    assert_eq!(ConfigError::InvalidCookie.message(), "Invalid cookie file");
    assert_eq!(ConfigError::MalformedCredentials.message(), "Credentials must be username:password");
    assert_eq!(ConfigError::UnreadableFile.message(), "Cannot read file");
}

#[test]
fn a_new_description_is_a_plain_get() {
    let config = RequestConfig::new("http://example.test/");
    let request: ComposedRequest = compose(&config).unwrap();
    assert_eq!(request.method, Method::Get);
    assert_eq!(request.url, "http://example.test/");
    assert_eq!(request.headers.len(), 0);
    assert_eq!(request.body, Body::Empty);
    assert_eq!(request.auth, None);
    assert_eq!(config.retry_count, 0);
}

use std::sync::atomic::AtomicBool;
use std::sync::mpsc;
use std::sync::Arc;

use ghosty::config_proxy::{
    parse_config_request, parse_headers, push_head_chunk, request_path, request_text,
    response_bytes, rewrite_config_with_affinity, send_patched_server_if_running, ConfigError,
    HeadProgress, PatchedChatServer, JSON_CONTENT_TYPE, LOCALHOST_DOMAIN, MAX_HEADER_BYTES,
    TEXT_CONTENT_TYPE,
};
use ghosty::json::{JsonNumber, JsonValue};

/// Reads a request head from `input` as the proxy does: chunks of 2048
/// bytes, then the end of the input.
fn read_http_headers(input: &[u8]) -> HeadProgress {
    let mut bytes = Vec::new();
    let mut chunks = input.chunks(2048);
    loop {
        let chunk = chunks.next().unwrap_or(&[]);
        match push_head_chunk(&mut bytes, chunk) {
            HeadProgress::NeedMore => continue,
            other => return other,
        }
    }
}

fn s(text: &str) -> JsonValue {
    JsonValue::Str(text.to_string())
}

fn n(value: u64) -> JsonValue {
    JsonValue::Number(JsonNumber::Unsigned(value))
}

fn obj(members: Vec<(&str, JsonValue)>) -> JsonValue {
    JsonValue::Object(members.into_iter().map(|(k, v)| (k.to_string(), v)).collect())
}

fn str_at<'a>(value: &'a JsonValue, path: &[&str]) -> Option<&'a str> {
    let mut current = value;
    for key in path {
        current = current.get(key)?;
    }
    match current {
        JsonValue::Str(text) => Some(text.as_str()),
        _ => None,
    }
}

fn u64_at(value: &JsonValue, path: &[&str]) -> Option<u64> {
    let mut current = value;
    for key in path {
        current = current.get(key)?;
    }
    current.as_u64()
}

fn same(a: &JsonValue, b: &JsonValue) -> bool {
    format!("{a:?}") == format!("{b:?}")
}

fn contains_bytes(haystack: &[u8], needle: &[u8]) -> bool {
    haystack.windows(needle.len()).any(|window| window == needle)
}

#[test]
fn request_path_accepts_origin_form_target() {
    assert_eq!(
        request_path("GET /api/v1/config/player?region=NA HTTP/1.1").expect("request path should parse"),
        "/api/v1/config/player?region=NA"
    );
}

#[test]
fn request_path_accepts_public_config_with_namespace_query() {
    assert_eq!(
        request_path("GET /api/v1/config/public?region=NA&namespace=keystone.self_update HTTP/1.1")
            .expect("request path should parse"),
        "/api/v1/config/public?region=NA&namespace=keystone.self_update"
    );
}

#[test]
fn request_path_accepts_absolute_form_target() {
    assert_eq!(
        request_path("GET http://clientconfig.rpg.riotgames.com/api/v1/config/public?region=NA HTTP/1.1")
            .expect("request path should parse"),
        "/api/v1/config/public?region=NA"
    );
}

#[test]
fn request_path_accepts_absolute_form_target_with_port_and_mixed_case_host() {
    assert_eq!(
        request_path(
            "GET https://ClientConfig.RPG.RiotGames.com:443/api/v1/config/public?region=NA HTTP/1.1"
        )
        .expect("request path should parse"),
        "/api/v1/config/public?region=NA"
    );
}

#[test]
fn request_path_rejects_unsupported_method() {
    assert!(request_path("POST /api/v1/config/player HTTP/1.1").is_err());
}

#[test]
fn request_path_rejects_invalid_http_version() {
    assert!(request_path("GET /api/v1/config/player HTTP/not-a-version").is_err());
    assert!(request_path("GET /api/v1/config/player FTP/1.0").is_err());
}

#[test]
fn request_path_rejects_scheme_relative_origin_target() {
    assert!(request_path("GET //example.com/api/v1/config/player HTTP/1.1").is_err());
}

#[test]
fn request_path_rejects_targets_with_fragments() {
    assert!(request_path("GET /api/v1/config/player?region=NA#fragment HTTP/1.1").is_err());
    assert!(request_path(
        "GET https://clientconfig.rpg.riotgames.com/api/v1/config/public#fragment HTTP/1.1"
    )
    .is_err());
}

#[test]
fn request_path_rejects_malformed_absolute_target() {
    assert!(request_path("GET http://clientconfig.rpg.riotgames.com HTTP/1.1").is_err());
}

#[test]
fn request_path_rejects_unknown_target_form() {
    assert!(request_path("GET clientconfig.rpg.riotgames.com/api/v1/config HTTP/1.1").is_err());
}

#[test]
fn request_path_rejects_unrelated_origin_form_path() {
    assert!(request_path("GET /favicon.ico HTTP/1.1").is_err());
    assert!(request_path("GET /api/v1/other/player HTTP/1.1").is_err());
}

#[test]
fn request_path_rejects_absolute_form_target_for_wrong_host() {
    assert!(request_path("GET https://example.com/api/v1/config/public HTTP/1.1").is_err());
}

#[test]
fn request_path_rejects_absolute_form_target_with_userinfo() {
    assert!(request_path(
        "GET https://user@clientconfig.rpg.riotgames.com/api/v1/config/public HTTP/1.1"
    )
    .is_err());
}

#[test]
fn response_text_includes_status_headers_and_body_length() {
    let response = String::from_utf8(response_bytes(400, "Bad Request", TEXT_CONTENT_TYPE, b"Bad Request"))
        .expect("response should be utf8");

    assert!(response.starts_with("HTTP/1.1 400 Bad Request\r\n"));
    assert!(response.contains("Content-Type: text/plain; charset=utf-8\r\n"));
    assert!(response.contains("Content-Length: 11\r\n"));
    assert!(response.ends_with("\r\n\r\nBad Request"));
}

#[test]
fn response_json_includes_json_content_type() {
    let response = String::from_utf8(response_bytes(200, "OK", JSON_CONTENT_TYPE, b"{}"))
        .expect("response should be utf8");

    assert!(response.starts_with("HTTP/1.1 200 OK\r\n"));
    assert!(response.contains("Content-Type: application/json\r\n"));
    assert!(response.contains("Content-Length: 2\r\n"));
    assert!(response.ends_with("\r\n\r\n{}"));
}

#[test]
fn response_bytes_preserves_custom_content_type() {
    let response = String::from_utf8(response_bytes(
        502,
        "Bad Gateway",
        "text/html; charset=utf-8",
        b"<h1>bad</h1>",
    ))
    .expect("response should be utf8");

    assert!(response.starts_with("HTTP/1.1 502 Bad Gateway\r\n"));
    assert!(response.contains("Content-Type: text/html; charset=utf-8\r\n"));
    assert!(response.contains("Content-Length: 12\r\n"));
    assert!(response.ends_with("\r\n\r\n<h1>bad</h1>"));
}

#[test]
fn response_bytes_uses_body_byte_length() {
    let body = "é".as_bytes();
    let response = response_bytes(200, "OK", JSON_CONTENT_TYPE, body);
    let header = String::from_utf8(
        response
            .split(|byte| *byte == b'\n')
            .take(4)
            .flat_map(|line| line.iter().copied().chain([b'\n']))
            .collect(),
    )
    .expect("headers should be utf8");

    assert!(header.contains("Content-Length: 2\r\n"));
    assert!(response.ends_with(body));
}

#[test]
fn response_bytes_preserves_non_utf8_body() {
    let body = &[0xff, 0xfe, 0x00, b'a'];
    let response = response_bytes(502, "Bad Gateway", "application/octet-stream", body);

    assert!(contains_bytes(&response, b"Content-Type: application/octet-stream\r\n"));
    assert!(contains_bytes(&response, b"Content-Length: 4\r\n"));
    assert!(response.ends_with(body));
}

#[test]
fn read_http_headers_stops_after_header_terminator() {
    let headers = match read_http_headers(b"GET / HTTP/1.1\r\nHost: local\r\n\r\nignored") {
        HeadProgress::Complete(head) => head,
        other => panic!("headers should read, got {other:?}"),
    };

    assert_eq!(headers, b"GET / HTTP/1.1\r\nHost: local\r\n\r\n");
}

#[test]
fn read_http_headers_rejects_eof_without_header_terminator() {
    let error = read_http_headers(b"GET / HTTP/1.1\r\nHost: local");

    assert!(matches!(error, HeadProgress::Incomplete));
}

#[test]
fn read_http_headers_rejects_empty_eof() {
    let error = read_http_headers(&[]);

    assert!(matches!(error, HeadProgress::Incomplete));
}

#[test]
fn request_text_accepts_valid_utf8_headers() {
    let request =
        request_text(b"GET / HTTP/1.1\r\nUser-Agent: Riot\r\n\r\n").expect("valid request text should parse");

    assert!(request.contains("User-Agent: Riot"));
}

#[test]
fn request_text_rejects_invalid_utf8_headers() {
    let error = request_text(b"GET / HTTP/1.1\r\nAuthorization: \xFF\r\n\r\n")
        .expect_err("invalid request text should fail");

    assert!(error.message().contains("not valid UTF-8"));
}

#[test]
fn read_http_headers_rejects_oversized_headers() {
    let input = vec![b'a'; MAX_HEADER_BYTES + 1];

    let error = read_http_headers(&input);

    assert!(matches!(error, HeadProgress::TooLarge));
}

#[test]
fn parse_headers_normalizes_names_and_trims_values() {
    let headers = parse_headers(&["User-Agent:  RiotClient  ", "X-Riot-Entitlements-JWT: token"]);

    assert_eq!(headers.get("user-agent").map(String::as_str), Some("RiotClient"));
    assert_eq!(headers.get("x-riot-entitlements-jwt").map(String::as_str), Some("token"));
}

#[test]
fn parse_headers_ignores_blank_values() {
    let headers = parse_headers(&["Authorization:", "X-Riot-Entitlements-JWT:   ", "User-Agent: Riot"]);

    assert!(!headers.contains_key("authorization"));
    assert!(!headers.contains_key("x-riot-entitlements-jwt"));
    assert_eq!(headers.get("user-agent").map(String::as_str), Some("Riot"));
}

#[test]
fn parse_headers_preserves_first_duplicate_value() {
    let headers = parse_headers(&[
        "Authorization: Bearer real-token",
        "authorization: Bearer replacement",
        "Authorization:",
    ]);

    assert_eq!(headers.get("authorization").map(String::as_str), Some("Bearer real-token"));
}

#[test]
fn parse_headers_uses_first_nonblank_duplicate_value() {
    let headers = parse_headers(&[
        "Authorization:",
        "authorization:   ",
        "Authorization: Bearer real-token",
        "authorization: Bearer replacement",
    ]);

    assert_eq!(headers.get("authorization").map(String::as_str), Some("Bearer real-token"));
}

#[test]
fn send_patched_server_skips_stopped_runtime() {
    let running = Arc::new(AtomicBool::new(false));
    let (tx, rx) = mpsc::channel();

    send_patched_server_if_running(
        &running,
        &tx,
        PatchedChatServer { host: "na2.chat.si.riotgames.com".to_string(), port: 5223, affinity: None },
    );

    assert!(rx.try_recv().is_err());
}

#[test]
fn send_patched_server_forwards_active_runtime() {
    let running = Arc::new(AtomicBool::new(true));
    let (tx, rx) = mpsc::channel();

    send_patched_server_if_running(
        &running,
        &tx,
        PatchedChatServer { host: "na2.chat.si.riotgames.com".to_string(), port: 5223, affinity: None },
    );

    let server = rx.recv().expect("server should be sent");
    assert_eq!(server.host, "na2.chat.si.riotgames.com");
    assert_eq!(server.port, 5223);
}

#[test]
fn rewrite_config_patches_chat_host_and_port() {
    let mut config = obj(vec![("chat.host", s("na2.chat.si.riotgames.com")), ("chat.port", n(5223))]);

    let server = rewrite_config_with_affinity(&mut config, 49232, None).expect("server should be detected");

    assert_eq!(server.host, "na2.chat.si.riotgames.com");
    assert_eq!(server.port, 5223);
    assert_eq!(str_at(&config, &["chat.host"]), Some(LOCALHOST_DOMAIN));
    assert_eq!(u64_at(&config, &["chat.port"]), Some(49232));
}

#[test]
fn rewrite_config_accepts_string_chat_port() {
    let mut config = obj(vec![("chat.host", s("na2.chat.si.riotgames.com")), ("chat.port", s("5223"))]);

    let server = rewrite_config_with_affinity(&mut config, 49232, None).expect("server should be detected");

    assert_eq!(server.host, "na2.chat.si.riotgames.com");
    assert_eq!(server.port, 5223);
    assert_eq!(str_at(&config, &["chat.host"]), Some(LOCALHOST_DOMAIN));
    assert_eq!(u64_at(&config, &["chat.port"]), Some(49232));
}

#[test]
fn rewrite_config_trims_chat_host_values() {
    let mut config = obj(vec![("chat.host", s("  na2.chat.si.riotgames.com  ")), ("chat.port", n(5223))]);

    let server = rewrite_config_with_affinity(&mut config, 49232, None).expect("server should be detected");

    assert_eq!(server.host, "na2.chat.si.riotgames.com");
    assert_eq!(server.port, 5223);
    assert_eq!(str_at(&config, &["chat.host"]), Some(LOCALHOST_DOMAIN));
    assert_eq!(u64_at(&config, &["chat.port"]), Some(49232));
}

#[test]
fn rewrite_config_rejects_invalid_chat_port_values() {
    for port in [s("not-a-port"), s("0"), s("70000"), n(0), n(70000)] {
        let mut config = obj(vec![("chat.host", s("na2.chat.si.riotgames.com")), ("chat.port", port)]);
        let original = format!("{config:?}");

        assert!(rewrite_config_with_affinity(&mut config, 49232, None).is_none());
        assert_eq!(format!("{config:?}"), original);
    }
}

#[test]
fn rewrite_config_rejects_blank_chat_host_values() {
    for host in [s(""), s("   ")] {
        let mut config = obj(vec![("chat.host", host), ("chat.port", n(5223))]);
        let original = format!("{config:?}");

        assert!(rewrite_config_with_affinity(&mut config, 49232, None).is_none());
        assert_eq!(format!("{config:?}"), original);
    }
}

#[test]
fn rewrite_config_leaves_config_unmodified_without_valid_server() {
    let mut config = obj(vec![
        ("chat.affinities", obj(vec![("na", s("")), ("pbe", n(2))])),
        ("chat.host", s("   ")),
        ("chat.port", s("0")),
    ]);
    let original = format!("{config:?}");

    assert!(rewrite_config_with_affinity(&mut config, 49232, None).is_none());
    assert_eq!(format!("{config:?}"), original);
}

#[test]
fn rewrite_config_prefers_configured_affinity_host() {
    let mut config = obj(vec![
        (
            "chat.affinities",
            obj(vec![("na", s("na2.chat.si.riotgames.com")), ("pbe", s("pbe1.chat.si.riotgames.com"))]),
        ),
        ("chat.host", s("fallback.chat.si.riotgames.com")),
        ("chat.port", n(5223)),
    ]);

    let server = rewrite_config_with_affinity(&mut config, 49232, Some("na")).expect("server should be detected");

    assert_eq!(server.host, "na2.chat.si.riotgames.com");
    assert_eq!(server.port, 5223);
    assert_eq!(str_at(&config, &["chat.host"]), Some(LOCALHOST_DOMAIN));
    assert_eq!(str_at(&config, &["chat.affinities", "na"]), Some(LOCALHOST_DOMAIN));
    assert_eq!(str_at(&config, &["chat.affinities", "pbe"]), Some(LOCALHOST_DOMAIN));
}

#[test]
fn rewrite_config_uses_chat_host_when_affinity_is_not_in_config() {
    let mut config = obj(vec![
        (
            "chat.affinities",
            obj(vec![("na", s("na2.chat.si.riotgames.com")), ("pbe", s("pbe1.chat.si.riotgames.com"))]),
        ),
        ("chat.host", s("fallback.chat.si.riotgames.com")),
        ("chat.port", n(5223)),
    ]);

    let server =
        rewrite_config_with_affinity(&mut config, 49232, Some("missing")).expect("server should be detected");

    assert_eq!(server.host, "fallback.chat.si.riotgames.com");
    assert_eq!(server.port, 5223);
    assert_eq!(str_at(&config, &["chat.host"]), Some(LOCALHOST_DOMAIN));
    assert_eq!(str_at(&config, &["chat.affinities", "na"]), Some(LOCALHOST_DOMAIN));
    assert_eq!(str_at(&config, &["chat.affinities", "pbe"]), Some(LOCALHOST_DOMAIN));
}

#[test]
fn rewrite_config_uses_config_host_even_when_affinity_name_differs() {
    let mut config = obj(vec![
        ("chat.affinities", obj(vec![("na1", s("na2.chat.si.riotgames.com"))])),
        ("chat.host", s("na2.chat.si.riotgames.com")),
        ("chat.port", n(5223)),
    ]);

    let server = rewrite_config_with_affinity(&mut config, 49232, Some("na1")).expect("server should be detected");

    assert_eq!(server.host, "na2.chat.si.riotgames.com");
    assert_eq!(server.affinity.as_deref(), Some("na1"));
    assert_eq!(server.port, 5223);
    assert_eq!(str_at(&config, &["chat.host"]), Some(LOCALHOST_DOMAIN));
    assert_eq!(str_at(&config, &["chat.affinities", "na1"]), Some(LOCALHOST_DOMAIN));
}

#[test]
fn rewrite_config_falls_back_to_chat_host_for_invalid_affinity_name() {
    let mut config = obj(vec![
        ("chat.affinities", obj(vec![("na", s("na2.chat.si.riotgames.com"))])),
        ("chat.host", s("fallback.chat.si.riotgames.com")),
        ("chat.port", n(5223)),
    ]);

    let server =
        rewrite_config_with_affinity(&mut config, 49232, Some("bad.host")).expect("server should be detected");

    assert_eq!(server.host, "fallback.chat.si.riotgames.com");
    assert_eq!(server.port, 5223);
    assert_eq!(str_at(&config, &["chat.host"]), Some(LOCALHOST_DOMAIN));
    assert_eq!(str_at(&config, &["chat.affinities", "na"]), Some(LOCALHOST_DOMAIN));
}

#[test]
fn rewrite_config_preserves_non_string_affinity_metadata() {
    let mut config = obj(vec![
        (
            "chat.affinities",
            obj(vec![
                ("enabled", JsonValue::Bool(true)),
                ("metadata", obj(vec![("source", s("riot"))])),
                ("na", s("na2.chat.si.riotgames.com")),
                ("priority", n(2)),
            ]),
        ),
        ("chat.host", s("fallback.chat.si.riotgames.com")),
        ("chat.port", n(5223)),
    ]);

    let server = rewrite_config_with_affinity(&mut config, 49232, Some("na")).expect("server should be detected");

    assert_eq!(server.host, "na2.chat.si.riotgames.com");
    assert_eq!(str_at(&config, &["chat.affinities", "na"]), Some(LOCALHOST_DOMAIN));
    let affinities = config.get("chat.affinities").expect("affinities should stay");
    assert_eq!(affinities.get("enabled").and_then(JsonValue::as_bool), Some(true));
    assert_eq!(u64_at(&config, &["chat.affinities", "priority"]), Some(2));
    assert!(same(
        affinities.get("metadata").expect("metadata should stay"),
        &obj(vec![("source", s("riot"))])
    ));
}

#[test]
fn rewrite_config_uses_any_affinity_when_chat_host_is_missing() {
    let mut config = obj(vec![
        ("chat.affinities", obj(vec![("na", s("na2.chat.si.riotgames.com"))])),
        ("chat.port", n(5223)),
    ]);

    let server = rewrite_config_with_affinity(&mut config, 49232, None)
        .expect("server should be detected from affinities");

    assert_eq!(server.host, "na2.chat.si.riotgames.com");
    assert_eq!(server.port, 5223);
    assert!(config.get("chat.host").is_none());
    assert_eq!(u64_at(&config, &["chat.port"]), Some(49232));
    assert_eq!(str_at(&config, &["chat.affinities", "na"]), Some(LOCALHOST_DOMAIN));
}

#[test]
fn rewrite_config_skips_blank_affinity_hosts() {
    let mut config = obj(vec![
        ("chat.affinities", obj(vec![("latam", s("la1.chat.si.riotgames.com")), ("na", s("")), ("pbe", s("   "))])),
        ("chat.port", n(5223)),
    ]);

    let server = rewrite_config_with_affinity(&mut config, 49232, None)
        .expect("server should be detected from first nonblank affinity");

    assert_eq!(server.host, "la1.chat.si.riotgames.com");
    assert_eq!(server.port, 5223);
    assert_eq!(str_at(&config, &["chat.affinities", "na"]), Some(LOCALHOST_DOMAIN));
    assert_eq!(str_at(&config, &["chat.affinities", "pbe"]), Some(LOCALHOST_DOMAIN));
    assert_eq!(str_at(&config, &["chat.affinities", "latam"]), Some(LOCALHOST_DOMAIN));
}

#[test]
fn rewrite_config_trims_affinity_hosts() {
    let mut config = obj(vec![
        ("chat.affinities", obj(vec![("na", s("  na2.chat.si.riotgames.com  "))])),
        ("chat.port", n(5223)),
    ]);

    let server =
        rewrite_config_with_affinity(&mut config, 49232, None).expect("server should be detected from affinity");

    assert_eq!(server.host, "na2.chat.si.riotgames.com");
    assert_eq!(server.port, 5223);
    assert_eq!(str_at(&config, &["chat.affinities", "na"]), Some(LOCALHOST_DOMAIN));
}

#[test]
fn rewrite_config_keeps_unknown_config_unmodified() {
    let mut config = obj(vec![("some.other.key", JsonValue::Bool(true))]);

    assert!(rewrite_config_with_affinity(&mut config, 49232, None).is_none());
    assert!(same(&config, &obj(vec![("some.other.key", JsonValue::Bool(true))])));
}

#[test]
fn config_request_reads_path_and_headers() {
    let head = b"GET /api/v1/config/player?region=NA HTTP/1.1\r\nUser-Agent: Riot\r\n\r\n";

    let request = parse_config_request(head).expect("request should parse");

    assert_eq!(request.path, "/api/v1/config/player?region=NA");
    assert_eq!(request.headers.get("user-agent").map(String::as_str), Some("Riot"));
}

#[test]
fn config_request_rejects_empty_head() {
    assert!(matches!(parse_config_request(b""), Err(ConfigError::EmptyRequest)));
}

use ometa::client::{
    bearer_header, decode_message, failure_message, empty_quality_result, empty_search_result, exhausted_message,
    lineage_request, next_attempt, normalize_host, quality_request, respond, search_request,
    status_text, status_text_with, table_request, unreachable_message, url, urlencode, ClientError, Outcome,
    MAX_ATTEMPTS,
};
use ometa::commands::search::search_rows;
use ometa::json::Json;
use ometa::spec::openapi_request;

fn fail_text(o: Outcome) -> String {
    match o {
        Outcome::Fail(m) => m,
        other => panic!("expected a failure, got {:?}", other),
    }
}

fn pairs(q: &[(String, String)]) -> Vec<(&str, &str)> {
    q.iter().map(|(a, b)| (a.as_str(), b.as_str())).collect()
}

#[test]
fn url_handles_leading_slash() {
    let host = normalize_host("https://h/api");
    assert_eq!(url(&host, "/api/v1/x"), "https://h/api/v1/x");
    assert_eq!(url(&host, "/v1/x"), "https://h/api/v1/x");
    assert_eq!(url(&host, "v1/x"), "https://h/api/v1/x");
}

#[test]
fn url_on_host_with_trailing_slashes() {
    let host = normalize_host("https://h/api//");
    assert_eq!(host, "https://h/api");
    assert_eq!(url(&host, "/api/v1/tables"), "https://h/api/v1/tables");
    assert_eq!(url("https://h/api/api", "/api/v1"), "https://h/api/v1");
    assert_eq!(url("https://h", "v1"), "https://h/v1");
}

#[test]
fn urlencode_keeps_safe_chars() {
    assert_eq!(urlencode("a.b.c"), "a.b.c");
    assert_eq!(urlencode("a b"), "a%20b");
}

#[test]
fn urlencode_writes_utf8_bytes_in_upper_hex() {
    assert_eq!(urlencode("svc:db/t"), "svc:db/t");
    assert_eq!(urlencode("é"), "%C3%A9");
    assert_eq!(urlencode("€"), "%E2%82%AC");
    assert_eq!(urlencode("😀"), "%F0%9F%98%80");
    assert_eq!(urlencode("a\"b"), "a%22b");
    assert_eq!(urlencode(""), "");
}

#[test]
fn bearer_header_accepts_plain_tokens() {
    assert_eq!(bearer_header("abc.def").unwrap(), "Bearer abc.def");
    assert_eq!(bearer_header("tab\tok").unwrap(), "Bearer tab\tok");
}

#[test]
fn bearer_header_rejects_control_characters() {
    assert_eq!(bearer_header("bad\ntoken"), Err(ClientError::InvalidToken));
    assert_eq!(bearer_header("del\u{7f}").unwrap_err().message(), "invalid token characters");
}

#[test]
fn search_request_lists_parameters_in_order() {
    let r = search_request("orders", "table_search_index", 25);
    assert_eq!(r.path, "/api/v1/search/query");
    assert_eq!(
        pairs(&r.query),
        vec![("q", "orders"), ("index", "table_search_index"), ("limit", "25")]
    );
}

#[test]
fn table_request_encodes_the_name() {
    let r = table_request("svc.db.my table", "id");
    assert_eq!(r.path, "/api/v1/tables/name/svc.db.my%20table");
    assert_eq!(pairs(&r.query), vec![("fields", "id")]);
}

#[test]
fn lineage_request_gives_both_depths() {
    let r = lineage_request("abc-123", 2, 0);
    assert_eq!(r.path, "/api/v1/lineage/table/abc-123");
    assert_eq!(pairs(&r.query), vec![("upstreamDepth", "2"), ("downstreamDepth", "0")]);
}

#[test]
fn quality_request_links_the_entity() {
    let r = quality_request("a.b");
    assert_eq!(r.path, "/api/v1/dataQuality/testSuites");
    assert_eq!(
        pairs(&r.query),
        vec![("entityLink", "<#E::table::a.b>"), ("fields", "tests,testCaseResults")]
    );
}

#[test]
fn search_returns_empty_on_404() {
    assert!(matches!(respond("u", 0, 404, None), Outcome::NotFound));
    let v = empty_search_result();
    assert_eq!(search_rows(&v).len(), 0);
    match &v {
        Json::Object(e) => assert_eq!(e[0].0, "hits"),
        _ => panic!("not an object"),
    }
}

#[test]
fn empty_quality_result_has_no_suites() {
    match empty_quality_result() {
        Json::Object(e) => {
            assert_eq!(e.len(), 1);
            assert_eq!(e[0].0, "data");
            assert!(matches!(&e[0].1, Json::Array(a) if a.is_empty()));
        }
        _ => panic!("not an object"),
    }
}

#[test]
fn search_unauthorized_yields_clear_error() {
    let err = fail_text(respond("http://x/api/v1/search/query", 0, 401, None));
    assert!(err.contains("OPENMETADATA_JWT_TOKEN"));
    assert_eq!(
        err,
        "401 Unauthorized from http://x/api/v1/search/query. Check OPENMETADATA_JWT_TOKEN (Settings -> Bots -> ingestion-bot)."
    );
}

#[test]
fn fetch_openapi_handles_missing_endpoint() {
    let r = openapi_request();
    assert_eq!(r.path, "/api/v1/system/version");
    assert!(r.query.is_empty());
    assert!(matches!(respond("u", 0, 404, None), Outcome::NotFound));
}

#[test]
fn success_statuses_decode() {
    assert!(matches!(respond("u", 0, 200, None), Outcome::Decode));
    assert!(matches!(respond("u", 2, 204, None), Outcome::Decode));
}

#[test]
fn throttling_honors_retry_after() {
    assert!(matches!(respond("u", 0, 429, Some("7")), Outcome::Wait(7)));
    assert!(matches!(respond("u", 1, 429, Some("+3")), Outcome::Wait(3)));
    assert!(matches!(respond("u", 1, 429, Some("0")), Outcome::Wait(1)));
}

#[test]
fn throttling_backs_off_exponentially_without_retry_after() {
    assert!(matches!(respond("u", 0, 429, None), Outcome::Wait(1)));
    assert!(matches!(respond("u", 1, 429, Some("soon")), Outcome::Wait(2)));
    assert!(matches!(respond("u", 2, 429, Some("")), Outcome::Wait(4)));
    assert!(matches!(
        respond("u", 2, 429, Some("99999999999999999999")),
        Outcome::Wait(4)
    ));
}

#[test]
fn server_errors_retry_then_fail_with_host_hint() {
    assert!(matches!(respond("u", 0, 503, None), Outcome::Wait(1)));
    assert!(matches!(respond("u", 1, 500, None), Outcome::Wait(2)));
    assert!(matches!(respond("u", 2, 500, None), Outcome::Report));
    assert_eq!(
        failure_message("http://h/x", 500, "boom"),
        "500 Internal Server Error from http://h/x. Check OPENMETADATA_HOST or service health.\nboom"
    );
}

#[test]
fn server_error_body_is_cut_to_300_characters() {
    let body: String = std::iter::repeat('é').take(400).collect();
    let expected = format!(
        "502 Bad Gateway from u. Check OPENMETADATA_HOST or service health.\n{}",
        "é".repeat(300)
    );
    assert_eq!(failure_message("u", 502, &body), expected);
}

#[test]
fn other_statuses_fail_with_the_body() {
    assert!(matches!(respond("u", 0, 403, None), Outcome::Report));
    assert!(matches!(respond("u", 0, 302, None), Outcome::Report));
    assert_eq!(failure_message("http://h/x", 403, "denied"), "403 Forbidden from http://h/x: denied");
    assert_eq!(failure_message("http://h/x", 302, ""), "302 Found from http://h/x: ");
    assert!(failure_message("http://h/x", 599, "x").starts_with("599 <unknown status code> from http://h/x."));
}

#[test]
fn status_text_uses_the_reason_phrase() {
    assert_eq!(status_text(500), "500 Internal Server Error");
    assert_eq!(status_text(418), "418 I'm a teapot");
    assert_eq!(status_text(799), "799 <unknown status code>");
}

#[test]
fn attempts_are_bounded() {
    assert_eq!(MAX_ATTEMPTS, 3);
    assert_eq!(next_attempt(0), Some(1));
    assert_eq!(next_attempt(1), Some(2));
    assert_eq!(next_attempt(2), None);
}

#[test]
fn messages_name_the_url() {
    assert_eq!(exhausted_message("http://h/x"), "exceeded retries calling http://h/x");
    assert_eq!(
        unreachable_message("http://h/x", "refused"),
        "could not reach OpenMetadata at http://h/x: refused. Try `ometa configure` to verify your host."
    );
    assert_eq!(decode_message("http://h/x", "eof"), "decoding response from http://h/x: eof");
}

#[test]
fn status_text_with_a_given_reason() {
    assert_eq!(status_text_with(404, Some("Not Found")), "404 Not Found");
    assert_eq!(status_text_with(999, None), "999 <unknown status code>");
}

fn percent_decode(t: &str) -> Vec<u8> {
    let b = t.as_bytes();
    let mut out = Vec::new();
    let mut i = 0;
    while i < b.len() {
        if b[i] == b'%' && i + 2 < b.len() {
            let hex = std::str::from_utf8(&b[i + 1..i + 3]).unwrap();
            if let Ok(v) = u8::from_str_radix(hex, 16) {
                out.push(v);
                i += 3;
                continue;
            }
        }
        out.push(b[i]);
        i += 1;
    }
    out
}

#[test]
fn percent_decoding_gives_the_text_back() {
    for s in ["a b", "100%", "%41", "svc:db/t", "é€😀", "", "a%2Fb"] {
        for path_chars in [true, false] {
            let enc = ometa::client::percent_encode_str(s, path_chars);
            assert!(enc.is_ascii());
            assert_eq!(String::from_utf8(percent_decode(&enc)).unwrap(), s);
        }
    }
    assert_eq!(urlencode("%"), "%25");
}

#[test]
fn name_encoding_also_escapes_slash_and_colon() {
    for s in ["svc:db/t x", "a/b/c", "::", "plain", "é/:"] {
        assert_eq!(
            ometa::commands::patch::urlencode_fqn(s),
            urlencode(s).replace('/', "%2F").replace(':', "%3A")
        );
    }
}

#[test]
fn a_request_is_sent_at_most_three_times() {
    for status in [429u16, 500, 503] {
        let mut attempt: u32 = 0;
        let mut sends = 0;
        loop {
            sends += 1;
            match respond("u", attempt, status, None) {
                Outcome::Wait(_) => match next_attempt(attempt) {
                    Some(n) => attempt = n,
                    None => break,
                },
                _ => break,
            }
        }
        assert_eq!(sends, 3);
    }
}

#[test]
fn empty_search_result_is_exactly_nested_hits() {
    match empty_search_result() {
        Json::Object(e) => {
            assert_eq!(e.len(), 1);
            assert_eq!(e[0].0, "hits");
            match &e[0].1 {
                Json::Object(f) => {
                    assert_eq!(f.len(), 1);
                    assert_eq!(f[0].0, "hits");
                    assert!(matches!(&f[0].1, Json::Array(a) if a.is_empty()));
                }
                other => panic!("not an object: {:?}", other),
            }
        }
        other => panic!("not an object: {:?}", other),
    }
}

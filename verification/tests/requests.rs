use http_server::request::handle_connection;
use http_server::text::{is_ascii_space, text_eq, to_chars};
use http_server::{RequestType, ResponseStatus};

#[test]
fn get_with_three_tokens_succeeds_with_the_path() {
    assert_eq!(handle_connection(Some("GET / HTTP/1.1")), Some(ResponseStatus::Ok200("/")));
    assert_eq!(
        handle_connection(Some("GET /notes.txt HTTP/1.1")),
        Some(ResponseStatus::Ok200("/notes.txt"))
    );
    assert_eq!(
        handle_connection(Some("GET /a/b.html?x=1 HTTP/1.0")),
        Some(ResponseStatus::Ok200("/a/b.html?x=1"))
    );
}

#[test]
fn no_line_means_no_answer() {
    assert_eq!(handle_connection(None), None);
}

#[test]
fn line_without_tokens_is_a_server_error() {
    assert_eq!(handle_connection(Some("")), Some(ResponseStatus::Fail500));
    assert_eq!(handle_connection(Some(" ")), Some(ResponseStatus::Fail500));
    assert_eq!(handle_connection(Some(" \t\r\n\x0C ")), Some(ResponseStatus::Fail500));
}

#[test]
fn unknown_method_is_a_bad_request() {
    assert_eq!(handle_connection(Some("FETCH / HTTP/1.1")), Some(ResponseStatus::Bad400));
    assert_eq!(handle_connection(Some("get / HTTP/1.1")), Some(ResponseStatus::Bad400));
    assert_eq!(handle_connection(Some("GETS / HTTP/1.1")), Some(ResponseStatus::Bad400));
    assert_eq!(handle_connection(Some("GE / HTTP/1.1")), Some(ResponseStatus::Bad400));
    assert_eq!(handle_connection(Some("FETCH")), Some(ResponseStatus::Bad400));
    assert_eq!(handle_connection(Some("\u{47}\u{c9}T / HTTP/1.1")), Some(ResponseStatus::Bad400));
}

#[test]
fn missing_path_is_a_bad_request() {
    assert_eq!(handle_connection(Some("GET")), Some(ResponseStatus::Bad400));
    assert_eq!(handle_connection(Some("GET ")), Some(ResponseStatus::Bad400));
    assert_eq!(handle_connection(Some("POST")), Some(ResponseStatus::Bad400));
}

#[test]
fn missing_version_is_a_bad_request() {
    assert_eq!(handle_connection(Some("GET /")), Some(ResponseStatus::Bad400));
    assert_eq!(handle_connection(Some("GET /index.html  ")), Some(ResponseStatus::Bad400));
    assert_eq!(handle_connection(Some("DELETE /index.html")), Some(ResponseStatus::Bad400));
}

#[test]
fn other_methods_are_server_errors() {
    for method in ["POST", "HEAD", "PUT", "DELETE", "CONNECT", "OPTIONS", "TRACE", "PATCH"] {
        let line = format!("{} /index.html HTTP/1.1", method);
        assert_eq!(handle_connection(Some(line.as_str())), Some(ResponseStatus::Fail500));
    }
}

#[test]
fn tokens_are_split_at_any_ascii_whitespace() {
    assert_eq!(
        handle_connection(Some("  GET\t\t/index.html \x0C HTTP/1.1\r")),
        Some(ResponseStatus::Ok200("/index.html"))
    );
    assert_eq!(
        handle_connection(Some("GET\n/a\rHTTP/1.1")),
        Some(ResponseStatus::Ok200("/a"))
    );
}

#[test]
fn other_whitespace_does_not_split() {
    assert_eq!(handle_connection(Some("GET\u{b}/ HTTP/1.1")), Some(ResponseStatus::Bad400));
    assert_eq!(
        handle_connection(Some("GET /a\u{a0}b HTTP/1.1")),
        Some(ResponseStatus::Ok200("/a\u{a0}b"))
    );
    assert_eq!(handle_connection(Some("GET /a\u{2003}HTTP/1.1")), Some(ResponseStatus::Bad400));
}

#[test]
fn tokens_after_the_third_are_ignored() {
    assert_eq!(
        handle_connection(Some("GET /index.html HTTP/1.1 and more")),
        Some(ResponseStatus::Ok200("/index.html"))
    );
    assert_eq!(
        handle_connection(Some("PUT /index.html HTTP/1.1 and more")),
        Some(ResponseStatus::Fail500)
    );
}

#[test]
fn path_may_hold_any_characters() {
    assert_eq!(
        handle_connection(Some("GET /caf\u{e9}/\u{65e5}\u{672c}.html HTTP/1.1")),
        Some(ResponseStatus::Ok200("/caf\u{e9}/\u{65e5}\u{672c}.html"))
    );
    assert_eq!(
        handle_connection(Some("\u{3000}GET /x HTTP/1.1")),
        Some(ResponseStatus::Bad400)
    );
}

#[test]
fn methods_are_named_in_upper_case() {
    assert_eq!(RequestType::GET.as_str(), "GET");
    assert_eq!(RequestType::POST.as_str(), "POST");
    assert_eq!(RequestType::HEAD.as_str(), "HEAD");
    assert_eq!(RequestType::PUT.as_str(), "PUT");
    assert_eq!(RequestType::DELETE.as_str(), "DELETE");
    assert_eq!(RequestType::CONNECT.as_str(), "CONNECT");
    assert_eq!(RequestType::OPTIONS.as_str(), "OPTIONS");
    assert_eq!(RequestType::TRACE.as_str(), "TRACE");
    assert_eq!(RequestType::PATCH.as_str(), "PATCH");
}

#[test]
fn every_method_is_parsed_from_its_name() {
    let methods = [
        RequestType::GET,
        RequestType::POST,
        RequestType::HEAD,
        RequestType::PUT,
        RequestType::DELETE,
        RequestType::CONNECT,
        RequestType::OPTIONS,
        RequestType::TRACE,
        RequestType::PATCH,
    ];
    for method in methods {
        assert_eq!(RequestType::parse(method.as_str()), Some(method));
    }
}

#[test]
fn other_tokens_name_no_method() {
    assert_eq!(RequestType::parse(""), None);
    assert_eq!(RequestType::parse("get"), None);
    assert_eq!(RequestType::parse("Get"), None);
    assert_eq!(RequestType::parse("GET "), None);
    assert_eq!(RequestType::parse("PATCHY"), None);
    assert_eq!(RequestType::parse("TRAC"), None);
    assert_eq!(RequestType::parse("LINK"), None);
}

#[test]
fn ascii_whitespace_is_five_characters() {
    for c in [' ', '\t', '\n', '\x0C', '\r'] {
        assert!(is_ascii_space(c));
    }
    for c in ['\x0B', '\0', 'a', '/', '\u{a0}', '\u{2003}', '\u{3000}'] {
        assert!(!is_ascii_space(c));
    }
}

#[test]
fn text_is_compared_character_by_character() {
    assert!(text_eq("", ""));
    assert!(text_eq("GET", "GET"));
    assert!(text_eq("caf\u{e9}", "caf\u{e9}"));
    assert!(!text_eq("GET", "GE"));
    assert!(!text_eq("GE", "GET"));
    assert!(!text_eq("GET", "GEt"));
    assert!(!text_eq("", "a"));
    assert!(!text_eq("cafe", "caf\u{e9}"));
}

#[test]
fn characters_are_listed_in_order() {
    assert_eq!(to_chars(""), Vec::<char>::new());
    assert_eq!(to_chars("a\u{e9}\u{65e5}b"), vec!['a', '\u{e9}', '\u{65e5}', 'b']);
}

use http_server::request::handle_connection;
use http_server::response::{
    contains_parent_marker, listing_contains, response_head, send_response, Step, StoreEvent,
};
use http_server::ResponseStatus;

/// A content store held in memory, and what was asked of it.
struct Store {
    entries: Vec<(String, Vec<u8>)>,
    unreadable: Vec<String>,
    listings: usize,
    reads: Vec<String>,
}

fn store(entries: &[(&str, &[u8])]) -> Store {
    Store {
        entries: entries.iter().map(|(name, bytes)| (name.to_string(), bytes.to_vec())).collect(),
        unreadable: Vec::new(),
        listings: 0,
        reads: Vec::new(),
    }
}

fn list(store: &mut Store) -> StoreEvent {
    store.listings += 1;
    StoreEvent::Listed(store.entries.iter().map(|(name, _)| name.clone()).collect())
}

fn read(store: &mut Store, name: &str) -> StoreEvent {
    store.reads.push(name.to_string());
    if store.unreadable.iter().any(|entry| entry == name) {
        return StoreEvent::ReadFailed;
    }
    match store.entries.iter().find(|(entry, _)| entry == name) {
        Some((_, bytes)) => StoreEvent::Found(bytes.clone()),
        None => StoreEvent::Absent,
    }
}

/// Runs the exchange for `status` against `store` and returns the bytes that
/// go on the wire.
fn serve(status: ResponseStatus, store: &mut Store) -> Vec<u8> {
    let mut status = status;
    let mut event = StoreEvent::Begin;
    for _ in 0..32 {
        match send_response(status, event) {
            Step::Retry(next) => {
                status = next;
                event = StoreEvent::Begin;
            }
            Step::List => event = list(store),
            Step::Read(name) => event = read(store, name),
            Step::Send(head, body) => {
                let mut wire = head.into_bytes();
                wire.extend_from_slice(&body);
                return wire;
            }
        }
    }
    panic!("the exchange did not settle");
}

fn site() -> Store {
    store(&[
        ("index.html", b"abc"),
        ("400.html", b"bad request"),
        ("404.html", b"not found"),
        ("500.html", b"server error"),
        ("notes.txt", b"0123456789"),
    ])
}

#[test]
fn root_path_serves_the_index_document() {
    let mut store = site();
    let status = handle_connection(Some("GET / HTTP/1.1")).unwrap();
    assert_eq!(status, ResponseStatus::Ok200("/"));
    let wire = serve(status, &mut store);
    assert_eq!(wire, b"HTTP/1.1 200 OK\r\nContent-Length: 3\r\n\r\nabc".to_vec());
    assert_eq!(store.reads, vec!["index.html".to_string()]);
}

#[test]
fn missing_resource_serves_the_not_found_document() {
    let mut store = site();
    let status = handle_connection(Some("GET /missing.txt HTTP/1.1")).unwrap();
    assert_eq!(status, ResponseStatus::Ok200("/missing.txt"));
    let wire = serve(status, &mut store);
    assert_eq!(wire, b"HTTP/1.1 404 NOT FOUND\r\nContent-Length: 9\r\n\r\nnot found".to_vec());
    assert_eq!(store.reads, vec!["404.html".to_string()]);
}

#[test]
fn post_serves_the_server_error_document() {
    let mut store = site();
    let status = handle_connection(Some("POST / HTTP/1.1")).unwrap();
    assert_eq!(status, ResponseStatus::Fail500);
    let wire = serve(status, &mut store);
    assert_eq!(
        wire,
        b"HTTP/1.1 500 INTERNAL SERVER ERROR\r\nContent-Length: 12\r\n\r\nserver error".to_vec()
    );
}

#[test]
fn closed_connection_gets_no_response() {
    assert_eq!(handle_connection(None), None);
}

#[test]
fn traversal_is_rejected_before_the_store_is_asked() {
    let status = handle_connection(Some("GET /../secret HTTP/1.1")).unwrap();
    assert_eq!(status, ResponseStatus::Ok200("/../secret"));
    assert_eq!(status.resource_name(), "../secret");
    let secret = vec!["../secret".to_string(), "secret".to_string()];
    let events = vec![
        StoreEvent::Begin,
        StoreEvent::Listed(secret),
        StoreEvent::ListFailed,
        StoreEvent::Found(b"secret".to_vec()),
        StoreEvent::Absent,
        StoreEvent::ReadFailed,
    ];
    for event in events {
        assert_eq!(send_response(status, event), Step::Retry(ResponseStatus::Bad404));
    }
}

#[test]
fn traversal_yields_the_not_found_response() {
    let mut store = site();
    let wire = serve(ResponseStatus::Ok200("/../secret"), &mut store);
    assert_eq!(wire, b"HTTP/1.1 404 NOT FOUND\r\nContent-Length: 9\r\n\r\nnot found".to_vec());
    assert_eq!(store.listings, 1);
    assert_eq!(store.reads, vec!["404.html".to_string()]);
}

#[test]
fn traversal_inside_a_path_is_rejected() {
    let mut store = site();
    let wire = serve(ResponseStatus::Ok200("/a/../index.html"), &mut store);
    assert_eq!(wire, b"HTTP/1.1 404 NOT FOUND\r\nContent-Length: 9\r\n\r\nnot found".to_vec());
    assert_eq!(store.reads, vec!["404.html".to_string()]);
}

#[test]
fn unlisted_name_is_not_read() {
    let listing = vec!["index.html".to_string(), "404.html".to_string()];
    let status = ResponseStatus::Ok200("/etc/passwd");
    assert_eq!(send_response(status, StoreEvent::Begin), Step::List);
    assert_eq!(
        send_response(status, StoreEvent::Listed(listing)),
        Step::Retry(ResponseStatus::Bad404)
    );
}

#[test]
fn unlisted_name_yields_the_not_found_response() {
    let mut store = site();
    let wire = serve(ResponseStatus::Ok200("//etc/passwd"), &mut store);
    assert_eq!(wire, b"HTTP/1.1 404 NOT FOUND\r\nContent-Length: 9\r\n\r\nnot found".to_vec());
    assert_eq!(store.listings, 2);
    assert_eq!(store.reads, vec!["404.html".to_string()]);
}

#[test]
fn listed_name_is_read() {
    let listing = vec!["index.html".to_string(), "notes.txt".to_string()];
    assert_eq!(
        send_response(ResponseStatus::Ok200("/notes.txt"), StoreEvent::Listed(listing)),
        Step::Read("notes.txt")
    );
}

#[test]
fn listing_is_matched_exactly() {
    let listing = vec!["index.html".to_string(), "notes.txt".to_string()];
    assert!(listing_contains(&listing, "notes.txt"));
    assert!(!listing_contains(&listing, "notes.tx"));
    assert!(!listing_contains(&listing, "otes.txt"));
    assert!(!listing_contains(&listing, "notes.txt "));
    assert!(!listing_contains(&listing, "NOTES.TXT"));
    assert!(!listing_contains(&listing, ""));
    assert!(!listing_contains(&Vec::new(), "index.html"));
}

#[test]
fn failed_listing_falls_back_to_not_found() {
    assert_eq!(
        send_response(ResponseStatus::Ok200("/"), StoreEvent::ListFailed),
        Step::Retry(ResponseStatus::Bad404)
    );
}

#[test]
fn absent_resource_falls_back_to_not_found() {
    assert_eq!(
        send_response(ResponseStatus::Ok200("/"), StoreEvent::Absent),
        Step::Retry(ResponseStatus::Bad404)
    );
}

#[test]
fn failed_read_falls_back_to_bad_request() {
    assert_eq!(
        send_response(ResponseStatus::Ok200("/"), StoreEvent::ReadFailed),
        Step::Retry(ResponseStatus::Bad400)
    );
}

#[test]
fn unreadable_resource_serves_the_bad_request_document() {
    let mut store = site();
    store.unreadable.push("notes.txt".to_string());
    let wire = serve(ResponseStatus::Ok200("/notes.txt"), &mut store);
    assert_eq!(
        wire,
        b"HTTP/1.1 400 BAD REQUEST\r\nContent-Length: 11\r\n\r\nbad request".to_vec()
    );
    assert_eq!(store.reads, vec!["notes.txt".to_string(), "400.html".to_string()]);
}

#[test]
fn found_bytes_are_framed_and_sent() {
    let step = send_response(ResponseStatus::Ok200("/notes.txt"), StoreEvent::Found(b"0123456789".to_vec()));
    assert_eq!(
        step,
        Step::Send("HTTP/1.1 200 OK\r\nContent-Length: 10\r\n\r\n".to_string(), b"0123456789".to_vec())
    );
}

#[test]
fn empty_body_has_length_zero() {
    let step = send_response(ResponseStatus::Bad400, StoreEvent::Found(Vec::new()));
    assert_eq!(
        step,
        Step::Send("HTTP/1.1 400 BAD REQUEST\r\nContent-Length: 0\r\n\r\n".to_string(), Vec::new())
    );
}

#[test]
fn status_lines_are_fixed() {
    assert_eq!(ResponseStatus::Ok200("/x").status_line(), "HTTP/1.1 200 OK");
    assert_eq!(ResponseStatus::Bad400.status_line(), "HTTP/1.1 400 BAD REQUEST");
    assert_eq!(ResponseStatus::Bad404.status_line(), "HTTP/1.1 404 NOT FOUND");
    assert_eq!(ResponseStatus::Fail500.status_line(), "HTTP/1.1 500 INTERNAL SERVER ERROR");
}

#[test]
fn resource_names_follow_the_status() {
    assert_eq!(ResponseStatus::Ok200("/").resource_name(), "index.html");
    assert_eq!(ResponseStatus::Ok200("/notes.txt").resource_name(), "notes.txt");
    assert_eq!(ResponseStatus::Ok200("/a/b.html").resource_name(), "a/b.html");
    assert_eq!(ResponseStatus::Ok200("//").resource_name(), "/");
    assert_eq!(ResponseStatus::Bad400.resource_name(), "400.html");
    assert_eq!(ResponseStatus::Bad404.resource_name(), "404.html");
    assert_eq!(ResponseStatus::Fail500.resource_name(), "500.html");
}

#[test]
fn resource_name_drops_the_first_character_only() {
    assert_eq!(ResponseStatus::Ok200("x").resource_name(), "");
    assert_eq!(ResponseStatus::Ok200("").resource_name(), "");
    assert_eq!(ResponseStatus::Ok200("notes.txt").resource_name(), "otes.txt");
    assert_eq!(ResponseStatus::Ok200("\u{e9}t\u{e9}.html").resource_name(), "t\u{e9}.html");
}

#[test]
fn parent_marker_is_two_dots_in_a_row() {
    assert!(contains_parent_marker(".."));
    assert!(contains_parent_marker("../secret"));
    assert!(contains_parent_marker("a/../b"));
    assert!(contains_parent_marker("a.."));
    assert!(contains_parent_marker("a...b"));
    assert!(!contains_parent_marker(""));
    assert!(!contains_parent_marker("."));
    assert!(!contains_parent_marker("index.html"));
    assert!(!contains_parent_marker("a.b.c"));
    assert!(!contains_parent_marker("./a/."));
    assert!(!contains_parent_marker(".\u{e9}."));
}

#[test]
fn head_holds_the_exact_length() {
    assert_eq!(response_head("HTTP/1.1 200 OK", 0), "HTTP/1.1 200 OK\r\nContent-Length: 0\r\n\r\n");
    assert_eq!(response_head("HTTP/1.1 200 OK", 9), "HTTP/1.1 200 OK\r\nContent-Length: 9\r\n\r\n");
    assert_eq!(response_head("HTTP/1.1 200 OK", 10), "HTTP/1.1 200 OK\r\nContent-Length: 10\r\n\r\n");
    assert_eq!(
        response_head("HTTP/1.1 404 NOT FOUND", 1234567890),
        "HTTP/1.1 404 NOT FOUND\r\nContent-Length: 1234567890\r\n\r\n"
    );
    assert_eq!(
        response_head("", usize::MAX),
        format!("\r\nContent-Length: {}\r\n\r\n", usize::MAX)
    );
}

#[test]
fn missing_error_document_never_settles() {
    let mut store = store(&[("index.html", b"abc")]);
    let mut status = ResponseStatus::Ok200("/nothing");
    let mut event = StoreEvent::Begin;
    let mut retries = 0;
    for _ in 0..30 {
        match send_response(status, event) {
            Step::Retry(next) => {
                assert_eq!(next, ResponseStatus::Bad404);
                status = next;
                event = StoreEvent::Begin;
                retries += 1;
            }
            Step::List => event = list(&mut store),
            Step::Read(_) | Step::Send(_, _) => panic!("nothing to read or send"),
        }
    }
    assert_eq!(retries, 15);
    assert!(store.reads.is_empty());
}

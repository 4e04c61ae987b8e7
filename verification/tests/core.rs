//! Unit tests for keys, validators, the evaluator, the table, the security
//! checks, the address helpers and the layout buffer.

use binserve::address::{parse_port, tls_redirect_port, with_default_port};
use binserve::bytes::{dec_u64, is_valid_header_value};
use binserve::cond::request_client_is_cached;
use binserve::content_buffer::LayoutBuffer;
use binserve::keys::{derive_dir_key, fold_index, normalize_key};
use binserve::record::{etag_value, ContentRecord, FileMeta, StoredBody};
use binserve::security::{is_config_secure, RouteCheck};
use binserve::table::{default_not_found_page, RouteTable};

fn b(s: &str) -> Vec<u8> {
    s.as_bytes().to_vec()
}

fn meta(size: u64, secs: u64, nanos: u32) -> FileMeta {
    FileMeta { size, mtime_secs: secs, mtime_nanos: nanos, is_symlink: false }
}

#[test]
fn normalize_strips_leading_slashes() {
    assert_eq!(normalize_key(&b("///docs")), b("/docs"));
    assert_eq!(normalize_key(&b("docs")), b("/docs"));
    assert_eq!(normalize_key(&b("/docs")), b("/docs"));
}

#[test]
fn normalize_collapses_internal_slashes() {
    assert_eq!(normalize_key(&b("/docs//guide.html")), b("/docs/guide.html"));
    assert_eq!(normalize_key(&b("a///b//c")), b("/a/b/c"));
}

#[test]
fn normalize_empty_is_root() {
    assert_eq!(normalize_key(&b("")), b("/"));
    assert_eq!(normalize_key(&b("/")), b("/"));
}

#[test]
fn normalize_is_idempotent() {
    let once = normalize_key(&b("//x//y/"));
    let twice = normalize_key(&once);
    assert_eq!(once, twice);
}

#[test]
fn fold_index_suffixes() {
    assert_eq!(fold_index(&b("/docs/index.html")), b("/docs"));
    assert_eq!(fold_index(&b("/docs/index.htm")), b("/docs"));
    assert_eq!(fold_index(&b("/docs/index")), b("/docs"));
    assert_eq!(fold_index(&b("/index.html")), b(""));
}

#[test]
fn fold_index_leaves_other_names() {
    assert_eq!(fold_index(&b("/docs/guide.html")), b("/docs/guide.html"));
    assert_eq!(fold_index(&b("/myindex.html")), b("/myindex.html"));
    assert_eq!(fold_index(&b("/docs/index.txt")), b("/docs/index.txt"));
}

#[test]
fn derive_key_strips_directory_prefix() {
    assert_eq!(derive_dir_key(&b("/docs"), &b("docs"), &b("docs/guide.html")), b("/docs/guide.html"));
    assert_eq!(derive_dir_key(&b("/docs"), &b("docs/"), &b("docs/guide.html")), b("/docs/guide.html"));
    assert_eq!(derive_dir_key(&b("/docs"), &b("docs"), &b("docs/index.html")), b("/docs"));
    assert_eq!(derive_dir_key(&b("/"), &b("public"), &b("public/a/b.css")), b("/a/b.css"));
}

#[test]
fn decimal_rendering() {
    assert_eq!(dec_u64(0), b("0"));
    assert_eq!(dec_u64(10), b("10"));
    assert_eq!(dec_u64(104857600), b("104857600"));
    assert_eq!(dec_u64(u64::MAX), b("18446744073709551615"));
}

#[test]
fn etag_is_deterministic_and_sensitive() {
    let e1 = etag_value(&meta(120, 1700000000, 5));
    let e2 = etag_value(&meta(120, 1700000000, 5));
    assert_eq!(e1, e2);
    let changed_time = etag_value(&meta(120, 1700000001, 5));
    assert_ne!(e1, changed_time);
    let changed_size = etag_value(&meta(121, 1700000000, 5));
    assert_ne!(e1, changed_size);
    assert_eq!(e1, b("W/\"120-1700000000.5\""));
    assert!(is_valid_header_value(&e1));
}

#[test]
fn evaluator_truth_table() {
    let etag = b("\"e1\"");
    let lm = b("Thu, 01 Jan 1970 00:00:00 GMT");
    let wrong = b("nope");
    // neither validator present: never cached
    assert!(!request_client_is_cached(None, None, &etag, &lm));
    // only If-None-Match present: it alone decides
    assert!(request_client_is_cached(Some(&etag), None, &etag, &lm));
    assert!(!request_client_is_cached(Some(&wrong), None, &etag, &lm));
    // only If-Modified-Since present: it alone decides
    assert!(request_client_is_cached(None, Some(&lm), &etag, &lm));
    assert!(!request_client_is_cached(None, Some(&wrong), &etag, &lm));
    // both present: either matching one suffices
    assert!(request_client_is_cached(Some(&etag), Some(&lm), &etag, &lm));
    assert!(request_client_is_cached(Some(&etag), Some(&wrong), &etag, &lm));
    assert!(request_client_is_cached(Some(&wrong), Some(&lm), &etag, &lm));
    assert!(!request_client_is_cached(Some(&wrong), Some(&wrong), &etag, &lm));
}

#[test]
fn table_replaces_instead_of_accumulating() {
    let mut t = RouteTable::new();
    let rec1 = ContentRecord {
        mime: Some(b("text/plain")),
        etag: Some(etag_value(&meta(1, 1, 1))),
        last_modified: Some(b("Thu, 01 Jan 1970 00:00:01 GMT")),
        disk_path: b("a.txt"),
        body: StoredBody::InMemory { bytes: b("one") },
    };
    let rec2 = ContentRecord {
        mime: Some(b("text/plain")),
        etag: Some(etag_value(&meta(2, 2, 2))),
        last_modified: Some(b("Thu, 01 Jan 1970 00:00:02 GMT")),
        disk_path: b("a.txt"),
        body: StoredBody::InMemory { bytes: b("two") },
    };
    t.insert(b("/a"), rec1);
    assert_eq!(t.len(), 1);
    t.insert(b("/a"), rec2);
    assert_eq!(t.len(), 1);
    let got = t.get(&b("/a")).expect("key must be present");
    match &got.body {
        StoredBody::InMemory { bytes } => assert_eq!(bytes, &b("two")),
        _ => panic!("expected the replacing record to be memory-resident"),
    }
    assert!(t.get(&b("/missing")).is_none());
}

#[test]
fn default_not_found_page_mentions_404() {
    let page = default_not_found_page();
    let text = String::from_utf8(page).unwrap();
    assert!(text.contains("404"));
}

#[test]
fn security_flags_path_traversal() {
    let routes = vec![RouteCheck { target: b("static/../etc/passwd"), is_symlink: false }];
    assert!(!is_config_secure(&routes, false));
}

#[test]
fn security_flags_symlinks_when_following() {
    let routes = vec![RouteCheck { target: b("static/link.html"), is_symlink: true }];
    assert!(!is_config_secure(&routes, true));
    assert!(is_config_secure(&routes, false));
}

#[test]
fn security_accepts_clean_routes() {
    let routes = vec![
        RouteCheck { target: b("static/index.html"), is_symlink: false },
        RouteCheck { target: b("static/a/b.css"), is_symlink: false },
    ];
    assert!(is_config_secure(&routes, true));
    assert!(is_config_secure(&routes, false));
}

#[test]
fn address_default_port() {
    assert_eq!(with_default_port(&b("localhost")), b("localhost:80"));
    assert_eq!(with_default_port(&b("127.0.0.1:8080")), b("127.0.0.1:8080"));
}

#[test]
fn address_tls_redirect_port() {
    assert_eq!(tls_redirect_port(&b("example.org")), Some(443));
    assert_eq!(tls_redirect_port(&b("example.org:8443")), Some(8443));
    assert_eq!(tls_redirect_port(&b("example.org:443")), Some(443));
    assert_eq!(tls_redirect_port(&b("example.org:port")), None);
    assert_eq!(tls_redirect_port(&b("example.org:")), None);
    assert_eq!(parse_port(&b("65535")), Some(65535));
    assert_eq!(parse_port(&b("65536")), None);
}

#[test]
fn layout_buffer_concatenates_stages() {
    let mut lb = LayoutBuffer::new(b("<pre>"), b("content"), b("</pre>"));
    let mut all: Vec<u8> = Vec::new();
    loop {
        let chunk = lb.read(4);
        if chunk.is_empty() {
            break;
        }
        assert!(chunk.len() <= 4);
        all.extend_from_slice(&chunk);
    }
    assert_eq!(all, b("<pre>content</pre>"));
}

#[test]
fn layout_buffer_handles_empty_parts() {
    let mut lb = LayoutBuffer::new(b(""), b("x"), b(""));
    let chunk = lb.read(16);
    assert_eq!(chunk, b("x"));
    assert!(lb.read(16).is_empty());
}

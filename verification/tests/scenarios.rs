//! End-to-end scenarios: building tables from route definitions, the
//! caching decision, conditional dispatch, and hot-reload reconciliation.

use std::collections::HashMap;

use binserve::config::Config;
use binserve::dispatch::{handle, Response};
use binserve::record::{assemble_rendered, build_record, BuildError, ContentRecord, FileData, FileMeta, StoredBody};
use binserve::routes::{add_error_pages, add_routes, associate_files_to_routes, DirEntry, RouteSource, RouteTarget};
use binserve::table::RouteTable;
use binserve::watcher::{classify_event, initial_watcher_state, watch_mapping, WatcherState};

fn b(s: &str) -> Vec<u8> {
    s.as_bytes().to_vec()
}

fn meta(size: u64, secs: u64) -> Option<FileMeta> {
    Some(FileMeta { size, mtime_secs: secs, mtime_nanos: 0, is_symlink: false })
}

fn data(raw: &str, size: u64, secs: u64) -> FileData {
    FileData { meta: meta(size, secs), raw: b(raw) }
}

fn toggles() -> Config {
    Config::default()
}

fn render_handle() -> (handlebars::Handlebars<'static>, handlebars::Context) {
    let registry = handlebars::Handlebars::new();
    let mut vars: HashMap<String, String> = HashMap::new();
    vars.insert(String::from("name"), String::from("world"));
    let context = handlebars::Context::wraps(&vars).expect("context");
    (registry, context)
}

fn body_of(rec: &ContentRecord) -> &[u8] {
    match &rec.body {
        StoredBody::InMemory { bytes } => bytes,
        StoredBody::OnDisk { rendered: Some(rb) } => rb,
        _ => panic!("record holds no bytes"),
    }
}

/// Config `{"/": "index.html", "/docs": "docs/"}` where `docs/` holds
/// `index.html` and `guide.html`: the table keys are exactly `/`, `/docs`
/// and `/docs/guide.html`.
#[test]
fn directory_and_single_file_keys() {
    let (registry, context) = render_handle();
    let cfg = toggles();
    let mut table = RouteTable::new();
    let defs = vec![
        RouteSource {
            route: b("/"),
            target: RouteTarget::SingleFile { path: b("index.html"), data: data("<h1>home</h1>", 13, 100) },
        },
        RouteSource {
            route: b("/docs"),
            target: RouteTarget::Directory {
                dir_path: b("docs"),
                entries: vec![
                    DirEntry { full_path: b("docs/index.html"), data: data("<h1>docs</h1>", 13, 101) },
                    DirEntry { full_path: b("docs/guide.html"), data: data("<h1>guide</h1>", 14, 102) },
                ],
            },
        },
    ];
    add_routes(&mut table, &defs, None, &cfg, &registry, &context).expect("build");
    assert_eq!(table.len(), 3);
    assert!(table.get(&b("/")).is_some());
    assert!(table.get(&b("/docs")).is_some());
    assert!(table.get(&b("/docs/guide.html")).is_some());
    assert!(table.get(&b("/docs/index.html")).is_none());
    let guide = table.get(&b("/docs/guide.html")).unwrap();
    assert_eq!(body_of(guide), b("<h1>guide</h1>"));
}

/// A 200 MiB file is served disk-resident even with the memory cache on,
/// while a 10 KiB file under the same configuration is memory-resident.
#[test]
fn size_ceiling_decides_storage() {
    let (registry, context) = render_handle();
    let cfg = toggles();
    assert!(cfg.fast_mem_cache);
    let big = build_record(
        &b("big.bin"),
        &data("not actually that large", 209715200, 500),
        &cfg,
        &registry,
        &context,
    )
    .expect("build big");
    assert!(matches!(big.body, StoredBody::OnDisk { rendered: None }));
    let small = build_record(&b("small.bin"), &data("tiny", 10240, 500), &cfg, &registry, &context)
        .expect("build small");
    assert!(matches!(small.body, StoredBody::InMemory { .. }));
    assert_eq!(big.disk_path, b("big.bin"));
}

#[test]
fn memory_cache_toggle_forces_disk() {
    let (registry, context) = render_handle();
    let mut cfg = toggles();
    cfg.fast_mem_cache = false;
    let rec = build_record(&b("a.txt"), &data("abc", 3, 1), &cfg, &registry, &context).expect("build");
    assert!(matches!(rec.body, StoredBody::OnDisk { rendered: None }));
}

#[test]
fn template_is_rendered_to_html() {
    let (registry, context) = render_handle();
    let cfg = toggles();
    let rec = build_record(
        &b("page.hbs"),
        &data("Hello {{name}}!", 15, 7),
        &cfg,
        &registry,
        &context,
    )
    .expect("build template");
    assert_eq!(rec.mime.as_ref().unwrap(), &b("text/html"));
    assert_eq!(body_of(&rec), b("Hello world!"));
}

#[test]
fn template_render_failure_is_an_error() {
    let (registry, context) = render_handle();
    let cfg = toggles();
    let r = build_record(
        &b("bad.hbs"),
        &data("{{#if}}unclosed", 15, 7),
        &cfg,
        &registry,
        &context,
    );
    assert!(matches!(r, Err(BuildError::Render(_))));
}

#[test]
fn unreadable_file_is_an_io_error() {
    let (registry, context) = render_handle();
    let cfg = toggles();
    let r = build_record(
        &b("gone.txt"),
        &FileData { meta: None, raw: Vec::new() },
        &cfg,
        &registry,
        &context,
    );
    assert!(matches!(r, Err(BuildError::Io)));
}

#[test]
fn symlink_is_withheld_when_not_following() {
    let (registry, context) = render_handle();
    let cfg = toggles();
    assert!(!cfg.follow_symlinks);
    let d = FileData {
        meta: Some(FileMeta { size: 4, mtime_secs: 9, mtime_nanos: 0, is_symlink: true }),
        raw: b("leak"),
    };
    let rec = build_record(&b("link.txt"), &d, &cfg, &registry, &context).expect("sentinel");
    assert!(matches!(rec.body, StoredBody::Withheld));
    assert!(rec.mime.is_none() && rec.etag.is_none() && rec.last_modified.is_none());
    assert_eq!(rec.disk_path, b("link.txt"));
}

#[test]
fn mime_resolution_uses_extension_and_default() {
    let (registry, context) = render_handle();
    let cfg = toggles();
    let css = build_record(&b("styles.css"), &data("a{}", 3, 1), &cfg, &registry, &context).unwrap();
    assert_eq!(css.mime.as_ref().unwrap(), &b("text/css"));
    let unknown = build_record(&b("blob.zzxx"), &data("??", 2, 1), &cfg, &registry, &context).unwrap();
    assert_eq!(unknown.mime.as_ref().unwrap(), &b("application/octet-stream"));
}

#[test]
fn last_modified_is_the_http_date() {
    let (registry, context) = render_handle();
    let cfg = toggles();
    let rec = build_record(&b("epoch.txt"), &data("x", 1, 0), &cfg, &registry, &context).unwrap();
    assert_eq!(rec.last_modified.as_ref().unwrap(), &b("Thu, 01 Jan 1970 00:00:00 GMT"));
}

#[test]
fn minification_shrinks_html_when_enabled() {
    let (registry, context) = render_handle();
    let mut cfg = toggles();
    cfg.minify_html = true;
    let raw = "<p>spaced   out</p>   <p>more</p>   ";
    let rec = build_record(&b("page.html"), &data(raw, raw.len() as u64, 3), &cfg, &registry, &context)
        .unwrap();
    let body = body_of(&rec).to_vec();
    assert_ne!(body, b(raw));
    assert!(body.len() < raw.len());
}

/// `If-None-Match` matches the stored ETag while `If-Modified-Since` does
/// not: still a 304 under the permissive any-match policy.
#[test]
fn etag_match_alone_yields_not_modified() {
    let (registry, context) = render_handle();
    let cfg = toggles();
    let mut table = RouteTable::new();
    let res = associate_files_to_routes(
        &mut table,
        &b("/page"),
        &b("page.html"),
        &data("<h1>hi</h1>", 11, 42),
        &cfg,
        &registry,
        &context,
    );
    assert!(res.is_ok());
    let stored_etag = table.get(&b("/page")).unwrap().etag.clone().unwrap();
    let wrong_date = b("Mon, 01 Jan 2001 00:00:00 GMT");
    let r = handle(&table, &b("/page"), Some(&stored_etag), Some(&wrong_date));
    assert!(matches!(r, Response::NotModified { .. }));
    let r2 = handle(&table, &b("/page"), None, None);
    match r2 {
        Response::Content { body, mime, .. } => {
            assert_eq!(body, &b("<h1>hi</h1>"));
            assert_eq!(mime, &b("text/html"));
        },
        _ => panic!("expected a full answer"),
    }
}

#[test]
fn miss_answers_not_found_without_validators() {
    let mut table = RouteTable::new();
    add_error_pages(&mut table, Some(b("custom missing page")));
    let r = handle(&table, &b("/nowhere"), None, None);
    match r {
        Response::NotFound { body } => assert_eq!(body, &b("custom missing page")),
        _ => panic!("expected not-found"),
    }
}

#[test]
fn request_path_is_normalized_before_lookup() {
    let (registry, context) = render_handle();
    let cfg = toggles();
    let mut table = RouteTable::new();
    associate_files_to_routes(
        &mut table,
        &b("/a"),
        &b("a.txt"),
        &data("A", 1, 1),
        &cfg,
        &registry,
        &context,
    )
    .unwrap();
    let r = handle(&table, &b("//a"), None, None);
    assert!(matches!(r, Response::Content { .. }));
}

/// A tracked file changes on disk: after reconciliation the same route
/// serves the new content with a changed ETag, and unrelated routes are
/// untouched throughout.
#[test]
fn reconcile_updates_content_and_etag() {
    let (registry, context) = render_handle();
    let cfg = toggles();
    let mut table = RouteTable::new();
    associate_files_to_routes(&mut table, &b("/a"), &b("a.html"), &data("<p>v1</p>", 9, 100), &cfg, &registry, &context).unwrap();
    associate_files_to_routes(&mut table, &b("/b"), &b("b.html"), &data("<p>b</p>", 8, 100), &cfg, &registry, &context).unwrap();
    let old_etag = table.get(&b("/a")).unwrap().etag.clone().unwrap();
    let b_etag = table.get(&b("/b")).unwrap().etag.clone().unwrap();

    let mapping = watch_mapping(&table);
    assert_eq!(mapping.len(), 2);
    let action = classify_event(&b("a.html"), &b("binserve.json"), &mapping);
    assert!(!action.rebuild_config);
    let key = action.reconcile_key.expect("a.html is tracked");
    assert_eq!(key, b("/a"));

    associate_files_to_routes(&mut table, &key, &b("a.html"), &data("<p>v2!</p>", 10, 200), &cfg, &registry, &context).unwrap();
    let rec = table.get(&b("/a")).unwrap();
    assert_eq!(body_of(rec), b("<p>v2!</p>"));
    assert_ne!(rec.etag.as_ref().unwrap(), &old_etag);
    let unrelated = table.get(&b("/b")).unwrap();
    assert_eq!(body_of(unrelated), b("<p>b</p>"));
    assert_eq!(unrelated.etag.as_ref().unwrap(), &b_etag);
}

/// A reconciliation that fails to render leaves the old record retrievable
/// by the same key.
#[test]
fn failed_reconcile_keeps_old_record() {
    let (registry, context) = render_handle();
    let cfg = toggles();
    let mut table = RouteTable::new();
    associate_files_to_routes(&mut table, &b("/t"), &b("t.hbs"), &data("v1 {{name}}", 11, 5), &cfg, &registry, &context).unwrap();
    assert_eq!(body_of(table.get(&b("/t")).unwrap()), b("v1 world"));

    let res = associate_files_to_routes(
        &mut table,
        &b("/t"),
        &b("t.hbs"),
        &data("{{#if}}broken", 13, 6),
        &cfg,
        &registry,
        &context,
    );
    assert!(matches!(res, Err(BuildError::Render(_))));
    let kept = table.get(&b("/t")).expect("the key must still resolve");
    assert_eq!(body_of(kept), b("v1 world"));

    let io_res = associate_files_to_routes(
        &mut table,
        &b("/t"),
        &b("t.hbs"),
        &FileData { meta: None, raw: Vec::new() },
        &cfg,
        &registry,
        &context,
    );
    assert!(matches!(io_res, Err(BuildError::Io)));
    assert_eq!(body_of(table.get(&b("/t")).unwrap()), b("v1 world"));
}

/// Re-running the build over the same definitions yields the same key set.
#[test]
fn rebuild_yields_same_key_set() {
    let (registry, context) = render_handle();
    let cfg = toggles();
    let defs = vec![RouteSource {
        route: b("/"),
        target: RouteTarget::Directory {
            dir_path: b("site"),
            entries: vec![
                DirEntry { full_path: b("site/index.html"), data: data("<h1>x</h1>", 10, 1) },
                DirEntry { full_path: b("site/a.html"), data: data("<h1>a</h1>", 10, 2) },
            ],
        },
    }];
    let mut table = RouteTable::new();
    add_routes(&mut table, &defs, None, &cfg, &registry, &context).unwrap();
    let first_len = table.len();
    add_routes(&mut table, &defs, None, &cfg, &registry, &context).unwrap();
    assert_eq!(table.len(), first_len);
    assert!(table.get(&b("/")).is_some());
    assert!(table.get(&b("/a.html")).is_some());
}

#[test]
fn plain_disk_file_is_delegated() {
    let (registry, context) = render_handle();
    let mut cfg = toggles();
    cfg.fast_mem_cache = false;
    let mut table = RouteTable::new();
    associate_files_to_routes(&mut table, &b("/blob"), &b("blob.bin"), &data("xyz", 3, 8), &cfg, &registry, &context).unwrap();
    let r = handle(&table, &b("/blob"), None, None);
    match r {
        Response::Delegated { disk_path } => assert_eq!(disk_path, &b("blob.bin")),
        _ => panic!("expected delegation to the disk collaborator"),
    }
}

#[test]
fn disk_resident_template_serves_rendered_bytes() {
    let (registry, context) = render_handle();
    let mut cfg = toggles();
    cfg.fast_mem_cache = false;
    let mut table = RouteTable::new();
    associate_files_to_routes(&mut table, &b("/t"), &b("t.hbs"), &data("Hi {{name}}", 11, 9), &cfg, &registry, &context).unwrap();
    let rec = table.get(&b("/t")).unwrap();
    assert!(matches!(rec.body, StoredBody::OnDisk { rendered: Some(_) }));
    let r = handle(&table, &b("/t"), None, None);
    match r {
        Response::Content { body, mime, .. } => {
            assert_eq!(body, &b("Hi world"));
            assert_eq!(mime, &b("text/html"));
        },
        _ => panic!("expected the pre-rendered bytes, not a delegation"),
    }
}

#[test]
fn withheld_symlink_answers_nothing() {
    let (registry, context) = render_handle();
    let cfg = toggles();
    let mut table = RouteTable::new();
    let d = FileData {
        meta: Some(FileMeta { size: 4, mtime_secs: 9, mtime_nanos: 0, is_symlink: true }),
        raw: b("leak"),
    };
    associate_files_to_routes(&mut table, &b("/s"), &b("secret-link"), &d, &cfg, &registry, &context).unwrap();
    let r = handle(&table, &b("/s"), None, None);
    assert!(matches!(r, Response::Suppressed));
}

#[test]
fn watcher_states_follow_the_toggle() {
    let mut cfg = toggles();
    assert!(matches!(initial_watcher_state(&cfg), WatcherState::Watching));
    cfg.enable_hot_reload = false;
    assert!(matches!(initial_watcher_state(&cfg), WatcherState::Disabled));
}

#[test]
fn watch_mapping_tracks_every_disk_backed_route() {
    let (registry, context) = render_handle();
    let cfg = toggles();
    let mut table = RouteTable::new();
    associate_files_to_routes(&mut table, &b("/mem"), &b("mem.txt"), &data("m", 1, 1), &cfg, &registry, &context).unwrap();
    associate_files_to_routes(
        &mut table,
        &b("/disk"),
        &b("disk.bin"),
        &data("ignored", 209715200, 1),
        &cfg,
        &registry,
        &context,
    )
    .unwrap();
    let mapping = watch_mapping(&table);
    assert_eq!(mapping.len(), 2);
    let mut pairs: Vec<(Vec<u8>, Vec<u8>)> =
        mapping.iter().map(|p| (p.source_path.clone(), p.key.clone())).collect();
    pairs.sort();
    assert_eq!(pairs[0], (b("disk.bin"), b("/disk")));
    assert_eq!(pairs[1], (b("mem.txt"), b("/mem")));

    let on_config = classify_event(&b("binserve.json"), &b("binserve.json"), &mapping);
    assert!(on_config.rebuild_config);
    assert!(on_config.reconcile_key.is_none());
    let on_disk = classify_event(&b("disk.bin"), &b("binserve.json"), &mapping);
    assert_eq!(on_disk.reconcile_key, Some(b("/disk")));
    let on_unknown = classify_event(&b("other.txt"), &b("binserve.json"), &mapping);
    assert!(!on_unknown.rebuild_config);
    assert!(on_unknown.reconcile_key.is_none());
}

/// A file that fails to read makes the whole build fail; once every file is
/// readable and plain, the build is owed to succeed.
#[test]
fn failed_file_fails_the_build() {
    let (registry, context) = render_handle();
    let cfg = toggles();
    let mut table = RouteTable::new();
    let broken = vec![RouteSource {
        route: b("/docs"),
        target: RouteTarget::Directory {
            dir_path: b("docs"),
            entries: vec![
                DirEntry { full_path: b("docs/ok.html"), data: data("<p>ok</p>", 9, 1) },
                DirEntry {
                    full_path: b("docs/gone.html"),
                    data: FileData { meta: None, raw: Vec::new() },
                },
            ],
        },
    }];
    let r = add_routes(&mut table, &broken, None, &cfg, &registry, &context);
    assert!(matches!(r, Err(BuildError::Io)));

    let clean = vec![RouteSource {
        route: b("/docs"),
        target: RouteTarget::Directory {
            dir_path: b("docs"),
            entries: vec![
                DirEntry { full_path: b("docs/ok.html"), data: data("<p>ok</p>", 9, 1) },
                DirEntry { full_path: b("docs/gone.html"), data: data("<p>back</p>", 11, 2) },
            ],
        },
    }];
    add_routes(&mut table, &clean, None, &cfg, &registry, &context).expect("clean build succeeds");
    assert_eq!(table.len(), 2);
}

/// The rendered-output assembler pins the record exactly for each value of
/// the renderer's output.
#[test]
fn assemble_rendered_pins_the_record() {
    let cfg = toggles();
    let meta_small = FileMeta { size: 20, mtime_secs: 77, mtime_nanos: 0, is_symlink: false };
    let rec = assemble_rendered(&b("page.hbs"), &meta_small, &cfg, b("<h1>out</h1>"));
    assert_eq!(rec.mime.as_ref().unwrap(), &b("text/html"));
    assert!(matches!(&rec.body, StoredBody::InMemory { bytes } if bytes == &b("<h1>out</h1>")));

    let meta_big = FileMeta { size: 209715200, mtime_secs: 77, mtime_nanos: 0, is_symlink: false };
    let rec2 = assemble_rendered(&b("page.hbs"), &meta_big, &cfg, b("<h1>out</h1>"));
    match &rec2.body {
        StoredBody::OnDisk { rendered: Some(rb) } => assert_eq!(rb, &b("<h1>out</h1>")),
        _ => panic!("a record over the ceiling keeps its pre-rendered bytes on the side"),
    }
}

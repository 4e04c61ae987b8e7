//! Populating the route table from route definitions: a single file is
//! associated directly, a directory definition mirrors every enumerated file
//! under the route prefix, and the reserved not-found record is installed
//! last. Re-running replaces entries for the same keys instead of
//! accumulating them.

use vstd::prelude::*;
use crate::bytes::{is_prefix_of, valid_header_bytes, copy_range};
use crate::config::Config;
use crate::keys::{normalize_spec, derive_key_spec, normalize_key, fold_index, join_route};
use crate::record::{
    FileData, BuildError, RecordModel, record_wf, record_built_from, sentinel_model,
    build_record, is_template_path, spec_mime_choice,
};
use crate::table::{RouteTable, spec_default_not_found, default_not_found_page};

verus! {

/// One file enumerated under a directory definition: its full path and what
/// was read of it.
pub struct DirEntry {
    pub full_path: Vec<u8>,
    pub data: FileData,
}

/// What a route definition points at, with everything already read from
/// disk: one file, or a directory's enumerated files.
pub enum RouteTarget {
    SingleFile { path: Vec<u8>, data: FileData },
    Directory { dir_path: Vec<u8>, entries: Vec<DirEntry> },
}

/// A route definition together with the data its target holds.
pub struct RouteSource {
    pub route: Vec<u8>,
    pub target: RouteTarget,
}

/// Readable file data carries a representable modification time.
pub open spec fn data_wf(d: FileData) -> bool {
    d.meta matches Option::Some(m) ==> m.wf()
}

/// A well-formed source: file paths are non-empty, directory listings
/// enumerate paths under their own directory, and metadata is representable.
pub open spec fn source_wf(s: RouteSource) -> bool {
    match s.target {
        RouteTarget::SingleFile { path, data } => path@.len() > 0 && data_wf(data),
        RouteTarget::Directory { dir_path, entries } => forall|i: int|
            0 <= i < entries@.len() ==> is_prefix_of(
                dir_path@,
                (#[trigger] entries@[i]).full_path@,
            ) && entries@[i].full_path@.len() > 0 && data_wf(entries@[i].data),
    }
}

pub open spec fn sources_wf(defs: Seq<RouteSource>) -> bool {
    forall|i: int| 0 <= i < defs.len() ==> source_wf(#[trigger] defs[i])
}

/// A file on which nothing outside decides the build: it was read, it is not
/// a template (so no renderer is consulted), and its derived content type is
/// a valid header value. Building such a file is owed to succeed.
pub open spec fn file_clean(path: Seq<u8>, data: FileData) -> bool {
    &&& data.meta is Some
    &&& !is_template_path(path)
    &&& valid_header_bytes(spec_mime_choice(path))
}

/// Every file the definition names is clean.
pub open spec fn source_files_clean(s: RouteSource) -> bool {
    match s.target {
        RouteTarget::SingleFile { path, data } => file_clean(path@, data),
        RouteTarget::Directory { dir_path: _, entries } => forall|j: int|
            0 <= j < entries@.len() ==> file_clean(
                (#[trigger] entries@[j]).full_path@,
                entries@[j].data,
            ),
    }
}

/// Every file of every definition is clean.
pub open spec fn defs_clean(defs: Seq<RouteSource>) -> bool {
    forall|i: int| 0 <= i < defs.len() ==> source_files_clean(#[trigger] defs[i])
}

/// Some file of the definition could not be read.
pub open spec fn source_has_unreadable(s: RouteSource) -> bool {
    match s.target {
        RouteTarget::SingleFile { path: _, data } => data.meta is None,
        RouteTarget::Directory { dir_path: _, entries } => exists|j: int|
            0 <= j < entries@.len() && (#[trigger] entries@[j]).data.meta is None,
    }
}

/// Some file of the definition is a template source.
pub open spec fn source_has_template(s: RouteSource) -> bool {
    match s.target {
        RouteTarget::SingleFile { path, data: _ } => is_template_path(path@),
        RouteTarget::Directory { dir_path: _, entries } => exists|j: int|
            0 <= j < entries@.len() && is_template_path((#[trigger] entries@[j]).full_path@),
    }
}

/// Some non-template file of the definition has a derived content type that
/// cannot stand in a header.
pub open spec fn source_has_bad_mime(s: RouteSource) -> bool {
    match s.target {
        RouteTarget::SingleFile { path, data: _ } => !is_template_path(path@)
            && !valid_header_bytes(spec_mime_choice(path@)),
        RouteTarget::Directory { dir_path: _, entries } => exists|j: int|
            0 <= j < entries@.len() && !is_template_path((#[trigger] entries@[j]).full_path@)
                && !valid_header_bytes(spec_mime_choice(entries@[j].full_path@)),
    }
}

pub open spec fn defs_have_unreadable(defs: Seq<RouteSource>) -> bool {
    exists|i: int| 0 <= i < defs.len() && source_has_unreadable(#[trigger] defs[i])
}

pub open spec fn defs_have_template(defs: Seq<RouteSource>) -> bool {
    exists|i: int| 0 <= i < defs.len() && source_has_template(#[trigger] defs[i])
}

pub open spec fn defs_have_bad_mime(defs: Seq<RouteSource>) -> bool {
    exists|i: int| 0 <= i < defs.len() && source_has_bad_mime(#[trigger] defs[i])
}

/// The table keys one directory listing implies.
pub open spec fn entry_keys(route: Seq<u8>, dir: Seq<u8>, entries: Seq<DirEntry>) -> Set<Seq<u8>>
    decreases entries.len(),
{
    if entries.len() == 0 {
        Set::empty()
    } else {
        entry_keys(route, dir, entries.drop_last()).insert(
            derive_key_spec(route, dir, entries.last().full_path@),
        )
    }
}

/// The table keys one route definition implies.
pub open spec fn target_keys(route: Seq<u8>, t: RouteTarget) -> Set<Seq<u8>> {
    match t {
        RouteTarget::SingleFile { path: _, data: _ } => Set::empty().insert(normalize_spec(route)),
        RouteTarget::Directory { dir_path, entries } => entry_keys(route, dir_path@, entries@),
    }
}

/// The table keys a list of definitions implies.
pub open spec fn defs_keys(defs: Seq<RouteSource>) -> Set<Seq<u8>>
    decreases defs.len(),
{
    if defs.len() == 0 {
        Set::empty()
    } else {
        defs_keys(defs.drop_last()).union(
            target_keys(defs.last().route@, defs.last().target),
        )
    }
}

proof fn lemma_entry_keys_take(route: Seq<u8>, dir: Seq<u8>, entries: Seq<DirEntry>, j: int)
    requires
        0 <= j < entries.len(),
    ensures
        entry_keys(route, dir, entries.take(j + 1)) == entry_keys(route, dir, entries.take(j))
            .insert(derive_key_spec(route, dir, entries[j].full_path@)),
{
    assert(entries.take(j + 1).drop_last() =~= entries.take(j));
    assert(entries.take(j + 1).last() == entries[j]);
}

proof fn lemma_defs_keys_take(defs: Seq<RouteSource>, i: int)
    requires
        0 <= i < defs.len(),
    ensures
        defs_keys(defs.take(i + 1)) == defs_keys(defs.take(i)).union(
            target_keys(defs[i].route@, defs[i].target),
        ),
{
    assert(defs.take(i + 1).drop_last() =~= defs.take(i));
    assert(defs.take(i + 1).last() == defs[i]);
}

proof fn lemma_entry_keys_member(route: Seq<u8>, dir: Seq<u8>, entries: Seq<DirEntry>, j: int)
    requires
        0 <= j < entries.len(),
    ensures
        entry_keys(route, dir, entries).contains(
            derive_key_spec(route, dir, entries[j].full_path@),
        ),
    decreases entries.len(),
{
    if j == entries.len() - 1 {
    } else {
        lemma_entry_keys_member(route, dir, entries.drop_last(), j);
        assert(entries.drop_last()[j] == entries[j]);
    }
}

/// Every file enumerated under a directory definition appears as a table key
/// implied by the definitions: its key is derived by stripping the directory
/// prefix and joining the remainder to the route prefix.
pub proof fn lemma_directory_file_keyed(
    defs: Seq<RouteSource>,
    i: int,
    dir_path: Vec<u8>,
    entries: Vec<DirEntry>,
    j: int,
)
    requires
        0 <= i < defs.len(),
        defs[i].target == (RouteTarget::Directory { dir_path, entries }),
        0 <= j < entries@.len(),
    ensures
        defs_keys(defs).contains(
            derive_key_spec(defs[i].route@, dir_path@, entries@[j].full_path@),
        ),
    decreases defs.len(),
{
    lemma_entry_keys_member(defs[i].route@, dir_path@, entries@, j);
    if i == defs.len() - 1 {
    } else {
        lemma_directory_file_keyed(defs.drop_last(), i, dir_path, entries, j);
        assert(defs.drop_last()[i] == defs[i]);
    }
}

/// Building a table from the same definitions twice yields the same key set.
/// `first` is the key set after one successful `add_routes` run over an
/// empty table, as its contract gives it; `second` is the key set after a
/// second successful run over that same table: entries for the same keys
/// were replaced, never accumulated, so no key was gained or lost.
pub proof fn lemma_rebuild_same_key_set(
    defs: Seq<RouteSource>,
    first: Set<Seq<u8>>,
    second: Set<Seq<u8>>,
)
    requires
        first == Set::<Seq<u8>>::empty().union(defs_keys(defs)),
        second == first.union(defs_keys(defs)),
    ensures
        second == first,
{
    assert(second =~= first);
}

/// What the record installed for one file is allowed to be: the sentinel for
/// a withheld symlink, and otherwise exactly what the builder makes of the
/// file's bytes and metadata.
pub open spec fn entry_built(m: RecordModel, path: Seq<u8>, data: FileData, cfg: Config) -> bool {
    &&& data.meta is Some
    &&& record_wf(m)
    &&& if data.meta->Some_0.is_symlink && !cfg.follow_symlinks {
        m == sentinel_model(path)
    } else {
        record_built_from(m, path, data.raw@, data.meta->Some_0, cfg)
    }
}

/// One definition accounts for the record `m` standing under key `k`.
pub open spec fn source_yields(s: RouteSource, cfg: Config, k: Seq<u8>, m: RecordModel) -> bool {
    match s.target {
        RouteTarget::SingleFile { path, data } => k == normalize_spec(s.route@) && entry_built(
            m,
            path@,
            data,
            cfg,
        ),
        RouteTarget::Directory { dir_path, entries } => exists|j: int|
            0 <= j < entries@.len() && k == derive_key_spec(
                s.route@,
                dir_path@,
                (#[trigger] entries@[j]).full_path@,
            ) && entry_built(m, entries@[j].full_path@, entries@[j].data, cfg),
    }
}

/// Some definition accounts for the record `m` standing under key `k`.
pub open spec fn key_provenance(
    defs: Seq<RouteSource>,
    cfg: Config,
    k: Seq<u8>,
    m: RecordModel,
) -> bool {
    exists|i: int| 0 <= i < defs.len() && source_yields(#[trigger] defs[i], cfg, k, m)
}

/// Builds the record for one file and installs it under the normalized
/// route key, atomically replacing whatever the key held. On failure the
/// table is left exactly as it was.
pub fn associate_files_to_routes(
    table: &mut RouteTable,
    route: &Vec<u8>,
    path: &Vec<u8>,
    data: &FileData,
    cfg: &Config,
    registry: &handlebars::Handlebars,
    context: &handlebars::Context,
) -> (r: Result<(), BuildError>)
    requires
        old(table).wf(),
        path@.len() > 0,
        data_wf(*data),
    ensures
        final(table).wf(),
        final(table).not_found@ == old(table).not_found@,
        r matches Result::Err(_) ==> final(table)@ == old(table)@,
        r is Ok ==> exists|m: RecordModel|
            final(table)@ == old(table)@.insert(normalize_spec(route@), m) && entry_built(
                m,
                path@,
                *data,
                *cfg,
            ),
        (data.meta is None) <==> (r matches Result::Err(e) && e is Io),
        data.meta matches Option::Some(m) ==> (!(m.is_symlink && !cfg.follow_symlinks)
            && !is_template_path(path@) ==> (r is Err <==> !valid_header_bytes(
            spec_mime_choice(path@),
        ))),
        file_clean(path@, *data) ==> r is Ok,
        r matches Result::Err(e) && e is Render ==> is_template_path(path@),
        r matches Result::Err(e) && e is HeaderEncoding ==> !is_template_path(path@)
            && !valid_header_bytes(spec_mime_choice(path@)),
{
    match build_record(path, data, cfg, registry, context) {
        Result::Ok(rec) => {
            let ghost m = rec@;
            let nk = normalize_key(route);
            table.insert(nk, rec);
            proof {
                assert(final(table)@ == old(table)@.insert(normalize_spec(route@), m)
                    && entry_built(m, path@, *data, *cfg));
            }
            Result::Ok(())
        },
        Result::Err(e) => {
            proof {
                if file_clean(path@, *data) {
                    assert(false);
                }
            }
            Result::Err(e)
        },
    }
}

/// Installs the reserved not-found record: the user-supplied page when one
/// is configured, the built-in default otherwise. Route entries are
/// untouched.
pub fn add_error_pages(table: &mut RouteTable, user_page: Option<Vec<u8>>)
    requires
        old(table).wf(),
    ensures
        final(table).wf(),
        final(table)@ == old(table)@,
        final(table).not_found@ == match user_page {
            Option::Some(p) => p@,
            Option::None => spec_default_not_found(),
        },
{
    match user_page {
        Option::Some(p) => table.set_not_found(p),
        Option::None => {
            let d = default_not_found_page();
            table.set_not_found(d);
        },
    }
}

/// Processes every route definition into the table and installs the
/// not-found record. The keys the table gains are exactly those the
/// definitions imply; every gained record is accounted for by one of the
/// definitions' files; keys outside the definitions keep their records. Safe
/// to re-run: entries for the same keys are replaced, not accumulated. A
/// failure leaves the table with only a prefix of the definitions applied
/// and the not-found record unchanged.
pub fn add_routes(
    table: &mut RouteTable,
    defs: &Vec<RouteSource>,
    user_error_page: Option<Vec<u8>>,
    cfg: &Config,
    registry: &handlebars::Handlebars,
    context: &handlebars::Context,
) -> (r: Result<(), BuildError>)
    requires
        old(table).wf(),
        sources_wf(defs@),
    ensures
        final(table).wf(),
        r is Ok ==> final(table)@.dom() == old(table)@.dom().union(defs_keys(defs@)),
        r is Ok ==> forall|k: Seq<u8>|
            old(table)@.contains_key(k) && !defs_keys(defs@).contains(k) ==> final(table)@.contains_key(k)
                && final(table)@[k] == old(table)@[k],
        r is Ok ==> forall|k: Seq<u8>|
            defs_keys(defs@).contains(k) ==> final(table)@.contains_key(k) && key_provenance(
                defs@,
                *cfg,
                k,
                final(table)@[k],
            ),
        r is Ok ==> final(table).not_found@ == match user_error_page {
            Option::Some(p) => p@,
            Option::None => spec_default_not_found(),
        },
        r matches Result::Err(_) ==> old(table)@.dom().subset_of(final(table)@.dom())
            && final(table)@.dom().subset_of(old(table)@.dom().union(defs_keys(defs@)))
            && final(table).not_found@ == old(table).not_found@,
        defs_clean(defs@) ==> r is Ok,
        r matches Result::Err(e) && e is Io ==> defs_have_unreadable(defs@),
        r matches Result::Err(e) && e is Render ==> defs_have_template(defs@),
        r matches Result::Err(e) && e is HeaderEncoding ==> defs_have_bad_mime(defs@),
{
    let ghost base = old(table)@;
    let mut i: usize = 0;
    while i < defs.len()
        invariant
            0 <= i <= defs@.len(),
            sources_wf(defs@),
            table.wf(),
            table.not_found@ == old(table).not_found@,
            base == old(table)@,
            table@.dom() == base.dom().union(defs_keys(defs@.take(i as int))),
            forall|k: Seq<u8>|
                base.contains_key(k) && !defs_keys(defs@.take(i as int)).contains(k)
                    ==> table@.contains_key(k) && table@[k] == base[k],
            forall|k: Seq<u8>|
                defs_keys(defs@.take(i as int)).contains(k) ==> table@.contains_key(k)
                    && key_provenance(defs@, *cfg, k, table@[k]),
        decreases defs@.len() - i,
    {
        let ghost pre_dom_keys = defs_keys(defs@.take(i as int));
        match &defs[i].target {
            RouteTarget::SingleFile { path, data } => {
                let ghost pre = table@;
                let res = associate_files_to_routes(
                    table,
                    &defs[i].route,
                    path,
                    data,
                    cfg,
                    registry,
                    context,
                );
                proof {
                    lemma_defs_keys_take(defs@, i as int);
                }
                if let Result::Err(e) = res {
                    proof {
                        lemma_defs_keys_prefix_subset(defs@, i as int);
                        if defs_clean(defs@) {
                            assert(source_files_clean(defs@[i as int]));
                            assert(file_clean(path@, *data));
                            assert(false);
                        }
                        if e is Io {
                            assert(source_has_unreadable(defs@[i as int]));
                        }
                        if e is Render {
                            assert(source_has_template(defs@[i as int]));
                        }
                        if e is HeaderEncoding {
                            assert(source_has_bad_mime(defs@[i as int]));
                        }
                    }
                    return Result::Err(e);
                }
                proof {
                    let nk = normalize_spec(defs@[i as int].route@);
                    let m = choose|m: RecordModel|
                        table@ == pre.insert(nk, m) && entry_built(
                            m,
                            path@,
                            *data,
                            *cfg,
                        );
                    assert(source_yields(defs@[i as int], *cfg, nk, m));
                    assert(key_provenance(defs@, *cfg, nk, m));
                    assert(table@.dom() =~= base.dom().union(
                        defs_keys(defs@.take(i + 1 as int)),
                    ));
                    assert forall|k: Seq<u8>|
                        defs_keys(defs@.take(i + 1 as int)).contains(k) implies table@.contains_key(
                        k,
                    ) && key_provenance(defs@, *cfg, k, table@[k]) by {
                        if k == nk {
                            assert(table@[nk] == m);
                        } else {
                            assert(defs_keys(defs@.take(i as int)).contains(k));
                            assert(table@[k] == pre[k]);
                        }
                    }
                }
            },
            RouteTarget::Directory { dir_path, entries } => {
                let ghost route_v = defs@[i as int].route@;
                let ghost dir_v = dir_path@;
                let mut j: usize = 0;
                while j < entries.len()
                    invariant
                        0 <= j <= entries@.len(),
                        sources_wf(defs@),
                        0 <= i < defs@.len(),
                        defs@[i as int].target == (RouteTarget::Directory {
                            dir_path: *dir_path,
                            entries: *entries,
                        }),
                        route_v == defs@[i as int].route@,
                        dir_v == dir_path@,
                        table.wf(),
                        table.not_found@ == old(table).not_found@,
                        base == old(table)@,
                        table@.dom() == base.dom().union(pre_dom_keys).union(
                            entry_keys(route_v, dir_v, entries@.take(j as int)),
                        ),
                        pre_dom_keys == defs_keys(defs@.take(i as int)),
                        forall|k: Seq<u8>|
                            base.contains_key(k) && !pre_dom_keys.contains(k) && !entry_keys(
                                route_v,
                                dir_v,
                                entries@.take(j as int),
                            ).contains(k) ==> table@.contains_key(k) && table@[k] == base[k],
                        forall|k: Seq<u8>|
                            pre_dom_keys.contains(k) || entry_keys(
                                route_v,
                                dir_v,
                                entries@.take(j as int),
                            ).contains(k) ==> table@.contains_key(k) && key_provenance(
                                defs@,
                                *cfg,
                                k,
                                table@[k],
                            ),
                    decreases entries@.len() - j,
                {
                    let e = &entries[j];
                    assert(is_prefix_of(dir_v, e.full_path@) && e.full_path@.len() > 0 && data_wf(
                        e.data,
                    )) by {
                        assert(source_wf(defs@[i as int]));
                    }
                    let rel = copy_range(&e.full_path, dir_path.len(), e.full_path.len());
                    assert(rel@ =~= e.full_path@.skip(dir_v.len() as int));
                    let joined = join_route(&defs[i].route, &rel);
                    let cleaned = normalize_key(&joined);
                    let folded = fold_index(&cleaned);
                    let ghost pre = table@;
                    let res = associate_files_to_routes(
                        table,
                        &folded,
                        &e.full_path,
                        &e.data,
                        cfg,
                        registry,
                        context,
                    );
                    proof {
                        lemma_entry_keys_take(route_v, dir_v, entries@, j as int);
                        assert(normalize_spec(folded@) == derive_key_spec(
                            route_v,
                            dir_v,
                            e.full_path@,
                        ));
                    }
                    if let Result::Err(err) = res {
                        proof {
                            lemma_defs_keys_prefix_subset(defs@, i as int);
                            lemma_entry_keys_subset(route_v, dir_v, entries@, j as int);
                            lemma_defs_keys_member_target(defs@, i as int);
                            assert(entries@[j as int] == *e);
                            if defs_clean(defs@) {
                                assert(source_files_clean(defs@[i as int]));
                                assert(file_clean(entries@[j as int].full_path@, entries@[j as int].data));
                                assert(false);
                            }
                            if err is Io {
                                assert(entries@[j as int].data.meta is None);
                                assert(source_has_unreadable(defs@[i as int]));
                            }
                            if err is Render {
                                assert(is_template_path(entries@[j as int].full_path@));
                                assert(source_has_template(defs@[i as int]));
                            }
                            if err is HeaderEncoding {
                                assert(!is_template_path(entries@[j as int].full_path@)
                                    && !valid_header_bytes(
                                    spec_mime_choice(entries@[j as int].full_path@),
                                ));
                                assert(source_has_bad_mime(defs@[i as int]));
                            }
                        }
                        return Result::Err(err);
                    }
                    proof {
                        let dk = derive_key_spec(route_v, dir_v, e.full_path@);
                        let m = choose|m: RecordModel|
                            table@ == pre.insert(dk, m) && entry_built(
                                m,
                                e.full_path@,
                                e.data,
                                *cfg,
                            );
                        assert(entries@[j as int] == *e);
                        assert(source_yields(defs@[i as int], *cfg, dk, m)) by {
                            assert(0 <= j < entries@.len() && dk == derive_key_spec(
                                route_v,
                                dir_v,
                                entries@[j as int].full_path@,
                            ) && entry_built(
                                m,
                                entries@[j as int].full_path@,
                                entries@[j as int].data,
                                *cfg,
                            ));
                        }
                        assert(key_provenance(defs@, *cfg, dk, m));
                        assert(table@.dom() =~= base.dom().union(pre_dom_keys).union(
                            entry_keys(route_v, dir_v, entries@.take(j + 1 as int)),
                        ));
                    }
                    j = j + 1;
                }
                proof {
                    lemma_defs_keys_take(defs@, i as int);
                    assert(entries@.take(entries@.len() as int) =~= entries@);
                    assert(table@.dom() =~= base.dom().union(
                        defs_keys(defs@.take(i + 1 as int)),
                    ));
                    assert forall|k: Seq<u8>|
                        defs_keys(defs@.take(i + 1 as int)).contains(k) implies table@.contains_key(
                        k,
                    ) && key_provenance(defs@, *cfg, k, table@[k]) by {
                        assert(defs_keys(defs@.take(i as int)).contains(k) || entry_keys(
                            route_v,
                            dir_v,
                            entries@,
                        ).contains(k));
                    }
                }
            },
        }
        i = i + 1;
    }
    proof {
        assert(defs@.take(defs@.len() as int) =~= defs@);
    }
    add_error_pages(table, user_error_page);
    Result::Ok(())
}

proof fn lemma_defs_keys_prefix_subset(defs: Seq<RouteSource>, i: int)
    requires
        0 <= i <= defs.len(),
    ensures
        defs_keys(defs.take(i)).subset_of(defs_keys(defs)),
    decreases defs.len() - i,
{
    if i == defs.len() {
        assert(defs.take(i) =~= defs);
    } else {
        lemma_defs_keys_take(defs, i);
        lemma_defs_keys_prefix_subset(defs, i + 1);
    }
}

proof fn lemma_entry_keys_subset(route: Seq<u8>, dir: Seq<u8>, entries: Seq<DirEntry>, j: int)
    requires
        0 <= j <= entries.len(),
    ensures
        entry_keys(route, dir, entries.take(j)).subset_of(entry_keys(route, dir, entries)),
    decreases entries.len() - j,
{
    if j == entries.len() {
        assert(entries.take(j) =~= entries);
    } else {
        lemma_entry_keys_take(route, dir, entries, j);
        lemma_entry_keys_subset(route, dir, entries, j + 1);
    }
}

proof fn lemma_defs_keys_member_target(defs: Seq<RouteSource>, i: int)
    requires
        0 <= i < defs.len(),
    ensures
        target_keys(defs[i].route@, defs[i].target).subset_of(defs_keys(defs)),
    decreases defs.len(),
{
    if i == defs.len() - 1 {
    } else {
        lemma_defs_keys_member_target(defs.drop_last(), i);
        assert(defs.drop_last()[i] == defs[i]);
    }
}

} // verus!

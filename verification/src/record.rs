//! Content records: the immutable snapshot served for one route. Building a
//! record resolves the MIME type, renders template sources, optionally
//! minifies HTML, derives the ETag and Last-Modified validators from the
//! file's metadata, and decides whether the body stays in memory or on disk.

use vstd::prelude::*;
use crate::bytes::{
    valid_header_bytes, valid_header_byte, dec_spec, dec_u64, lemma_dec_spec_digits, ends_with,
    bytes_eq, is_valid_header_value, is_suffix_of, copy_range,
};
use crate::collaborators::{
    mime_raw_of, minify_of, http_date_of, guess_mime, minify_html_bytes, render_template,
    http_date_value, HTTP_DATE_MAX_SECS,
};
use crate::config::Config;

verus! {

/// Largest file size, in bytes, that the memory cache will hold.
pub const MAX_FILE_SIZE: u64 = 104857600;

/// What the builder reads of a file's metadata, as plain values.
#[derive(Clone, Copy)]
pub struct FileMeta {
    pub size: u64,
    pub mtime_secs: u64,
    pub mtime_nanos: u32,
    pub is_symlink: bool,
}

impl FileMeta {
    /// The modification time must fall before year 9999, the last HTTP-date
    /// second.
    pub open spec fn wf(self) -> bool {
        self.mtime_secs < HTTP_DATE_MAX_SECS
    }
}

/// What was read for one file: its metadata and raw bytes, or nothing when
/// reading failed.
pub struct FileData {
    pub meta: Option<FileMeta>,
    pub raw: Vec<u8>,
}

/// Why a build failed. Building is never partially successful.
#[derive(Debug)]
pub enum BuildError {
    /// The file or its metadata could not be read.
    Io,
    /// The templating collaborator rejected the source.
    Render(handlebars::RenderError),
    /// A derived value cannot stand in an HTTP header.
    HeaderEncoding,
}

/// Where a record's body lives; the type itself keeps a record from being
/// half of each.
pub enum StoredBody {
    /// The (possibly rendered and minified) bytes are held in memory.
    InMemory { bytes: Vec<u8> },
    /// Only the disk path backs the record; a rendered template keeps its
    /// pre-rendered output here, since the disk holds only its source.
    OnDisk { rendered: Option<Vec<u8>> },
    /// A symbolic link found while following links is disabled: nothing is
    /// served, deliberately.
    Withheld,
}

/// One servable resource: content type, validators, backing path and body.
pub struct ContentRecord {
    pub mime: Option<Vec<u8>>,
    pub etag: Option<Vec<u8>>,
    pub last_modified: Option<Vec<u8>>,
    pub disk_path: Vec<u8>,
    pub body: StoredBody,
}

/// The mathematical value of a stored body.
pub enum BodyModel {
    InMemory { bytes: Seq<u8> },
    OnDisk { rendered: Option<Seq<u8>> },
    Withheld,
}

/// The mathematical value of a content record.
pub struct RecordModel {
    pub mime: Option<Seq<u8>>,
    pub etag: Option<Seq<u8>>,
    pub last_modified: Option<Seq<u8>>,
    pub disk_path: Seq<u8>,
    pub body: BodyModel,
}

impl View for StoredBody {
    type V = BodyModel;

    open spec fn view(&self) -> BodyModel {
        match self {
            StoredBody::InMemory { bytes } => BodyModel::InMemory { bytes: bytes@ },
            StoredBody::OnDisk { rendered } => BodyModel::OnDisk {
                rendered: match rendered {
                    Option::Some(v) => Option::Some(v@),
                    Option::None => Option::None,
                },
            },
            StoredBody::Withheld => BodyModel::Withheld,
        }
    }
}

impl View for ContentRecord {
    type V = RecordModel;

    open spec fn view(&self) -> RecordModel {
        RecordModel {
            mime: match self.mime {
                Option::Some(v) => Option::Some(v@),
                Option::None => Option::None,
            },
            etag: match self.etag {
                Option::Some(v) => Option::Some(v@),
                Option::None => Option::None,
            },
            last_modified: match self.last_modified {
                Option::Some(v) => Option::Some(v@),
                Option::None => Option::None,
            },
            disk_path: self.disk_path@,
            body: self.body@,
        }
    }
}

/// All three header values are present.
pub open spec fn validators_present(m: RecordModel) -> bool {
    m.mime is Some && m.etag is Some && m.last_modified is Some
}

/// A well-formed record: memory-resident exactly when it holds bytes,
/// disk-resident records name their backing path, a withheld record carries
/// nothing, and every present header value is valid.
pub open spec fn record_wf(m: RecordModel) -> bool {
    &&& match m.body {
        BodyModel::InMemory { bytes } => bytes.len() > 0 && validators_present(m)
            && m.disk_path.len() > 0,
        BodyModel::OnDisk { rendered: _ } => validators_present(m) && m.disk_path.len() > 0,
        BodyModel::Withheld => m.mime is None && m.etag is None && m.last_modified is None
            && m.disk_path.len() > 0,
    }
    &&& (m.mime matches Option::Some(v) ==> valid_header_bytes(v))
    &&& (m.etag matches Option::Some(v) ==> valid_header_bytes(v))
    &&& (m.last_modified matches Option::Some(v) ==> valid_header_bytes(v))
}

/// The ETag derived from file metadata: W/"size-secs.nanos", deterministic
/// in the (size, modification time) pair.
pub open spec fn etag_spec(size: u64, secs: u64, nanos: u32) -> Seq<u8> {
    seq![87u8, 47u8, 34u8] + dec_spec(size as nat) + seq![45u8] + dec_spec(secs as nat) + seq![
        46u8,
    ] + dec_spec(nanos as nat) + seq![34u8]
}

/// Derives the ETag header value from file metadata.
pub fn etag_value(meta: &FileMeta) -> (r: Vec<u8>)
    ensures
        r@ == etag_spec(meta.size, meta.mtime_secs, meta.mtime_nanos),
        valid_header_bytes(r@),
{
    let mut out: Vec<u8> = Vec::new();
    out.push(87);
    out.push(47);
    out.push(34);
    let size_digits = dec_u64(meta.size);
    crate::bytes::append_bytes(&mut out, &size_digits);
    out.push(45);
    let secs_digits = dec_u64(meta.mtime_secs);
    crate::bytes::append_bytes(&mut out, &secs_digits);
    out.push(46);
    let nanos_digits = dec_u64(meta.mtime_nanos as u64);
    crate::bytes::append_bytes(&mut out, &nanos_digits);
    out.push(34);
    proof {
        assert(out@ =~= etag_spec(meta.size, meta.mtime_secs, meta.mtime_nanos));
        lemma_etag_valid(meta.size, meta.mtime_secs, meta.mtime_nanos);
    }
    out
}

/// Every byte of a derived ETag may stand in a header value.
pub proof fn lemma_etag_valid(size: u64, secs: u64, nanos: u32)
    ensures
        valid_header_bytes(etag_spec(size, secs, nanos)),
{
    lemma_dec_spec_digits(size as nat);
    lemma_dec_spec_digits(secs as nat);
    lemma_dec_spec_digits(nanos as nat);
    let s = etag_spec(size, secs, nanos);
    let a = dec_spec(size as nat);
    let b = dec_spec(secs as nat);
    let c = dec_spec(nanos as nat);
    assert forall|i: int| 0 <= i < s.len() implies valid_header_byte(s[i]) by {
        if 3 <= i < 3 + a.len() {
            assert(s[i] == a[i - 3]);
        } else if 4 + a.len() <= i < 4 + a.len() + b.len() {
            assert(s[i] == b[i - 4 - a.len()]);
        } else if 5 + a.len() + b.len() <= i < 5 + a.len() + b.len() + c.len() {
            assert(s[i] == c[i - 5 - a.len() - b.len()]);
        }
    }
}

/// The ETag derivation is injective: records built from files whose size or
/// modification time differ carry different ETags, so a changed file is
/// always seen as changed by conditional requests.
#[verifier::rlimit(80)]
pub proof fn lemma_etag_injective(
    size1: u64,
    secs1: u64,
    nanos1: u32,
    size2: u64,
    secs2: u64,
    nanos2: u32,
)
    requires
        etag_spec(size1, secs1, nanos1) == etag_spec(size2, secs2, nanos2),
    ensures
        size1 == size2,
        secs1 == secs2,
        nanos1 == nanos2,
{
    let a1 = dec_spec(size1 as nat);
    let b1 = dec_spec(secs1 as nat);
    let c1 = dec_spec(nanos1 as nat);
    let a2 = dec_spec(size2 as nat);
    let b2 = dec_spec(secs2 as nat);
    let c2 = dec_spec(nanos2 as nat);
    lemma_dec_spec_digits(size1 as nat);
    lemma_dec_spec_digits(secs1 as nat);
    lemma_dec_spec_digits(nanos1 as nat);
    lemma_dec_spec_digits(size2 as nat);
    lemma_dec_spec_digits(secs2 as nat);
    lemma_dec_spec_digits(nanos2 as nat);
    let r1 = seq![45u8] + b1 + seq![46u8] + c1 + seq![34u8];
    let r2 = seq![45u8] + b2 + seq![46u8] + c2 + seq![34u8];
    assert(etag_spec(size1, secs1, nanos1).skip(3) =~= a1 + r1);
    assert(etag_spec(size2, secs2, nanos2).skip(3) =~= a2 + r2);
    assert(r1[0] == 45 && r2[0] == 45);
    crate::bytes::lemma_digit_run_unique(a1, r1, a2, r2);
    crate::bytes::lemma_dec_spec_injective(size1 as nat, size2 as nat);
    let s1 = seq![46u8] + c1 + seq![34u8];
    let s2 = seq![46u8] + c2 + seq![34u8];
    assert(r1.skip(1) =~= b1 + s1);
    assert(r2.skip(1) =~= b2 + s2);
    assert(s1[0] == 46 && s2[0] == 46);
    crate::bytes::lemma_digit_run_unique(b1, s1, b2, s2);
    crate::bytes::lemma_dec_spec_injective(secs1 as nat, secs2 as nat);
    assert(s1.skip(1) =~= c1 + seq![34u8]);
    assert(s2.skip(1) =~= c2 + seq![34u8]);
    crate::bytes::lemma_digit_run_unique(c1, seq![34u8], c2, seq![34u8]);
    crate::bytes::lemma_dec_spec_injective(nanos1 as nat, nanos2 as nat);
}

/// The bytes of ".hbs", the template extension.
pub open spec fn spec_hbs_suffix() -> Seq<u8> {
    seq![46u8, 104u8, 98u8, 115u8]
}

/// A path names a template source when it ends in ".hbs".
pub open spec fn is_template_path(path: Seq<u8>) -> bool {
    is_suffix_of(spec_hbs_suffix(), path)
}

fn suffix_hbs() -> (r: Vec<u8>)
    ensures
        r@ == spec_hbs_suffix(),
{
    let mut t: Vec<u8> = Vec::new();
    t.push(46);
    t.push(104);
    t.push(98);
    t.push(115);
    assert(t@ =~= spec_hbs_suffix());
    t
}

/// The bytes of "text/html".
pub open spec fn spec_text_html() -> Seq<u8> {
    seq![116u8, 101u8, 120u8, 116u8, 47u8, 104u8, 116u8, 109u8, 108u8]
}

fn lit_text_html() -> (r: Vec<u8>)
    ensures
        r@ == spec_text_html(),
{
    let mut t: Vec<u8> = Vec::new();
    t.push(116);
    t.push(101);
    t.push(120);
    t.push(116);
    t.push(47);
    t.push(104);
    t.push(116);
    t.push(109);
    t.push(108);
    assert(t@ =~= spec_text_html());
    t
}

/// The bytes of "application/octet-stream", the default MIME type.
pub open spec fn spec_octet_stream() -> Seq<u8> {
    seq![97u8, 112u8, 112u8, 108u8, 105u8, 99u8, 97u8, 116u8, 105u8, 111u8, 110u8, 47u8, 111u8,
        99u8, 116u8, 101u8, 116u8, 45u8, 115u8, 116u8, 114u8, 101u8, 97u8, 109u8]
}

fn lit_octet_stream() -> (r: Vec<u8>)
    ensures
        r@ == spec_octet_stream(),
{
    let mut t: Vec<u8> = Vec::new();
    t.push(97);
    t.push(112);
    t.push(112);
    t.push(108);
    t.push(105);
    t.push(99);
    t.push(97);
    t.push(116);
    t.push(105);
    t.push(111);
    t.push(110);
    t.push(47);
    t.push(111);
    t.push(99);
    t.push(116);
    t.push(101);
    t.push(116);
    t.push(45);
    t.push(115);
    t.push(116);
    t.push(114);
    t.push(101);
    t.push(97);
    t.push(109);
    assert(t@ =~= spec_octet_stream());
    t
}

/// The content type a record gets: text/html for template sources, the
/// extension's MIME type otherwise, defaulting to application/octet-stream.
pub open spec fn spec_mime_choice(path: Seq<u8>) -> Seq<u8> {
    if is_template_path(path) {
        spec_text_html()
    } else {
        match mime_raw_of(path) {
            Option::Some(m) => m,
            Option::None => spec_octet_stream(),
        }
    }
}

/// Whether the minification pass applies to this path under these toggles.
pub open spec fn minify_applies(path: Seq<u8>, cfg: Config) -> bool {
    cfg.minify_html && spec_mime_choice(path) == spec_text_html()
}

/// The bytes after the optional minification pass: the minified output when
/// it applies and succeeds, the input otherwise.
pub open spec fn spec_apply_minify(enabled: bool, b: Seq<u8>) -> Seq<u8> {
    if enabled {
        match minify_of(b) {
            Option::Some(m) => m,
            Option::None => b,
        }
    } else {
        b
    }
}

/// The storage decision: bytes stay in memory only when the file is below
/// the size ceiling, the memory cache is on, and there is something to hold;
/// otherwise the record is disk-backed, keeping any pre-rendered output.
pub open spec fn chosen_body(
    meta: FileMeta,
    cfg: Config,
    contents: Seq<u8>,
    rendered: Option<Seq<u8>>,
) -> BodyModel {
    if meta.size < MAX_FILE_SIZE && cfg.fast_mem_cache && contents.len() > 0 {
        BodyModel::InMemory { bytes: contents }
    } else {
        BodyModel::OnDisk { rendered }
    }
}

/// The record's symlink sentinel: no bytes, no validators, path kept.
pub open spec fn sentinel_model(path: Seq<u8>) -> RecordModel {
    RecordModel {
        mime: Option::None,
        etag: Option::None,
        last_modified: Option::None,
        disk_path: path,
        body: BodyModel::Withheld,
    }
}

/// What a successful non-sentinel build pins down. For a template source the
/// body is the rendering collaborator's output, minified when configured and
/// kept pre-rendered on disk-backed records; for any other file the body is
/// an exact function of the raw bytes.
pub open spec fn record_built_from(
    r: RecordModel,
    path: Seq<u8>,
    raw: Seq<u8>,
    meta: FileMeta,
    cfg: Config,
) -> bool {
    &&& r.disk_path == path
    &&& r.etag == Option::Some(etag_spec(meta.size, meta.mtime_secs, meta.mtime_nanos))
    &&& r.last_modified == Option::Some(http_date_of(meta.mtime_secs))
    &&& r.mime == Option::Some(spec_mime_choice(path))
    &&& if is_template_path(path) {
        exists|rendered: Seq<u8>|
            r.body == chosen_body(
                meta,
                cfg,
                spec_apply_minify(cfg.minify_html, rendered),
                Option::Some(rendered),
            )
    } else {
        r.body == chosen_body(
            meta,
            cfg,
            spec_apply_minify(minify_applies(path, cfg), raw),
            Option::None,
        )
    }
}

/// Two records built from the same (size, modification time) metadata carry
/// byte-identical ETag and Last-Modified values, whatever else differed.
pub proof fn lemma_validators_deterministic(
    r1: RecordModel,
    r2: RecordModel,
    path1: Seq<u8>,
    path2: Seq<u8>,
    raw1: Seq<u8>,
    raw2: Seq<u8>,
    meta: FileMeta,
    cfg1: Config,
    cfg2: Config,
)
    requires
        record_built_from(r1, path1, raw1, meta, cfg1),
        record_built_from(r2, path2, raw2, meta, cfg2),
    ensures
        r1.etag == r2.etag,
        r1.last_modified == r2.last_modified,
{
}

/// Assembles the record for a template source from the rendering
/// collaborator's output: the exact record is pinned for each value of the
/// rendered bytes — the body is the rendered output (minified when
/// configured), a disk-backed record retains the pre-rendered output, the
/// content type is text/html, and the validators are derived from the
/// metadata. `build_record` hands the renderer's result here, so what is
/// made of it is checkable one call down.
pub fn assemble_rendered(
    path: &Vec<u8>,
    meta: &FileMeta,
    cfg: &Config,
    rendered: Vec<u8>,
) -> (rec: ContentRecord)
    requires
        path@.len() > 0,
        meta.wf(),
    ensures
        record_wf(rec@),
        rec@.disk_path == path@,
        rec@.mime == Option::Some(spec_text_html()),
        rec@.etag == Option::Some(etag_spec(meta.size, meta.mtime_secs, meta.mtime_nanos)),
        rec@.last_modified == Option::Some(http_date_of(meta.mtime_secs)),
        rec@.body == chosen_body(
            *meta,
            *cfg,
            spec_apply_minify(cfg.minify_html, rendered@),
            Option::Some(rendered@),
        ),
{
    let mut contents = copy_range(&rendered, 0, rendered.len());
    assert(contents@ =~= rendered@);
    if cfg.minify_html {
        match minify_html_bytes(&contents) {
            Result::Ok(m) => {
                contents = m;
            },
            Result::Err(_) => {},
        }
    }
    let etag = etag_value(meta);
    let last_modified = http_date_value(meta.mtime_secs);
    let body: StoredBody = if meta.size < MAX_FILE_SIZE && cfg.fast_mem_cache && contents.len()
        > 0 {
        StoredBody::InMemory { bytes: contents }
    } else {
        StoredBody::OnDisk { rendered: Option::Some(rendered) }
    };
    let rec = ContentRecord {
        mime: Option::Some(lit_text_html()),
        etag: Option::Some(etag),
        last_modified: Option::Some(last_modified),
        disk_path: copy_range(path, 0, path.len()),
        body,
    };
    proof {
        assert(rec@.disk_path =~= path@);
        assert(valid_header_bytes(spec_text_html()));
    }
    rec
}

/// Builds the content record for the file at `path`, from what was read of
/// it and the configuration toggles, rendering template sources through the
/// templating collaborator.
pub fn build_record(
    path: &Vec<u8>,
    data: &FileData,
    cfg: &Config,
    registry: &handlebars::Handlebars,
    context: &handlebars::Context,
) -> (r: Result<ContentRecord, BuildError>)
    requires
        path@.len() > 0,
        data.meta matches Option::Some(m) ==> m.wf(),
    ensures
        (data.meta is None) <==> (r matches Result::Err(e) && e is Io),
        (data.meta matches Option::Some(m) && m.is_symlink && !cfg.follow_symlinks) <==> (
        r matches Result::Ok(rec) && rec@ == sentinel_model(path@)),
        data.meta matches Option::Some(m) ==> (!(m.is_symlink && !cfg.follow_symlinks) ==> (
        r matches Result::Ok(rec) ==> record_built_from(rec@, path@, data.raw@, m, *cfg))),
        r matches Result::Err(e) && e is Render ==> is_template_path(path@),
        data.meta matches Option::Some(m) && !(m.is_symlink && !cfg.follow_symlinks)
            && !is_template_path(path@) ==> (r is Err <==> !valid_header_bytes(
            spec_mime_choice(path@),
        )),
        data.meta matches Option::Some(m) ==> (!(m.is_symlink && !cfg.follow_symlinks)
            && !is_template_path(path@) ==> (r matches Result::Err(e) ==> e is HeaderEncoding)),
        data.meta matches Option::Some(m) ==> (!(m.is_symlink && !cfg.follow_symlinks)
            && is_template_path(path@) ==> (r matches Result::Err(e) ==> e is Render)),
        r matches Result::Ok(rec) ==> record_wf(rec@),
{
    let meta: FileMeta = match &data.meta {
        Option::None => {
            return Result::Err(BuildError::Io);
        },
        Option::Some(m) => *m,
    };
    if meta.is_symlink && !cfg.follow_symlinks {
        let dp = copy_range(path, 0, path.len());
        assert(dp@ =~= path@);
        let rec = ContentRecord {
            mime: Option::None,
            etag: Option::None,
            last_modified: Option::None,
            disk_path: dp,
            body: StoredBody::Withheld,
        };
        assert(rec@ == sentinel_model(path@));
        return Result::Ok(rec);
    }
    let hbs = suffix_hbs();
    let is_tpl = ends_with(path, &hbs);
    if is_tpl {
        return match render_template(registry, context, &data.raw) {
            Result::Ok(rendered) => {
                let ghost w = rendered@;
                let rec = assemble_rendered(path, &meta, cfg, rendered);
                proof {
                    assert(rec@.body == chosen_body(
                        meta,
                        *cfg,
                        spec_apply_minify(cfg.minify_html, w),
                        Option::Some(w),
                    ));
                }
                Result::Ok(rec)
            },
            Result::Err(e) => Result::Err(BuildError::Render(e)),
        };
    }
    let mime: Vec<u8> = match guess_mime(path) {
        Option::Some(m) => m,
        Option::None => lit_octet_stream(),
    };
    let mut contents = copy_range(&data.raw, 0, data.raw.len());
    assert(contents@ =~= data.raw@);
    let html = lit_text_html();
    let minify_on = cfg.minify_html && bytes_eq(&mime, &html);
    assert(minify_on == minify_applies(path@, *cfg));
    if minify_on {
        match minify_html_bytes(&contents) {
            Result::Ok(m) => {
                contents = m;
            },
            Result::Err(_) => {},
        }
    }
    assert(contents@ == spec_apply_minify(minify_applies(path@, *cfg), data.raw@));
    if !is_valid_header_value(&mime) {
        return Result::Err(BuildError::HeaderEncoding);
    }
    let etag = etag_value(&meta);
    let last_modified = http_date_value(meta.mtime_secs);
    let body: StoredBody = if meta.size < MAX_FILE_SIZE && cfg.fast_mem_cache && contents.len() > 0 {
        StoredBody::InMemory { bytes: contents }
    } else {
        StoredBody::OnDisk { rendered: Option::None }
    };
    let rec = ContentRecord {
        mime: Option::Some(mime),
        etag: Option::Some(etag),
        last_modified: Option::Some(last_modified),
        disk_path: copy_range(path, 0, path.len()),
        body,
    };
    proof {
        assert(rec@.disk_path =~= path@);
    }
    Result::Ok(rec)
}

} // verus!

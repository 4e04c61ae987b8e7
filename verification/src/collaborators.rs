//! The narrow interfaces to the outside collaborators: MIME resolution, the
//! templating engine, HTML minification and HTTP-date formatting. Each
//! wrapper body only makes the one outside call and converts values; its
//! contract is what the rest of the crate relies on.

use vstd::prelude::*;
use crate::bytes::valid_header_bytes;

verus! {

#[verifier::external_type_specification]
#[verifier::external_body]
pub struct ExHandlebars<'reg>(handlebars::Handlebars<'reg>);

#[verifier::external_type_specification]
#[verifier::external_body]
pub struct ExContext(handlebars::Context);

#[verifier::external_type_specification]
#[verifier::external_body]
pub struct ExRenderError(handlebars::RenderError);

#[verifier::external_type_specification]
#[verifier::external_body]
pub struct ExMinifyError(minify_html_onepass::Error);

/// The MIME type, if any, that the path's extension resolves to.
pub uninterp spec fn mime_raw_of(path: Seq<u8>) -> Option<Seq<u8>>;

/// Relies on new_mime_guess::from_path and MimeGuess::first_raw: the guess is
/// a lookup on the path's extension and depends on the path alone.
#[verifier::external_body]
pub fn guess_mime(path: &Vec<u8>) -> (r: Option<Vec<u8>>)
    ensures
        match r {
            Option::Some(m) => mime_raw_of(path@) == Option::Some(m@),
            Option::None => mime_raw_of(path@) is None,
        },
{
    let text = String::from_utf8_lossy(path);
    new_mime_guess::from_path(text.as_ref()).first_raw().map(|m| m.as_bytes().to_vec())
}

/// What minification makes of the given HTML bytes: the minified bytes, or
/// nothing when the minifier rejects the input.
pub uninterp spec fn minify_of(html: Seq<u8>) -> Option<Seq<u8>>;

/// Relies on minify_html_onepass::copy with the default Cfg: it rewrites the
/// bytes in one pass and depends on the input alone.
#[verifier::external_body]
pub fn minify_html_bytes(html: &Vec<u8>) -> (r: Result<Vec<u8>, minify_html_onepass::Error>)
    ensures
        match r {
            Result::Ok(m) => minify_of(html@) == Option::Some(m@),
            Result::Err(_) => minify_of(html@) is None,
        },
{
    minify_html_onepass::copy(html, &minify_html_onepass::Cfg::new())
}

/// Relies on handlebars::Handlebars::render_template_with_context. The
/// output depends on the registered partials and the context, both opaque
/// here, so nothing is promised of it; callers state what holds whatever
/// comes back.
#[verifier::external_body]
pub fn render_template(
    registry: &handlebars::Handlebars,
    context: &handlebars::Context,
    source: &Vec<u8>,
) -> (r: Result<Vec<u8>, handlebars::RenderError>)
{
    let text = String::from_utf8_lossy(source);
    registry.render_template_with_context(text.as_ref(), context).map(|s| s.into_bytes())
}

/// The final second representable in an HTTP date, at the turn of year 9999.
pub const HTTP_DATE_MAX_SECS: u64 = 253402300800;

/// The IMF-fixdate text for the given seconds since the epoch.
pub uninterp spec fn http_date_of(secs: u64) -> Seq<u8>;

/// Relies on actix_web::http::header::HttpDate, whose Display (via the
/// httpdate crate) writes an IMF-fixdate of exactly 29 bytes, all printable
/// ASCII, as a function of the time alone; its From<SystemTime> panics from
/// year 9999 on, which the precondition rules out.
#[verifier::external_body]
pub fn http_date_value(secs: u64) -> (r: Vec<u8>)
    requires
        secs < HTTP_DATE_MAX_SECS,
    ensures
        r@ == http_date_of(secs),
        r@.len() == 29,
        valid_header_bytes(r@),
{
    let time = std::time::UNIX_EPOCH + std::time::Duration::from_secs(secs);
    let date = actix_web::http::header::HttpDate::from(time);
    format!("{}", date).into_bytes()
}

} // verus!

//! The conditional-request evaluator: given the validators a client sent and
//! the validators stored for a record, decides whether the client's cached
//! copy is still current.

use vstd::prelude::*;
use crate::bytes::bytes_eq;

verus! {

/// The caching policy over the four combinations of present and absent
/// request validators. No validator present means not cached; when only one
/// validator is present, a match on it alone suffices; when both are present,
/// either matching one suffices. The permissive any-match verdict for two
/// present validators is a deliberate relaxation of the strict
/// both-must-agree reading.
pub open spec fn client_cached_spec(
    if_none_match: Option<Seq<u8>>,
    if_modified_since: Option<Seq<u8>>,
    etag: Seq<u8>,
    last_modified: Seq<u8>,
) -> bool {
    match (if_none_match, if_modified_since) {
        (Option::None, Option::None) => false,
        (Option::Some(e), Option::None) => e == etag,
        (Option::None, Option::Some(m)) => m == last_modified,
        (Option::Some(e), Option::Some(m)) => e == etag || m == last_modified,
    }
}

/// Decides whether the client already holds a current copy, from the
/// `If-None-Match` and `If-Modified-Since` values it sent and the stored
/// validators. All four presence combinations are handled exhaustively.
pub fn request_client_is_cached(
    if_none_match: Option<&Vec<u8>>,
    if_modified_since: Option<&Vec<u8>>,
    etag: &Vec<u8>,
    last_modified: &Vec<u8>,
) -> (r: bool)
    ensures
        r == client_cached_spec(
            match if_none_match {
                Option::Some(e) => Option::Some(e@),
                Option::None => Option::None,
            },
            match if_modified_since {
                Option::Some(m) => Option::Some(m@),
                Option::None => Option::None,
            },
            etag@,
            last_modified@,
        ),
{
    match (if_none_match, if_modified_since) {
        (Option::None, Option::None) => false,
        (Option::Some(req_etag), Option::None) => bytes_eq(req_etag, etag),
        (Option::None, Option::Some(req_last_modified)) => bytes_eq(
            req_last_modified,
            last_modified,
        ),
        (Option::Some(req_etag), Option::Some(req_last_modified)) => bytes_eq(req_etag, etag)
            || bytes_eq(req_last_modified, last_modified),
    }
}

} // verus!

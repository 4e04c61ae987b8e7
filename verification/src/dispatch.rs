//! The dispatcher: normalizes a request path, looks it up in the route
//! table, evaluates the conditional-request headers, and decides the
//! response: not-found, 304 with validators only, a full body, or a
//! delegation to the disk-serving collaborator.

use vstd::prelude::*;
use crate::cond::{client_cached_spec, request_client_is_cached};
use crate::keys::{normalize_spec, normalize_key};
use crate::record::{BodyModel, RecordModel, validators_present};
use crate::table::RouteTable;

verus! {

/// What the dispatcher answers; bodies borrow from the table.
pub enum Response<'a> {
    /// The path has no route: the reserved body, with no caching headers.
    NotFound { body: &'a Vec<u8> },
    /// The client's copy is current: validators only.
    NotModified { etag: &'a Vec<u8>, last_modified: &'a Vec<u8> },
    /// A full answer from the record's bytes.
    Content { body: &'a Vec<u8>, mime: &'a Vec<u8>, etag: &'a Vec<u8>, last_modified: &'a Vec<u8> },
    /// A plain disk-resident file: the disk-serving collaborator streams it
    /// and derives its own validators.
    Delegated { disk_path: &'a Vec<u8> },
    /// A withheld record: an empty answer, nothing disclosed.
    Suppressed,
}

/// The mathematical value of a response.
pub enum ResponseModel {
    NotFound { body: Seq<u8> },
    NotModified { etag: Seq<u8>, last_modified: Seq<u8> },
    Content { body: Seq<u8>, mime: Seq<u8>, etag: Seq<u8>, last_modified: Seq<u8> },
    Delegated { disk_path: Seq<u8> },
    Suppressed,
}

impl<'a> View for Response<'a> {
    type V = ResponseModel;

    open spec fn view(&self) -> ResponseModel {
        match self {
            Response::NotFound { body } => ResponseModel::NotFound { body: body@ },
            Response::NotModified { etag, last_modified } => ResponseModel::NotModified {
                etag: etag@,
                last_modified: last_modified@,
            },
            Response::Content { body, mime, etag, last_modified } => ResponseModel::Content {
                body: body@,
                mime: mime@,
                etag: etag@,
                last_modified: last_modified@,
            },
            Response::Delegated { disk_path } => ResponseModel::Delegated {
                disk_path: disk_path@,
            },
            Response::Suppressed => ResponseModel::Suppressed,
        }
    }
}

/// The response owed for the normalized key `k`: a miss answers the reserved
/// body without validators; a withheld record answers nothing; a plain
/// disk-resident record is delegated; a memory-resident record or a
/// disk-resident template answers 304 when the client is cached and the
/// stored bytes otherwise.
pub open spec fn dispatch_spec(
    m: Map<Seq<u8>, RecordModel>,
    not_found: Seq<u8>,
    k: Seq<u8>,
    if_none_match: Option<Seq<u8>>,
    if_modified_since: Option<Seq<u8>>,
) -> ResponseModel {
    if !m.contains_key(k) {
        ResponseModel::NotFound { body: not_found }
    } else {
        let rec = m[k];
        match rec.body {
            BodyModel::Withheld => ResponseModel::Suppressed,
            BodyModel::OnDisk { rendered } => match rendered {
                Option::None => ResponseModel::Delegated { disk_path: rec.disk_path },
                Option::Some(rb) => if client_cached_spec(
                    if_none_match,
                    if_modified_since,
                    rec.etag->Some_0,
                    rec.last_modified->Some_0,
                ) {
                    ResponseModel::NotModified {
                        etag: rec.etag->Some_0,
                        last_modified: rec.last_modified->Some_0,
                    }
                } else {
                    ResponseModel::Content {
                        body: rb,
                        mime: rec.mime->Some_0,
                        etag: rec.etag->Some_0,
                        last_modified: rec.last_modified->Some_0,
                    }
                },
            },
            BodyModel::InMemory { bytes } => if client_cached_spec(
                if_none_match,
                if_modified_since,
                rec.etag->Some_0,
                rec.last_modified->Some_0,
            ) {
                ResponseModel::NotModified {
                    etag: rec.etag->Some_0,
                    last_modified: rec.last_modified->Some_0,
                }
            } else {
                ResponseModel::Content {
                    body: bytes,
                    mime: rec.mime->Some_0,
                    etag: rec.etag->Some_0,
                    last_modified: rec.last_modified->Some_0,
                }
            },
        }
    }
}

/// Handles one request: the answer is exactly what `dispatch_spec` owes for
/// the normalized path and the validators the client sent. Lookups never
/// fail; a miss is the not-found answer, not an error.
pub fn handle<'a>(
    table: &'a RouteTable,
    path: &Vec<u8>,
    if_none_match: Option<&Vec<u8>>,
    if_modified_since: Option<&Vec<u8>>,
) -> (r: Response<'a>)
    requires
        table.wf(),
    ensures
        r@ == dispatch_spec(
            table@,
            table.not_found@,
            normalize_spec(path@),
            match if_none_match {
                Option::Some(e) => Option::Some(e@),
                Option::None => Option::None,
            },
            match if_modified_since {
                Option::Some(m) => Option::Some(m@),
                Option::None => Option::None,
            },
        ),
{
    let nk = normalize_key(path);
    match table.get(&nk) {
        Option::None => Response::NotFound { body: &table.not_found },
        Option::Some(rec) => {
            proof {
                table.lemma_wf_records();
            }
            match &rec.body {
                crate::record::StoredBody::Withheld => Response::Suppressed,
                crate::record::StoredBody::OnDisk { rendered: Option::None } => {
                    Response::Delegated { disk_path: &rec.disk_path }
                },
                crate::record::StoredBody::OnDisk { rendered: Option::Some(rb) } => {
                    assert(validators_present(rec@));
                    match (&rec.etag, &rec.last_modified, &rec.mime) {
                        (
                            Option::Some(etag),
                            Option::Some(last_modified),
                            Option::Some(mime),
                        ) => {
                            if request_client_is_cached(
                                if_none_match,
                                if_modified_since,
                                etag,
                                last_modified,
                            ) {
                                Response::NotModified { etag, last_modified }
                            } else {
                                Response::Content { body: rb, mime, etag, last_modified }
                            }
                        },
                        _ => {
                            proof {
                                assert(false);
                            }
                            Response::Suppressed
                        },
                    }
                },
                crate::record::StoredBody::InMemory { bytes } => {
                    assert(validators_present(rec@));
                    match (&rec.etag, &rec.last_modified, &rec.mime) {
                        (
                            Option::Some(etag),
                            Option::Some(last_modified),
                            Option::Some(mime),
                        ) => {
                            if request_client_is_cached(
                                if_none_match,
                                if_modified_since,
                                etag,
                                last_modified,
                            ) {
                                Response::NotModified { etag, last_modified }
                            } else {
                                Response::Content { body: bytes, mime, etag, last_modified }
                            }
                        },
                        _ => {
                            proof {
                                assert(false);
                            }
                            Response::Suppressed
                        },
                    }
                },
            }
        },
    }
}

} // verus!

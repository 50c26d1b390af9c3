//! The two request pipelines: upload and retrieval.
//!
//! Each pipeline runs the middleware chain — the blacklist filter
//! first, then the cross-origin policy — and then the route handler,
//! and returns everything the surrounding server must do: the response
//! to send, the file to store, and the audit line to append.  A denied
//! request short-circuits before the cross-origin stage and leaves no
//! trace; every other response carries the cross-origin headers.

use vstd::prelude::*;

use crate::blacklist::BlacklistMiddleware;
use crate::ident::{gen_id, valid_id};
use crate::multipart::{decode_multipart, decode_upload};
use crate::params::{param_value, pct_decoded};
use crate::policy::{ascii_vec, blocked_extension, extension, extension_of, is_blocked_extension,
    SIZE_LIMIT};
use crate::records::{access_line, push_all, upload_line, AccessRecord, UploadRecord};
use crate::scan::subvec;

verus! {

/// An HTTP response: status, body, and response headers.
pub struct Response {
    pub status: u16,
    pub body: Vec<u8>,
    pub headers: Vec<(Vec<u8>, Vec<u8>)>,
}

/// A file the server must write: its on-disk name and its contents.
pub struct StoredFile {
    pub name: Vec<u8>,
    pub contents: Vec<u8>,
}

/// Why an upload was rejected.
#[derive(Clone, Copy, PartialEq, Eq, Structural, Debug)]
pub enum UploadError {
    MalformedUpload,
    BlockedExtension,
    PayloadTooLarge,
}

/// Everything one upload request decides: the response, the file to
/// store if any, the upload-log line to append if any, and the
/// rejection if any.
pub struct UploadOutcome {
    pub response: Response,
    pub stored: Option<StoredFile>,
    pub log_line: Option<Vec<u8>>,
    pub error: Option<UploadError>,
}

/// Everything one retrieval request decides: the response and the
/// access-log line to append if any.
pub struct RetrievalOutcome {
    pub response: Response,
    pub log_line: Option<Vec<u8>>,
}

/// The bytes of `access-control-allow-origin`.
pub open spec fn allow_origin_name() -> Seq<u8> {
    seq![
        97u8, 99u8, 99u8, 101u8, 115u8, 115u8, 45u8, 99u8, 111u8, 110u8, 116u8, 114u8, 111u8,
        108u8, 45u8, 97u8, 108u8, 108u8, 111u8, 119u8, 45u8, 111u8, 114u8, 105u8, 103u8, 105u8,
        110u8,
    ]
}

/// The bytes of `*`: any origin is allowed.
pub open spec fn allow_origin_value() -> Seq<u8> {
    seq![42u8]
}

/// The bytes of `access-control-allow-methods`.
pub open spec fn allow_methods_name() -> Seq<u8> {
    seq![
        97u8, 99u8, 99u8, 101u8, 115u8, 115u8, 45u8, 99u8, 111u8, 110u8, 116u8, 114u8, 111u8,
        108u8, 45u8, 97u8, 108u8, 108u8, 111u8, 119u8, 45u8, 109u8, 101u8, 116u8, 104u8, 111u8,
        100u8, 115u8,
    ]
}

/// The bytes of `GET, POST, OPTIONS, DELETE, PATCH, PUT`.
pub open spec fn allow_methods_value() -> Seq<u8> {
    seq![
        71u8, 69u8, 84u8, 44u8, 32u8, 80u8, 79u8, 83u8, 84u8, 44u8, 32u8, 79u8, 80u8, 84u8,
        73u8, 79u8, 78u8, 83u8, 44u8, 32u8, 68u8, 69u8, 76u8, 69u8, 84u8, 69u8, 44u8, 32u8,
        80u8, 65u8, 84u8, 67u8, 72u8, 44u8, 32u8, 80u8, 85u8, 84u8,
    ]
}

/// The response carries both configured cross-origin headers.  With
/// credentials disabled, no allow-credentials header is attached.
pub open spec fn has_cors_headers(r: Response) -> bool {
    &&& exists|i: int|
        0 <= i < r.headers@.len() && (#[trigger] r.headers@[i]).0@ == allow_origin_name() && r.headers@[i].1@
            == allow_origin_value()
    &&& exists|i: int|
        0 <= i < r.headers@.len() && (#[trigger] r.headers@[i]).0@ == allow_methods_name() && r.headers@[i].1@
            == allow_methods_value()
}

/// The bytes of `unknown`, the label for an absent value.
pub open spec fn unknown_label() -> Seq<u8> {
    seq![117u8, 110u8, 107u8, 110u8, 111u8, 119u8, 110u8]
}

/// The bytes of `/files/`, the retrieval path prefix.
pub open spec fn files_path() -> Seq<u8> {
    seq![47u8, 102u8, 105u8, 108u8, 101u8, 115u8, 47u8]
}

/// The bytes of `File not found`, the retrieval miss body.
pub open spec fn not_found_body() -> Seq<u8> {
    seq![70u8, 105u8, 108u8, 101u8, 32u8, 110u8, 111u8, 116u8, 32u8, 102u8, 111u8, 117u8, 110u8,
        100u8]
}

/// The view of an optional borrowed byte vector.
pub open spec fn opt_view(o: Option<&Vec<u8>>) -> Option<Seq<u8>> {
    match o {
        Some(v) => Some(v@),
        None => None,
    }
}

/// The address recorded for a client: the remote address, or `unknown`.
pub open spec fn client_address(remote: Option<Seq<u8>>) -> Seq<u8> {
    match remote {
        Some(a) => a,
        None => unknown_label(),
    }
}

/// The source label recorded for an upload: the decoded `source` query
/// value, or `unknown` when it was absent.
pub open spec fn source_label(source_raw: Option<Seq<u8>>) -> Seq<u8> {
    match source_raw {
        Some(v) => pct_decoded(v),
        None => unknown_label(),
    }
}

/// Appends the two cross-origin headers to a response.
pub fn with_cors(r: Response) -> (out: Response)
    ensures
        out.status == r.status,
        out.body@ == r.body@,
        out.headers@.len() == r.headers@.len() + 2,
        forall|j: int| 0 <= j < r.headers@.len() ==> out.headers@[j] == r.headers@[j],
        has_cors_headers(out),
{
    proof {
        reveal_strlit("access-control-allow-origin");
        reveal_strlit("*");
        reveal_strlit("access-control-allow-methods");
        reveal_strlit("GET, POST, OPTIONS, DELETE, PATCH, PUT");
    }
    let mut out = r;
    let origin_name = ascii_vec("access-control-allow-origin");
    let origin_value = ascii_vec("*");
    let methods_name = ascii_vec("access-control-allow-methods");
    let methods_value = ascii_vec("GET, POST, OPTIONS, DELETE, PATCH, PUT");
    proof {
        assert(origin_name@ =~= allow_origin_name());
        assert(origin_value@ =~= allow_origin_value());
        assert(methods_name@ =~= allow_methods_name());
        assert(methods_value@ =~= allow_methods_value());
    }
    out.headers.push((origin_name, origin_value));
    out.headers.push((methods_name, methods_value));
    proof {
        let n = out.headers@.len();
        assert(out.headers@[n - 2].0@ == allow_origin_name());
        assert(out.headers@[n - 1].0@ == allow_methods_name());
    }
    out
}

/// What the upload pipeline promises, for the drawn identifier `id8`
/// and timestamp `ts`: a denied client gets a bare Forbidden response
/// and leaves no trace; otherwise the response carries the cross-origin
/// headers, a body that does not decode is a malformed upload, a
/// denylisted extension and an oversized payload are rejected before
/// anything is stored or logged, and a valid upload stores the payload
/// under `id8` dot extension, answers with the retrieval URL, and logs
/// one upload record.
pub open spec fn upload_post(
    bl: BlacklistMiddleware,
    remote: Option<Seq<u8>>,
    source_raw: Option<Seq<u8>>,
    base_url: Seq<u8>,
    body: Seq<u8>,
    id8: Seq<u8>,
    ts: Seq<u8>,
    o: UploadOutcome,
) -> bool {
    let denied = bl.denies(remote);
    let addr = client_address(remote);
    let source = source_label(source_raw);
    &&& (denied ==> {
        &&& o.response.status == 403
        &&& o.response.body@.len() == 0
        &&& o.response.headers@.len() == 0
        &&& o.stored is None
        &&& o.log_line is None
        &&& o.error is None
    })
    &&& (!denied ==> has_cors_headers(o.response))
    &&& (!denied ==> match decode_multipart(body) {
        None => {
            &&& o.error == Some(UploadError::MalformedUpload)
            &&& o.response.status == 400
            &&& o.response.body@.len() == 0
            &&& o.stored is None
            &&& o.log_line is None
        },
        Some(field) => {
            let name = field.0;
            let payload = field.1;
            let ext = extension_of(name);
            if is_blocked_extension(ext) {
                &&& o.error == Some(UploadError::BlockedExtension)
                &&& o.response.status == 400
                &&& o.response.body@.len() == 0
                &&& o.stored is None
                &&& o.log_line is None
            } else if payload.len() > SIZE_LIMIT as nat {
                &&& o.error == Some(UploadError::PayloadTooLarge)
                &&& o.response.status == 413
                &&& o.response.body@.len() == 0
                &&& o.stored is None
                &&& o.log_line is None
            } else {
                let full_id = id8 + seq![46u8] + ext;
                &&& o.error is None
                &&& o.response.status == 200
                &&& o.response.body@ == base_url + files_path() + full_id
                &&& (o.stored matches Some(f) && f.name@ == full_id && f.contents@ == payload)
                &&& (o.log_line matches Some(l) && l@ == upload_line(
                    full_id,
                    name,
                    source,
                    addr,
                    ts,
                ))
            }
        },
    })
}

/// What the retrieval pipeline promises, for the timestamp `ts`: a
/// denied client gets a bare Forbidden response and no access record;
/// otherwise the response carries the cross-origin headers, a stored
/// file comes back byte for byte with an access record marking it
/// present, and an unknown identifier answers Not Found with an access
/// record marking it absent.
pub open spec fn serve_post(
    bl: BlacklistMiddleware,
    remote: Option<Seq<u8>>,
    id: Seq<u8>,
    stored: Option<Seq<u8>>,
    ts: Seq<u8>,
    o: RetrievalOutcome,
) -> bool {
    let denied = bl.denies(remote);
    let addr = client_address(remote);
    &&& (denied ==> {
        &&& o.response.status == 403
        &&& o.response.body@.len() == 0
        &&& o.response.headers@.len() == 0
        &&& o.log_line is None
    })
    &&& (!denied ==> {
        &&& has_cors_headers(o.response)
        &&& match stored {
            Some(contents) => {
                &&& o.response.status == 200
                &&& o.response.body@ == contents
                &&& (o.log_line matches Some(l) && l@ == access_line(id, true, addr, ts))
            },
            None => {
                &&& o.response.status == 404
                &&& o.response.body@ == not_found_body()
                &&& (o.log_line matches Some(l) && l@ == access_line(id, false, addr, ts))
            },
        }
    })
}

/// The recorded client address, as bytes.
fn address_vec(remote: Option<&Vec<u8>>) -> (r: Vec<u8>)
    ensures
        r@ == client_address(opt_view(remote)),
{
    match remote {
        Some(a) => subvec(a, 0, a.len()),
        None => {
            proof {
                reveal_strlit("unknown");
            }
            let u = ascii_vec("unknown");
            proof {
                assert(u@ =~= unknown_label());
            }
            u
        },
    }
}

/// A bare response with an empty body and no headers.
fn bare_response(status: u16) -> (r: Response)
    ensures
        r.status == status,
        r.body@.len() == 0,
        r.headers@.len() == 0,
{
    Response { status, body: Vec::new(), headers: Vec::new() }
}

/// Runs the upload pipeline for a drawn identifier and timestamp.
pub fn upload_at(
    bl: &BlacklistMiddleware,
    remote: Option<&Vec<u8>>,
    source_raw: Option<&Vec<u8>>,
    base_url: &Vec<u8>,
    body: &Vec<u8>,
    id8: &Vec<u8>,
    now: &Vec<u8>,
) -> (o: UploadOutcome)
    ensures
        upload_post(
            *bl,
            opt_view(remote),
            opt_view(source_raw),
            base_url@,
            body@,
            id8@,
            now@,
            o,
        ),
{
    if let Some(addr) = remote {
        if bl.is_blacklisted(addr) {
            return UploadOutcome {
                response: bare_response(403),
                stored: None,
                log_line: None,
                error: None,
            };
        }
    }
    let dec = match decode_upload(body) {
        None => {
            return UploadOutcome {
                response: with_cors(bare_response(400)),
                stored: None,
                log_line: None,
                error: Some(UploadError::MalformedUpload),
            };
        },
        Some(d) => d,
    };
    let ext = extension(&dec.file_name);
    if blocked_extension(&ext) {
        return UploadOutcome {
            response: with_cors(bare_response(400)),
            stored: None,
            log_line: None,
            error: Some(UploadError::BlockedExtension),
        };
    }
    if dec.payload.len() > SIZE_LIMIT {
        return UploadOutcome {
            response: with_cors(bare_response(413)),
            stored: None,
            log_line: None,
            error: Some(UploadError::PayloadTooLarge),
        };
    }
    let mut full_id = subvec(id8, 0, id8.len());
    full_id.push(46);
    push_all(&mut full_id, &ext);
    proof {
        assert(full_id@ =~= id8@ + seq![46u8] + extension_of(dec.file_name@));
    }
    proof {
        reveal_strlit("/files/");
        reveal_strlit("source");
    }
    let mut url = subvec(base_url, 0, base_url.len());
    let fp = ascii_vec("/files/");
    proof {
        assert(fp@ =~= files_path());
    }
    push_all(&mut url, &fp);
    push_all(&mut url, &full_id);
    proof {
        assert(url@ =~= base_url@ + files_path() + full_id@);
    }
    let source_key = ascii_vec("source");
    let source = match param_value(source_raw, &source_key) {
        Ok(d) => d,
        Err(_) => {
            proof {
                reveal_strlit("unknown");
            }
            let u = ascii_vec("unknown");
            proof {
                assert(u@ =~= unknown_label());
            }
            u
        },
    };
    let record_id = subvec(&full_id, 0, full_id.len());
    let record_ts = subvec(now, 0, now.len());
    proof {
        assert(record_id@ =~= full_id@);
        assert(record_ts@ =~= now@);
    }
    let record = UploadRecord {
        id: record_id,
        file_name: dec.file_name,
        source,
        address: address_vec(remote),
        timestamp: record_ts,
    };
    let line = record.encode();
    UploadOutcome {
        response: with_cors(Response { status: 200, body: url, headers: Vec::new() }),
        stored: Some(StoredFile { name: full_id, contents: dec.payload }),
        log_line: Some(line),
        error: None,
    }
}

/// Relies on chrono: the local time now, rendered as an RFC 3339
/// string.  Which instant comes back depends on the clock, so nothing
/// is assumed about the bytes.
#[verifier::external_body]
fn now_rfc3339() -> Vec<u8> {
    chrono::Local::now().to_rfc3339().into_bytes()
}

/// Runs the upload pipeline: draws a fresh identifier, reads the
/// clock, and decides as `upload_post` states for that identifier and
/// timestamp.
pub fn upload(
    bl: &BlacklistMiddleware,
    remote: Option<&Vec<u8>>,
    source_raw: Option<&Vec<u8>>,
    base_url: &Vec<u8>,
    body: &Vec<u8>,
) -> (o: UploadOutcome)
    ensures
        exists|id8: Seq<u8>, ts: Seq<u8>|
            valid_id(id8) && upload_post(
                *bl,
                opt_view(remote),
                opt_view(source_raw),
                base_url@,
                body@,
                id8,
                ts,
                o,
            ),
{
    let id8 = gen_id();
    let now = now_rfc3339();
    let o = upload_at(bl, remote, source_raw, base_url, body, &id8, &now);
    proof {
        assert(valid_id(id8@) && upload_post(
            *bl,
            opt_view(remote),
            opt_view(source_raw),
            base_url@,
            body@,
            id8@,
            now@,
            o,
        ));
    }
    o
}

/// Runs the retrieval pipeline for a given timestamp.  `stored` is the
/// contents of the file the identifier names, if the server found one.
pub fn serve_files_at(
    bl: &BlacklistMiddleware,
    remote: Option<&Vec<u8>>,
    id: &Vec<u8>,
    stored: Option<&Vec<u8>>,
    now: &Vec<u8>,
) -> (o: RetrievalOutcome)
    ensures
        serve_post(*bl, opt_view(remote), id@, opt_view(stored), now@, o),
{
    if let Some(addr) = remote {
        if bl.is_blacklisted(addr) {
            return RetrievalOutcome { response: bare_response(403), log_line: None };
        }
    }
    let address = address_vec(remote);
    let record_id = subvec(id, 0, id.len());
    let record_ts = subvec(now, 0, now.len());
    proof {
        assert(record_id@ =~= id@);
        assert(record_ts@ =~= now@);
    }
    match stored {
        Some(contents) => {
            let record = AccessRecord {
                id: record_id,
                exists: true,
                address,
                timestamp: record_ts,
            };
            let line = record.encode();
            let body = subvec(contents, 0, contents.len());
            proof {
                assert(body@ =~= contents@);
            }
            RetrievalOutcome {
                response: with_cors(Response { status: 200, body, headers: Vec::new() }),
                log_line: Some(line),
            }
        },
        None => {
            let record = AccessRecord {
                id: record_id,
                exists: false,
                address,
                timestamp: record_ts,
            };
            let line = record.encode();
            proof {
                reveal_strlit("File not found");
            }
            let nf = ascii_vec("File not found");
            proof {
                assert(nf@ =~= not_found_body());
            }
            RetrievalOutcome {
                response: with_cors(Response { status: 404, body: nf, headers: Vec::new() }),
                log_line: Some(line),
            }
        },
    }
}

/// Runs the retrieval pipeline: reads the clock and decides as
/// `serve_post` states for that timestamp.
pub fn serve_files(
    bl: &BlacklistMiddleware,
    remote: Option<&Vec<u8>>,
    id: &Vec<u8>,
    stored: Option<&Vec<u8>>,
) -> (o: RetrievalOutcome)
    ensures
        exists|ts: Seq<u8>| serve_post(*bl, opt_view(remote), id@, opt_view(stored), ts, o),
{
    let now = now_rfc3339();
    let o = serve_files_at(bl, remote, id, stored, &now);
    proof {
        assert(serve_post(*bl, opt_view(remote), id@, opt_view(stored), now@, o));
    }
    o
}

/// A blacklisted client is turned away on every route with a bare
/// Forbidden response: nothing is stored and neither audit log gains a
/// line.
pub proof fn lemma_blacklisted_leaves_no_trace(
    bl: BlacklistMiddleware,
    addr: Seq<u8>,
    source_raw: Option<Seq<u8>>,
    base_url: Seq<u8>,
    body: Seq<u8>,
    id8: Seq<u8>,
    id: Seq<u8>,
    stored: Option<Seq<u8>>,
    ts: Seq<u8>,
    up: UploadOutcome,
    ret: RetrievalOutcome,
)
    requires
        bl@.contains(addr),
        upload_post(bl, Some(addr), source_raw, base_url, body, id8, ts, up),
        serve_post(bl, Some(addr), id, stored, ts, ret),
    ensures
        up.response.status == 403,
        up.stored is None,
        up.log_line is None,
        ret.response.status == 403,
        ret.log_line is None,
{
}

/// Every response to a client the blacklist admits carries the two
/// configured cross-origin headers, on both routes, whether the request
/// succeeds or fails.
pub proof fn lemma_cors_on_every_response(
    bl: BlacklistMiddleware,
    remote: Option<Seq<u8>>,
    source_raw: Option<Seq<u8>>,
    base_url: Seq<u8>,
    body: Seq<u8>,
    id8: Seq<u8>,
    id: Seq<u8>,
    stored: Option<Seq<u8>>,
    ts: Seq<u8>,
    up: UploadOutcome,
    ret: RetrievalOutcome,
)
    requires
        !bl.denies(remote),
        upload_post(bl, remote, source_raw, base_url, body, id8, ts, up),
        serve_post(bl, remote, id, stored, ts, ret),
    ensures
        has_cors_headers(up.response),
        has_cors_headers(ret.response),
{
}

/// Retrieval is idempotent: however often the same identifier is
/// fetched with the same stored contents, the status and body are the
/// same every time — whatever the clock or the client address — and
/// every attempt yields exactly one access-log line.
pub proof fn lemma_retrieval_idempotent(
    bl: BlacklistMiddleware,
    remote1: Option<Seq<u8>>,
    remote2: Option<Seq<u8>>,
    id: Seq<u8>,
    stored: Option<Seq<u8>>,
    ts1: Seq<u8>,
    ts2: Seq<u8>,
    o1: RetrievalOutcome,
    o2: RetrievalOutcome,
)
    requires
        !bl.denies(remote1),
        !bl.denies(remote2),
        serve_post(bl, remote1, id, stored, ts1, o1),
        serve_post(bl, remote2, id, stored, ts2, o2),
    ensures
        o1.response.status == o2.response.status,
        o1.response.body@ == o2.response.body@,
        o1.log_line is Some,
        o2.log_line is Some,
{
}

} // verus!

//! Decoding the body of an upload request.
//!
//! An upload body encodes exactly one multipart field, terminated by a
//! trailing two-byte sequence that is stripped unconditionally before
//! parsing.  The first line of what remains declares the boundary: its
//! first two bytes are the boundary prefix marker (`--`) and its final
//! byte is the carriage return, and what stands between is the boundary
//! token.  After that line come the field's header lines, closed by an
//! empty line; the header that carries `filename="..."` names the file.
//! The payload runs to the next occurrence of the boundary delimiter.
//! Any further fields are ignored.  A body that does not have this shape
//! decodes to nothing; the caller maps that to a client-visible error.

use vstd::prelude::*;

use crate::scan::{
    find_byte, find_sub, lemma_find_byte_props, lemma_find_sub_props, matches_at, index_of_byte,
    find_subseq, subvec,
};

verus! {

/// The blank line that closes the field's header section.
pub open spec fn header_end_marker() -> Seq<u8> {
    seq![13u8, 10u8, 13u8, 10u8]
}

/// The bytes of `filename="`, which introduce the declared file name.
pub open spec fn filename_marker() -> Seq<u8> {
    seq![102u8, 105u8, 108u8, 101u8, 110u8, 97u8, 109u8, 101u8, 61u8, 34u8]
}

/// The delimiter that closes the payload: a line break followed by the
/// boundary prefix marker and the boundary token.
pub open spec fn payload_delimiter(boundary: Seq<u8>) -> Seq<u8> {
    seq![13u8, 10u8, 45u8, 45u8] + boundary
}

/// The file name with each space replaced by an underscore.
pub open spec fn normalized(name: Seq<u8>) -> Seq<u8> {
    name.map_values(|b: u8| if b == 32u8 { 95u8 } else { b })
}

/// What an upload body decodes to: the normalized file name and the
/// payload, or nothing when the body does not have the expected
/// single-field shape.
pub open spec fn decode_multipart(body: Seq<u8>) -> Option<(Seq<u8>, Seq<u8>)> {
    if body.len() < 2 {
        None
    } else {
        let data = body.take(body.len() - 2);
        match find_byte(data, 10u8) {
            None => None,
            Some(nl) => {
                let line = data.take(nl);
                if line.len() < 4 || line[0] != 45u8 || line[1] != 45u8 {
                    None
                } else {
                    let boundary = line.subrange(2, line.len() - 1);
                    let rest = data.skip(nl + 1);
                    match find_sub(rest, header_end_marker()) {
                        None => None,
                        Some(h) => {
                            let headers = rest.take(h);
                            let content = rest.skip(h + 4);
                            match find_sub(headers, filename_marker()) {
                                None => None,
                                Some(f) => {
                                    let after = headers.skip(f + 10);
                                    match find_byte(after, 34u8) {
                                        None => None,
                                        Some(q) => {
                                            let name = after.take(q);
                                            match find_sub(content, payload_delimiter(boundary)) {
                                                None => None,
                                                Some(t) => Some(
                                                    (normalized(name), content.take(t)),
                                                ),
                                            }
                                        },
                                    }
                                },
                            }
                        },
                    }
                }
            },
        }
    }
}

/// The single field of an upload body: the declared file name, spaces
/// normalized to underscores, and the payload bytes.
pub struct DecodedUpload {
    pub file_name: Vec<u8>,
    pub payload: Vec<u8>,
}

/// The file name with each space replaced by an underscore.
pub fn normalize_name(name: &Vec<u8>) -> (r: Vec<u8>)
    ensures
        r@ == normalized(name@),
{
    let mut r: Vec<u8> = Vec::new();
    let mut i: usize = 0;
    while i < name.len()
        invariant
            i <= name.len(),
            r@.len() == i,
            forall|j: int| 0 <= j < i ==> r@[j] == (if name@[j] == 32u8 {
                95u8
            } else {
                name@[j]
            }),
        decreases name.len() - i,
    {
        let b = name[i];
        if b == 32 {
            r.push(95);
        } else {
            r.push(b);
        }
        i = i + 1;
    }
    proof {
        assert(r@ =~= normalized(name@));
    }
    r
}

/// Decodes an upload body into its single field, exactly as
/// `decode_multipart` describes.
pub fn decode_upload(body: &Vec<u8>) -> (r: Option<DecodedUpload>)
    ensures
        match r {
            Some(d) => decode_multipart(body@) == Some((d.file_name@, d.payload@)),
            None => decode_multipart(body@) is None,
        },
{
    if body.len() < 2 {
        return None;
    }
    let data = subvec(body, 0, body.len() - 2);
    proof {
        assert(data@ =~= body@.take(body@.len() - 2));
    }
    let nl = match index_of_byte(&data, 10) {
        None => {
            return None;
        },
        Some(n) => n,
    };
    proof {
        lemma_find_byte_props(data@, 10u8);
    }
    let line = subvec(&data, 0, nl);
    proof {
        assert(line@ =~= data@.take(nl as int));
    }
    if line.len() < 4 || line[0] != 45 || line[1] != 45 {
        return None;
    }
    let boundary = subvec(&line, 2, line.len() - 1);
    let rest = subvec(&data, nl + 1, data.len());
    proof {
        assert(rest@ =~= data@.skip(nl + 1));
    }
    let mut hdr_end: Vec<u8> = Vec::new();
    hdr_end.push(13);
    hdr_end.push(10);
    hdr_end.push(13);
    hdr_end.push(10);
    proof {
        assert(hdr_end@ =~= header_end_marker());
    }
    let h = match find_subseq(&rest, &hdr_end) {
        None => {
            return None;
        },
        Some(h) => h,
    };
    proof {
        lemma_find_sub_props(rest@, hdr_end@);
    }
    let headers = subvec(&rest, 0, h);
    proof {
        assert(headers@ =~= rest@.take(h as int));
    }
    let content = subvec(&rest, h + 4, rest.len());
    proof {
        assert(content@ =~= rest@.skip(h + 4));
    }
    let mut marker: Vec<u8> = Vec::new();
    marker.push(102);
    marker.push(105);
    marker.push(108);
    marker.push(101);
    marker.push(110);
    marker.push(97);
    marker.push(109);
    marker.push(101);
    marker.push(61);
    marker.push(34);
    proof {
        assert(marker@ =~= filename_marker());
    }
    let f = match find_subseq(&headers, &marker) {
        None => {
            return None;
        },
        Some(f) => f,
    };
    proof {
        lemma_find_sub_props(headers@, marker@);
    }
    let after = subvec(&headers, f + 10, headers.len());
    proof {
        assert(after@ =~= headers@.skip(f + 10));
    }
    let q = match index_of_byte(&after, 34) {
        None => {
            return None;
        },
        Some(q) => q,
    };
    proof {
        lemma_find_byte_props(after@, 34u8);
    }
    let raw_name = subvec(&after, 0, q);
    proof {
        assert(raw_name@ =~= after@.take(q as int));
    }
    let mut delim: Vec<u8> = Vec::new();
    delim.push(13);
    delim.push(10);
    delim.push(45);
    delim.push(45);
    let mut bi: usize = 0;
    while bi < boundary.len()
        invariant
            bi <= boundary.len(),
            delim@ == seq![13u8, 10u8, 45u8, 45u8] + boundary@.take(bi as int),
        decreases boundary.len() - bi,
    {
        delim.push(boundary[bi]);
        bi = bi + 1;
        proof {
            assert(seq![13u8, 10u8, 45u8, 45u8] + boundary@.take(bi as int) =~= (
            seq![13u8, 10u8, 45u8, 45u8] + boundary@.take(bi - 1)).push(boundary@[bi - 1]));
        }
    }
    proof {
        assert(boundary@.take(boundary@.len() as int) =~= boundary@);
        assert(delim@ =~= payload_delimiter(boundary@));
    }
    let t = match find_subseq(&content, &delim) {
        None => {
            return None;
        },
        Some(t) => t,
    };
    proof {
        lemma_find_sub_props(content@, delim@);
    }
    let payload = subvec(&content, 0, t);
    proof {
        assert(payload@ =~= content@.take(t as int));
    }
    let file_name = normalize_name(&raw_name);
    Some(DecodedUpload { file_name, payload })
}

} // verus!

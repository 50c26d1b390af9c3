//! The audit records and their on-disk form.
//!
//! Every upload appends one `UploadRecord` line to the upload log, and
//! every retrieval attempt appends one `AccessRecord` line to the access
//! log.  A line is a JSON object whose string fields are quoted with the
//! usual JSON escapes (quote, backslash, and the control characters),
//! followed by a newline.  The encoding is specified byte for byte, so a
//! log line is a pure function of the record.

use vstd::prelude::*;

use crate::policy::ascii_vec;

verus! {

/// The lower-case hexadecimal digit for `n`.
pub open spec fn hex_digit(n: u8) -> u8 {
    if n < 10 {
        (48 + n) as u8
    } else {
        (87 + n) as u8
    }
}

/// How one byte of a string field appears inside a JSON quoted string.
pub open spec fn escape_byte(b: u8) -> Seq<u8> {
    if b == 34u8 {
        seq![92u8, 34u8]
    } else if b == 92u8 {
        seq![92u8, 92u8]
    } else if b == 8u8 {
        seq![92u8, 98u8]
    } else if b == 9u8 {
        seq![92u8, 116u8]
    } else if b == 10u8 {
        seq![92u8, 110u8]
    } else if b == 12u8 {
        seq![92u8, 102u8]
    } else if b == 13u8 {
        seq![92u8, 114u8]
    } else if b < 32u8 {
        seq![92u8, 117u8, 48u8, 48u8, hex_digit(b / 16), hex_digit(b % 16)]
    } else {
        seq![b]
    }
}

/// A string field's bytes with every byte escaped.
pub open spec fn json_escaped(s: Seq<u8>) -> Seq<u8>
    decreases s.len(),
{
    if s.len() == 0 {
        Seq::empty()
    } else {
        json_escaped(s.drop_last()) + escape_byte(s.last())
    }
}

/// A JSON string: a quote, the escaped bytes, a quote.
pub open spec fn json_quoted(s: Seq<u8>) -> Seq<u8> {
    seq![34u8] + json_escaped(s) + seq![34u8]
}

/// The bytes of `{"id":`.
pub open spec fn label_id() -> Seq<u8> {
    seq![123u8, 34u8, 105u8, 100u8, 34u8, 58u8]
}

/// The bytes of `,"file_name":`.
pub open spec fn label_file_name() -> Seq<u8> {
    seq![44u8, 34u8, 102u8, 105u8, 108u8, 101u8, 95u8, 110u8, 97u8, 109u8, 101u8, 34u8, 58u8]
}

/// The bytes of `,"source":`.
pub open spec fn label_source() -> Seq<u8> {
    seq![44u8, 34u8, 115u8, 111u8, 117u8, 114u8, 99u8, 101u8, 34u8, 58u8]
}

/// The bytes of `,"address":`.
pub open spec fn label_address() -> Seq<u8> {
    seq![44u8, 34u8, 97u8, 100u8, 100u8, 114u8, 101u8, 115u8, 115u8, 34u8, 58u8]
}

/// The bytes of `,"timestamp":`.
pub open spec fn label_timestamp() -> Seq<u8> {
    seq![44u8, 34u8, 116u8, 105u8, 109u8, 101u8, 115u8, 116u8, 97u8, 109u8, 112u8, 34u8, 58u8]
}

/// The bytes of `,"exists":`.
pub open spec fn label_exists() -> Seq<u8> {
    seq![44u8, 34u8, 101u8, 120u8, 105u8, 115u8, 116u8, 115u8, 34u8, 58u8]
}

/// The bytes of the JSON literal for a boolean.
pub open spec fn bool_lit(b: bool) -> Seq<u8> {
    if b {
        seq![116u8, 114u8, 117u8, 101u8]
    } else {
        seq![102u8, 97u8, 108u8, 115u8, 101u8]
    }
}

/// The upload-log line for the given fields, newline included.
pub open spec fn upload_line(
    id: Seq<u8>,
    file_name: Seq<u8>,
    source: Seq<u8>,
    address: Seq<u8>,
    timestamp: Seq<u8>,
) -> Seq<u8> {
    label_id() + json_quoted(id) + label_file_name() + json_quoted(file_name) + label_source()
        + json_quoted(source) + label_address() + json_quoted(address) + label_timestamp()
        + json_quoted(timestamp) + seq![125u8, 10u8]
}

/// The access-log line for the given fields, newline included.
pub open spec fn access_line(id: Seq<u8>, exists: bool, address: Seq<u8>, timestamp: Seq<u8>) -> Seq<
    u8,
> {
    label_id() + json_quoted(id) + label_exists() + bool_lit(exists) + label_address()
        + json_quoted(address) + label_timestamp() + json_quoted(timestamp) + seq![125u8, 10u8]
}

/// One successful upload, as recorded in the upload log.
pub struct UploadRecord {
    pub id: Vec<u8>,
    pub file_name: Vec<u8>,
    pub source: Vec<u8>,
    pub address: Vec<u8>,
    pub timestamp: Vec<u8>,
}

/// One retrieval attempt, as recorded in the access log.
pub struct AccessRecord {
    pub id: Vec<u8>,
    pub exists: bool,
    pub address: Vec<u8>,
    pub timestamp: Vec<u8>,
}

/// Appends all of `v` to `out`.
pub fn push_all(out: &mut Vec<u8>, v: &Vec<u8>)
    ensures
        final(out)@ == old(out)@ + v@,
{
    let mut i: usize = 0;
    while i < v.len()
        invariant
            i <= v.len(),
            out@ == old(out)@ + v@.take(i as int),
        decreases v.len() - i,
    {
        out.push(v[i]);
        i = i + 1;
        proof {
            assert(old(out)@ + v@.take(i as int) =~= (old(out)@ + v@.take(i - 1)).push(
                v@[i - 1],
            ));
        }
    }
    proof {
        assert(old(out)@ + v@.take(v@.len() as int) =~= old(out)@ + v@);
    }
}

/// The lower-case hexadecimal digit for `n`.
fn hexd(n: u8) -> (r: u8)
    requires
        n < 16,
    ensures
        r == hex_digit(n),
{
    if n < 10 {
        48 + n
    } else {
        87 + n
    }
}

/// Appends the escaped form of one byte to `out`.
fn push_escape(out: &mut Vec<u8>, b: u8)
    ensures
        final(out)@ == old(out)@ + escape_byte(b),
{
    if b == 34 {
        out.push(92);
        out.push(34);
    } else if b == 92 {
        out.push(92);
        out.push(92);
    } else if b == 8 {
        out.push(92);
        out.push(98);
    } else if b == 9 {
        out.push(92);
        out.push(116);
    } else if b == 10 {
        out.push(92);
        out.push(110);
    } else if b == 12 {
        out.push(92);
        out.push(102);
    } else if b == 13 {
        out.push(92);
        out.push(114);
    } else if b < 32 {
        out.push(92);
        out.push(117);
        out.push(48);
        out.push(48);
        out.push(hexd(b / 16));
        out.push(hexd(b % 16));
    } else {
        out.push(b);
    }
    proof {
        assert(out@ =~= old(out)@ + escape_byte(b));
    }
}

/// Appends the JSON quoted form of `s` to `out`.
pub fn push_quoted(out: &mut Vec<u8>, s: &Vec<u8>)
    ensures
        final(out)@ == old(out)@ + json_quoted(s@),
{
    out.push(34);
    let mut i: usize = 0;
    while i < s.len()
        invariant
            i <= s.len(),
            out@ == old(out)@ + seq![34u8] + json_escaped(s@.take(i as int)),
        decreases s.len() - i,
    {
        push_escape(out, s[i]);
        i = i + 1;
        proof {
            assert(s@.take(i as int).drop_last() =~= s@.take(i - 1));
            assert(s@.take(i as int).last() == s@[i - 1]);
        }
    }
    out.push(34);
    proof {
        assert(s@.take(s@.len() as int) =~= s@);
        assert(out@ =~= old(out)@ + json_quoted(s@));
    }
}

impl UploadRecord {
    /// The log line this record encodes to.
    pub open spec fn line_spec(&self) -> Seq<u8> {
        upload_line(self.id@, self.file_name@, self.source@, self.address@, self.timestamp@)
    }

    /// Encodes the record as one upload-log line, newline included.
    pub fn encode(&self) -> (r: Vec<u8>)
        ensures
            r@ == self.line_spec(),
    {
        proof {
            reveal_strlit("{\"id\":");
            reveal_strlit(",\"file_name\":");
            reveal_strlit(",\"source\":");
            reveal_strlit(",\"address\":");
            reveal_strlit(",\"timestamp\":");
        }
        let mut r: Vec<u8> = ascii_vec("{\"id\":");
        proof {
            assert(r@ =~= label_id());
        }
        push_quoted(&mut r, &self.id);
        let lbl = ascii_vec(",\"file_name\":");
        proof {
            assert(lbl@ =~= label_file_name());
        }
        push_all(&mut r, &lbl);
        push_quoted(&mut r, &self.file_name);
        let lbl = ascii_vec(",\"source\":");
        proof {
            assert(lbl@ =~= label_source());
        }
        push_all(&mut r, &lbl);
        push_quoted(&mut r, &self.source);
        let lbl = ascii_vec(",\"address\":");
        proof {
            assert(lbl@ =~= label_address());
        }
        push_all(&mut r, &lbl);
        push_quoted(&mut r, &self.address);
        let lbl = ascii_vec(",\"timestamp\":");
        proof {
            assert(lbl@ =~= label_timestamp());
        }
        push_all(&mut r, &lbl);
        push_quoted(&mut r, &self.timestamp);
        r.push(125);
        r.push(10);
        proof {
            assert(r@ =~= self.line_spec());
        }
        r
    }
}

impl AccessRecord {
    /// The log line this record encodes to.
    pub open spec fn line_spec(&self) -> Seq<u8> {
        access_line(self.id@, self.exists, self.address@, self.timestamp@)
    }

    /// Encodes the record as one access-log line, newline included.
    pub fn encode(&self) -> (r: Vec<u8>)
        ensures
            r@ == self.line_spec(),
    {
        proof {
            reveal_strlit("{\"id\":");
            reveal_strlit(",\"exists\":");
            reveal_strlit("true");
            reveal_strlit("false");
            reveal_strlit(",\"address\":");
            reveal_strlit(",\"timestamp\":");
        }
        let mut r: Vec<u8> = ascii_vec("{\"id\":");
        proof {
            assert(r@ =~= label_id());
        }
        push_quoted(&mut r, &self.id);
        let lbl = ascii_vec(",\"exists\":");
        proof {
            assert(lbl@ =~= label_exists());
        }
        push_all(&mut r, &lbl);
        let lit = if self.exists {
            ascii_vec("true")
        } else {
            ascii_vec("false")
        };
        proof {
            assert(lit@ =~= bool_lit(self.exists));
        }
        push_all(&mut r, &lit);
        let lbl = ascii_vec(",\"address\":");
        proof {
            assert(lbl@ =~= label_address());
        }
        push_all(&mut r, &lbl);
        push_quoted(&mut r, &self.address);
        let lbl = ascii_vec(",\"timestamp\":");
        proof {
            assert(lbl@ =~= label_timestamp());
        }
        push_all(&mut r, &lbl);
        push_quoted(&mut r, &self.timestamp);
        r.push(125);
        r.push(10);
        proof {
            assert(r@ =~= self.line_spec());
        }
        r
    }
}

} // verus!

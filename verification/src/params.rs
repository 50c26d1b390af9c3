//! The typed parameter extractor: percent-decodes a raw path or query
//! parameter value and parses it into the requested type.
//!
//! The surrounding framework looks the raw value up by key and hands it
//! here, `None` when the key is absent.  Failures carry a readable
//! message naming the offending key or value: an absent key is a
//! missing parameter, a value that does not parse has the wrong type.

use vstd::prelude::*;

use crate::policy::ascii_vec;
use crate::records::push_all;

verus! {

/// Whether `b` is an ASCII hexadecimal digit.
pub open spec fn is_hex_digit(b: u8) -> bool {
    (48u8 <= b <= 57u8) || (65u8 <= b <= 70u8) || (97u8 <= b <= 102u8)
}

/// The value of an ASCII hexadecimal digit.
pub open spec fn hex_value(b: u8) -> u8 {
    if 48u8 <= b <= 57u8 {
        (b - 48) as u8
    } else if 65u8 <= b <= 70u8 {
        (b - 55) as u8
    } else {
        (b - 87) as u8
    }
}

/// `s` percent-decoded: each `%` followed by two hexadecimal digits
/// becomes the byte they name; a malformed escape stays as it is, the
/// `%` kept literally.  A `+` is not touched.
pub open spec fn pct_decoded(s: Seq<u8>) -> Seq<u8>
    decreases s.len(),
{
    if s.len() == 0 {
        Seq::empty()
    } else if s[0] == 37u8 {
        if s.len() < 3 {
            seq![37u8] + s.skip(1)
        } else if is_hex_digit(s[1]) && is_hex_digit(s[2]) {
            seq![(hex_value(s[1]) * 16 + hex_value(s[2])) as u8] + pct_decoded(s.skip(3))
        } else if !is_hex_digit(s[1]) {
            seq![37u8] + pct_decoded(s.skip(1))
        } else {
            seq![37u8, s[1]] + pct_decoded(s.skip(2))
        }
    } else {
        seq![s[0]] + pct_decoded(s.skip(1))
    }
}

/// Relies on urlencoding's `decode_binary`: it decodes each `%` escape
/// with two hexadecimal digits to one byte, keeps malformed escapes
/// literally, and leaves every other byte (including `+`) unchanged,
/// as `pct_decoded` states.
#[verifier::external_body]
pub fn percent_decode(data: &Vec<u8>) -> (r: Vec<u8>)
    ensures
        r@ == pct_decoded(data@),
{
    urlencoding::decode_binary(data.as_slice()).into_owned()
}

/// A parameter extraction failure, carrying a readable message.
#[derive(Debug)]
pub struct RequestError(pub Vec<u8>);

/// The bytes of `{'msg': 'Missing query parameter: `.
pub open spec fn missing_prefix() -> Seq<u8> {
    seq![
        123u8, 39u8, 109u8, 115u8, 103u8, 39u8, 58u8, 32u8, 39u8, 77u8, 105u8, 115u8, 115u8,
        105u8, 110u8, 103u8, 32u8, 113u8, 117u8, 101u8, 114u8, 121u8, 32u8, 112u8, 97u8, 114u8,
        97u8, 109u8, 101u8, 116u8, 101u8, 114u8, 58u8, 32u8,
    ]
}

/// The bytes of `{'msg': 'Query parameter has wrong type: `.
pub open spec fn invalid_prefix() -> Seq<u8> {
    seq![
        123u8, 39u8, 109u8, 115u8, 103u8, 39u8, 58u8, 32u8, 39u8, 81u8, 117u8, 101u8, 114u8,
        121u8, 32u8, 112u8, 97u8, 114u8, 97u8, 109u8, 101u8, 116u8, 101u8, 114u8, 32u8, 104u8,
        97u8, 115u8, 32u8, 119u8, 114u8, 111u8, 110u8, 103u8, 32u8, 116u8, 121u8, 112u8, 101u8,
        58u8, 32u8,
    ]
}

/// The bytes of `'}`.
pub open spec fn message_suffix() -> Seq<u8> {
    seq![39u8, 125u8]
}

/// The message of a missing-parameter failure, naming the key.
pub open spec fn missing_param_message(key: Seq<u8>) -> Seq<u8> {
    missing_prefix() + key + message_suffix()
}

/// The message of a wrong-type failure, naming the decoded value.
pub open spec fn invalid_type_message(value: Seq<u8>) -> Seq<u8> {
    invalid_prefix() + value + message_suffix()
}

/// Builds the missing-parameter failure for `key`.
pub fn missing_param_error(key: &Vec<u8>) -> (r: RequestError)
    ensures
        r.0@ == missing_param_message(key@),
{
    proof {
        reveal_strlit("{'msg': 'Missing query parameter: ");
        reveal_strlit("'}");
    }
    let mut m = ascii_vec("{'msg': 'Missing query parameter: ");
    proof {
        assert(m@ =~= missing_prefix());
    }
    push_all(&mut m, key);
    let suffix = ascii_vec("'}");
    proof {
        assert(suffix@ =~= message_suffix());
    }
    push_all(&mut m, &suffix);
    RequestError(m)
}

/// Builds the wrong-type failure for a decoded `value`.
pub fn invalid_type_error(value: &Vec<u8>) -> (r: RequestError)
    ensures
        r.0@ == invalid_type_message(value@),
{
    proof {
        reveal_strlit("{'msg': 'Query parameter has wrong type: ");
        reveal_strlit("'}");
    }
    let mut m = ascii_vec("{'msg': 'Query parameter has wrong type: ");
    proof {
        assert(m@ =~= invalid_prefix());
    }
    push_all(&mut m, value);
    let suffix = ascii_vec("'}");
    proof {
        assert(suffix@ =~= message_suffix());
    }
    push_all(&mut m, &suffix);
    RequestError(m)
}

/// Percent-decodes a raw parameter value looked up by the framework:
/// the decoded bytes when the key was present, a missing-parameter
/// failure naming `key` when it was not.
pub fn param_value(raw: Option<&Vec<u8>>, key: &Vec<u8>) -> (r: Result<Vec<u8>, RequestError>)
    ensures
        match raw {
            Some(v) => r matches Ok(d) && d@ == pct_decoded(v@),
            None => r matches Err(e) && e.0@ == missing_param_message(key@),
        },
{
    match raw {
        Some(v) => Ok(percent_decode(v)),
        None => Err(missing_param_error(key)),
    }
}

/// Whether `b` is an ASCII decimal digit.
pub open spec fn is_digit(b: u8) -> bool {
    48u8 <= b <= 57u8
}

/// Whether every byte of `s` is a decimal digit.
pub open spec fn all_digits(s: Seq<u8>) -> bool {
    forall|i: int| 0 <= i < s.len() ==> is_digit(#[trigger] s[i])
}

/// The number a digit string denotes, most significant digit first.
pub open spec fn dec_value(s: Seq<u8>) -> nat
    decreases s.len(),
{
    if s.len() == 0 {
        0
    } else {
        dec_value(s.drop_last()) * 10 + (s.last() - 48) as nat
    }
}

/// More digits never shrink the denoted number.
proof fn lemma_dec_value_grows(s: Seq<u8>, i: int, j: int)
    requires
        all_digits(s),
        0 <= i <= j <= s.len(),
    ensures
        dec_value(s.take(i)) <= dec_value(s.take(j)),
    decreases j - i,
{
    if i < j {
        lemma_dec_value_grows(s, i, j - 1);
        assert(s.take(j).drop_last() =~= s.take(j - 1));
        assert(is_digit(s[j - 1]));
    }
}

/// Parses a digit string as a number: the denoted value when `s` is
/// nonempty, all digits, and the value fits; nothing otherwise.
pub fn parse_u64(s: &Vec<u8>) -> (r: Option<u64>)
    ensures
        match r {
            Some(n) => s@.len() > 0 && all_digits(s@) && dec_value(s@) <= u64::MAX && n
                == dec_value(s@),
            None => s@.len() == 0 || !all_digits(s@) || dec_value(s@) > u64::MAX,
        },
{
    if s.len() == 0 {
        return None;
    }
    let mut acc: u64 = 0;
    let mut i: usize = 0;
    while i < s.len()
        invariant
            i <= s.len(),
            all_digits(s@.take(i as int)),
            acc == dec_value(s@.take(i as int)),
        decreases s.len() - i,
    {
        let b = s[i];
        if b < 48 || b > 57 {
            proof {
                assert(!is_digit(s@[i as int]));
            }
            return None;
        }
        let d: u64 = (b - 48) as u64;
        proof {
            assert(s@.take(i + 1).drop_last() =~= s@.take(i as int));
            assert(s@.take(i + 1).last() == s@[i as int]);
        }
        if acc > (u64::MAX - d) / 10 {
            proof {
                assert(acc * 10 + d > u64::MAX) by (nonlinear_arith)
                    requires
                        acc > (u64::MAX - d) / 10,
                        d <= 9,
                ;
                assert(dec_value(s@.take(i + 1)) > u64::MAX);
            }
            let rest_digits = all_digits_from(s, i + 1);
            proof {
                if rest_digits {
                    assert forall|k: int| 0 <= k < s@.len() implies is_digit(#[trigger] s@[k]) by {
                        if k < i {
                            assert(is_digit(s@.take(i as int)[k]));
                        }
                    }
                    lemma_dec_value_grows(s@, i + 1, s@.len() as int);
                    assert(s@.take(s@.len() as int) =~= s@);
                } else {
                    let k = choose|k: int|
                        i + 1 <= k < s@.len() && !is_digit(#[trigger] s@[k]);
                    assert(!is_digit(s@[k]));
                }
            }
            return None;
        }
        proof {
            assert(acc * 10 + d <= u64::MAX) by (nonlinear_arith)
                requires
                    acc <= (u64::MAX - d) / 10,
                    d <= 9,
            ;
        }
        acc = acc * 10 + d;
        i = i + 1;
    }
    proof {
        assert(s@.take(s@.len() as int) =~= s@);
    }
    Some(acc)
}

/// Whether every byte of `s` from `from` on is a decimal digit.
fn all_digits_from(s: &Vec<u8>, from: usize) -> (r: bool)
    requires
        from <= s.len(),
    ensures
        r == forall|k: int| from <= k < s@.len() ==> is_digit(#[trigger] s@[k]),
{
    let mut i: usize = from;
    while i < s.len()
        invariant
            from <= i <= s.len(),
            forall|k: int| from <= k < i ==> is_digit(#[trigger] s@[k]),
        decreases s.len() - i,
    {
        let b = s[i];
        if b < 48 || b > 57 {
            proof {
                assert(!is_digit(s@[i as int]));
            }
            return false;
        }
        i = i + 1;
    }
    true
}

/// Percent-decodes a raw query parameter and parses it as a number:
/// missing parameter when the key was absent, wrong type when the
/// decoded value is not a number that fits.
pub fn query_param_u64(raw: Option<&Vec<u8>>, key: &Vec<u8>) -> (r: Result<u64, RequestError>)
    ensures
        match raw {
            Some(v) => {
                let d = pct_decoded(v@);
                if d.len() > 0 && all_digits(d) && dec_value(d) <= u64::MAX {
                    r matches Ok(n) && n == dec_value(d)
                } else {
                    r matches Err(e) && e.0@ == invalid_type_message(d)
                }
            },
            None => r matches Err(e) && e.0@ == missing_param_message(key@),
        },
{
    match raw {
        Some(v) => {
            let d = percent_decode(v);
            match parse_u64(&d) {
                Some(n) => Ok(n),
                None => Err(invalid_type_error(&d)),
            }
        },
        None => Err(missing_param_error(key)),
    }
}

} // verus!

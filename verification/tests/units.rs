use romf::ident::gen_id;
use romf::params::{param_value, parse_u64, query_param_u64};
use romf::policy::{blocked_extension, extension};

#[test]
fn generated_identifiers_are_8_distinct_alphabet_bytes() {
    let alphabet: Vec<u8> = (b'a'..b'z').chain(b'2'..b'9').collect();
    assert_eq!(alphabet.len(), 32);
    for _ in 0..200 {
        let id = gen_id();
        assert_eq!(id.len(), 8);
        for &c in &id {
            assert!(alphabet.contains(&c), "{} is not in the alphabet", c as char);
            assert_ne!(c, b'z');
            assert_ne!(c, b'9');
        }
        for i in 0..8 {
            for j in (i + 1)..8 {
                assert_ne!(id[i], id[j], "identifier bytes repeat");
            }
        }
    }
}

#[test]
fn extensions_follow_the_last_dot() {
    assert_eq!(extension(&b"photo.png".to_vec()), b"png".to_vec());
    assert_eq!(extension(&b"a.b.c".to_vec()), b"c".to_vec());
    assert_eq!(extension(&b"photo".to_vec()), b"".to_vec());
    assert_eq!(extension(&b"photo.".to_vec()), b"".to_vec());
    assert_eq!(extension(&b".bashrc".to_vec()), b"".to_vec());
    assert_eq!(extension(&b"dir/.bashrc".to_vec()), b"".to_vec());
    assert_eq!(extension(&b"dir.d/plain".to_vec()), b"".to_vec());
    assert_eq!(extension(&b"dir/a.txt".to_vec()), b"txt".to_vec());
}

#[test]
fn denylist_is_exact_and_case_sensitive() {
    assert!(blocked_extension(&b"html".to_vec()));
    assert!(blocked_extension(&b"htm".to_vec()));
    assert!(blocked_extension(&b"php".to_vec()));
    assert!(!blocked_extension(&b"HTML".to_vec()));
    assert!(!blocked_extension(&b"php5".to_vec()));
    assert!(!blocked_extension(&b"".to_vec()));
}

#[test]
fn param_values_are_percent_decoded() {
    let key = b"source".to_vec();
    let raw = b"a%20b%2Fc".to_vec();
    let got = param_value(Some(&raw), &key).unwrap();
    assert_eq!(got, b"a b/c".to_vec());
    // A plus sign is preserved, and a malformed escape stays literal.
    let raw = b"a+b%zz%4".to_vec();
    let got = param_value(Some(&raw), &key).unwrap();
    assert_eq!(got, b"a+b%zz%4".to_vec());
    let err = param_value(None, &key).unwrap_err();
    assert_eq!(
        err.0,
        b"{'msg': 'Missing query parameter: source'}".to_vec()
    );
}

#[test]
fn numeric_parameters_parse_or_name_the_value() {
    let key = b"limit".to_vec();
    let raw = b"42".to_vec();
    assert_eq!(query_param_u64(Some(&raw), &key).unwrap(), 42);
    let raw = b"%34%32".to_vec();
    assert_eq!(query_param_u64(Some(&raw), &key).unwrap(), 42);
    let raw = b"forty".to_vec();
    let err = query_param_u64(Some(&raw), &key).unwrap_err();
    assert_eq!(
        err.0,
        b"{'msg': 'Query parameter has wrong type: forty'}".to_vec()
    );
    let err = query_param_u64(None, &key).unwrap_err();
    assert_eq!(err.0, b"{'msg': 'Missing query parameter: limit'}".to_vec());
}

#[test]
fn number_parsing_handles_bounds() {
    assert_eq!(parse_u64(&b"0".to_vec()), Some(0));
    assert_eq!(
        parse_u64(&b"18446744073709551615".to_vec()),
        Some(u64::MAX)
    );
    assert_eq!(parse_u64(&b"18446744073709551616".to_vec()), None);
    assert_eq!(parse_u64(&b"".to_vec()), None);
    assert_eq!(parse_u64(&b"1x2".to_vec()), None);
}

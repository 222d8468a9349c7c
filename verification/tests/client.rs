use axum::http::{HeaderMap, HeaderValue};
use shorty::client::{client_from, client_key};
use shorty::text::{before_comma, to_decimal, trimmed};

fn headers(fields: &[(&'static str, &[u8])]) -> HeaderMap {
    let mut map = HeaderMap::new();
    for (name, value) in fields {
        map.append(*name, HeaderValue::from_bytes(value).unwrap());
    }
    map
}

#[test]
fn address_of_forwarded_for() {
    let h = headers(&[("x-forwarded-for", b"203.0.113.9")]);
    assert_eq!(client_key(&h), "203.0.113.9");
}

#[test]
fn first_address_of_a_list() {
    let h = headers(&[("x-forwarded-for", b" 203.0.113.9 , 10.0.0.1, 10.0.0.2 ")]);
    assert_eq!(client_key(&h), "203.0.113.9");
}

#[test]
fn first_of_several_headers() {
    let h = headers(&[("x-forwarded-for", b"1.1.1.1"), ("x-forwarded-for", b"2.2.2.2")]);
    assert_eq!(client_key(&h), "1.1.1.1");
}

#[test]
fn address_comes_before_key() {
    let h = headers(&[("x-forwarded-for", b"1.1.1.1"), ("x-api-key", b"secret")]);
    assert_eq!(client_key(&h), "1.1.1.1");
}

#[test]
fn key_without_address() {
    let h = headers(&[("x-api-key", b"\t secret ")]);
    assert_eq!(client_key(&h), "secret");
}

#[test]
fn blank_address_counts_as_absent() {
    let h = headers(&[("x-forwarded-for", b" \t "), ("x-api-key", b"secret")]);
    assert_eq!(client_key(&h), "secret");
}

#[test]
fn address_that_is_not_text_counts_as_absent() {
    let h = headers(&[("x-forwarded-for", b"1.1.1.\xff"), ("x-api-key", b"secret")]);
    assert_eq!(client_key(&h), "secret");
    let h = headers(&[("x-forwarded-for", b"1.1.1.\xff"), ("x-api-key", b"\xc3\xa9")]);
    assert_eq!(client_key(&h), "unknown");
}

#[test]
fn empty_first_address_is_an_empty_client() {
    let h = headers(&[("x-forwarded-for", b", 10.0.0.1"), ("x-api-key", b"secret")]);
    assert_eq!(client_key(&h), "");
}

#[test]
fn empty_key_is_an_empty_client() {
    assert_eq!(client_key(&headers(&[("x-api-key", b"  ")])), "");
}

#[test]
fn nothing_is_unknown() {
    assert_eq!(client_key(&HeaderMap::new()), "unknown");
    assert_eq!(client_from(None, None), "unknown");
}

#[test]
fn clients_are_trimmed() {
    assert_eq!(client_from(Some(" a b ,c"), None), "a b");
    assert_eq!(client_from(Some("  "), Some("\tk\t")), "k");
}

#[test]
fn fields_are_cut_and_trimmed() {
    assert_eq!(trimmed("\t a \t b  "), "a \t b");
    assert_eq!(trimmed("   "), "");
    assert_eq!(trimmed(""), "");
    assert_eq!(before_comma("a,b,c"), "a");
    assert_eq!(before_comma(",b"), "");
    assert_eq!(before_comma("abc"), "abc");
}

#[test]
fn numbers_in_decimal() {
    assert_eq!(to_decimal(0), "0");
    assert_eq!(to_decimal(9), "9");
    assert_eq!(to_decimal(10), "10");
    assert_eq!(to_decimal(1234567890), "1234567890");
    assert_eq!(to_decimal(u64::MAX), "18446744073709551615");
}

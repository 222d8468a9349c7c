//! Which client a request comes from.

use axum::http::HeaderMap;

use vstd::prelude::*;

use crate::text::{before_comma, first_item, is_field_text, trim, trimmed};

verus! {

/// The header fields of a request, an `http::HeaderMap`.
#[verifier::external_type_specification]
#[verifier::external_body]
#[verifier::reject_recursive_types(T)]
pub struct ExHeaderMap<T>(axum::http::HeaderMap<T>);

/// One value of a header field, an `http::HeaderValue`.
#[verifier::external_type_specification]
#[verifier::external_body]
pub struct ExHeaderValue(axum::http::HeaderValue);

/// The fields that `headers` holds: for each name, in lower case, the bytes of its values in the
/// order in which they were added. A name that is held has at least one value.
pub uninterp spec fn header_fields(headers: HeaderMap) -> Map<Seq<char>, Seq<Seq<u8>>>;

/// Whether `name` is a header name that stands for itself: one to 64 lower-case letters, digits
/// and hyphens.
pub open spec fn is_plain_name(name: Seq<char>) -> bool {
    &&& 0 < name.len() <= 64
    &&& forall|i: int|
        0 <= i < name.len() ==> {
            let c = #[trigger] name[i];
            'a' <= c <= 'z' || '0' <= c <= '9' || c == '-'
        }
}

/// The text of a header value: its bytes as characters, if they are all visible ASCII
/// characters, spaces and tabs.
pub open spec fn field_text(value: Seq<u8>) -> Option<Seq<char>> {
    let text = Seq::new(value.len(), |i: int| value[i] as char);
    if is_field_text(text) {
        Some(text)
    } else {
        None
    }
}

/// The text of the first value under `name`, if there is one and it is text.
pub open spec fn first_text(fields: Map<Seq<char>, Seq<Seq<u8>>>, name: Seq<char>) -> Option<
    Seq<char>,
> {
    if fields.contains_key(name) {
        field_text(fields[name][0])
    } else {
        None
    }
}

/// `http::HeaderMap::get` with a name that needs no normalisation, and
/// `http::HeaderValue::to_str` on what it finds: the first value under that name, as text. Such
/// a value is text if each of its bytes is a tab or lies between the space and the tilde.
#[verifier::external_body]
fn header_text(headers: &HeaderMap, name: &str) -> (text: Option<String>)
    requires
        is_plain_name(name@),
    ensures
        match text {
            Some(t) => first_text(header_fields(*headers), name@) == Some(t@),
            None => first_text(header_fields(*headers), name@) is None,
        },
{
    match headers.get(name) {
        Some(value) => match value.to_str() {
            Ok(text) => Some(text.to_owned()),
            Err(_) => None,
        },
        None => None,
    }
}

/// The client that `X-Forwarded-For` and `X-Api-Key` name: the first address of the former, else
/// the latter, else `unknown`. A blank `X-Forwarded-For` counts as absent.
pub open spec fn client_of(forwarded_for: Option<Seq<char>>, api_key: Option<Seq<char>>) -> Seq<
    char,
> {
    if forwarded_for is Some && trim(forwarded_for->0).len() > 0 {
        trim(first_item(trim(forwarded_for->0)))
    } else if api_key is Some {
        trim(api_key->0)
    } else {
        "unknown"@
    }
}

/// Picks the client out of the texts of the two headers.
pub fn client_from(forwarded_for: Option<&str>, api_key: Option<&str>) -> (client: String)
    requires
        forwarded_for matches Some(list) ==> is_field_text(list@),
        api_key matches Some(key) ==> is_field_text(key@),
    ensures
        client@ == client_of(
            match forwarded_for {
                Some(list) => Some(list@),
                None => None,
            },
            match api_key {
                Some(key) => Some(key@),
                None => None,
            },
        ),
{
    if let Some(list) = forwarded_for {
        let addresses = trimmed(list);
        if !addresses.is_empty() {
            return trimmed(before_comma(addresses)).to_owned();
        }
    }
    if let Some(key) = api_key {
        return trimmed(key).to_owned();
    }
    "unknown".to_owned()
}

/// The client that the header fields of a request name.
pub open spec fn sender(fields: Map<Seq<char>, Seq<Seq<u8>>>) -> Seq<char> {
    client_of(first_text(fields, "x-forwarded-for"@), first_text(fields, "x-api-key"@))
}

/// The key under which the rate limiter counts the sender of a request.
pub fn client_key(headers: &HeaderMap) -> (client: String)
    ensures
        client@ == sender(header_fields(*headers)),
{
    proof {
        reveal_strlit("x-forwarded-for");
        reveal_strlit("x-api-key");
    }
    let forwarded_for = header_text(headers, "x-forwarded-for");
    let api_key = header_text(headers, "x-api-key");
    client_from(
        match &forwarded_for {
            Some(list) => Some(list.as_str()),
            None => None,
        },
        match &api_key {
            Some(key) => Some(key.as_str()),
            None => None,
        },
    )
}

} // verus!

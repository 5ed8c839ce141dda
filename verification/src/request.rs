//! What the server reads off a request: who asks, and from where.
use axum::http::header::ToStrError;
use axum::http::{HeaderMap, HeaderValue};
use vstd::prelude::*;

use crate::model;
use crate::text;

verus! {

/// `http::HeaderMap`, the header fields of a request.
#[verifier::external_type_specification]
#[verifier::external_body]
#[verifier::reject_recursive_types(T)]
pub struct ExHeaderMap<T>(HeaderMap<T>);

/// `http::HeaderValue`, the bytes of one header field.
#[verifier::external_type_specification]
#[verifier::external_body]
pub struct ExHeaderValue(HeaderValue);

/// `http::header::ToStrError`, which says that a header field is not text; not read.
#[verifier::external_type_specification]
#[verifier::external_body]
pub struct ExToStrError(ToStrError);

/// What a header map holds: for each field name, in lower case, the values of the field in
/// their order.
pub uninterp spec fn header_values(headers: HeaderMap<HeaderValue>) -> Map<
    Seq<char>,
    Seq<Seq<u8>>,
>;

/// The bytes that a header value holds.
pub uninterp spec fn value_bytes(value: HeaderValue) -> Seq<u8>;

/// Whether a byte is a visible ASCII character, a space or a tab.
pub open spec fn is_text_byte(b: u8) -> bool {
    32 <= b < 127 || b == 9
}

/// The text of a header value, where every byte of it is a text byte.
pub open spec fn value_text(bytes: Seq<u8>) -> Option<Seq<char>> {
    if forall|i: int| 0 <= i < bytes.len() ==> is_text_byte(#[trigger] bytes[i]) {
        Some(Seq::new(bytes.len(), |i: int| bytes[i] as char))
    } else {
        None
    }
}

/// Whether a character can stand in the lower-case field names that are looked up here.
pub open spec fn is_name_char(c: char) -> bool {
    'a' <= c <= 'z' || '0' <= c <= '9' || c == '-'
}

/// Whether a text is a field name in lower case, of letters, digits and hyphens.
pub open spec fn is_field_name(name: Seq<char>) -> bool {
    0 < name.len() <= 64 && forall|i: int| 0 <= i < name.len() ==> is_name_char(#[trigger] name[i])
}

/// `HeaderMap::get` by a name in lower case: the first value of the field of that name, or
/// nothing where there is no such field. A name in the map has at least one value.
#[verifier::external_body]
fn first_value<'a>(headers: &'a HeaderMap, name: &str) -> (value: Option<&'a HeaderValue>)
    requires
        is_field_name(name@),
    ensures
        match value {
            Some(v) => {
                &&& header_values(*headers).dom().contains(name@)
                &&& header_values(*headers)[name@].len() > 0
                &&& value_bytes(*v) == header_values(*headers)[name@][0]
            },
            None => !header_values(*headers).dom().contains(name@),
        },
{
    headers.get(name)
}

/// `HeaderValue::to_str`: the bytes of the value as text where all of them are visible ASCII
/// characters, spaces or tabs, else an error.
pub assume_specification[ HeaderValue::to_str ](value: &HeaderValue) -> (read: Result<
    &str,
    ToStrError,
>)
    ensures
        match value_text(value_bytes(*value)) {
            Some(chars) => read is Ok && read->Ok_0@ == chars,
            None => read is Err,
        },
;

/// The text of the first value of a field, where there is the field and the value is text.
pub open spec fn field_text(values: Map<Seq<char>, Seq<Seq<u8>>>, name: Seq<char>) -> Option<
    Seq<char>,
> {
    if values.dom().contains(name) {
        value_text(values[name][0])
    } else {
        None
    }
}

/// The text of the first value of a field, where there is the field and the value is text.
fn header_text<'a>(headers: &'a HeaderMap, name: &str) -> (text: Option<&'a str>)
    requires
        is_field_name(name@),
    ensures
        match text {
            Some(t) => field_text(header_values(*headers), name@) == Some(t@),
            None => field_text(header_values(*headers), name@) is None,
        },
{
    match first_value(headers, name) {
        Some(value) => match value.to_str() {
            Ok(text) => Some(text),
            Err(_) => None,
        },
        None => None,
    }
}

/// Whether a text can name a session.
fn is_session(text: &str) -> (is: bool)
    ensures
        is == model::names_session(text@),
{
    let bytes = text.as_bytes();
    !text.is_empty() && bytes.len() <= 64
}

/// The name on display: what a proxy in front says, else the address of the peer.
pub open spec fn name_from(proxied: Option<Seq<char>>, peer: Seq<char>) -> Seq<char> {
    match proxied {
        Some(text) => text,
        None => peer,
    }
}

/// The session that a text names, where there is one that can.
pub open spec fn session_from(text: Option<Seq<char>>) -> Option<Seq<char>> {
    match text {
        Some(t) => if model::names_session(t) {
            Some(t)
        } else {
            None
        },
        None => None,
    }
}

/// The name on display: what a proxy in front says, else the address of the peer.
pub fn choose_name(proxied: Option<&str>, peer: &str) -> (name: String)
    ensures
        name@ == name_from(text::opt_text(proxied), peer@),
{
    match proxied {
        Some(text) => text.to_owned(),
        None => peer.to_owned(),
    }
}

/// The session that a text names, where there is one that can.
pub fn accept_session(text: Option<&str>) -> (sid: Option<String>)
    ensures
        match sid {
            Some(s) => session_from(text::opt_text(text)) == Some(s@),
            None => session_from(text::opt_text(text)) is None,
        },
{
    match text {
        Some(t) => if is_session(t) {
            Some(t.to_owned())
        } else {
            None
        },
        None => None,
    }
}

/// The name on display for whoever sent a request with these header fields.
pub open spec fn display_name(values: Map<Seq<char>, Seq<Seq<u8>>>, peer: Seq<char>) -> Seq<char> {
    name_from(field_text(values, "x-real-ip"@), peer)
}

/// The name on display for whoever sent a request.
pub fn client_ip(headers: &HeaderMap, peer: &str) -> (ip: String)
    ensures
        ip@ == display_name(header_values(*headers), peer@),
{
    proof {
        reveal_strlit("x-real-ip");
    }
    choose_name(header_text(headers, "x-real-ip"), peer)
}

/// The session that a request names in its header fields.
pub open spec fn header_session(values: Map<Seq<char>, Seq<Seq<u8>>>) -> Option<Seq<char>> {
    session_from(field_text(values, "x-session"@))
}

/// The session that a request names in its header fields.
pub fn session_of(headers: &HeaderMap) -> (sid: Option<String>)
    ensures
        match sid {
            Some(s) => header_session(header_values(*headers)) == Some(s@),
            None => header_session(header_values(*headers)) is None,
        },
{
    proof {
        reveal_strlit("x-session");
    }
    accept_session(header_text(headers, "x-session"))
}

/// The parameters of a query as text.
pub open spec fn param_texts(params: Seq<(String, String)>) -> Seq<(Seq<char>, Seq<char>)> {
    Seq::new(params.len(), |i: int| (params[i].0@, params[i].1@))
}

/// The value of a parameter of a query, the last one where it is given more than once.
pub open spec fn param_value(params: Seq<(Seq<char>, Seq<char>)>, name: Seq<char>) -> Option<
    Seq<char>,
>
    decreases params.len(),
{
    if params.len() == 0 {
        None
    } else if params.last().0 == name {
        Some(params.last().1)
    } else {
        param_value(params.drop_last(), name)
    }
}

/// The session that a request names in its query.
pub open spec fn query_session(params: Seq<(Seq<char>, Seq<char>)>) -> Option<Seq<char>> {
    session_from(param_value(params, "session"@))
}

/// The session that a request names in its query.
pub fn session_param(params: &Vec<(String, String)>) -> (sid: Option<String>)
    ensures
        match sid {
            Some(s) => query_session(param_texts(params@)) == Some(s@),
            None => query_session(param_texts(params@)) is None,
        },
{
    let key: String = "session".to_owned();
    let ghost texts = param_texts(params@);
    let mut n: usize = params.len();
    assert(texts.take(n as int) =~= texts);
    while n > 0
        invariant
            n <= params.len(),
            key@ == "session"@,
            texts == param_texts(params@),
            param_value(texts.take(n as int), "session"@) == param_value(texts, "session"@),
        decreases n,
    {
        let ghost seen = texts.take(n as int);
        if params[n - 1].0 == key {
            return accept_session(Some(params[n - 1].1.as_str()));
        }
        assert(seen.drop_last() =~= texts.take(n - 1));
        n = n - 1;
    }
    None
}

}

//! What this library takes on trust about the crates it calls: `http`,
//! `axum_extra` (and the `cookie` crate behind it), `base64ct` and `time`.
//!
//! Nothing here is proved. Each item says which function it stands for and
//! what is claimed of it.

use vstd::prelude::*;
use vstd::utf8::encode_utf8;
use crate::cookies::{set_cookie_line, SetCookie};
use crate::text::{view_of, views};

verus! {

/// Whether `http::uri::Authority` accepts `s` as the authority of a URI.
pub uninterp spec fn authority_valid(s: Seq<char>) -> bool;

/// The authority that `http::Uri` finds in `s`: `None` where `s` is no URI,
/// `Some(None)` where it is one without an authority.
pub uninterp spec fn uri_authority(s: Seq<char>) -> Option<Option<Seq<char>>>;

/// The port that `http::Uri` finds in `s`, where `s` is a URI that names one.
pub uninterp spec fn uri_port(s: Seq<char>) -> Option<u16>;

/// The Base64 text (standard alphabet, padded) of a run of bytes.
pub uninterp spec fn base64(bytes: Seq<u8>) -> Seq<char>;

/// Name and value of the cookie that the text of a cookie header spells, after
/// percent-decoding; `None` where it spells none.
pub uninterp spec fn parsed_pair(line: Seq<char>) -> Option<(Seq<char>, Seq<char>)>;

/// The plain value that the private jar of `key` finds behind the sealed
/// `value` of the cookie `name`; `None` where the jar refuses the value.
pub uninterp spec fn unsealed(key: Seq<u8>, name: Seq<char>, value: Seq<char>) -> Option<
    Seq<char>,
>;

/// The plain value of the cookie `name` among the cookies that a request
/// presents in its `Cookie` headers, as far as they open under `key`.
pub uninterp spec fn presented_cookie(
    key: Seq<u8>,
    headers: Seq<Seq<char>>,
    name: Seq<char>,
) -> Option<Seq<char>>;

/// A byte that may stand in the value of an HTTP header.
pub open spec fn header_byte(b: u8) -> bool {
    b >= 32 && b != 127 || b == 9
}

/// Whether `s` can be the value of an HTTP header: every byte of its UTF-8
/// form is a tab or is neither a control character nor DEL.
pub open spec fn header_safe(s: Seq<char>) -> bool {
    forall|i: int| 0 <= i < encode_utf8(s).len() ==> header_byte(#[trigger] encode_utf8(s)[i])
}

/// Calls `<http::uri::Authority as FromStr>::from_str` and reports whether it
/// accepted the text. An accepted authority reads back as the same text, so
/// callers keep the text itself.
#[verifier::external_body]
pub(crate) fn is_authority(s: &str) -> (r: bool)
    ensures
        r == authority_valid(s@),
{
    s.parse::<http::uri::Authority>().is_ok()
}

/// Calls `<http::Uri as FromStr>::from_str`, then `Uri::into_parts`, and
/// hands out the text of the authority part.
#[verifier::external_body]
pub(crate) fn authority_of_uri(s: &str) -> (r: Option<Option<String>>)
    ensures
        view_of_authority(r) == uri_authority(s@),
{
    match s.parse::<http::Uri>() {
        Ok(uri) => Some(uri.into_parts().authority.map(|a| a.as_str().to_owned())),
        Err(_) => None,
    }
}

/// The views inside the result of [`authority_of_uri`].
pub open spec fn view_of_authority(r: Option<Option<String>>) -> Option<Option<Seq<char>>> {
    match r {
        Some(Some(a)) => Some(Some(a@)),
        Some(None) => Some(None),
        None => None,
    }
}

/// Calls `<http::Uri as FromStr>::from_str`, then `Uri::port_u16`.
#[verifier::external_body]
pub(crate) fn port_of_uri(s: &str) -> (r: Option<u16>)
    ensures
        r == uri_port(s@),
{
    match s.parse::<http::Uri>() {
        Ok(uri) => uri.port_u16(),
        Err(_) => None,
    }
}

/// Calls `http::HeaderValue::from_str` and reports whether it accepted the
/// text. It refuses exactly the texts that hold a byte below 32 other than
/// tab, or the byte 127.
#[verifier::external_body]
pub(crate) fn is_header_value(s: &str) -> (r: bool)
    ensures
        r == header_safe(s@),
{
    http::HeaderValue::from_str(s).is_ok()
}

/// Calls `base64ct::Base64::encode_string`, which panics on inputs longer
/// than a quarter of the address space.
#[verifier::external_body]
pub(crate) fn base64_encode(input: &[u8]) -> (r: String)
    requires
        input@.len() <= usize::MAX / 4,
    ensures
        r@ == base64(input@),
{
    <base64ct::Base64 as base64ct::Encoding>::encode_string(input)
}

/// Builds the cookie with `axum_extra::extract::cookie::Cookie::build` and
/// formats it with its `Display`, which writes name and value, then
/// `HttpOnly`, `SameSite`, `Secure`, `Path`, `Domain` (without a leading dot)
/// and `Max-Age` in that order, leaving out the flags that are off.
#[verifier::external_body]
pub(crate) fn cookie_line(c: &SetCookie) -> (r: String)
    ensures
        r@ == set_cookie_line(c@),
{
    axum_extra::extract::cookie::Cookie::build(c.name.clone(), c.value.clone())
        .domain(c.domain.clone())
        .path(c.path.clone())
        .same_site(axum_extra::extract::cookie::SameSite::Lax)
        .secure(c.secure)
        .max_age(time::Duration::seconds(c.max_age))
        .http_only(c.http_only)
        .finish()
        .to_string()
}

/// The views inside a name and value pair.
pub open spec fn view_of_pair(r: Option<(String, String)>) -> Option<(Seq<char>, Seq<char>)> {
    match r {
        Some(p) => Some((p.0@, p.1@)),
        None => None,
    }
}

/// Calls `axum_extra::extract::cookie::Cookie::parse_encoded` and hands out
/// the name and the value of the cookie it read.
#[verifier::external_body]
pub(crate) fn parse_pair(line: &str) -> (r: Option<(String, String)>)
    ensures
        view_of_pair(r) == parsed_pair(line@),
{
    match axum_extra::extract::cookie::Cookie::parse_encoded(line.to_owned()) {
        Ok(c) => Some((c.name().to_owned(), c.value().to_owned())),
        Err(_) => None,
    }
}

/// Calls `axum_extra::extract::cookie::PrivateCookieJar::decrypt` on a jar
/// made with `PrivateCookieJar::new` from `Key::from(key)`. `Key::from`
/// panics on fewer than 64 bytes and reads the first 64.
#[verifier::external_body]
pub(crate) fn unseal(key: &[u8], name: &str, value: &str) -> (r: Option<String>)
    requires
        key@.len() >= 64,
    ensures
        view_of(r) == unsealed(key@, name@, value@),
{
    let jar = axum_extra::extract::cookie::PrivateCookieJar::new(
        axum_extra::extract::cookie::Key::from(key),
    );
    let cookie = axum_extra::extract::cookie::Cookie::new(name.to_owned(), value.to_owned());
    jar.decrypt(cookie).map(|c| c.value().to_owned())
}

/// Calls `axum_extra::extract::cookie::PrivateCookieJar::add` on a jar made
/// with `PrivateCookieJar::new` from `Key::from(key)`, lets the jar write its
/// `Set-Cookie` header through `IntoResponse::into_response`, and reads the
/// sealed value back from that header with `Cookie::parse_encoded`. The jar
/// draws a nonce at random, so two calls give different values; whatever
/// value comes out opens to `value` under the same name and key.
///
/// A value comes out for every name that is not empty. The jar seals every
/// cookie it is given. It writes the header for every cookie whose encoded
/// form can stand in a header, and the encoded form of name and value holds
/// no byte but visible ASCII: control characters, the space, `;`, `=`, `%`,
/// the quote and every byte beyond ASCII are percent-encoded. So the header
/// is one name, the first `=`, and one value, and `parse_encoded` refuses
/// such a line only where the name is empty.
#[verifier::external_body]
pub(crate) fn seal(key: &[u8], name: &str, value: &str) -> (r: Option<String>)
    requires
        key@.len() >= 64,
    ensures
        name@.len() > 0 ==> r is Some,
        r matches Some(v) ==> unsealed(key@, name@, v@) == Some(value@),
{
    let cookie = axum_extra::extract::cookie::Cookie::new(name.to_owned(), value.to_owned());
    let key = axum_extra::extract::cookie::Key::from(key);
    let jar = axum_extra::extract::cookie::PrivateCookieJar::new(key).add(cookie);
    let response = axum::response::IntoResponse::into_response(jar);
    let line = response.headers().get(http::header::SET_COOKIE)?.to_str().ok()?;
    match axum_extra::extract::cookie::Cookie::parse_encoded(line.to_owned()) {
        Ok(c) => Some(c.value().to_owned()),
        Err(_) => None,
    }
}

/// Calls `axum_extra::extract::cookie::PrivateCookieJar::from_headers` on the
/// given `Cookie` header values, then `PrivateCookieJar::get`. Values that
/// `http::HeaderValue` refuses cannot come in a request and are passed over.
#[verifier::external_body]
pub(crate) fn cookie_from_headers(key: &[u8], headers: &Vec<String>, name: &str) -> (r: Option<
    String,
>)
    requires
        key@.len() >= 64,
    ensures
        view_of(r) == presented_cookie(key@, views(headers@), name@),
{
    let mut map = http::HeaderMap::new();
    for h in headers.iter() {
        if let Ok(v) = http::HeaderValue::from_str(h) {
            map.append(http::header::COOKIE, v);
        }
    }
    let key = axum_extra::extract::cookie::Key::from(key);
    axum_extra::extract::cookie::PrivateCookieJar::from_headers(&map, key)
        .get(name)
        .map(|c| c.value().to_owned())
}

/// Calls `time::OffsetDateTime::now_utc`, then `unix_timestamp`: the seconds
/// since the Unix epoch by the system clock. Nothing is claimed of the
/// result.
#[verifier::external_body]
pub(crate) fn unix_now() -> i64 {
    time::OffsetDateTime::now_utc().unix_timestamp()
}

} // verus!

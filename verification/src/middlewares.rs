//! Headers that harden the responses of the services that ask for it.

use vstd::prelude::*;
use crate::configuration::{HostType, HostTypeView};
use crate::response::{without, Response, ResponseView};
use crate::text::view_of;

verus! {

pub const CONTENT_SECURITY_POLICY: &'static str = "content-security-policy";

pub const REFERRER_POLICY: &'static str = "referrer-policy";

pub const X_CONTENT_TYPE_OPTIONS: &'static str = "x-content-type-options";

pub const X_FRAME_OPTIONS: &'static str = "x-frame-options";

/// `headers` with the four hardening headers set, each in place of what
/// stood under its name: scripts, styles and frames from the same origin
/// only, no guessing of content types, no framing by strangers, and no
/// referrer for other origins.
pub open spec fn hardened(headers: Seq<(Seq<char>, Seq<char>)>) -> Seq<(Seq<char>, Seq<char>)> {
    let a = without(headers, "content-security-policy"@).push(
        ("content-security-policy"@, "default-src 'self'; frame-ancestors 'self'"@),
    );
    let b = without(a, "x-content-type-options"@).push(("x-content-type-options"@, "nosniff"@));
    let c = without(b, "x-frame-options"@).push(("x-frame-options"@, "SAMEORIGIN"@));
    without(c, "referrer-policy"@).push(("referrer-policy"@, "same-origin"@))
}

/// The response as it leaves the gateway: hardened where the service that
/// the request was bound to asks for it, else as it is.
pub open spec fn secured_response(binding: Option<HostTypeView>, response: ResponseView) -> ResponseView {
    match binding {
        Some(b) => if b.app().inject_security_headers {
            ResponseView { headers: hardened(response.headers), ..response }
        } else {
            response
        },
        None => response,
    }
}

/// Sets the hardening headers on the response of a service that asks for
/// them.
pub fn inject_security_headers(binding: Option<&HostType>, response: Response) -> (r: Response)
    ensures
        r@ == secured_response(view_of(binding), response@),
{
    let mut response = response;
    if let Some(b) = binding {
        if b.inject_security_headers() {
            response.insert(
                CONTENT_SECURITY_POLICY,
                "default-src 'self'; frame-ancestors 'self'".to_owned(),
            );
            response.insert(X_CONTENT_TYPE_OPTIONS, "nosniff".to_owned());
            response.insert(X_FRAME_OPTIONS, "SAMEORIGIN".to_owned());
            response.insert(REFERRER_POLICY, "same-origin".to_owned());
        }
    }
    response
}

} // verus!

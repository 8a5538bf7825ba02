//! Cookies as the gateway issues them, and the key that seals their values.

use vstd::prelude::*;
use vstd::utf8::encode_utf8;
use crate::text::signed_decimal;

verus! {

/// A cookie to be set on a response. Every cookie of the gateway is
/// `SameSite=Lax`.
#[derive(Debug, PartialEq, Eq)]
pub struct SetCookie {
    pub name: String,
    pub value: String,
    pub domain: String,
    pub path: String,
    pub secure: bool,
    pub http_only: bool,
    /// Lifetime in seconds.
    pub max_age: i64,
}

/// What a [`SetCookie`] holds, as mathematical values.
pub ghost struct SetCookieView {
    pub name: Seq<char>,
    pub value: Seq<char>,
    pub domain: Seq<char>,
    pub path: Seq<char>,
    pub secure: bool,
    pub http_only: bool,
    pub max_age: i64,
}

impl View for SetCookie {
    type V = SetCookieView;

    open spec fn view(&self) -> SetCookieView {
        SetCookieView {
            name: self.name@,
            value: self.value@,
            domain: self.domain@,
            path: self.path@,
            secure: self.secure,
            http_only: self.http_only,
            max_age: self.max_age,
        }
    }
}

impl Clone for SetCookie {
    fn clone(&self) -> (r: Self)
        ensures
            r@ == self@,
    {
        SetCookie {
            name: self.name.clone(),
            value: self.value.clone(),
            domain: self.domain.clone(),
            path: self.path.clone(),
            secure: self.secure,
            http_only: self.http_only,
            max_age: self.max_age,
        }
    }
}

/// A domain as a `Set-Cookie` line shows it: without one leading dot.
pub open spec fn shown_domain(domain: Seq<char>) -> Seq<char> {
    if domain.len() > 0 && domain[0] == '.' {
        domain.drop_first()
    } else {
        domain
    }
}

/// The value of the `Set-Cookie` header that sets `c`.
pub open spec fn set_cookie_line(c: SetCookieView) -> Seq<char> {
    c.name + seq!['='] + c.value
        + (if c.http_only { "; HttpOnly"@ } else { Seq::empty() })
        + "; SameSite=Lax"@
        + (if c.secure { "; Secure"@ } else { Seq::empty() })
        + "; Path="@ + c.path
        + "; Domain="@ + shown_domain(c.domain)
        + "; Max-Age="@ + signed_decimal(c.max_age as int)
}

/// The least number of bytes that a key holds.
pub const KEY_LENGTH: usize = 64;

/// The secret under which cookie values are sealed: at least 64 bytes.
pub struct CookieKey {
    bytes: Vec<u8>,
}

impl View for CookieKey {
    type V = Seq<u8>;

    closed spec fn view(&self) -> Seq<u8> {
        self.bytes@
    }
}

impl CookieKey {
    #[verifier::type_invariant]
    spec fn long_enough(self) -> bool {
        self.bytes@.len() >= 64
    }

    /// The key that `secret` spells, where it is long enough to be one.
    pub fn new(secret: &[u8]) -> (r: Option<Self>)
        ensures
            r is Some <==> secret@.len() >= 64,
            r matches Some(k) ==> k@ == secret@,
    {
        if secret.len() < KEY_LENGTH {
            return None;
        }
        let mut bytes: Vec<u8> = Vec::new();
        let mut i: usize = 0;
        while i < secret.len()
            invariant
                i <= secret.len(),
                bytes@ == secret@.take(i as int),
            decreases secret.len() - i,
        {
            bytes.push(secret[i]);
            assert(secret@.take(i as int + 1) == secret@.take(i as int).push(secret@[i as int]));
            i += 1;
        }
        assert(secret@.take(secret.len() as int) == secret@);
        Some(CookieKey { bytes })
    }

    /// The key that the UTF-8 bytes of `secret` spell, where they are enough.
    pub fn from_secret(secret: &str) -> (r: Option<Self>)
        ensures
            r is Some <==> encode_utf8(secret@).len() >= 64,
            r matches Some(k) ==> k@ == encode_utf8(secret@),
    {
        Self::new(secret.as_bytes())
    }

    /// The bytes of the key, of which there are at least 64.
    pub fn as_bytes(&self) -> (r: &[u8])
        ensures
            r@ == self@,
            r@.len() >= 64,
    {
        proof {
            use_type_invariant(self);
        }
        self.bytes.as_slice()
    }
}

} // verus!

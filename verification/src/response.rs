//! Responses and header lines as the gateway decides on them, before they are
//! put on the wire. Header names are in lower case.

use vstd::prelude::*;
use crate::text::{lemma_views_push, same, views};

verus! {

pub const OK: u16 = 200;

pub const FOUND: u16 = 302;

pub const BAD_REQUEST: u16 = 400;

pub const UNAUTHORIZED: u16 = 401;

pub const FORBIDDEN: u16 = 403;

pub const NOT_FOUND: u16 = 404;

pub const NOT_ACCEPTABLE: u16 = 406;

pub const INTERNAL_SERVER_ERROR: u16 = 500;

pub const BAD_GATEWAY: u16 = 502;

pub const GATEWAY_TIMEOUT: u16 = 504;

pub const AUTHORIZATION: &'static str = "authorization";

pub const CONTENT_LENGTH: &'static str = "content-length";

pub const LOCATION: &'static str = "location";

pub const SET_COOKIE: &'static str = "set-cookie";

pub const WWW_AUTHENTICATE: &'static str = "www-authenticate";

/// One header line.
#[derive(Debug, PartialEq, Eq)]
pub struct Header {
    pub name: String,
    pub value: String,
}

impl View for Header {
    type V = (Seq<char>, Seq<char>);

    open spec fn view(&self) -> (Seq<char>, Seq<char>) {
        (self.name@, self.value@)
    }
}

impl Clone for Header {
    fn clone(&self) -> (r: Self)
        ensures
            r@ == self@,
    {
        Header { name: self.name.clone(), value: self.value.clone() }
    }
}

impl Header {
    /// The header line `name: value`.
    pub fn new(name: &str, value: String) -> (r: Self)
        ensures
            r@ == (name@, value@),
    {
        Header { name: name.to_owned(), value }
    }
}

/// A response: status, header lines in their order, and body.
#[derive(Debug, PartialEq, Eq)]
pub struct Response {
    pub status: u16,
    pub headers: Vec<Header>,
    pub body: String,
}

/// What a [`Response`] holds, as mathematical values.
pub ghost struct ResponseView {
    pub status: u16,
    pub headers: Seq<(Seq<char>, Seq<char>)>,
    pub body: Seq<char>,
}

impl View for Response {
    type V = ResponseView;

    open spec fn view(&self) -> ResponseView {
        ResponseView { status: self.status, headers: views(self.headers@), body: self.body@ }
    }
}

/// The response with the given status, no header and no body.
pub open spec fn bare(status: u16) -> ResponseView {
    ResponseView { status, headers: Seq::empty(), body: Seq::empty() }
}

/// The first position in `headers` of a line named `name`, or the length of
/// `headers` where there is none.
pub open spec fn position(headers: Seq<(Seq<char>, Seq<char>)>, name: Seq<char>) -> int
    decreases headers.len(),
{
    if headers.len() == 0 || headers[0].0 == name {
        0
    } else {
        1 + position(headers.drop_first(), name)
    }
}

/// The value of the first line named `name`, if there is one.
pub open spec fn lookup(headers: Seq<(Seq<char>, Seq<char>)>, name: Seq<char>) -> Option<
    Seq<char>,
> {
    let i = position(headers, name);
    if i < headers.len() {
        Some(headers[i].1)
    } else {
        None
    }
}

/// The lines that are not named `name`, in their order.
pub open spec fn without(headers: Seq<(Seq<char>, Seq<char>)>, name: Seq<char>) -> Seq<
    (Seq<char>, Seq<char>),
> {
    headers.filter(|h: (Seq<char>, Seq<char>)| h.0 != name)
}

/// `position` is the one index with no line named `name` in front of it that
/// holds such a line or ends the list.
pub proof fn lemma_position(headers: Seq<(Seq<char>, Seq<char>)>, name: Seq<char>, i: int)
    requires
        0 <= i <= headers.len(),
        forall|k: int| 0 <= k < i ==> headers[k].0 != name,
        i < headers.len() ==> headers[i].0 == name,
    ensures
        position(headers, name) == i,
    decreases headers.len(),
{
    if headers.len() == 0 || headers[0].0 == name {
    } else {
        let t = headers.drop_first();
        assert forall|k: int| 0 <= k < i - 1 implies t[k].0 != name by {
            assert(t[k] == headers[k + 1]);
        }
        lemma_position(t, name, i - 1);
    }
}

impl Response {
    /// The response with the given status, no header and no body.
    pub fn new(status: u16) -> (r: Self)
        ensures
            r@ == bare(status),
    {
        let headers: Vec<Header> = Vec::new();
        assert(views(headers@) =~= Seq::empty());
        Response { status, headers, body: String::new() }
    }

    /// Adds a header line behind those that are there.
    pub fn append(&mut self, name: &str, value: String)
        ensures
            final(self)@ == (ResponseView {
                headers: old(self)@.headers.push((name@, value@)),
                ..old(self)@
            }),
    {
        let h = Header::new(name, value);
        proof {
            lemma_views_push(self.headers@, h);
        }
        self.headers.push(h);
    }

    /// The value of the first header line named `name`.
    pub fn header(&self, name: &str) -> (r: Option<&str>)
        ensures
            crate::text::view_of(r) == lookup(self@.headers, name@),
    {
        let mut i: usize = 0;
        while i < self.headers.len()
            invariant
                i <= self.headers.len(),
                forall|k: int| 0 <= k < i ==> views(self.headers@)[k].0 != name@,
            decreases self.headers.len() - i,
        {
            if same(self.headers[i].name.as_str(), name) {
                proof {
                    lemma_position(views(self.headers@), name@, i as int);
                }
                return Some(self.headers[i].value.as_str());
            }
            i += 1;
        }
        proof {
            lemma_position(views(self.headers@), name@, i as int);
        }
        None
    }

    /// Sets the header `name` to `value`: the lines of that name are taken
    /// out and the new line is put behind the others.
    pub fn insert(&mut self, name: &str, value: String)
        ensures
            final(self)@ == (ResponseView {
                headers: without(old(self)@.headers, name@).push((name@, value@)),
                ..old(self)@
            }),
    {
        let ghost pred = |h: (Seq<char>, Seq<char>)| h.0 != name@;
        let ghost before = views(self.headers@);
        let mut kept: Vec<Header> = Vec::new();
        let mut i: usize = 0;
        assert(views(kept@) =~= Seq::empty());
        assert(before.take(0).filter(pred) =~= Seq::empty()) by {
            reveal(Seq::filter);
        }
        while i < self.headers.len()
            invariant
                i <= self.headers.len(),
                before == views(self.headers@),
                pred == |h: (Seq<char>, Seq<char>)| h.0 != name@,
                views(kept@) == before.take(i as int).filter(pred),
            decreases self.headers.len() - i,
        {
            proof {
                before.take(i as int).lemma_filter_push(before[i as int], pred);
                assert(before.take(i as int + 1) == before.take(i as int).push(before[i as int]));
            }
            if !same(self.headers[i].name.as_str(), name) {
                let h = self.headers[i].clone();
                proof {
                    lemma_views_push(kept@, h);
                }
                kept.push(h);
            }
            i += 1;
        }
        assert(before.take(before.len() as int) == before);
        let h = Header::new(name, value);
        proof {
            lemma_views_push(kept@, h);
        }
        kept.push(h);
        self.headers = kept;
    }
}

} // verus!

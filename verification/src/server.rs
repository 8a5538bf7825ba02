//! Which pipeline a request goes to.

use vstd::prelude::*;
use crate::configuration::{lookup_name, HostType, HostTypeView, RoutingTable};
use crate::response::{BAD_GATEWAY, GATEWAY_TIMEOUT, NOT_FOUND};
use crate::text::view_of;

verus! {

/// The port on which the gateway listens.
pub const PORT: u16 = 8080;

/// Why an upstream gave no response.
#[derive(Debug, Clone, Copy, PartialEq, Eq, Structural)]
pub enum UpstreamError {
    /// The upstream could not be reached, or broke off.
    UpstreamUnreachable,
    /// The upstream took too long.
    UpstreamTimeout,
}

impl UpstreamError {
    /// The status under which the error is reported: `502` for an upstream
    /// that cannot be reached, `504` for one that takes too long.
    pub open spec fn status_of(self) -> u16 {
        match self {
            UpstreamError::UpstreamUnreachable => 502,
            UpstreamError::UpstreamTimeout => 504,
        }
    }

    /// The status under which the error is reported.
    pub fn status(&self) -> (r: u16)
        ensures
            r == self.status_of(),
    {
        match self {
            UpstreamError::UpstreamUnreachable => BAD_GATEWAY,
            UpstreamError::UpstreamTimeout => GATEWAY_TIMEOUT,
        }
    }
}

/// One of the three ways in which a request is handled.
#[derive(Debug, Clone, Copy, PartialEq, Eq, Structural)]
pub enum Pipeline {
    /// The request is for an app that is a directory.
    Static,
    /// The request is for an app behind an upstream.
    Proxy,
    /// The request is for the gateway itself: login and administration.
    Management,
}

/// The pipeline for a request whose host is bound to `binding`, or to
/// nothing.
pub open spec fn pipeline_for(binding: Option<HostTypeView>) -> Pipeline {
    match binding {
        Some(HostTypeView::StaticApp(_)) => Pipeline::Static,
        Some(HostTypeView::ReverseApp(_)) => Pipeline::Proxy,
        None => Pipeline::Management,
    }
}

/// What a request is bound to, by its `Host` header: `404` where it has
/// none; else what the table binds the header to, which is nothing for the
/// gateway's own hostname.
pub open spec fn bound(table: Map<Seq<char>, HostTypeView>, host: Option<Seq<char>>) -> Result<
    Option<HostTypeView>,
    u16,
> {
    match host {
        None => Err(404u16),
        Some(h) => if table.contains_key(lookup_name(h)) {
            Ok(Some(table[lookup_name(h)]))
        } else {
            Ok(None)
        },
    }
}

/// Finds what a request is bound to. `host` is its `Host` header.
pub fn resolve<'a>(table: &'a RoutingTable, host: Option<&str>) -> (r: Result<
    Option<&'a HostType>,
    u16,
>)
    ensures
        match r {
            Ok(b) => bound(table@, view_of(host)) == Ok::<Option<HostTypeView>, u16>(view_of(b)),
            Err(status) => bound(table@, view_of(host)) == Err::<Option<HostTypeView>, u16>(
                status,
            ),
        },
{
    match host {
        None => Err(NOT_FOUND),
        Some(h) => Ok(table.resolve(h)),
    }
}

/// Picks the pipeline for a request by what its host is bound to.
pub fn dispatch(binding: Option<&HostType>) -> (r: Pipeline)
    ensures
        r == pipeline_for(view_of(binding)),
{
    match binding {
        Some(HostType::StaticApp(_)) => Pipeline::Static,
        Some(HostType::ReverseApp(_)) => Pipeline::Proxy,
        None => Pipeline::Management,
    }
}

} // verus!

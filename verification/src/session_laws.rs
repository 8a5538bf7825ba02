//! What holds of every session token: when it runs out, how the
//! anti-forgery header guards it, and how far a share link reaches.

use vstd::prelude::*;
use crate::configuration::{ConfigView, HostTypeView};
use crate::response::bare;
use crate::users::{
    checked, expiry_fits, extracted, extracted_admin, extracted_relaxed, live, token_for, verdict,
    AuthError, CredentialsView, ShareView, UserTokenView, UserView,
};

verus! {

/// A token issued at `issued` for `days` days expires `days * 86400` seconds
/// later. From that second on it is refused as expired, by itself and by
/// both ways of taking it from a session cookie.
pub proof fn lemma_session_runs_out(
    user: UserView,
    days: i64,
    issued: i64,
    xsrf_token: Seq<char>,
    c: CredentialsView,
    config: ConfigView,
    now: i64,
    fresh: Seq<char>,
)
    requires
        expiry_fits(days, issued),
        now >= issued + days * 86400,
        c.cookie == Some(Ok::<UserTokenView, AuthError>(token_for(user, days, issued, xsrf_token))),
        c.xsrf_token is Some,
    ensures
        token_for(user, days, issued, xsrf_token).expires == issued + days * 86400,
        checked(token_for(user, days, issued, xsrf_token), now) == Err::<UserTokenView, AuthError>(
            AuthError::AuthTokenExpired,
        ),
        extracted(c, config, now, fresh) == Err::<UserTokenView, AuthError>(
            AuthError::AuthTokenExpired,
        ),
        extracted_relaxed(c.cookie, now) == Err::<UserTokenView, AuthError>(
            AuthError::AuthTokenExpired,
        ),
{
}

/// Before it expires, a token in the session cookie is taken for the user's
/// exactly when the anti-forgery header repeats the token's secret; with any
/// other header the request is refused for the mismatch.
pub proof fn lemma_xsrf_guards_cookie(
    token: UserTokenView,
    header: Seq<char>,
    c: CredentialsView,
    config: ConfigView,
    now: i64,
    fresh: Seq<char>,
)
    requires
        live(token, now),
        c.cookie == Some(Ok::<UserTokenView, AuthError>(token)),
        c.xsrf_token == Some(header),
    ensures
        header == token.xsrf_token ==> extracted(c, config, now, fresh) == Ok::<
            UserTokenView,
            AuthError,
        >(token),
        header != token.xsrf_token ==> extracted(c, config, now, fresh) == Err::<
            UserTokenView,
            AuthError,
        >(AuthError::XsrfMismatch),
{
}

/// As long as sessions last at least a day, every token that is taken for a
/// user's is live at the time of the request.
pub proof fn lemma_accepted_token_is_live(
    c: CredentialsView,
    config: ConfigView,
    now: i64,
    fresh: Seq<char>,
)
    requires
        config.session_days() >= 1,
        expiry_fits(config.session_days(), now),
    ensures
        extracted(c, config, now, fresh) matches Ok(t) ==> live(t, now),
        extracted_admin(c, config, now, fresh) matches Ok(t) ==> live(t, now),
        extracted_relaxed(c.cookie, now) matches Ok(t) ==> live(t, now),
{
}

/// A token with a share link is refused by every secured service for every
/// request but the one for the link's own host and path.
pub proof fn lemma_share_reaches_one_place(
    service: HostTypeView,
    token: UserTokenView,
    share: ShareView,
    hostname: Seq<char>,
    path: Seq<char>,
)
    requires
        service.app().secured,
        token.share == Some(share),
        (hostname, path) != (share.hostname, share.path),
    ensures
        verdict(service, Some(token), hostname, path) == Some(bare(403)),
{
}

} // verus!

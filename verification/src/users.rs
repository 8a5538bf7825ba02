//! Users, session tokens and the rules that admit or refuse a request.

use vstd::prelude::*;
use vstd::utf8::encode_utf8;
use crate::configuration::{AdminError, Config, ConfigView, HostType, HostTypeView};
use crate::cookies::{CookieKey, SetCookie, SetCookieView};
use crate::response::{
    bare, lookup, without, Response, ResponseView, CONTENT_LENGTH, FORBIDDEN,
    INTERNAL_SERVER_ERROR, OK, SET_COOKIE, UNAUTHORIZED, WWW_AUTHENTICATE,
};
use crate::text::{clone_strings, decimal, same, u64_decimal, view_of, views};
use crate::trusted::{
    cookie_from_headers, parse_pair, parsed_pair, presented_cookie, seal, unix_now, unseal,
    unsealed,
};

verus! {

/// Name of the cookie that carries the encrypted session token.
pub const AUTH_COOKIE: &'static str = "ATRIUM_AUTH";

/// Name under which a token from a share link is sealed.
pub const SHARE_TOKEN: &'static str = "SHARE_TOKEN";

/// The role whose members may use the administration interface.
pub const ADMINS_ROLE: &'static str = "ADMINS";

/// What stands in place of a password whenever a user is shown.
pub const REDACTED: &'static str = "REDACTED";

/// Personal details of a user.
#[derive(Debug, PartialEq, Eq)]
pub struct UserInfo {
    pub firstname: String,
    pub lastname: String,
    pub email: String,
}

/// What a [`UserInfo`] holds, as mathematical values.
pub ghost struct UserInfoView {
    pub firstname: Seq<char>,
    pub lastname: Seq<char>,
    pub email: Seq<char>,
}

impl View for UserInfo {
    type V = UserInfoView;

    open spec fn view(&self) -> UserInfoView {
        UserInfoView { firstname: self.firstname@, lastname: self.lastname@, email: self.email@ }
    }
}

impl Clone for UserInfo {
    fn clone(&self) -> (r: Self)
        ensures
            r@ == self@,
    {
        UserInfo {
            firstname: self.firstname.clone(),
            lastname: self.lastname.clone(),
            email: self.email.clone(),
        }
    }
}

impl Default for UserInfo {
    fn default() -> (r: Self)
        ensures
            r@ == (UserInfoView {
                firstname: Seq::empty(),
                lastname: Seq::empty(),
                email: Seq::empty(),
            }),
    {
        UserInfo { firstname: String::new(), lastname: String::new(), email: String::new() }
    }
}

/// A copy of optional personal details.
pub fn clone_info(info: &Option<UserInfo>) -> (r: Option<UserInfo>)
    ensures
        view_of(r) == view_of(*info),
{
    match info {
        Some(i) => Some(i.clone()),
        None => None,
    }
}

/// A user known to the gateway.
#[derive(Debug, PartialEq, Eq)]
pub struct User {
    pub login: String,
    pub password: String,
    pub roles: Vec<String>,
    pub info: Option<UserInfo>,
}

/// What a [`User`] holds, as mathematical values.
pub ghost struct UserView {
    pub login: Seq<char>,
    pub password: Seq<char>,
    pub roles: Seq<Seq<char>>,
    pub info: Option<UserInfoView>,
}

impl View for User {
    type V = UserView;

    open spec fn view(&self) -> UserView {
        UserView {
            login: self.login@,
            password: self.password@,
            roles: views(self.roles@),
            info: view_of(self.info),
        }
    }
}

impl Clone for User {
    fn clone(&self) -> (r: Self)
        ensures
            r@ == self@,
    {
        User {
            login: self.login.clone(),
            password: self.password.clone(),
            roles: clone_strings(&self.roles),
            info: clone_info(&self.info),
        }
    }
}

impl Default for User {
    fn default() -> (r: Self)
        ensures
            r@ == (UserView {
                login: Seq::empty(),
                password: Seq::empty(),
                roles: Seq::empty(),
                info: None,
            }),
    {
        let roles: Vec<String> = Vec::new();
        assert(views(roles@) =~= Seq::empty());
        User { login: String::new(), password: String::new(), roles, info: None }
    }
}

/// The one place that a share link gives access to.
#[derive(Debug, PartialEq, Eq)]
pub struct Share {
    pub hostname: String,
    pub path: String,
    pub share_with: Option<String>,
    pub share_for_days: Option<i64>,
}

/// What a [`Share`] holds, as mathematical values.
pub ghost struct ShareView {
    pub hostname: Seq<char>,
    pub path: Seq<char>,
    pub share_with: Option<Seq<char>>,
    pub share_for_days: Option<i64>,
}

impl View for Share {
    type V = ShareView;

    open spec fn view(&self) -> ShareView {
        ShareView {
            hostname: self.hostname@,
            path: self.path@,
            share_with: view_of(self.share_with),
            share_for_days: self.share_for_days,
        }
    }
}

impl Clone for Share {
    fn clone(&self) -> (r: Self)
        ensures
            r@ == self@,
    {
        Share {
            hostname: self.hostname.clone(),
            path: self.path.clone(),
            share_with: match &self.share_with {
                Some(s) => Some(s.clone()),
                None => None,
            },
            share_for_days: self.share_for_days,
        }
    }
}

impl Default for Share {
    fn default() -> (r: Self)
        ensures
            r@ == (ShareView {
                hostname: Seq::empty(),
                path: Seq::empty(),
                share_with: None,
                share_for_days: None,
            }),
    {
        Share {
            hostname: String::new(),
            path: String::new(),
            share_with: None,
            share_for_days: None,
        }
    }
}

/// The payload of a session: who the user is, until when, and what an
/// anti-forgery header must repeat.
#[derive(Debug, PartialEq, Eq)]
pub struct UserToken {
    pub login: String,
    pub roles: Vec<String>,
    pub xsrf_token: String,
    pub share: Option<Share>,
    pub expires: i64,
    pub info: Option<UserInfo>,
}

/// What a [`UserToken`] holds, as mathematical values.
pub ghost struct UserTokenView {
    pub login: Seq<char>,
    pub roles: Seq<Seq<char>>,
    pub xsrf_token: Seq<char>,
    pub share: Option<ShareView>,
    pub expires: i64,
    pub info: Option<UserInfoView>,
}

impl View for UserToken {
    type V = UserTokenView;

    open spec fn view(&self) -> UserTokenView {
        UserTokenView {
            login: self.login@,
            roles: views(self.roles@),
            xsrf_token: self.xsrf_token@,
            share: view_of(self.share),
            expires: self.expires,
            info: view_of(self.info),
        }
    }
}

impl Clone for UserToken {
    fn clone(&self) -> (r: Self)
        ensures
            r@ == self@,
    {
        UserToken {
            login: self.login.clone(),
            roles: clone_strings(&self.roles),
            xsrf_token: self.xsrf_token.clone(),
            share: match &self.share {
                Some(s) => Some(s.clone()),
                None => None,
            },
            expires: self.expires,
            info: clone_info(&self.info),
        }
    }
}

impl Default for UserToken {
    fn default() -> (r: Self)
        ensures
            r@ == (UserTokenView {
                login: Seq::empty(),
                roles: Seq::empty(),
                xsrf_token: Seq::empty(),
                share: None,
                expires: 0,
                info: None,
            }),
    {
        let roles: Vec<String> = Vec::new();
        assert(views(roles@) =~= Seq::empty());
        UserToken {
            login: String::new(),
            roles,
            xsrf_token: String::new(),
            share: None,
            expires: 0,
            info: None,
        }
    }
}

/// A session token that was taken from its cookie without asking for the
/// anti-forgery header: what the proxy pipeline goes by, since requests that
/// are bound for an upstream do not carry that header.
#[derive(Debug, PartialEq, Eq)]
pub struct UserTokenWithoutXSRFCheck(pub UserToken);

impl View for UserTokenWithoutXSRFCheck {
    type V = UserTokenView;

    open spec fn view(&self) -> UserTokenView {
        self.0@
    }
}

impl Clone for UserTokenWithoutXSRFCheck {
    fn clone(&self) -> (r: Self)
        ensures
            r@ == self@,
    {
        UserTokenWithoutXSRFCheck(self.0.clone())
    }
}

impl Default for UserTokenWithoutXSRFCheck {
    fn default() -> (r: Self)
        ensures
            r@ == (UserTokenView {
                login: Seq::empty(),
                roles: Seq::empty(),
                xsrf_token: Seq::empty(),
                share: None,
                expires: 0,
                info: None,
            }),
    {
        UserTokenWithoutXSRFCheck(UserToken::default())
    }
}

/// Some role of the user is among `roles`.
pub open spec fn shares_role(user_roles: Seq<Seq<char>>, roles: Seq<Seq<char>>) -> bool {
    exists|i: int, j: int|
        #![trigger user_roles[i], roles[j]]
        0 <= i < user_roles.len() && 0 <= j < roles.len() && user_roles[i] == roles[j]
}

/// Whether the user has one of `roles`.
pub fn check_user_has_role(user: &UserToken, roles: &[String]) -> (r: bool)
    ensures
        r == shares_role(user@.roles, views(roles@)),
{
    let ghost ur = views(user.roles@);
    let ghost rs = views(roles@);
    let mut i: usize = 0;
    while i < user.roles.len()
        invariant
            i <= user.roles.len(),
            ur == views(user.roles@),
            rs == views(roles@),
            forall|a: int, b: int|
                #![trigger ur[a], rs[b]]
                0 <= a < i && 0 <= b < rs.len() ==> ur[a] != rs[b],
        decreases user.roles.len() - i,
    {
        let mut j: usize = 0;
        while j < roles.len()
            invariant
                i < user.roles.len(),
                j <= roles.len(),
                ur == views(user.roles@),
                rs == views(roles@),
                forall|b: int| #![trigger rs[b]] 0 <= b < j ==> ur[i as int] != rs[b],
            decreases roles.len() - j,
        {
            if same(user.roles[i].as_str(), roles[j].as_str()) {
                assert(ur[i as int] == rs[j as int]);
                return true;
            }
            j += 1;
        }
        i += 1;
    }
    false
}

/// The answer to a request that presents no user: `401` with a challenge
/// for HTTP Basic credentials.
pub open spec fn unauthorized() -> ResponseView {
    ResponseView {
        status: 401,
        headers: seq![("www-authenticate"@, "Basic realm=\"server\""@)],
        body: Seq::empty(),
    }
}

/// A share link that does not lead to `path` on `hostname`.
pub open spec fn out_of_scope(share: Option<ShareView>, hostname: Seq<char>, path: Seq<char>) -> bool {
    match share {
        Some(s) => s.path != path || s.hostname != hostname,
        None => false,
    }
}

/// The answer that keeps a request away from a service open to `roles`, if
/// one does: a challenge where no user is presented, `403` where the user
/// has none of the roles or holds a share link that leads elsewhere.
pub open spec fn role_verdict(
    user: Option<UserTokenView>,
    roles: Seq<Seq<char>>,
    hostname: Seq<char>,
    path: Seq<char>,
) -> Option<ResponseView> {
    match user {
        None => Some(unauthorized()),
        Some(u) => if !shares_role(u.roles, roles) || out_of_scope(u.share, hostname, path) {
            Some(bare(403))
        } else {
            None
        },
    }
}

/// The answer that keeps a request away from a service, if one does: none
/// where the service is not secured, [`role_verdict`] where it is.
pub open spec fn verdict(
    service: HostTypeView,
    user: Option<UserTokenView>,
    hostname: Seq<char>,
    path: Seq<char>,
) -> Option<ResponseView> {
    if service.app().secured {
        role_verdict(user, service.app().roles, hostname, path)
    } else {
        None
    }
}

fn share_out_of_scope(share: &Option<Share>, hostname: &str, path: &str) -> (r: bool)
    ensures
        r == out_of_scope(view_of(*share), hostname@, path@),
{
    match share {
        Some(s) => !same(s.path.as_str(), path) || !same(s.hostname.as_str(), hostname),
        None => false,
    }
}

/// Holds the user against the roles of `target` and the scope of a share
/// link: the response to send in place of the service's, or `None` to let
/// the request pass.
pub fn check_user_has_role_or_forbid(
    user: &Option<&UserToken>,
    target: &HostType,
    hostname: &str,
    path: &str,
) -> (r: Option<Response>)
    ensures
        view_of(r) == role_verdict(view_of(*user), target@.app().roles, hostname@, path@),
{
    match user {
        Some(user) => {
            if !check_user_has_role(user, target.roles().as_slice()) || share_out_of_scope(
                &user.share,
                hostname,
                path,
            ) {
                Some(Response::new(FORBIDDEN))
            } else {
                None
            }
        },
        None => {
            let mut response = Response::new(UNAUTHORIZED);
            response.append(WWW_AUTHENTICATE, "Basic realm=\"server\"".to_owned());
            assert(response@.headers =~= unauthorized().headers);
            Some(response)
        },
    }
}

/// Decides whether a request may reach `app`: the response to send in its
/// place, or `None` to let the request pass.
pub fn check_authorization(
    app: &HostType,
    user: &Option<&UserToken>,
    hostname: &str,
    path: &str,
) -> (r: Option<Response>)
    ensures
        view_of(r) == verdict(app@, view_of(*user), hostname@, path@),
{
    if app.secured() {
        check_user_has_role_or_forbid(user, app, hostname, path)
    } else {
        None
    }
}

/// Why a request is not taken for a user's.
#[derive(Debug, Clone, Copy, PartialEq, Eq, Structural)]
pub enum AuthError {
    /// The request presents no credential, or a session cookie without the
    /// anti-forgery header.
    AuthCookieMissing,
    /// The request presents no session cookie where only that would do.
    NoUserFound,
    /// A presented token does not read as a cookie.
    AuthCookieUnreadable,
    /// A presented token was not sealed with the gateway's key.
    AuthCookieUndecryptable,
    /// A sealed value does not hold a token.
    AuthTokenMalformed,
    /// The token has run out.
    AuthTokenExpired,
    /// The anti-forgery header does not repeat the token's secret.
    XsrfMismatch,
    /// No user has the login that was given.
    UserUnknown,
    /// HTTP Basic credentials name no user and hold no token.
    BasicUserUnknown,
    /// The user is not an administrator.
    NotAdmin,
}

impl AuthError {
    /// The status under which the error is reported.
    pub open spec fn status_of(self) -> u16 {
        match self {
            AuthError::AuthCookieMissing => 401,
            AuthError::NoUserFound => 401,
            AuthError::AuthCookieUnreadable => 500,
            AuthError::AuthCookieUndecryptable => 500,
            AuthError::AuthTokenMalformed => 500,
            AuthError::AuthTokenExpired => 403,
            AuthError::XsrfMismatch => 403,
            AuthError::UserUnknown => 401,
            AuthError::BasicUserUnknown => 401,
            AuthError::NotAdmin => 401,
        }
    }

    /// The words with which the error is reported.
    pub open spec fn message_of(self) -> Seq<char> {
        match self {
            AuthError::AuthCookieMissing => "no user found or xsrf token not provided"@,
            AuthError::NoUserFound => "no user found"@,
            AuthError::AuthCookieUnreadable => "could not find user token"@,
            AuthError::AuthCookieUndecryptable => "could not decrypt user token"@,
            AuthError::AuthTokenMalformed => "could not deserialize user token"@,
            AuthError::AuthTokenExpired => "user token is expired"@,
            AuthError::XsrfMismatch => "xsrf token doesn't match"@,
            AuthError::UserUnknown => "user does not exist"@,
            AuthError::BasicUserUnknown => "no user found in basic auth"@,
            AuthError::NotAdmin => "user is not in admin group"@,
        }
    }

    /// The status under which the error is reported.
    pub fn status(&self) -> (r: u16)
        ensures
            r == self.status_of(),
    {
        match self {
            AuthError::AuthCookieMissing => UNAUTHORIZED,
            AuthError::NoUserFound => UNAUTHORIZED,
            AuthError::AuthCookieUnreadable => INTERNAL_SERVER_ERROR,
            AuthError::AuthCookieUndecryptable => INTERNAL_SERVER_ERROR,
            AuthError::AuthTokenMalformed => INTERNAL_SERVER_ERROR,
            AuthError::AuthTokenExpired => FORBIDDEN,
            AuthError::XsrfMismatch => FORBIDDEN,
            AuthError::UserUnknown => UNAUTHORIZED,
            AuthError::BasicUserUnknown => UNAUTHORIZED,
            AuthError::NotAdmin => UNAUTHORIZED,
        }
    }

    /// The words with which the error is reported.
    pub fn message(&self) -> (r: &'static str)
        ensures
            r@ == self.message_of(),
    {
        match self {
            AuthError::AuthCookieMissing => "no user found or xsrf token not provided",
            AuthError::NoUserFound => "no user found",
            AuthError::AuthCookieUnreadable => "could not find user token",
            AuthError::AuthCookieUndecryptable => "could not decrypt user token",
            AuthError::AuthTokenMalformed => "could not deserialize user token",
            AuthError::AuthTokenExpired => "user token is expired",
            AuthError::XsrfMismatch => "xsrf token doesn't match",
            AuthError::UserUnknown => "user does not exist",
            AuthError::BasicUserUnknown => "no user found in basic auth",
            AuthError::NotAdmin => "user is not in admin group",
        }
    }
}

/// The number of seconds in a day.
pub const DAY: i64 = 86400;

/// A token is good at `now` as long as it expires later.
pub open spec fn live(token: UserTokenView, now: i64) -> bool {
    token.expires > now
}

/// A token as it stands at `now`: itself while it is live, expired after.
pub open spec fn checked(token: UserTokenView, now: i64) -> Result<UserTokenView, AuthError> {
    if live(token, now) {
        Ok(token)
    } else {
        Err(AuthError::AuthTokenExpired)
    }
}

/// What was read from a sealed value, as it stands at `now`: nothing where
/// the value holds no token, else the token as [`checked`] finds it.
pub open spec fn read(decoded: Option<UserTokenView>, now: i64) -> Result<UserTokenView, AuthError> {
    match decoded {
        Some(t) => checked(t, now),
        None => Err(AuthError::AuthTokenMalformed),
    }
}

/// The views inside the result of an extraction.
pub open spec fn view_of_result(r: Result<UserToken, AuthError>) -> Result<
    UserTokenView,
    AuthError,
> {
    match r {
        Ok(t) => Ok(t@),
        Err(e) => Err(e),
    }
}

impl UserToken {
    /// The token as it stands at `now`.
    pub fn check_expires_at(self, now: i64) -> (r: Result<Self, AuthError>)
        ensures
            view_of_result(r) == checked(self@, now),
    {
        if self.expires <= now {
            Err(AuthError::AuthTokenExpired)
        } else {
            Ok(self)
        }
    }

    /// The token as it stands by the system clock: whatever the clock says,
    /// the answer is the token itself or that it has expired.
    pub fn check_expires(self) -> (r: Result<Self, AuthError>)
        ensures
            exists|now: i64| view_of_result(r) == checked(self@, now),
    {
        let now = unix_now();
        let ghost before = self@;
        let r = self.check_expires_at(now);
        assert(view_of_result(r) == checked(before, now));
        r
    }

    /// What was decoded from a sealed value, as it stands at `now`.
    /// `decoded` is `None` where the value did not hold a token.
    pub fn from_json(decoded: Option<UserToken>, now: i64) -> (r: Result<Self, AuthError>)
        ensures
            view_of_result(r) == read(view_of(decoded), now),
    {
        match decoded {
            Some(token) => token.check_expires_at(now),
            None => Err(AuthError::AuthTokenMalformed),
        }
    }
}

/// The text behind a sealed value, or why there is none.
#[derive(Debug, PartialEq, Eq)]
pub enum Plain {
    Text(String),
    Failed(AuthError),
}

impl View for Plain {
    type V = Result<Seq<char>, AuthError>;

    open spec fn view(&self) -> Result<Seq<char>, AuthError> {
        match self {
            Plain::Text(t) => Ok(t@),
            Plain::Failed(e) => Err(*e),
        }
    }
}

/// The text behind a token that came as a password or in a link, held to be
/// the value of the cookie `cookie_name`: the cookie that the two spell is
/// read, then unsealed.
pub open spec fn opened(key: Seq<u8>, cookie_name: Seq<char>, password: Seq<char>) -> Result<
    Seq<char>,
    AuthError,
> {
    match parsed_pair(cookie_name + seq!['='] + password) {
        None => Err(AuthError::AuthCookieUnreadable),
        Some((name, value)) => match unsealed(key, name, value) {
            None => Err(AuthError::AuthCookieUndecryptable),
            Some(text) => Ok(text),
        },
    }
}

/// Opens a token that came as a password or in a link, as the value of the
/// cookie `cookie_name`. The text that comes out is the token's encoding.
pub fn cookie_from_password(cookie_name: &str, key: &CookieKey, password: &str) -> (r: Plain)
    ensures
        r@ == opened(key@, cookie_name@, password@),
{
    let mut line = cookie_name.to_owned();
    line.append("=");
    line.append(password);
    proof {
        reveal_strlit("=");
        assert("="@ =~= seq!['=']);
    }
    match parse_pair(line.as_str()) {
        None => Plain::Failed(AuthError::AuthCookieUnreadable),
        Some(pair) => match unseal(key.as_bytes(), pair.0.as_str(), pair.1.as_str()) {
            None => Plain::Failed(AuthError::AuthCookieUndecryptable),
            Some(text) => Plain::Text(text),
        },
    }
}

/// Seals the text `encoded` as the value of the cookie `cookie_name`, which
/// takes a name that is not empty. The value differs from call to call; each
/// one unseals to `encoded` under the same name and key.
pub fn seal_token(key: &CookieKey, cookie_name: &str, encoded: &str) -> (r: Option<String>)
    ensures
        r is Some <==> cookie_name@.len() > 0,
        r matches Some(v) ==> unsealed(key@, cookie_name@, v@) == Some(encoded@),
{
    if cookie_name.is_empty() {
        None
    } else {
        seal(key.as_bytes(), cookie_name, encoded)
    }
}

/// The text behind the session cookie among the `Cookie` headers of a
/// request, where there is one that opens.
pub fn session_cookie(key: &CookieKey, cookies: &Vec<String>) -> (r: Option<String>)
    ensures
        view_of(r) == presented_cookie(key@, views(cookies@), AUTH_COOKIE@),
{
    cookie_from_headers(key.as_bytes(), cookies, AUTH_COOKIE)
}

/// The token read from a credential, or why none was read.
#[derive(Debug, PartialEq, Eq)]
pub enum Reading {
    Token(UserToken),
    Failed(AuthError),
}

impl View for Reading {
    type V = Result<UserTokenView, AuthError>;

    open spec fn view(&self) -> Result<UserTokenView, AuthError> {
        match self {
            Reading::Token(t) => Ok(t@),
            Reading::Failed(e) => Err(*e),
        }
    }
}

/// A reading as it stands at `now`: a token that was read must be live.
pub open spec fn settled(reading: Result<UserTokenView, AuthError>, now: i64) -> Result<
    UserTokenView,
    AuthError,
> {
    match reading {
        Ok(t) => checked(t, now),
        Err(e) => Err(e),
    }
}

/// What a decoder made of an opened value: the failure to open it, the
/// token it holds, or that it holds none.
pub open spec fn read_as(plain: Result<Seq<char>, AuthError>, decoded: Option<UserTokenView>) -> Result<
    UserTokenView,
    AuthError,
> {
    match plain {
        Ok(_) => match decoded {
            Some(t) => Ok(t),
            None => Err(AuthError::AuthTokenMalformed),
        },
        Err(e) => Err(e),
    }
}

impl Reading {
    /// What a decoder made of an opened value. `decoded` is only looked at
    /// where `plain` is a text.
    pub fn of(plain: &Plain, decoded: Option<UserToken>) -> (r: Self)
        ensures
            r@ == read_as(plain@, view_of(decoded)),
    {
        match plain {
            Plain::Failed(e) => Reading::Failed(*e),
            Plain::Text(_) => match decoded {
                Some(t) => Reading::Token(t),
                None => Reading::Failed(AuthError::AuthTokenMalformed),
            },
        }
    }

    /// The reading as it stands at `now`.
    pub fn settle(&self, now: i64) -> (r: Result<UserToken, AuthError>)
        ensures
            view_of_result(r) == settled(self@, now),
    {
        match self {
            Reading::Token(t) => t.clone().check_expires_at(now),
            Reading::Failed(e) => Err(*e),
        }
    }
}

/// A token that came in the query of a request, read as a session token and
/// as the token of a share link.
#[derive(Debug, PartialEq, Eq)]
pub struct QueryReading {
    pub session: Reading,
    pub share: Reading,
}

/// HTTP Basic credentials: the user name, and the password read as a
/// session token.
#[derive(Debug, PartialEq, Eq)]
pub struct BasicReading {
    pub username: String,
    pub session: Reading,
}

/// What a request presents to show who sends it, as far as it could be read.
#[derive(Debug, PartialEq, Eq)]
pub struct Credentials {
    /// The session cookie, where the request holds one that opens.
    pub cookie: Option<Reading>,
    /// The anti-forgery header.
    pub xsrf_token: Option<String>,
    /// The `token` parameter of the query.
    pub query: Option<QueryReading>,
    /// The `Authorization` header, where it holds HTTP Basic credentials.
    pub basic: Option<BasicReading>,
}

/// What [`Credentials`] hold, as mathematical values.
pub ghost struct CredentialsView {
    pub cookie: Option<Result<UserTokenView, AuthError>>,
    pub xsrf_token: Option<Seq<char>>,
    pub query: Option<(Result<UserTokenView, AuthError>, Result<UserTokenView, AuthError>)>,
    pub basic: Option<(Seq<char>, Result<UserTokenView, AuthError>)>,
}

impl View for Credentials {
    type V = CredentialsView;

    open spec fn view(&self) -> CredentialsView {
        CredentialsView {
            cookie: view_of(self.cookie),
            xsrf_token: view_of(self.xsrf_token),
            query: match self.query {
                Some(q) => Some((q.session@, q.share@)),
                None => None,
            },
            basic: match self.basic {
                Some(b) => Some((b.username@, b.session@)),
                None => None,
            },
        }
    }
}

/// The first position in `users` of a user with the login `login`, or the
/// length of `users` where there is none.
pub open spec fn user_position(users: Seq<UserView>, login: Seq<char>) -> int
    decreases users.len(),
{
    if users.len() == 0 || users[0].login == login {
        0
    } else {
        1 + user_position(users.drop_first(), login)
    }
}

/// The first user with the login `login`, if there is one.
pub open spec fn local_user(users: Seq<UserView>, login: Seq<char>) -> Option<UserView> {
    let i = user_position(users, login);
    if i < users.len() {
        Some(users[i])
    } else {
        None
    }
}

/// `user_position` is the one index with no user of that login in front of
/// it that holds such a user or ends the list.
pub proof fn lemma_user_position(users: Seq<UserView>, login: Seq<char>, i: int)
    requires
        0 <= i <= users.len(),
        forall|k: int| 0 <= k < i ==> users[k].login != login,
        i < users.len() ==> users[i].login == login,
    ensures
        user_position(users, login) == i,
    decreases users.len(),
{
    if users.len() == 0 || users[0].login == login {
    } else {
        let t = users.drop_first();
        assert forall|k: int| 0 <= k < i - 1 implies t[k].login != login by {
            assert(t[k] == users[k + 1]);
        }
        lemma_user_position(t, login, i - 1);
    }
}

/// Whether a session that starts at `now` and lasts `days` days ends at a
/// second that the clock can show.
pub open spec fn expiry_fits(days: i64, now: i64) -> bool {
    i64::MIN <= now + days * 86400 <= i64::MAX
}

/// The session token of `user` for a session that starts at `now`, lasts
/// `days` days and is protected by the secret `xsrf_token`.
pub open spec fn token_for(user: UserView, days: i64, now: i64, xsrf_token: Seq<char>) -> UserTokenView {
    UserTokenView {
        login: user.login,
        roles: user.roles,
        xsrf_token,
        share: None,
        expires: (now + days * 86400) as i64,
        info: user.info,
    }
}

/// Makes the session token of `user` for a session that starts at `now`,
/// under a secret `xsrf_token` that the caller has drawn at random.
pub fn user_to_token(user: &User, config: &Config, now: i64, xsrf_token: String) -> (r: UserToken)
    requires
        expiry_fits(config@.session_days(), now),
    ensures
        r@ == token_for(user@, config@.session_days(), now, xsrf_token@),
{
    let days = config.session_days();
    let expires: i128 = (now as i128) + (days as i128) * 86400;
    UserToken {
        login: user.login.clone(),
        roles: clone_strings(&user.roles),
        xsrf_token,
        share: None,
        expires: expires as i64,
        info: clone_info(&user.info),
    }
}

/// What a login request holds.
#[derive(Debug, PartialEq, Eq)]
pub struct LocalAuth {
    pub login: String,
}

/// What a login is answered with.
#[derive(Debug, PartialEq, Eq)]
pub struct AuthResponse {
    pub is_admin: bool,
    pub xsrf_token: String,
}

fn user_index(users: &Vec<User>, login: &str) -> (r: usize)
    ensures
        r == user_position(views(users@), login@),
        r <= users.len(),
{
    let mut i: usize = 0;
    while i < users.len() && !same(users[i].login.as_str(), login)
        invariant
            i <= users.len(),
            forall|k: int| 0 <= k < i ==> views(users@)[k].login != login@,
        decreases users.len() - i,
    {
        i += 1;
    }
    proof {
        lemma_user_position(views(users@), login@, i as int);
    }
    i
}

fn find_user<'a>(users: &'a Vec<User>, login: &str) -> (r: Option<&'a User>)
    ensures
        view_of(r) == local_user(views(users@), login@),
{
    let at = user_index(users, login);
    if at < users.len() {
        Some(&users[at])
    } else {
        None
    }
}

/// The user and fresh session token that a login leads to, or that the
/// login names no user.
pub open spec fn authenticated(
    config: ConfigView,
    login: Seq<char>,
    now: i64,
    xsrf_token: Seq<char>,
) -> Result<(UserView, UserTokenView), AuthError> {
    match local_user(config.users, login) {
        Some(u) => Ok((u, token_for(u, config.session_days(), now, xsrf_token))),
        None => Err(AuthError::UserUnknown),
    }
}

/// Finds the user that `payload` names and makes a session token for a
/// session that starts at `now`. No password is asked for.
pub fn authenticate_local_user<'a>(
    config: &'a Config,
    payload: LocalAuth,
    now: i64,
    xsrf_token: String,
) -> (r: Result<(&'a User, UserToken), AuthError>)
    requires
        expiry_fits(config@.session_days(), now),
    ensures
        match r {
            Ok(p) => authenticated(config@, payload.login@, now, xsrf_token@) == Ok::<
                (UserView, UserTokenView),
                AuthError,
            >((p.0@, p.1@)),
            Err(e) => authenticated(config@, payload.login@, now, xsrf_token@) == Err::<
                (UserView, UserTokenView),
                AuthError,
            >(e),
        },
{
    match find_user(&config.users, payload.login.as_str()) {
        Some(user) => {
            let token = user_to_token(user, config, now, xsrf_token);
            Ok((user, token))
        },
        None => Err(AuthError::UserUnknown),
    }
}

/// The user behind a request, by the strict rules: a session cookie counts
/// only together with an anti-forgery header that repeats its secret; next
/// comes a token in the query, read as a session token and, failing that,
/// as the token of a share link; last come HTTP Basic credentials, whose
/// password is read as a session token and whose user name, failing that,
/// is looked up among the local users.
pub open spec fn extracted(
    c: CredentialsView,
    config: ConfigView,
    now: i64,
    fresh: Seq<char>,
) -> Result<UserTokenView, AuthError> {
    match (c.cookie, c.xsrf_token) {
        (Some(reading), Some(xsrf_token)) => match settled(reading, now) {
            Ok(t) => if t.xsrf_token == xsrf_token {
                Ok(t)
            } else {
                Err(AuthError::XsrfMismatch)
            },
            Err(e) => Err(e),
        },
        _ => match c.query {
            Some((session, share)) => match settled(session, now) {
                Ok(t) => Ok(t),
                Err(_) => settled(share, now),
            },
            None => match c.basic {
                Some((username, session)) => match settled(session, now) {
                    Ok(t) => Ok(t),
                    Err(_) => match local_user(config.users, username) {
                        Some(u) => Ok(token_for(u, config.session_days(), now, fresh)),
                        None => Err(AuthError::BasicUserUnknown),
                    },
                },
                None => Err(AuthError::AuthCookieMissing),
            },
        },
    }
}

/// The user behind a request, by the relaxed rules of the proxy pipeline:
/// the session cookie alone counts, and no anti-forgery header is asked for.
pub open spec fn extracted_relaxed(
    cookie: Option<Result<UserTokenView, AuthError>>,
    now: i64,
) -> Result<UserTokenView, AuthError> {
    match cookie {
        Some(reading) => settled(reading, now),
        None => Err(AuthError::NoUserFound),
    }
}

/// Whether the roles make an administrator.
pub open spec fn is_admin(roles: Seq<Seq<char>>) -> bool {
    roles.contains("ADMINS"@)
}

/// The administrator behind a request: the user that [`extracted`] finds,
/// who must have the administrators' role.
pub open spec fn extracted_admin(
    c: CredentialsView,
    config: ConfigView,
    now: i64,
    fresh: Seq<char>,
) -> Result<UserTokenView, AuthError> {
    match extracted(c, config, now, fresh) {
        Ok(t) => if is_admin(t.roles) {
            Ok(t)
        } else {
            Err(AuthError::NotAdmin)
        },
        Err(e) => Err(e),
    }
}

/// Whether `role` is among `roles`.
pub fn has_role(roles: &Vec<String>, role: &str) -> (r: bool)
    ensures
        r == views(roles@).contains(role@),
{
    let mut i: usize = 0;
    while i < roles.len()
        invariant
            i <= roles.len(),
            forall|k: int| 0 <= k < i ==> views(roles@)[k] != role@,
        decreases roles.len() - i,
    {
        if same(roles[i].as_str(), role) {
            assert(views(roles@)[i as int] == role@);
            return true;
        }
        i += 1;
    }
    false
}

impl UserToken {
    /// Finds the user behind a request by the strict rules. `now` is the
    /// time of the request; `fresh` is a secret drawn at random, which goes
    /// into the token of a user who is known by name alone.
    pub fn extract(credentials: &Credentials, config: &Config, now: i64, fresh: String) -> (r:
        Result<UserToken, AuthError>)
        requires
            expiry_fits(config@.session_days(), now),
        ensures
            view_of_result(r) == extracted(credentials@, config@, now, fresh@),
    {
        if let Some(cookie) = &credentials.cookie {
            if let Some(xsrf_token) = &credentials.xsrf_token {
                let token = cookie.settle(now)?;
                if !same(token.xsrf_token.as_str(), xsrf_token.as_str()) {
                    return Err(AuthError::XsrfMismatch);
                }
                return Ok(token);
            }
        }
        if let Some(query) = &credentials.query {
            let r = query.session.settle(now);
            return match r {
                Ok(t) => Ok(t),
                Err(_) => query.share.settle(now),
            };
        }
        if let Some(basic) = &credentials.basic {
            let r = basic.session.settle(now);
            return match r {
                Ok(t) => Ok(t),
                Err(_) => match find_user(&config.users, basic.username.as_str()) {
                    Some(user) => Ok(user_to_token(user, config, now, fresh)),
                    None => Err(AuthError::BasicUserUnknown),
                },
            };
        }
        Err(AuthError::AuthCookieMissing)
    }
}

impl UserTokenWithoutXSRFCheck {
    /// Finds the user behind a request by the relaxed rules of the proxy
    /// pipeline.
    pub fn extract(cookie: &Option<Reading>, now: i64) -> (r: Result<Self, AuthError>)
        ensures
            match r {
                Ok(t) => extracted_relaxed(view_of(*cookie), now) == Ok::<
                    UserTokenView,
                    AuthError,
                >(t@),
                Err(e) => extracted_relaxed(view_of(*cookie), now) == Err::<
                    UserTokenView,
                    AuthError,
                >(e),
            },
    {
        match cookie {
            Some(reading) => match reading.settle(now) {
                Ok(t) => Ok(UserTokenWithoutXSRFCheck(t)),
                Err(e) => Err(e),
            },
            None => Err(AuthError::NoUserFound),
        }
    }
}

/// The session token of an administrator.
#[derive(Debug, PartialEq, Eq)]
pub struct AdminToken(UserToken);

impl View for AdminToken {
    type V = UserTokenView;

    closed spec fn view(&self) -> UserTokenView {
        self.0@
    }
}

impl AdminToken {
    #[verifier::type_invariant]
    spec fn holds_admin_role(self) -> bool {
        is_admin(self.0@.roles)
    }

    /// The token as an administrator's, where its user is one.
    pub fn new(token: UserToken) -> (r: Result<Self, AuthError>)
        ensures
            match r {
                Ok(a) => is_admin(token@.roles) && a@ == token@,
                Err(e) => !is_admin(token@.roles) && e == AuthError::NotAdmin,
            },
    {
        if has_role(&token.roles, ADMINS_ROLE) {
            Ok(AdminToken(token))
        } else {
            Err(AuthError::NotAdmin)
        }
    }

    /// Finds the administrator behind a request.
    pub fn extract(credentials: &Credentials, config: &Config, now: i64, fresh: String) -> (r:
        Result<Self, AuthError>)
        requires
            expiry_fits(config@.session_days(), now),
        ensures
            match r {
                Ok(a) => extracted_admin(credentials@, config@, now, fresh@) == Ok::<
                    UserTokenView,
                    AuthError,
                >(a@),
                Err(e) => extracted_admin(credentials@, config@, now, fresh@) == Err::<
                    UserTokenView,
                    AuthError,
                >(e),
            },
    {
        match UserToken::extract(credentials, config, now, fresh) {
            Ok(token) => Self::new(token),
            Err(e) => Err(e),
        }
    }

    /// The token, whose roles hold the administrators' role.
    pub fn token(&self) -> (r: &UserToken)
        ensures
            r@ == self@,
            is_admin(r@.roles),
    {
        proof {
            use_type_invariant(self);
        }
        &self.0
    }
}

/// HTTP Basic credentials as they come.
#[derive(Debug, PartialEq, Eq)]
pub struct Basic {
    pub username: String,
    pub password: String,
}

/// What a request presents to show who sends it, as it comes.
#[derive(Debug, PartialEq, Eq)]
pub struct Presented {
    /// The values of the `Cookie` headers.
    pub cookies: Vec<String>,
    /// The anti-forgery header.
    pub xsrf_token: Option<String>,
    /// The `token` parameter of the query.
    pub query_token: Option<String>,
    /// The `Authorization` header, where it holds HTTP Basic credentials.
    pub basic: Option<Basic>,
}

/// What [`Presented`] credentials hold, as mathematical values.
pub ghost struct PresentedView {
    pub cookies: Seq<Seq<char>>,
    pub xsrf_token: Option<Seq<char>>,
    pub query_token: Option<Seq<char>>,
    pub basic: Option<(Seq<char>, Seq<char>)>,
}

impl View for Presented {
    type V = PresentedView;

    open spec fn view(&self) -> PresentedView {
        PresentedView {
            cookies: views(self.cookies@),
            xsrf_token: view_of(self.xsrf_token),
            query_token: view_of(self.query_token),
            basic: match self.basic {
                Some(b) => Some((b.username@, b.password@)),
                None => None,
            },
        }
    }
}

/// A token from the query, opened as a session token and as the token of a
/// share link.
#[derive(Debug, PartialEq, Eq)]
pub struct OpenedQuery {
    pub session: Plain,
    pub share: Plain,
}

/// HTTP Basic credentials with the password opened as a session token.
#[derive(Debug, PartialEq, Eq)]
pub struct OpenedBasic {
    pub username: String,
    pub session: Plain,
}

/// The credentials of a request with every sealed value opened: the texts
/// that are left to decode into tokens.
#[derive(Debug, PartialEq, Eq)]
pub struct Opened {
    pub cookie: Option<String>,
    pub xsrf_token: Option<String>,
    pub query: Option<OpenedQuery>,
    pub basic: Option<OpenedBasic>,
}

/// What [`Opened`] credentials hold, as mathematical values.
pub ghost struct OpenedView {
    pub cookie: Option<Seq<char>>,
    pub xsrf_token: Option<Seq<char>>,
    pub query: Option<(Result<Seq<char>, AuthError>, Result<Seq<char>, AuthError>)>,
    pub basic: Option<(Seq<char>, Result<Seq<char>, AuthError>)>,
}

impl View for Opened {
    type V = OpenedView;

    open spec fn view(&self) -> OpenedView {
        OpenedView {
            cookie: view_of(self.cookie),
            xsrf_token: view_of(self.xsrf_token),
            query: match self.query {
                Some(q) => Some((q.session@, q.share@)),
                None => None,
            },
            basic: match self.basic {
                Some(b) => Some((b.username@, b.session@)),
                None => None,
            },
        }
    }
}

/// What opening the credentials `p` under `key` gives: the session cookie
/// that the `Cookie` headers present; the query's token opened under the
/// session cookie's name and under that of share links; the password of
/// HTTP Basic credentials opened under the session cookie's name.
pub open spec fn opened_credentials(key: Seq<u8>, p: PresentedView) -> OpenedView {
    OpenedView {
        cookie: presented_cookie(key, p.cookies, "ATRIUM_AUTH"@),
        xsrf_token: p.xsrf_token,
        query: match p.query_token {
            Some(t) => Some((opened(key, "ATRIUM_AUTH"@, t), opened(key, "SHARE_TOKEN"@, t))),
            None => None,
        },
        basic: match p.basic {
            Some((username, password)) => Some((username, opened(key, "ATRIUM_AUTH"@, password))),
            None => None,
        },
    }
}

/// The readings that decoding the opened credentials `o` gives, where the
/// decoder made `cookie`, `query_session`, `query_share` and `basic_session`
/// of the four texts that `o` may hold.
pub open spec fn decoded_credentials(
    o: OpenedView,
    cookie: Option<UserTokenView>,
    query_session: Option<UserTokenView>,
    query_share: Option<UserTokenView>,
    basic_session: Option<UserTokenView>,
) -> CredentialsView {
    CredentialsView {
        cookie: match o.cookie {
            Some(text) => Some(read_as(Ok(text), cookie)),
            None => None,
        },
        xsrf_token: o.xsrf_token,
        query: match o.query {
            Some((session, share)) => Some(
                (read_as(session, query_session), read_as(share, query_share)),
            ),
            None => None,
        },
        basic: match o.basic {
            Some((username, session)) => Some((username, read_as(session, basic_session))),
            None => None,
        },
    }
}

fn clone_text(o: &Option<String>) -> (r: Option<String>)
    ensures
        view_of(r) == view_of(*o),
{
    match o {
        Some(s) => Some(s.clone()),
        None => None,
    }
}

impl Presented {
    /// Opens every sealed value among the credentials.
    pub fn open(&self, key: &CookieKey) -> (r: Opened)
        ensures
            r@ == opened_credentials(key@, self@),
    {
        Opened {
            cookie: session_cookie(key, &self.cookies),
            xsrf_token: clone_text(&self.xsrf_token),
            query: match &self.query_token {
                Some(t) => Some(
                    OpenedQuery {
                        session: cookie_from_password(AUTH_COOKIE, key, t.as_str()),
                        share: cookie_from_password(SHARE_TOKEN, key, t.as_str()),
                    },
                ),
                None => None,
            },
            basic: match &self.basic {
                Some(b) => Some(
                    OpenedBasic {
                        username: b.username.clone(),
                        session: cookie_from_password(AUTH_COOKIE, key, b.password.as_str()),
                    },
                ),
                None => None,
            },
        }
    }
}

impl Opened {
    /// Puts the tokens that a decoder found in the opened texts in their
    /// places. Each token is only looked at where its text is there.
    pub fn decoded(
        self,
        cookie: Option<UserToken>,
        query_session: Option<UserToken>,
        query_share: Option<UserToken>,
        basic_session: Option<UserToken>,
    ) -> (r: Credentials)
        ensures
            r@ == decoded_credentials(
                self@,
                view_of(cookie),
                view_of(query_session),
                view_of(query_share),
                view_of(basic_session),
            ),
    {
        Credentials {
            cookie: match &self.cookie {
                Some(_) => Some(
                    match cookie {
                        Some(t) => Reading::Token(t),
                        None => Reading::Failed(AuthError::AuthTokenMalformed),
                    },
                ),
                None => None,
            },
            xsrf_token: self.xsrf_token,
            query: match self.query {
                Some(q) => Some(
                    QueryReading {
                        session: Reading::of(&q.session, query_session),
                        share: Reading::of(&q.share, query_share),
                    },
                ),
                None => None,
            },
            basic: match self.basic {
                Some(b) => Some(
                    BasicReading {
                        username: b.username,
                        session: Reading::of(&b.session, basic_session),
                    },
                ),
                None => None,
            },
        }
    }
}

/// What an administrator is told when a user was deleted.
pub const USER_DELETED: &'static str = "user deleted successfully";

/// What an administrator is told when a user was added or changed.
pub const USER_SAVED: &'static str = "user created or updated successfully";

/// What a login is answered with: the token of the session that begins, and
/// what the user's browser is told about it.
pub open spec fn logged_in(
    config: ConfigView,
    login: Seq<char>,
    now: i64,
    xsrf_token: Seq<char>,
) -> Result<(UserTokenView, bool, Seq<char>), AuthError> {
    match local_user(config.users, login) {
        Some(u) => Ok(
            (token_for(u, config.session_days(), now, xsrf_token), is_admin(u.roles), xsrf_token),
        ),
        None => Err(AuthError::UserUnknown),
    }
}

/// Answers a login: finds the user, makes the token of the session that
/// begins at `now` under the secret `xsrf_token`, and says whether the user
/// is an administrator.
pub fn local_auth(config: &Config, payload: LocalAuth, now: i64, xsrf_token: String) -> (r: Result<
    (UserToken, AuthResponse),
    AuthError,
>)
    requires
        expiry_fits(config@.session_days(), now),
    ensures
        match r {
            Ok(p) => logged_in(config@, payload.login@, now, xsrf_token@) == Ok::<
                (UserTokenView, bool, Seq<char>),
                AuthError,
            >((p.0@, p.1.is_admin, p.1.xsrf_token@)),
            Err(e) => logged_in(config@, payload.login@, now, xsrf_token@) == Err::<
                (UserTokenView, bool, Seq<char>),
                AuthError,
            >(e),
        },
{
    match authenticate_local_user(config, payload, now, xsrf_token) {
        Ok(found) => {
            let (user, token) = found;
            let response = AuthResponse {
                is_admin: has_role(&user.roles, ADMINS_ROLE),
                xsrf_token: token.xsrf_token.clone(),
            };
            Ok((token, response))
        },
        Err(e) => Err(e),
    }
}

/// Whether a session of `days` days lasts a number of seconds that a cookie
/// can state.
pub open spec fn duration_fits(days: i64) -> bool {
    i64::MIN <= days * 86400 <= i64::MAX
}

/// The cookie that carries a session: the encoded token under the session
/// cookie's name, for the gateway's cookie domain and every path, hidden
/// from scripts, sent over TLS only where the gateway has TLS, and kept as
/// long as a session lasts.
pub open spec fn session_cookie_for(encoded: Seq<char>, config: ConfigView) -> SetCookieView {
    SetCookieView {
        name: "ATRIUM_AUTH"@,
        value: encoded,
        domain: config.domain,
        path: "/"@,
        secure: config.tls_mode.secure(),
        http_only: true,
        max_age: (config.session_days() * 86400) as i64,
    }
}

/// Makes the cookie that carries a session. `encoded` is the token as text.
pub fn create_user_cookie(encoded: String, config: &Config) -> (r: SetCookie)
    requires
        duration_fits(config@.session_days()),
    ensures
        r@ == session_cookie_for(encoded@, config@),
{
    SetCookie {
        name: AUTH_COOKIE.to_owned(),
        value: encoded,
        domain: config.domain.clone(),
        path: "/".to_owned(),
        secure: config.tls_mode.is_secure(),
        http_only: true,
        max_age: config.session_days() * DAY,
    }
}

/// The user that a token stands for, as the user is shown: with the
/// password blanked out.
pub fn whoami(token: UserToken) -> (r: User)
    ensures
        r@ == (UserView {
            login: token@.login,
            password: "REDACTED"@,
            roles: token@.roles,
            info: token@.info,
        }),
{
    User {
        login: token.login,
        password: REDACTED.to_owned(),
        roles: token.roles,
        info: token.info,
    }
}

/// The users of a configuration, as an administrator sees them.
pub fn get_users(config: Config) -> (r: Vec<User>)
    ensures
        views(r@) == config@.users,
{
    config.users
}

/// The configuration without its first user of the login `login`; an error
/// where no user has that login.
pub open spec fn without_user(config: ConfigView, login: Seq<char>) -> Result<
    ConfigView,
    AdminError,
> {
    let at = user_position(config.users, login);
    if at < config.users.len() {
        Ok(ConfigView { users: config.users.remove(at), ..config })
    } else {
        Err(AdminError::UserNotFound)
    }
}

/// The configuration with `user` in place of its first user of the same
/// login, who keeps the old password where `user` brings none; or with
/// `user` behind its users where none has that login, which takes a
/// password.
pub open spec fn with_user(config: ConfigView, user: UserView) -> Result<ConfigView, AdminError> {
    let at = user_position(config.users, user.login);
    if at < config.users.len() {
        let password = if user.password.len() == 0 {
            config.users[at].password
        } else {
            user.password
        };
        Ok(ConfigView { users: config.users.update(at, UserView { password, ..user }), ..config })
    } else if user.password.len() == 0 {
        Err(AdminError::PasswordRequired)
    } else {
        Ok(ConfigView { users: config.users.push(user), ..config })
    }
}

/// Takes the user of the login `user_login` out of the configuration.
pub fn delete_user(config: Config, user_login: &str) -> (r: Result<Config, AdminError>)
    ensures
        match r {
            Ok(c) => without_user(config@, user_login@) == Ok::<ConfigView, AdminError>(c@),
            Err(e) => without_user(config@, user_login@) == Err::<ConfigView, AdminError>(e),
        },
{
    let mut config = config;
    let at = user_index(&config.users, user_login);
    if at < config.users.len() {
        let ghost before = config.users@;
        config.users.remove(at);
        assert(views(before.remove(at as int)) =~= views(before).remove(at as int));
        Ok(config)
    } else {
        Err(AdminError::UserNotFound)
    }
}

/// Puts `payload` into the configuration, in place of the user of the same
/// login where there is one.
pub fn add_user(config: Config, payload: User) -> (r: Result<Config, AdminError>)
    ensures
        match r {
            Ok(c) => with_user(config@, payload@) == Ok::<ConfigView, AdminError>(c@),
            Err(e) => with_user(config@, payload@) == Err::<ConfigView, AdminError>(e),
        },
{
    let mut config = config;
    let mut payload = payload;
    let at = user_index(&config.users, payload.login.as_str());
    let ghost before = config.users@;
    if at < config.users.len() {
        if payload.password.as_str().is_empty() {
            payload.password = config.users[at].password.clone();
        }
        config.users.set(at, payload);
        assert(views(before.update(at as int, payload)) =~= views(before).update(
            at as int,
            payload@,
        ));
        Ok(config)
    } else if payload.password.as_str().is_empty() {
        Err(AdminError::PasswordRequired)
    } else {
        config.users.push(payload);
        assert(views(before.push(payload)) =~= views(before).push(payload@));
        Ok(config)
    }
}

/// A response with the cookie it sets copied into its body, for clients
/// that cannot read headers: a response that says `200` gets the value of
/// its first `set-cookie` header as body, with the length of that value in
/// bytes as `content-length`, and is an internal error where it sets no
/// cookie; any other response loses its body.
pub open spec fn cookie_in_body(response: ResponseView) -> Result<ResponseView, u16> {
    if response.status == 200 {
        match lookup(response.headers, "set-cookie"@) {
            Some(cookie) => Ok(
                ResponseView {
                    status: response.status,
                    headers: without(response.headers, "content-length"@).push(
                        ("content-length"@, decimal(encode_utf8(cookie).len())),
                    ),
                    body: cookie,
                },
            ),
            None => Err(500u16),
        }
    } else {
        Ok(ResponseView { body: Seq::empty(), ..response })
    }
}

/// Copies the cookie that a response sets into its body.
pub fn cookie_to_body(response: Response) -> (r: Result<Response, u16>)
    ensures
        match r {
            Ok(out) => cookie_in_body(response@) == Ok::<ResponseView, u16>(out@),
            Err(status) => cookie_in_body(response@) == Err::<ResponseView, u16>(status),
        },
{
    let mut response = response;
    if response.status == OK {
        let cookie = match response.header(SET_COOKIE) {
            Some(value) => value.to_owned(),
            None => {
                return Err(INTERNAL_SERVER_ERROR);
            },
        };
        let length = u64_decimal(cookie.as_str().as_bytes().len() as u64);
        response.insert(CONTENT_LENGTH, length);
        response.body = cookie;
        Ok(response)
    } else {
        response.body = String::new();
        Ok(response)
    }
}

} // verus!

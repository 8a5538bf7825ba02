//! Configured services and their bindings to public and upstream endpoints.

use vstd::prelude::*;
use vstd::utf8::encode_utf8;
use crate::configuration::{AdminError, Config, ConfigView, HostType, HostTypeView};
use crate::cookies::{set_cookie_line, SetCookie, SetCookieView};
use crate::response::{
    Header, Response, ResponseView, AUTHORIZATION, FOUND, LOCATION, SET_COOKIE, UNAUTHORIZED,
};
use crate::text::{
    before, before_char, clone_strings, contains, decimal, has_infix, lemma_views_push,
    starts_with, u64_decimal, view_of, views,
};
use crate::trusted::{
    authority_of_uri, authority_valid, base64, base64_encode, cookie_line, header_safe,
    is_authority, is_header_value, port_of_uri, uri_authority, uri_port,
};
use crate::users::{check_authorization, verdict, UserToken, UserTokenView, UserTokenWithoutXSRFCheck};

verus! {

/// A configured backend service: a proxy target or a static directory.
#[derive(Debug, PartialEq, Eq)]
pub struct App {
    pub id: usize,
    pub name: String,
    pub icon: String,
    pub color: usize,
    pub is_proxy: bool,
    pub host: String,
    pub target: String,
    pub secured: bool,
    pub login: String,
    pub password: String,
    pub openpath: String,
    pub roles: Vec<String>,
    pub inject_security_headers: bool,
    pub subdomains: Option<Vec<String>>,
    pub forward_user_mail: bool,
}

/// What an [`App`] holds, as mathematical values.
pub ghost struct AppView {
    pub id: usize,
    pub name: Seq<char>,
    pub icon: Seq<char>,
    pub color: usize,
    pub is_proxy: bool,
    pub host: Seq<char>,
    pub target: Seq<char>,
    pub secured: bool,
    pub login: Seq<char>,
    pub password: Seq<char>,
    pub openpath: Seq<char>,
    pub roles: Seq<Seq<char>>,
    pub inject_security_headers: bool,
    pub subdomains: Option<Seq<Seq<char>>>,
    pub forward_user_mail: bool,
}

impl View for App {
    type V = AppView;

    open spec fn view(&self) -> AppView {
        AppView {
            id: self.id,
            name: self.name@,
            icon: self.icon@,
            color: self.color,
            is_proxy: self.is_proxy,
            host: self.host@,
            target: self.target@,
            secured: self.secured,
            login: self.login@,
            password: self.password@,
            openpath: self.openpath@,
            roles: views(self.roles@),
            inject_security_headers: self.inject_security_headers,
            subdomains: match self.subdomains {
                Some(v) => Some(views(v@)),
                None => None,
            },
            forward_user_mail: self.forward_user_mail,
        }
    }
}

impl Clone for App {
    fn clone(&self) -> (r: Self)
        ensures
            r@ == self@,
    {
        App {
            id: self.id,
            name: self.name.clone(),
            icon: self.icon.clone(),
            color: self.color,
            is_proxy: self.is_proxy,
            host: self.host.clone(),
            target: self.target.clone(),
            secured: self.secured,
            login: self.login.clone(),
            password: self.password.clone(),
            openpath: self.openpath.clone(),
            roles: clone_strings(&self.roles),
            inject_security_headers: self.inject_security_headers,
            subdomains: match &self.subdomains {
                Some(v) => Some(clone_strings(v)),
                None => None,
            },
            forward_user_mail: self.forward_user_mail,
        }
    }
}

impl Default for App {
    fn default() -> (r: Self)
        ensures
            r@ == App::empty(),
    {
        let roles: Vec<String> = Vec::new();
        assert(views(roles@) =~= Seq::empty());
        App {
            id: 0,
            name: String::new(),
            icon: String::new(),
            color: 0,
            is_proxy: false,
            host: String::new(),
            target: String::new(),
            secured: false,
            login: String::new(),
            password: String::new(),
            openpath: String::new(),
            roles,
            inject_security_headers: false,
            subdomains: None,
            forward_user_mail: false,
        }
    }
}

impl App {
    /// The app with every field empty, zero or off.
    pub open spec fn empty() -> AppView {
        AppView {
            id: 0,
            name: Seq::empty(),
            icon: Seq::empty(),
            color: 0,
            is_proxy: false,
            host: Seq::empty(),
            target: Seq::empty(),
            secured: false,
            login: Seq::empty(),
            password: Seq::empty(),
            openpath: Seq::empty(),
            roles: Seq::empty(),
            inject_security_headers: false,
            subdomains: None,
            forward_user_mail: false,
        }
    }
}

/// The scheme of an endpoint.
#[derive(Debug, Clone, Copy, PartialEq, Eq, Structural)]
pub enum Scheme {
    Http,
    Https,
}

impl Scheme {
    /// The scheme as it stands in a URI.
    pub open spec fn text(self) -> Seq<char> {
        match self {
            Scheme::Http => "http"@,
            Scheme::Https => "https"@,
        }
    }

    /// The scheme as it stands in a URI.
    pub fn as_str(&self) -> (r: &'static str)
        ensures
            r@ == self.text(),
    {
        match self {
            Scheme::Http => "http",
            Scheme::Https => "https",
        }
    }
}

/// Why an app cannot be bound to its endpoints.
#[derive(Debug, Clone, Copy, PartialEq, Eq, Structural)]
pub enum BindingError {
    /// The public authority worked out from host, domain and port is no
    /// authority.
    Authority,
    /// The target is no URI.
    Target,
    /// The target is a URI without an authority.
    TargetHost,
}

/// The authority under which an app is reached from outside: its host, with
/// the gateway's domain behind it unless the host holds that domain already,
/// and the port where one is given.
pub open spec fn public_authority(host: Seq<char>, domain: Seq<char>, port: Option<u16>) -> Seq<
    char,
> {
    let name = if has_infix(host, domain) {
        host
    } else {
        host + seq!['.'] + domain
    };
    match port {
        Some(p) => name + seq![':'] + decimal(p as nat),
        None => name,
    }
}

/// The scheme that the text of a target asks for: `https` where it begins
/// with `https://`, `http` otherwise.
pub open spec fn target_scheme(target: Seq<char>) -> Scheme {
    if "https://"@.is_prefix_of(target) {
        Scheme::Https
    } else {
        Scheme::Http
    }
}

/// What stands in the way of binding `app` under `domain` and `port`, if
/// anything does.
pub open spec fn binding_error(app: AppView, domain: Seq<char>, port: Option<u16>) -> Option<
    BindingError,
> {
    if !authority_valid(public_authority(app.host, domain, port)) {
        Some(BindingError::Authority)
    } else {
        match uri_authority(app.target) {
            None => Some(BindingError::Target),
            Some(None) => Some(BindingError::TargetHost),
            Some(Some(_)) => None,
        }
    }
}

/// The binding of `app` under `domain` and `port`, where nothing stands in
/// its way.
pub open spec fn binding_of(app: AppView, domain: Seq<char>, port: Option<u16>) -> AppWithUriView {
    AppWithUriView {
        inner: app,
        app_scheme: if port is Some {
            Scheme::Http
        } else {
            Scheme::Https
        },
        app_authority: public_authority(app.host, domain, port),
        forward_scheme: target_scheme(app.target),
        forward_authority: uri_authority(app.target)->0->0,
        forward_port: uri_port(app.target),
    }
}

/// An app with the scheme and authority of its public endpoint and of the
/// upstream it forwards to. It is made once and never changed.
#[derive(Debug, PartialEq, Eq)]
pub struct AppWithUri {
    inner: App,
    app_scheme: Scheme,
    app_authority: String,
    forward_scheme: Scheme,
    forward_authority: String,
    forward_port: Option<u16>,
}

/// What an [`AppWithUri`] holds, as mathematical values.
pub ghost struct AppWithUriView {
    pub inner: AppView,
    pub app_scheme: Scheme,
    pub app_authority: Seq<char>,
    pub forward_scheme: Scheme,
    pub forward_authority: Seq<char>,
    pub forward_port: Option<u16>,
}

impl AppWithUriView {
    /// The public authority is one, and the upstream's scheme, authority and
    /// port are those of the app's target.
    pub open spec fn wf(self) -> bool {
        &&& authority_valid(self.app_authority)
        &&& self.forward_scheme == target_scheme(self.inner.target)
        &&& uri_authority(self.inner.target) == Some(Some(self.forward_authority))
        &&& self.forward_port == uri_port(self.inner.target)
    }
}

impl View for AppWithUri {
    type V = AppWithUriView;

    closed spec fn view(&self) -> AppWithUriView {
        AppWithUriView {
            inner: self.inner@,
            app_scheme: self.app_scheme,
            app_authority: self.app_authority@,
            forward_scheme: self.forward_scheme,
            forward_authority: self.forward_authority@,
            forward_port: self.forward_port,
        }
    }
}

fn public_authority_text(host: &str, domain: &str, port: Option<u16>) -> (r: String)
    ensures
        r@ == public_authority(host@, domain@, port),
{
    let mut name = host.to_owned();
    if !contains(host, domain) {
        name.append(".");
        name.append(domain);
    }
    proof {
        reveal_strlit(".");
        reveal_strlit(":");
        assert("."@ =~= seq!['.']);
        assert(":"@ =~= seq![':']);
    }
    match port {
        Some(p) => {
            let digits = u64_decimal(p as u64);
            name.append(":");
            name.append(digits.as_str());
            name
        },
        None => name,
    }
}

impl AppWithUri {
    #[verifier::type_invariant]
    spec fn well_formed(self) -> bool {
        self@.wf()
    }

    /// Binds `inner` to its public endpoint under `domain`, on `port` where the
    /// gateway serves plain HTTP, and to the upstream that its target names.
    pub fn from_app_domain_and_http_port(inner: App, domain: &str, port: Option<u16>) -> (r: Self)
        requires
            binding_error(inner@, domain@, port) is None,
        ensures
            r@ == binding_of(inner@, domain@, port),
    {
        let app_scheme = if port.is_some() {
            Scheme::Http
        } else {
            Scheme::Https
        };
        let app_authority = public_authority_text(inner.host.as_str(), domain, port);
        let forward_scheme = if starts_with(inner.target.as_str(), "https://") {
            Scheme::Https
        } else {
            Scheme::Http
        };
        let forward_port = port_of_uri(inner.target.as_str());
        match authority_of_uri(inner.target.as_str()) {
            Some(Some(forward_authority)) => AppWithUri {
                inner,
                app_scheme,
                app_authority,
                forward_scheme,
                forward_authority,
                forward_port,
            },
            _ => unreached(),
        }
    }

    /// What stands in the way of binding `app` under `domain` and `port`, if
    /// anything does.
    pub fn check(app: &App, domain: &str, port: Option<u16>) -> (r: Option<BindingError>)
        ensures
            r == binding_error(app@, domain@, port),
    {
        let app_authority = public_authority_text(app.host.as_str(), domain, port);
        if !is_authority(app_authority.as_str()) {
            return Some(BindingError::Authority);
        }
        match authority_of_uri(app.target.as_str()) {
            None => Some(BindingError::Target),
            Some(None) => Some(BindingError::TargetHost),
            Some(Some(_)) => None,
        }
    }

    /// Binds `inner` as [`Self::from_app_domain_and_http_port`] does, or says
    /// what stands in the way.
    pub fn try_from_app_domain_and_http_port(inner: App, domain: &str, port: Option<u16>) -> (r:
        Result<Self, BindingError>)
        ensures
            match r {
                Ok(b) => binding_error(inner@, domain@, port) is None && b@ == binding_of(
                    inner@,
                    domain@,
                    port,
                ),
                Err(e) => binding_error(inner@, domain@, port) == Some(e),
            },
    {
        match Self::check(&inner, domain, port) {
            Some(e) => Err(e),
            None => Ok(Self::from_app_domain_and_http_port(inner, domain, port)),
        }
    }

    /// The app that is bound. Every binding is well formed.
    pub fn inner(&self) -> (r: &App)
        ensures
            r@ == self@.inner,
            self@.wf(),
    {
        proof {
            use_type_invariant(self);
        }
        &self.inner
    }

    /// Scheme of the public endpoint.
    pub fn app_scheme(&self) -> (r: Scheme)
        ensures
            r == self@.app_scheme,
    {
        self.app_scheme
    }

    /// Authority of the public endpoint.
    pub fn app_authority(&self) -> (r: &str)
        ensures
            r@ == self@.app_authority,
    {
        self.app_authority.as_str()
    }

    /// Scheme of the upstream.
    pub fn forward_scheme(&self) -> (r: Scheme)
        ensures
            r == self@.forward_scheme,
    {
        self.forward_scheme
    }

    /// Authority of the upstream.
    pub fn forward_authority(&self) -> (r: &str)
        ensures
            r@ == self@.forward_authority,
    {
        self.forward_authority.as_str()
    }

    /// The port that the upstream's authority names, if it names one.
    pub fn forward_port(&self) -> (r: Option<u16>)
        ensures
            r == self@.forward_port,
    {
        self.forward_port
    }
}

impl Clone for AppWithUri {
    fn clone(&self) -> (r: Self)
        ensures
            r@ == self@,
    {
        proof {
            use_type_invariant(self);
        }
        AppWithUri {
            inner: self.inner.clone(),
            app_scheme: self.app_scheme,
            app_authority: self.app_authority.clone(),
            forward_scheme: self.forward_scheme,
            forward_authority: self.forward_authority.clone(),
            forward_port: self.forward_port,
        }
    }
}

/// Header that tells an upstream which user stands behind a request.
pub const AUTHENTICATED_USER_MAIL_HEADER: &'static str = "remote-user";

/// Header that tells an upstream under which authority it was asked for.
pub const FORWARDED_HOST: &'static str = "x-forwarded-host";

/// Header that tells an upstream under which scheme it was asked for.
pub const FORWARDED_PROTO: &'static str = "x-forwarded-proto";

/// Name of the cookie that leads a user back to where the login interrupted.
pub const REDIRECT_COOKIE: &'static str = "ATRIUM_REDIRECT";

/// A request as it is sent on to an upstream.
#[derive(Debug, PartialEq, Eq)]
pub struct UpstreamRequest {
    /// Where the request goes: scheme and authority of the upstream, path and
    /// query of the inbound request.
    pub uri: String,
    /// Headers to set on the request, each in place of whatever the inbound
    /// request held under that name.
    pub headers: Vec<Header>,
}

/// What an [`UpstreamRequest`] holds, as mathematical values.
pub ghost struct UpstreamRequestView {
    pub uri: Seq<char>,
    pub headers: Seq<(Seq<char>, Seq<char>)>,
}

impl View for UpstreamRequest {
    type V = UpstreamRequestView;

    open spec fn view(&self) -> UpstreamRequestView {
        UpstreamRequestView { uri: self.uri@, headers: views(self.headers@) }
    }
}

/// What the proxy pipeline does with a request.
#[derive(Debug, PartialEq, Eq)]
pub enum ProxyAction {
    /// Answer at once, without reaching the upstream.
    Respond(Response),
    /// Send the request on.
    Forward(UpstreamRequest),
}

/// What a [`ProxyAction`] holds, as mathematical values.
pub ghost enum ProxyActionView {
    Respond(ResponseView),
    Forward(UpstreamRequestView),
}

impl View for ProxyAction {
    type V = ProxyActionView;

    open spec fn view(&self) -> ProxyActionView {
        match self {
            ProxyAction::Respond(r) => ProxyActionView::Respond(r@),
            ProxyAction::Forward(u) => ProxyActionView::Forward(u@),
        }
    }
}

/// The cookie that remembers, for a minute, where a user was headed when the
/// login page stepped in: scheme of the gateway and host of the request.
pub open spec fn redirect_cookie(config: ConfigView, hostname: Seq<char>) -> SetCookieView {
    SetCookieView {
        name: "ATRIUM_REDIRECT"@,
        value: config.scheme() + "://"@ + hostname,
        domain: config.domain,
        path: "/"@,
        secure: false,
        http_only: false,
        max_age: 60,
    }
}

/// A refusal as the proxy pipeline sends it: a challenge becomes a redirect
/// to the management host that sets the [`redirect_cookie`], as long as the
/// address of the management host can stand in a header; any other refusal
/// is sent as it is.
pub open spec fn refusal(resp: ResponseView, config: ConfigView, hostname: Seq<char>) -> ResponseView {
    if resp.status == 401 && header_safe(config.full_domain()) {
        ResponseView {
            status: 302,
            headers: resp.headers.push(("location"@, config.full_domain())).push(
                ("set-cookie"@, set_cookie_line(redirect_cookie(config, hostname))),
            ),
            body: resp.body,
        }
    } else {
        resp
    }
}

/// The text that HTTP Basic credentials encode.
pub open spec fn basic_text(login: Seq<char>, password: Seq<char>) -> Seq<char> {
    login + seq![':'] + password
}

/// Whether the app has credentials to present to its upstream.
pub open spec fn has_credentials(app: AppView) -> bool {
    app.login.len() > 0 && app.password.len() > 0
}

/// The address of the user behind a token, where the token holds personal
/// details.
pub open spec fn mail_of(user: Option<UserTokenView>) -> Option<Seq<char>> {
    match user {
        Some(u) => match u.info {
            Some(i) => Some(i.email),
            None => None,
        },
        None => None,
    }
}

/// The headers that are set on a request before it goes upstream: the public
/// authority and scheme where the upstream's authority names a port; the
/// app's credentials where it has both a login and a password; the user's
/// address where the app asks for it and the user has one.
pub open spec fn forward_headers(b: AppWithUriView, user: Option<UserTokenView>) -> Seq<
    (Seq<char>, Seq<char>),
> {
    let forwarded = if b.forward_port is Some {
        seq![("x-forwarded-host"@, b.app_authority), ("x-forwarded-proto"@, b.app_scheme.text())]
    } else {
        Seq::empty()
    };
    let credentials = if has_credentials(b.inner) {
        seq![
            (
                "authorization"@,
                "Basic "@ + base64(encode_utf8(basic_text(b.inner.login, b.inner.password))),
            ),
        ]
    } else {
        Seq::empty()
    };
    let mail = if b.inner.forward_user_mail && mail_of(user) is Some {
        seq![("remote-user"@, mail_of(user)->0)]
    } else {
        Seq::empty()
    };
    forwarded + credentials + mail
}

/// Where a request goes upstream: scheme and authority of the upstream, path
/// and query as they came.
pub open spec fn upstream_uri(b: AppWithUriView, path: Seq<char>, query: Option<Seq<char>>) -> Seq<
    char,
> {
    b.forward_scheme.text() + "://"@ + b.forward_authority + path + match query {
        Some(q) => seq!['?'] + q,
        None => Seq::empty(),
    }
}

/// What the proxy pipeline does with a request for the proxied `app` that
/// came under `hostname` (the `Host` header, port included) for `path` and
/// `query`, presenting `user`.
pub open spec fn proxy_outcome(
    user: Option<UserTokenView>,
    app: HostTypeView,
    hostname: Seq<char>,
    config: ConfigView,
    path: Seq<char>,
    query: Option<Seq<char>>,
) -> ProxyActionView {
    match verdict(app, user, before(hostname, ':'), path) {
        Some(resp) => ProxyActionView::Respond(refusal(resp, config, hostname)),
        None => ProxyActionView::Forward(
            UpstreamRequestView {
                uri: upstream_uri(app->ReverseApp_0, path, query),
                headers: forward_headers(app->ReverseApp_0, user),
            },
        ),
    }
}

/// Whether the credentials of `app` are short enough to be encoded.
pub open spec fn credentials_fit(app: AppView) -> bool {
    has_credentials(app) ==> encode_utf8(basic_text(app.login, app.password)).len() <= usize::MAX
        / 4
}

fn refuse(mut value: Response, config: &Config, hostname: &str) -> (r: Response)
    ensures
        r@ == refusal(value@, config@, hostname@),
{
    if value.status == UNAUTHORIZED {
        let target = config.full_domain();
        if is_header_value(target.as_str()) {
            let mut back = config.scheme().to_owned();
            back.append("://");
            back.append(hostname);
            let cookie = SetCookie {
                name: REDIRECT_COOKIE.to_owned(),
                value: back,
                domain: config.domain.clone(),
                path: "/".to_owned(),
                secure: false,
                http_only: false,
                max_age: 60,
            };
            value.status = FOUND;
            value.append(LOCATION, target);
            value.append(SET_COOKIE, cookie_line(&cookie));
        }
    }
    value
}

fn headers_for(b: &AppWithUri, user: &Option<&UserToken>) -> (r: Vec<Header>)
    requires
        credentials_fit(b@.inner),
    ensures
        views(r@) == forward_headers(b@, view_of(*user)),
{
    let mut r: Vec<Header> = Vec::new();
    assert(views(r@) =~= Seq::empty());
    if b.forward_port().is_some() {
        let host = Header::new(FORWARDED_HOST, b.app_authority().to_owned());
        let proto = Header::new(FORWARDED_PROTO, b.app_scheme().as_str().to_owned());
        proof {
            lemma_views_push(r@, host);
            lemma_views_push(r@.push(host), proto);
        }
        r.push(host);
        r.push(proto);
    }
    let ghost forwarded = views(r@);
    let inner = b.inner();
    let ghost credentials = Seq::<(Seq<char>, Seq<char>)>::empty();
    if !inner.login.as_str().is_empty() && !inner.password.as_str().is_empty() {
        let mut text = inner.login.clone();
        text.append(":");
        text.append(inner.password.as_str());
        proof {
            reveal_strlit(":");
            assert(":"@ =~= seq![':']);
            assert(text@ == basic_text(inner@.login, inner@.password));
        }
        let mut value = "Basic ".to_owned();
        let encoded = base64_encode(text.as_str().as_bytes());
        value.append(encoded.as_str());
        let h = Header::new(AUTHORIZATION, value);
        proof {
            lemma_views_push(r@, h);
            credentials = seq![h@];
        }
        r.push(h);
    }
    let ghost so_far = views(r@);
    assert(so_far =~= forwarded + credentials);
    let ghost mail = Seq::<(Seq<char>, Seq<char>)>::empty();
    if inner.forward_user_mail {
        if let Some(u) = user {
            if let Some(info) = &u.info {
                let h = Header::new(AUTHENTICATED_USER_MAIL_HEADER, info.email.clone());
                proof {
                    lemma_views_push(r@, h);
                    mail = seq![h@];
                }
                r.push(h);
            }
        }
    }
    assert(views(r@) =~= forwarded + credentials + mail);
    r
}

fn uri_for(b: &AppWithUri, path: &str, query: Option<&str>) -> (r: String)
    ensures
        r@ == upstream_uri(b@, path@, view_of(query)),
{
    let mut r = b.forward_scheme().as_str().to_owned();
    r.append("://");
    r.append(b.forward_authority());
    r.append(path);
    match query {
        Some(q) => {
            proof {
                reveal_strlit("?");
                assert("?"@ =~= seq!['?']);
            }
            let ghost front = r@;
            r.append("?");
            r.append(q);
            assert(r@ =~= front + (seq!['?'] + q@));
        },
        None => {
            assert(r@ + Seq::<char>::empty() =~= r@);
        },
    }
    r
}

/// Decides what becomes of a request for a proxied app: a refusal, a
/// redirect to the login page, or the request as it is to be sent upstream.
/// `hostname` is the `Host` header as it came, `path` and `query` are those
/// of the request's URI.
pub fn proxy_handler(
    user: Option<&UserTokenWithoutXSRFCheck>,
    app: &HostType,
    hostname: &str,
    config: &Config,
    path: &str,
    query: Option<&str>,
) -> (r: ProxyAction)
    requires
        app@ is ReverseApp,
        credentials_fit(app@.app()),
    ensures
        r@ == proxy_outcome(view_of(user), app@, hostname@, config@, path@, view_of(query)),
{
    let domain = before_char(hostname, ':');
    let token: Option<&UserToken> = match user {
        Some(u) => Some(&u.0),
        None => None,
    };
    match check_authorization(app, &token, domain.as_str(), path) {
        Some(value) => ProxyAction::Respond(refuse(value, config, hostname)),
        None => {
            match app {
                HostType::ReverseApp(b) => ProxyAction::Forward(
                    UpstreamRequest {
                        uri: uri_for(b, path, query),
                        headers: headers_for(b, &token),
                    },
                ),
                HostType::StaticApp(_) => unreached(),
            }
        },
    }
}

/// What an administrator is told when an app was deleted.
pub const APP_DELETED: &'static str = "app deleted successfully";

/// What an administrator is told when an app was added or changed.
pub const APP_SAVED: &'static str = "app created or updated successfully";

/// The first position in `apps` of an app with the id `id`, or the length of
/// `apps` where there is none.
pub open spec fn app_position(apps: Seq<AppView>, id: usize) -> int
    decreases apps.len(),
{
    if apps.len() == 0 || apps[0].id == id {
        0
    } else {
        1 + app_position(apps.drop_first(), id)
    }
}

/// `app_position` is the one index with no app of that id in front of it
/// that holds such an app or ends the list.
pub proof fn lemma_app_position(apps: Seq<AppView>, id: usize, i: int)
    requires
        0 <= i <= apps.len(),
        forall|k: int| 0 <= k < i ==> apps[k].id != id,
        i < apps.len() ==> apps[i].id == id,
    ensures
        app_position(apps, id) == i,
    decreases apps.len(),
{
    if apps.len() == 0 || apps[0].id == id {
    } else {
        let t = apps.drop_first();
        assert forall|k: int| 0 <= k < i - 1 implies t[k].id != id by {
            assert(t[k] == apps[k + 1]);
        }
        lemma_app_position(t, id, i - 1);
    }
}

fn find_app(apps: &Vec<App>, id: usize) -> (r: usize)
    ensures
        r == app_position(views(apps@), id),
        r <= apps.len(),
{
    let mut i: usize = 0;
    while i < apps.len() && apps[i].id != id
        invariant
            i <= apps.len(),
            forall|k: int| 0 <= k < i ==> views(apps@)[k].id != id,
        decreases apps.len() - i,
    {
        i += 1;
    }
    proof {
        lemma_app_position(views(apps@), id, i as int);
    }
    i
}

/// The apps of a configuration, as an administrator sees them.
pub fn get_apps(config: Config) -> (r: Vec<App>)
    ensures
        views(r@) == config@.apps,
{
    config.apps
}

/// The configuration without its first app of the id `app_id`; an error
/// where no app has that id.
pub open spec fn without_app(config: ConfigView, app_id: usize) -> Result<ConfigView, AdminError> {
    let at = app_position(config.apps, app_id);
    if at < config.apps.len() {
        Ok(ConfigView { apps: config.apps.remove(at), ..config })
    } else {
        Err(AdminError::AppNotFound)
    }
}

/// The configuration with `app` in place of its first app of the same id,
/// or behind its apps where none has that id.
pub open spec fn with_app(config: ConfigView, app: AppView) -> ConfigView {
    let at = app_position(config.apps, app.id);
    if at < config.apps.len() {
        ConfigView { apps: config.apps.update(at, app), ..config }
    } else {
        ConfigView { apps: config.apps.push(app), ..config }
    }
}

/// Takes the app of the id `app_id` out of the configuration.
pub fn delete_app(config: Config, app_id: usize) -> (r: Result<Config, AdminError>)
    ensures
        match r {
            Ok(c) => without_app(config@, app_id) == Ok::<ConfigView, AdminError>(c@),
            Err(e) => without_app(config@, app_id) == Err::<ConfigView, AdminError>(e),
        },
{
    let mut config = config;
    let at = find_app(&config.apps, app_id);
    if at < config.apps.len() {
        let ghost before = config.apps@;
        config.apps.remove(at);
        assert(views(before.remove(at as int)) =~= views(before).remove(at as int));
        Ok(config)
    } else {
        Err(AdminError::AppNotFound)
    }
}

/// Puts `payload` into the configuration, in place of the app of the same id
/// where there is one.
pub fn add_app(config: Config, payload: App) -> (r: Config)
    ensures
        r@ == with_app(config@, payload@),
{
    let mut config = config;
    let at = find_app(&config.apps, payload.id);
    let ghost before = config.apps@;
    if at < config.apps.len() {
        config.apps.set(at, payload);
        assert(views(before.update(at as int, payload)) =~= views(before).update(
            at as int,
            payload@,
        ));
    } else {
        config.apps.push(payload);
        assert(views(before.push(payload)) =~= views(before).push(payload@));
    }
    config
}

} // verus!

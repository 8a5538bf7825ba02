//! The gateway's configuration and what follows from it: the hostnames it
//! answers for and the service behind each.

use vstd::hash_map::StringHashMap;
use vstd::prelude::*;
use crate::apps::{binding_error, binding_of, App, AppView, AppWithUri, AppWithUriView, BindingError};
use crate::text::{
    before, before_char, contains, has_infix, lemma_views_push, lowercase, same, to_lowercase,
    view_of, views,
};
use crate::response::{BAD_REQUEST, INTERNAL_SERVER_ERROR, NOT_ACCEPTABLE};
use crate::users::{User, UserView};

verus! {

/// The hostname of a gateway whose configuration names none.
pub fn hostname() -> (r: String)
    ensures
        r@ == "atrium.io"@,
{
    "atrium.io".to_owned()
}

/// Settings of the document server integration.
#[derive(Debug, PartialEq, Eq)]
pub struct OnlyOfficeConfig {
    pub title: Option<String>,
    pub server: String,
    pub jwt_secret: String,
}

impl View for OnlyOfficeConfig {
    type V = (Option<Seq<char>>, Seq<char>, Seq<char>);

    /// Title, server and secret.
    open spec fn view(&self) -> (Option<Seq<char>>, Seq<char>, Seq<char>) {
        (view_of(self.title), self.server@, self.jwt_secret@)
    }
}

impl Clone for OnlyOfficeConfig {
    fn clone(&self) -> (r: Self)
        ensures
            r@ == self@,
    {
        OnlyOfficeConfig {
            title: match &self.title {
                Some(t) => Some(t.clone()),
                None => None,
            },
            server: self.server.clone(),
            jwt_secret: self.jwt_secret.clone(),
        }
    }
}

impl Default for OnlyOfficeConfig {
    fn default() -> (r: Self)
        ensures
            r@ == (None::<Seq<char>>, Seq::<char>::empty(), Seq::<char>::empty()),
    {
        OnlyOfficeConfig { title: None, server: String::new(), jwt_secret: String::new() }
    }
}

/// Settings of the OpenID Connect integration.
#[derive(Debug, PartialEq, Eq)]
pub struct OpenIdConfig {
    pub client_id: String,
    pub client_secret: String,
    pub auth_url: String,
    pub token_url: String,
    pub userinfo_url: String,
    pub admins_group: Option<String>,
}

/// What an [`OpenIdConfig`] holds, as mathematical values.
pub ghost struct OpenIdConfigView {
    pub client_id: Seq<char>,
    pub client_secret: Seq<char>,
    pub auth_url: Seq<char>,
    pub token_url: Seq<char>,
    pub userinfo_url: Seq<char>,
    pub admins_group: Option<Seq<char>>,
}

impl View for OpenIdConfig {
    type V = OpenIdConfigView;

    open spec fn view(&self) -> OpenIdConfigView {
        OpenIdConfigView {
            client_id: self.client_id@,
            client_secret: self.client_secret@,
            auth_url: self.auth_url@,
            token_url: self.token_url@,
            userinfo_url: self.userinfo_url@,
            admins_group: view_of(self.admins_group),
        }
    }
}

impl Clone for OpenIdConfig {
    fn clone(&self) -> (r: Self)
        ensures
            r@ == self@,
    {
        OpenIdConfig {
            client_id: self.client_id.clone(),
            client_secret: self.client_secret.clone(),
            auth_url: self.auth_url.clone(),
            token_url: self.token_url.clone(),
            userinfo_url: self.userinfo_url.clone(),
            admins_group: match &self.admins_group {
                Some(g) => Some(g.clone()),
                None => None,
            },
        }
    }
}

impl Default for OpenIdConfig {
    fn default() -> (r: Self)
        ensures
            r@ == (OpenIdConfigView {
                client_id: Seq::empty(),
                client_secret: Seq::empty(),
                auth_url: Seq::empty(),
                token_url: Seq::empty(),
                userinfo_url: Seq::empty(),
                admins_group: None,
            }),
    {
        OpenIdConfig {
            client_id: String::new(),
            client_secret: String::new(),
            auth_url: String::new(),
            token_url: String::new(),
            userinfo_url: String::new(),
            admins_group: None,
        }
    }
}

/// How the gateway's public endpoint is protected by TLS.
#[derive(Debug, Clone, Copy, PartialEq, Eq, Structural)]
pub enum TlsMode {
    No,
    BehindProxy,
    Auto,
}

impl TlsMode {
    /// Whether clients reach the gateway over HTTPS.
    pub open spec fn secure(&self) -> bool {
        *self != TlsMode::No
    }

    /// Whether clients reach the gateway over HTTPS.
    #[verifier::when_used_as_spec(secure)]
    pub fn is_secure(&self) -> (r: bool)
        ensures
            r == self.secure(),
    {
        match self {
            TlsMode::No => false,
            TlsMode::BehindProxy => true,
            TlsMode::Auto => true,
        }
    }
}

impl Default for TlsMode {
    fn default() -> (r: Self)
        ensures
            r == TlsMode::No,
    {
        TlsMode::No
    }
}

/// The port on which a gateway without TLS listens and is reached.
pub const PLAIN_PORT: u16 = 8080;

/// The gateway's configuration.
#[derive(Debug, PartialEq, Eq)]
pub struct Config {
    pub hostname: String,
    pub domain: String,
    pub tls_mode: TlsMode,
    pub letsencrypt_email: String,
    pub cookie_key: Option<String>,
    pub log_to_file: bool,
    pub session_duration_days: Option<i64>,
    pub apps: Vec<App>,
    pub users: Vec<User>,
}

/// What a [`Config`] holds, as mathematical values.
pub ghost struct ConfigView {
    pub hostname: Seq<char>,
    pub domain: Seq<char>,
    pub tls_mode: TlsMode,
    pub letsencrypt_email: Seq<char>,
    pub cookie_key: Option<Seq<char>>,
    pub log_to_file: bool,
    pub session_duration_days: Option<i64>,
    pub apps: Seq<AppView>,
    pub users: Seq<UserView>,
}

impl View for Config {
    type V = ConfigView;

    open spec fn view(&self) -> ConfigView {
        ConfigView {
            hostname: self.hostname@,
            domain: self.domain@,
            tls_mode: self.tls_mode,
            letsencrypt_email: self.letsencrypt_email@,
            cookie_key: view_of(self.cookie_key),
            log_to_file: self.log_to_file,
            session_duration_days: self.session_duration_days,
            apps: views(self.apps@),
            users: views(self.users@),
        }
    }
}

/// A copy of a list of apps.
pub fn clone_apps(v: &Vec<App>) -> (r: Vec<App>)
    ensures
        views(r@) == views(v@),
{
    let mut r: Vec<App> = Vec::new();
    let mut i: usize = 0;
    while i < v.len()
        invariant
            i <= v.len(),
            views(r@) == views(v@.take(i as int)),
        decreases v.len() - i,
    {
        let a = v[i].clone();
        proof {
            lemma_views_push(r@, a);
            lemma_views_push(v@.take(i as int), v@[i as int]);
            assert(v@.take(i as int + 1) == v@.take(i as int).push(v@[i as int]));
        }
        r.push(a);
        i += 1;
    }
    assert(v@.take(v.len() as int) == v@);
    r
}

/// A copy of a list of users.
pub fn clone_users(v: &Vec<User>) -> (r: Vec<User>)
    ensures
        views(r@) == views(v@),
{
    let mut r: Vec<User> = Vec::new();
    let mut i: usize = 0;
    while i < v.len()
        invariant
            i <= v.len(),
            views(r@) == views(v@.take(i as int)),
        decreases v.len() - i,
    {
        let u = v[i].clone();
        proof {
            lemma_views_push(r@, u);
            lemma_views_push(v@.take(i as int), v@[i as int]);
            assert(v@.take(i as int + 1) == v@.take(i as int).push(v@[i as int]));
        }
        r.push(u);
        i += 1;
    }
    assert(v@.take(v.len() as int) == v@);
    r
}

impl Clone for Config {
    fn clone(&self) -> (r: Self)
        ensures
            r@ == self@,
    {
        Config {
            hostname: self.hostname.clone(),
            domain: self.domain.clone(),
            tls_mode: self.tls_mode,
            letsencrypt_email: self.letsencrypt_email.clone(),
            cookie_key: match &self.cookie_key {
                Some(k) => Some(k.clone()),
                None => None,
            },
            log_to_file: self.log_to_file,
            session_duration_days: self.session_duration_days,
            apps: clone_apps(&self.apps),
            users: clone_users(&self.users),
        }
    }
}

impl Default for Config {
    /// The configuration of a gateway named `atrium.io`, without TLS, apps or
    /// users.
    fn default() -> (r: Self)
        ensures
            r@ == (ConfigView {
                hostname: "atrium.io"@,
                domain: Seq::empty(),
                tls_mode: TlsMode::No,
                letsencrypt_email: Seq::empty(),
                cookie_key: None,
                log_to_file: false,
                session_duration_days: None,
                apps: Seq::empty(),
                users: Seq::empty(),
            }),
    {
        let apps: Vec<App> = Vec::new();
        let users: Vec<User> = Vec::new();
        assert(views(apps@) =~= Seq::empty());
        assert(views(users@) =~= Seq::empty());
        Config {
            hostname: hostname(),
            domain: String::new(),
            tls_mode: TlsMode::No,
            letsencrypt_email: String::new(),
            cookie_key: None,
            log_to_file: false,
            session_duration_days: None,
            apps,
            users,
        }
    }
}

impl ConfigView {
    /// The scheme under which clients reach the gateway.
    pub open spec fn scheme(self) -> Seq<char> {
        if self.tls_mode.secure() {
            "https"@
        } else {
            "http"@
        }
    }

    /// The address of the management host: scheme, cookie domain, and the
    /// plain port where the gateway has no TLS at all.
    pub open spec fn full_domain(self) -> Seq<char> {
        self.scheme() + "://"@ + self.domain + if self.tls_mode == TlsMode::No {
            ":8080"@
        } else {
            Seq::empty()
        }
    }

    /// The number of days that a session lasts: one where none is configured.
    pub open spec fn session_days(self) -> i64 {
        match self.session_duration_days {
            Some(d) => d,
            None => 1,
        }
    }
}

impl Config {
    /// The scheme under which clients reach the gateway.
    pub fn scheme(&self) -> (r: &'static str)
        ensures
            r@ == self@.scheme(),
    {
        if self.tls_mode.is_secure() {
            "https"
        } else {
            "http"
        }
    }

    /// The address of the management host.
    pub fn full_domain(&self) -> (r: String)
        ensures
            r@ == self@.full_domain(),
    {
        let mut r = self.scheme().to_owned();
        r.append("://");
        r.append(self.domain.as_str());
        match self.tls_mode {
            TlsMode::No => {
                r.append(":8080");
            },
            _ => {
                assert(r@ + Seq::<char>::empty() == r@);
            },
        }
        r
    }

    /// The number of days that a session lasts.
    pub fn session_days(&self) -> (r: i64)
        ensures
            r == self@.session_days(),
    {
        match self.session_duration_days {
            Some(d) => d,
            None => 1,
        }
    }
}

/// The first label of a host: what stands in front of its first dot.
pub fn trim_host(host: &str) -> (r: String)
    ensures
        r@ == before(host@, '.'),
{
    before_char(host, '.')
}

/// Something that is served under a host.
pub trait Service {
    /// The host under which it is served.
    spec fn host_spec(&self) -> Seq<char>;

    /// The host under which it is served.
    fn host(&self) -> (r: &str)
        ensures
            r@ == self.host_spec(),
    ;
}

impl Service for App {
    open spec fn host_spec(&self) -> Seq<char> {
        self.host@
    }

    fn host(&self) -> (r: &str) {
        self.host.as_str()
    }
}

/// Whether a gateway named `hostname`, with cookie domain `domain`, serves
/// what stands under `host`. Where the two names agree the gateway serves
/// the hosts that do not hold its name; where they differ, those that do.
pub open spec fn serves(host: Seq<char>, hostname: Seq<char>, domain: Seq<char>) -> bool {
    if hostname == domain {
        !has_infix(host, hostname)
    } else {
        has_infix(host, hostname)
    }
}

/// What the references of a list point to.
pub open spec fn targets<T>(refs: Seq<&T>) -> Seq<T> {
    refs.map_values(|r: &T| *r)
}

/// The services that a gateway named `hostname`, with cookie domain
/// `domain`, serves: those that [`serves`] admits, in their order.
pub fn filter_services<'a, T: Service>(services: &'a [T], hostname: &str, domain: &str) -> (r: Vec<
    &'a T,
>)
    ensures
        targets(r@) == services@.filter(|s: T| serves(s.host_spec(), hostname@, domain@)),
{
    let same_name = same(hostname, domain);
    let ghost pred = |s: T| serves(s.host_spec(), hostname@, domain@);
    let mut r: Vec<&'a T> = Vec::new();
    let mut i: usize = 0;
    assert(services@.take(0).filter(pred) =~= Seq::empty()) by {
        reveal(Seq::filter);
    }
    assert(targets(r@) =~= Seq::empty());
    while i < services.len()
        invariant
            i <= services.len(),
            same_name == (hostname@ == domain@),
            pred == |s: T| serves(s.host_spec(), hostname@, domain@),
            targets(r@) == services@.take(i as int).filter(pred),
        decreases services.len() - i,
    {
        let s = &services[i];
        let holds = contains(s.host(), hostname);
        let keep = if same_name {
            !holds
        } else {
            holds
        };
        proof {
            assert(keep == pred(*s));
            services@.take(i as int).lemma_filter_push(*s, pred);
            assert(services@.take(i as int + 1) == services@.take(i as int).push(*s));
        }
        if keep {
            assert(targets(r@.push(s)) =~= targets(r@).push(*s));
            r.push(s);
        }
        i += 1;
    }
    assert(services@.take(services.len() as int) == services@);
    r
}

/// What a hostname is bound to: a directory served as it is, or an upstream
/// that requests are forwarded to.
#[derive(Debug, PartialEq, Eq)]
pub enum HostType {
    StaticApp(App),
    ReverseApp(Box<AppWithUri>),
}

/// What a [`HostType`] holds, as mathematical values.
pub ghost enum HostTypeView {
    StaticApp(AppView),
    ReverseApp(AppWithUriView),
}

impl HostTypeView {
    /// The app behind the binding.
    pub open spec fn app(self) -> AppView {
        match self {
            HostTypeView::StaticApp(a) => a,
            HostTypeView::ReverseApp(b) => b.inner,
        }
    }
}

impl View for HostType {
    type V = HostTypeView;

    open spec fn view(&self) -> HostTypeView {
        match self {
            HostType::StaticApp(a) => HostTypeView::StaticApp(a@),
            HostType::ReverseApp(b) => HostTypeView::ReverseApp(b@),
        }
    }
}

impl Clone for HostType {
    fn clone(&self) -> (r: Self)
        ensures
            r@ == self@,
    {
        match self {
            HostType::StaticApp(a) => HostType::StaticApp(a.clone()),
            HostType::ReverseApp(b) => {
                let c: AppWithUri = (**b).clone();
                HostType::ReverseApp(Box::new(c))
            },
        }
    }
}

impl HostType {
    /// The host of the app behind the binding.
    pub fn host(&self) -> (r: &str)
        ensures
            r@ == self@.app().host,
    {
        match self {
            HostType::ReverseApp(app) => app.inner().host.as_str(),
            HostType::StaticApp(app) => app.host.as_str(),
        }
    }

    /// The roles that may use the app behind the binding.
    pub fn roles(&self) -> (r: &Vec<String>)
        ensures
            views(r@) == self@.app().roles,
    {
        match self {
            HostType::ReverseApp(app) => &app.inner().roles,
            HostType::StaticApp(app) => &app.roles,
        }
    }

    /// Whether the app behind the binding asks for an authenticated user.
    pub fn secured(&self) -> (r: bool)
        ensures
            r == self@.app().secured,
    {
        match self {
            HostType::ReverseApp(app) => app.inner().secured,
            HostType::StaticApp(app) => app.secured,
        }
    }

    /// Whether responses of the app behind the binding get the hardening
    /// headers.
    pub fn inject_security_headers(&self) -> (r: bool)
        ensures
            r == self@.app().inject_security_headers,
    {
        match self {
            HostType::ReverseApp(app) => app.inner().inject_security_headers,
            HostType::StaticApp(app) => app.inject_security_headers,
        }
    }
}

/// The binding of `app` in a gateway named `hostname` that is reached on
/// `port`: to its upstream where it is a proxy, to itself where it is a
/// directory.
pub open spec fn host_type_of(app: AppView, hostname: Seq<char>, port: Option<u16>) -> HostTypeView {
    if app.is_proxy {
        HostTypeView::ReverseApp(binding_of(app, hostname, port))
    } else {
        HostTypeView::StaticApp(app)
    }
}

/// What stands in the way of [`host_type_of`], if anything does: only a
/// proxy can fail to bind.
pub open spec fn host_type_error(app: AppView, hostname: Seq<char>, port: Option<u16>) -> Option<
    BindingError,
> {
    if app.is_proxy {
        binding_error(app, hostname, port)
    } else {
        None
    }
}

/// The binding of `app` in the gateway that `config` describes.
pub fn app_to_host_type(app: &App, config: &Config, port: Option<u16>) -> (r: HostType)
    requires
        host_type_error(app@, config@.hostname, port) is None,
    ensures
        r@ == host_type_of(app@, config@.hostname, port),
{
    if app.is_proxy {
        HostType::ReverseApp(
            Box::new(
                AppWithUri::from_app_domain_and_http_port(
                    app.clone(),
                    config.hostname.as_str(),
                    port,
                ),
            ),
        )
    } else {
        HostType::StaticApp(app.clone())
    }
}

/// The binding of `app` as [`app_to_host_type`] gives it, or what stands in
/// its way.
pub fn try_app_to_host_type(app: &App, config: &Config, port: Option<u16>) -> (r: Result<
    HostType,
    BindingError,
>)
    ensures
        match r {
            Ok(h) => host_type_error(app@, config@.hostname, port) is None && h@ == host_type_of(
                app@,
                config@.hostname,
                port,
            ),
            Err(e) => host_type_error(app@, config@.hostname, port) == Some(e),
        },
{
    if app.is_proxy {
        match AppWithUri::check(app, config.hostname.as_str(), port) {
            Some(e) => Err(e),
            None => Ok(app_to_host_type(app, config, port)),
        }
    } else {
        Ok(app_to_host_type(app, config, port))
    }
}

/// The hostname under which an app is reached: the first label of its host
/// in front of the gateway's hostname.
pub open spec fn base_name(host: Seq<char>, hostname: Seq<char>) -> Seq<char> {
    before(host, '.') + seq!['.'] + hostname
}

/// The hostname under which a subdomain of an app is reached.
pub open spec fn sub_name(sub: Seq<char>, host: Seq<char>, hostname: Seq<char>) -> Seq<char> {
    sub + seq!['.'] + before(host, '.') + seq!['.'] + hostname
}

/// The apps that a gateway named `hostname`, with cookie domain `domain`,
/// serves, in their order.
pub open spec fn served(apps: Seq<AppView>, hostname: Seq<char>, domain: Seq<char>) -> Seq<AppView> {
    apps.filter(|a: AppView| serves(a.host, hostname, domain))
}

/// The hostnames under which the apps are reached, app by app.
pub open spec fn base_names(apps: Seq<AppView>, hostname: Seq<char>) -> Seq<Seq<char>> {
    apps.map_values(|a: AppView| base_name(a.host, hostname))
}

/// The hostnames under which the subdomains of one app are reached, in the
/// order in which the app declares them.
pub open spec fn sub_names(app: AppView, hostname: Seq<char>) -> Seq<Seq<char>> {
    match app.subdomains {
        Some(subs) => subs.map_values(|s: Seq<char>| sub_name(s, app.host, hostname)),
        None => Seq::empty(),
    }
}

/// The hostnames under which the subdomains of the apps are reached, app by
/// app.
pub open spec fn all_sub_names(apps: Seq<AppView>, hostname: Seq<char>) -> Seq<Seq<char>>
    decreases apps.len(),
{
    if apps.len() == 0 {
        Seq::empty()
    } else {
        all_sub_names(apps.drop_last(), hostname) + sub_names(apps.last(), hostname)
    }
}

/// A hostname and what it is bound to.
pub type Entry = (Seq<char>, HostTypeView);

/// The entries that bind the apps' own hostnames.
pub open spec fn base_entries(apps: Seq<AppView>, hostname: Seq<char>, port: Option<u16>) -> Seq<
    Entry,
> {
    apps.map_values(|a: AppView| (base_name(a.host, hostname), host_type_of(a, hostname, port)))
}

/// The entries that bind the hostnames of one app's subdomains.
pub open spec fn sub_entries(app: AppView, hostname: Seq<char>, port: Option<u16>) -> Seq<Entry> {
    sub_names(app, hostname).map_values(|n: Seq<char>| (n, host_type_of(app, hostname, port)))
}

/// The entries that bind the hostnames of the apps' subdomains, app by app.
pub open spec fn all_sub_entries(apps: Seq<AppView>, hostname: Seq<char>, port: Option<u16>) -> Seq<
    Entry,
>
    decreases apps.len(),
{
    if apps.len() == 0 {
        Seq::empty()
    } else {
        all_sub_entries(apps.drop_last(), hostname, port) + sub_entries(apps.last(), hostname, port)
    }
}

/// The table that a list of entries makes: where a hostname comes twice, the
/// later entry stands.
pub open spec fn table_of(entries: Seq<Entry>) -> Map<Seq<char>, HostTypeView>
    decreases entries.len(),
{
    if entries.len() == 0 {
        Map::empty()
    } else {
        table_of(entries.drop_last()).insert(entries.last().0, entries.last().1)
    }
}

/// What keeps the first of the apps that cannot be bound from being bound.
pub open spec fn first_error(apps: Seq<AppView>, hostname: Seq<char>, port: Option<u16>) -> Option<
    BindingError,
>
    decreases apps.len(),
{
    if apps.len() == 0 {
        None
    } else {
        match host_type_error(apps[0], hostname, port) {
            Some(e) => Some(e),
            None => first_error(apps.drop_first(), hostname, port),
        }
    }
}

impl ConfigView {
    /// The apps that this gateway serves.
    pub open spec fn served(self) -> Seq<AppView> {
        served(self.apps, self.hostname, self.domain)
    }

    /// The port under which the gateway is reached, where clients have to
    /// name one: the plain port of a gateway without TLS.
    pub open spec fn port_hint(self) -> Option<u16> {
        if self.tls_mode.secure() {
            None
        } else {
            Some(8080u16)
        }
    }

    /// The hostnames of the apps that the gateway serves, then those of
    /// their subdomains.
    pub open spec fn app_names(self) -> Seq<Seq<char>> {
        base_names(self.served(), self.hostname) + all_sub_names(self.served(), self.hostname)
    }

    /// The hostnames that the gateway answers for: its own, then those of
    /// its apps.
    pub open spec fn domains(self) -> Seq<Seq<char>> {
        seq![self.hostname] + self.app_names()
    }

    /// The entries of the routing table, in the order in which they are made.
    pub open spec fn entries(self) -> Seq<Entry> {
        base_entries(self.served(), self.hostname, self.port_hint()) + all_sub_entries(
            self.served(),
            self.hostname,
            self.port_hint(),
        )
    }

    /// The routing table: what each hostname of an app or subdomain is bound
    /// to. The gateway's own hostname is bound to nothing.
    pub open spec fn routing(self) -> Map<Seq<char>, HostTypeView> {
        table_of(self.entries())
    }

    /// What keeps the routing table from being made, if anything does.
    pub open spec fn binding_failure(self) -> Option<BindingError> {
        first_error(self.served(), self.hostname, self.port_hint())
    }

    /// The configuration as the gateway goes by it: a hostname given from
    /// outside stands in place of the configured one, and the hostname is the
    /// cookie domain where none is configured.
    pub open spec fn normalized(self, main_hostname: Option<Seq<char>>) -> ConfigView {
        let hostname = match main_hostname {
            Some(h) => h,
            None => self.hostname,
        };
        ConfigView {
            hostname,
            domain: if self.domain.len() == 0 {
                hostname
            } else {
                self.domain
            },
            ..self
        }
    }
}

/// A table with one more entry is the table with that entry put in.
pub proof fn lemma_table_push(entries: Seq<Entry>, e: Entry)
    ensures
        table_of(entries.push(e)) == table_of(entries).insert(e.0, e.1),
{
    assert(entries.push(e).drop_last() =~= entries);
}

/// The apps among `apps` that a gateway serves, seen as values, are the
/// served ones among the apps seen as values.
pub proof fn lemma_served_views(apps: Seq<App>, hostname: Seq<char>, domain: Seq<char>)
    ensures
        views(apps.filter(|s: App| serves(s.host_spec(), hostname, domain))) == served(
            views(apps),
            hostname,
            domain,
        ),
{
    let p = |s: App| serves(s.host_spec(), hostname, domain);
    let sp = |a: AppView| serves(a.host, hostname, domain);
    vstd::seq_lib::lemma_filter_view_commute(apps, p, sp);
    assert(views(apps.filter(p)) =~= apps.filter(p).map_values(|x: App| x.view()));
    assert(views(apps) =~= apps.map_values(|x: App| x.view()));
}

/// No app in front of position `i` fails to bind, and the app at `i` fails
/// with `e`, or `i` is the end and `e` is nothing: then `e` is the first
/// error.
pub proof fn lemma_first_error(
    apps: Seq<AppView>,
    hostname: Seq<char>,
    port: Option<u16>,
    i: int,
    e: Option<BindingError>,
)
    requires
        0 <= i <= apps.len(),
        forall|k: int| 0 <= k < i ==> host_type_error(#[trigger] apps[k], hostname, port) is None,
        i < apps.len() ==> e is Some && host_type_error(apps[i], hostname, port) == e,
        i == apps.len() ==> e is None,
    ensures
        first_error(apps, hostname, port) == e,
    decreases apps.len(),
{
    if apps.len() == 0 {
    } else if i == 0 {
    } else {
        let t = apps.drop_first();
        assert(host_type_error(apps[0], hostname, port) is None);
        assert forall|k: int| 0 <= k < i - 1 implies host_type_error(
            #[trigger] t[k],
            hostname,
            port,
        ) is None by {
            assert(t[k] == apps[k + 1]);
        }
        lemma_first_error(t, hostname, port, i - 1, e);
    }
}

fn base_name_of(host: &str, hostname: &str) -> (r: String)
    ensures
        r@ == base_name(host@, hostname@),
{
    let mut r = trim_host(host);
    proof {
        reveal_strlit(".");
        assert("."@ =~= seq!['.']);
    }
    r.append(".");
    r.append(hostname);
    r
}

fn sub_name_of(sub: &str, host: &str, hostname: &str) -> (r: String)
    ensures
        r@ == sub_name(sub@, host@, hostname@),
{
    let mut r = sub.to_owned();
    let slug = trim_host(host);
    proof {
        reveal_strlit(".");
        assert("."@ =~= seq!['.']);
    }
    r.append(".");
    r.append(slug.as_str());
    r.append(".");
    r.append(hostname);
    r
}

/// The routing table: the service that each hostname is bound to.
pub struct RoutingTable {
    map: StringHashMap<HostType>,
}

impl View for RoutingTable {
    type V = Map<Seq<char>, HostTypeView>;

    closed spec fn view(&self) -> Map<Seq<char>, HostTypeView> {
        self.map@.map_values(|h: HostType| h@)
    }
}

/// The name under which a `Host` header is looked up: in lower case, without
/// what follows the first colon.
pub open spec fn lookup_name(host: Seq<char>) -> Seq<char> {
    before(lowercase(host), ':')
}

impl RoutingTable {
    /// The table without entries.
    pub fn new() -> (r: Self)
        ensures
            r@ == Map::<Seq<char>, HostTypeView>::empty(),
    {
        let r = RoutingTable { map: StringHashMap::new() };
        assert(r@ =~= Map::<Seq<char>, HostTypeView>::empty());
        r
    }

    /// Binds `name` to `binding`, in place of what it was bound to.
    pub fn insert(&mut self, name: String, binding: HostType)
        ensures
            final(self)@ == old(self)@.insert(name@, binding@),
    {
        self.map.insert(name, binding);
        assert(self@ =~= old(self)@.insert(name@, binding@));
    }

    /// What `name` is bound to.
    pub fn get(&self, name: &str) -> (r: Option<&HostType>)
        ensures
            match r {
                Some(h) => self@.contains_key(name@) && h@ == self@[name@],
                None => !self@.contains_key(name@),
            },
    {
        self.map.get(name)
    }

    /// The number of hostnames that are bound.
    pub fn len(&self) -> (r: usize)
        ensures
            r == self@.len(),
    {
        assert(self@.dom() =~= self.map@.dom());
        self.map.len()
    }

    /// The service that a request with the given `Host` header is for; none
    /// where the header names the gateway itself or a stranger.
    pub fn resolve(&self, host: &str) -> (r: Option<&HostType>)
        ensures
            match r {
                Some(h) => self@.contains_key(lookup_name(host@)) && h@ == self@[lookup_name(
                    host@,
                )],
                None => !self@.contains_key(lookup_name(host@)),
            },
    {
        let lower = to_lowercase(host);
        let name = before_char(lower.as_str(), ':');
        self.get(name.as_str())
    }
}

/// The sub-names of the first `j + 1` apps are those of the first `j` and
/// those of the app at `j`.
pub proof fn lemma_sub_names_step(apps: Seq<AppView>, hostname: Seq<char>, j: int)
    requires
        0 <= j < apps.len(),
    ensures
        all_sub_names(apps.take(j + 1), hostname) == all_sub_names(apps.take(j), hostname)
            + sub_names(apps[j], hostname),
{
    assert(apps.take(j + 1).drop_last() =~= apps.take(j));
    assert(apps.take(j + 1).last() == apps[j]);
}

/// The sub-entries of the first `j + 1` apps are those of the first `j` and
/// those of the app at `j`.
pub proof fn lemma_sub_entries_step(
    apps: Seq<AppView>,
    hostname: Seq<char>,
    port: Option<u16>,
    j: int,
)
    requires
        0 <= j < apps.len(),
    ensures
        all_sub_entries(apps.take(j + 1), hostname, port) == all_sub_entries(
            apps.take(j),
            hostname,
            port,
        ) + sub_entries(apps[j], hostname, port),
{
    assert(apps.take(j + 1).drop_last() =~= apps.take(j));
    assert(apps.take(j + 1).last() == apps[j]);
}

impl Config {
    /// The hostnames that the gateway answers for: its own, then those of
    /// the apps it serves, then those of their subdomains.
    pub fn domains(&self) -> (r: Vec<String>)
        ensures
            views(r@) == self@.domains(),
    {
        let hostname = self.hostname.as_str();
        let served = filter_services(self.apps.as_slice(), hostname, self.domain.as_str());
        let ghost sv = views(targets(served@));
        proof {
            lemma_served_views(self.apps@, hostname@, self.domain@);
            assert(sv == self@.served());
        }
        let mut domains: Vec<String> = Vec::new();
        domains.push(self.hostname.clone());
        assert(views(domains@) =~= seq![hostname@] + base_names(sv.take(0), hostname@));
        let mut i: usize = 0;
        while i < served.len()
            invariant
                i <= served.len(),
                sv == views(targets(served@)),
                views(domains@) == seq![hostname@] + base_names(sv.take(i as int), hostname@),
            decreases served.len() - i,
        {
            let name = base_name_of(served[i].host.as_str(), hostname);
            proof {
                lemma_views_push(domains@, name);
                assert(sv[i as int] == served@[i as int]@);
                assert(base_names(sv.take(i as int + 1), hostname@) =~= base_names(
                    sv.take(i as int),
                    hostname@,
                ).push(name@));
            }
            domains.push(name);
            i += 1;
        }
        assert(sv.take(served.len() as int) == sv);
        let ghost front = seq![hostname@] + base_names(sv, hostname@);
        assert(all_sub_names(sv.take(0), hostname@) =~= Seq::empty());
        assert(front + Seq::<Seq<char>>::empty() =~= front);
        let mut j: usize = 0;
        while j < served.len()
            invariant
                j <= served.len(),
                sv == views(targets(served@)),
                front == seq![hostname@] + base_names(sv, hostname@),
                views(domains@) == front + all_sub_names(sv.take(j as int), hostname@),
            decreases served.len() - j,
        {
            let app = served[j];
            assert(sv[j as int] == app@);
            let ghost done = front + all_sub_names(sv.take(j as int), hostname@);
            let ghost subs = sub_names(app@, hostname@);
            if let Some(subdomains) = &app.subdomains {
                let mut k: usize = 0;
                assert(done + subs.take(0) =~= done);
                while k < subdomains.len()
                    invariant
                        k <= subdomains.len(),
                        app.subdomains == Some(*subdomains),
                        subs == sub_names(app@, hostname@),
                        views(domains@) == done + subs.take(k as int),
                    decreases subdomains.len() - k,
                {
                    let name = sub_name_of(subdomains[k].as_str(), app.host.as_str(), hostname);
                    proof {
                        lemma_views_push(domains@, name);
                        assert(views(subdomains@)[k as int] == subdomains@[k as int]@);
                        assert(subs[k as int] == name@);
                        assert(done + subs.take(k as int + 1) =~= (done + subs.take(
                            k as int,
                        )).push(name@));
                    }
                    domains.push(name);
                    k += 1;
                }
                assert(subs.take(subdomains.len() as int) =~= subs);
            } else {
                assert(done + subs =~= done);
            }
            proof {
                lemma_sub_names_step(sv, hostname@, j as int);
                assert(done + subs =~= front + (all_sub_names(sv.take(j as int), hostname@)
                    + subs));
            }
            j += 1;
        }
        assert(sv.take(served.len() as int) == sv);
        assert(views(domains@) =~= self@.domains());
        domains
    }

    /// Gives the configuration a cookie key where it has none, and says
    /// whether it did: a configuration that got its key is to be written
    /// back before anything else is done with it. `fresh` is a key that the
    /// caller has drawn at random.
    pub fn ensure_cookie_key(&mut self, fresh: String) -> (generated: bool)
        ensures
            generated == (old(self)@.cookie_key is None),
            final(self)@ == (ConfigView {
                cookie_key: if generated {
                    Some(fresh@)
                } else {
                    old(self)@.cookie_key
                },
                ..old(self)@
            }),
    {
        if self.cookie_key.is_none() {
            self.cookie_key = Some(fresh);
            true
        } else {
            false
        }
    }
}

/// Makes of a configuration, as it was read, the configuration that the
/// gateway goes by and its routing table. `main_hostname` is the hostname
/// given from outside the configuration, if one is.
pub fn load_config(config: Config, main_hostname: Option<String>) -> (r: Result<
    (Config, RoutingTable),
    BindingError,
>)
    ensures
        match r {
            Ok(loaded) => {
                &&& loaded.0@ == config@.normalized(view_of(main_hostname))
                &&& loaded.0@.binding_failure() is None
                &&& loaded.1@ == loaded.0@.routing()
            },
            Err(e) => config@.normalized(view_of(main_hostname)).binding_failure() == Some(e),
        },
{
    let ghost given = view_of(main_hostname);
    let mut loaded = config;
    if let Some(h) = main_hostname {
        loaded.hostname = h;
    }
    if loaded.domain.as_str().is_empty() {
        loaded.domain = loaded.hostname.clone();
    }
    let port = if loaded.tls_mode.is_secure() {
        None
    } else {
        Some(PLAIN_PORT)
    };
    let mut table = RoutingTable::new();
    {
        let hostname = loaded.hostname.as_str();
        let served = filter_services(loaded.apps.as_slice(), hostname, loaded.domain.as_str());
        let ghost sv = views(targets(served@));
        proof {
            lemma_served_views(loaded.apps@, hostname@, loaded.domain@);
            assert(sv == loaded@.served());
            assert(base_entries(sv.take(0), hostname@, port) =~= Seq::empty());
        }
        let mut i: usize = 0;
        while i < served.len()
            invariant
                i <= served.len(),
                given == view_of(main_hostname),
                loaded@ == config@.normalized(given),
                hostname@ == loaded@.hostname,
                port == loaded@.port_hint(),
                sv == loaded@.served(),
                sv == views(targets(served@)),
                forall|k: int|
                    0 <= k < i ==> host_type_error(#[trigger] sv[k], hostname@, port) is None,
                table@ == table_of(base_entries(sv.take(i as int), hostname@, port)),
            decreases served.len() - i,
        {
            let app = served[i];
            assert(sv[i as int] == app@);
            match try_app_to_host_type(app, &loaded, port) {
                Ok(binding) => {
                    let name = base_name_of(app.host.as_str(), hostname);
                    proof {
                        lemma_table_push(
                            base_entries(sv.take(i as int), hostname@, port),
                            (name@, binding@),
                        );
                        assert(base_entries(sv.take(i as int + 1), hostname@, port)
                            =~= base_entries(sv.take(i as int), hostname@, port).push(
                            (name@, binding@),
                        ));
                    }
                    table.insert(name, binding);
                },
                Err(e) => {
                    proof {
                        lemma_first_error(sv, hostname@, port, i as int, Some(e));
                    }
                    return Err(e);
                },
            }
            i += 1;
        }
        proof {
            assert(sv.take(served.len() as int) == sv);
            lemma_first_error(sv, hostname@, port, sv.len() as int, None);
        }
        let ghost front = base_entries(sv, hostname@, port);
        assert(all_sub_entries(sv.take(0), hostname@, port) =~= Seq::empty());
        assert(front + Seq::<Entry>::empty() =~= front);
        let mut j: usize = 0;
        while j < served.len()
            invariant
                j <= served.len(),
                hostname@ == loaded@.hostname,
                sv == views(targets(served@)),
                forall|k: int|
                    0 <= k < sv.len() ==> host_type_error(#[trigger] sv[k], hostname@, port) is None,
                front == base_entries(sv, hostname@, port),
                table@ == table_of(front + all_sub_entries(sv.take(j as int), hostname@, port)),
            decreases served.len() - j,
        {
            let app = served[j];
            assert(sv[j as int] == app@);
            let ghost done = front + all_sub_entries(sv.take(j as int), hostname@, port);
            let ghost subs = sub_entries(app@, hostname@, port);
            if let Some(subdomains) = &app.subdomains {
                let mut k: usize = 0;
                assert(done + subs.take(0) =~= done);
                while k < subdomains.len()
                    invariant
                        k <= subdomains.len(),
                        hostname@ == loaded@.hostname,
                        app.subdomains == Some(*subdomains),
                        host_type_error(app@, hostname@, port) is None,
                        subs == sub_entries(app@, hostname@, port),
                        table@ == table_of(done + subs.take(k as int)),
                    decreases subdomains.len() - k,
                {
                    let name = sub_name_of(subdomains[k].as_str(), app.host.as_str(), hostname);
                    let binding = app_to_host_type(app, &loaded, port);
                    proof {
                        assert(views(subdomains@)[k as int] == subdomains@[k as int]@);
                        assert(subs[k as int] == (name@, binding@));
                        lemma_table_push(done + subs.take(k as int), (name@, binding@));
                        assert(done + subs.take(k as int + 1) =~= (done + subs.take(
                            k as int,
                        )).push((name@, binding@)));
                    }
                    table.insert(name, binding);
                    k += 1;
                }
                assert(subs.take(subdomains.len() as int) =~= subs);
            } else {
                assert(done + subs =~= done);
            }
            proof {
                lemma_sub_entries_step(sv, hostname@, port, j as int);
                assert(done + subs =~= front + (all_sub_entries(
                    sv.take(j as int),
                    hostname@,
                    port,
                ) + subs));
            }
            j += 1;
        }
        assert(sv.take(served.len() as int) == sv);
    }
    Ok((loaded, table))
}

/// Why a change to the configuration is not made or not kept.
#[derive(Debug, Clone, Copy, PartialEq, Eq, Structural)]
pub enum AdminError {
    /// No app has the id that was given.
    AppNotFound,
    /// No user has the login that was given.
    UserNotFound,
    /// A new user comes without a password.
    PasswordRequired,
    /// The configuration could not be read.
    ConfigUnreadable,
    /// The configuration could not be written.
    PersistenceFailed,
}

impl AdminError {
    /// The status under which the error is reported.
    pub open spec fn status_of(self) -> u16 {
        match self {
            AdminError::AppNotFound => 400,
            AdminError::UserNotFound => 400,
            AdminError::PasswordRequired => 406,
            AdminError::ConfigUnreadable => 500,
            AdminError::PersistenceFailed => 500,
        }
    }

    /// The words with which the error is reported.
    pub open spec fn message_of(self) -> Seq<char> {
        match self {
            AdminError::AppNotFound => "app doesn't exist"@,
            AdminError::UserNotFound => "user does not exist"@,
            AdminError::PasswordRequired => "password is required"@,
            AdminError::ConfigUnreadable => "could not read config file"@,
            AdminError::PersistenceFailed => "could not save configuration"@,
        }
    }

    /// The status under which the error is reported.
    pub fn status(&self) -> (r: u16)
        ensures
            r == self.status_of(),
    {
        match self {
            AdminError::AppNotFound => BAD_REQUEST,
            AdminError::UserNotFound => BAD_REQUEST,
            AdminError::PasswordRequired => NOT_ACCEPTABLE,
            AdminError::ConfigUnreadable => INTERNAL_SERVER_ERROR,
            AdminError::PersistenceFailed => INTERNAL_SERVER_ERROR,
        }
    }

    /// The words with which the error is reported.
    pub fn message(&self) -> (r: &'static str)
        ensures
            r@ == self.message_of(),
    {
        match self {
            AdminError::AppNotFound => "app doesn't exist",
            AdminError::UserNotFound => "user does not exist",
            AdminError::PasswordRequired => "password is required",
            AdminError::ConfigUnreadable => "could not read config file",
            AdminError::PersistenceFailed => "could not save configuration",
        }
    }
}

/// The apps are in the order of their ids.
pub open spec fn ordered_by_id(apps: Seq<AppView>) -> bool {
    forall|i: int, j: int| 0 <= i <= j < apps.len() ==> apps[i].id <= apps[j].id
}

/// Where an app with the given id goes into a list that is in the order of
/// its ids: behind every app whose id is no larger.
pub open spec fn place_for(apps: Seq<AppView>, id: usize) -> int
    decreases apps.len(),
{
    if apps.len() == 0 || apps.last().id <= id {
        apps.len() as int
    } else {
        place_for(apps.drop_last(), id)
    }
}

/// The apps in the order of their ids, those with the same id in the order
/// in which they stood.
pub open spec fn sorted_by_id(apps: Seq<AppView>) -> Seq<AppView>
    decreases apps.len(),
{
    if apps.len() == 0 {
        Seq::empty()
    } else {
        let front = sorted_by_id(apps.drop_last());
        front.insert(place_for(front, apps.last().id), apps.last())
    }
}

/// The place for an id lies within the list; what stands behind it has a
/// larger id, and what stands just in front of it has none.
pub proof fn lemma_place_for(apps: Seq<AppView>, id: usize)
    ensures
        0 <= place_for(apps, id) <= apps.len(),
        forall|k: int| place_for(apps, id) <= k < apps.len() ==> apps[k].id > id,
        place_for(apps, id) > 0 ==> apps[place_for(apps, id) - 1].id <= id,
    decreases apps.len(),
{
    if apps.len() == 0 || apps.last().id <= id {
    } else {
        let front = apps.drop_last();
        lemma_place_for(front, id);
        assert forall|k: int| place_for(apps, id) <= k < apps.len() implies apps[k].id > id by {
            if k < front.len() {
                assert(front[k] == apps[k]);
            }
        }
        if place_for(apps, id) > 0 {
            assert(front[place_for(apps, id) - 1] == apps[place_for(apps, id) - 1]);
        }
    }
}

/// Sorting keeps every app, as often as it stood in the list, and puts the
/// apps in the order of their ids.
pub proof fn lemma_sorted_by_id(apps: Seq<AppView>)
    ensures
        sorted_by_id(apps).len() == apps.len(),
        sorted_by_id(apps).to_multiset() == apps.to_multiset(),
        ordered_by_id(sorted_by_id(apps)),
    decreases apps.len(),
{
    broadcast use vstd::multiset::group_multiset_axioms;

    if apps.len() == 0 {
        assert(apps =~= Seq::empty());
    } else {
        let rest = apps.drop_last();
        let last = apps.last();
        let front = sorted_by_id(rest);
        let at = place_for(front, last.id);
        lemma_sorted_by_id(rest);
        lemma_place_for(front, last.id);
        let all = front.insert(at, last);
        assert(apps =~= rest.push(last));
        assert(all.remove(at) =~= front);
        assert(all[at] == last);
        vstd::seq_lib::to_multiset_remove(all, at);
        vstd::seq_lib::to_multiset_build(rest, last);
        all.to_multiset_ensures();
        assert(all.contains(last));
        assert(all.to_multiset() =~= all.to_multiset().remove(last).insert(last));
        assert(all.to_multiset() =~= apps.to_multiset());
        assert forall|i: int, j: int| 0 <= i <= j < all.len() implies all[i].id <= all[j].id by {
            if j < at {
                assert(all[i] == front[i] && all[j] == front[j]);
            } else if j == at {
                if i < at {
                    assert(all[i] == front[i]);
                    assert(front[i].id <= front[at - 1].id);
                }
            } else {
                assert(all[j] == front[j - 1]);
                if i < at {
                    assert(all[i] == front[i]);
                } else if i == at {
                } else {
                    assert(all[i] == front[i - 1]);
                }
            }
        }
    }
}

impl Config {
    /// Puts the apps in the order of their ids, as they are written to the
    /// configuration file. Apps with the same id keep their order.
    pub fn sort_apps(&mut self)
        ensures
            final(self)@ == (ConfigView { apps: sorted_by_id(old(self)@.apps), ..old(self)@ }),
            ordered_by_id(final(self)@.apps),
            final(self)@.apps.to_multiset() == old(self)@.apps.to_multiset(),
    {
        let ghost before = views(self.apps@);
        let mut sorted: Vec<App> = Vec::new();
        let mut i: usize = 0;
        assert(views(sorted@) =~= sorted_by_id(before.take(0)));
        while i < self.apps.len()
            invariant
                i <= self.apps.len(),
                before == views(self.apps@),
                views(sorted@) == sorted_by_id(before.take(i as int)),
            decreases self.apps.len() - i,
        {
            let app = self.apps[i].clone();
            let mut at: usize = sorted.len();
            assert(views(sorted@).take(at as int) =~= views(sorted@));
            while at > 0 && sorted[at - 1].id > app.id
                invariant
                    at <= sorted.len(),
                    place_for(views(sorted@), app.id) == place_for(
                        views(sorted@).take(at as int),
                        app.id,
                    ),
                decreases at,
            {
                assert(views(sorted@).take(at as int).drop_last() =~= views(sorted@).take(
                    at as int - 1,
                ));
                at -= 1;
            }
            proof {
                assert(views(sorted@).take(sorted.len() as int) == views(sorted@));
                assert(before.take(i as int + 1).drop_last() =~= before.take(i as int));
                assert(before.take(i as int + 1).last() == app@);
                assert(views(sorted@.insert(at as int, app)) =~= views(sorted@).insert(
                    at as int,
                    app@,
                ));
            }
            sorted.insert(at, app);
            i += 1;
        }
        proof {
            assert(before.take(self.apps.len() as int) == before);
            lemma_sorted_by_id(before);
        }
        self.apps = sorted;
    }
}

} // verus!

use atrium::apps::{
    add_app, delete_app, get_apps, proxy_handler, App, AppWithUri, BindingError, ProxyAction,
    Scheme,
};
use atrium::configuration::{AdminError, Config, HostType, TlsMode};
use atrium::users::{Share, UserInfo, UserToken, UserTokenWithoutXSRFCheck};

fn files_app() -> App {
    App {
        id: 1,
        name: "Files".to_string(),
        host: "files".to_string(),
        target: "http://127.0.0.1:9000".to_string(),
        secured: true,
        is_proxy: true,
        roles: vec!["USERS".to_string()],
        ..Default::default()
    }
}

fn plain_config() -> Config {
    Config { domain: "atrium.io".to_string(), ..Default::default() }
}

fn bound(app: App) -> HostType {
    HostType::ReverseApp(Box::new(AppWithUri::from_app_domain_and_http_port(
        app,
        "atrium.io",
        Some(8080),
    )))
}

fn member() -> UserTokenWithoutXSRFCheck {
    UserTokenWithoutXSRFCheck(UserToken {
        login: "ann".to_string(),
        roles: vec!["USERS".to_string()],
        ..Default::default()
    })
}

fn header<'a>(action: &'a ProxyAction, name: &str) -> Option<&'a str> {
    match action {
        ProxyAction::Forward(request) => {
            request.headers.iter().find(|h| h.name == name).map(|h| h.value.as_str())
        }
        ProxyAction::Respond(response) => response.header(name),
    }
}

#[test]
fn binding_on_the_plain_port_is_http_with_the_port() {
    let b = AppWithUri::from_app_domain_and_http_port(files_app(), "atrium.io", Some(8080));
    assert_eq!(b.app_scheme(), Scheme::Http);
    assert_eq!(b.app_authority(), "files.atrium.io:8080");
    assert_eq!(b.forward_scheme(), Scheme::Http);
    assert_eq!(b.forward_authority(), "127.0.0.1:9000");
    assert_eq!(b.forward_port(), Some(9000));
    assert_eq!(b.inner(), &files_app());
}

#[test]
fn binding_behind_tls_is_https_without_a_port() {
    let app = App { target: "https://api.internal/base".to_string(), ..files_app() };
    let b = AppWithUri::from_app_domain_and_http_port(app, "atrium.io", None);
    assert_eq!(b.app_scheme(), Scheme::Https);
    assert_eq!(b.app_authority(), "files.atrium.io");
    assert_eq!(b.forward_scheme(), Scheme::Https);
    assert_eq!(b.forward_authority(), "api.internal");
    assert_eq!(b.forward_port(), None);
}

#[test]
fn host_that_holds_the_domain_is_kept_as_it_is() {
    let app = App { host: "files.sub.atrium.io".to_string(), ..files_app() };
    let b = AppWithUri::from_app_domain_and_http_port(app, "atrium.io", Some(65535));
    assert_eq!(b.app_authority(), "files.sub.atrium.io:65535");
}

#[test]
fn scheme_texts() {
    assert_eq!(Scheme::Http.as_str(), "http");
    assert_eq!(Scheme::Https.as_str(), "https");
}

#[test]
fn binding_fails_on_a_host_that_is_no_authority() {
    let app = App { host: "fi les".to_string(), ..files_app() };
    assert_eq!(AppWithUri::check(&app, "atrium.io", None), Some(BindingError::Authority));
    assert_eq!(
        AppWithUri::try_from_app_domain_and_http_port(app, "atrium.io", None),
        Err(BindingError::Authority)
    );
}

#[test]
fn binding_fails_on_a_target_that_is_no_uri() {
    let app = App { target: "http://".to_string(), ..files_app() };
    assert_eq!(
        AppWithUri::try_from_app_domain_and_http_port(app, "atrium.io", None),
        Err(BindingError::Target)
    );
    let empty = App { target: String::new(), ..files_app() };
    assert_eq!(AppWithUri::check(&empty, "atrium.io", None), Some(BindingError::Target));
}

#[test]
fn binding_fails_on_a_target_without_a_host() {
    let app = App { target: "/srv/files".to_string(), ..files_app() };
    assert_eq!(
        AppWithUri::try_from_app_domain_and_http_port(app, "atrium.io", None),
        Err(BindingError::TargetHost)
    );
}

#[test]
fn binding_that_can_be_made_is_the_same_either_way() {
    assert_eq!(AppWithUri::check(&files_app(), "atrium.io", Some(8080)), None);
    let tried =
        AppWithUri::try_from_app_domain_and_http_port(files_app(), "atrium.io", Some(8080));
    let made = AppWithUri::from_app_domain_and_http_port(files_app(), "atrium.io", Some(8080));
    assert_eq!(tried, Ok(made.clone()));
    assert_eq!(made.clone(), made);
}

#[test]
fn unauthenticated_navigation_is_sent_to_the_login_page() {
    let action =
        proxy_handler(None, &bound(files_app()), "files.atrium.io:8080", &plain_config(), "/", None);
    let response = match action {
        ProxyAction::Respond(r) => r,
        ProxyAction::Forward(_) => panic!("forwarded without a user"),
    };
    assert_eq!(response.status, 302);
    assert_eq!(response.header("location"), Some("http://atrium.io:8080"));
    assert_eq!(
        response.header("set-cookie"),
        Some(
            "ATRIUM_REDIRECT=http://files.atrium.io:8080; SameSite=Lax; Path=/; \
             Domain=atrium.io; Max-Age=60"
        )
    );
    let cookie = response.header("set-cookie").unwrap();
    assert!(cookie.starts_with("ATRIUM_REDIRECT=http://files.atrium.io:8080;"));
    assert!(cookie.contains("; Domain=atrium.io"));
    assert!(cookie.contains("; Max-Age=60"));
    assert!(!cookie.contains("HttpOnly"));
    assert!(!cookie.contains("Secure"));
    assert_eq!(response.header("www-authenticate"), Some("Basic realm=\"server\""));
    assert_eq!(response.headers.len(), 3);
    assert_eq!(response.body, "");
}

#[test]
fn redirect_behind_tls_names_https_and_no_port() {
    let config = Config {
        domain: "atrium.io".to_string(),
        tls_mode: TlsMode::Auto,
        ..Default::default()
    };
    let action = proxy_handler(None, &bound(files_app()), "files.atrium.io", &config, "/", None);
    assert_eq!(header(&action, "location"), Some("https://atrium.io"));
    assert_eq!(
        header(&action, "set-cookie"),
        Some("ATRIUM_REDIRECT=https://files.atrium.io; SameSite=Lax; Path=/; Domain=atrium.io; Max-Age=60")
    );
}

#[test]
fn redirect_cookie_shows_its_domain_without_a_leading_dot() {
    let config = Config { domain: ".atrium.io".to_string(), ..Default::default() };
    let action = proxy_handler(None, &bound(files_app()), "files.atrium.io", &config, "/", None);
    assert_eq!(header(&action, "location"), Some("http://.atrium.io:8080"));
    assert_eq!(
        header(&action, "set-cookie"),
        Some("ATRIUM_REDIRECT=http://files.atrium.io; SameSite=Lax; Path=/; Domain=atrium.io; Max-Age=60")
    );
}

#[test]
fn challenge_stays_where_the_login_page_cannot_stand_in_a_header() {
    let config = Config { domain: "atrium\n.io".to_string(), ..Default::default() };
    let action = proxy_handler(None, &bound(files_app()), "files.atrium.io", &config, "/", None);
    let response = match action {
        ProxyAction::Respond(r) => r,
        ProxyAction::Forward(_) => panic!("forwarded without a user"),
    };
    assert_eq!(response.status, 401);
    assert_eq!(response.headers.len(), 1);
    assert_eq!(response.header("www-authenticate"), Some("Basic realm=\"server\""));
}

#[test]
fn user_without_the_role_is_forbidden_and_not_redirected() {
    let user = UserTokenWithoutXSRFCheck(UserToken {
        roles: vec!["GUESTS".to_string()],
        ..Default::default()
    });
    let action = proxy_handler(
        Some(&user),
        &bound(files_app()),
        "files.atrium.io:8080",
        &plain_config(),
        "/",
        None,
    );
    match action {
        ProxyAction::Respond(r) => {
            assert_eq!(r.status, 403);
            assert!(r.headers.is_empty());
        }
        ProxyAction::Forward(_) => panic!("forwarded a user without the role"),
    }
}

#[test]
fn proxy_injects_basic_auth() {
    let app = App { login: "u".to_string(), password: "p".to_string(), ..files_app() };
    let action = proxy_handler(
        Some(&member()),
        &bound(app),
        "files.atrium.io:8080",
        &plain_config(),
        "/",
        None,
    );
    assert_eq!(header(&action, "authorization"), Some("Basic dTpw"));
}

#[test]
fn credentials_need_both_login_and_password() {
    let only_login = App { login: "u".to_string(), ..files_app() };
    let action = proxy_handler(
        Some(&member()),
        &bound(only_login),
        "files.atrium.io",
        &plain_config(),
        "/",
        None,
    );
    assert_eq!(header(&action, "authorization"), None);
    let only_password = App { password: "p".to_string(), ..files_app() };
    let action = proxy_handler(
        Some(&member()),
        &bound(only_password),
        "files.atrium.io",
        &plain_config(),
        "/",
        None,
    );
    assert_eq!(header(&action, "authorization"), None);
}

#[test]
fn credentials_are_encoded_as_utf8() {
    let app = App { login: "jos\u{e9}".to_string(), password: "s:3".to_string(), ..files_app() };
    let action =
        proxy_handler(Some(&member()), &bound(app), "files.atrium.io", &plain_config(), "/", None);
    assert_eq!(header(&action, "authorization"), Some("Basic am9zw6k6czoz"));
}

#[test]
fn forwarded_headers_only_when_upstream_has_a_port() {
    let with_port = App { target: "http://api.internal:9001/".to_string(), ..files_app() };
    let action = proxy_handler(
        Some(&member()),
        &bound(with_port),
        "files.atrium.io:8080",
        &plain_config(),
        "/",
        None,
    );
    assert_eq!(header(&action, "x-forwarded-host"), Some("files.atrium.io:8080"));
    assert_eq!(header(&action, "x-forwarded-proto"), Some("http"));

    let without_port = App { target: "http://api.internal/".to_string(), ..files_app() };
    let action = proxy_handler(
        Some(&member()),
        &bound(without_port),
        "files.atrium.io:8080",
        &plain_config(),
        "/",
        None,
    );
    assert_eq!(header(&action, "x-forwarded-host"), None);
    assert_eq!(header(&action, "x-forwarded-proto"), None);
    match action {
        ProxyAction::Forward(request) => assert!(request.headers.is_empty()),
        ProxyAction::Respond(_) => panic!("refused a member"),
    }
}

#[test]
fn request_goes_to_the_upstream_with_its_path_and_query() {
    let app = App { target: "https://api.internal:9001/ignored".to_string(), ..files_app() };
    let action = proxy_handler(
        Some(&member()),
        &bound(app),
        "files.atrium.io:8080",
        &plain_config(),
        "/a/b",
        Some("x=1&y=2"),
    );
    match action {
        ProxyAction::Forward(request) => {
            assert_eq!(request.uri, "https://api.internal:9001/a/b?x=1&y=2");
        }
        ProxyAction::Respond(_) => panic!("refused a member"),
    }
    let action = proxy_handler(
        Some(&member()),
        &bound(files_app()),
        "files.atrium.io:8080",
        &plain_config(),
        "/a",
        None,
    );
    match action {
        ProxyAction::Forward(request) => assert_eq!(request.uri, "http://127.0.0.1:9000/a"),
        ProxyAction::Respond(_) => panic!("refused a member"),
    }
}

#[test]
fn headers_come_in_a_fixed_order() {
    let app = App {
        login: "u".to_string(),
        password: "p".to_string(),
        forward_user_mail: true,
        ..files_app()
    };
    let user = UserTokenWithoutXSRFCheck(UserToken {
        roles: vec!["USERS".to_string()],
        info: Some(UserInfo { email: "ann@atrium.io".to_string(), ..Default::default() }),
        ..Default::default()
    });
    let action = proxy_handler(
        Some(&user),
        &bound(app),
        "files.atrium.io:8080",
        &plain_config(),
        "/",
        None,
    );
    match action {
        ProxyAction::Forward(request) => {
            let names: Vec<&str> = request.headers.iter().map(|h| h.name.as_str()).collect();
            assert_eq!(
                names,
                vec!["x-forwarded-host", "x-forwarded-proto", "authorization", "remote-user"]
            );
            assert_eq!(request.headers[3].value, "ann@atrium.io");
        }
        ProxyAction::Respond(_) => panic!("refused a member"),
    }
}

#[test]
fn user_mail_is_forwarded_only_where_asked_for_and_known() {
    let asks = App { forward_user_mail: true, ..files_app() };
    let action = proxy_handler(
        Some(&member()),
        &bound(asks.clone()),
        "files.atrium.io",
        &plain_config(),
        "/",
        None,
    );
    assert_eq!(header(&action, "remote-user"), None);
    let open = App { secured: false, ..asks };
    let action = proxy_handler(None, &bound(open), "files.atrium.io", &plain_config(), "/", None);
    assert_eq!(header(&action, "remote-user"), None);
    let known = UserTokenWithoutXSRFCheck(UserToken {
        roles: vec!["USERS".to_string()],
        info: Some(UserInfo { email: "ann@atrium.io".to_string(), ..Default::default() }),
        ..Default::default()
    });
    let action = proxy_handler(
        Some(&known),
        &bound(files_app()),
        "files.atrium.io",
        &plain_config(),
        "/",
        None,
    );
    assert_eq!(header(&action, "remote-user"), None);
}

#[test]
fn share_token_scoping() {
    let user = UserTokenWithoutXSRFCheck(UserToken {
        roles: vec!["USERS".to_string()],
        share: Some(Share {
            hostname: "files.atrium.io".to_string(),
            path: "/public/x.txt".to_string(),
            share_with: None,
            share_for_days: None,
        }),
        ..Default::default()
    });
    let app = bound(files_app());
    let config = plain_config();
    let allowed =
        proxy_handler(Some(&user), &app, "files.atrium.io:8080", &config, "/public/x.txt", None);
    assert!(matches!(allowed, ProxyAction::Forward(_)));
    let refused =
        proxy_handler(Some(&user), &app, "files.atrium.io:8080", &config, "/public/y.txt", None);
    match refused {
        ProxyAction::Respond(r) => assert_eq!(r.status, 403),
        ProxyAction::Forward(_) => panic!("share link opened another path"),
    }
}

fn three_apps() -> Config {
    Config {
        apps: vec![
            App { id: 3, name: "c".to_string(), ..Default::default() },
            App { id: 1, name: "a".to_string(), ..Default::default() },
            App { id: 3, name: "second c".to_string(), ..Default::default() },
        ],
        ..Default::default()
    }
}

#[test]
fn apps_are_listed_as_they_stand() {
    let names: Vec<String> = get_apps(three_apps()).into_iter().map(|a| a.name).collect();
    assert_eq!(names, vec!["c", "a", "second c"]);
}

#[test]
fn deleting_takes_the_first_app_of_that_id() {
    let config = delete_app(three_apps(), 3).unwrap();
    let names: Vec<&str> = config.apps.iter().map(|a| a.name.as_str()).collect();
    assert_eq!(names, vec!["a", "second c"]);
    assert_eq!(config.hostname, "atrium.io");
}

#[test]
fn deleting_an_unknown_app_is_an_error() {
    let error = delete_app(three_apps(), 2).unwrap_err();
    assert_eq!(error, AdminError::AppNotFound);
    assert_eq!(error.status(), 400);
    assert_eq!(error.message(), "app doesn't exist");
}

#[test]
fn adding_replaces_the_first_app_of_that_id_or_appends() {
    let changed = add_app(three_apps(), App { id: 3, name: "new".to_string(), ..Default::default() });
    let names: Vec<&str> = changed.apps.iter().map(|a| a.name.as_str()).collect();
    assert_eq!(names, vec!["new", "a", "second c"]);
    let grown = add_app(three_apps(), App { id: 7, name: "new".to_string(), ..Default::default() });
    let names: Vec<&str> = grown.apps.iter().map(|a| a.name.as_str()).collect();
    assert_eq!(names, vec!["c", "a", "second c", "new"]);
}

use atrium::apps::{get_apps, App};
use atrium::configuration::{AdminError, Config, TlsMode};
use atrium::cookies::SetCookie;
use atrium::users::{
    add_user, authenticate_local_user, create_user_cookie, delete_user, get_users, has_role,
    local_auth, user_to_token, whoami, AdminToken, AuthError, BasicReading, Credentials, LocalAuth,
    Plain, QueryReading, Reading, User, UserInfo, UserToken, UserTokenWithoutXSRFCheck,
    ADMINS_ROLE, AUTH_COOKIE, DAY, REDACTED, SHARE_TOKEN,
};

const NOW: i64 = 1_700_000_000;

fn ann() -> User {
    User {
        login: "ann".to_string(),
        password: "secret".to_string(),
        roles: vec!["USERS".to_string(), "ADMINS".to_string()],
        info: Some(UserInfo {
            firstname: "Ann".to_string(),
            lastname: "Lee".to_string(),
            email: "ann@atrium.io".to_string(),
        }),
    }
}

fn bob() -> User {
    User {
        login: "bob".to_string(),
        password: "hunter2".to_string(),
        roles: vec!["USERS".to_string()],
        info: None,
    }
}

fn config() -> Config {
    Config { users: vec![ann(), bob()], domain: "atrium.io".to_string(), ..Default::default() }
}

fn token(login: &str, xsrf: &str, expires: i64) -> UserToken {
    UserToken {
        login: login.to_string(),
        roles: vec!["USERS".to_string()],
        xsrf_token: xsrf.to_string(),
        expires,
        ..Default::default()
    }
}

fn nothing() -> Credentials {
    Credentials { cookie: None, xsrf_token: None, query: None, basic: None }
}

fn extract(c: &Credentials) -> Result<UserToken, AuthError> {
    UserToken::extract(c, &config(), NOW, "fresh-secret-16ch".to_string())
}

#[test]
fn names_of_the_gateway() {
    assert_eq!(AUTH_COOKIE, "ATRIUM_AUTH");
    assert_eq!(SHARE_TOKEN, "SHARE_TOKEN");
    assert_eq!(ADMINS_ROLE, "ADMINS");
    assert_eq!(REDACTED, "REDACTED");
    assert_eq!(DAY, 86400);
}

#[test]
fn every_error_has_its_status_and_words() {
    let all = [
        (AuthError::AuthCookieMissing, 401, "no user found or xsrf token not provided"),
        (AuthError::NoUserFound, 401, "no user found"),
        (AuthError::AuthCookieUnreadable, 500, "could not find user token"),
        (AuthError::AuthCookieUndecryptable, 500, "could not decrypt user token"),
        (AuthError::AuthTokenMalformed, 500, "could not deserialize user token"),
        (AuthError::AuthTokenExpired, 403, "user token is expired"),
        (AuthError::XsrfMismatch, 403, "xsrf token doesn't match"),
        (AuthError::UserUnknown, 401, "user does not exist"),
        (AuthError::BasicUserUnknown, 401, "no user found in basic auth"),
        (AuthError::NotAdmin, 401, "user is not in admin group"),
    ];
    for (error, status, message) in all {
        assert_eq!(error.status(), status);
        assert_eq!(error.message(), message);
    }
    let admin = [
        (AdminError::AppNotFound, 400, "app doesn't exist"),
        (AdminError::UserNotFound, 400, "user does not exist"),
        (AdminError::PasswordRequired, 406, "password is required"),
        (AdminError::ConfigUnreadable, 500, "could not read config file"),
        (AdminError::PersistenceFailed, 500, "could not save configuration"),
    ];
    for (error, status, message) in admin {
        assert_eq!(error.status(), status);
        assert_eq!(error.message(), message);
    }
}

#[test]
fn token_is_live_until_the_second_it_expires() {
    assert_eq!(token("ann", "x", NOW + 1).check_expires_at(NOW), Ok(token("ann", "x", NOW + 1)));
    assert_eq!(token("ann", "x", NOW).check_expires_at(NOW), Err(AuthError::AuthTokenExpired));
    assert_eq!(token("ann", "x", NOW - 1).check_expires_at(NOW), Err(AuthError::AuthTokenExpired));
    assert_eq!(
        token("ann", "x", i64::MIN).check_expires_at(i64::MIN),
        Err(AuthError::AuthTokenExpired)
    );
    assert_eq!(
        token("ann", "x", i64::MAX).check_expires_at(i64::MAX - 1),
        Ok(token("ann", "x", i64::MAX))
    );
}

#[test]
fn token_is_checked_against_the_clock() {
    assert_eq!(token("ann", "x", i64::MAX).check_expires(), Ok(token("ann", "x", i64::MAX)));
    assert_eq!(token("ann", "x", 0).check_expires(), Err(AuthError::AuthTokenExpired));
}

#[test]
fn value_without_a_token_is_malformed() {
    assert_eq!(UserToken::from_json(None, NOW), Err(AuthError::AuthTokenMalformed));
    assert_eq!(
        UserToken::from_json(Some(token("ann", "x", NOW + 5)), NOW),
        Ok(token("ann", "x", NOW + 5))
    );
    assert_eq!(
        UserToken::from_json(Some(token("ann", "x", NOW - 5)), NOW),
        Err(AuthError::AuthTokenExpired)
    );
}

#[test]
fn token_expires_after_the_configured_days() {
    let made = user_to_token(&ann(), &config(), NOW, "abcdefghijklmnop".to_string());
    assert_eq!(made.expires, NOW + 86400);
    assert_eq!(made.login, "ann");
    assert_eq!(made.roles, ann().roles);
    assert_eq!(made.xsrf_token, "abcdefghijklmnop");
    assert_eq!(made.share, None);
    assert_eq!(made.info, ann().info);
    let week = Config { session_duration_days: Some(7), ..config() };
    assert_eq!(user_to_token(&bob(), &week, 1000, String::new()).expires, 1000 + 7 * 86400);
    let past = Config { session_duration_days: Some(-1), ..config() };
    assert_eq!(user_to_token(&bob(), &past, 1000, String::new()).expires, 1000 - 86400);
    let none = Config { session_duration_days: Some(0), ..config() };
    assert_eq!(user_to_token(&bob(), &none, i64::MAX, String::new()).expires, i64::MAX);
}

#[test]
fn issued_token_is_refused_from_its_last_second_on() {
    let made = user_to_token(&ann(), &config(), NOW, "x".to_string());
    let cookie = |t: &UserToken| Credentials {
        cookie: Some(Reading::Token(t.clone())),
        xsrf_token: Some("x".to_string()),
        ..nothing()
    };
    let at = |now: i64| UserToken::extract(&cookie(&made), &config(), now, String::new());
    assert_eq!(at(NOW + 86400 - 1), Ok(made.clone()));
    assert_eq!(at(NOW + 86400), Err(AuthError::AuthTokenExpired));
    assert_eq!(at(NOW + 86400 + 1), Err(AuthError::AuthTokenExpired));
    assert_eq!(
        UserTokenWithoutXSRFCheck::extract(&Some(Reading::Token(made.clone())), NOW + 86400 + 1),
        Err(AuthError::AuthTokenExpired)
    );
}

#[test]
fn cookie_with_matching_header_is_the_user() {
    let c = Credentials {
        cookie: Some(Reading::Token(token("ann", "s3cret", NOW + 10))),
        xsrf_token: Some("s3cret".to_string()),
        ..nothing()
    };
    assert_eq!(extract(&c), Ok(token("ann", "s3cret", NOW + 10)));
}

#[test]
fn xsrf_mismatch() {
    let c = Credentials {
        cookie: Some(Reading::Token(token("ann", "s3cret", NOW + 10))),
        xsrf_token: Some("wrong".to_string()),
        ..nothing()
    };
    let error = extract(&c).unwrap_err();
    assert_eq!(error, AuthError::XsrfMismatch);
    assert_eq!(error.status(), 403);
    assert_eq!(error.message(), "xsrf token doesn't match");
}

#[test]
fn expiry_is_found_before_the_header_is_compared() {
    let c = Credentials {
        cookie: Some(Reading::Token(token("ann", "s3cret", NOW))),
        xsrf_token: Some("wrong".to_string()),
        ..nothing()
    };
    assert_eq!(extract(&c), Err(AuthError::AuthTokenExpired));
}

#[test]
fn cookie_that_holds_no_token_ends_the_search() {
    let c = Credentials {
        cookie: Some(Reading::Failed(AuthError::AuthTokenMalformed)),
        xsrf_token: Some("x".to_string()),
        query: Some(QueryReading {
            session: Reading::Token(token("bob", "q", NOW + 10)),
            share: Reading::Failed(AuthError::AuthCookieUndecryptable),
        }),
        ..nothing()
    };
    assert_eq!(extract(&c), Err(AuthError::AuthTokenMalformed));
}

#[test]
fn cookie_without_header_does_not_count() {
    let c = Credentials {
        cookie: Some(Reading::Token(token("ann", "s3cret", NOW + 10))),
        ..nothing()
    };
    assert_eq!(extract(&c), Err(AuthError::AuthCookieMissing));
    let with_query = Credentials {
        query: Some(QueryReading {
            session: Reading::Token(token("bob", "q", NOW + 10)),
            share: Reading::Failed(AuthError::AuthCookieUndecryptable),
        }),
        ..c
    };
    assert_eq!(extract(&with_query), Ok(token("bob", "q", NOW + 10)));
}

#[test]
fn header_without_cookie_does_not_count() {
    let c = Credentials { xsrf_token: Some("x".to_string()), ..nothing() };
    assert_eq!(extract(&c), Err(AuthError::AuthCookieMissing));
}

#[test]
fn query_token_is_a_session_or_else_a_share() {
    let session_fails = |share: Reading| Credentials {
        query: Some(QueryReading {
            session: Reading::Failed(AuthError::AuthCookieUndecryptable),
            share,
        }),
        basic: Some(BasicReading {
            username: "ann".to_string(),
            session: Reading::Token(token("ann", "b", NOW + 10)),
        }),
        ..nothing()
    };
    assert_eq!(
        extract(&session_fails(Reading::Token(token("guest", "", NOW + 10)))),
        Ok(token("guest", "", NOW + 10))
    );
    assert_eq!(
        extract(&session_fails(Reading::Token(token("guest", "", NOW)))),
        Err(AuthError::AuthTokenExpired)
    );
    assert_eq!(
        extract(&session_fails(Reading::Failed(AuthError::AuthCookieUnreadable))),
        Err(AuthError::AuthCookieUnreadable)
    );
    let expired_session = Credentials {
        query: Some(QueryReading {
            session: Reading::Token(token("bob", "q", NOW - 1)),
            share: Reading::Token(token("guest", "", NOW + 10)),
        }),
        ..nothing()
    };
    assert_eq!(extract(&expired_session), Ok(token("guest", "", NOW + 10)));
}

#[test]
fn basic_password_is_a_session_or_else_the_name_is_a_local_user() {
    let by_token = Credentials {
        basic: Some(BasicReading {
            username: "nobody".to_string(),
            session: Reading::Token(token("bob", "b", NOW + 10)),
        }),
        ..nothing()
    };
    assert_eq!(extract(&by_token), Ok(token("bob", "b", NOW + 10)));
    let by_name = Credentials {
        basic: Some(BasicReading {
            username: "bob".to_string(),
            session: Reading::Failed(AuthError::AuthCookieUndecryptable),
        }),
        ..nothing()
    };
    assert_eq!(
        extract(&by_name),
        Ok(UserToken {
            login: "bob".to_string(),
            roles: vec!["USERS".to_string()],
            xsrf_token: "fresh-secret-16ch".to_string(),
            share: None,
            expires: NOW + 86400,
            info: None,
        })
    );
    let unknown = Credentials {
        basic: Some(BasicReading {
            username: "nobody".to_string(),
            session: Reading::Token(token("bob", "b", NOW)),
        }),
        ..nothing()
    };
    let error = extract(&unknown).unwrap_err();
    assert_eq!(error, AuthError::BasicUserUnknown);
    assert_eq!((error.status(), error.message()), (401, "no user found in basic auth"));
}

#[test]
fn request_without_credentials_is_unauthorized() {
    let error = extract(&nothing()).unwrap_err();
    assert_eq!(error, AuthError::AuthCookieMissing);
    assert_eq!(error.status(), 401);
}

#[test]
fn relaxed_rules_go_by_the_cookie_alone() {
    let live = Some(Reading::Token(token("ann", "s3cret", NOW + 10)));
    assert_eq!(
        UserTokenWithoutXSRFCheck::extract(&live, NOW),
        Ok(UserTokenWithoutXSRFCheck(token("ann", "s3cret", NOW + 10)))
    );
    let error = UserTokenWithoutXSRFCheck::extract(&None, NOW).unwrap_err();
    assert_eq!((error, error.status(), error.message()), (AuthError::NoUserFound, 401, "no user found"));
    assert_eq!(
        UserTokenWithoutXSRFCheck::extract(
            &Some(Reading::Failed(AuthError::AuthTokenMalformed)),
            NOW
        ),
        Err(AuthError::AuthTokenMalformed)
    );
    assert_eq!(UserTokenWithoutXSRFCheck::default().0, UserToken::default());
}

#[test]
fn reading_is_what_the_decoder_made_of_an_opened_value() {
    let text = Plain::Text("{}".to_string());
    assert_eq!(Reading::of(&text, Some(token("a", "", 1))), Reading::Token(token("a", "", 1)));
    assert_eq!(Reading::of(&text, None), Reading::Failed(AuthError::AuthTokenMalformed));
    let failed = Plain::Failed(AuthError::AuthCookieUndecryptable);
    assert_eq!(
        Reading::of(&failed, Some(token("a", "", 1))),
        Reading::Failed(AuthError::AuthCookieUndecryptable)
    );
    assert_eq!(Reading::Token(token("a", "", NOW + 1)).settle(NOW), Ok(token("a", "", NOW + 1)));
    assert_eq!(Reading::Token(token("a", "", NOW)).settle(NOW), Err(AuthError::AuthTokenExpired));
    assert_eq!(
        Reading::Failed(AuthError::AuthCookieUnreadable).settle(NOW),
        Err(AuthError::AuthCookieUnreadable)
    );
}

#[test]
fn administrator_needs_the_role() {
    let admin = UserToken { roles: ann().roles, ..token("ann", "x", NOW + 10) };
    let made = AdminToken::new(admin.clone()).unwrap();
    assert_eq!(made.token(), &admin);
    assert_eq!(AdminToken::new(token("bob", "x", NOW + 10)).err(), Some(AuthError::NotAdmin));
    let lower = UserToken { roles: vec!["admins".to_string()], ..token("eve", "x", NOW + 10) };
    assert_eq!(AdminToken::new(lower).err(), Some(AuthError::NotAdmin));
}

#[test]
fn authenticated_admin_hits_admin_api() {
    let session = user_to_token(&ann(), &config(), NOW, "xsrf".to_string());
    let c = Credentials {
        cookie: Some(Reading::Token(session.clone())),
        xsrf_token: Some("xsrf".to_string()),
        ..nothing()
    };
    let admin = AdminToken::extract(&c, &config(), NOW + 1, String::new()).unwrap();
    assert_eq!(admin.token(), &session);
    let mut stored = Config {
        apps: vec![
            App { id: 2, ..Default::default() },
            App { id: 0, ..Default::default() },
            App { id: 1, ..Default::default() },
        ],
        ..config()
    };
    stored.sort_apps();
    let ids: Vec<usize> = get_apps(stored).into_iter().map(|a| a.id).collect();
    assert_eq!(ids, vec![0, 1, 2]);
    let wrong = Credentials { xsrf_token: Some("wrong".to_string()), ..c };
    let error = AdminToken::extract(&wrong, &config(), NOW + 1, String::new()).err().unwrap();
    assert_eq!((error.status(), error.message()), (403, "xsrf token doesn't match"));
}

#[test]
fn user_who_is_no_administrator_is_unauthorized() {
    let session = user_to_token(&bob(), &config(), NOW, "xsrf".to_string());
    let c = Credentials {
        cookie: Some(Reading::Token(session)),
        xsrf_token: Some("xsrf".to_string()),
        ..nothing()
    };
    let error = AdminToken::extract(&c, &config(), NOW + 1, String::new()).err().unwrap();
    assert_eq!(error, AuthError::NotAdmin);
    assert_eq!((error.status(), error.message()), (401, "user is not in admin group"));
}

#[test]
fn role_is_looked_up_exactly() {
    assert!(has_role(&ann().roles, "ADMINS"));
    assert!(!has_role(&ann().roles, "ADMIN"));
    assert!(!has_role(&bob().roles, "ADMINS"));
    assert!(!has_role(&vec![], ""));
}

#[test]
fn login_finds_the_first_user_of_that_name() {
    let twice = Config { users: vec![bob(), ann(), User { roles: vec![], ..bob() }], ..config() };
    let payload = LocalAuth { login: "bob".to_string() };
    let (user, made) = authenticate_local_user(&twice, payload, NOW, "x".to_string()).unwrap();
    assert_eq!(user, &bob());
    assert_eq!(made.roles, bob().roles);
    assert_eq!(made.expires, NOW + 86400);
    let unknown = LocalAuth { login: "Bob".to_string() };
    let error = authenticate_local_user(&twice, unknown, NOW, "x".to_string()).unwrap_err();
    assert_eq!((error, error.status(), error.message()), (AuthError::UserUnknown, 401, "user does not exist"));
}

#[test]
fn login_answers_with_token_and_admin_flag() {
    let (made, answer) =
        local_auth(&config(), LocalAuth { login: "ann".to_string() }, NOW, "0123456789abcdef".to_string())
            .unwrap();
    assert_eq!(made, user_to_token(&ann(), &config(), NOW, "0123456789abcdef".to_string()));
    assert!(answer.is_admin);
    assert_eq!(answer.xsrf_token, "0123456789abcdef");
    let (_, answer) =
        local_auth(&config(), LocalAuth { login: "bob".to_string() }, NOW, "x".to_string()).unwrap();
    assert!(!answer.is_admin);
    assert_eq!(
        local_auth(&config(), LocalAuth { login: String::new() }, NOW, "x".to_string()).err(),
        Some(AuthError::UserUnknown)
    );
}

#[test]
fn session_cookie_has_the_attributes_of_a_session() {
    let cookie = create_user_cookie("{\"login\":\"ann\"}".to_string(), &config());
    assert_eq!(
        cookie,
        SetCookie {
            name: "ATRIUM_AUTH".to_string(),
            value: "{\"login\":\"ann\"}".to_string(),
            domain: "atrium.io".to_string(),
            path: "/".to_string(),
            secure: false,
            http_only: true,
            max_age: 86400,
        }
    );
    let tls = Config {
        tls_mode: TlsMode::BehindProxy,
        session_duration_days: Some(30),
        ..config()
    };
    let cookie = create_user_cookie(String::new(), &tls);
    assert!(cookie.secure);
    assert_eq!(cookie.max_age, 30 * 86400);
    assert_eq!(cookie.clone(), cookie);
}

#[test]
fn whoami_blanks_the_password() {
    let session = user_to_token(&ann(), &config(), NOW, "x".to_string());
    assert_eq!(whoami(session), User { password: "REDACTED".to_string(), ..ann() });
}

#[test]
fn users_are_listed_as_they_stand() {
    assert_eq!(get_users(config()), vec![ann(), bob()]);
}

#[test]
fn deleting_takes_the_first_user_of_that_login() {
    let left = delete_user(config(), "ann").unwrap();
    assert_eq!(left.users, vec![bob()]);
    assert_eq!(left.domain, "atrium.io");
    let error = delete_user(config(), "Ann").unwrap_err();
    assert_eq!((error, error.status(), error.message()), (AdminError::UserNotFound, 400, "user does not exist"));
}

#[test]
fn changed_user_keeps_the_password_unless_a_new_one_comes() {
    let no_password = User { password: String::new(), roles: vec![], ..ann() };
    let changed = add_user(config(), no_password).unwrap();
    assert_eq!(changed.users, vec![User { roles: vec![], ..ann() }, bob()]);
    let new_password = User { password: "new".to_string(), ..bob() };
    let changed = add_user(config(), new_password.clone()).unwrap();
    assert_eq!(changed.users, vec![ann(), new_password]);
}

#[test]
fn new_user_needs_a_password() {
    let eve = User { login: "eve".to_string(), password: "pw".to_string(), ..Default::default() };
    let grown = add_user(config(), eve.clone()).unwrap();
    assert_eq!(grown.users, vec![ann(), bob(), eve.clone()]);
    let error = add_user(config(), User { password: String::new(), ..eve }).unwrap_err();
    assert_eq!((error, error.status(), error.message()), (AdminError::PasswordRequired, 406, "password is required"));
}

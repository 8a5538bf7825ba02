use atrium::configuration::Config;
use atrium::cookies::CookieKey;
use atrium::users::{
    cookie_from_password, seal_token, session_cookie, AuthError, Basic, Credentials, OpenedBasic,
    OpenedQuery, Plain, Presented, QueryReading, Reading, UserToken,
};

const SECRET: [u8; 64] = [
    89, 202, 200, 125, 230, 90, 197, 245, 166, 249, 34, 169, 135, 31, 20, 197, 94, 154, 254, 79,
    60, 26, 8, 143, 254, 24, 116, 138, 92, 225, 159, 60, 157, 41, 135, 129, 31, 226, 196, 16, 198,
    168, 134, 4, 42, 1, 196, 24, 57, 103, 241, 147, 201, 185, 233, 10, 180, 170, 187, 89, 252, 137,
    110, 107,
];

const SEALED: &str = "lObeZJorGVyeSWUA8khTO/8UCzFVBY9g0MGU6/J3NN1R5x11dn2JIA==";

fn key() -> CookieKey {
    CookieKey::new(&SECRET).unwrap()
}

fn other_key() -> CookieKey {
    CookieKey::from_secret(&"k".repeat(64)).unwrap()
}

#[test]
fn key_takes_64_bytes_or_more() {
    assert!(CookieKey::new(&SECRET[..63]).is_none());
    assert!(CookieKey::new(&[]).is_none());
    assert_eq!(key().as_bytes(), &SECRET[..]);
    let long: Vec<u8> = (0..100).collect();
    assert_eq!(CookieKey::new(&long).unwrap().as_bytes(), &long[..]);
    assert!(CookieKey::from_secret(&"k".repeat(63)).is_none());
    assert_eq!(other_key().as_bytes(), "k".repeat(64).as_bytes());
    let accents = "\u{e9}".repeat(32);
    assert_eq!(CookieKey::from_secret(&accents).unwrap().as_bytes().len(), 64);
    assert!(CookieKey::from_secret(&"\u{e9}".repeat(31)).is_none());
}

#[test]
fn sealed_value_opens_under_its_name_and_key() {
    assert_eq!(
        cookie_from_password("encrypted_with_ring014", &key(), SEALED),
        Plain::Text("Tamper-proof".to_string())
    );
}

#[test]
fn sealed_value_does_not_open_under_another_name_or_key() {
    let failed = Plain::Failed(AuthError::AuthCookieUndecryptable);
    assert_eq!(cookie_from_password("ATRIUM_AUTH", &key(), SEALED), failed);
    assert_eq!(cookie_from_password("encrypted_with_ring014", &other_key(), SEALED), failed);
    assert_eq!(cookie_from_password("encrypted_with_ring014", &key(), "Tamper-proof"), failed);
    assert_eq!(cookie_from_password("encrypted_with_ring014", &key(), ""), failed);
}

#[test]
fn percent_signs_are_decoded_before_the_value_is_opened() {
    let encoded = SEALED.replace('/', "%2F").replace('=', "%3D");
    assert_ne!(encoded, SEALED);
    assert_eq!(
        cookie_from_password("encrypted_with_ring014", &key(), &encoded),
        Plain::Text("Tamper-proof".to_string())
    );
    let with_attributes = format!("{}; Path=/", SEALED);
    assert_eq!(
        cookie_from_password("encrypted_with_ring014", &key(), &with_attributes),
        Plain::Text("Tamper-proof".to_string())
    );
}

#[test]
fn token_that_spells_no_cookie_is_unreadable() {
    let unreadable = Plain::Failed(AuthError::AuthCookieUnreadable);
    assert_eq!(cookie_from_password("", &key(), SEALED), unreadable);
    assert_eq!(cookie_from_password("a", &key(), "%ff"), unreadable);
}

#[test]
fn what_is_sealed_opens_again() {
    let text = "{\"login\":\"ann\",\"roles\":[\"USERS\"],\"expires\":1700086400}";
    let first = seal_token(&key(), "ATRIUM_AUTH", text).unwrap();
    let second = seal_token(&key(), "ATRIUM_AUTH", text).unwrap();
    assert_ne!(first, text);
    assert_ne!(first, second);
    assert_eq!(cookie_from_password("ATRIUM_AUTH", &key(), &first), Plain::Text(text.to_string()));
    assert_eq!(cookie_from_password("ATRIUM_AUTH", &key(), &second), Plain::Text(text.to_string()));
    assert_eq!(
        cookie_from_password("SHARE_TOKEN", &key(), &first),
        Plain::Failed(AuthError::AuthCookieUndecryptable)
    );
    assert_eq!(
        cookie_from_password("ATRIUM_AUTH", &other_key(), &first),
        Plain::Failed(AuthError::AuthCookieUndecryptable)
    );
    let empty = seal_token(&key(), "ATRIUM_AUTH", "").unwrap();
    assert_eq!(cookie_from_password("ATRIUM_AUTH", &key(), &empty), Plain::Text(String::new()));
}

#[test]
fn session_cookie_is_found_among_the_cookie_headers() {
    let sealed = seal_token(&key(), "ATRIUM_AUTH", "the token").unwrap();
    let other = seal_token(&key(), "OTHER", "something else").unwrap();
    let headers = vec![
        "theme=dark; lang=en".to_string(),
        format!("OTHER={}; ATRIUM_AUTH={}", other, sealed),
    ];
    assert_eq!(session_cookie(&key(), &headers), Some("the token".to_string()));
    assert_eq!(session_cookie(&other_key(), &headers), None);
    assert_eq!(session_cookie(&key(), &vec!["theme=dark".to_string()]), None);
    assert_eq!(session_cookie(&key(), &vec![]), None);
    assert_eq!(session_cookie(&key(), &vec![format!("ATRIUM_AUTH={}", other)]), None);
    assert_eq!(session_cookie(&key(), &vec!["ATRIUM_AUTH=the token".to_string()]), None);
}

#[test]
fn last_session_cookie_that_opens_stands() {
    let first = seal_token(&key(), "ATRIUM_AUTH", "first").unwrap();
    let second = seal_token(&key(), "ATRIUM_AUTH", "second").unwrap();
    let headers = vec![
        format!("ATRIUM_AUTH={}", first),
        format!("ATRIUM_AUTH={}; ATRIUM_AUTH=garbage", second),
    ];
    assert_eq!(session_cookie(&key(), &headers), Some("second".to_string()));
}

#[test]
fn credentials_are_opened_each_under_its_name() {
    let session = seal_token(&key(), "ATRIUM_AUTH", "session").unwrap();
    let share = seal_token(&key(), "SHARE_TOKEN", "share").unwrap();
    let presented = Presented {
        cookies: vec![format!("ATRIUM_AUTH={}", session)],
        xsrf_token: Some("x".to_string()),
        query_token: Some(share.clone()),
        basic: Some(Basic { username: "ann".to_string(), password: session.clone() }),
    };
    let opened = presented.open(&key());
    assert_eq!(opened.cookie, Some("session".to_string()));
    assert_eq!(opened.xsrf_token, Some("x".to_string()));
    assert_eq!(
        opened.query,
        Some(OpenedQuery {
            session: Plain::Failed(AuthError::AuthCookieUndecryptable),
            share: Plain::Text("share".to_string()),
        })
    );
    assert_eq!(
        opened.basic,
        Some(OpenedBasic { username: "ann".to_string(), session: Plain::Text("session".to_string()) })
    );
    let nothing =
        Presented { cookies: vec![], xsrf_token: None, query_token: None, basic: None }.open(&key());
    assert_eq!((nothing.cookie, nothing.xsrf_token, nothing.query, nothing.basic), (None, None, None, None));
}

fn decode(text: &str) -> Option<UserToken> {
    let (login, expires) = text.split_once('@')?;
    Some(UserToken { login: login.to_string(), expires: expires.parse().ok()?, ..Default::default() })
}

#[test]
fn share_link_leads_to_its_token() {
    let share = seal_token(&key(), "SHARE_TOKEN", "guest@2000").unwrap();
    let presented =
        Presented { cookies: vec![], xsrf_token: None, query_token: Some(share), basic: None };
    let opened = presented.open(&key());
    let query = opened.query.as_ref().unwrap();
    let as_share = match &query.share {
        Plain::Text(t) => decode(t),
        Plain::Failed(_) => None,
    };
    let credentials = opened.decoded(None, None, as_share, None);
    assert_eq!(
        credentials,
        Credentials {
            cookie: None,
            xsrf_token: None,
            query: Some(QueryReading {
                session: Reading::Failed(AuthError::AuthCookieUndecryptable),
                share: Reading::Token(decode("guest@2000").unwrap()),
            }),
            basic: None,
        }
    );
    let config = Config::default();
    assert_eq!(
        UserToken::extract(&credentials, &config, 1999, String::new()),
        Ok(decode("guest@2000").unwrap())
    );
    assert_eq!(
        UserToken::extract(&credentials, &config, 2000, String::new()),
        Err(AuthError::AuthTokenExpired)
    );
}

#[test]
fn opened_cookie_that_holds_no_token_is_malformed() {
    let session = seal_token(&key(), "ATRIUM_AUTH", "not a token").unwrap();
    let presented = Presented {
        cookies: vec![format!("ATRIUM_AUTH={}", session)],
        xsrf_token: Some("x".to_string()),
        query_token: None,
        basic: None,
    };
    let opened = presented.open(&key());
    let token = decode(opened.cookie.as_ref().unwrap());
    assert_eq!(token, None);
    let credentials = opened.decoded(token, None, None, None);
    assert_eq!(credentials.cookie, Some(Reading::Failed(AuthError::AuthTokenMalformed)));
    assert_eq!(
        UserToken::extract(&credentials, &Config::default(), 0, String::new()),
        Err(AuthError::AuthTokenMalformed)
    );
}

#[test]
fn tokens_are_looked_at_only_where_their_text_is_there() {
    let presented = Presented {
        cookies: vec![],
        xsrf_token: None,
        query_token: None,
        basic: Some(Basic { username: "ann".to_string(), password: "pw".to_string() }),
    };
    let stray = decode("stray@9");
    let credentials =
        presented.open(&key()).decoded(stray.clone(), stray.clone(), stray.clone(), stray);
    assert_eq!(credentials.cookie, None);
    assert_eq!(credentials.query, None);
    let basic = credentials.basic.unwrap();
    assert_eq!(basic.username, "ann");
    assert_eq!(basic.session, Reading::Failed(AuthError::AuthCookieUndecryptable));
}

#[test]
fn every_name_but_the_empty_one_can_be_sealed() {
    let names = [
        "ATRIUM_AUTH",
        "SHARE_TOKEN",
        "a",
        " ",
        "  padded  ",
        "\t",
        "a b",
        "a=b",
        "=",
        "a;b",
        ";",
        "%41",
        "%",
        "%zz",
        "\"quoted\"",
        "\"",
        "caf\u{e9}",
        "\u{a0}",
        "\u{1f36a}",
        "line\nbreak",
        "\u{7f}",
        "a,b(c)",
    ];
    for name in names {
        for text in ["", "text", "{\"a\":\"b; c=d\"}", "caf\u{e9}\n\u{0}", " \"x\" "] {
            let sealed = seal_token(&key(), name, text);
            assert!(sealed.is_some(), "nothing came out for the name {:?}", name);
            assert_ne!(sealed.as_deref(), Some(text));
        }
    }
    assert_eq!(seal_token(&key(), "", "text"), None);
    assert_eq!(seal_token(&key(), "", ""), None);
}

#[test]
fn long_text_can_be_sealed_and_opens_again() {
    let text = "x".repeat(100_000);
    let sealed = seal_token(&key(), "ATRIUM_AUTH", &text).unwrap();
    assert_eq!(cookie_from_password("ATRIUM_AUTH", &key(), &sealed), Plain::Text(text));
}

#[test]
fn what_is_sealed_under_a_name_with_a_space_opens_again() {
    let sealed = seal_token(&key(), "a b", "caf\u{e9}; x=\"y\"").unwrap();
    assert_eq!(
        cookie_from_password("a b", &key(), &sealed),
        Plain::Text("caf\u{e9}; x=\"y\"".to_string())
    );
    let headers = vec![format!("ATRIUM_AUTH={}", seal_token(&key(), "ATRIUM_AUTH", " t ").unwrap())];
    assert_eq!(session_cookie(&key(), &headers), Some(" t ".to_string()));
}

#[test]
fn sealed_value_opens_under_the_name_it_was_sealed_for() {
    let names = ["caf\u{e9}", "\u{1f36a}", "a,b(c)", "a b", "\u{7f}", "line\nbreak", "x"];
    for name in names {
        let sealed = seal_token(&key(), name, "the text").unwrap();
        assert_eq!(
            cookie_from_password(name, &key(), &sealed),
            Plain::Text("the text".to_string()),
            "under the name {:?}",
            name
        );
        for other in names {
            if other != name {
                assert_eq!(
                    cookie_from_password(other, &key(), &sealed),
                    Plain::Failed(AuthError::AuthCookieUndecryptable)
                );
            }
        }
    }
}

use xunlei::auth::{
    authentication, authorize, authorize_at, cookie_tokens_of, post_login_at, reaches_gateway,
    route, session_cookie, Access, LoginReply, Route,
};
use xunlei::token::{issue_token_at, verify_token_at, AuthError, IssueError, TOKEN_TTL};

const SECRET: &str = "1234567890987654321";
const T0: u64 = 1_700_000_000;

#[test]
fn token_round_trip_until_expiry() {
    let t = issue_token_at(SECRET, T0).unwrap();
    assert_eq!(verify_token_at(&t, SECRET, T0), Ok(()));
    assert_eq!(verify_token_at(&t, SECRET, T0 + TOKEN_TTL - 1), Ok(()));
    assert_eq!(verify_token_at(&t, SECRET, T0 + TOKEN_TTL), Err(AuthError::Expired));
    assert_eq!(verify_token_at(&t, SECRET, T0 + 10 * TOKEN_TTL), Err(AuthError::Expired));
}

#[test]
fn token_under_other_secret_is_refused() {
    let t = issue_token_at(SECRET, T0).unwrap();
    assert_eq!(verify_token_at(&t, "other", T0), Err(AuthError::InvalidSignature));
}

#[test]
fn tampered_token_is_refused() {
    let t = issue_token_at(SECRET, T0).unwrap();
    let mut parts: Vec<String> = t.split('.').map(|s| s.to_string()).collect();
    let later = issue_token_at(SECRET, T0 + 1000).unwrap();
    parts[1] = later.split('.').nth(1).unwrap().to_string();
    let forged = parts.join(".");
    assert_eq!(verify_token_at(&forged, SECRET, T0), Err(AuthError::InvalidSignature));
    assert_eq!(verify_token_at("garbage", SECRET, T0), Err(AuthError::Malformed));
}

#[test]
fn token_expiry_overflow_is_clock_error() {
    assert_eq!(issue_token_at(SECRET, u64::MAX - 5), Err(IssueError::Clock));
    assert!(issue_token_at(SECRET, u64::MAX - TOKEN_TTL).is_ok());
    let t = issue_token_at(SECRET, T0).unwrap();
    assert_eq!(t.matches('.').count(), 2);
    assert!(t.chars().all(|c| c.is_ascii_alphanumeric() || c == '-' || c == '_' || c == '.'));
}

#[test]
fn no_credential_forwards_everything() {
    assert_eq!(authorize_at(false, None, SECRET, T0), Access::Forward);
    assert_eq!(authorize_at(false, Some("access_token=junk"), SECRET, T0), Access::Forward);
    assert_eq!(authorize(false, None, SECRET), Access::Forward);
}

#[test]
fn credential_requires_valid_token() {
    let t = issue_token_at(SECRET, T0).unwrap();
    let cookie = format!("lang=en; access_token={t}");
    assert_eq!(authorize_at(true, None, SECRET, T0), Access::RedirectLogin);
    assert_eq!(authorize_at(true, Some("lang=en"), SECRET, T0), Access::RedirectLogin);
    assert_eq!(authorize_at(true, Some(&cookie), SECRET, T0 + 5), Access::Forward);
    assert_eq!(authorize_at(true, Some(&cookie), SECRET, T0 + TOKEN_TTL), Access::RedirectLogin);
    let tampered = format!("access_token={}x", t);
    assert_eq!(authorize_at(true, Some(&tampered), SECRET, T0), Access::RedirectLogin);
}

#[test]
fn fresh_token_is_forwarded_now() {
    let t = xunlei::token::generate_token(SECRET).unwrap();
    let cookie = format!("access_token={t}");
    assert_eq!(authorize(true, Some(&cookie), SECRET), Access::Forward);
}

#[test]
fn cookie_tokens_are_read_in_order() {
    let ts = cookie_tokens_of(" a=1;access_token=abc ; ;access_token=def;access_tokenx=zz;access_token=a=b");
    assert_eq!(ts, vec!["abc".to_string(), "def".to_string()]);
    let t = issue_token_at(SECRET, T0).unwrap();
    assert_eq!(cookie_tokens_of(&format!("theme=dark; access_token={t}")), vec![t]);
    assert!(cookie_tokens_of("").is_empty());
}

#[test]
fn login_checks_credential() {
    assert!(authentication(None, "anything"));
    assert!(authentication(Some("pw"), "pw"));
    assert!(!authentication(Some("pw"), "PW"));
    assert_eq!(post_login_at(Some("pw"), "nope", SECRET, T0), LoginReply::Refuse);
    match post_login_at(Some("pw"), "pw", SECRET, T0) {
        LoginReply::Admit(c) => {
            let t = issue_token_at(SECRET, T0).unwrap();
            assert_eq!(c, format!("access_token={t}; Max-Age=86400; Path=/; HttpOnly"));
        }
        _ => panic!("a matching credential was refused"),
    }
    assert_eq!(post_login_at(Some("pw"), "pw", SECRET, u64::MAX), LoginReply::Unavailable);
    assert_eq!(post_login_at(None, "", SECRET, T0), post_login_at(Some(""), "", SECRET, T0));
}

#[test]
fn login_now_hands_out_a_working_cookie() {
    match xunlei::auth::post_login(Some("pw"), "pw", SECRET) {
        LoginReply::Admit(c) => {
            let token = c.split(';').next().unwrap().to_string();
            assert_eq!(authorize(true, Some(&token), SECRET), Access::Forward);
            assert!(xunlei::token::verify_token(&token["access_token=".len()..], SECRET).is_ok());
        }
        _ => panic!("a matching credential was refused"),
    }
    assert_eq!(xunlei::auth::post_login(Some("pw"), "x", SECRET), LoginReply::Refuse);
}

#[test]
fn session_cookie_attributes() {
    assert_eq!(session_cookie("tok"), "access_token=tok; Max-Age=86400; Path=/; HttpOnly");
}

#[test]
fn routes() {
    assert_eq!(route("GET", "/login"), Route::LoginPage);
    assert_eq!(route("POST", "/login"), Route::LoginSubmit);
    assert_eq!(route("GET", "/webman/login.cgi"), Route::WebmanLogin);
    assert_eq!(route("POST", "/webman/login.cgi"), Route::Protected);
    assert_eq!(route("GET", "/"), Route::Protected);
    assert!(reaches_gateway("/webman/3rdparty/pan-xunlei-com/index.cgi/device/now?x=1"));
    assert!(!reaches_gateway("/"));
}

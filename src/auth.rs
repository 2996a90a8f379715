//! Access control in front of the gateway: the session cookie, the login
//! form, and which requests reach the CGI program.

use crate::text::{
    contains, contains_str, decimal, find_char, first_char, is_ows, lemma_first_char, str_eq, trim,
    trim_end, trim_start,
    trimmed, u64_decimal,
};
use crate::token::{
    hs256_token, is_token_char, token_chars, issue_token_at, now_secs, token_verdict, verify_token_at, TOKEN_TTL,
};
use vstd::prelude::*;
use vstd::string::*;

verus! {

/// The cookie that carries the access token.
pub const ACCESS_COOKIE: &'static str = "access_token";

/// The path of the login page and of the login form's submission.
pub const LOGIN_PATH: &'static str = "/login";

/// The path of the legacy login stub, served without authentication.
pub const WEBMAN_LOGIN_PATH: &'static str = "/webman/login.cgi";

/// The body the legacy login stub answers with.
pub const WEBMAN_LOGIN_BODY: &'static str = "{\"SynoToken\", \"\"}";

/// The application's home path; requests elsewhere are sent there.
pub const WEB_UI_HOME: &'static str = "/webman/3rdparty/pan-xunlei-com/index.cgi/";

/// The access token that one `name=value` cookie carries, if it is the
/// access cookie and its value holds no further `=`.
pub open spec fn cookie_token(seg: Seq<char>) -> Seq<Seq<char>> {
    let t = trim(seg);
    match first_char(t, '=', 0) {
        Some(e) => if t.subrange(0, e) == ACCESS_COOKIE@ && first_char(
            t.subrange(e + 1, t.len() as int),
            '=',
            0,
        ) is None {
            seq![t.subrange(e + 1, t.len() as int)]
        } else {
            Seq::empty()
        },
        None => Seq::empty(),
    }
}

/// The access tokens of a `Cookie` header, reading from `p`; the cookie
/// being read began at `start`.
pub open spec fn tokens_from(s: Seq<char>, p: int, start: int) -> Seq<Seq<char>>
    decreases s.len() - p,
{
    if p < 0 || p >= s.len() {
        cookie_token(s.subrange(start, s.len() as int))
    } else if s[p] == ';' {
        cookie_token(s.subrange(start, p)) + tokens_from(s, p + 1, p + 1)
    } else {
        tokens_from(s, p + 1, start)
    }
}

/// The access tokens of a `Cookie` header, in order: the values of its
/// `access_token` cookies. Cookies are separated by `;` and may be
/// surrounded by spaces.
pub open spec fn cookie_tokens(s: Seq<char>) -> Seq<Seq<char>> {
    tokens_from(s, 0, 0)
}

proof fn lemma_tokens_shift(a: Seq<char>, b: Seq<char>, p: int, start: int)
    requires
        0 <= start <= p <= b.len(),
    ensures
        tokens_from(a + seq![';'] + b, p + a.len() + 1, start + a.len() + 1) == tokens_from(b, p, start),
    decreases b.len() - p,
{
    let s = a + seq![';'] + b;
    let k = a.len() + 1;
    if p < b.len() {
        assert(s[p + k] == b[p]);
        if b[p] == ';' {
            lemma_tokens_shift(a, b, p + 1, p + 1);
            assert(s.subrange(start + k, p + k) =~= b.subrange(start, p));
        } else {
            lemma_tokens_shift(a, b, p + 1, start);
        }
    } else {
        assert(s.subrange(start + k, s.len() as int) =~= b.subrange(start, b.len() as int));
    }
}

proof fn lemma_tokens_prefix(a: Seq<char>, b: Seq<char>, p: int, start: int)
    requires
        0 <= start <= p <= a.len(),
    ensures
        tokens_from(a + seq![';'] + b, p, start) == tokens_from(a, p, start) + tokens_from(b, 0, 0),
    decreases a.len() - p,
{
    let s = a + seq![';'] + b;
    let rest = tokens_from(b, 0, 0);
    lemma_tokens_shift(a, b, 0, 0);
    if p == a.len() {
        assert(s[p] == ';');
        assert(s.subrange(start, p) =~= a.subrange(start, a.len() as int));
    } else {
        assert(s[p] == a[p]);
        if a[p] == ';' {
            lemma_tokens_prefix(a, b, p + 1, p + 1);
            assert(s.subrange(start, p) =~= a.subrange(start, p));
            vstd::seq_lib::lemma_concat_associative(
                cookie_token(a.subrange(start, p)),
                tokens_from(a, p + 1, p + 1),
                rest,
            );
        } else {
            lemma_tokens_prefix(a, b, p + 1, start);
        }
    }
}

proof fn lemma_tokens_one(s: Seq<char>, p: int, start: int)
    requires
        0 <= start <= p <= s.len(),
        forall|j: int| p <= j < s.len() ==> s[j] != ';',
    ensures
        tokens_from(s, p, start) == cookie_token(s.subrange(start, s.len() as int)),
    decreases s.len() - p,
{
    if p < s.len() {
        lemma_tokens_one(s, p + 1, start);
    }
}

proof fn lemma_first_char_at(s: Seq<char>, x: char, i: int, k: int)
    requires
        0 <= i <= k <= s.len(),
        forall|j: int| i <= j < k ==> s[j] != x,
    ensures
        k < s.len() && s[k] == x ==> first_char(s, x, i) == Some(k),
        k == s.len() ==> first_char(s, x, i) is None,
    decreases k - i,
{
    if i < k {
        lemma_first_char_at(s, x, i + 1, k);
    }
}

/// Cookies split at `;`: the tokens of `a;b` are those of `a`, then those
/// of `b`.
pub proof fn lemma_cookie_tokens_split(a: Seq<char>, b: Seq<char>)
    ensures
        cookie_tokens(a + seq![';'] + b) == cookie_tokens(a) + cookie_tokens(b),
{
    lemma_tokens_prefix(a, b, 0, 0);
}

/// An issued token is found: sent as the cookie `access_token=<token>`,
/// alone or after other cookies and `; `, it is the last token read.
pub proof fn lemma_access_cookie_found(others: Seq<char>, t: Seq<char>)
    requires
        token_chars(t),
    ensures
        cookie_tokens(ACCESS_COOKIE@ + seq!['='] + t) == seq![t],
        cookie_tokens(others + seq![';'] + (seq![' '] + ACCESS_COOKIE@ + seq!['='] + t))
            == cookie_tokens(others) + seq![t],
{
    reveal_strlit("access_token");
    let y = ACCESS_COOKIE@ + seq!['='] + t;
    let z = seq![' '] + y;
    let n = ACCESS_COOKIE@.len() as int;
    assert(n == 12);
    assert(forall|j: int| 0 <= j < t.len() ==> is_token_char(#[trigger] t[j]));
    assert forall|j: int| 0 <= j < y.len() implies #[trigger] y[j] != ';' by {
        if j > n {
            assert(y[j] == t[j - n - 1]);
        }
    }
    assert forall|j: int| 0 <= j < z.len() implies #[trigger] z[j] != ';' by {
        if j > 0 {
            assert(z[j] == y[j - 1]);
        }
    }
    // Trimming leaves `y` as it is.
    assert(z.drop_first() =~= y);
    assert(trim_start(y) == y);
    assert(trim_start(z) == y);
    assert(y.len() > 0 && !is_ows(y.last())) by {
        if t.len() > 0 {
            assert(y.last() == t.last());
            assert(is_token_char(t[t.len() - 1]));
        }
    }
    assert(trim(z) == y);
    assert(trim(y) == y);
    // The first `=` ends the name, and the value holds no other.
    assert forall|j: int| 0 <= j < n implies #[trigger] y[j] != '=' by {
        assert(y[j] == ACCESS_COOKIE@[j]);
    }
    lemma_first_char_at(y, '=', 0, n);
    assert(y.subrange(0, n) =~= ACCESS_COOKIE@);
    assert(y.subrange(n + 1, y.len() as int) =~= t);
    assert forall|j: int| 0 <= j < t.len() implies #[trigger] t[j] != '=' by {
        assert(is_token_char(t[j]));
    }
    lemma_first_char_at(t, '=', 0, t.len() as int);
    assert(cookie_token(y) == seq![t]);
    assert(cookie_token(z) == seq![t]);
    lemma_tokens_one(y, 0, 0);
    assert(y.subrange(0, y.len() as int) =~= y);
    lemma_tokens_one(z, 0, 0);
    assert(z.subrange(0, z.len() as int) =~= z);
    assert(cookie_tokens(z) == seq![t]);
    assert(z =~= seq![' '] + ACCESS_COOKIE@ + seq!['='] + t);
    lemma_cookie_tokens_split(others, z);
}

/// Some token among `ts` is accepted under `secret` at `now`.
pub open spec fn any_accepted(ts: Seq<Seq<char>>, secret: Seq<char>, now: u64) -> bool {
    exists|i: int| 0 <= i < ts.len() && (#[trigger] token_verdict(ts[i], secret, now)) is Ok
}

/// The characters of an optional string.
pub open spec fn opt_view(o: Option<&str>) -> Option<Seq<char>> {
    match o {
        Some(s) => Some(s@),
        None => None,
    }
}

/// Where a request to a protected path goes.
#[derive(Debug, Clone, Copy, PartialEq, Eq, Structural)]
pub enum Access {
    /// On to the gateway.
    Forward,
    /// To the login page.
    RedirectLogin,
}

/// The access decision for a request with the `Cookie` header `cookie`.
pub open spec fn access(auth_required: bool, cookie: Option<Seq<char>>, secret: Seq<char>, now: u64) -> Access {
    if !auth_required {
        Access::Forward
    } else {
        match cookie {
            Some(c) => if any_accepted(cookie_tokens(c), secret, now) {
                Access::Forward
            } else {
                Access::RedirectLogin
            },
            None => Access::RedirectLogin,
        }
    }
}

/// The access token of the cookie between `lo` and `hi` of `s`, if it is
/// the access cookie with a value that holds no further `=`.
fn segment_token(s: &str, lo: usize, hi: usize) -> (r: Option<String>)
    requires
        lo <= hi <= s@.len(),
    ensures
        r is None ==> cookie_token(s@.subrange(lo as int, hi as int)).len() == 0,
        r matches Some(t) ==> cookie_token(s@.subrange(lo as int, hi as int)) == seq![t@],
{
    let t = trimmed(s, lo, hi);
    match find_char(t, '=') {
        None => None,
        Some(e) => {
            proof {
                lemma_first_char(t@, '=', 0);
            }
            let n = t.unicode_len();
            let value = t.substring_char(e + 1, n);
            if str_eq(t.substring_char(0, e), ACCESS_COOKIE) && find_char(value, '=').is_none() {
                Some(String::from_str(value))
            } else {
                None
            }
        },
    }
}

/// The access tokens of a `Cookie` header, in order.
pub fn cookie_tokens_of(cookie: &str) -> (r: Vec<String>)
    ensures
        r@.map_values(|t: String| t@) == cookie_tokens(cookie@),
{
    let n = cookie.unicode_len();
    let mut out: Vec<String> = Vec::new();
    let mut p: usize = 0;
    let mut start: usize = 0;
    while p < n
        invariant
            n == cookie@.len(),
            start <= p <= n,
            cookie_tokens(cookie@) == out@.map_values(|t: String| t@) + tokens_from(
                cookie@,
                p as int,
                start as int,
            ),
        decreases n - p,
    {
        if cookie.get_char(p) == ';' {
            let ghost before = out@.map_values(|t: String| t@);
            match segment_token(cookie, start, p) {
                Some(t) => {
                    out.push(t);
                },
                None => {},
            }
            assert(out@.map_values(|t: String| t@) =~= before + cookie_token(
                cookie@.subrange(start as int, p as int),
            ));
            assert(cookie_tokens(cookie@) == out@.map_values(|t: String| t@) + tokens_from(
                cookie@,
                p + 1,
                p + 1,
            )) by {
                vstd::seq_lib::lemma_concat_associative(before, cookie_token(cookie@.subrange(start as int, p as int)), tokens_from(cookie@, p + 1, p + 1));
            }
            p = p + 1;
            start = p;
        } else {
            p = p + 1;
        }
    }
    let ghost before = out@.map_values(|t: String| t@);
    match segment_token(cookie, start, n) {
        Some(t) => {
            out.push(t);
        },
        None => {},
    }
    assert(out@.map_values(|t: String| t@) =~= before + cookie_token(
        cookie@.subrange(start as int, n as int),
    ));
    out
}

/// Decides whether a request to a protected path goes on, at time `now`.
///
/// Without a configured credential every request goes on. Otherwise it goes
/// on exactly when one of its `access_token` cookies holds a token that is
/// accepted under `secret` at `now`; with no `Cookie` header it is sent to
/// the login page.
pub fn authorize_at(auth_required: bool, cookie: Option<&str>, secret: &str, now: u64) -> (r: Access)
    ensures
        r == access(auth_required, opt_view(cookie), secret@, now),
        !auth_required ==> r == Access::Forward,
        auth_required && cookie is None ==> r == Access::RedirectLogin,
{
    if !auth_required {
        return Access::Forward;
    }
    let c = match cookie {
        None => return Access::RedirectLogin,
        Some(c) => c,
    };
    let tokens = cookie_tokens_of(c);
    let ghost ts = cookie_tokens(c@);
    let mut i: usize = 0;
    while i < tokens.len()
        invariant
            auth_required,
            cookie == Some(c),
            ts == cookie_tokens(c@),
            tokens@.map_values(|t: String| t@) == ts,
            i <= tokens@.len(),
            forall|j: int| 0 <= j < i ==> !(#[trigger] token_verdict(ts[j], secret@, now) is Ok),
        decreases tokens@.len() - i,
    {
        if verify_token_at(tokens[i].as_str(), secret, now).is_ok() {
            assert(ts[i as int] == tokens@[i as int]@);
            assert(token_verdict(ts[i as int], secret@, now) is Ok);
            return Access::Forward;
        }
        assert(ts[i as int] == tokens@[i as int]@);
        i = i + 1;
    }
    Access::RedirectLogin
}

/// Decides whether a request to a protected path goes on, reading the clock;
/// a clock that reads before the epoch sends it to the login page when a
/// credential is configured.
pub fn authorize(auth_required: bool, cookie: Option<&str>, secret: &str) -> (r: Access)
    ensures
        !auth_required ==> r == Access::Forward,
        auth_required && cookie is None ==> r == Access::RedirectLogin,
        r == Access::Forward ==> exists|now: u64|
            #[trigger] access(auth_required, opt_view(cookie), secret@, now)
                == Access::Forward,
{
    match now_secs() {
        None => if auth_required {
            Access::RedirectLogin
        } else {
            Access::Forward
        },
        Some(now) => authorize_at(auth_required, cookie, secret, now),
    }
}

/// Whether a submitted credential is accepted: always without a configured
/// one, otherwise exactly when it equals the configured one.
pub open spec fn credential_ok(configured: Option<Seq<char>>, submitted: Seq<char>) -> bool {
    match configured {
        None => true,
        Some(c) => c == submitted,
    }
}

/// Checks a submitted credential against the configured one.
pub fn authentication(configured: Option<&str>, submitted: &str) -> (r: bool)
    ensures
        r == credential_ok(opt_view(configured), submitted@),
{
    match configured {
        None => true,
        Some(c) => str_eq(c, submitted),
    }
}

/// The `Set-Cookie` value that hands out `token`: HTTP-only, for the whole
/// site, kept for the token's lifetime.
pub open spec fn session_cookie_spec(token: Seq<char>) -> Seq<char> {
    ACCESS_COOKIE@ + "="@ + token + "; Max-Age="@ + decimal(TOKEN_TTL as nat) + "; Path=/; HttpOnly"@
}

/// The `Set-Cookie` value that hands out `token`.
pub fn session_cookie(token: &str) -> (r: String)
    ensures
        r@ == session_cookie_spec(token@),
{
    String::from_str(ACCESS_COOKIE).concat("=").concat(token).concat("; Max-Age=").concat(
        u64_decimal(TOKEN_TTL).as_str(),
    ).concat("; Path=/; HttpOnly")
}

/// The answer to a login form.
#[derive(Debug, PartialEq, Eq)]
pub enum LoginReply {
    /// Set this cookie and send the client to the home path.
    Admit(String),
    /// The credential does not match: send the client back to the login page.
    Refuse,
    /// The credential matches but no expiry time can be set (the clock reads
    /// before the epoch, or the expiry does not fit in 64 bits).
    Unavailable,
}

/// Answers a login form submitted at time `now`: a matching credential gets
/// a fresh token in a cookie, any other is sent back to the login page.
pub fn post_login_at(configured: Option<&str>, submitted: &str, secret: &str, now: u64) -> (r: LoginReply)
    ensures
        !credential_ok(opt_view(configured), submitted@) ==> r == LoginReply::Refuse,
        credential_ok(opt_view(configured), submitted@) && now + TOKEN_TTL > u64::MAX ==> r
            == LoginReply::Unavailable,
        credential_ok(opt_view(configured), submitted@) && now + TOKEN_TTL <= u64::MAX ==> (r matches LoginReply::Admit(c)
            && c@ == session_cookie_spec(hs256_token(secret@, (now + TOKEN_TTL) as u64))),
{
    if !authentication(configured, submitted) {
        return LoginReply::Refuse;
    }
    match issue_token_at(secret, now) {
        Ok(t) => LoginReply::Admit(session_cookie(t.as_str())),
        Err(_) => LoginReply::Unavailable,
    }
}

/// Answers a login form now: a matching credential is admitted unless the
/// clock cannot give an expiry time.
pub fn post_login(configured: Option<&str>, submitted: &str, secret: &str) -> (r: LoginReply)
    ensures
        !credential_ok(opt_view(configured), submitted@) ==> r == LoginReply::Refuse,
        credential_ok(opt_view(configured), submitted@) ==> r != LoginReply::Refuse,
        r matches LoginReply::Admit(c) ==> exists|exp: u64|
            c@ == session_cookie_spec(#[trigger] hs256_token(secret@, exp)),
{
    if !authentication(configured, submitted) {
        return LoginReply::Refuse;
    }
    match now_secs() {
        None => LoginReply::Unavailable,
        Some(now) => post_login_at(configured, submitted, secret, now),
    }
}

/// What serves a request, by method and path.
#[derive(Debug, Clone, Copy, PartialEq, Eq, Structural)]
pub enum Route {
    /// The login page.
    LoginPage,
    /// The login form's submission.
    LoginSubmit,
    /// The legacy login stub.
    WebmanLogin,
    /// Everything else: behind authentication.
    Protected,
}

/// The route of a request.
pub open spec fn route_spec(method: Seq<char>, path: Seq<char>) -> Route {
    if method == "GET"@ && path == LOGIN_PATH@ {
        Route::LoginPage
    } else if method == "POST"@ && path == LOGIN_PATH@ {
        Route::LoginSubmit
    } else if method == "GET"@ && path == WEBMAN_LOGIN_PATH@ {
        Route::WebmanLogin
    } else {
        Route::Protected
    }
}

/// Picks the route of a request.
pub fn route(method: &str, path: &str) -> (r: Route)
    ensures
        r == route_spec(method@, path@),
{
    let get = str_eq(method, "GET");
    if get && str_eq(path, LOGIN_PATH) {
        Route::LoginPage
    } else if str_eq(method, "POST") && str_eq(path, LOGIN_PATH) {
        Route::LoginSubmit
    } else if get && str_eq(path, WEBMAN_LOGIN_PATH) {
        Route::WebmanLogin
    } else {
        Route::Protected
    }
}

/// Whether an admitted request goes to the CGI program: its target names the
/// home path; other targets are redirected there.
pub fn reaches_gateway(target: &str) -> (r: bool)
    ensures
        r == contains(target@, WEB_UI_HOME@),
{
    contains_str(target, WEB_UI_HOME)
}

} // verus!

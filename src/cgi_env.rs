//! The CGI/1.1 environment of one request.

use crate::env_map::EnvMap;
use crate::text::{
    ascii_upper, decimal, find_char, first_char, lemma_first_char, str_eq, u64_decimal, upper,
};
use vstd::prelude::*;
use vstd::string::*;

verus! {

/// Name and value pairs, as character sequences.
pub type Pairs = Seq<(Seq<char>, Seq<char>)>;

/// An environment, as a map from names to values.
pub type Vars = Map<Seq<char>, Seq<char>>;

/// The parts of an inbound request that the CGI program sees.
pub struct CgiRequest {
    /// The request method, as sent.
    pub method: String,
    /// The request target: path, then `?` and the query if there is one.
    pub target: String,
    /// The header lines in the order received.
    pub headers: Vec<(String, String)>,
    /// The request body, when the request has one.
    pub body: Option<Vec<u8>>,
}

/// Facts about the server side of the connection.
pub struct ServerMeta {
    /// The port the server listens on.
    pub port: u16,
    /// The peer's address, used as both `REMOTE_ADDR` and `SERVER_NAME`.
    pub remote_addr: String,
}

/// The pairs as character sequences.
pub open spec fn pairs_view(v: Seq<(String, String)>) -> Pairs {
    v.map_values(|p: (String, String)| (p.0@, p.1@))
}

/// The path part of a request target: everything before the first `?`.
pub open spec fn path_of(t: Seq<char>) -> Seq<char> {
    match first_char(t, '?', 0) {
        None => t,
        Some(q) => t.subrange(0, q),
    }
}

/// The raw query of a request target: everything after the first `?`.
pub open spec fn query_of(t: Seq<char>) -> Seq<char> {
    match first_char(t, '?', 0) {
        None => Seq::empty(),
        Some(q) => t.subrange(q + 1, t.len() as int),
    }
}

/// `m` with the standard CGI variables of a request set.
pub open spec fn with_request_vars(
    m: Vars,
    method: Seq<char>,
    target: Seq<char>,
    port: u16,
    remote: Seq<char>,
) -> Vars {
    m.insert("SERVER_SOFTWARE"@, "rust"@).insert("SERVER_PROTOCOL"@, "HTTP/1.1"@).insert(
        "GATEWAY_INTERFACE"@,
        "CGI/1.1"@,
    ).insert("REQUEST_METHOD"@, method).insert("QUERY_STRING"@, query_of(target)).insert(
        "REQUEST_URI"@,
        target,
    ).insert("PATH_INFO"@, path_of(target)).insert("SCRIPT_NAME"@, "."@).insert(
        "SCRIPT_FILENAME"@,
        path_of(target),
    ).insert("SERVER_PORT"@, decimal(port as nat)).insert("REMOTE_ADDR"@, remote).insert(
        "SERVER_NAME"@,
        remote,
    )
}

/// A header is passed on when its name is not `Proxy` (in any case) and its
/// value is not empty.
pub open spec fn passes(name: Seq<char>, value: Seq<char>) -> bool {
    upper(name) != "PROXY"@ && value.len() > 0
}

/// The variable that carries a header whose upper-cased name is `u`.
pub open spec fn http_var(u: Seq<char>) -> Seq<char> {
    "HTTP_"@ + u
}

/// `m` after one header: `HTTP_<NAME>` when the header is passed on, and
/// `CONTENT_TYPE` or `CONTENT_LENGTH` whenever one of those two headers is
/// present, whatever its value.
pub open spec fn with_header(m: Vars, name: Seq<char>, value: Seq<char>) -> Vars {
    let u = upper(name);
    let m1 = if passes(name, value) {
        m.insert(http_var(u), value)
    } else {
        m
    };
    if u == "CONTENT-TYPE"@ {
        m1.insert("CONTENT_TYPE"@, value)
    } else if u == "CONTENT-LENGTH"@ {
        m1.insert("CONTENT_LENGTH"@, value)
    } else {
        m1
    }
}

/// `m` after the headers `hs`, in order: a later header of the same name
/// (up to case) overrides an earlier one.
pub open spec fn with_headers(m: Vars, hs: Pairs) -> Vars
    decreases hs.len(),
{
    if hs.len() == 0 {
        m
    } else {
        with_header(with_headers(m, hs.drop_last()), hs.last().0, hs.last().1)
    }
}

/// The CGI environment of a request: the base variables, then the standard
/// request variables, then the header variables.
pub open spec fn cgi_vars(
    base: Vars,
    method: Seq<char>,
    target: Seq<char>,
    headers: Pairs,
    port: u16,
    remote: Seq<char>,
) -> Vars {
    with_headers(with_request_vars(base, method, target, port, remote), headers)
}

/// The value of the last passed header among `hs` whose upper-cased name is
/// `u`.
pub open spec fn last_value(hs: Pairs, u: Seq<char>) -> Option<Seq<char>>
    decreases hs.len(),
{
    if hs.len() == 0 {
        None
    } else if passes(hs.last().0, hs.last().1) && upper(hs.last().0) == u {
        Some(hs.last().1)
    } else {
        last_value(hs.drop_last(), u)
    }
}

/// Header variables: each passed header gives exactly the one variable
/// `HTTP_<NAME>` (its name upper-cased), holding the value of the last passed
/// header with that name up to case; a variable named after no passed header
/// keeps its earlier value.
pub proof fn lemma_header_vars(m: Vars, hs: Pairs, u: Seq<char>)
    ensures
        last_value(hs, u) matches Some(v) ==> with_headers(m, hs).contains_key(http_var(u))
            && with_headers(m, hs)[http_var(u)] == v,
        last_value(hs, u) is None ==> with_headers(m, hs).contains_key(http_var(u))
            == m.contains_key(http_var(u)) && with_headers(m, hs)[http_var(u)] == m[http_var(u)],
    decreases hs.len(),
{
    if hs.len() > 0 {
        lemma_header_vars(m, hs.drop_last(), u);
        let name = hs.last().0;
        let w = upper(name);
        reveal_strlit("HTTP_");
        reveal_strlit("CONTENT_TYPE");
        reveal_strlit("CONTENT_LENGTH");
        assert(http_var(u)[0] == 'H');
        assert("CONTENT_TYPE"@[0] == 'C');
        assert("CONTENT_LENGTH"@[0] == 'C');
        if passes(name, hs.last().1) && w != u {
            assert(http_var(w) != http_var(u)) by {
                if http_var(w) == http_var(u) {
                    assert(w =~= http_var(w).subrange(5, http_var(w).len() as int));
                    assert(u =~= http_var(u).subrange(5, http_var(u).len() as int));
                }
            }
        }
    }
}

/// The standard request variables hold no `HTTP_` name: they leave every
/// `HTTP_<NAME>` variable as it was.
proof fn lemma_request_vars_keep_http(
    m: Vars,
    method: Seq<char>,
    target: Seq<char>,
    port: u16,
    remote: Seq<char>,
    u: Seq<char>,
)
    ensures
        with_request_vars(m, method, target, port, remote).contains_key(http_var(u)) == m.contains_key(
            http_var(u),
        ),
        with_request_vars(m, method, target, port, remote)[http_var(u)] == m[http_var(u)],
{
    reveal_strlit("HTTP_");
    reveal_strlit("SERVER_SOFTWARE");
    reveal_strlit("SERVER_PROTOCOL");
    reveal_strlit("GATEWAY_INTERFACE");
    reveal_strlit("REQUEST_METHOD");
    reveal_strlit("QUERY_STRING");
    reveal_strlit("REQUEST_URI");
    reveal_strlit("PATH_INFO");
    reveal_strlit("SCRIPT_NAME");
    reveal_strlit("SCRIPT_FILENAME");
    reveal_strlit("SERVER_PORT");
    reveal_strlit("REMOTE_ADDR");
    reveal_strlit("SERVER_NAME");
    assert(http_var(u)[0] == 'H');
}

/// The `HTTP_` variables of a request's environment: `HTTP_<NAME>` holds
/// the value of the last passed header whose upper-cased name is `<NAME>`;
/// with no such header it is what the base gave, and absent when the base
/// has none. Each passed header name thus gives exactly one variable, and
/// `Proxy` or empty-valued headers give none.
pub proof fn lemma_cgi_http_vars(
    base: Vars,
    method: Seq<char>,
    target: Seq<char>,
    headers: Pairs,
    port: u16,
    remote: Seq<char>,
    u: Seq<char>,
)
    ensures
        ({
            let e = cgi_vars(base, method, target, headers, port, remote);
            &&& last_value(headers, u) matches Some(v) ==> e.contains_key(http_var(u)) && e[http_var(u)] == v
            &&& last_value(headers, u) is None ==> e.contains_key(http_var(u)) == base.contains_key(http_var(u))
                && e[http_var(u)] == base[http_var(u)]
        }),
{
    lemma_request_vars_keep_http(base, method, target, port, remote, u);
    lemma_header_vars(with_request_vars(base, method, target, port, remote), headers, u);
}

/// Sets the standard request variables.
fn set_request_vars(env: &mut EnvMap, req: &CgiRequest, meta: &ServerMeta)
    requires
        old(env).wf(),
    ensures
        final(env).wf(),
        final(env)@ == with_request_vars(
            old(env)@,
            req.method@,
            req.target@,
            meta.port,
            meta.remote_addr@,
        ),
{
    let t = req.target.as_str();
    let n = t.unicode_len();
    let (path, query) = match find_char(t, '?') {
        None => (t, ""),
        Some(q) => {
            proof {
                lemma_first_char(t@, '?', 0);
            }
            (t.substring_char(0, q), t.substring_char(q + 1, n))
        },
    };
    proof {
        reveal_strlit("");
    }
    assert(path@ == path_of(t@));
    assert(query@ == query_of(t@));
    env.insert(String::from_str("SERVER_SOFTWARE"), String::from_str("rust"));
    env.insert(String::from_str("SERVER_PROTOCOL"), String::from_str("HTTP/1.1"));
    env.insert(String::from_str("GATEWAY_INTERFACE"), String::from_str("CGI/1.1"));
    env.insert(String::from_str("REQUEST_METHOD"), req.method.clone());
    env.insert(String::from_str("QUERY_STRING"), String::from_str(query));
    env.insert(String::from_str("REQUEST_URI"), req.target.clone());
    env.insert(String::from_str("PATH_INFO"), String::from_str(path));
    env.insert(String::from_str("SCRIPT_NAME"), String::from_str("."));
    env.insert(String::from_str("SCRIPT_FILENAME"), String::from_str(path));
    env.insert(String::from_str("SERVER_PORT"), u64_decimal(meta.port as u64));
    env.insert(String::from_str("REMOTE_ADDR"), meta.remote_addr.clone());
    env.insert(String::from_str("SERVER_NAME"), meta.remote_addr.clone());
}

/// Sets the variables of one header.
fn set_header(env: &mut EnvMap, name: &str, value: &str)
    requires
        old(env).wf(),
    ensures
        final(env).wf(),
        final(env)@ == with_header(old(env)@, name@, value@),
{
    let u = ascii_upper(name);
    if !str_eq(u.as_str(), "PROXY") && !value.is_empty() {
        let key = String::from_str("HTTP_").concat(u.as_str());
        env.insert(key, String::from_str(value));
    }
    if str_eq(u.as_str(), "CONTENT-TYPE") {
        env.insert(String::from_str("CONTENT_TYPE"), String::from_str(value));
    } else if str_eq(u.as_str(), "CONTENT-LENGTH") {
        env.insert(String::from_str("CONTENT_LENGTH"), String::from_str(value));
    }
}

/// Builds the environment a CGI program is run with for `req`.
///
/// It holds every variable of `base`, then the standard variables
/// (`SERVER_SOFTWARE`, `SERVER_PROTOCOL`, `GATEWAY_INTERFACE`,
/// `REQUEST_METHOD`, `QUERY_STRING`, `REQUEST_URI`, `PATH_INFO`,
/// `SCRIPT_NAME`, `SCRIPT_FILENAME`, `SERVER_PORT`, `REMOTE_ADDR`,
/// `SERVER_NAME`), then `HTTP_<NAME>` for each header that is not `Proxy` and
/// has a value, plus `CONTENT_TYPE` and `CONTENT_LENGTH` whenever those
/// headers are present. Names are compared
/// up to ASCII case and the last header of a name wins.
pub fn build_cgi_env(req: &CgiRequest, base: &EnvMap, meta: &ServerMeta) -> (r: EnvMap)
    requires
        base.wf(),
    ensures
        r.wf(),
        r@ == cgi_vars(
            base@,
            req.method@,
            req.target@,
            pairs_view(req.headers@),
            meta.port,
            meta.remote_addr@,
        ),
{
    let mut env = base.copy();
    set_request_vars(&mut env, req, meta);
    let ghost start = env@;
    let mut h: usize = 0;
    while h < req.headers.len()
        invariant
            env.wf(),
            h <= req.headers@.len(),
            env@ == with_headers(start, pairs_view(req.headers@).subrange(0, h as int)),
        decreases req.headers@.len() - h,
    {
        set_header(&mut env, req.headers[h].0.as_str(), req.headers[h].1.as_str());
        assert(pairs_view(req.headers@).subrange(0, h + 1).drop_last() =~= pairs_view(
            req.headers@,
        ).subrange(0, h as int));
        h = h + 1;
    }
    assert(pairs_view(req.headers@).subrange(0, h as int) =~= pairs_view(req.headers@));
    env
}

} // verus!

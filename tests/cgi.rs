use xunlei::cgi_env::{build_cgi_env, CgiRequest, ServerMeta};
use xunlei::cgi_output::{parse_cgi_output, CgiError};
use xunlei::env_map::EnvMap;
use xunlei::gateway::{dispatch, CgiProgram};
use std::cell::RefCell;

fn pair(a: &str, b: &str) -> (Vec<u8>, Vec<u8>) {
    (a.as_bytes().to_vec(), b.as_bytes().to_vec())
}

#[test]
fn parse_status_header_and_body() {
    let out = b"Status: 404 Not Found\r\nContent-Type: text/plain\r\n\r\nmissing";
    let r = parse_cgi_output(out).unwrap();
    assert_eq!(r.status, 404);
    assert_eq!(r.headers, vec![pair("Content-Type", "text/plain")]);
    assert_eq!(r.body, b"missing".to_vec());
}

#[test]
fn parse_output_without_header_block() {
    let r = parse_cgi_output(b"hello world").unwrap();
    assert_eq!(r.status, 200);
    assert!(r.headers.is_empty());
    assert_eq!(r.body, b"hello world".to_vec());
}

#[test]
fn parse_lines_without_blank_line_are_body() {
    let r = parse_cgi_output(b"a: b\nc: d\n").unwrap();
    assert_eq!(r.status, 200);
    assert!(r.headers.is_empty());
    assert_eq!(r.body, b"a: b\nc: d\n".to_vec());
}

#[test]
fn parse_empty_output() {
    let r = parse_cgi_output(b"").unwrap();
    assert_eq!(r.status, 200);
    assert!(r.headers.is_empty());
    assert!(r.body.is_empty());
}

#[test]
fn parse_keeps_duplicate_headers_in_order() {
    let r = parse_cgi_output(b"Set-Cookie: a=1\nX: y\nSet-Cookie: b=2\n\nbody\r\n\r\nmore").unwrap();
    assert_eq!(r.status, 200);
    assert_eq!(
        r.headers,
        vec![pair("Set-Cookie", "a=1"), pair("X", "y"), pair("Set-Cookie", "b=2")]
    );
    assert_eq!(r.body, b"body\r\n\r\nmore".to_vec());
}

#[test]
fn parse_blank_first_line_gives_empty_head() {
    let r = parse_cgi_output(b"\r\npayload").unwrap();
    assert_eq!(r.status, 200);
    assert!(r.headers.is_empty());
    assert_eq!(r.body, b"payload".to_vec());
}

#[test]
fn parse_value_without_space() {
    let r = parse_cgi_output(b"Status:301 Moved\nLocation:/x\n\n").unwrap();
    assert_eq!(r.status, 301);
    assert_eq!(r.headers, vec![pair("Location", "/x")]);
    assert!(r.body.is_empty());
}

#[test]
fn parse_line_without_separator_is_protocol_error() {
    assert_eq!(parse_cgi_output(b"no separator\n\nbody"), Err(CgiError::Protocol));
}

#[test]
fn parse_non_numeric_status_is_protocol_error() {
    assert_eq!(parse_cgi_output(b"Status: abc\r\n\r\n"), Err(CgiError::Protocol));
    assert_eq!(parse_cgi_output(b"Status: 20\r\n\r\n"), Err(CgiError::Protocol));
}

#[test]
fn error_statuses_are_server_errors() {
    assert_eq!(CgiError::Protocol.status(), 502);
    assert_eq!(CgiError::Spawn.status(), 500);
    assert_eq!(CgiError::Io.status(), 500);
}

fn request(target: &str, headers: &[(&str, &str)]) -> CgiRequest {
    CgiRequest {
        method: "POST".to_string(),
        target: target.to_string(),
        headers: headers.iter().map(|(a, b)| (a.to_string(), b.to_string())).collect(),
        body: None,
    }
}

fn meta() -> ServerMeta {
    ServerMeta { port: 5055, remote_addr: "10.0.0.7:41000".to_string() }
}

fn get<'a>(env: &'a EnvMap, k: &str) -> Option<&'a str> {
    env.get(k).map(|s| s.as_str())
}

#[test]
fn env_standard_variables() {
    let mut base = EnvMap::new();
    base.insert("HOME".to_string(), "/opt/xunlei".to_string());
    let env = build_cgi_env(&request("/webman/index.cgi/a?x=1&y=2", &[]), &base, &meta());
    assert_eq!(get(&env, "HOME"), Some("/opt/xunlei"));
    assert_eq!(get(&env, "SERVER_SOFTWARE"), Some("rust"));
    assert_eq!(get(&env, "SERVER_PROTOCOL"), Some("HTTP/1.1"));
    assert_eq!(get(&env, "GATEWAY_INTERFACE"), Some("CGI/1.1"));
    assert_eq!(get(&env, "REQUEST_METHOD"), Some("POST"));
    assert_eq!(get(&env, "QUERY_STRING"), Some("x=1&y=2"));
    assert_eq!(get(&env, "REQUEST_URI"), Some("/webman/index.cgi/a?x=1&y=2"));
    assert_eq!(get(&env, "PATH_INFO"), Some("/webman/index.cgi/a"));
    assert_eq!(get(&env, "SCRIPT_NAME"), Some("."));
    assert_eq!(get(&env, "SCRIPT_FILENAME"), Some("/webman/index.cgi/a"));
    assert_eq!(get(&env, "SERVER_PORT"), Some("5055"));
    assert_eq!(get(&env, "REMOTE_ADDR"), Some("10.0.0.7:41000"));
    assert_eq!(get(&env, "SERVER_NAME"), Some("10.0.0.7:41000"));
    assert_eq!(env.len(), 13);
}

#[test]
fn env_target_without_query() {
    let env = build_cgi_env(&request("/plain", &[]), &EnvMap::new(), &meta());
    assert_eq!(get(&env, "QUERY_STRING"), Some(""));
    assert_eq!(get(&env, "PATH_INFO"), Some("/plain"));
}

#[test]
fn env_one_variable_per_header_last_wins() {
    let headers = [
        ("X-Trace", "first"),
        ("Accept", "*/*"),
        ("x-trace", "second"),
        ("X-TRACE", ""),
        ("Proxy", "http://evil"),
        ("Empty", ""),
    ];
    let env = build_cgi_env(&request("/", &headers), &EnvMap::new(), &meta());
    assert_eq!(get(&env, "HTTP_X-TRACE"), Some("second"));
    assert_eq!(get(&env, "HTTP_ACCEPT"), Some("*/*"));
    assert_eq!(get(&env, "HTTP_PROXY"), None);
    assert_eq!(get(&env, "HTTP_EMPTY"), None);
    let http: Vec<&String> =
        env.entries().iter().map(|(k, _)| k).filter(|k| k.starts_with("HTTP_")).collect();
    assert_eq!(http.len(), 2);
}

#[test]
fn env_content_headers_without_prefix() {
    let headers = [("content-type", "application/json"), ("Content-Length", "17")];
    let env = build_cgi_env(&request("/", &headers), &EnvMap::new(), &meta());
    assert_eq!(get(&env, "CONTENT_TYPE"), Some("application/json"));
    assert_eq!(get(&env, "CONTENT_LENGTH"), Some("17"));
    assert_eq!(get(&env, "HTTP_CONTENT-TYPE"), Some("application/json"));
    assert_eq!(get(&env, "HTTP_CONTENT-LENGTH"), Some("17"));
}

#[test]
fn env_empty_content_headers_still_mapped() {
    let headers = [("Content-Type", ""), ("content-length", "")];
    let env = build_cgi_env(&request("/", &headers), &EnvMap::new(), &meta());
    assert_eq!(get(&env, "CONTENT_TYPE"), Some(""));
    assert_eq!(get(&env, "CONTENT_LENGTH"), Some(""));
    assert_eq!(get(&env, "HTTP_CONTENT-TYPE"), None);
    assert_eq!(get(&env, "HTTP_CONTENT-LENGTH"), None);
}

#[test]
fn env_header_overrides_base() {
    let mut base = EnvMap::new();
    base.insert("HTTP_HOST".to_string(), "base".to_string());
    let env = build_cgi_env(&request("/", &[("Host", "nas.local")]), &base, &meta());
    assert_eq!(get(&env, "HTTP_HOST"), Some("nas.local"));
}

#[test]
fn env_map_replaces_in_place() {
    let mut m = EnvMap::new();
    m.insert("A".to_string(), "1".to_string());
    m.insert("B".to_string(), "2".to_string());
    m.insert("A".to_string(), "3".to_string());
    assert_eq!(m.len(), 2);
    assert_eq!(m.entries(), &vec![("A".to_string(), "3".to_string()), ("B".to_string(), "2".to_string())]);
    let c = m.copy();
    assert_eq!(c.entries(), m.entries());
}

/// Stands in for the CGI program: records what it was given and answers
/// with fixed output.
struct FakeProgram {
    output: Result<Vec<u8>, CgiError>,
    seen: RefCell<Option<(Vec<(String, String)>, Option<Vec<u8>>)>>,
}

impl CgiProgram for FakeProgram {
    fn run(&self, env: &EnvMap, body: Option<&Vec<u8>>) -> Result<Vec<u8>, CgiError> {
        *self.seen.borrow_mut() = Some((env.entries().clone(), body.cloned()));
        self.output.clone()
    }
}

#[test]
fn dispatch_hands_environment_and_body_to_program() {
    let program = FakeProgram {
        output: Ok(b"Status: 201 Created\r\nX-Id: 9\r\n\r\ndone".to_vec()),
        seen: RefCell::new(None),
    };
    let mut req = request("/a?q=1", &[("Content-Type", "text/plain")]);
    req.body = Some(b"payload".to_vec());
    let r = dispatch(&program, &req, &EnvMap::new(), &meta()).unwrap();
    assert_eq!(r.status, 201);
    assert_eq!(r.headers, vec![pair("X-Id", "9")]);
    assert_eq!(r.body, b"done".to_vec());
    let (env, body) = program.seen.borrow().clone().unwrap();
    assert!(env.contains(&("QUERY_STRING".to_string(), "q=1".to_string())));
    assert!(env.contains(&("CONTENT_TYPE".to_string(), "text/plain".to_string())));
    assert_eq!(body, Some(b"payload".to_vec()));
}

#[test]
fn dispatch_passes_program_failure_on() {
    let program = FakeProgram { output: Err(CgiError::Spawn), seen: RefCell::new(None) };
    let r = dispatch(&program, &request("/", &[]), &EnvMap::new(), &meta());
    assert_eq!(r, Err(CgiError::Spawn));
    let bad = FakeProgram { output: Ok(b"oops\n\n".to_vec()), seen: RefCell::new(None) };
    assert_eq!(dispatch(&bad, &request("/", &[]), &EnvMap::new(), &meta()), Err(CgiError::Protocol));
}

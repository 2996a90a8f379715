//! One CGI exchange: environment in, output bytes out, reply parsed.

use crate::cgi_env::{build_cgi_env, CgiRequest, ServerMeta};
use crate::cgi_output::{cgi_reply, headers_view, parse_cgi_output, CgiError, CgiResponse};
use crate::env_map::EnvMap;
use vstd::prelude::*;

verus! {

/// A CGI program: run once with an environment and the request body on its
/// input, it yields everything it wrote to its output.
pub trait CgiProgram {
    fn run(&self, env: &EnvMap, body: Option<&Vec<u8>>) -> Result<Vec<u8>, CgiError>;
}

/// Runs `program` for `req` and reads its reply.
///
/// The program gets the CGI environment of the request over `base`; its
/// failure is passed on as it is, and its output is parsed as a CGI reply.
pub fn dispatch<P: CgiProgram>(program: &P, req: &CgiRequest, base: &EnvMap, meta: &ServerMeta) -> (r: Result<CgiResponse, CgiError>)
    requires
        base.wf(),
    ensures
        r matches Ok(resp) ==> exists|out: Seq<u8>|
            #[trigger] cgi_reply(out) == Some((resp.status, headers_view(resp.headers@), resp.body@)),
{
    let env = build_cgi_env(req, base, meta);
    let out = program.run(&env, req.body.as_ref())?;
    let r = parse_cgi_output(out.as_slice());
    if let Ok(resp) = &r {
        assert(cgi_reply(out@) == Some((resp.status, headers_view(resp.headers@), resp.body@)));
    }
    r
}

} // verus!

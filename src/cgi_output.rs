//! Reading what a CGI program wrote: an optional header block, closed by a
//! blank line, then the body.

use vstd::prelude::*;
use vstd::slice::{slice_subrange, slice_to_vec};

verus! {

/// Line feed.
pub const LF: u8 = 10;

/// Carriage return.
pub const CR: u8 = 13;

/// The separator between a header's name and its value.
pub const COLON: u8 = 58;

/// The space that follows the separator.
pub const SPACE: u8 = 32;

/// Status code of a reply that names none.
pub const DEFAULT_STATUS: u16 = 200;

/// Status and forwarded headers gathered from a header block.
pub type HeadSpec = (u16, Seq<(Seq<u8>, Seq<u8>)>);

/// The name of the header that carries the status code: `Status`.
pub open spec fn status_name() -> Seq<u8> {
    seq![83u8, 116u8, 97u8, 116u8, 117u8, 115u8]
}

/// Position `p` starts a line: it is the first byte or follows a line feed.
pub open spec fn line_start(b: Seq<u8>, p: int) -> bool {
    p == 0 || (0 < p <= b.len() && b[p - 1] == LF)
}

/// Length of the line end at `p` when the line there is empty (`\n` or
/// `\r\n`), otherwise 0.
pub open spec fn blank_len(b: Seq<u8>, p: int) -> int {
    if 0 <= p < b.len() && b[p] == LF {
        1
    } else if 0 <= p && p + 1 < b.len() && b[p] == CR && b[p + 1] == LF {
        2
    } else {
        0
    }
}

/// The start of the first blank line at or after `p`.
pub open spec fn first_blank(b: Seq<u8>, p: int) -> Option<int>
    decreases b.len() - p,
{
    if p < 0 || p >= b.len() {
        None
    } else if line_start(b, p) && blank_len(b, p) > 0 {
        Some(p)
    } else {
        first_blank(b, p + 1)
    }
}

/// A blank line found at or after `p` lies within `b` and is blank.
pub proof fn lemma_first_blank(b: Seq<u8>, p: int)
    ensures
        first_blank(b, p) matches Some(e) ==> p <= e < b.len() && line_start(b, e) && blank_len(
            b,
            e,
        ) > 0,
    decreases b.len() - p,
{
    if 0 <= p < b.len() && !(line_start(b, p) && blank_len(b, p) > 0) {
        lemma_first_blank(b, p + 1);
    }
}

/// A position found by `first_index` holds `x` and lies within `s`.
pub proof fn lemma_first_index(s: Seq<u8>, x: u8, i: int)
    ensures
        first_index(s, x, i) matches Some(c) ==> i <= c < s.len() && s[c] == x,
    decreases s.len() - i,
{
    if 0 <= i < s.len() && s[i] != x {
        lemma_first_index(s, x, i + 1);
    }
}

/// The first position at or after `i` where `s` holds `x`.
pub open spec fn first_index(s: Seq<u8>, x: u8, i: int) -> Option<int>
    decreases s.len() - i,
{
    if i < 0 || i >= s.len() {
        None
    } else if s[i] == x {
        Some(i)
    } else {
        first_index(s, x, i + 1)
    }
}

/// A line without the carriage return that may close it.
pub open spec fn strip_cr(l: Seq<u8>) -> Seq<u8> {
    if l.len() > 0 && l.last() == CR {
        l.drop_last()
    } else {
        l
    }
}

/// A header value without the single space that may lead it.
pub open spec fn strip_space(v: Seq<u8>) -> Seq<u8> {
    if v.len() > 0 && v[0] == SPACE {
        v.drop_first()
    } else {
        v
    }
}

/// An ASCII decimal digit.
pub open spec fn is_digit(c: u8) -> bool {
    48 <= c <= 57
}

/// The status code given by the first three bytes of a `Status` value.
pub open spec fn status_code(v: Seq<u8>) -> Option<u16> {
    if v.len() >= 3 && is_digit(v[0]) && is_digit(v[1]) && is_digit(v[2]) {
        Some((100 * (v[0] - 48) + 10 * (v[1] - 48) + (v[2] - 48)) as u16)
    } else {
        None
    }
}

/// The head after reading one header line, or `None` when the line is
/// malformed.
pub open spec fn apply_line(h: HeadSpec, line: Seq<u8>) -> Option<HeadSpec> {
    match first_index(line, COLON, 0) {
        None => None,
        Some(c) => {
            let name = line.subrange(0, c);
            let value = strip_space(line.subrange(c + 1, line.len() as int));
            if name == status_name() {
                match status_code(value) {
                    None => None,
                    Some(n) => Some((n, h.1)),
                }
            } else {
                Some((h.0, h.1.push((name, value))))
            }
        }
    }
}

/// Reads the header lines of `b` between `p` and the blank line at `e`; the
/// line being read began at `ls`.
pub open spec fn read_block(b: Seq<u8>, p: int, e: int, ls: int, h: HeadSpec) -> Option<HeadSpec>
    decreases e - p,
{
    if p < 0 || p >= e || p >= b.len() {
        Some(h)
    } else if b[p] == LF {
        match apply_line(h, strip_cr(b.subrange(ls, p))) {
            None => None,
            Some(h2) => read_block(b, p + 1, e, p + 1, h2),
        }
    } else {
        read_block(b, p + 1, e, ls, h)
    }
}

/// What the output `b` of a CGI program means: status, headers in order,
/// and body; `None` when the header block is malformed. Output with no
/// blank line is all body, with the default status.
pub open spec fn cgi_reply(b: Seq<u8>) -> Option<(u16, Seq<(Seq<u8>, Seq<u8>)>, Seq<u8>)> {
    match first_blank(b, 0) {
        None => Some((DEFAULT_STATUS, Seq::empty(), b)),
        Some(e) => match read_block(b, 0, e, 0, (DEFAULT_STATUS, Seq::empty())) {
            None => None,
            Some(h) => Some((h.0, h.1, b.subrange(e + blank_len(b, e), b.len() as int))),
        },
    }
}

/// Why a CGI exchange failed.
#[derive(Debug, Clone, Copy, PartialEq, Eq, Structural)]
pub enum CgiError {
    /// The program could not be started.
    Spawn,
    /// Its output could not be read as a header block and a body.
    Protocol,
    /// Writing its input or reading its output failed.
    Io,
}

impl CgiError {
    /// The HTTP status a failed exchange is answered with: 502 when the
    /// program's output could not be read, 500 otherwise.
    pub fn status(&self) -> (r: u16)
        ensures
            r == (if *self == CgiError::Protocol {
                502u16
            } else {
                500u16
            }),
    {
        match self {
            CgiError::Protocol => 502,
            _ => 500,
        }
    }
}

/// A CGI program's reply, ready to be sent as an HTTP response.
#[derive(Debug, PartialEq, Eq)]
pub struct CgiResponse {
    pub status: u16,
    pub headers: Vec<(Vec<u8>, Vec<u8>)>,
    pub body: Vec<u8>,
}

/// The headers as byte sequences.
pub open spec fn headers_view(hs: Seq<(Vec<u8>, Vec<u8>)>) -> Seq<(Seq<u8>, Seq<u8>)> {
    hs.map_values(|h: (Vec<u8>, Vec<u8>)| (h.0@, h.1@))
}

/// The start of the first blank line of `b`.
fn find_blank(b: &[u8]) -> (r: Option<usize>)
    ensures
        r is None ==> first_blank(b@, 0) is None,
        r matches Some(e) ==> first_blank(b@, 0) == Some(e as int),
{
    let n = b.len();
    let mut i: usize = 0;
    while i < n
        invariant
            n == b@.len(),
            i <= n,
            first_blank(b@, 0) == first_blank(b@, i as int),
        decreases n - i,
    {
        let starts = i == 0 || b[i - 1] == LF;
        if starts && (b[i] == LF || (i + 1 < n && b[i] == CR && b[i + 1] == LF)) {
            return Some(i);
        }
        i = i + 1;
    }
    None
}

/// The first position of `x` in `s`.
fn find_byte(s: &[u8], x: u8) -> (r: Option<usize>)
    ensures
        r is None ==> first_index(s@, x, 0) is None,
        r matches Some(c) ==> first_index(s@, x, 0) == Some(c as int),
{
    let n = s.len();
    let mut i: usize = 0;
    while i < n
        invariant
            n == s@.len(),
            i <= n,
            first_index(s@, x, 0) == first_index(s@, x, i as int),
        decreases n - i,
    {
        if s[i] == x {
            return Some(i);
        }
        i = i + 1;
    }
    None
}

/// The status code given by the first three bytes of `v`.
fn read_status(v: &[u8]) -> (r: Option<u16>)
    ensures
        r == status_code(v@),
{
    if v.len() >= 3 && 48 <= v[0] && v[0] <= 57 && 48 <= v[1] && v[1] <= 57 && 48 <= v[2] && v[2]
        <= 57 {
        let n: u16 = 100 * (v[0] - 48) as u16 + 10 * (v[1] - 48) as u16 + (v[2] - 48) as u16;
        Some(n)
    } else {
        None
    }
}

/// Reads one header line into the status and header list.
fn read_line(line: &[u8], status: &mut u16, headers: &mut Vec<(Vec<u8>, Vec<u8>)>) -> (ok: bool)
    ensures
        match apply_line((*old(status), headers_view(old(headers)@)), line@) {
            None => !ok,
            Some(h) => ok && h == (*final(status), headers_view(final(headers)@)),
        },
{
    let c = match find_byte(line, COLON) {
        None => return false,
        Some(c) => c,
    };
    proof {
        lemma_first_index(line@, COLON, 0);
    }
    let n = line.len();
    assert(c < n);
    let name = slice_subrange(line, 0, c);
    let mut value = slice_subrange(line, c + 1, n);
    if value.len() > 0 && value[0] == SPACE {
        value = slice_subrange(value, 1, value.len());
        assert(value@ == strip_space(line@.subrange(c + 1, line@.len() as int)));
    }
    proof {
        reveal_with_fuel(status_name, 1);
    }
    let is_status = name.len() == 6 && name[0] == 83 && name[1] == 116 && name[2] == 97 && name[3]
        == 116 && name[4] == 117 && name[5] == 115;
    assert(is_status <==> name@ == status_name()) by {
        if name@.len() == 6 {
            if name@ == status_name() {
                assert(name@[0] == 83u8);
            }
            if is_status {
                assert(name@ =~= status_name());
            }
        }
    }
    if is_status {
        match read_status(value) {
            None => false,
            Some(n) => {
                *status = n;
                true
            },
        }
    } else {
        let ghost before = headers@;
        headers.push((slice_to_vec(name), slice_to_vec(value)));
        assert(headers_view(headers@) =~= headers_view(before).push((name@, value@)));
        true
    }
}

/// Parses the output of a CGI program.
///
/// Lines end with `\n` or `\r\n`. Every line before the first blank one is a
/// header `Name: value`; `Status: NNN reason` sets the status from its
/// three digits, any other header is forwarded in order, duplicates kept.
/// What follows the blank line is the body. Output with no blank line is
/// all body, with status 200 and no headers.
pub fn parse_cgi_output(out: &[u8]) -> (r: Result<CgiResponse, CgiError>)
    ensures
        match cgi_reply(out@) {
            None => r == Err::<CgiResponse, CgiError>(CgiError::Protocol),
            Some(reply) => r matches Ok(resp) && reply == (
                resp.status,
                headers_view(resp.headers@),
                resp.body@,
            ),
        },
{
    let e = match find_blank(out) {
        None => {
            let resp = CgiResponse {
                status: DEFAULT_STATUS,
                headers: Vec::new(),
                body: slice_to_vec(out),
            };
            assert(headers_view(resp.headers@) =~= Seq::empty());
            return Ok(resp);
        },
        Some(e) => e,
    };
    proof {
        lemma_first_blank(out@, 0);
    }
    assert(first_blank(out@, 0) == Some(e as int));
    let mut status: u16 = DEFAULT_STATUS;
    let mut headers: Vec<(Vec<u8>, Vec<u8>)> = Vec::new();
    assert(headers_view(headers@) =~= Seq::empty());
    let mut p: usize = 0;
    let mut ls: usize = 0;
    while p < e
        invariant
            e < out@.len(),
            first_blank(out@, 0) == Some(e as int),
            ls <= p <= e,
            read_block(out@, 0, e as int, 0, (DEFAULT_STATUS, Seq::empty())) == read_block(
                out@,
                p as int,
                e as int,
                ls as int,
                (status, headers_view(headers@)),
            ),
        decreases e - p,
    {
        if out[p] == LF {
            let raw = slice_subrange(out, ls, p);
            let line = if raw.len() > 0 && raw[raw.len() - 1] == CR {
                slice_subrange(raw, 0, raw.len() - 1)
            } else {
                raw
            };
            assert(line@ == strip_cr(out@.subrange(ls as int, p as int)));
            if !read_line(line, &mut status, &mut headers) {
                assert(read_block(out@, p as int, e as int, ls as int, (status, headers_view(headers@))) is None);
                return Err(CgiError::Protocol);
            }
            p = p + 1;
            ls = p;
        } else {
            p = p + 1;
        }
    }
    let skip: usize = if out[e] == LF {
        1
    } else {
        2
    };
    let body = slice_to_vec(slice_subrange(out, e + skip, out.len()));
    Ok(CgiResponse { status, headers, body })
}

} // verus!

//! Request-line parsing.
//!
//! The input is the raw byte buffer read from a connection.  The request
//! line is everything before the first CRLF; it is split on single spaces,
//! the first token names the method and the second is the path, taken byte
//! for byte with no decoding.  Anything after the second token (such as the
//! HTTP version) is ignored.  Parsing yields no request when the line has
//! fewer than two tokens, and rejects a method other than GET or POST
//! (compared case-insensitively) instead of faulting on it.

use vstd::prelude::*;

use crate::scan::find_byte;
use crate::scan::find_byte_index;
use crate::scan::find_crlf;
use crate::scan::find_crlf_index;
use crate::scan::copy_range;
use crate::scan::lemma_find_byte;
use crate::scan::lemma_find_crlf;

verus! {

/// The space byte that separates the tokens of a request line.
pub const SP: u8 = 32;

/// An HTTP method this server understands.
#[derive(Clone, Copy, Debug, PartialEq, Eq, Structural)]
pub enum Method {
    Get,
    Post,
}

/// A parsed request: the method, and the raw path token exactly as it stood
/// on the request line (not normalized; it may contain `..` segments).
#[derive(Debug)]
pub struct Request {
    pub method: Method,
    pub path: Vec<u8>,
}

/// ASCII uppercase of one byte; bytes outside `a..=z` are unchanged.
pub open spec fn upper(b: u8) -> u8 {
    if 97 <= b <= 122 {
        (b - 32) as u8
    } else {
        b
    }
}

/// ASCII uppercase applied to every byte of a token.
pub open spec fn upper_seq(s: Seq<u8>) -> Seq<u8> {
    Seq::new(s.len(), |i: int| upper(s[i]))
}

/// The bytes of `GET`.
pub open spec fn get_token() -> Seq<u8> {
    seq![71u8, 69u8, 84u8]
}

/// The bytes of `POST`.
pub open spec fn post_token() -> Seq<u8> {
    seq![80u8, 79u8, 83u8, 84u8]
}

/// The method a token names, compared case-insensitively; `None` for any
/// verb other than GET or POST.
pub open spec fn method_of(tok: Seq<u8>) -> Option<Method> {
    if upper_seq(tok) == get_token() {
        Some(Method::Get)
    } else if upper_seq(tok) == post_token() {
        Some(Method::Post)
    } else {
        None
    }
}

/// The request line: everything before the first CRLF, or the whole input
/// when no CRLF occurs.
pub open spec fn request_line(b: Seq<u8>) -> Seq<u8> {
    b.take(find_crlf(b))
}

/// The method token: the part of the line before the first space.
pub open spec fn method_token(line: Seq<u8>) -> Seq<u8> {
    line.take(find_byte(line, SP))
}

/// True when the line splits into at least two space-separated tokens.
pub open spec fn has_two_tokens(line: Seq<u8>) -> bool {
    find_byte(line, SP) < line.len()
}

/// The path token: from just after the first space up to the next space, or
/// to the end of the line.
pub open spec fn path_token(line: Seq<u8>) -> Seq<u8> {
    let rest = line.skip(find_byte(line, SP) + 1);
    rest.take(find_byte(rest, SP))
}

/// True when parsing the raw input yields a request: the request line has a
/// second token and its first token names a known method.
pub open spec fn parse_ok(b: Seq<u8>) -> bool {
    &&& has_two_tokens(request_line(b))
    &&& method_of(method_token(request_line(b))) is Some
}

/// ASCII uppercase of one byte.
fn upper_byte(b: u8) -> (r: u8)
    ensures
        r == upper(b),
{
    if 97 <= b && b <= 122 {
        b - 32
    } else {
        b
    }
}

/// Classifies a method token, case-insensitively, into the closed method
/// set; any other verb yields `None`.
fn classify_method(tok: &[u8]) -> (m: Option<Method>)
    ensures
        m == method_of(tok@),
{
    if tok.len() == 3 {
        let b0 = upper_byte(tok[0]);
        let b1 = upper_byte(tok[1]);
        let b2 = upper_byte(tok[2]);
        if b0 == 71 && b1 == 69 && b2 == 84 {
            proof {
                assert(upper_seq(tok@) =~= get_token());
            }
            Some(Method::Get)
        } else {
            proof {
                assert(upper_seq(tok@) != get_token());
                assert(upper_seq(tok@).len() != post_token().len());
            }
            None
        }
    } else if tok.len() == 4 {
        let b0 = upper_byte(tok[0]);
        let b1 = upper_byte(tok[1]);
        let b2 = upper_byte(tok[2]);
        let b3 = upper_byte(tok[3]);
        if b0 == 80 && b1 == 79 && b2 == 83 && b3 == 84 {
            proof {
                assert(upper_seq(tok@) =~= post_token());
            }
            Some(Method::Post)
        } else {
            proof {
                assert(upper_seq(tok@) != post_token());
                assert(upper_seq(tok@).len() != get_token().len());
            }
            None
        }
    } else {
        proof {
            assert(upper_seq(tok@).len() != get_token().len());
            assert(upper_seq(tok@).len() != post_token().len());
        }
        None
    }
}

/// Parses the leading bytes of a raw HTTP request into a method and a path.
///
/// The path is the second space-separated token of the request line, byte
/// for byte.  The result is `None` exactly when the request line has fewer
/// than two tokens or its method token is neither GET nor POST.
pub fn parse_request(request: &[u8]) -> (r: Option<Request>)
    ensures
        r is Some <==> parse_ok(request@),
        r matches Some(req) ==> {
            &&& Some(req.method) == method_of(method_token(request_line(request@)))
            &&& req.path@ == path_token(request_line(request@))
        },
{
    proof {
        lemma_find_crlf(request@);
    }
    let line_end = find_crlf_index(request);
    let line = copy_range(request, 0, line_end);
    proof {
        assert(line@ =~= request_line(request@));
        lemma_find_byte(line@, SP);
    }
    let sp = find_byte_index(line.as_slice(), SP);
    if sp == line.len() {
        proof {
            assert(!has_two_tokens(request_line(request@)));
        }
        return None;
    }
    let tok = copy_range(line.as_slice(), 0, sp);
    proof {
        assert(tok@ =~= method_token(line@));
    }
    let rest = copy_range(line.as_slice(), sp + 1, line.len());
    proof {
        assert(rest@ =~= line@.skip(find_byte(line@, SP) + 1));
        lemma_find_byte(rest@, SP);
    }
    let sp2 = find_byte_index(rest.as_slice(), SP);
    let path = copy_range(rest.as_slice(), 0, sp2);
    proof {
        assert(path@ =~= path_token(request_line(request@)));
    }
    match classify_method(tok.as_slice()) {
        Some(method) => Some(Request { method, path }),
        None => None,
    }
}

} // verus!

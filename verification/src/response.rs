//! Response framing.
//!
//! Given a parsed request and the outcome of reading the requested file,
//! this module builds the complete HTTP/1.1 response buffer: status line,
//! a server identification header, `Content-Length`, `Content-Type`,
//! `Connection: Closed`, a blank line, then the body.  The status is always
//! `200 OK`; a file that could not be read yields a fixed fallback body and
//! a `text/html` content type instead of an error status.

use vstd::prelude::*;

use crate::request::Request;
use crate::scan::copy_range;
use crate::scan::lemma_rfind_byte;
use crate::scan::rfind_byte;
use crate::scan::rfind_byte_index;

verus! {

/// The dot byte that introduces a file extension.
pub const DOT: u8 = 46;

/// The bytes of `HTTP/1.1 200 OK\r\nServer: My Rust Code\r\nContent-Length: `,
/// the fixed text up to the decimal body length.
pub open spec fn head_to_length() -> Seq<u8> {
    seq![72u8, 84u8, 84u8, 80u8, 47u8, 49u8, 46u8, 49u8, 32u8, 50u8, 48u8, 48u8, 32u8, 79u8,
        75u8, 13u8, 10u8, 83u8, 101u8, 114u8, 118u8, 101u8, 114u8, 58u8, 32u8, 77u8, 121u8,
        32u8, 82u8, 117u8, 115u8, 116u8, 32u8, 67u8, 111u8, 100u8, 101u8, 13u8, 10u8, 67u8,
        111u8, 110u8, 116u8, 101u8, 110u8, 116u8, 45u8, 76u8, 101u8, 110u8, 103u8, 116u8,
        104u8, 58u8, 32u8]
}

/// The bytes of `\r\nContent-Type: text/`, the fixed text between the body
/// length and the content subtype.
pub open spec fn head_to_type() -> Seq<u8> {
    seq![13u8, 10u8, 67u8, 111u8, 110u8, 116u8, 101u8, 110u8, 116u8, 45u8, 84u8, 121u8, 112u8,
        101u8, 58u8, 32u8, 116u8, 101u8, 120u8, 116u8, 47u8]
}

/// The bytes of `\r\nConnection: Closed\r\n\r\n`, the fixed text between the
/// content subtype and the body.
pub open spec fn head_tail() -> Seq<u8> {
    seq![13u8, 10u8, 67u8, 111u8, 110u8, 110u8, 101u8, 99u8, 116u8, 105u8, 111u8, 110u8, 58u8,
        32u8, 67u8, 108u8, 111u8, 115u8, 101u8, 100u8, 13u8, 10u8, 13u8, 10u8]
}

/// The bytes of the fallback body `<h1>Not Found</h1>`.
pub open spec fn not_found_body() -> Seq<u8> {
    seq![60u8, 104u8, 49u8, 62u8, 78u8, 111u8, 116u8, 32u8, 70u8, 111u8, 117u8, 110u8, 100u8,
        60u8, 47u8, 104u8, 49u8, 62u8]
}

/// The bytes of the default content subtype `html`.
pub open spec fn html_subtype() -> Seq<u8> {
    seq![104u8, 116u8, 109u8, 108u8]
}

/// The decimal digits of `n`, most significant first, with no leading
/// zeros (a single `0` for zero).
pub open spec fn dec_digits(n: nat) -> Seq<u8>
    decreases n,
{
    if n < 10 {
        seq![(48 + n) as u8]
    } else {
        dec_digits(n / 10).push((48 + n % 10) as u8)
    }
}

/// The value a digit byte denotes.
pub open spec fn digit_value(b: u8) -> nat {
    (b - 48) as nat
}

/// The number a sequence of digit bytes denotes in decimal.
pub open spec fn dec_value(s: Seq<u8>) -> nat
    decreases s.len(),
{
    if s.len() == 0 {
        0
    } else {
        dec_value(s.drop_last()) * 10 + digit_value(s.last())
    }
}

/// The decimal text written for a length denotes exactly that length: its
/// bytes are digits, the first is not `0` unless the length is zero, and
/// reading them back in decimal gives the length again.
pub proof fn lemma_dec_digits_value(n: nat)
    ensures
        dec_value(dec_digits(n)) == n,
        dec_digits(n).len() >= 1,
        forall|i: int| 0 <= i < dec_digits(n).len() ==> 48 <= #[trigger] dec_digits(n)[i] <= 57,
        n > 0 ==> dec_digits(n)[0] != 48,
    decreases n,
{
    if n < 10 {
        let d = dec_digits(n);
        assert(d.drop_last() =~= Seq::<u8>::empty());
        assert(dec_value(d.drop_last()) == 0);
        assert(dec_value(d) == digit_value(d.last()));
    } else {
        lemma_dec_digits_value(n / 10);
        vstd::arithmetic::div_mod::lemma_fundamental_div_mod(n as int, 10);
        let d = dec_digits(n);
        assert(d.drop_last() =~= dec_digits(n / 10));
        assert(digit_value(d.last()) == n % 10);
        assert(dec_value(d) == (n / 10) * 10 + n % 10);
    }
}

/// The content subtype derived from a path: the bytes after the last dot,
/// or `html` when the path has no dot.
pub open spec fn subtype_of(path: Seq<u8>) -> Seq<u8> {
    if rfind_byte(path, DOT) >= 0 {
        path.skip(rfind_byte(path, DOT) + 1)
    } else {
        html_subtype()
    }
}

/// The full response buffer around a given subtype and body.
pub open spec fn frame_response(subtype: Seq<u8>, body: Seq<u8>) -> Seq<u8> {
    head_to_length() + dec_digits(body.len()) + head_to_type() + subtype + head_tail() + body
}

/// The response for a request path and a file-read outcome: the file's
/// bytes under the subtype the path names, or the fallback body as
/// `text/html` when the read failed.
pub open spec fn response_of(path: Seq<u8>, file: Option<Seq<u8>>) -> Seq<u8> {
    match file {
        Some(contents) => frame_response(subtype_of(path), contents),
        None => frame_response(html_subtype(), not_found_body()),
    }
}

fn head_to_length_vec() -> (v: Vec<u8>)
    ensures
        v@ == head_to_length(),
{
    let v = vec![72u8, 84u8, 84u8, 80u8, 47u8, 49u8, 46u8, 49u8, 32u8, 50u8, 48u8, 48u8, 32u8,
        79u8, 75u8, 13u8, 10u8, 83u8, 101u8, 114u8, 118u8, 101u8, 114u8, 58u8, 32u8, 77u8,
        121u8, 32u8, 82u8, 117u8, 115u8, 116u8, 32u8, 67u8, 111u8, 100u8, 101u8, 13u8, 10u8,
        67u8, 111u8, 110u8, 116u8, 101u8, 110u8, 116u8, 45u8, 76u8, 101u8, 110u8, 103u8,
        116u8, 104u8, 58u8, 32u8];
    proof {
        assert(v@ =~= head_to_length());
    }
    v
}

fn head_to_type_vec() -> (v: Vec<u8>)
    ensures
        v@ == head_to_type(),
{
    let v = vec![13u8, 10u8, 67u8, 111u8, 110u8, 116u8, 101u8, 110u8, 116u8, 45u8, 84u8, 121u8,
        112u8, 101u8, 58u8, 32u8, 116u8, 101u8, 120u8, 116u8, 47u8];
    proof {
        assert(v@ =~= head_to_type());
    }
    v
}

fn head_tail_vec() -> (v: Vec<u8>)
    ensures
        v@ == head_tail(),
{
    let v = vec![13u8, 10u8, 67u8, 111u8, 110u8, 110u8, 101u8, 99u8, 116u8, 105u8, 111u8,
        110u8, 58u8, 32u8, 67u8, 108u8, 111u8, 115u8, 101u8, 100u8, 13u8, 10u8, 13u8, 10u8];
    proof {
        assert(v@ =~= head_tail());
    }
    v
}

fn not_found_vec() -> (v: Vec<u8>)
    ensures
        v@ == not_found_body(),
{
    let v = vec![60u8, 104u8, 49u8, 62u8, 78u8, 111u8, 116u8, 32u8, 70u8, 111u8, 117u8, 110u8,
        100u8, 60u8, 47u8, 104u8, 49u8, 62u8];
    proof {
        assert(v@ =~= not_found_body());
    }
    v
}

fn html_vec() -> (v: Vec<u8>)
    ensures
        v@ == html_subtype(),
{
    let v = vec![104u8, 116u8, 109u8, 108u8];
    proof {
        assert(v@ =~= html_subtype());
    }
    v
}

/// Writes `n` in decimal, most significant digit first.
pub fn decimal_digits(n: usize) -> (v: Vec<u8>)
    ensures
        v@ == dec_digits(n as nat),
    decreases n,
{
    if n < 10 {
        let mut v: Vec<u8> = Vec::new();
        v.push(48 + n as u8);
        proof {
            assert(v@ =~= dec_digits(n as nat));
        }
        v
    } else {
        let mut v = decimal_digits(n / 10);
        v.push(48 + (n % 10) as u8);
        v
    }
}

/// Derives the content subtype from the request path: the bytes after the
/// last dot, or `html` when no dot occurs.
pub fn extension_subtype(path: &[u8]) -> (v: Vec<u8>)
    ensures
        v@ == subtype_of(path@),
{
    proof {
        lemma_rfind_byte(path@, DOT);
    }
    let n = path.len();
    match rfind_byte_index(path, DOT) {
        Some(i) => {
            proof {
                assert(i == rfind_byte(path@, DOT));
                assert(i < n);
            }
            let v = copy_range(path, i + 1, n);
            proof {
                assert(v@ =~= subtype_of(path@));
            }
            v
        },
        None => html_vec(),
    }
}

/// Builds the complete response for a parsed request.
///
/// `file` is the outcome of reading the requested file under the serving
/// root: `Some` bytes on success, `None` when the file was missing or
/// unreadable.  The body is the file's bytes verbatim, or the fixed
/// fallback; the status line is always `HTTP/1.1 200 OK`.
pub fn create_response(request: Request, file: Option<Vec<u8>>) -> (r: Vec<u8>)
    ensures
        r@ == response_of(request.path@, file.deep_view()),
{
    let (mut body, mut subtype): (Vec<u8>, Vec<u8>) = match file {
        Some(contents) => {
            let st = extension_subtype(request.path.as_slice());
            (contents, st)
        },
        None => (not_found_vec(), html_vec()),
    };
    let mut out = head_to_length_vec();
    let mut digits = decimal_digits(body.len());
    out.append(&mut digits);
    let mut mid = head_to_type_vec();
    out.append(&mut mid);
    out.append(&mut subtype);
    let mut tail = head_tail_vec();
    out.append(&mut tail);
    out.append(&mut body);
    proof {
        assert(out@ =~= response_of(request.path@, file.deep_view()));
    }
    out
}

/// The response to a found file holds the file's bytes verbatim as the
/// final `contents.len()` bytes of the buffer, the decimal digits of that
/// byte length after the `Content-Length` text, and the subtype the path
/// names after `Content-Type: text/`.
pub proof fn lemma_found_response(path: Seq<u8>, contents: Seq<u8>)
    ensures
        response_of(path, Some(contents)) == head_to_length() + dec_digits(contents.len())
            + head_to_type() + subtype_of(path) + head_tail() + contents,
        response_of(path, Some(contents)).len() >= contents.len(),
        response_of(path, Some(contents)).subrange(
            response_of(path, Some(contents)).len() - contents.len(),
            response_of(path, Some(contents)).len() as int,
        ) == contents,
{
    let r = response_of(path, Some(contents));
    assert(r.subrange(r.len() - contents.len(), r.len() as int) =~= contents);
}

/// The response to a failed read ends with exactly the fallback body
/// `<h1>Not Found</h1>`, frames it as `text/html`, and still opens with the
/// `HTTP/1.1 200 OK` status text.
pub proof fn lemma_missing_response(path: Seq<u8>)
    ensures
        response_of(path, None) == head_to_length() + dec_digits(not_found_body().len())
            + head_to_type() + html_subtype() + head_tail() + not_found_body(),
        response_of(path, None).subrange(
            response_of(path, None).len() - not_found_body().len(),
            response_of(path, None).len() as int,
        ) == not_found_body(),
{
    let r = response_of(path, None);
    assert(r.subrange(r.len() - not_found_body().len(), r.len() as int) =~= not_found_body());
}

/// Response framing is deterministic: the same request path and the same
/// file-read outcome always frame to byte-identical responses.
pub proof fn lemma_response_deterministic(
    path1: Seq<u8>,
    file1: Option<Seq<u8>>,
    path2: Seq<u8>,
    file2: Option<Seq<u8>>,
)
    requires
        path1 == path2,
        file1 == file2,
    ensures
        response_of(path1, file1) == response_of(path2, file2),
{
}

} // verus!

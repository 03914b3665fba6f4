//! A tiny verified core for a single-connection static-file HTTP server.
//!
//! The library holds the two pure stages of the request pipeline: parsing a
//! request line out of raw bytes, and framing an HTTP/1.1 response around a
//! file's contents (or a fixed fallback body).  The surrounding program does
//! the socket and file-system work and hands this crate plain byte values.

use vstd::prelude::*;

pub mod request;
pub mod response;
pub mod scan;

verus! {

/// Adds two numbers; the sum must fit in the type.
pub fn add(a: u64, b: u64) -> (r: u64)
    requires
        a + b <= u64::MAX,
    ensures
        r == a + b,
{
    a + b
}

} // verus!

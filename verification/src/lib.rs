//! A minimal HTTP/1.1 server library: terminator-based request framing, a
//! hand-written request parser, a fixed routing table, gzip content encoding,
//! and a hand-built response serializer, all working on raw wire bytes.
//!
//! Socket I/O, the worker pool and the filesystem are external collaborators:
//! the functions here turn received bytes into decisions and responses, and a
//! thin unverified shell performs the reads, writes and file operations.

use vstd::prelude::*;

pub mod args;
pub mod codec;
pub mod connection;
pub mod request;
pub mod response;
pub mod routes;
pub mod status;

verus! {

/// The bytes of an ASCII character sequence, one byte per character.
pub open spec fn ascii_of(s: Seq<char>) -> Seq<u8> {
    Seq::new(s.len(), |i: int| s[i] as u8)
}

/// Appends the bytes of an ASCII string slice to a byte vector.
pub fn push_ascii(out: &mut Vec<u8>, s: &str)
    requires
        vstd::string::is_ascii(s),
    ensures
        final(out)@ == old(out)@ + ascii_of(s@),
{
    proof {
        vstd::string::is_ascii_spec_bytes(s);
    }
    let mut bv = s.as_bytes_vec();
    assert(bv@ =~= ascii_of(s@));
    out.append(&mut bv);
}

} // verus!

//! Per-connection decisions of the connection loop: whether the exchange
//! that just finished closes the connection, and how the receive buffer moves
//! on to the next pipelined request. The loop itself — reading from and
//! writing to the socket — lives outside the library and only calls in.

use vstd::prelude::*;

use crate::ascii_of;
use crate::push_ascii;
use crate::response::Response;
use crate::response::SpecResponse;
use crate::request::SpecRequest;

verus! {

/// Whether a response tears the connection down: its `Connection` header is
/// present and equals `close` exactly.
pub open spec fn spec_should_close(r: SpecResponse) -> bool {
    r.headers.connection == Some(ascii_of("close"@))
}

/// Decides persistence from the response: `true` exactly when its
/// `Connection` value is `close`, after which the socket must be shut down;
/// any other or absent value keeps the connection alive.
pub fn should_close(response: &Response) -> (r: bool)
    ensures
        r == spec_should_close(response@),
{
    match &response.headers.connection {
        Some(v) => {
            let mut close_lit: Vec<u8> = Vec::new();
            proof {
                reveal_strlit("close");
            }
            assert(vstd::string::is_ascii("close"));
            push_ascii(&mut close_lit, "close");
            crate::request::bytes_eq(v.as_slice(), close_lit.as_slice())
        },
        None => false,
    }
}

/// Discards exactly the consumed bytes of one request from the receive
/// buffer, keeping any already-buffered bytes of a following pipelined
/// request.
pub fn consume_parsed(buf: &mut Vec<u8>, used: usize)
    requires
        used <= old(buf)@.len(),
    ensures
        final(buf)@ == old(buf)@.skip(used as int),
{
    let tail = buf.split_off(used);
    *buf = tail;
    assert(buf@ =~= old(buf)@.skip(used as int));
}

/// A request whose `Connection` header is `close` is answered, on every
/// route, by a response that closes the connection — and only such a request
/// is: every handler copies the request's `Connection` value into its
/// response, and the persistence decision reads it back.
pub proof fn lemma_connection_close(req: SpecRequest, dir: Seq<u8>, file: Option<Seq<u8>>)
    ensures
        spec_should_close(crate::routes::spec_response_of(req, dir, file)) <==> req.headers.connection
            == Some(ascii_of("close"@)),
{
}

} // verus!

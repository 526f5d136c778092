//! The response statuses the server emits, each with its fixed status line.

use vstd::prelude::*;

use crate::ascii_of;
use crate::push_ascii;

verus! {

/// The statuses a handler can answer with.
#[derive(Clone, Copy, PartialEq, Eq, Structural, Debug)]
pub enum StatusCode {
    _200,
    _404,
    _201,
}

/// The fixed wire text of the status line for each status, without the
/// trailing line break.
pub open spec fn spec_status_line(s: StatusCode) -> Seq<u8> {
    match s {
        StatusCode::_200 => ascii_of("HTTP/1.1 200 OK"@),
        StatusCode::_404 => ascii_of("HTTP/1.1 404 Not Found"@),
        StatusCode::_201 => ascii_of("HTTP/1.1 201 Created"@),
    }
}

impl StatusCode {
    /// The wire bytes of the status line for this status.
    pub fn status_line(&self) -> (r: Vec<u8>)
        ensures
            r@ == spec_status_line(*self),
    {
        let mut out: Vec<u8> = Vec::new();
        match self {
            StatusCode::_200 => {
                proof {
                    reveal_strlit("HTTP/1.1 200 OK");
                }
                assert(vstd::string::is_ascii("HTTP/1.1 200 OK"));
                push_ascii(&mut out, "HTTP/1.1 200 OK");
            },
            StatusCode::_404 => {
                proof {
                    reveal_strlit("HTTP/1.1 404 Not Found");
                }
                assert(vstd::string::is_ascii("HTTP/1.1 404 Not Found"));
                push_ascii(&mut out, "HTTP/1.1 404 Not Found");
            },
            StatusCode::_201 => {
                proof {
                    reveal_strlit("HTTP/1.1 201 Created");
                }
                assert(vstd::string::is_ascii("HTTP/1.1 201 Created"));
                push_ascii(&mut out, "HTTP/1.1 201 Created");
            },
        }
        assert(out@ =~= spec_status_line(*self));
        out
    }
}

} // verus!

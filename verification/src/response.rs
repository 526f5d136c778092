//! The structured response and its serializer: a response becomes a header
//! block of five fixed lines followed by a blank line; the body is written
//! separately, after the header block.

use vstd::prelude::*;

use crate::ascii_of;
use crate::codec::Encoder;
use crate::push_ascii;
use crate::status::spec_status_line;
use crate::status::StatusCode;

verus! {

/// The response headers the server emits. Absent optional values are still
/// serialized, as empty strings (`Content-Type`, `Content-Encoding`), as `0`
/// (`Content-Length`), or as `keep-alive` (`Connection`).
pub struct ResponseHeaders {
    pub content_type: Option<Vec<u8>>,
    pub content_length: Option<usize>,
    pub content_encoding: Option<Encoder>,
    pub connection: Option<Vec<u8>>,
}

/// A structured response: status, headers and an optional body. When the body
/// is present, `content_length` equals its length after any encoding step;
/// when `content_encoding` is set, the body already holds the encoded bytes.
pub struct Response {
    pub status_line: StatusCode,
    pub headers: ResponseHeaders,
    pub body: Option<Vec<u8>>,
}

/// The mathematical model of [`ResponseHeaders`].
pub struct SpecResponseHeaders {
    pub content_type: Option<Seq<u8>>,
    pub content_length: Option<nat>,
    pub content_encoding: Option<Encoder>,
    pub connection: Option<Seq<u8>>,
}

/// The mathematical model of [`Response`].
pub struct SpecResponse {
    pub status_line: StatusCode,
    pub headers: SpecResponseHeaders,
    pub body: Option<Seq<u8>>,
}

impl View for ResponseHeaders {
    type V = SpecResponseHeaders;

    open spec fn view(&self) -> SpecResponseHeaders {
        SpecResponseHeaders {
            content_type: match self.content_type {
                Some(v) => Some(v@),
                None => None,
            },
            content_length: match self.content_length {
                Some(n) => Some(n as nat),
                None => None,
            },
            content_encoding: self.content_encoding,
            connection: match self.connection {
                Some(v) => Some(v@),
                None => None,
            },
        }
    }
}

impl View for Response {
    type V = SpecResponse;

    open spec fn view(&self) -> SpecResponse {
        SpecResponse {
            status_line: self.status_line,
            headers: self.headers@,
            body: match self.body {
                Some(v) => Some(v@),
                None => None,
            },
        }
    }
}

/// The decimal digits of `n`, most significant first, without a sign and
/// without leading zeroes (`0` itself is the single digit `0`).
pub open spec fn dec_bytes(n: nat) -> Seq<u8>
    decreases n,
{
    if n < 10 {
        seq![(48 + n) as u8]
    } else {
        dec_bytes(n / 10).push((48 + n % 10) as u8)
    }
}

/// Appends the decimal digits of `n` to `out`.
pub fn push_dec(out: &mut Vec<u8>, n: usize)
    ensures
        final(out)@ == old(out)@ + dec_bytes(n as nat),
    decreases n,
{
    if n >= 10 {
        push_dec(out, n / 10);
    }
    let d: u8 = (n % 10) as u8;
    out.push(48 + d);
    assert(final(out)@ =~= old(out)@ + dec_bytes(n as nat));
}

/// The serialized value of the `Content-Type` line: the raw value, or empty.
pub open spec fn spec_opt_value(o: Option<Seq<u8>>) -> Seq<u8> {
    match o {
        Some(v) => v,
        None => Seq::empty(),
    }
}

/// The serialized value of the `Content-Encoding` line: the encoding's name,
/// or empty.
pub open spec fn spec_encoding_value(o: Option<Encoder>) -> Seq<u8> {
    match o {
        Some(Encoder::Gzip) => ascii_of("gzip"@),
        None => Seq::empty(),
    }
}

/// The serialized value of the `Connection` line: the raw value, defaulting
/// to `keep-alive`.
pub open spec fn spec_connection_value(o: Option<Seq<u8>>) -> Seq<u8> {
    match o {
        Some(v) => v,
        None => ascii_of("keep-alive"@),
    }
}

/// The serialized value of the `Content-Length` line, defaulting to `0`.
pub open spec fn spec_length_value(o: Option<nat>) -> nat {
    match o {
        Some(n) => n,
        None => 0,
    }
}

/// The full header block of a response: the status line, the four fixed
/// header lines, and the blank line that terminates the block.
pub open spec fn spec_header_block(r: SpecResponse) -> Seq<u8> {
    spec_status_line(r.status_line) + ascii_of("\r\nContent-Type: "@) + spec_opt_value(
        r.headers.content_type,
    ) + ascii_of("\r\nContent-Encoding: "@) + spec_encoding_value(r.headers.content_encoding)
        + ascii_of("\r\nContent-Length: "@) + dec_bytes(spec_length_value(r.headers.content_length))
        + ascii_of("\r\nConnection: "@) + spec_connection_value(r.headers.connection) + ascii_of(
        "\r\n\r\n"@,
    )
}

impl Response {
    /// Serializes the header block of this response into wire bytes.
    pub fn build_response_header(&self) -> (r: Vec<u8>)
        ensures
            r@ == spec_header_block(self@),
    {
        let mut out = self.status_line.status_line();
        proof {
            reveal_strlit("\r\nContent-Type: ");
        }
        assert(vstd::string::is_ascii("\r\nContent-Type: "));
        push_ascii(&mut out, "\r\nContent-Type: ");
        match &self.headers.content_type {
            Some(v) => out.extend_from_slice(v.as_slice()),
            None => (),
        }
        proof {
            reveal_strlit("\r\nContent-Encoding: ");
        }
        assert(vstd::string::is_ascii("\r\nContent-Encoding: "));
        push_ascii(&mut out, "\r\nContent-Encoding: ");
        match self.headers.content_encoding {
            Some(Encoder::Gzip) => {
                proof {
                    reveal_strlit("gzip");
                }
                assert(vstd::string::is_ascii("gzip"));
                push_ascii(&mut out, "gzip");
            },
            None => (),
        }
        proof {
            reveal_strlit("\r\nContent-Length: ");
        }
        assert(vstd::string::is_ascii("\r\nContent-Length: "));
        push_ascii(&mut out, "\r\nContent-Length: ");
        let n: usize = match self.headers.content_length {
            Some(n) => n,
            None => 0,
        };
        push_dec(&mut out, n);
        proof {
            reveal_strlit("\r\nConnection: ");
        }
        assert(vstd::string::is_ascii("\r\nConnection: "));
        push_ascii(&mut out, "\r\nConnection: ");
        match &self.headers.connection {
            Some(v) => out.extend_from_slice(v.as_slice()),
            None => {
                proof {
                    reveal_strlit("keep-alive");
                }
                assert(vstd::string::is_ascii("keep-alive"));
                push_ascii(&mut out, "keep-alive");
            },
        }
        proof {
            reveal_strlit("\r\n\r\n");
        }
        assert(vstd::string::is_ascii("\r\n\r\n"));
        push_ascii(&mut out, "\r\n\r\n");
        assert(out@ =~= spec_header_block(self@));
        out
    }
}

} // verus!

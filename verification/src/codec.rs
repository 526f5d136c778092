//! Content encoding of response bodies. The only supported encoding is gzip;
//! the compression itself is done by the `flate2` crate behind a trusted
//! wrapper, and `encode` applies it once, after routing and before
//! serialization.

use vstd::prelude::*;

use flate2::write::GzEncoder;
use flate2::Compression;
use std::io::Write;

use crate::response::Response;

verus! {

/// The content encodings the server can apply to a response body.
#[derive(Clone, Copy, PartialEq, Eq, Structural, Debug)]
pub enum Encoder {
    Gzip,
}

/// The byte stream that `flate2`'s gzip encoder produces for the given input
/// at the default compression level. With the version of `flate2` this crate
/// pins, the stream is a function of the input alone: the header it writes
/// has a zero timestamp and a fixed operating-system byte, and the deflate
/// payload comes from the crate's pure-Rust backend.
pub uninterp spec fn gzip_of(data: Seq<u8>) -> Seq<u8>;

/// The bytes that `flate2`'s gzip decoder recovers from a byte stream:
/// `Some` of the original input on a well-formed stream, `None` otherwise.
pub uninterp spec fn gunzip_of(data: Seq<u8>) -> Option<Seq<u8>>;

/// Compresses a body with gzip.
///
/// Relies on `flate2::write::GzEncoder` writing into a `Vec`, which cannot
/// fail: `write_all` and `finish` only pass on errors of the underlying
/// writer, and writing to a `Vec` returns none. The second clause states the
/// round trip that `flate2` documents: decoding the encoder's output with
/// `flate2::read::GzDecoder` gives back the input.
#[verifier::external_body]
pub fn gzip_encoder(data: Vec<u8>) -> (r: Vec<u8>)
    ensures
        r@ == gzip_of(data@),
        gunzip_of(r@) == Some(data@),
{
    let mut encoder = GzEncoder::new(Vec::new(), Compression::default());
    encoder.write_all(&data).unwrap();
    encoder.finish().unwrap()
}

/// Applies the response's content encoding to its body, once.
///
/// A response without an encoding, and one with an encoding but no body, pass
/// through unchanged (the encoding header of the latter is still serialized
/// later). When a gzip encoding and a body are both present, the body is
/// replaced by its compressed form and `content_length` by the compressed
/// length; decompressing the new body gives back the old one.
pub fn encode(response: &mut Response)
    ensures
        old(response).headers.content_encoding is None ==> *final(response) == *old(response),
        old(response).headers.content_encoding == Some(Encoder::Gzip) ==> match old(
            response,
        ).body {
            None => *final(response) == *old(response),
            Some(b) => match final(response).body {
                Some(eb) => {
                    &&& eb@ == gzip_of(b@)
                    &&& gunzip_of(eb@) == Some(b@)
                    &&& final(response).headers.content_length == Some(eb.len())
                    &&& final(response).status_line == old(response).status_line
                    &&& final(response).headers.content_type == old(response).headers.content_type
                    &&& final(response).headers.content_encoding == Some(Encoder::Gzip)
                    &&& final(response).headers.connection == old(response).headers.connection
                },
                None => false,
            },
        },
        crate::routes::spec_length_consistent(old(response)@) ==> crate::routes::spec_length_consistent(
            final(response)@,
        ),
{
    match response.headers.content_encoding {
        Some(Encoder::Gzip) => {
            let body = response.body.take();
            match body {
                Some(b) => {
                    let encoded = gzip_encoder(b);
                    let content_length = encoded.len();
                    response.body = Some(encoded);
                    response.headers.content_length = Some(content_length);
                },
                None => (),
            }
        },
        None => (),
    }
}

} // verus!

//! Gzip compression of file content.

use flate2::read::GzDecoder;
use flate2::write::GzEncoder;
use flate2::Compression;
use std::io::{Read, Write};
use vstd::prelude::*;

verus! {

/// The gzip stream that the encoder produces for the UTF-8 bytes of
/// `content` at its default level; none where the encoder fails on it.
pub uninterp spec fn gzip_stream(content: Seq<char>) -> Option<Seq<u8>>;

/// The text that the decoder reads out of `stream`, if it accepts the stream
/// and what it holds is UTF-8.
pub uninterp spec fn gunzip_text(stream: Seq<u8>) -> Option<Seq<char>>;

/// `std::io::Error`, of which nothing is read.
#[verifier::external_type_specification]
#[verifier::external_body]
pub struct ExIoError(std::io::Error);

/// `flate2::write::GzEncoder` at `Compression::default()`, writing into a
/// vector: the gzip stream of the content, or an error where the encoder
/// fails on it. Nothing but the content decides which.
#[verifier::external_body]
pub(crate) fn compress_data(content: &str) -> (r: Result<Vec<u8>, std::io::Error>)
    ensures
        match r {
            Ok(stream) => gzip_stream(content@) == Some(stream@),
            Err(_) => gzip_stream(content@) is None,
        },
{
    let mut encoder = GzEncoder::new(Vec::new(), Compression::default());
    encoder.write_all(content.as_bytes())?;
    encoder.finish()
}

/// `flate2::read::GzDecoder` read to its end as a string: the text of the
/// stream, or an error where the stream has none.
#[verifier::external_body]
pub(crate) fn decompress_data(compressed: &[u8]) -> (r: Result<String, std::io::Error>)
    ensures
        match r {
            Ok(text) => gunzip_text(compressed@) == Some(text@),
            Err(_) => gunzip_text(compressed@) is None,
        },
{
    let mut decoder = GzDecoder::new(compressed);
    let mut decompressed = String::new();
    decoder.read_to_string(&mut decompressed)?;
    Ok(decompressed)
}

} // verus!

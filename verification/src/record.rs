//! The record that a heavy work unit stores in each file, and the check made
//! when it is read back.

use crate::codec::{compress_data, decompress_data, gunzip_text, gzip_stream};
use crate::content::{generate_large_content, large_content, CHUNKS_PER_MB, CHUNK_BYTES};
use crate::digest::{
    compute_hash, content_hash, hex_bytes, hex_decode, hex_encode, hex_text, is_hex_text,
    lemma_hex_round_trip,
};
use crate::error::UnitError;
use crate::naming::{content_seed, seed_text};
use vstd::prelude::*;
use vstd::string::*;
use vstd::utf8::encode_utf8;

verus! {

/// What a heavy work unit stores in one file.
#[derive(Debug, Clone, PartialEq, Eq)]
pub struct FileData {
    /// The hash of the content.
    pub hash: String,
    /// The compressed content, as hexadecimal text.
    pub data: String,
    /// When the record was made, in milliseconds since the Unix epoch.
    pub timestamp: u128,
}

/// The payload stored for `content`: its gzip stream as hexadecimal text;
/// none where the content cannot be compressed.
pub open spec fn payload_of(content: Seq<char>) -> Option<Seq<char>> {
    match gzip_stream(content) {
        Some(stream) => Some(hex_text(stream)),
        None => None,
    }
}

/// What reading a record back yields: the content, where the payload is
/// hexadecimal text for a gzip stream and the content has the stored hash.
pub open spec fn checked_content(hash: Seq<char>, data: Seq<char>) -> Result<Seq<char>, UnitError> {
    let text = encode_utf8(data);
    if !is_hex_text(text) {
        Err(UnitError::Encoding)
    } else {
        match gunzip_text(hex_bytes(text)) {
            None => Err(UnitError::Compression),
            Some(content) => if content_hash(content) == hash {
                Ok(content)
            } else {
                Err(UnitError::HashMismatch)
            },
        }
    }
}

/// Makes the record for `content` from the outcome of compressing it.
pub fn seal_record(
    content: &str,
    compressed: Result<Vec<u8>, std::io::Error>,
    timestamp: u128,
) -> (r: Result<FileData, UnitError>)
    ensures
        match compressed {
            Ok(stream) => r matches Ok(record) && record.hash@ == content_hash(content@)
                && record.data@ == hex_text(stream@) && record.timestamp == timestamp,
            Err(_) => r == Err::<FileData, UnitError>(UnitError::Compression),
        },
{
    match compressed {
        Ok(stream) => Ok(
            FileData { hash: compute_hash(content), data: hex_encode(stream.as_slice()), timestamp },
        ),
        Err(_) => Err(UnitError::Compression),
    }
}

/// Hashes and compresses `content` into the record to store. It fails
/// exactly where the content cannot be compressed.
pub fn build_file_data(content: &str, timestamp: u128) -> (r: Result<FileData, UnitError>)
    ensures
        match gzip_stream(content@) {
            Some(stream) => r matches Ok(record) && record.hash@ == content_hash(content@)
                && record.data@ == hex_text(stream) && record.timestamp == timestamp,
            None => r == Err::<FileData, UnitError>(UnitError::Compression),
        },
{
    seal_record(content, compress_data(content), timestamp)
}

/// Reads a record back: decodes and decompresses the payload and accepts the
/// content only if it has the stored hash.
pub fn verify_file_data(record: &FileData) -> (r: Result<String, UnitError>)
    ensures
        match checked_content(record.hash@, record.data@) {
            Ok(content) => r matches Ok(text) && text@ == content,
            Err(e) => r == Err::<String, UnitError>(e),
        },
{
    let compressed = match hex_decode(record.data.as_str().as_bytes()) {
        Ok(bytes) => bytes,
        Err(_) => {
            return Err(UnitError::Encoding);
        },
    };
    let content = match decompress_data(compressed.as_slice()) {
        Ok(text) => text,
        Err(_) => {
            return Err(UnitError::Compression);
        },
    };
    let hash = compute_hash(content.as_str());
    check_hash(&record.hash, &hash, content)
}

/// Accepts content whose computed hash is the stored one.
pub fn check_hash(stored: &String, computed: &String, content: String) -> (r: Result<
    String,
    UnitError,
>)
    ensures
        r == if stored@ == computed@ {
            Ok::<String, UnitError>(content)
        } else {
            Err::<String, UnitError>(UnitError::HashMismatch)
        },
{
    if *computed != *stored {
        return Err(UnitError::HashMismatch);
    }
    Ok(content)
}

/// Makes the record for the file with the given index of a heavy unit:
/// generated content of `size_mb` mebibytes, hashed and compressed. It fails
/// exactly where the content cannot be compressed.
pub fn build_unit_file(size_mb: usize, task_id: &str, index: usize, timestamp: u128) -> (r: Result<
    FileData,
    UnitError,
>)
    requires
        size_mb * CHUNKS_PER_MB * CHUNK_BYTES <= usize::MAX,
    ensures
        ({
            let content = large_content(size_mb as nat, seed_text(task_id@, index as nat));
            match gzip_stream(content) {
                Some(stream) => r matches Ok(record) && record.hash@ == content_hash(content)
                    && record.data@ == hex_text(stream) && record.timestamp == timestamp,
                None => r == Err::<FileData, UnitError>(UnitError::Compression),
            }
        }),
{
    let seed = content_seed(task_id, index);
    let content = generate_large_content(size_mb, seed.as_str());
    build_file_data(content.as_str(), timestamp)
}

/// A record as it was built is accepted when it is read back, provided that
/// the decoder gives back the text that the encoder was given.
pub proof fn lemma_built_record_is_accepted(content: Seq<char>)
    requires
        gzip_stream(content) matches Some(stream) && gunzip_text(stream) == Some(content),
    ensures
        payload_of(content) matches Some(data) && checked_content(content_hash(content), data)
            == Ok::<Seq<char>, UnitError>(content),
{
    lemma_hex_round_trip(gzip_stream(content)->Some_0);
}

/// A record is accepted only with content that has the stored hash.
pub proof fn lemma_accepted_content_has_stored_hash(hash: Seq<char>, data: Seq<char>)
    requires
        checked_content(hash, data) is Ok,
    ensures
        content_hash(checked_content(hash, data)->Ok_0) == hash,
{
}

/// Changing the stored hash of an accepted record makes the read fail with
/// a hash mismatch.
pub proof fn lemma_changed_hash_is_rejected(hash: Seq<char>, other: Seq<char>, data: Seq<char>)
    requires
        checked_content(hash, data) is Ok,
        other != hash,
    ensures
        checked_content(other, data) == Err::<Seq<char>, UnitError>(UnitError::HashMismatch),
{
}

} // verus!

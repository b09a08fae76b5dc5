//! The two encodings that the cache keeps on disk: buckets as `bincode`
//! bytes, the index as `serde_json` text.
//!
//! Both crates are called as they are. What they return is named here, and of
//! each pair of names only this is taken on trust: what was encoded decodes to
//! what it was.

use crate::error::CacheError;
use crate::segment::{pairs_of, WordSegment};
use crate::index::words_of;
use vstd::prelude::*;

verus! {

/// The error of `bincode`.
#[verifier::external_type_specification]
#[verifier::external_body]
pub struct ExBincodeErrorKind(bincode::ErrorKind);

/// The error of `serde_json`.
#[verifier::external_type_specification]
#[verifier::external_body]
pub struct ExJsonError(serde_json::Error);

/// The bytes that `bincode::serialize` gives for a list of pairs, or `None`
/// where it gives an error.
pub uninterp spec fn segment_encoding(pairs: Seq<(Seq<char>, Seq<u8>)>) -> Option<Seq<u8>>;

/// The list of pairs that `bincode::deserialize` reads from bytes, or `None`
/// where it gives an error.
pub uninterp spec fn segment_decoding(bytes: Seq<u8>) -> Option<Seq<(Seq<char>, Seq<u8>)>>;

/// The text that `serde_json::to_string_pretty` gives for a list of words, or
/// `None` where it gives an error.
pub uninterp spec fn index_rendering(words: Seq<Seq<char>>) -> Option<Seq<char>>;

/// The list of words that `serde_json::from_str` reads from a text, or `None`
/// where it gives an error.
pub uninterp spec fn index_parsing(text: Seq<char>) -> Option<Seq<Seq<char>>>;

/// Calls `bincode::serialize` on a list of pairs. Trusted: the outcome is
/// `segment_encoding` of the pairs, and bytes that come out are read back by
/// `bincode::deserialize` as the same pairs.
#[verifier::external_body]
fn serialize_pairs(pairs: &WordSegment) -> (out: Result<Vec<u8>, Box<bincode::ErrorKind>>)
    ensures
        match out {
            Ok(bytes) => segment_encoding(pairs_of(pairs@)) == Some(bytes@) && segment_decoding(
                bytes@,
            ) == Some(pairs_of(pairs@)),
            Err(_) => segment_encoding(pairs_of(pairs@)) is None,
        },
{
    bincode::serialize(pairs)
}

/// Calls `bincode::deserialize` for a list of pairs. Trusted: the outcome is
/// `segment_decoding` of the bytes.
#[verifier::external_body]
fn deserialize_pairs(bytes: &[u8]) -> (out: Result<WordSegment, Box<bincode::ErrorKind>>)
    ensures
        match out {
            Ok(pairs) => segment_decoding(bytes@) == Some(pairs_of(pairs@)),
            Err(_) => segment_decoding(bytes@) is None,
        },
{
    bincode::deserialize(bytes)
}

/// Calls `serde_json::to_string_pretty` on a list of words. Trusted: the
/// outcome is `index_rendering` of the words, and a text that comes out is
/// read back by `serde_json::from_str` as the same words.
#[verifier::external_body]
fn words_to_json(words: &Vec<String>) -> (out: Result<String, serde_json::Error>)
    ensures
        match out {
            Ok(text) => index_rendering(words_of(words@)) == Some(text@) && index_parsing(text@)
                == Some(words_of(words@)),
            Err(_) => index_rendering(words_of(words@)) is None,
        },
{
    serde_json::to_string_pretty(words)
}

/// Calls `serde_json::from_str` for a list of words. Trusted: the outcome is
/// `index_parsing` of the text.
#[verifier::external_body]
fn words_from_json(text: &str) -> (out: Result<Vec<String>, serde_json::Error>)
    ensures
        match out {
            Ok(words) => index_parsing(text@) == Some(words_of(words@)),
            Err(_) => index_parsing(text@) is None,
        },
{
    serde_json::from_str(text)
}

/// The bytes of a bucket that holds `pairs`. Fails with `Io` where the pairs
/// cannot be written down.
pub fn encode_segment(pairs: &WordSegment) -> (out: Result<Vec<u8>, CacheError>)
    ensures
        match out {
            Ok(bytes) => segment_encoding(pairs_of(pairs@)) == Some(bytes@) && segment_decoding(
                bytes@,
            ) == Some(pairs_of(pairs@)),
            Err(error) => error == CacheError::Io && segment_encoding(pairs_of(pairs@)) is None,
        },
{
    match serialize_pairs(pairs) {
        Ok(bytes) => Ok(bytes),
        Err(_) => Err(CacheError::Io),
    }
}

/// The pairs that the bytes of a bucket hold. Fails with `Decode` where the
/// bytes are not a list of pairs.
pub fn decode_segment(bytes: &[u8]) -> (out: Result<WordSegment, CacheError>)
    ensures
        match out {
            Ok(pairs) => segment_decoding(bytes@) == Some(pairs_of(pairs@)),
            Err(error) => error == CacheError::Decode && segment_decoding(bytes@) is None,
        },
{
    match deserialize_pairs(bytes) {
        Ok(pairs) => Ok(pairs),
        Err(_) => Err(CacheError::Decode),
    }
}

/// The text of an index file that lists `words`. Fails with `Io` where the
/// words cannot be written down.
pub fn render_index(words: &Vec<String>) -> (out: Result<String, CacheError>)
    ensures
        match out {
            Ok(text) => index_rendering(words_of(words@)) == Some(text@) && index_parsing(text@)
                == Some(words_of(words@)),
            Err(error) => error == CacheError::Io && index_rendering(words_of(words@)) is None,
        },
{
    match words_to_json(words) {
        Ok(text) => Ok(text),
        Err(_) => Err(CacheError::Io),
    }
}

/// The words that the text of an index file lists. Fails with `Decode` where
/// the text is not a list of words.
pub fn parse_index(text: &str) -> (out: Result<Vec<String>, CacheError>)
    ensures
        match out {
            Ok(words) => index_parsing(text@) == Some(words_of(words@)),
            Err(error) => error == CacheError::Decode && index_parsing(text@) is None,
        },
{
    match words_from_json(text) {
        Ok(words) => Ok(words),
        Err(_) => Err(CacheError::Decode),
    }
}

} // verus!

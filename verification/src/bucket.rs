//! Bucket addressing: from a word to the name of the file that holds its
//! pairs.
//!
//! A word is hashed to 64 bits. The six hexadecimal digits of the upper 24
//! bits name the bucket, so that there are at most 16^6 buckets and distinct
//! words may share one.

use std::collections::hash_map::DefaultHasher;
use std::hash::{BuildHasher, BuildHasherDefault};
use vstd::prelude::*;

verus! {

/// The 64-bit hash that `DefaultHasher`, made without keys, gives for a word.
pub uninterp spec fn str_hash_value(word: Seq<char>) -> u64;

/// Hashes a word with a `DefaultHasher` made without keys, through
/// `BuildHasher::hash_one`. Trusted: the result is `str_hash_value` of the
/// word, that is, it depends on the characters of the word alone.
#[verifier::external_body]
fn str_hash(word: &str) -> (hash: u64)
    ensures
        hash == str_hash_value(word@),
{
    BuildHasherDefault::<DefaultHasher>::default().hash_one(word)
}

/// The lower-case hexadecimal digit for a number below 16.
pub open spec fn hex_digit(n: int) -> char {
    if n == 0 {
        '0'
    } else if n == 1 {
        '1'
    } else if n == 2 {
        '2'
    } else if n == 3 {
        '3'
    } else if n == 4 {
        '4'
    } else if n == 5 {
        '5'
    } else if n == 6 {
        '6'
    } else if n == 7 {
        '7'
    } else if n == 8 {
        '8'
    } else if n == 9 {
        '9'
    } else if n == 10 {
        'a'
    } else if n == 11 {
        'b'
    } else if n == 12 {
        'c'
    } else if n == 13 {
        'd'
    } else if n == 14 {
        'e'
    } else {
        'f'
    }
}

/// The upper 24 bits of a hash, as a number.
pub open spec fn top_bits(hash: u64) -> int {
    hash as int / 0x100_0000_0000
}

/// The name of the bucket of a hash: the upper 24 bits in six hexadecimal
/// digits, the most significant first.
pub open spec fn bucket_id(hash: u64) -> Seq<char> {
    let top: int = top_bits(hash);
    seq![
        hex_digit(top / 0x10_0000 % 16),
        hex_digit(top / 0x1_0000 % 16),
        hex_digit(top / 0x1000 % 16),
        hex_digit(top / 0x100 % 16),
        hex_digit(top / 0x10 % 16),
        hex_digit(top % 16),
    ]
}

/// The name of the file of a bucket: its six digits and `.bin`.
pub open spec fn bucket_file_name(hash: u64) -> Seq<char> {
    bucket_id(hash) + ".bin"@
}

/// The name of the file in which the pairs of `word` are kept.
pub open spec fn bucket_file_of(word: Seq<char>) -> Seq<char> {
    bucket_file_name(str_hash_value(word))
}

/// The hexadecimal digit for `n`, as a string of one character.
fn hex_digit_str(n: u64) -> (digit: &'static str)
    requires
        n < 16,
    ensures
        digit@ == seq![hex_digit(n as int)],
{
    proof {
        reveal_strlit("0");
        reveal_strlit("1");
        reveal_strlit("2");
        reveal_strlit("3");
        reveal_strlit("4");
        reveal_strlit("5");
        reveal_strlit("6");
        reveal_strlit("7");
        reveal_strlit("8");
        reveal_strlit("9");
        reveal_strlit("a");
        reveal_strlit("b");
        reveal_strlit("c");
        reveal_strlit("d");
        reveal_strlit("e");
        reveal_strlit("f");
    }
    let digit = if n == 0 {
        "0"
    } else if n == 1 {
        "1"
    } else if n == 2 {
        "2"
    } else if n == 3 {
        "3"
    } else if n == 4 {
        "4"
    } else if n == 5 {
        "5"
    } else if n == 6 {
        "6"
    } else if n == 7 {
        "7"
    } else if n == 8 {
        "8"
    } else if n == 9 {
        "9"
    } else if n == 10 {
        "a"
    } else if n == 11 {
        "b"
    } else if n == 12 {
        "c"
    } else if n == 13 {
        "d"
    } else if n == 14 {
        "e"
    } else {
        "f"
    };
    assert(digit@ =~= seq![hex_digit(n as int)]);
    digit
}

/// The name of the bucket of `hash`.
pub fn bucket_id_of_hash(hash: u64) -> (id: String)
    ensures
        id@ == bucket_id(hash),
{
    let top: u64 = hash / 0x100_0000_0000;
    let mut id = String::new();
    id.append(hex_digit_str(top / 0x10_0000 % 16));
    id.append(hex_digit_str(top / 0x1_0000 % 16));
    id.append(hex_digit_str(top / 0x1000 % 16));
    id.append(hex_digit_str(top / 0x100 % 16));
    id.append(hex_digit_str(top / 0x10 % 16));
    id.append(hex_digit_str(top % 16));
    assert(id@ =~= bucket_id(hash));
    id
}

/// The name of the file of the bucket of `hash`.
pub fn file_name_of_hash(hash: u64) -> (name: String)
    ensures
        name@ == bucket_file_name(hash),
{
    let mut name = bucket_id_of_hash(hash);
    name.append(".bin");
    name
}

/// The name of the file in which the pairs of `word` are kept.
pub fn get_file_name(word: &str) -> (name: String)
    ensures
        name@ == bucket_file_of(word@),
{
    file_name_of_hash(str_hash(word))
}

} // verus!

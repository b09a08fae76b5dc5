//! The parts of the cache one by one: addressing, the two encodings, the
//! pairs of a bucket, the index.

use std::collections::hash_map::DefaultHasher;
use std::hash::{Hash, Hasher};
use word_cache::bucket::{bucket_id_of_hash, file_name_of_hash, get_file_name};
use word_cache::codec::{decode_segment, encode_segment, parse_index, render_index};
use word_cache::error::CacheError;
use word_cache::index::KeyIndex;
use word_cache::segment::{find_word, has_word};

#[test]
fn bucket_id_is_the_upper_24_bits_in_hex() {
    assert_eq!(bucket_id_of_hash(0xABCD_EF01_2345_6789), "abcdef");
    assert_eq!(bucket_id_of_hash(0x1234_5600_0000_0000), "123456");
    assert_eq!(bucket_id_of_hash(u64::MAX), "ffffff");
}

#[test]
fn bucket_id_keeps_leading_zeros() {
    assert_eq!(bucket_id_of_hash(0), "000000");
    assert_eq!(bucket_id_of_hash(0x0000_00FF_FFFF_FFFF), "000000");
    assert_eq!(bucket_id_of_hash(0x0000_0100_0000_0000), "000001");
    assert_eq!(bucket_id_of_hash(0x00A0_0B00_0000_0001), "00a00b");
}

#[test]
fn file_name_is_the_id_and_bin() {
    assert_eq!(file_name_of_hash(0xABCD_EF01_2345_6789), "abcdef.bin");
    assert_eq!(file_name_of_hash(0), "000000.bin");
}

#[test]
fn file_name_of_a_word_goes_by_its_hash() {
    for word in ["", "a", "hello", "Hello", "naïve", "a longer key with spaces"] {
        let mut hasher = DefaultHasher::new();
        word.hash(&mut hasher);
        let hash = hasher.finish();
        assert_eq!(get_file_name(word), file_name_of_hash(hash));
    }
}

#[test]
fn file_name_of_a_word_is_six_hex_digits_and_bin() {
    let name = get_file_name("hello");
    assert_eq!(name.len(), 10);
    assert!(name.ends_with(".bin"));
    assert!(name[..6]
        .chars()
        .all(|c| c.is_ascii_digit() || ('a'..='f').contains(&c)));
    assert_eq!(name, get_file_name("hello"));
}

#[test]
fn file_names_differ_between_words() {
    let names: std::collections::HashSet<String> =
        (0..64).map(|n| get_file_name(&format!("w{}", n))).collect();
    assert!(names.len() > 1);
}

#[test]
fn encode_segment_gives_the_bincode_layout() {
    let bytes = encode_segment(&vec![("ab".to_string(), vec![7u8, 8])]).unwrap();
    let expected: Vec<u8> = vec![
        1, 0, 0, 0, 0, 0, 0, 0, // one pair
        2, 0, 0, 0, 0, 0, 0, 0, b'a', b'b', // the word
        2, 0, 0, 0, 0, 0, 0, 0, 7, 8, // the value
    ];
    assert_eq!(bytes, expected);
    assert_eq!(encode_segment(&vec![]).unwrap(), vec![0u8; 8]);
}

#[test]
fn decode_segment_reads_back_what_was_encoded() {
    let pairs = vec![
        ("one".to_string(), vec![1u8]),
        ("".to_string(), vec![]),
        ("zwei ö".to_string(), vec![0u8, 255, 2]),
    ];
    let bytes = encode_segment(&pairs).unwrap();
    assert_eq!(decode_segment(&bytes), Ok(pairs));
}

#[test]
fn decode_segment_refuses_bad_bytes() {
    assert_eq!(decode_segment(&[]), Err(CacheError::Decode));
    assert_eq!(decode_segment(&[1, 2, 3]), Err(CacheError::Decode));
    let cut = vec![1u8, 0, 0, 0, 0, 0, 0, 0, 5, 0, 0, 0, 0, 0, 0, 0, b'a'];
    assert_eq!(decode_segment(&cut), Err(CacheError::Decode));
    let bad_utf8 = vec![
        1u8, 0, 0, 0, 0, 0, 0, 0, 1, 0, 0, 0, 0, 0, 0, 0, 0xff, 0, 0, 0, 0, 0, 0, 0, 0,
    ];
    assert_eq!(decode_segment(&bad_utf8), Err(CacheError::Decode));
}

#[test]
fn decode_segment_reads_an_empty_list() {
    assert_eq!(decode_segment(&[0u8; 8]), Ok(vec![]));
}

#[test]
fn render_index_gives_pretty_json() {
    let words = vec!["a".to_string(), "b \"c\"".to_string()];
    assert_eq!(
        render_index(&words).unwrap(),
        "[\n  \"a\",\n  \"b \\\"c\\\"\"\n]"
    );
}

#[test]
fn parse_index_reads_back_what_was_rendered() {
    let words = vec!["a".to_string(), "ü\n".to_string(), "".to_string()];
    let text = render_index(&words).unwrap();
    assert_eq!(parse_index(&text), Ok(words));
}

#[test]
fn parse_index_reads_a_plain_list() {
    assert_eq!(
        parse_index("[\"x\",\"y\",\"x\"]"),
        Ok(vec!["x".to_string(), "y".to_string(), "x".to_string()])
    );
    assert_eq!(parse_index(" [ ] "), Ok(vec![]));
}

#[test]
fn parse_index_refuses_what_is_no_list_of_words() {
    assert_eq!(parse_index(""), Err(CacheError::Decode));
    assert_eq!(parse_index("[\"a\""), Err(CacheError::Decode));
    assert_eq!(parse_index("{\"a\": true}"), Err(CacheError::Decode));
    assert_eq!(parse_index("[\"a\", 1]"), Err(CacheError::Decode));
    assert_eq!(parse_index("[\"a\"] x"), Err(CacheError::Decode));
}

#[test]
fn find_word_takes_the_first_pair() {
    let pairs = vec![
        ("a".to_string(), vec![1u8]),
        ("b".to_string(), vec![2u8]),
        ("a".to_string(), vec![3u8]),
    ];
    assert_eq!(find_word(&pairs, "a"), Some(vec![1u8]));
    assert_eq!(find_word(&pairs, "b"), Some(vec![2u8]));
    assert_eq!(find_word(&pairs, "c"), None);
    assert_eq!(find_word(&pairs, "A"), None);
    assert_eq!(find_word(&vec![], "a"), None);
}

#[test]
fn has_word_goes_by_the_whole_word() {
    let pairs = vec![("ab".to_string(), vec![1u8])];
    assert!(has_word(&pairs, "ab"));
    assert!(!has_word(&pairs, "a"));
    assert!(!has_word(&pairs, "abc"));
    assert!(!has_word(&vec![], ""));
}

#[test]
fn key_index_inserts_once_and_in_order() {
    let mut index = KeyIndex::new();
    assert!(!index.contains("a"));
    index.insert("b");
    index.insert("a");
    index.insert("b");
    assert!(index.contains("a"));
    assert!(index.contains("b"));
    assert_eq!(index.words(), &vec!["b".to_string(), "a".to_string()]);
}

#[test]
fn key_index_removes_and_keeps_the_order() {
    let mut index = KeyIndex::from_words(&vec![
        "a".to_string(),
        "b".to_string(),
        "c".to_string(),
    ]);
    index.remove("b");
    assert!(!index.contains("b"));
    assert_eq!(index.words(), &vec!["a".to_string(), "c".to_string()]);
    index.remove("b");
    index.remove("zzz");
    assert_eq!(index.words(), &vec!["a".to_string(), "c".to_string()]);
    index.remove("a");
    index.remove("c");
    assert!(index.words().is_empty());
}

#[test]
fn key_index_from_words_keeps_first_occurrences() {
    let index = KeyIndex::from_words(&vec![
        "x".to_string(),
        "y".to_string(),
        "x".to_string(),
        "z".to_string(),
        "y".to_string(),
    ]);
    assert_eq!(
        index.words(),
        &vec!["x".to_string(), "y".to_string(), "z".to_string()]
    );
}

#[test]
fn errors_have_names() {
    assert_eq!(CacheError::CacheMiss.name(), "CacheMiss");
    assert_eq!(CacheError::Io.name(), "Io");
    assert_eq!(CacheError::Decode.name(), "Decode");
}

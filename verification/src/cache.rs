//! The cache engine: the index, and the decisions of `query` and `store`.
//!
//! The engine touches no file. `query` and `store` are driven by events: the
//! caller starts with `Asked`, performs the action that comes back (read a
//! bucket file, write one, write the index file) and calls again with the
//! event that says how it went, until the action is `Done`.
//!
//! The contracts speak of what files hold, not of their bytes: the view of
//! bucket bytes is the list of pairs that they decode to, the view of an
//! index text the list of words that it parses to.

use crate::bucket::{bucket_file_of, get_file_name};
use crate::codec::{
    decode_segment, encode_segment, index_parsing, index_rendering, parse_index, render_index,
    segment_decoding, segment_encoding,
};
use crate::error::CacheError;
use crate::index::{distinct, lemma_distinct, KeyIndex};
use crate::segment::{find_word, has_word, holds_word, pairs_of, value_of, QueryValue, WordSegment};
use std::path::PathBuf;
use vstd::prelude::*;

verus! {

/// A path of the file system. The engine keeps paths and hands them out; it
/// never looks into one.
#[verifier::external_type_specification]
#[verifier::external_body]
pub struct ExPathBuf(std::path::PathBuf);

/// What was read of a file, by its bytes.
pub open spec fn bytes_of(read: Option<Vec<u8>>) -> Option<Seq<u8>> {
    match read {
        Some(bytes) => Some(bytes@),
        None => None,
    }
}

/// What was read of a file, by its characters.
pub open spec fn text_of(read: Option<&str>) -> Option<Seq<char>> {
    match read {
        Some(text) => Some(text@),
        None => None,
    }
}

/// The pairs that a bucket file holds, where it could be read (`Some` bytes)
/// and its bytes are a list of pairs.
pub open spec fn bucket_pairs(read: Option<Seq<u8>>) -> Option<Seq<(Seq<char>, Seq<u8>)>> {
    match read {
        Some(bytes) => segment_decoding(bytes),
        None => None,
    }
}

/// The words that an index file lists, where it could be read (`Some` text)
/// and its text is a list of words.
pub open spec fn index_words(read: Option<Seq<char>>) -> Option<Seq<Seq<char>>> {
    match read {
        Some(text) => index_parsing(text),
        None => None,
    }
}

/// What the caller of `query` reports.
pub enum QueryEvent {
    /// The word is asked for; nothing was done yet.
    Asked,
    /// The bucket file was read: its bytes, or `None` where it could not be
    /// read.
    BucketRead(Option<Vec<u8>>),
}

/// A `QueryEvent` by what the file holds.
pub enum QueryEventView {
    /// The word is asked for.
    Asked,
    /// The bucket file was read: its pairs, or `None` where it could not be
    /// read or its bytes are no list of pairs.
    BucketRead(Option<Seq<(Seq<char>, Seq<u8>)>>),
}

impl View for QueryEvent {
    type V = QueryEventView;

    open spec fn view(&self) -> QueryEventView {
        match *self {
            QueryEvent::Asked => QueryEventView::Asked,
            QueryEvent::BucketRead(read) => QueryEventView::BucketRead(
                bucket_pairs(bytes_of(read)),
            ),
        }
    }
}

/// What `query` asks of its caller.
pub enum QueryAction {
    /// Read the bucket file of this name and report `BucketRead`.
    ReadBucket(String),
    /// The query is over: the value of the word, or `CacheMiss`.
    Done(Result<QueryValue, CacheError>),
}

/// A `QueryAction` by its plain values.
pub enum QueryActionView {
    /// Read the bucket file of this name.
    ReadBucket(Seq<char>),
    /// The query is over.
    Done(Result<Seq<u8>, CacheError>),
}

impl View for QueryAction {
    type V = QueryActionView;

    open spec fn view(&self) -> QueryActionView {
        match *self {
            QueryAction::ReadBucket(name) => QueryActionView::ReadBucket(name@),
            QueryAction::Done(Ok(value)) => QueryActionView::Done(Ok(value@)),
            QueryAction::Done(Err(error)) => QueryActionView::Done(Err(error)),
        }
    }
}

/// What the caller of `store` reports.
pub enum StoreEvent {
    /// The pair is to be stored; nothing was done yet.
    Asked,
    /// The bucket file was read: its bytes, or `None` where it could not be
    /// read.
    BucketRead(Option<Vec<u8>>),
    /// The bucket file was written (`true`), or writing it failed.
    BucketWritten(bool),
    /// The index file was written (`true`), or writing it failed.
    IndexWritten(bool),
}

/// A `StoreEvent` by what the file holds.
pub enum StoreEventView {
    /// The pair is to be stored.
    Asked,
    /// The bucket file was read: its pairs, or `None` where it could not be
    /// read or its bytes are no list of pairs.
    BucketRead(Option<Seq<(Seq<char>, Seq<u8>)>>),
    /// The bucket file was written, or not.
    BucketWritten(bool),
    /// The index file was written, or not.
    IndexWritten(bool),
}

impl View for StoreEvent {
    type V = StoreEventView;

    open spec fn view(&self) -> StoreEventView {
        match *self {
            StoreEvent::Asked => StoreEventView::Asked,
            StoreEvent::BucketRead(read) => StoreEventView::BucketRead(
                bucket_pairs(bytes_of(read)),
            ),
            StoreEvent::BucketWritten(done) => StoreEventView::BucketWritten(done),
            StoreEvent::IndexWritten(done) => StoreEventView::IndexWritten(done),
        }
    }
}

/// What `store` asks of its caller.
pub enum StoreAction {
    /// Read the bucket file of this name and report `BucketRead`.
    ReadBucket(String),
    /// Replace the bucket file of this name by these bytes and report
    /// `BucketWritten`.
    WriteBucket(String, Vec<u8>),
    /// Replace the index file by this text and report `IndexWritten`.
    WriteIndex(String),
    /// The store is over.
    Done(Result<(), CacheError>),
}

/// A `StoreAction` by what the file will hold.
pub enum StoreActionView {
    /// Read the bucket file of this name.
    ReadBucket(Seq<char>),
    /// Write the bucket file of this name: the pairs that the bytes to write
    /// are read back as.
    WriteBucket(Seq<char>, Option<Seq<(Seq<char>, Seq<u8>)>>),
    /// Write the index file: the words that the text to write is read back
    /// as.
    WriteIndex(Option<Seq<Seq<char>>>),
    /// The store is over.
    Done(Result<(), CacheError>),
}

impl View for StoreAction {
    type V = StoreActionView;

    open spec fn view(&self) -> StoreActionView {
        match *self {
            StoreAction::ReadBucket(name) => StoreActionView::ReadBucket(name@),
            StoreAction::WriteBucket(name, bytes) => StoreActionView::WriteBucket(
                name@,
                segment_decoding(bytes@),
            ),
            StoreAction::WriteIndex(text) => StoreActionView::WriteIndex(index_parsing(text@)),
            StoreAction::Done(outcome) => StoreActionView::Done(outcome),
        }
    }
}

/// One step of a query: the index after it, and what is asked of the caller.
///
/// A word that the index does not hold is a miss at once, and no file is
/// read. For a word of the index the bucket is read. The first pair for the
/// word gives the value. Where the bucket cannot be read, holds no list of
/// pairs or no pair for the word, the word leaves the index and the query
/// misses.
pub open spec fn query_step(keys: Seq<Seq<char>>, word: Seq<char>, event: QueryEventView) -> (
    Seq<Seq<char>>,
    QueryActionView,
) {
    if !keys.contains(word) {
        (keys, QueryActionView::Done(Err(CacheError::CacheMiss)))
    } else {
        match event {
            QueryEventView::Asked => (keys, QueryActionView::ReadBucket(bucket_file_of(word))),
            QueryEventView::BucketRead(Some(pairs)) => match value_of(pairs, word) {
                Some(value) => (keys, QueryActionView::Done(Ok(value))),
                None => (
                    keys.remove_value(word),
                    QueryActionView::Done(Err(CacheError::CacheMiss)),
                ),
            },
            QueryEventView::BucketRead(None) => (
                keys.remove_value(word),
                QueryActionView::Done(Err(CacheError::CacheMiss)),
            ),
        }
    }
}

/// The pairs from which a store starts: those that the bucket holds, or none
/// where it holds no list of pairs.
pub open spec fn pairs_before(held: Option<Seq<(Seq<char>, Seq<u8>)>>) -> Seq<
    (Seq<char>, Seq<u8>),
> {
    match held {
        Some(pairs) => pairs,
        None => Seq::empty(),
    }
}

/// The index with `word` in it.
pub open spec fn keys_with(keys: Seq<Seq<char>>, word: Seq<char>) -> Seq<Seq<char>> {
    if keys.contains(word) {
        keys
    } else {
        keys.push(word)
    }
}

/// The last part of a store: the word enters the index, and the index is to
/// be written out. Where the index cannot be written down the store fails
/// with `Io`, the word staying in the index.
pub open spec fn store_commit(keys: Seq<Seq<char>>, word: Seq<char>) -> (
    Seq<Seq<char>>,
    StoreActionView,
) {
    let after = keys_with(keys, word);
    if index_rendering(after) is Some {
        (after, StoreActionView::WriteIndex(Some(after)))
    } else {
        (after, StoreActionView::Done(Err(CacheError::Io)))
    }
}

/// One step of a store: the index after it, and what is asked of the caller.
///
/// A word of the index is left as it is: nothing is read or written. For
/// another word the bucket is read; a bucket that cannot be read or holds no
/// list of pairs counts as empty. Unless the bucket has a pair for the word
/// already, the pair is added at its end and the bucket is written. After
/// that, or at once where nothing had to be written, the word enters the
/// index and the index is written. A write that fails ends the store with
/// `Io`.
pub open spec fn store_step(
    keys: Seq<Seq<char>>,
    word: Seq<char>,
    value: Seq<u8>,
    event: StoreEventView,
) -> (Seq<Seq<char>>, StoreActionView) {
    match event {
        StoreEventView::Asked => if keys.contains(word) {
            (keys, StoreActionView::Done(Ok(())))
        } else {
            (keys, StoreActionView::ReadBucket(bucket_file_of(word)))
        },
        StoreEventView::BucketRead(held) => if keys.contains(word) {
            (keys, StoreActionView::Done(Ok(())))
        } else if holds_word(pairs_before(held), word) {
            store_commit(keys, word)
        } else {
            let pairs = pairs_before(held).push((word, value));
            if segment_encoding(pairs) is Some {
                (keys, StoreActionView::WriteBucket(bucket_file_of(word), Some(pairs)))
            } else {
                (keys, StoreActionView::Done(Err(CacheError::Io)))
            }
        },
        StoreEventView::BucketWritten(done) => if done {
            store_commit(keys, word)
        } else {
            (keys, StoreActionView::Done(Err(CacheError::Io)))
        },
        StoreEventView::IndexWritten(done) => if done {
            (keys, StoreActionView::Done(Ok(())))
        } else {
            (keys, StoreActionView::Done(Err(CacheError::Io)))
        },
    }
}

/// The index with which an engine starts on an index file: the words that
/// the file lists, each once; no word where the file cannot be read or lists
/// nothing.
pub open spec fn keys_at_start(listed: Option<Seq<Seq<char>>>) -> Seq<Seq<char>> {
    match listed {
        Some(words) => distinct(words),
        None => Seq::empty(),
    }
}

/// The cache engine: the index and the two paths it was made with.
pub struct Cache {
    cache_file: PathBuf,
    cache_dir: PathBuf,
    table: KeyIndex,
}

impl View for Cache {
    type V = Set<Seq<char>>;

    /// The set of the words of the index.
    open spec fn view(&self) -> Set<Seq<char>> {
        self.keys().to_set()
    }
}

impl Cache {
    /// The words of the index in the order in which they were added.
    pub closed spec fn keys(self) -> Seq<Seq<char>> {
        self.table.keys()
    }

    /// The path of the index file.
    pub closed spec fn index_path(self) -> PathBuf {
        self.cache_file
    }

    /// The path of the directory of the bucket files.
    pub closed spec fn bucket_dir(self) -> PathBuf {
        self.cache_dir
    }

    /// An engine with an empty index.
    pub fn new(cache_file: PathBuf, cache_dir: PathBuf) -> (cache: Cache)
        ensures
            cache.keys() == Seq::<Seq<char>>::empty(),
            cache@ == Set::<Seq<char>>::empty(),
            cache.index_path() == cache_file,
            cache.bucket_dir() == cache_dir,
    {
        let cache = Cache { cache_file, cache_dir, table: KeyIndex::new() };
        assert(cache.keys().to_set() =~= Set::<Seq<char>>::empty());
        cache
    }

    /// An engine that starts on what was read of the index file: its text,
    /// or `None` where it could not be read. A file that cannot be read or
    /// lists nothing gives an empty index.
    pub fn open(cache_file: PathBuf, cache_dir: PathBuf, index: Option<&str>) -> (cache: Cache)
        ensures
            cache.keys() == keys_at_start(index_words(text_of(index))),
            cache.keys().no_duplicates(),
            cache.index_path() == cache_file,
            cache.bucket_dir() == cache_dir,
    {
        let mut cache = Cache::new(cache_file, cache_dir);
        match index {
            Some(text) => {
                // A text that lists nothing is a cold start, no failure.
                let _ = cache.of_text(text);
            },
            None => {},
        }
        cache
    }

    /// The path of the index file.
    pub fn cache_file(&self) -> (path: &PathBuf)
        ensures
            *path == self.index_path(),
    {
        &self.cache_file
    }

    /// The path of the directory of the bucket files.
    pub fn cache_dir(&self) -> (path: &PathBuf)
        ensures
            *path == self.bucket_dir(),
    {
        &self.cache_dir
    }

    /// Whether `word` is in the index.
    pub fn contains(&self, word: &str) -> (found: bool)
        ensures
            found == self.keys().contains(word@),
            found == self@.contains(word@),
            self.keys().no_duplicates(),
    {
        self.table.contains(word)
    }

    /// Replaces the index by the words that the text of an index file lists,
    /// each once. Fails with `Decode`, the index unchanged, where the text is
    /// no list of words.
    pub fn of_text(&mut self, text: &str) -> (outcome: Result<(), CacheError>)
        ensures
            match outcome {
                Ok(_) => index_parsing(text@) matches Some(words) && final(self).keys()
                    == distinct(words),
                Err(error) => error == CacheError::Decode && index_parsing(text@) is None
                    && final(self).keys() == old(self).keys(),
            },
            final(self)@ == match index_parsing(text@) {
                Some(words) => words.to_set(),
                None => old(self)@,
            },
            final(self).keys().no_duplicates(),
            final(self).index_path() == old(self).index_path(),
            final(self).bucket_dir() == old(self).bucket_dir(),
    {
        self.table.keys_are_distinct();
        match parse_index(text) {
            Ok(words) => {
                self.table = KeyIndex::from_words(&words);
                proof {
                    lemma_distinct(index_parsing(text@).unwrap());
                }
                Ok(())
            },
            Err(error) => Err(error),
        }
    }

    /// The text of an index file that lists the words of the index, in the
    /// order in which they were added. Fails with `Io` where the words cannot
    /// be written down.
    pub fn to_text(&self) -> (outcome: Result<String, CacheError>)
        ensures
            match outcome {
                Ok(text) => index_rendering(self.keys()) == Some(text@) && index_parsing(text@)
                    == Some(self.keys()),
                Err(error) => error == CacheError::Io && index_rendering(self.keys()) is None,
            },
    {
        render_index(self.table.words())
    }

    /// One step of resolving `word`: see `query_step`.
    ///
    /// Start with `QueryEvent::Asked`. On `ReadBucket` read that file of the
    /// bucket directory and call again with `BucketRead`. `Done` carries the
    /// value, or `CacheMiss`. A query writes nothing: a word that it takes
    /// out of the index is still listed in the index file.
    pub fn query(&mut self, word: &str, event: QueryEvent) -> (action: QueryAction)
        ensures
            (final(self).keys(), action@) == query_step(old(self).keys(), word@, event@),
            final(self).keys().no_duplicates(),
            final(self).index_path() == old(self).index_path(),
            final(self).bucket_dir() == old(self).bucket_dir(),
    {
        if !self.table.contains(word) {
            return QueryAction::Done(Err(CacheError::CacheMiss));
        }
        match event {
            QueryEvent::Asked => QueryAction::ReadBucket(get_file_name(word)),
            QueryEvent::BucketRead(read) => {
                match Self::read_word_from_file(word, read) {
                    Ok(value) => QueryAction::Done(Ok(value)),
                    Err(_) => {
                        // Whatever went wrong, the entry is stale: forget it.
                        self.table.remove(word);
                        QueryAction::Done(Err(CacheError::CacheMiss))
                    },
                }
            },
        }
    }

    /// The pairs of a bucket file, as it was read. Fails with `Io` where the
    /// file could not be read, with `Decode` where its bytes are no list of
    /// pairs.
    pub fn read_file_vec(read: Option<Vec<u8>>) -> (outcome: Result<WordSegment, CacheError>)
        ensures
            match outcome {
                Ok(pairs) => bucket_pairs(bytes_of(read)) == Some(pairs_of(pairs@)),
                Err(error) => bucket_pairs(bytes_of(read)) is None && error == if read is None {
                    CacheError::Io
                } else {
                    CacheError::Decode
                },
            },
    {
        match read {
            None => Err(CacheError::Io),
            Some(bytes) => decode_segment(bytes.as_slice()),
        }
    }

    /// The value that the bucket file, as it was read, has for `word`: that
    /// of the first pair for it. Fails as `read_file_vec` does, and with
    /// `CacheMiss` where no pair is for the word.
    pub fn read_word_from_file(word: &str, read: Option<Vec<u8>>) -> (outcome: Result<
        QueryValue,
        CacheError,
    >)
        ensures
            match outcome {
                Ok(value) => bucket_pairs(bytes_of(read)) matches Some(pairs) && value_of(
                    pairs,
                    word@,
                ) == Some(value@),
                Err(error) => match bucket_pairs(bytes_of(read)) {
                    Some(pairs) => error == CacheError::CacheMiss && value_of(pairs, word@)
                        is None,
                    None => error == if read is None {
                        CacheError::Io
                    } else {
                        CacheError::Decode
                    },
                },
            },
    {
        match Self::read_file_vec(read) {
            Err(error) => Err(error),
            Ok(pairs) => match find_word(&pairs, word) {
                Some(value) => Ok(value),
                None => Err(CacheError::CacheMiss),
            },
        }
    }

    /// One step of storing `value` for `word`: see `store_step`.
    ///
    /// Start with `StoreEvent::Asked`. Perform the action that comes back,
    /// on the file of that name in the bucket directory or on the index
    /// file, and call again with the event that says how it went, until the
    /// action is `Done`. The bytes and the text to write are those that
    /// `bincode` and `serde_json` give for the pairs and the words.
    pub fn store(&mut self, word: &str, value: &QueryValue, event: StoreEvent) -> (action:
        StoreAction)
        ensures
            (final(self).keys(), action@) == store_step(
                old(self).keys(),
                word@,
                value@,
                event@,
            ),
            match action {
                StoreAction::WriteBucket(_, bytes) => event@ matches StoreEventView::BucketRead(
                    held,
                ) && segment_encoding(pairs_before(held).push((word@, value@))) == Some(bytes@),
                StoreAction::WriteIndex(text) => index_rendering(final(self).keys()) == Some(
                    text@,
                ),
                _ => true,
            },
            final(self).keys().no_duplicates(),
            final(self).index_path() == old(self).index_path(),
            final(self).bucket_dir() == old(self).bucket_dir(),
    {
        self.table.keys_are_distinct();
        match event {
            StoreEvent::Asked => {
                if self.table.contains(word) {
                    StoreAction::Done(Ok(()))
                } else {
                    StoreAction::ReadBucket(get_file_name(word))
                }
            },
            StoreEvent::BucketRead(read) => {
                if self.table.contains(word) {
                    StoreAction::Done(Ok(()))
                } else {
                    match Self::write_word_to_file(word, value, read) {
                        Ok(Some(bytes)) => StoreAction::WriteBucket(get_file_name(word), bytes),
                        Ok(None) => self.commit(word),
                        Err(error) => StoreAction::Done(Err(error)),
                    }
                }
            },
            StoreEvent::BucketWritten(done) => {
                if done {
                    self.commit(word)
                } else {
                    StoreAction::Done(Err(CacheError::Io))
                }
            },
            StoreEvent::IndexWritten(done) => {
                if done {
                    StoreAction::Done(Ok(()))
                } else {
                    StoreAction::Done(Err(CacheError::Io))
                }
            },
        }
    }

    /// The bytes to write to the bucket of `word` so that it holds `value`
    /// for it, given what was read of the bucket file; `None` where the
    /// bucket has a pair for the word already and stays as it is. A file
    /// that could not be read, or whose bytes are no list of pairs, counts as
    /// an empty bucket. Fails with `Io` where the pairs cannot be written
    /// down.
    pub fn write_word_to_file(word: &str, value: &QueryValue, read: Option<Vec<u8>>) -> (outcome:
        Result<Option<Vec<u8>>, CacheError>)
        ensures
            ({
                let held = pairs_before(bucket_pairs(bytes_of(read)));
                let pairs = held.push((word@, value@));
                match outcome {
                    Ok(None) => holds_word(held, word@),
                    Ok(Some(bytes)) => !holds_word(held, word@) && segment_encoding(pairs) == Some(
                        bytes@,
                    ) && segment_decoding(bytes@) == Some(pairs),
                    Err(error) => !holds_word(held, word@) && error == CacheError::Io
                        && segment_encoding(pairs) is None,
                }
            }),
    {
        let mut pairs: WordSegment = match Self::read_file_vec(read) {
            Ok(pairs) => pairs,
            // A bucket that cannot be read or understood is superseded.
            Err(_) => Vec::new(),
        };
        let ghost held = pairs_of(pairs@);
        assert(held =~= pairs_before(bucket_pairs(bytes_of(read))));
        // Only write when the word is not there already.
        if has_word(&pairs, word) {
            Ok(None)
        } else {
            pairs.push((word.to_owned(), value.clone()));
            assert(pairs_of(pairs@) =~= held.push((word@, value@)));
            match encode_segment(&pairs) {
                Ok(bytes) => Ok(Some(bytes)),
                Err(error) => Err(error),
            }
        }
    }

    /// Puts `word` into the index and asks for the index to be written.
    fn commit(&mut self, word: &str) -> (action: StoreAction)
        ensures
            (final(self).keys(), action@) == store_commit(old(self).keys(), word@),
            action matches StoreAction::WriteIndex(text) ==> index_rendering(final(self).keys())
                == Some(text@),
            !(action is WriteBucket),
            final(self).keys().no_duplicates(),
            final(self).index_path() == old(self).index_path(),
            final(self).bucket_dir() == old(self).bucket_dir(),
    {
        self.table.insert(word);
        match self.to_text() {
            Ok(text) => StoreAction::WriteIndex(text),
            Err(error) => StoreAction::Done(Err(error)),
        }
    }
}

} // verus!

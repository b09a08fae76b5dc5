//! What holds of whole queries and stores.
//!
//! `query` and `store` decide one step at a time. Here the steps are put
//! together into whole operations on a model of the files, in which every
//! read and write that is asked for is carried out, and the laws of the cache
//! are proved of those operations.

use crate::bucket::bucket_file_of;
use crate::cache::{
    keys_at_start, pairs_before, query_step, store_commit, store_step, QueryActionView,
    QueryEventView, StoreActionView, StoreEventView,
};
use crate::error::CacheError;
use crate::index::lemma_distinct_of_distinct;
use crate::segment::{holds_word, lemma_value_after_push, lemma_value_iff_held};
use vstd::prelude::*;

verus! {

/// The engine and its files.
pub struct World {
    /// The index of the engine, in memory.
    pub keys: Seq<Seq<char>>,
    /// The words that the index file lists; `None` where there is no such
    /// file, or none that lists words.
    pub index_file: Option<Seq<Seq<char>>>,
    /// The bucket files by name, each with the pairs that it holds. A name
    /// without an entry has no file, or one that holds no list of pairs.
    pub buckets: Map<Seq<char>, Seq<(Seq<char>, Seq<u8>)>>,
}

/// What reading the bucket file of a name yields.
pub open spec fn read_bucket(world: World, name: Seq<char>) -> Option<Seq<(Seq<char>, Seq<u8>)>> {
    if world.buckets.dom().contains(name) {
        Some(world.buckets[name])
    } else {
        None
    }
}

/// The world after the bucket file of a name was replaced.
pub open spec fn write_bucket(
    world: World,
    name: Seq<char>,
    held: Option<Seq<(Seq<char>, Seq<u8>)>>,
) -> World {
    World {
        buckets: match held {
            Some(pairs) => world.buckets.insert(name, pairs),
            None => world.buckets.remove(name),
        },
        ..world
    }
}

/// A whole query: `query_step` from `Asked` on, the bucket being read where
/// that is asked for.
pub open spec fn run_query(world: World, word: Seq<char>) -> (
    World,
    Result<Seq<u8>, CacheError>,
) {
    match query_step(world.keys, word, QueryEventView::Asked) {
        (keys, QueryActionView::Done(outcome)) => (World { keys, ..world }, outcome),
        (keys, QueryActionView::ReadBucket(name)) => {
            let read = QueryEventView::BucketRead(read_bucket(world, name));
            match query_step(keys, word, read) {
                (after, QueryActionView::Done(outcome)) => (World { keys: after, ..world }, outcome),
                (after, QueryActionView::ReadBucket(_)) => (
                    World { keys: after, ..world },
                    Err(CacheError::Io),
                ),
            }
        },
    }
}

/// The end of a whole store, from the action that follows the reading of the
/// bucket: the files are written as asked, and each write succeeds.
pub open spec fn run_writes(
    world: World,
    word: Seq<char>,
    value: Seq<u8>,
    action: StoreActionView,
    fuel: nat,
) -> (World, Result<(), CacheError>)
    decreases fuel,
{
    match action {
        StoreActionView::Done(outcome) => (world, outcome),
        _ => if fuel == 0 {
            (world, Err(CacheError::Io))
        } else {
            let (written, event) = match action {
                StoreActionView::ReadBucket(name) => (
                    world,
                    StoreEventView::BucketRead(read_bucket(world, name)),
                ),
                StoreActionView::WriteBucket(name, held) => (
                    write_bucket(world, name, held),
                    StoreEventView::BucketWritten(true),
                ),
                StoreActionView::WriteIndex(words) => (
                    World { index_file: words, ..world },
                    StoreEventView::IndexWritten(true),
                ),
                StoreActionView::Done(_) => (world, StoreEventView::Asked),
            };
            let (keys, next) = store_step(written.keys, word, value, event);
            run_writes(World { keys, ..written }, word, value, next, (fuel - 1) as nat)
        },
    }
}

/// A whole store: `store_step` from `Asked` on, each action being carried
/// out and reported as done. No store takes more than four actions.
pub open spec fn run_store(world: World, word: Seq<char>, value: Seq<u8>) -> (
    World,
    Result<(), CacheError>,
) {
    let (keys, action) = store_step(world.keys, word, value, StoreEventView::Asked);
    run_writes(World { keys, ..world }, word, value, action, 4)
}

/// The world in which an engine is made anew on the files as they are.
pub open spec fn restart(world: World) -> World {
    World { keys: keys_at_start(world.index_file), ..world }
}

/// Whether a store of `word` finds neither the word in the index nor a pair
/// for it in its bucket.
pub open spec fn is_new(world: World, word: Seq<char>) -> bool {
    &&& !world.keys.contains(word)
    &&& !holds_word(pairs_before(read_bucket(world, bucket_file_of(word))), word)
}

/// A store of a new word that succeeds adds the pair at the end of the
/// bucket, the word at the end of the index, and writes the index out.
pub proof fn law_store_of_new_word(world: World, word: Seq<char>, value: Seq<u8>)
    requires
        is_new(world, word),
        run_store(world, word, value).1 is Ok,
    ensures
        run_store(world, word, value).0 == (World {
            keys: world.keys.push(word),
            index_file: Some(world.keys.push(word)),
            buckets: world.buckets.insert(
                bucket_file_of(word),
                pairs_before(read_bucket(world, bucket_file_of(word))).push((word, value)),
            ),
        }),
{
    reveal_with_fuel(run_writes, 5);
    let name = bucket_file_of(word);
    let pairs = pairs_before(read_bucket(world, name)).push((word, value));
    let read = StoreEventView::BucketRead(read_bucket(world, name));
    let (keys1, action1) = store_step(world.keys, word, value, read);
    assert(keys1 == world.keys);
    if action1 == StoreActionView::WriteBucket(name, Some(pairs)) {
        let world2 = write_bucket(world, name, Some(pairs));
        let (keys2, action2) = store_step(
            world2.keys,
            word,
            value,
            StoreEventView::BucketWritten(true),
        );
        assert((keys2, action2) == store_commit(world.keys, word));
        assert(keys2 == world.keys.push(word));
    }
}

/// Round trip: where a new word is stored and the store succeeds, a query
/// for the word that follows at once gives the value that was stored.
pub proof fn law_store_then_query(world: World, word: Seq<char>, value: Seq<u8>)
    requires
        is_new(world, word),
        run_store(world, word, value).1 is Ok,
    ensures
        run_query(run_store(world, word, value).0, word) == (
            run_store(world, word, value).0,
            Ok::<Seq<u8>, CacheError>(value),
        ),
{
    law_store_of_new_word(world, word, value);
    let after = run_store(world, word, value).0;
    let name = bucket_file_of(word);
    let held = pairs_before(read_bucket(world, name));
    assert(after.keys[world.keys.len() as int] == word);
    assert(after.buckets.dom().contains(name));
    lemma_value_iff_held(held, word);
    lemma_value_after_push(held, (word, value), word);
}

/// A store of a word that the index holds already does nothing: it reads and
/// writes no file, leaves the index as it is, and succeeds.
pub proof fn law_store_of_known_word(world: World, word: Seq<char>, value: Seq<u8>)
    requires
        world.keys.contains(word),
    ensures
        run_store(world, word, value) == (world, Ok::<(), CacheError>(())),
        store_step(world.keys, word, value, StoreEventView::Asked) == (
            world.keys,
            StoreActionView::Done(Ok(())),
        ),
{
    reveal_with_fuel(run_writes, 2);
}

/// First write wins: where a new word is stored with one value and then with
/// another, a query for it gives the first value.
pub proof fn law_first_write_wins(world: World, word: Seq<char>, first: Seq<u8>, second: Seq<u8>)
    requires
        is_new(world, word),
        run_store(world, word, first).1 is Ok,
    ensures
        run_store(run_store(world, word, first).0, word, second) == (
            run_store(world, word, first).0,
            Ok::<(), CacheError>(()),
        ),
        run_query(run_store(run_store(world, word, first).0, word, second).0, word).1 == Ok::<
            Seq<u8>,
            CacheError,
        >(first),
{
    law_store_of_new_word(world, word, first);
    let after = run_store(world, word, first).0;
    assert(after.keys[world.keys.len() as int] == word);
    law_store_of_known_word(after, word, second);
    law_store_then_query(world, word, first);
}

/// A query for a word that the index does not hold misses without reading
/// any file, and changes nothing.
pub proof fn law_unknown_word_misses(world: World, word: Seq<char>)
    requires
        !world.keys.contains(word),
    ensures
        query_step(world.keys, word, QueryEventView::Asked) == (
            world.keys,
            QueryActionView::Done(Err(CacheError::CacheMiss)),
        ),
        run_query(world, word) == (world, Err::<Seq<u8>, CacheError>(CacheError::CacheMiss)),
{
}

/// On an engine that was just made, with an empty index, every query misses
/// without reading any file, and no file comes into being.
pub proof fn law_fresh_engine_misses(world: World, word: Seq<char>)
    requires
        world.keys == Seq::<Seq<char>>::empty(),
    ensures
        run_query(world, word) == (world, Err::<Seq<u8>, CacheError>(CacheError::CacheMiss)),
{
    law_unknown_word_misses(world, word);
}

/// Two distinct new words of one bucket, stored one after the other, are both
/// found with their own values, and the bucket holds both pairs, in the order
/// in which they were stored.
pub proof fn law_words_share_a_bucket(
    world: World,
    word1: Seq<char>,
    value1: Seq<u8>,
    word2: Seq<char>,
    value2: Seq<u8>,
)
    requires
        word1 != word2,
        bucket_file_of(word1) == bucket_file_of(word2),
        is_new(world, word1),
        is_new(world, word2),
        run_store(world, word1, value1).1 is Ok,
        run_store(run_store(world, word1, value1).0, word2, value2).1 is Ok,
    ensures
        ({
            let end = run_store(run_store(world, word1, value1).0, word2, value2).0;
            let held = pairs_before(read_bucket(world, bucket_file_of(word1)));
            &&& run_query(end, word1) == (end, Ok::<Seq<u8>, CacheError>(value1))
            &&& run_query(end, word2) == (end, Ok::<Seq<u8>, CacheError>(value2))
            &&& read_bucket(end, bucket_file_of(word1)) == Some(
                held.push((word1, value1)).push((word2, value2)),
            )
        }),
{
    let name = bucket_file_of(word1);
    let held = pairs_before(read_bucket(world, name));
    let held1 = held.push((word1, value1));
    let middle = run_store(world, word1, value1).0;
    law_store_of_new_word(world, word1, value1);
    assert(middle.buckets.dom().contains(name));
    assert(!middle.keys.contains(word2)) by {
        vstd::seq_lib::lemma_seq_contains_after_push(world.keys, word1, word2);
    }
    assert(!holds_word(held1, word2)) by {
        lemma_value_iff_held(held, word2);
        lemma_value_iff_held(held1, word2);
        lemma_value_after_push(held, (word1, value1), word2);
    }
    law_store_of_new_word(middle, word2, value2);
    let end = run_store(middle, word2, value2).0;
    assert(end.buckets.dom().contains(name));
    assert(end.keys[world.keys.len() as int] == word1);
    assert(end.keys[world.keys.len() as int + 1] == word2);
    lemma_value_iff_held(held, word1);
    lemma_value_iff_held(held1, word2);
    lemma_value_after_push(held, (word1, value1), word1);
    lemma_value_after_push(held1, (word2, value2), word1);
    lemma_value_after_push(held1, (word2, value2), word2);
}

/// Self-heal: a query for a word of the index whose bucket file is gone,
/// holds no list of pairs, or has no pair for the word misses and takes the
/// word out of the index. It writes no file: the index file lists what it
/// listed before.
pub proof fn law_stale_word_is_forgotten(world: World, word: Seq<char>)
    requires
        world.keys.no_duplicates(),
        world.keys.contains(word),
        !holds_word(pairs_before(read_bucket(world, bucket_file_of(word))), word),
    ensures
        run_query(world, word) == (
            World { keys: world.keys.remove_value(word), ..world },
            Err::<Seq<u8>, CacheError>(CacheError::CacheMiss),
        ),
        !run_query(world, word).0.keys.contains(word),
        run_query(world, word).0.index_file == world.index_file,
        run_query(world, word).0.buckets == world.buckets,
{
    let held = pairs_before(read_bucket(world, bucket_file_of(word)));
    lemma_value_iff_held(held, word);
    let at: int = choose|i: int| 0 <= i < world.keys.len() && world.keys[i] == word;
    crate::index::lemma_remove_distinct(world.keys, at);
    assert(!world.keys.to_set().remove(word).contains(word));
}

/// The index survives a restart: an engine made anew on the files that a
/// successful store of a new word left finds the word with its value.
pub proof fn law_index_survives_restart(world: World, word: Seq<char>, value: Seq<u8>)
    requires
        world.keys.no_duplicates(),
        is_new(world, word),
        run_store(world, word, value).1 is Ok,
    ensures
        restart(run_store(world, word, value).0) == run_store(world, word, value).0,
        run_query(restart(run_store(world, word, value).0), word).1 == Ok::<Seq<u8>, CacheError>(
            value,
        ),
{
    law_store_of_new_word(world, word, value);
    let keys = world.keys.push(word);
    assert(keys.no_duplicates()) by {
        law_index_stays_distinct(
            world.keys,
            word,
            value,
            QueryEventView::Asked,
            StoreEventView::BucketWritten(true),
        );
    }
    lemma_distinct_of_distinct(keys);
    law_store_then_query(world, word, value);
}

/// Desync: a store of a word that the index does not hold, but for which the
/// bucket has a pair already, leaves every bucket as it is and puts the word
/// into the index.
pub proof fn law_store_on_held_word(world: World, word: Seq<char>, value: Seq<u8>)
    requires
        !world.keys.contains(word),
        holds_word(pairs_before(read_bucket(world, bucket_file_of(word))), word),
    ensures
        run_store(world, word, value).0.buckets == world.buckets,
        run_store(world, word, value).0.keys == world.keys.push(word),
        run_store(world, word, value).0.keys.contains(word),
        run_store(world, word, value).1 is Ok ==> run_store(world, word, value).0.index_file
            == Some(world.keys.push(word)),
{
    reveal_with_fuel(run_writes, 5);
    assert(world.keys.push(word)[world.keys.len() as int] == word);
}

/// Whether no two pairs of a list are for one word.
pub open spec fn words_unique(pairs: Seq<(Seq<char>, Seq<u8>)>) -> bool {
    forall|i: int, j: int| 0 <= i < j < pairs.len() ==> pairs[i].0 != pairs[j].0
}

/// A store never gives a word a second pair: a bucket in which each word has
/// one pair is written with each word having one pair, into the file of the
/// word that is stored.
pub proof fn law_store_keeps_words_unique(
    keys: Seq<Seq<char>>,
    word: Seq<char>,
    value: Seq<u8>,
    held: Option<Seq<(Seq<char>, Seq<u8>)>>,
    name: Seq<char>,
    written: Seq<(Seq<char>, Seq<u8>)>,
)
    requires
        words_unique(pairs_before(held)),
        store_step(keys, word, value, StoreEventView::BucketRead(held)).1
            == StoreActionView::WriteBucket(name, Some(written)),
    ensures
        words_unique(written),
        written == pairs_before(held).push((word, value)),
        name == bucket_file_of(word),
{
    let before = pairs_before(held);
    assert(!holds_word(before, word));
    assert forall|i: int, j: int| 0 <= i < j < written.len() implies written[i].0
        != written[j].0 by {
        if j < before.len() {
            assert(before[i].0 != before[j].0);
        } else {
            assert(before[i].0 != word);
        }
    }
}

/// No step of a query or of a store makes a word occur twice in the index.
pub proof fn law_index_stays_distinct(
    keys: Seq<Seq<char>>,
    word: Seq<char>,
    value: Seq<u8>,
    asked: QueryEventView,
    told: StoreEventView,
)
    requires
        keys.no_duplicates(),
    ensures
        query_step(keys, word, asked).0.no_duplicates(),
        store_step(keys, word, value, told).0.no_duplicates(),
{
    if keys.contains(word) {
        let at: int = choose|i: int| 0 <= i < keys.len() && keys[i] == word;
        crate::index::lemma_remove_distinct(keys, at);
    } else {
        let longer = keys.push(word);
        assert forall|i: int, j: int|
            0 <= i < longer.len() && 0 <= j < longer.len() && i != j implies longer[i]
            != longer[j] by {
            if i < keys.len() && j < keys.len() {
                assert(keys[i] != keys[j]);
            } else if i < keys.len() {
                assert(keys[i] != word);
            } else {
                assert(keys[j] != word);
            }
        }
    }
}

} // verus!

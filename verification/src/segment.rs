//! What a bucket holds once it is decoded: a list of `(word, value)` pairs in
//! the order in which they were stored.

use vstd::prelude::*;

verus! {

/// The value cached for a word: bytes that the cache does not look into.
pub type QueryValue = Vec<u8>;

/// The pairs of one bucket.
pub type WordSegment = Vec<(String, QueryValue)>;

/// The pairs of a decoded bucket, as sequences.
pub open spec fn pairs_of(list: Seq<(String, Vec<u8>)>) -> Seq<(Seq<char>, Seq<u8>)> {
    list.map_values(|pair: (String, Vec<u8>)| (pair.0@, pair.1@))
}

/// Whether some pair of `pairs` is for `word`.
pub open spec fn holds_word(pairs: Seq<(Seq<char>, Seq<u8>)>, word: Seq<char>) -> bool {
    exists|i: int| 0 <= i < pairs.len() && (#[trigger] pairs[i]).0 == word
}

/// The value of the first pair for `word`, if there is one.
pub open spec fn value_of(pairs: Seq<(Seq<char>, Seq<u8>)>, word: Seq<char>) -> Option<Seq<u8>>
    decreases pairs.len(),
{
    if pairs.len() == 0 {
        None
    } else {
        match value_of(pairs.drop_last(), word) {
            Some(value) => Some(value),
            None => if pairs.last().0 == word {
                Some(pairs.last().1)
            } else {
                None
            },
        }
    }
}

/// A word has a value exactly where a pair is for it.
pub proof fn lemma_value_iff_held(pairs: Seq<(Seq<char>, Seq<u8>)>, word: Seq<char>)
    ensures
        value_of(pairs, word) is Some <==> holds_word(pairs, word),
    decreases pairs.len(),
{
    if pairs.len() > 0 {
        let front = pairs.drop_last();
        lemma_value_iff_held(front, word);
        if holds_word(front, word) {
            let i: int = choose|i: int| 0 <= i < front.len() && (#[trigger] front[i]).0 == word;
            assert(pairs[i].0 == word);
        }
        if pairs.last().0 == word {
            assert(pairs[pairs.len() - 1].0 == word);
        }
        if holds_word(pairs, word) && !holds_word(front, word) {
            let i: int = choose|i: int| 0 <= i < pairs.len() && (#[trigger] pairs[i]).0 == word;
            if i < front.len() {
                assert(front[i].0 == word);
            }
        }
    }
}

/// The value of a word is that of the pair before which no pair is for it.
pub proof fn lemma_first_pair_wins(pairs: Seq<(Seq<char>, Seq<u8>)>, word: Seq<char>, at: int)
    requires
        0 <= at < pairs.len(),
        pairs[at].0 == word,
        forall|j: int| 0 <= j < at ==> (#[trigger] pairs[j]).0 != word,
    ensures
        value_of(pairs, word) == Some(pairs[at].1),
    decreases pairs.len(),
{
    let front = pairs.drop_last();
    if at == pairs.len() - 1 {
        lemma_value_iff_held(front, word);
        if holds_word(front, word) {
            let i: int = choose|i: int| 0 <= i < front.len() && (#[trigger] front[i]).0 == word;
            assert(pairs[i].0 != word);
        }
    } else {
        assert(front[at] == pairs[at]);
        assert forall|j: int| 0 <= j < at implies (#[trigger] front[j]).0 != word by {
            assert(pairs[j].0 != word);
        }
        lemma_first_pair_wins(front, word, at);
    }
}

/// A pair added at the end gives its word a value only if the word had none.
pub proof fn lemma_value_after_push(
    pairs: Seq<(Seq<char>, Seq<u8>)>,
    added: (Seq<char>, Seq<u8>),
    word: Seq<char>,
)
    ensures
        value_of(pairs.push(added), word) == if value_of(pairs, word) is None && added.0 == word {
            Some(added.1)
        } else {
            value_of(pairs, word)
        },
{
    assert(pairs.push(added).drop_last() == pairs);
}

/// The place of the first pair for `word`, or the length of the list.
fn position_of(pairs: &WordSegment, word: &str) -> (at: usize)
    ensures
        at <= pairs.len(),
        at < pairs.len() ==> pairs_of(pairs@)[at as int].0 == word@,
        forall|j: int| 0 <= j < at ==> (#[trigger] pairs_of(pairs@)[j]).0 != word@,
{
    let wanted: String = word.to_owned();
    let mut at: usize = 0;
    while at < pairs.len() && pairs[at].0 != wanted
        invariant
            at <= pairs.len(),
            wanted@ == word@,
            forall|j: int| 0 <= j < at ==> (#[trigger] pairs_of(pairs@)[j]).0 != word@,
        decreases pairs.len() - at,
    {
        at += 1;
    }
    at
}

/// Whether `pairs` has a pair for `word`.
pub fn has_word(pairs: &WordSegment, word: &str) -> (held: bool)
    ensures
        held == holds_word(pairs_of(pairs@), word@),
{
    let at: usize = position_of(pairs, word);
    proof {
        if at < pairs.len() {
            assert(pairs_of(pairs@)[at as int].0 == word@);
        }
    }
    at < pairs.len()
}

/// The value that `pairs` has for `word`: that of the first pair for it.
pub fn find_word(pairs: &WordSegment, word: &str) -> (found: Option<QueryValue>)
    ensures
        match found {
            Some(value) => value_of(pairs_of(pairs@), word@) == Some(value@),
            None => value_of(pairs_of(pairs@), word@) is None,
        },
        match found {
            Some(value) => exists|at: int|
                0 <= at < pairs.len() && #[trigger] pairs_of(pairs@)[at] == (word@, value@)
                    && forall|j: int| 0 <= j < at ==> (#[trigger] pairs_of(pairs@)[j]).0 != word@,
            None => !holds_word(pairs_of(pairs@), word@),
        },
{
    let at: usize = position_of(pairs, word);
    if at < pairs.len() {
        let value = pairs[at].1.clone();
        proof {
            assert(pairs_of(pairs@)[at as int] == (word@, value@));
            lemma_first_pair_wins(pairs_of(pairs@), word@, at as int);
        }
        Some(value)
    } else {
        proof {
            lemma_value_iff_held(pairs_of(pairs@), word@);
        }
        None
    }
}

} // verus!

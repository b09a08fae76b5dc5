//! The index: the set of words that the cache believes it can resolve.
//!
//! Membership is answered by a hash set. Beside it the words are kept in the
//! order in which they were added, so that the index can be written out as a
//! list whose text depends on nothing but that order.

use vstd::hash_set::StringHashSet;
use vstd::prelude::*;

verus! {

/// The words of a list of strings, as character sequences.
pub open spec fn words_of(list: Seq<String>) -> Seq<Seq<char>> {
    list.map_values(|s: String| s@)
}

/// `words` without repetitions: of each word only the first occurrence stays.
pub open spec fn distinct(words: Seq<Seq<char>>) -> Seq<Seq<char>>
    decreases words.len(),
{
    if words.len() == 0 {
        words
    } else {
        let before = distinct(words.drop_last());
        if before.contains(words.last()) {
            before
        } else {
            before.push(words.last())
        }
    }
}

/// `distinct` repeats nothing and keeps exactly the words it was given.
pub proof fn lemma_distinct(words: Seq<Seq<char>>)
    ensures
        distinct(words).no_duplicates(),
        distinct(words).to_set() == words.to_set(),
    decreases words.len(),
{
    if words.len() == 0 {
    } else {
        let front = words.drop_last();
        lemma_distinct(front);
        let before = distinct(front);
        assert(words == front.push(words.last()));
        front.lemma_push_to_set_commute(words.last());
        before.lemma_push_to_set_commute(words.last());
        if before.contains(words.last()) {
            assert(before.to_set().contains(words.last()));
            assert(before.to_set().insert(words.last()) == before.to_set());
        }
    }
}

/// A list that repeats nothing is its own `distinct`.
pub proof fn lemma_distinct_of_distinct(words: Seq<Seq<char>>)
    requires
        words.no_duplicates(),
    ensures
        distinct(words) == words,
    decreases words.len(),
{
    if words.len() > 0 {
        let front = words.drop_last();
        lemma_distinct_of_distinct(front);
        assert(words == front.push(words.last()));
        if front.contains(words.last()) {
            let i: int = choose|i: int| 0 <= i < front.len() && front[i] == words.last();
            assert(words[i] == words[words.len() - 1]);
        }
    }
}

/// Removing the one occurrence of a word from a list without repetitions
/// removes it from the set of its words, and repeats nothing.
pub proof fn lemma_remove_distinct(words: Seq<Seq<char>>, at: int)
    requires
        words.no_duplicates(),
        0 <= at < words.len(),
    ensures
        words.remove(at) == words.remove_value(words[at]),
        words.remove(at).no_duplicates(),
        words.remove(at).to_set() == words.to_set().remove(words[at]),
{
    let word = words[at];
    let rest = words.remove(at);
    words.index_of_first_ensures(word);
    assert(rest.no_duplicates()) by {
        assert forall|i: int, j: int|
            0 <= i < rest.len() && 0 <= j < rest.len() && i != j implies rest[i] != rest[j] by {
            let ii: int = if i < at { i } else { i + 1 };
            let jj: int = if j < at { j } else { j + 1 };
            assert(rest[i] == words[ii] && rest[j] == words[jj]);
        }
    }
    assert(rest.to_set() =~= words.to_set().remove(word)) by {
        assert forall|w: Seq<char>| rest.to_set().contains(w) <==> words.to_set().remove(
            word,
        ).contains(w) by {
            if rest.contains(w) {
                let i: int = choose|i: int| 0 <= i < rest.len() && rest[i] == w;
                let ii: int = if i < at { i } else { i + 1 };
                assert(words[ii] == w);
            }
            if words.contains(w) && w != word {
                let k: int = choose|k: int| 0 <= k < words.len() && words[k] == w;
                let kk: int = if k < at { k } else { k - 1 };
                assert(rest[kk] == w);
            }
        }
    }
}

/// The words known to the cache.
pub struct KeyIndex {
    members: StringHashSet,
    order: Vec<String>,
}

impl View for KeyIndex {
    type V = Set<Seq<char>>;

    /// The set of the words.
    open spec fn view(&self) -> Set<Seq<char>> {
        self.keys().to_set()
    }
}

impl KeyIndex {
    #[verifier::type_invariant]
    spec fn well_formed(self) -> bool {
        &&& words_of(self.order@).no_duplicates()
        &&& self.members@ =~= words_of(self.order@).to_set()
    }

    /// The words in the order in which they were added.
    pub closed spec fn keys(self) -> Seq<Seq<char>> {
        words_of(self.order@)
    }

    /// The words of an index are distinct. Nothing is computed.
    pub(crate) fn keys_are_distinct(&self)
        ensures
            self.keys().no_duplicates(),
    {
        proof {
            use_type_invariant(self);
        }
    }

    /// An index without words.
    pub fn new() -> (index: KeyIndex)
        ensures
            index.keys() == Seq::<Seq<char>>::empty(),
    {
        let index = KeyIndex { members: StringHashSet::new(), order: Vec::new() };
        assert(words_of(index.order@) =~= Seq::<Seq<char>>::empty());
        index
    }

    /// Whether `word` is in the index.
    pub fn contains(&self, word: &str) -> (found: bool)
        ensures
            found == self.keys().contains(word@),
            self.keys().no_duplicates(),
    {
        proof {
            use_type_invariant(self);
        }
        self.members.contains(word)
    }

    /// The words in the order in which they were added.
    pub fn words(&self) -> (list: &Vec<String>)
        ensures
            words_of(list@) == self.keys(),
            self.keys().no_duplicates(),
    {
        proof {
            use_type_invariant(self);
        }
        &self.order
    }

    /// Adds `word` at the end, unless it is there already.
    pub fn insert(&mut self, word: &str)
        ensures
            final(self).keys() == if old(self).keys().contains(word@) {
                old(self).keys()
            } else {
                old(self).keys().push(word@)
            },
            final(self).keys().no_duplicates(),
    {
        let mut taken = KeyIndex::new();
        core::mem::swap(self, &mut taken);
        proof {
            use_type_invariant(&taken);
        }
        let KeyIndex { mut members, mut order } = taken;
        if !members.contains(word) {
            let ghost before = words_of(order@);
            members.insert(word.to_owned());
            order.push(word.to_owned());
            proof {
                assert(words_of(order@) =~= before.push(word@));
                before.lemma_push_to_set_commute(word@);
            }
        }
        *self = KeyIndex { members, order };
    }

    /// Takes `word` out, if it is there; the other words keep their order.
    pub fn remove(&mut self, word: &str)
        ensures
            final(self).keys() == old(self).keys().remove_value(word@),
            final(self).keys().to_set() == old(self).keys().to_set().remove(word@),
            final(self).keys().no_duplicates(),
    {
        let mut taken = KeyIndex::new();
        core::mem::swap(self, &mut taken);
        proof {
            use_type_invariant(&taken);
        }
        let KeyIndex { mut members, mut order } = taken;
        let ghost before = words_of(order@);
        proof {
            before.index_of_first_ensures(word@);
        }
        if members.contains(word) {
            let wanted: String = word.to_owned();
            let mut at: usize = 0;
            while at < order.len() && order[at] != wanted
                invariant
                    at <= order.len(),
                    wanted@ == word@,
                    before == words_of(order@),
                    forall|i: int| 0 <= i < at ==> before[i] != word@,
                decreases order.len() - at,
            {
                assert(before[at as int] == order@[at as int]@);
                at += 1;
            }
            if at < order.len() {
                assert(before[at as int] == order@[at as int]@);
                members.remove(word);
                order.remove(at);
                proof {
                    assert(words_of(order@) =~= before.remove(at as int));
                    lemma_remove_distinct(before, at as int);
                }
            } else {
                assert(false) by {
                    let i: int = choose|i: int| 0 <= i < before.len() && before[i] == word@;
                    assert(before[i] != word@);
                }
            }
        } else {
            assert(before.to_set().remove(word@) =~= before.to_set());
        }
        *self = KeyIndex { members, order };
    }

    /// The index of the words of `list`, each taken once, in the order of
    /// their first occurrence.
    pub fn from_words(list: &Vec<String>) -> (index: KeyIndex)
        ensures
            index.keys() == distinct(words_of(list@)),
            index.keys().no_duplicates(),
    {
        let mut index = KeyIndex::new();
        let mut done: usize = 0;
        while done < list.len()
            invariant
                done <= list.len(),
                index.keys() == distinct(words_of(list@).take(done as int)),
                index.keys().no_duplicates(),
            decreases list.len() - done,
        {
            proof {
                let next = words_of(list@).take(done + 1);
                assert(next.drop_last() == words_of(list@).take(done as int));
                assert(next.last() == list@[done as int]@);
            }
            index.insert(list[done].as_str());
            done += 1;
        }
        assert(words_of(list@).take(done as int) == words_of(list@));
        index
    }
}

} // verus!

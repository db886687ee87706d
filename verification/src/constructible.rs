//! The constructability predicate: whether a word's letter counts are
//! dominated, letter by letter, by a pool's letter counts.

use vstd::prelude::*;

use crate::letters::FrequencyMap;
use crate::letters::is_lower_letter;
use crate::letters::lemma_count_non_letter;
use crate::letters::lemma_count_same_code;
use crate::letters::letter_at;

verus! {

/// A frequency map with no letters at all.
pub open spec fn spec_is_empty(m: FrequencyMap) -> bool {
    forall|c: char| m.count(c) == 0
}

/// Every letter of `word` is available in `pool` at least as often as
/// `word` requires it; a letter that `pool` lacks has count 0.
pub open spec fn dominated_by(word: FrequencyMap, pool: FrequencyMap) -> bool {
    forall|c: char| word.count(c) <= pool.count(c)
}

/// A word is constructible from a pool when it has at least one letter and
/// the pool dominates it. The empty word is never constructible, by design:
/// a blank or symbol-only entry must not match every pool vacuously.
pub open spec fn spec_constructible(word: FrequencyMap, pool: FrequencyMap) -> bool {
    !spec_is_empty(word) && dominated_by(word, pool)
}

/// Decides whether the word whose letter counts are `word` can be assembled
/// from the letters counted in `list`.
pub fn can_be_constructed(word: &FrequencyMap, list: &FrequencyMap) -> (r: bool)
    requires
        word.wf(),
        list.wf(),
    ensures
        r == spec_constructible(*word, *list),
{
    let mut k: u8 = 0;
    let mut nonempty = false;
    while k < 26
        invariant
            k <= 26,
            word.wf(),
            list.wf(),
            nonempty == exists|j: int|
                0 <= j < k as int && #[trigger] word.count(letter_at(j)) > 0,
            forall|j: int|
                0 <= j < k as int ==> #[trigger] word.count(letter_at(j)) <= list.count(
                    letter_at(j),
                ),
        decreases 26 - k,
    {
        let wc = word.count_at(k);
        if wc > list.count_at(k) {
            proof {
                assert(word.count(letter_at(k as int)) > list.count(letter_at(k as int)));
                assert(!dominated_by(*word, *list));
            }
            return false;
        }
        if wc > 0 {
            nonempty = true;
        }
        k += 1;
    }
    proof {
        assert forall|c: char| word.count(c) <= list.count(c) by {
            if is_lower_letter(c) {
                let j = c as int - 97;
                assert(letter_at(j) as int == c as int);
                assert(word.count(letter_at(j)) <= list.count(letter_at(j)));
                lemma_count_same_code(*word, letter_at(j), c);
                lemma_count_same_code(*list, letter_at(j), c);
            } else {
                lemma_count_non_letter(*word, c);
            }
        }
        if nonempty {
            let j = choose|j: int| 0 <= j < 26 && #[trigger] word.count(letter_at(j)) > 0;
            assert(word.count(letter_at(j)) > 0);
            assert(!spec_is_empty(*word));
        } else {
            assert forall|c: char| word.count(c) == 0 by {
                if is_lower_letter(c) {
                    let j = c as int - 97;
                    assert(letter_at(j) as int == c as int);
                    assert(word.count(letter_at(j)) == 0);
                    lemma_count_same_code(*word, letter_at(j), c);
                } else {
                    lemma_count_non_letter(*word, c);
                }
            }
        }
    }
    nonempty
}

/// An empty word is never constructible, whatever the pool — even a
/// non-empty pool.
pub proof fn lemma_empty_word_not_constructible(word: FrequencyMap, pool: FrequencyMap)
    requires
        spec_is_empty(word),
    ensures
        !spec_constructible(word, pool),
{
}

/// The dominance law: a word is constructible from a pool exactly when the
/// word has at least one letter and, for every character, the pool holds at
/// least as many copies as the word requires (a character the pool lacks
/// counts as 0).
pub proof fn lemma_dominance(word: FrequencyMap, pool: FrequencyMap)
    ensures
        spec_constructible(word, pool) <==> ((exists|c: char| word.count(c) > 0) && (forall|
            c: char,
        | word.count(c) <= pool.count(c))),
{
}

} // verus!

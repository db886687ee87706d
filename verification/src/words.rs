//! Words and the word-list filter: pairing each word with its letter
//! counts, and keeping, in input order, the words that a given pool of
//! letters can assemble.

use rayon::iter::IntoParallelIterator;
use rayon::iter::ParallelIterator;
use vstd::prelude::*;

use crate::constructible::can_be_constructed;
use crate::constructible::spec_constructible;
use crate::letters::FrequencyMap;
use crate::letters::counts_eq;
use crate::letters::get_letters_count;
use crate::letters::occurrences;

verus! {

/// A word together with the letter counts of its value.
#[derive(Clone, Debug)]
pub struct Word {
    pub value: String,
    pub letters: FrequencyMap,
}

impl PartialEq for Word {
    fn eq(&self, other: &Self) -> (r: bool) {
        self.value == other.value && self.letters == other.letters
    }
}

impl vstd::std_specs::cmp::PartialEqSpecImpl for Word {
    open spec fn obeys_eq_spec() -> bool {
        true
    }

    open spec fn eq_spec(&self, other: &Self) -> bool {
        self.value@ == other.value@ && counts_eq(self.letters, other.letters)
    }
}

impl Word {
    /// The letter counts have their 26 slots.
    pub open spec fn wf(self) -> bool {
        self.letters.wf()
    }

    /// The letter counts are exactly those of the word's value.
    pub open spec fn consistent(self) -> bool {
        &&& self.letters.wf()
        &&& forall|c: char| #![auto] self.letters.count(c) == occurrences(self.value@, c)
    }

    /// Pair a word with the letter counts of its value.
    pub fn new(value: String) -> (w: Word)
        ensures
            w.consistent(),
            w.value@ == value@,
    {
        let letters = get_letters_count(value.as_str());
        Word { value, letters }
    }
}

/// Every word of the sequence has well-formed letter counts.
pub open spec fn all_wf(words: Seq<Word>) -> bool {
    forall|i: int| 0 <= i < words.len() ==> (#[trigger] words[i]).wf()
}

/// Turn each line of a word source into a `Word`: the line verbatim as the
/// value, its letter counts computed once.
pub fn words_from_lines(lines: Vec<String>) -> (words: Vec<Word>)
    ensures
        words@.len() == lines@.len(),
        forall|i: int|
            0 <= i < lines@.len() ==> (#[trigger] words@[i]).consistent() && words@[i].value@
                == lines@[i]@,
{
    let mut words: Vec<Word> = Vec::new();
    let mut i: usize = 0;
    while i < lines.len()
        invariant
            i <= lines@.len(),
            words@.len() == i,
            forall|j: int|
                0 <= j < i ==> (#[trigger] words@[j]).consistent() && words@[j].value@
                    == lines@[j]@,
        decreases lines@.len() - i,
    {
        let w = Word::new(lines[i].clone());
        words.push(w);
        i += 1;
    }
    words
}

/// The values of the words of `words` that are constructible from `pool`,
/// in their original order.
pub open spec fn constructible_values(words: Seq<Word>, pool: FrequencyMap) -> Seq<Seq<char>>
    decreases words.len(),
{
    if words.len() == 0 {
        Seq::empty()
    } else {
        constructible_values(words.drop_last(), pool) + if spec_constructible(
            words.last().letters,
            pool,
        ) {
            seq![words.last().value@]
        } else {
            Seq::empty()
        }
    }
}

/// The indices, in increasing order, of the words of `words` that are
/// constructible from `pool`.
pub open spec fn matching_indices(words: Seq<Word>, pool: FrequencyMap) -> Seq<int>
    decreases words.len(),
{
    if words.len() == 0 {
        Seq::empty()
    } else {
        matching_indices(words.drop_last(), pool) + if spec_constructible(
            words.last().letters,
            pool,
        ) {
            seq![words.len() - 1]
        } else {
            Seq::empty()
        }
    }
}

/// Order preservation: the filtered output is exactly the values of the
/// constructible words, read off along a strictly increasing sequence of
/// input positions — so surviving words keep their relative input order,
/// whatever the execution strategy of the filter.
pub proof fn lemma_filter_preserves_order(words: Seq<Word>, pool: FrequencyMap)
    ensures
        matching_indices(words, pool).len() == constructible_values(words, pool).len(),
        forall|a: int|
            0 <= a < matching_indices(words, pool).len() ==> 0 <= #[trigger] matching_indices(
                words,
                pool,
            )[a] < words.len(),
        forall|a: int|
            0 <= a < matching_indices(words, pool).len() ==> spec_constructible(
                words[#[trigger] matching_indices(words, pool)[a]].letters,
                pool,
            ),
        forall|a: int|
            0 <= a < matching_indices(words, pool).len() ==> #[trigger] constructible_values(
                words,
                pool,
            )[a] == words[matching_indices(words, pool)[a]].value@,
        forall|a: int, b: int|
            0 <= a < b < matching_indices(words, pool).len() ==> #[trigger] matching_indices(
                words,
                pool,
            )[a] < #[trigger] matching_indices(words, pool)[b],
        forall|k: int|
            0 <= k < words.len() && spec_constructible((#[trigger] words[k]).letters, pool)
                ==> matching_indices(words, pool).contains(k),
    decreases words.len(),
{
    if words.len() > 0 {
        let prior = words.drop_last();
        lemma_filter_preserves_order(prior, pool);
        let m = matching_indices(words, pool);
        let mp = matching_indices(prior, pool);
        let cv = constructible_values(words, pool);
        let cvp = constructible_values(prior, pool);
        assert(forall|j: int| 0 <= j < prior.len() ==> prior[j] == words[j]);
        assert forall|a: int|
            0 <= a < m.len() implies spec_constructible(words[m[a]].letters, pool) && cv[a]
            == words[m[a]].value@ by {
            if a < mp.len() {
                assert(m[a] == mp[a]);
                assert(cv[a] == cvp[a]);
                assert(prior[mp[a]] == words[mp[a]]);
            } else {
                assert(spec_constructible(words.last().letters, pool));
                assert(m[a] == words.len() - 1);
                assert(cv[a] == words.last().value@);
            }
        }
        assert forall|k: int|
            0 <= k < words.len() && spec_constructible(
                (#[trigger] words[k]).letters,
                pool,
            ) implies m.contains(k) by {
            if k < words.len() - 1 {
                assert(mp.contains(k));
                let a = choose|a: int| 0 <= a < mp.len() && mp[a] == k;
                assert(m[a] == k);
            } else {
                assert(m[m.len() - 1] == k);
            }
        }
    }
}

/// Apply the constructability predicate to every word in turn, keeping the
/// values of the words that pass, in input order.
pub fn filter_constructible(words: Vec<Word>, list: &FrequencyMap) -> (r: Vec<String>)
    requires
        list.wf(),
        all_wf(words@),
    ensures
        r.deep_view() == constructible_values(words@, *list),
{
    let mut out: Vec<String> = Vec::new();
    let mut i: usize = 0;
    while i < words.len()
        invariant
            i <= words@.len(),
            list.wf(),
            all_wf(words@),
            out.deep_view() == constructible_values(words@.take(i as int), *list),
        decreases words@.len() - i,
    {
        let ghost prefix = words@.take(i as int);
        let ghost before = out.deep_view();
        let w = &words[i];
        if can_be_constructed(&w.letters, list) {
            out.push(w.value.clone());
            proof {
                assert(out.deep_view() =~= before + seq![w.value@]);
            }
        }
        proof {
            assert(words@.take(i + 1).drop_last() =~= prefix);
            assert(words@.take(i + 1).last() == words@[i as int]);
        }
        i += 1;
    }
    proof {
        assert(words@.take(words@.len() as int) =~= words@);
    }
    out
}

/// Relies on rayon's `into_par_iter`, `filter_map` and `collect`: rayon
/// documents that a parallel iterator pipeline produces the same results as
/// its sequential counterpart, so the collected values are the surviving
/// words' values in their original order. The per-word test is the verified
/// `can_be_constructed`.
#[verifier::external_body]
fn par_filter_constructible(words: Vec<Word>, list: &FrequencyMap) -> (r: Vec<String>)
    requires
        list.wf(),
        all_wf(words@),
    ensures
        r.deep_view() == constructible_values(words@, *list),
{
    words.into_par_iter().filter_map(
        |word: Word|
            if can_be_constructed(&word.letters, list) {
                Some(word.value)
            } else {
                None
            },
    ).collect()
}

/// Retrieve the values of the constructible words from the list, in their
/// original order. The independent per-word tests are evaluated in
/// parallel; `filter_constructible` is the sequential policy with the same
/// contract.
pub fn get_constructable_words(words: Vec<Word>, list: &FrequencyMap) -> (r: Vec<String>)
    requires
        list.wf(),
        all_wf(words@),
    ensures
        r.deep_view() == constructible_values(words@, *list),
{
    par_filter_constructible(words, list)
}

} // verus!

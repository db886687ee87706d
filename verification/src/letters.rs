//! Letter-frequency counting: turning a string into a map from lowercase
//! ASCII letter to occurrence count, ignoring case and non-letters.

use vstd::prelude::*;

verus! {

/// The code point of `c` after ASCII case folding: uppercase ASCII letters
/// map to the code point of their lowercase form, everything else is
/// unchanged.
pub open spec fn fold_code(c: char) -> int {
    if 65 <= c as int && c as int <= 90 {
        c as int + 32
    } else {
        c as int
    }
}

/// Whether `c` is one of the 26 lowercase ASCII letters.
pub open spec fn is_lower_letter(c: char) -> bool {
    97 <= c as int && c as int <= 122
}

/// Whether `c` is an ASCII letter of either case.
pub open spec fn is_ascii_letter(c: char) -> bool {
    (65 <= c as int && c as int <= 90) || (97 <= c as int && c as int <= 122)
}

/// The ASCII case folding as a character-to-character function.
pub open spec fn to_lower(c: char) -> char {
    if 65 <= c as int && c as int <= 90 {
        (((c as u8) + 32) as char)
    } else {
        c
    }
}

/// The lowercase letter with alphabet index `k` (0 is 'a', 25 is 'z').
pub open spec fn letter_at(k: int) -> char
    recommends
        0 <= k < 26,
{
    ((97 + k) as u8) as char
}

/// Whether a scanned character `ci` counts as one occurrence of the
/// lowercase letter `c`: only lowercase letters are ever counted, and `ci`
/// is first case-folded.
pub open spec fn counts_as(ci: char, c: char) -> bool {
    is_lower_letter(c) && fold_code(ci) == c as int
}

/// How many characters of `s` count as occurrences of `c` (0 whenever `c`
/// is not a lowercase ASCII letter).
pub open spec fn occurrences(s: Seq<char>, c: char) -> nat
    decreases s.len(),
{
    if s.len() == 0 {
        0
    } else {
        occurrences(s.drop_last(), c) + if counts_as(s.last(), c) {
            1nat
        } else {
            0nat
        }
    }
}

pub proof fn lemma_occurrences_le_len(s: Seq<char>, c: char)
    ensures
        occurrences(s, c) <= s.len(),
    decreases s.len(),
{
    if s.len() > 0 {
        lemma_occurrences_le_len(s.drop_last(), c);
    }
}

pub proof fn lemma_occurrences_push(s: Seq<char>, x: char, c: char)
    ensures
        occurrences(s.push(x), c) == occurrences(s, c) + if counts_as(x, c) {
            1nat
        } else {
            0nat
        },
{
    assert(s.push(x).drop_last() =~= s);
    assert(s.push(x).last() == x);
}

/// A count-limited multiset of letters: for each of the 26 lowercase ASCII
/// letters, how many are present. A letter that is absent has count 0, so
/// no distinction between a zero entry and a missing entry can arise.
#[derive(Clone, Debug)]
pub struct FrequencyMap {
    counts: Vec<usize>,
}

/// Two frequency maps hold the same counts, slot for slot.
pub closed spec fn counts_eq(a: FrequencyMap, b: FrequencyMap) -> bool {
    a.counts@ == b.counts@
}

impl PartialEq for FrequencyMap {
    fn eq(&self, other: &Self) -> (r: bool) {
        if self.counts.len() != other.counts.len() {
            return false;
        }
        let mut k: usize = 0;
        while k < self.counts.len()
            invariant
                k <= self.counts@.len(),
                self.counts@.len() == other.counts@.len(),
                forall|j: int| 0 <= j < k ==> self.counts@[j] == other.counts@[j],
            decreases self.counts@.len() - k,
        {
            if self.counts[k] != other.counts[k] {
                return false;
            }
            k += 1;
        }
        proof {
            assert(self.counts@ =~= other.counts@);
        }
        true
    }
}

impl Eq for FrequencyMap {

}

impl vstd::std_specs::cmp::PartialEqSpecImpl for FrequencyMap {
    open spec fn obeys_eq_spec() -> bool {
        true
    }

    open spec fn eq_spec(&self, other: &Self) -> bool {
        counts_eq(*self, *other)
    }
}

/// Frequency maps with equal counts everywhere are equal, and conversely:
/// `==` on frequency maps is exactly count-for-count agreement.
pub proof fn lemma_counts_eq_iff(a: FrequencyMap, b: FrequencyMap)
    requires
        a.wf(),
        b.wf(),
    ensures
        counts_eq(a, b) <==> (forall|c: char| #![auto] a.count(c) == b.count(c)),
{
    if forall|c: char| #![auto] a.count(c) == b.count(c) {
        assert forall|j: int| 0 <= j < 26 implies a.counts@[j] == b.counts@[j] by {
            let c = letter_at(j);
            assert(c as int == 97 + j);
            assert(a.count(c) == b.count(c));
        }
        assert(a.counts@ =~= b.counts@);
    }
}

impl FrequencyMap {
    /// Well-formed: one slot for each of the 26 letters.
    pub closed spec fn wf(self) -> bool {
        self.counts@.len() == 26
    }

    /// The count recorded for `c`: a character that is not a lowercase
    /// ASCII letter is never present, so its count is 0.
    pub closed spec fn count(self, c: char) -> nat {
        if is_lower_letter(c) {
            self.counts@[c as int - 97] as nat
        } else {
            0
        }
    }

    /// A map with no letters at all.
    pub fn new() -> (r: FrequencyMap)
        ensures
            r.wf(),
            forall|c: char| r.count(c) == 0,
    {
        let mut counts: Vec<usize> = Vec::new();
        let mut j: usize = 0;
        while j < 26
            invariant
                counts@.len() == j,
                j <= 26,
                forall|i: int| 0 <= i < j ==> counts@[i] == 0,
            decreases 26 - j,
        {
            counts.push(0);
            j += 1;
        }
        FrequencyMap { counts }
    }

    /// The count for the letter with alphabet index `k`.
    pub fn count_at(&self, k: u8) -> (r: usize)
        requires
            self.wf(),
            k < 26,
        ensures
            r == self.count(letter_at(k as int)),
    {
        self.counts[k as usize]
    }

    /// The count recorded for an arbitrary character.
    pub fn count_of(&self, c: char) -> (r: usize)
        requires
            self.wf(),
        ensures
            r == self.count(c),
    {
        let code = c as u32;
        if 97 <= code && code <= 122 {
            self.counts[(code - 97) as usize]
        } else {
            0
        }
    }

    /// Record one more occurrence of the letter with alphabet index `k`.
    pub fn increment(&mut self, k: u8)
        requires
            old(self).wf(),
            k < 26,
            old(self).count(letter_at(k as int)) < usize::MAX,
        ensures
            final(self).wf(),
            final(self).count(letter_at(k as int)) == old(self).count(letter_at(k as int)) + 1,
            forall|c: char| c as int != 97 + k as int ==> final(self).count(c) == old(self).count(
                c,
            ),
    {
        let cur = self.counts[k as usize];
        self.counts[k as usize] = cur + 1;
    }

    /// Set the count for the lowercase letter `c` outright.
    pub fn set_count(&mut self, c: char, n: usize)
        requires
            old(self).wf(),
            is_lower_letter(c),
        ensures
            final(self).wf(),
            final(self).count(c) == n,
            forall|d: char| d as int != c as int ==> final(self).count(d) == old(self).count(d),
    {
        let code = c as u32;
        self.counts[(code - 97) as usize] = n;
    }
}

/// Case invariance: lowercasing a string first changes no letter count, so
/// counting the letters of `s` and of its lowercase form agree everywhere.
pub proof fn lemma_occurrences_case_invariant(s: Seq<char>, c: char)
    ensures
        occurrences(s.map_values(|x: char| to_lower(x)), c) == occurrences(s, c),
    decreases s.len(),
{
    let t = s.map_values(|x: char| to_lower(x));
    if s.len() > 0 {
        lemma_occurrences_case_invariant(s.drop_last(), c);
        assert(t.drop_last() =~= s.drop_last().map_values(|x: char| to_lower(x)));
        assert(t.last() == to_lower(s.last()));
        assert(fold_code(to_lower(s.last())) == fold_code(s.last()));
    } else {
        assert(t =~= Seq::<char>::empty());
    }
}

/// Noise invariance: characters that are not ASCII letters never affect a
/// letter count, so only the alphabetic characters of a string matter.
pub proof fn lemma_occurrences_ignore_non_letters(s: Seq<char>, c: char)
    ensures
        occurrences(s, c) == occurrences(s.filter(|x: char| is_ascii_letter(x)), c),
    decreases s.len(),
{
    reveal(Seq::filter);
    if s.len() > 0 {
        lemma_occurrences_ignore_non_letters(s.drop_last(), c);
        let rest = s.drop_last().filter(|x: char| is_ascii_letter(x));
        if is_ascii_letter(s.last()) {
            lemma_occurrences_push(rest, s.last(), c);
        } else {
            assert(!counts_as(s.last(), c));
        }
    }
}

/// Noise invariance, stated between two strings: inserting or removing
/// digits, punctuation or whitespace — anything but ASCII letters — leaves
/// every letter count unchanged.
pub proof fn lemma_occurrences_noise_invariant(s: Seq<char>, t: Seq<char>, c: char)
    requires
        s.filter(|x: char| is_ascii_letter(x)) == t.filter(|x: char| is_ascii_letter(x)),
    ensures
        occurrences(s, c) == occurrences(t, c),
{
    lemma_occurrences_ignore_non_letters(s, c);
    lemma_occurrences_ignore_non_letters(t, c);
}

/// Totality on letter-free input: a string without a single ASCII letter —
/// the empty string among them — has every letter count 0, so counting it
/// yields the empty map.
pub proof fn lemma_occurrences_no_letters(s: Seq<char>, c: char)
    requires
        forall|i: int| 0 <= i < s.len() ==> !is_ascii_letter(#[trigger] s[i]),
    ensures
        occurrences(s, c) == 0,
    decreases s.len(),
{
    if s.len() > 0 {
        assert(!is_ascii_letter(s.last()));
        assert(forall|i: int|
            0 <= i < s.drop_last().len() ==> !is_ascii_letter(#[trigger] s.drop_last()[i]));
        lemma_occurrences_no_letters(s.drop_last(), c);
        assert(!counts_as(s.last(), c));
    }
}

/// A character that is not a lowercase ASCII letter is never present in a
/// frequency map.
pub proof fn lemma_count_non_letter(m: FrequencyMap, c: char)
    requires
        !is_lower_letter(c),
    ensures
        m.count(c) == 0,
{
}

/// The count of a character depends only on its code point.
pub proof fn lemma_count_same_code(m: FrequencyMap, c: char, d: char)
    requires
        c as int == d as int,
    ensures
        m.count(c) == m.count(d),
{
}

/// The letter-frequency counter: case-fold every character of `word`,
/// discard the characters that are not ASCII letters, and count how often
/// each remaining letter occurs. Total over every string; an input with no
/// alphabetic characters yields the empty map.
pub fn get_letters_count(word: &str) -> (r: FrequencyMap)
    ensures
        r.wf(),
        forall|c: char| #![auto] r.count(c) == occurrences(word@, c),
{
    let n = word.unicode_len();
    let mut fm = FrequencyMap::new();
    let mut i: usize = 0;
    while i < n
        invariant
            fm.wf(),
            i <= n,
            n == word@.len(),
            forall|c: char| #![auto] fm.count(c) == occurrences(word@.take(i as int), c),
        decreases n - i,
    {
        let c = word.get_char(i);
        let code = c as u32;
        let folded: u32 = if 65 <= code && code <= 90 {
            code + 32
        } else {
            code
        };
        proof {
            assert(word@.take(i + 1).drop_last() =~= word@.take(i as int));
            assert(word@.take(i + 1).last() == word@[i as int]);
        }
        if 97 <= folded && folded <= 122 {
            let k = (folded - 97) as u8;
            proof {
                lemma_occurrences_le_len(word@.take(i as int), letter_at(k as int));
            }
            fm.increment(k);
        }
        i += 1;
    }
    proof {
        assert(word@.take(n as int) =~= word@);
    }
    fm
}

} // verus!

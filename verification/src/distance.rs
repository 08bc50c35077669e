//! Suggesting the nearest of a list of candidate words.
use vstd::prelude::*;
use vstd::utf8::{decode_utf8, valid_utf8};
use crate::text::{str_from_utf8, StyledText};

verus! {

/// The largest distance at which a candidate is still suggested.
pub const SUGGESTION_DISTANCE: usize = 2;

/// The smallest of three numbers.
pub open spec fn least_of(a: nat, b: nat, c: nat) -> nat {
    if a <= b && a <= c {
        a
    } else if b <= c {
        b
    } else {
        c
    }
}

/// The Levenshtein distance between two words: the least number of
/// characters that have to be inserted, removed or exchanged to turn one into
/// the other.
pub open spec fn edit_distance(a: Seq<char>, b: Seq<char>) -> nat
    decreases a.len() + b.len(),
{
    if a.len() == 0 {
        b.len()
    } else if b.len() == 0 {
        a.len()
    } else if a.first() == b.first() {
        edit_distance(a.drop_first(), b.drop_first())
    } else {
        1 + least_of(
            edit_distance(a.drop_first(), b),
            edit_distance(a, b.drop_first()),
            edit_distance(a.drop_first(), b.drop_first()),
        )
    }
}

/// The index of the candidate that is closest to `word`; among several at the
/// same distance the first.
pub open spec fn closest(word: Seq<char>, candidates: Seq<Seq<char>>) -> Option<int>
    decreases candidates.len(),
{
    if candidates.len() == 0 {
        None
    } else {
        let last = candidates.len() - 1;
        match closest(word, candidates.drop_last()) {
            Some(k) => if edit_distance(word, candidates[last]) < edit_distance(
                word,
                candidates[k],
            ) {
                Some(last)
            } else {
                Some(k)
            },
            None => Some(last),
        }
    }
}

/// The index of the candidate to suggest for `word`: the closest one, if it
/// is no further away than `SUGGESTION_DISTANCE`.
pub open spec fn nearest_spec(word: Seq<char>, candidates: Seq<Seq<char>>) -> Option<int> {
    match closest(word, candidates) {
        Some(k) => if edit_distance(word, candidates[k]) <= SUGGESTION_DISTANCE {
            Some(k)
        } else {
            None
        },
        None => None,
    }
}

/// The words that a list of strings holds.
pub open spec fn words_of(strings: Seq<String>) -> Seq<Seq<char>> {
    strings.map_values(|s: String| s@)
}

/// `closest` picks a candidate that none is closer than, and that every
/// earlier one is further away than; it picks none only of no candidates.
pub proof fn lemma_closest(word: Seq<char>, candidates: Seq<Seq<char>>)
    ensures
        match closest(word, candidates) {
            Some(k) => {
                &&& 0 <= k < candidates.len()
                &&& forall|j: int|
                    0 <= j < candidates.len() ==> edit_distance(word, candidates[k])
                        <= edit_distance(word, #[trigger] candidates[j])
                &&& forall|j: int|
                    0 <= j < k ==> edit_distance(word, candidates[k]) < edit_distance(
                        word,
                        #[trigger] candidates[j],
                    )
            },
            None => candidates.len() == 0,
        },
    decreases candidates.len(),
{
    if candidates.len() > 0 {
        let earlier = candidates.drop_last();
        lemma_closest(word, earlier);
        assert forall|j: int| 0 <= j < earlier.len() implies earlier[j] == candidates[j] by {}
    }
}

/// `levenshtein::levenshtein`: the Levenshtein distance between the
/// characters of two strings.
#[verifier::external_body]
pub(crate) fn levenshtein_distance(a: &str, b: &str) -> (distance: usize)
    ensures
        distance == edit_distance(a@, b@),
{
    levenshtein::levenshtein(a, b)
}

impl StyledText {
    /// The candidate that is nearest to this text by Levenshtein distance,
    /// provided that distance is at most 2; among several at the same
    /// distance the first. The text has to be valid UTF-8.
    pub fn nearest(&self, candidates: Vec<String>) -> (suggestion: Option<String>)
        requires
            valid_utf8(self@),
        ensures
            match suggestion {
                Some(word) => {
                    &&& nearest_spec(decode_utf8(self@), words_of(candidates@)).is_some()
                    &&& word@ == words_of(candidates@)[nearest_spec(
                        decode_utf8(self@),
                        words_of(candidates@),
                    ).unwrap()]
                },
                None => nearest_spec(decode_utf8(self@), words_of(candidates@)).is_none(),
            },
    {
        let word = match str_from_utf8(self.bytes().as_slice()) {
            Ok(word) => word,
            Err(_) => {
                return None;
            },
        };
        proof {
            vstd::utf8::encode_utf8_decode_utf8(word@);
        }
        let ghost words = words_of(candidates@);
        let mut best: Option<(usize, usize)> = None;
        let mut i: usize = 0;
        assert(words.take(0) =~= Seq::<Seq<char>>::empty());
        while i < candidates.len()
            invariant
                i <= candidates.len(),
                words == words_of(candidates@),
                word@ == decode_utf8(self@),
                match best {
                    Some((k, distance)) => {
                        &&& closest(word@, words.take(i as int)) == Some(k as int)
                        &&& k < i
                        &&& distance == edit_distance(word@, words[k as int])
                    },
                    None => closest(word@, words.take(i as int)).is_none(),
                },
            decreases candidates.len() - i,
        {
            let distance = levenshtein_distance(word, candidates[i].as_str());
            proof {
                lemma_closest(word@, words.take(i as int));
                assert(words.take(i + 1).drop_last() =~= words.take(i as int));
                assert(words.take(i + 1)[i as int] == words[i as int]);
                assert(words[i as int] == candidates@[i as int]@);
            }
            best = match best {
                Some((k, least)) => if distance < least {
                    Some((i, distance))
                } else {
                    Some((k, least))
                },
                None => Some((i, distance)),
            };
            i += 1;
        }
        assert(words.take(i as int) =~= words);
        match best {
            Some((k, distance)) => if distance <= SUGGESTION_DISTANCE {
                Some(candidates[k].clone())
            } else {
                None
            },
            None => None,
        }
    }
}

} // verus!

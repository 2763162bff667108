use vstd::prelude::*;

use crate::modes::{budget_left, random_below, sum_width, SourceError};
use crate::strings::{is_word, split_words, words_from};
use crate::TermUnit;

verus! {

/// True when `w` stands somewhere in the word list.
pub open spec fn from_list(w: Seq<char>, words: Seq<Seq<char>>) -> bool {
    exists|j: int| 0 <= j < words.len() && w == #[trigger] words[j]
}

/// A plain word list sampled at random, line by line.
#[derive(Debug)]
pub struct Dictionary {
    pub possible_words: Vec<String>,
}

impl Dictionary {
    /// The dictionary's invariant: at least one word, every entry a word.
    pub open spec fn inv(self) -> bool {
        &&& self.possible_words@.len() > 0
        &&& forall|k: int|
            0 <= k < self.possible_words@.len() ==> is_word(
                #[trigger] self.possible_words.deep_view()[k],
            )
    }

    /// Builds the dictionary from a backing text; a text without words is a
    /// configuration error.
    pub fn new(text: &str) -> (r: Result<Dictionary, SourceError>)
        ensures
            r is Ok <==> words_from(text@, 0).len() > 0,
            r matches Ok(d) ==> d.inv() && d.possible_words.deep_view() == words_from(text@, 0),
            r is Err ==> r == Result::<Dictionary, SourceError>::Err(SourceError::NoUsableWords),
    {
        let possible_words = split_words(text);
        if possible_words.len() == 0 {
            return Err(SourceError::NoUsableWords);
        }
        Ok(Dictionary { possible_words })
    }

    /// Draws random words until they would overrun a line of `max_width`
    /// columns, then gives the line back: its words never overrun the line.
    pub fn yield_words(&self, max_width: TermUnit) -> (r: Vec<String>)
        requires
            self.inv(),
        ensures
            sum_width(r.deep_view()) <= max_width as nat,
            forall|k: int|
                0 <= k < r.deep_view().len() ==> from_list(
                    #[trigger] r.deep_view()[k],
                    self.possible_words.deep_view(),
                ),
    {
        let n = self.possible_words.len();
        let mut out: Vec<String> = Vec::new();
        let mut width: u128 = 0;
        while width <= max_width as u128
            invariant
                self.inv(),
                n == self.possible_words@.len(),
                width == sum_width(out.deep_view()),
                out@.len() > 0 ==> sum_width(out.deep_view().drop_last()) <= max_width as nat,
                forall|k: int|
                    0 <= k < out.deep_view().len() ==> from_list(
                        #[trigger] out.deep_view()[k],
                        self.possible_words.deep_view(),
                    ),
            decreases budget_left(width, max_width as u128),
        {
            let k = random_below(n);
            let word = self.possible_words[k].clone();
            let ghost pre = out.deep_view();
            width = width + word.as_str().unicode_len() as u128 + 1;
            out.push(word);
            proof {
                assert(out.deep_view() =~= pre.push(word@));
                assert(out.deep_view().drop_last() =~= pre);
                assert(word@ == self.possible_words.deep_view()[k as int]);
            }
        }
        let ghost pre = out.deep_view();
        let _ = out.pop();
        proof {
            assert(out.deep_view() =~= pre.drop_last());
        }
        out
    }
}

} // verus!

use vstd::prelude::*;

use crate::strings::{is_word, split_words, str_eq, words_from};
use crate::{Idx, TermUnit};

verus! {

/// Why a word source could not be built.
#[derive(Debug, Clone, Copy, PartialEq, Eq, Structural)]
pub enum SourceError {
    /// The mode tag names no known source kind.
    InvalidMode,
    /// After dropping over-long words, nothing was left to practice on.
    NoUsableWords,
}

/// Relies on rand::Rng::gen_range over `0..n`: a uniformly sampled value in
/// that range; it panics only on an empty range, which the bound rules out.
#[verifier::external_body]
pub(crate) fn random_below(n: usize) -> (r: usize)
    requires
        n > 0,
    ensures
        r < n,
{
    rand::Rng::gen_range(&mut rand::thread_rng(), 0..n)
}

/// True of a word list in which every entry is a usable practice word
/// strictly narrower than `max_width`.
pub open spec fn all_words_fit(words: Seq<Seq<char>>, max_width: nat) -> bool {
    forall|k: int|
        0 <= k < words.len() ==> is_word(#[trigger] words[k]) && words[k].len() < max_width
}

/// The predicate that keeps a word at load time: strictly narrower than the
/// viewport width.
pub open spec fn fits_width(max_width: TermUnit) -> spec_fn(Seq<char>) -> bool {
    |w: Seq<char>| w.len() < max_width as nat
}

/// How much of a line of `cap` columns is still free, for loop termination.
pub open spec fn budget_left(width: u128, cap: u128) -> nat {
    if width <= cap + 1 {
        (cap + 1 - width) as nat
    } else {
        0
    }
}

/// The screen columns a word list takes: each word and its separator space.
pub open spec fn sum_width(ws: Seq<Seq<char>>) -> nat
    decreases ws.len(),
{
    if ws.len() == 0 {
        0
    } else {
        sum_width(ws.drop_last()) + ws.last().len() + 1
    }
}

/// Every element of a filtered sequence stands somewhere in the original.
proof fn lemma_filter_element_of(s: Seq<Seq<char>>, pred: spec_fn(Seq<char>) -> bool, k: int)
    requires
        0 <= k < s.filter(pred).len(),
    ensures
        exists|j: int| 0 <= j < s.len() && s[j] == #[trigger] s.filter(pred)[k],
    decreases s.len(),
{
    reveal(Seq::filter);
    if s.len() > 0 {
        let d = s.drop_last();
        let f = s.filter(pred);
        if pred(s.last()) && k == f.len() - 1 {
            assert(s[s.len() - 1] == f[k]);
        } else {
            lemma_filter_element_of(d, pred, k);
            let j = choose|j: int| 0 <= j < d.len() && d[j] == d.filter(pred)[k];
            assert(s[j] == f[k]);
        }
    }
}

/// Keeps the words strictly narrower than `max_width`, in order.
fn filter_fitting(words: &Vec<String>, max_width: TermUnit) -> (r: Vec<String>)
    ensures
        r.deep_view() == words.deep_view().filter(fits_width(max_width)),
{
    let mut kept: Vec<String> = Vec::new();
    let n = words.len();
    let mut i: usize = 0;
    while i < n
        invariant
            0 <= i <= n,
            n == words@.len(),
            kept.deep_view() == words.deep_view().take(i as int).filter(fits_width(max_width)),
        decreases n - i,
    {
        let ghost pre = kept.deep_view();
        let keep = words[i].as_str().unicode_len() < max_width as usize;
        if keep {
            kept.push(words[i].clone());
        }
        proof {
            reveal(Seq::filter);
            let dv = words.deep_view();
            assert(dv.take(i + 1).drop_last() =~= dv.take(i as int));
            assert(dv.take(i + 1).last() == dv[i as int]);
            if keep {
                assert(kept.deep_view() =~= pre.push(dv[i as int]));
            }
            assert(kept.deep_view() =~= dv.take(i + 1).filter(fits_width(max_width)));
        }
        i += 1;
    }
    proof {
        assert(words.deep_view().take(n as int) =~= words.deep_view());
    }
    kept
}

/// The capability every word source offers: an unbounded stream of practice
/// words, each one narrower than the source's width bound.
pub trait MecanoMode: Sized {
    /// The source's own invariant.
    spec fn inv(&self) -> bool;

    /// The width every yielded word stays strictly under.
    spec fn width_bound(&self) -> nat;

    /// How one yield relates the source before, the source after, and the
    /// word produced.
    spec fn yields(&self, post: Self, w: Seq<char>) -> bool;

    /// Produces the next practice word.
    fn yield_word(&mut self) -> (r: String)
        requires
            old(self).inv(),
        ensures
            final(self).inv(),
            final(self).width_bound() == old(self).width_bound(),
            old(self).yields(*final(self), r@),
            is_word(r@),
            r@.len() < old(self).width_bound(),
    ;

    /// Pulls consecutive words until they would overrun one default-width
    /// line: the result is non-empty, just overruns the line, and without its
    /// last word would still fit.
    fn yield_words(&mut self) -> (r: Vec<String>)
        requires
            old(self).inv(),
        ensures
            final(self).inv(),
            final(self).width_bound() == old(self).width_bound(),
            forall|k: int| 0 <= k < r.deep_view().len() ==> is_word(#[trigger] r.deep_view()[k]),
            r.deep_view().len() > 0,
            sum_width(r.deep_view()) > 80,
            sum_width(r.deep_view().drop_last()) <= 80,
    {
        let mut words_yielded: Vec<String> = Vec::new();
        let mut width: u128 = 0;
        while width <= 80
            invariant
                self.inv(),
                self.width_bound() == old(self).width_bound(),
                width == sum_width(words_yielded.deep_view()),
                width <= 80 + 0x1_0000_0000_0000_0000u128,
                words_yielded.deep_view().len() > 0 ==> sum_width(
                    words_yielded.deep_view().drop_last(),
                ) <= 80,
                forall|k: int|
                    0 <= k < words_yielded.deep_view().len() ==> is_word(
                        #[trigger] words_yielded.deep_view()[k],
                    ),
            decreases budget_left(width, 80),
        {
            let rand_word = self.yield_word();
            let ghost pre = words_yielded.deep_view();
            width = width + rand_word.as_str().unicode_len() as u128 + 1;
            words_yielded.push(rand_word);
            proof {
                assert(words_yielded.deep_view() =~= pre.push(rand_word@));
                assert(words_yielded.deep_view().drop_last() =~= pre);
            }
        }
        words_yielded
    }
}

/// The deterministic source: the backing text's words in a fixed cycle.
#[derive(Debug)]
pub struct MecanoFile {
    pub file_words: Vec<String>,
    pub nth_word: Idx,
    pub max_width: TermUnit,
}

impl MecanoFile {
    /// Builds the cyclic source from a backing text: the text's words,
    /// those as wide as the viewport dropped; an empty remainder is a
    /// configuration error.
    pub fn new(text: &str, max_width: TermUnit) -> (r: Result<MecanoFile, SourceError>)
        ensures
            r is Ok <==> words_from(text@, 0).filter(fits_width(max_width)).len() > 0,
            r matches Ok(f) ==> {
                &&& f.inv()
                &&& f.file_words.deep_view() == words_from(text@, 0).filter(
                    fits_width(max_width),
                )
                &&& f.nth_word == 0
                &&& f.max_width == max_width
            },
            r is Err ==> r == Result::<MecanoFile, SourceError>::Err(SourceError::NoUsableWords),
    {
        let words = split_words(text);
        let file_words = filter_fitting(&words, max_width);
        proof {
            let filtered = words_from(text@, 0).filter(fits_width(max_width));
            assert(file_words.deep_view() == filtered);
            assert forall|k: int|
                0 <= k < filtered.len() implies is_word(#[trigger] filtered[k]) && filtered[k].len()
                < max_width as nat by {
                words.deep_view().lemma_filter_pred(fits_width(max_width), k);
                lemma_filter_element_of(words.deep_view(), fits_width(max_width), k);
            }
        }
        if file_words.len() == 0 {
            return Err(SourceError::NoUsableWords);
        }
        Ok(MecanoFile { file_words, nth_word: 0, max_width })
    }
}

impl MecanoMode for MecanoFile {
    open spec fn inv(&self) -> bool {
        &&& self.file_words@.len() > 0
        &&& self.nth_word < self.file_words@.len()
        &&& all_words_fit(self.file_words.deep_view(), self.max_width as nat)
    }

    open spec fn width_bound(&self) -> nat {
        self.max_width as nat
    }

    open spec fn yields(&self, post: MecanoFile, w: Seq<char>) -> bool {
        &&& post.file_words == self.file_words
        &&& post.max_width == self.max_width
        &&& self.file_words@.len() > 0
        &&& w == self.file_words.deep_view()[self.nth_word as int]
        &&& post.nth_word == (self.nth_word + 1) % (self.file_words@.len() as int)
    }

    fn yield_word(&mut self) -> (r: String) {
        let word = self.file_words[self.nth_word].clone();
        proof {
            assert(word@ == self.file_words.deep_view()[self.nth_word as int]);
        }
        let n = self.file_words.len();
        self.nth_word = (self.nth_word + 1) % n;
        proof {
            assert(old(self).yields(*self, word@));
        }
        word
    }
}

/// The random source: uniform sampling with replacement from a word list.
#[derive(Debug)]
pub struct MecanoDictionary {
    pub possible_words: Vec<String>,
    pub max_width: TermUnit,
}

impl MecanoDictionary {
    /// Builds the sampling source from a backing text, dropping words as wide
    /// as the viewport; an empty remainder is a configuration error.
    pub fn new(text: &str, max_width: TermUnit) -> (r: Result<MecanoDictionary, SourceError>)
        ensures
            r is Ok <==> words_from(text@, 0).filter(fits_width(max_width)).len() > 0,
            r matches Ok(d) ==> {
                &&& d.inv()
                &&& d.possible_words.deep_view() == words_from(text@, 0).filter(
                    fits_width(max_width),
                )
                &&& d.max_width == max_width
            },
            r is Err ==> r == Result::<MecanoDictionary, SourceError>::Err(
                SourceError::NoUsableWords,
            ),
    {
        let words = split_words(text);
        let possible_words = filter_fitting(&words, max_width);
        proof {
            let filtered = words_from(text@, 0).filter(fits_width(max_width));
            assert forall|k: int|
                0 <= k < filtered.len() implies is_word(#[trigger] filtered[k]) && filtered[k].len()
                < max_width as nat by {
                words.deep_view().lemma_filter_pred(fits_width(max_width), k);
                lemma_filter_element_of(words.deep_view(), fits_width(max_width), k);
            }
        }
        if possible_words.len() == 0 {
            return Err(SourceError::NoUsableWords);
        }
        Ok(MecanoDictionary { possible_words, max_width })
    }
}

impl MecanoMode for MecanoDictionary {
    open spec fn inv(&self) -> bool {
        &&& self.possible_words@.len() > 0
        &&& all_words_fit(self.possible_words.deep_view(), self.max_width as nat)
    }

    open spec fn width_bound(&self) -> nat {
        self.max_width as nat
    }

    open spec fn yields(&self, post: MecanoDictionary, w: Seq<char>) -> bool {
        &&& post.possible_words == self.possible_words
        &&& post.max_width == self.max_width
        &&& exists|k: int|
            0 <= k < self.possible_words@.len() && w == #[trigger] self.possible_words.deep_view()[k]
    }

    fn yield_word(&mut self) -> (r: String) {
        let k = random_below(self.possible_words.len());
        let word = self.possible_words[k].clone();
        proof {
            assert(word@ == self.possible_words.deep_view()[k as int]);
            assert(old(self).yields(*self, word@));
        }
        word
    }
}

/// The deterministic word source, under the name the session uses for it.
pub type SourceFile = MecanoFile;

/// The sampling word source, under the name the session uses for it.
pub type SourceDictionary = MecanoDictionary;

/// The closed set of word-source kinds, chosen once at construction.
#[derive(Debug)]
pub enum Mode {
    File(MecanoFile),
    Dictionary(MecanoDictionary),
}

impl Mode {
    /// The chosen source's invariant.
    pub open spec fn inv(self) -> bool {
        match self {
            Mode::File(f) => f.inv(),
            Mode::Dictionary(d) => d.inv(),
        }
    }

    /// The width every yielded word stays strictly under.
    pub open spec fn width_bound(self) -> nat {
        match self {
            Mode::File(f) => f.width_bound(),
            Mode::Dictionary(d) => d.width_bound(),
        }
    }

    /// How one yield relates the mode before, the mode after, and the word.
    pub open spec fn yields(self, post: Mode, w: Seq<char>) -> bool {
        match (self, post) {
            (Mode::File(f0), Mode::File(f1)) => f0.yields(f1, w),
            (Mode::Dictionary(d0), Mode::Dictionary(d1)) => d0.yields(d1, w),
            _ => false,
        }
    }

    /// Builds the source that the mode tag names, over the backing text.
    pub fn new(mode: &str, text: &str, max_width: TermUnit) -> (r: Result<Mode, SourceError>)
        ensures
            mode@ != "file"@ && mode@ != "dictionary"@ ==> r == Result::<Mode, SourceError>::Err(
                SourceError::InvalidMode,
            ),
            (mode@ == "file"@ || mode@ == "dictionary"@) && words_from(text@, 0).filter(
                fits_width(max_width),
            ).len() == 0 ==> r == Result::<Mode, SourceError>::Err(SourceError::NoUsableWords),
            r is Ok <==> (mode@ == "file"@ || mode@ == "dictionary"@) && words_from(
                text@,
                0,
            ).filter(fits_width(max_width)).len() > 0,
            r matches Ok(m) ==> {
                &&& m.inv()
                &&& m.width_bound() == max_width as nat
                &&& (mode@ == "file"@ ==> m is File)
                &&& (mode@ == "dictionary"@ ==> m is Dictionary)
            },
    {
        proof {
            reveal_strlit("file");
            reveal_strlit("dictionary");
            assert("file"@.len() != "dictionary"@.len());
        }
        if str_eq(mode, "file") {
            match MecanoFile::new(text, max_width) {
                Ok(f) => Ok(Mode::File(f)),
                Err(e) => Err(e),
            }
        } else if str_eq(mode, "dictionary") {
            match MecanoDictionary::new(text, max_width) {
                Ok(d) => Ok(Mode::Dictionary(d)),
                Err(e) => Err(e),
            }
        } else {
            Err(SourceError::InvalidMode)
        }
    }

    /// Produces the next practice word from whichever source was chosen.
    pub fn yield_word(&mut self) -> (r: String)
        requires
            old(self).inv(),
        ensures
            final(self).inv(),
            final(self).width_bound() == old(self).width_bound(),
            old(self).yields(*final(self), r@),
            is_word(r@),
            r@.len() < old(self).width_bound(),
    {
        match self {
            Mode::File(f) => f.yield_word(),
            Mode::Dictionary(d) => d.yield_word(),
        }
    }

    /// True of exactly the mode tags that name a source kind.
    pub fn valid_str(str: &str) -> (r: bool)
        ensures
            r == (str@ == "file"@ || str@ == "dictionary"@),
    {
        str_eq(str, "file") || str_eq(str, "dictionary")
    }

    /// The mode tags, for error messages.
    pub fn all_modes() -> (r: &'static str)
        ensures
            r@ == "`dictionary`, `file`"@,
    {
        "`dictionary`, `file`"
    }
}

/// The k-th word a cyclic file source yields, counting from its state.
pub open spec fn cyclic_word_at(words: Seq<Seq<char>>, start: int, k: nat) -> Seq<char>
    recommends
        words.len() > 0,
        0 <= start < words.len(),
{
    words[(start + k) % (words.len() as int)]
}

/// Law: the file source replays deterministically: two sources over equal
/// word lists and positions owe the same word at every future step.
pub proof fn lemma_file_source_deterministic(a: MecanoFile, b: MecanoFile, k: nat)
    requires
        a.inv(),
        b.inv(),
        a.file_words.deep_view() == b.file_words.deep_view(),
        a.nth_word == b.nth_word,
    ensures
        cyclic_word_at(a.file_words.deep_view(), a.nth_word as int, k) == cyclic_word_at(
            b.file_words.deep_view(),
            b.nth_word as int,
            k,
        ),
{
}

} // verus!

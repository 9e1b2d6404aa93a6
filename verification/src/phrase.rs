//! Phrases: what a rule looks for and what it proposes.
//!
//! A phrase is written down as a line of text and read as a short sequence
//! of words. Blanks part the words. A hyphen is a word of its own, as it is a
//! token of its own in a stream of tokens; an apostrophe belongs to the word
//! it stands in. The words are kept folded, the text as it was written.

use vstd::prelude::*;
use crate::error::RuleError;
use crate::fold::{fold, fold_char, fold_word, views};

verus! {

/// The greatest number of words a phrase may hold.
pub const MAX_PHRASE_WORDS: usize = 5;

/// The word that is being read, as a list of at most one finished word.
pub open spec fn flush(cur: Seq<char>) -> Seq<Seq<char>> {
    if cur.len() > 0 {
        seq![cur]
    } else {
        Seq::empty()
    }
}

/// The words still to come from `s` at position `i`, where `cur` holds the
/// characters read so far of the word at hand.
pub open spec fn words_from(s: Seq<char>, i: int, cur: Seq<char>) -> Seq<Seq<char>>
    decreases s.len() - i,
{
    if i < 0 || i >= s.len() {
        flush(cur)
    } else if s[i] == ' ' {
        flush(cur) + words_from(s, i + 1, Seq::empty())
    } else if s[i] == '-' {
        flush(cur) + seq![seq!['-']] + words_from(s, i + 1, Seq::empty())
    } else {
        words_from(s, i + 1, cur.push(fold_char(s[i])))
    }
}

/// The folded words of a phrase written as `s`.
pub open spec fn phrase_words(s: Seq<char>) -> Seq<Seq<char>> {
    words_from(s, 0, Seq::empty())
}

/// What is wrong with a phrase written as `s`, if anything.
pub open spec fn phrase_error(s: Seq<char>) -> Option<RuleError> {
    if phrase_words(s).len() == 0 {
        Some(RuleError::EmptyPhrase)
    } else if phrase_words(s).len() > MAX_PHRASE_WORDS {
        Some(RuleError::PhraseTooLong)
    } else {
        None
    }
}

/// A word that holds a character and is its own folded form.
pub open spec fn is_folded_word(w: Seq<char>) -> bool {
    w.len() > 0 && fold_word(w) == w
}

/// Every word of `ws` is a folded word.
pub open spec fn all_folded(ws: Seq<Seq<char>>) -> bool {
    forall|k: int| 0 <= k < ws.len() ==> is_folded_word(#[trigger] ws[k])
}

/// Every word that `words_from` yields is a folded word, provided the word
/// at hand is folded.
pub proof fn lemma_words_from_folded(s: Seq<char>, i: int, cur: Seq<char>)
    requires
        fold_word(cur) == cur,
    ensures
        all_folded(words_from(s, i, cur)),
    decreases s.len() - i,
{
    let empty = Seq::<char>::empty();
    assert(fold_word(empty) =~= empty);
    assert(fold_word(seq!['-']) =~= seq!['-']);
    if i < 0 || i >= s.len() {
    } else if s[i] == ' ' || s[i] == '-' {
        lemma_words_from_folded(s, i + 1, empty);
    } else {
        let next = cur.push(fold_char(s[i]));
        assert(fold_word(next) =~= next);
        lemma_words_from_folded(s, i + 1, next);
    }
}

/// The words of a phrase are folded, and none is empty.
pub proof fn lemma_phrase_words_folded(s: Seq<char>)
    ensures
        all_folded(phrase_words(s)),
{
    assert(fold_word(Seq::<char>::empty()) =~= Seq::<char>::empty());
    lemma_words_from_folded(s, 0, Seq::empty());
}

/// A phrase: its text as written, and its folded words.
#[derive(Debug)]
pub struct Phrase {
    text: String,
    words: Vec<Vec<char>>,
}

impl View for Phrase {
    type V = Seq<char>;

    /// The text of the phrase as it was written.
    closed spec fn view(&self) -> Seq<char> {
        self.text@
    }
}

impl Phrase {
    /// The phrase holds the words of its text, between one and
    /// `MAX_PHRASE_WORDS` of them.
    pub closed spec fn wf(&self) -> bool {
        &&& views(self.words@) == phrase_words(self.text@)
        &&& phrase_error(self.text@) is None
    }

    /// The folded words of the phrase.
    pub open spec fn words(&self) -> Seq<Seq<char>> {
        phrase_words(self@)
    }

    /// A well-formed phrase has passed the checks on its words.
    pub proof fn lemma_wf(&self)
        requires
            self.wf(),
        ensures
            phrase_error(self@) is None,
            1 <= self.words().len() <= MAX_PHRASE_WORDS,
    {
    }

    /// Reads a phrase from its text. The text is turned down when it holds no
    /// word, or more than `MAX_PHRASE_WORDS` words.
    pub fn new(text: &str) -> (r: Result<Phrase, RuleError>)
        ensures
            match r {
                Ok(p) => p.wf() && p@ == text@ && phrase_error(text@) is None,
                Err(e) => phrase_error(text@) == Some(e),
            },
    {
        let words = split_words(text);
        if words.len() == 0 {
            Err(RuleError::EmptyPhrase)
        } else if words.len() > MAX_PHRASE_WORDS {
            Err(RuleError::PhraseTooLong)
        } else {
            Ok(Phrase { text: text.to_owned(), words })
        }
    }

    /// The text of the phrase as it was written.
    pub fn text(&self) -> (r: &str)
        ensures
            r@ == self@,
    {
        self.text.as_str()
    }

    /// The number of words in the phrase.
    pub fn word_count(&self) -> (n: usize)
        requires
            self.wf(),
        ensures
            n == self.words().len(),
            1 <= n <= MAX_PHRASE_WORDS,
    {
        self.words.len()
    }

    /// The folded word at place `i`.
    pub fn word(&self, i: usize) -> (w: &Vec<char>)
        requires
            self.wf(),
            i < self.words().len(),
        ensures
            w@ == self.words()[i as int],
    {
        &self.words[i]
    }
}

/// Puts the word at hand, if it holds a character, at the end of `out`.
fn flush_word(out: &mut Vec<Vec<char>>, cur: Vec<char>)
    ensures
        views(final(out)@) == views(old(out)@) + flush(cur@),
{
    if cur.len() > 0 {
        out.push(cur);
    }
}

/// Splits a text into its folded words.
pub fn split_words(text: &str) -> (words: Vec<Vec<char>>)
    ensures
        views(words@) == phrase_words(text@),
{
    let mut out: Vec<Vec<char>> = Vec::new();
    let mut cur: Vec<char> = Vec::new();
    for c in it: text.chars()
        invariant
            it.seq() == text@,
            views(out@) + words_from(text@, it.index(), cur@) == phrase_words(text@),
    {
        let ghost done = views(out@);
        let ghost word = cur@;
        if c == ' ' {
            flush_word(&mut out, cur);
            cur = Vec::new();
        } else if c == '-' {
            flush_word(&mut out, cur);
            cur = Vec::new();
            let mut hyphen: Vec<char> = Vec::new();
            hyphen.push('-');
            out.push(hyphen);
            assert(views(out@) =~= done + flush(word) + seq![seq!['-']]);
        } else {
            cur.push(fold(c));
        }
    }
    flush_word(&mut out, cur);
    out
}

} // verus!

//! Tokens come in, lints go out.
//!
//! The tokenizer is not part of this library. It hands over the words and
//! punctuation marks of a document in reading order, each with the place it
//! takes in the source; white space parts tokens and is none itself.

use vstd::prelude::*;
use crate::fold::{fold_word, texts};

verus! {

/// A range of places: from `start` up to, not including, `end`.
#[derive(Clone, Copy, Debug, PartialEq, Eq, Structural)]
pub struct Span {
    pub start: usize,
    pub end: usize,
}

/// A token of the document: its text and the characters it takes in the
/// source.
#[derive(Clone, Debug, PartialEq, Eq)]
pub struct Token {
    pub text: String,
    pub span: Span,
}

impl Token {
    /// A token with the given text that takes the characters from `start`
    /// up to `end`.
    pub fn new(text: &str, start: usize, end: usize) -> (t: Token)
        ensures
            t.text@ == text@,
            t.span == (Span { start, end }),
    {
        Token { text: text.to_owned(), span: Span { start, end } }
    }
}

/// The folded texts of a stream of tokens: what matching sees of it.
pub open spec fn folded_texts(tokens: Seq<Token>) -> Seq<Seq<char>> {
    Seq::new(tokens.len(), |i: int| fold_word(tokens[i].text@))
}

/// A finding: a wrong phrase in the document, and what to write instead.
#[derive(Clone, Debug, PartialEq, Eq)]
pub struct Lint {
    /// The tokens that make up the wrong phrase, as places in the stream.
    pub tokens: Span,
    /// The characters of the source from the first of these tokens to the
    /// last.
    pub span: Span,
    /// The wrong phrase, as the rule has it.
    pub matched_text: String,
    /// The name of the rule that found it.
    pub rule_name: String,
    /// What the rule tells the writer.
    pub message: String,
    /// What to write instead, best first, in the rule's own spelling.
    pub suggestions: Vec<String>,
}

/// A finding, as plain values.
pub struct LintModel {
    pub first_token: int,
    pub end_token: int,
    pub span: Span,
    pub matched_text: Seq<char>,
    pub rule_name: Seq<char>,
    pub message: Seq<char>,
    pub suggestions: Seq<Seq<char>>,
}

impl View for Lint {
    type V = LintModel;

    open spec fn view(&self) -> LintModel {
        LintModel {
            first_token: self.tokens.start as int,
            end_token: self.tokens.end as int,
            span: self.span,
            matched_text: self.matched_text@,
            rule_name: self.rule_name@,
            message: self.message@,
            suggestions: texts(self.suggestions@),
        }
    }
}

/// The models of a sequence of findings.
pub open spec fn lint_models(v: Seq<Lint>) -> Seq<LintModel> {
    Seq::new(v.len(), |i: int| v[i]@)
}

} // verus!

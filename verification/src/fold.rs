//! Case folding: the form in which words are compared.
//!
//! Two words are the same word when they agree character for character once
//! the ASCII capitals are replaced by their small letters. Nothing else is
//! changed: no character is dropped, joined or replaced by a look-alike.

use vstd::prelude::*;

verus! {

/// The small letter of an ASCII capital; any other character itself.
pub open spec fn fold_char(c: char) -> char {
    if 'A' <= c && c <= 'Z' {
        ((c as u8) + 32) as char
    } else {
        c
    }
}

/// A word with every character folded.
pub open spec fn fold_word(s: Seq<char>) -> Seq<char> {
    Seq::new(s.len(), |i: int| fold_char(s[i]))
}

/// The character sequences held by a sequence of character vectors.
pub open spec fn views(v: Seq<Vec<char>>) -> Seq<Seq<char>> {
    Seq::new(v.len(), |i: int| v[i]@)
}

/// The character sequences held by a sequence of strings.
pub open spec fn texts(v: Seq<String>) -> Seq<Seq<char>> {
    Seq::new(v.len(), |i: int| v[i]@)
}

/// A number that depends on the characters of a word alone. Equal words have
/// equal keys; the first-word index of a matcher files phrases under it.
pub open spec fn key_of(s: Seq<char>) -> u64
    decreases s.len(),
{
    if s.len() == 0 {
        0xcbf2_9ce4_8422_2325u64
    } else {
        let h = key_of(s.drop_last());
        (h << 5u64) ^ (h >> 59u64) ^ (s.last() as u64)
    }
}

/// Folds one character.
pub fn fold(c: char) -> (r: char)
    ensures
        r == fold_char(c),
{
    if 'A' <= c && c <= 'Z' {
        let b: u8 = c as u8;
        (b + 32) as char
    } else {
        c
    }
}

/// Folds the characters of a string.
pub fn fold_str(s: &str) -> (r: Vec<char>)
    ensures
        r@ == fold_word(s@),
{
    let mut out: Vec<char> = Vec::new();
    for c in it: s.chars()
        invariant
            it.seq() == s@,
            out@ == fold_word(s@.take(it.index())),
    {
        out.push(fold(c));
    }
    out
}

/// Whether two words hold the same characters.
pub fn same_word(a: &Vec<char>, b: &Vec<char>) -> (r: bool)
    ensures
        r == (a@ == b@),
{
    if a.len() != b.len() {
        return false;
    }
    let mut i: usize = 0;
    while i < a.len()
        invariant
            a.len() == b.len(),
            i <= a.len(),
            forall|j: int| 0 <= j < i ==> a@[j] == b@[j],
        decreases a.len() - i,
    {
        if a[i] != b[i] {
            return false;
        }
        i += 1;
    }
    assert(a@ =~= b@);
    true
}

/// Computes the key of a word.
pub fn word_key(w: &Vec<char>) -> (k: u64)
    ensures
        k == key_of(w@),
{
    let mut h: u64 = 0xcbf2_9ce4_8422_2325u64;
    let mut i: usize = 0;
    while i < w.len()
        invariant
            i <= w.len(),
            h == key_of(w@.take(i as int)),
        decreases w.len() - i,
    {
        assert(w@.take(i + 1).drop_last() =~= w@.take(i as int));
        h = (h << 5u64) ^ (h >> 59u64) ^ (w[i] as u64);
        i += 1;
    }
    assert(w@.take(w.len() as int) =~= w@);
    h
}

} // verus!

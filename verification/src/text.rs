//! Reading the short words that a host passes in: names of game modes and of
//! directions, in any mix of upper and lower case.

use vstd::prelude::*;
use vstd::string::*;

verus! {

/// A character with an ASCII capital letter turned into its small letter.
pub open spec fn lowered(c: char) -> char {
    if 'A' <= c && c <= 'Z' {
        ((c as u8) + 32) as char
    } else {
        c
    }
}

/// The text spells `word`, a word in small letters, when the case of its
/// ASCII letters is ignored.
pub open spec fn spells(text: Seq<char>, word: Seq<char>) -> bool {
    &&& text.len() == word.len()
    &&& forall|i: int| 0 <= i < text.len() ==> lowered(#[trigger] text[i]) == word[i]
}

/// Turns an ASCII capital letter into its small letter.
pub fn to_lower(c: char) -> (l: char)
    ensures
        l == lowered(c),
{
    if 'A' <= c && c <= 'Z' {
        ((c as u8) + 32) as char
    } else {
        c
    }
}

/// Whether `text` spells `word`, ignoring the case of ASCII letters.
pub fn spells_word(text: &str, word: &str) -> (same: bool)
    ensures
        same == spells(text@, word@),
{
    let n: usize = text.unicode_len();
    if n != word.unicode_len() {
        return false;
    }
    let mut i: usize = 0;
    while i < n
        invariant
            i <= n,
            n == text@.len(),
            n == word@.len(),
            forall|j: int| 0 <= j < i ==> lowered(#[trigger] text@[j]) == word@[j],
        decreases n - i,
    {
        if to_lower(text.get_char(i)) != word.get_char(i) {
            return false;
        }
        i += 1;
    }
    true
}

} // verus!

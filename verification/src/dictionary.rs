//! The fixed, ordered 2048-word English mnemonic dictionary, with lookup in
//! both directions: position to word and word to position.

use vstd::prelude::*;

verus! {

/// The word standing at a given position of the English dictionary.
pub uninterp spec fn word_of(i: int) -> Seq<char>;

/// Whether a word stands anywhere in the English dictionary.
pub open spec fn word_in_dictionary(w: Seq<char>) -> bool {
    exists|i: int| 0 <= i < 2048 && word_of(i) == w
}

/// Relies on `bip39::Language::English.word_list()`: the fixed array of the
/// 2048 English mnemonic words; indexing a position below 2048 yields the
/// word at that position.
#[verifier::external_body]
pub fn word_at(i: u16) -> (r: String)
    requires
        i < 2048,
    ensures
        r@ == word_of(i as int),
{
    bip39::Language::English.word_list()[i as usize].to_string()
}

/// Relies on `bip39::Language::English.find_word`: the English word list is
/// sorted and free of duplicates, and the lookup returns the position of
/// exactly the word that equals its argument, if there is one.
#[verifier::external_body]
pub fn word_index(w: &str) -> (r: Option<u16>)
    ensures
        r matches Some(i) ==> i < 2048 && word_of(i as int) == w@,
        r is None ==> forall|i: int| 0 <= i < 2048 ==> word_of(i) != w@,
        forall|i: int| 0 <= i < 2048 && word_of(i) == w@ ==> r == Some(i as u16),
{
    bip39::Language::English.find_word(w)
}

} // verus!

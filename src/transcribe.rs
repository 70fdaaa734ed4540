use vstd::prelude::*;

use crate::dictionary::{lookup_of, Dictionary};
use crate::mapping::{english_sound, ipa_to_english_sound, SymbolTable};
use crate::text::{chars_of, split_words, words_of};

verus! {

/// Whether a transcription is wrapped in one pair of slash or bracket delimiters.
pub open spec fn is_wrapped(t: Seq<char>) -> bool {
    t.len() >= 2 && ((t[0] == '/' && t.last() == '/') || (t[0] == '[' && t.last() == ']'))
}

/// A transcription without its delimiters; one that is not wrapped is kept whole.
pub open spec fn unwrapped(t: Seq<char>) -> Seq<char> {
    if is_wrapped(t) {
        t.subrange(1, t.len() - 1)
    } else {
        t
    }
}

/// The model of an optional symbol table.
pub open spec fn table_view(table: Option<&SymbolTable>) -> Option<Map<Seq<char>, Seq<char>>> {
    match table {
        Some(t) => Some(t@),
        None => None,
    }
}

/// What one word becomes: its dictionary lookup, and where a symbol table is
/// given, that lookup without delimiters, mapped to English sounds.
pub open spec fn transcription_of(
    d: Map<Seq<char>, Seq<char>>,
    table: Option<Map<Seq<char>, Seq<char>>>,
    w: Seq<char>,
) -> Seq<char> {
    match table {
        Some(t) => english_sound(unwrapped(lookup_of(d, w)), t),
        None => lookup_of(d, w),
    }
}

/// A word of the input paired with what it became.
pub struct Pair {
    pub text: String,
    pub phonetic: String,
}

/// Removes one leading and one trailing delimiter (`/.../` or `[...]`);
/// a transcription not wrapped so is returned unchanged.
pub fn strip_delimiters(t: &str) -> (r: String)
    ensures
        r@ == unwrapped(t@),
{
    let cs = chars_of(t);
    let n = cs.len();
    if n >= 2 && ((cs[0] == '/' && cs[n - 1] == '/') || (cs[0] == '[' && cs[n - 1] == ']')) {
        t.substring_char(1, n - 1).to_owned()
    } else {
        t.to_owned()
    }
}

/// The dictionary's transcription of a word, or the word itself.
pub fn word_to_phonetic(dict: &Dictionary, word: &str) -> (r: String)
    ensures
        r@ == lookup_of(dict@, word@),
{
    dict.lookup(word)
}

/// Transcribes one word: the dictionary lookup alone, or, with a symbol
/// table, the lookup stripped of delimiters and mapped to English sounds.
pub fn combined_mapping(dict: &Dictionary, table: Option<&SymbolTable>, word: &str) -> (r: String)
    ensures
        r@ == transcription_of(dict@, table_view(table), word@),
{
    let phonetic = word_to_phonetic(dict, word);
    match table {
        Some(map) => {
            let bare = strip_delimiters(phonetic.as_str());
            ipa_to_english_sound(bare.as_str(), map)
        },
        None => phonetic,
    }
}

/// Transcribes each whitespace-separated word of `text`, in input order.
pub fn process_request(dict: &Dictionary, table: Option<&SymbolTable>, text: &str) -> (r: Vec<
    Pair,
>)
    ensures
        r@.len() == words_of(text@).len(),
        forall|i: int|
            0 <= i < r@.len() ==> (#[trigger] r@[i]).text@ == words_of(text@)[i]
                && r@[i].phonetic@ == transcription_of(
                dict@,
                table_view(table),
                words_of(text@)[i],
            ),
{
    let words = split_words(text);
    let ghost ws = words_of(text@);
    let n = words.len();
    let mut out: Vec<Pair> = Vec::new();
    let mut i: usize = 0;
    while i < n
        invariant
            i <= n,
            n == words@.len(),
            ws.len() == n,
            forall|j: int| 0 <= j < n ==> (#[trigger] words@[j])@ == ws[j],
            out@.len() == i,
            forall|j: int|
                0 <= j < i ==> (#[trigger] out@[j]).text@ == ws[j] && out@[j].phonetic@
                    == transcription_of(dict@, table_view(table), ws[j]),
        decreases n - i,
    {
        let word = words[i].as_str();
        let phonetic = combined_mapping(dict, table, word);
        out.push(Pair { text: word.to_owned(), phonetic });
        i = i + 1;
    }
    out
}

} // verus!

use vstd::hash_map::StringHashMap;
use vstd::prelude::*;

use crate::text::{char_to_string, chars_of, join_with, lemma_join_push};

verus! {

/// A table from IPA symbols (one or two characters) to English-sound tokens.
pub struct SymbolTable {
    symbols: StringHashMap<String>,
}

impl View for SymbolTable {
    type V = Map<Seq<char>, Seq<char>>;

    closed spec fn view(&self) -> Map<Seq<char>, Seq<char>> {
        self.symbols@.map_values(|v: String| v@)
    }
}

/// The built-in table of IPA symbols and the English sounds that stand for them.
pub open spec fn standard_symbols() -> Map<Seq<char>, Seq<char>> {
    Map::empty()
        // Consonants
        .insert("p"@, "p"@)
        .insert("b"@, "b"@)
        .insert("t"@, "t"@)
        .insert("d"@, "d"@)
        .insert("k"@, "k"@)
        .insert("g"@, "g"@)
        .insert("f"@, "f"@)
        .insert("v"@, "v"@)
        .insert("s"@, "s"@)
        .insert("z"@, "z"@)
        .insert("h"@, "h"@)
        .insert("m"@, "m"@)
        .insert("n"@, "n"@)
        .insert("l"@, "l"@)
        .insert("w"@, "w"@)
        .insert("ʃ"@, "sh"@)
        .insert("ʒ"@, "zh"@)
        .insert("tʃ"@, "ch"@)
        .insert("dʒ"@, "j"@)
        .insert("ŋ"@, "ng"@)
        .insert("j"@, "y"@)
        .insert("θ"@, "th"@)
        .insert("ð"@, "dh"@)
        .insert("ɹ"@, "r"@)
        .insert("ʔ"@, "'"@)
        .insert("x"@, "kh"@)
        .insert("ɲ"@, "ny"@)
        // Monophthong Vowels
        .insert("i"@, "ee"@)
        .insert("ɪ"@, "ih"@)
        .insert("e"@, "eh"@)
        .insert("ɛ"@, "e"@)
        .insert("æ"@, "a"@)
        .insert("ɑ"@, "ah"@)
        .insert("ɒ"@, "o"@)
        .insert("ɔ"@, "aw"@)
        .insert("o"@, "oh"@)
        .insert("ʊ"@, "uh"@)
        .insert("u"@, "oo"@)
        .insert("ʌ"@, "u"@)
        .insert("ə"@, "uh"@)
        .insert("ɜ"@, "er"@)
        // Diphthongs
        .insert("eɪ"@, "ay"@)
        .insert("aɪ"@, "ai"@)
        .insert("aʊ"@, "ow"@)
        .insert("ɔɪ"@, "oi"@)
        .insert("oʊ"@, "oh"@)
        .insert("ɪə"@, "eer"@)
        // Suprasegmentals
        .insert("ˈ"@, "'"@)
        .insert("ˌ"@, ","@)
        .insert("ː"@, ":"@)
}

/// The token that a single symbol becomes: its entry, or the symbol itself.
pub open spec fn sound_or_self(sym: Seq<char>, t: Map<Seq<char>, Seq<char>>) -> Seq<char> {
    if t.contains_key(sym) {
        t[sym]
    } else {
        sym
    }
}

/// Greedy tokens of an IPA string: at each position a two-character entry wins
/// over the single character, which maps to its entry or stands for itself.
pub open spec fn sound_tokens(s: Seq<char>, t: Map<Seq<char>, Seq<char>>) -> Seq<Seq<char>>
    decreases s.len(),
{
    if s.len() == 0 {
        seq![]
    } else if s.len() >= 2 && t.contains_key(s.subrange(0, 2)) {
        seq![t[s.subrange(0, 2)]] + sound_tokens(s.subrange(2, s.len() as int), t)
    } else {
        seq![sound_or_self(s.subrange(0, 1), t)] + sound_tokens(s.subrange(1, s.len() as int), t)
    }
}

/// The English-sound approximation of an IPA string: its tokens joined by `-`.
pub open spec fn english_sound(s: Seq<char>, t: Map<Seq<char>, Seq<char>>) -> Seq<char> {
    join_with(sound_tokens(s, t), '-')
}

/// The sound of an IPA string is a function of the string and the table:
/// equal inputs give equal sounds.
pub proof fn lemma_sound_deterministic(
    s1: Seq<char>,
    s2: Seq<char>,
    t: Map<Seq<char>, Seq<char>>,
)
    requires
        s1 == s2,
    ensures
        english_sound(s1, t) == english_sound(s2, t),
{
}

/// A two-character symbol of the table takes precedence over its first
/// character: where a string starts with it, its sound is the first token,
/// and the scan goes on after both characters.
pub proof fn lemma_pair_precedence(
    pair: Seq<char>,
    rest: Seq<char>,
    t: Map<Seq<char>, Seq<char>>,
)
    requires
        pair.len() == 2,
        t.contains_key(pair),
    ensures
        sound_tokens(pair + rest, t) == seq![t[pair]] + sound_tokens(rest, t),
{
    let s = pair + rest;
    assert(s.subrange(0, 2) =~= pair);
    assert(s.subrange(2, s.len() as int) =~= rest);
}

impl SymbolTable {
    /// A table with no symbols.
    pub fn new() -> (r: SymbolTable)
        ensures
            r@ == Map::<Seq<char>, Seq<char>>::empty(),
    {
        let r = SymbolTable { symbols: StringHashMap::new() };
        assert(r@ =~= Map::<Seq<char>, Seq<char>>::empty());
        r
    }

    /// Maps `symbol` to `sound`, replacing an earlier entry for it.
    pub fn insert(&mut self, symbol: &str, sound: &str)
        ensures
            final(self)@ == old(self)@.insert(symbol@, sound@),
    {
        self.symbols.insert(symbol.to_owned(), sound.to_owned());
        assert(self@ =~= old(self)@.insert(symbol@, sound@));
    }

    /// The sound stored for `symbol`, if there is one.
    pub fn sound_of(&self, symbol: &str) -> (r: Option<&String>)
        ensures
            match r {
                Some(v) => self@.contains_key(symbol@) && v@ == self@[symbol@],
                None => !self@.contains_key(symbol@),
            },
    {
        self.symbols.get(symbol)
    }
}

/// Creates the table of IPA symbols and their English sound approximations.
pub fn create_ipa_to_english_map() -> (r: SymbolTable)
    ensures
        r@ == standard_symbols(),
{
    let mut table = SymbolTable::new();
    // Consonants
    table.insert("p", "p");
    table.insert("b", "b");
    table.insert("t", "t");
    table.insert("d", "d");
    table.insert("k", "k");
    table.insert("g", "g");
    table.insert("f", "f");
    table.insert("v", "v");
    table.insert("s", "s");
    table.insert("z", "z");
    table.insert("h", "h");
    table.insert("m", "m");
    table.insert("n", "n");
    table.insert("l", "l");
    table.insert("w", "w");
    table.insert("ʃ", "sh");
    table.insert("ʒ", "zh");
    table.insert("tʃ", "ch");
    table.insert("dʒ", "j");
    table.insert("ŋ", "ng");
    table.insert("j", "y");
    table.insert("θ", "th");
    table.insert("ð", "dh");
    table.insert("ɹ", "r");
    table.insert("ʔ", "'");
    table.insert("x", "kh");
    table.insert("ɲ", "ny");

    // Monophthong Vowels
    table.insert("i", "ee");
    table.insert("ɪ", "ih");
    table.insert("e", "eh");
    table.insert("ɛ", "e");
    table.insert("æ", "a");
    table.insert("ɑ", "ah");
    table.insert("ɒ", "o");
    table.insert("ɔ", "aw");
    table.insert("o", "oh");
    table.insert("ʊ", "uh");
    table.insert("u", "oo");
    table.insert("ʌ", "u");
    table.insert("ə", "uh");
    table.insert("ɜ", "er");

    // Diphthongs
    table.insert("eɪ", "ay");
    table.insert("aɪ", "ai");
    table.insert("aʊ", "ow");
    table.insert("ɔɪ", "oi");
    table.insert("oʊ", "oh");
    table.insert("ɪə", "eer");

    // Suprasegmentals
    table.insert("ˈ", "'");
    table.insert("ˌ", ",");
    table.insert("ː", ":");
    table
}

/// Converts an IPA string into its English sound approximation: a greedy scan
/// that prefers two-character symbols, with tokens joined by `-`.
pub fn ipa_to_english_sound(ipa_word: &str, map: &SymbolTable) -> (r: String)
    ensures
        r@ == english_sound(ipa_word@, map@),
{
    let cs = chars_of(ipa_word);
    let n = cs.len();
    let mut result = String::new();
    let mut i: usize = 0;
    let ghost mut done: Seq<Seq<char>> = seq![];
    assert(cs@.subrange(0, n as int) =~= cs@);
    while i < n
        invariant
            i <= n,
            n == cs@.len(),
            cs@ == ipa_word@,
            done.len() == 0 <==> i == 0,
            done + sound_tokens(cs@.subrange(i as int, n as int), map@) == sound_tokens(
                cs@,
                map@,
            ),
            result@ == join_with(done, '-'),
        decreases n - i,
    {
        let ghost rest = cs@.subrange(i as int, n as int);
        let c = cs[i];
        let mut symbol = char_to_string(c);
        let mut width: usize = 1;
        if i + 1 < n {
            let mut pair = char_to_string(c);
            let next = char_to_string(cs[i + 1]);
            pair.append(next.as_str());
            assert(pair@ =~= rest.subrange(0, 2));
            if map.sound_of(pair.as_str()).is_some() {
                symbol = pair;
                width = 2;
            }
        }
        assert(symbol@ =~= rest.subrange(0, width as int));
        let sound = match map.sound_of(symbol.as_str()) {
            Some(s) => s.clone(),
            None => symbol,
        };
        assert(rest.subrange(width as int, rest.len() as int) =~= cs@.subrange(
            (i + width) as int,
            n as int,
        ));
        assert(sound_tokens(rest, map@) == seq![sound@] + sound_tokens(
            cs@.subrange((i + width) as int, n as int),
            map@,
        ));
        if i > 0 {
            proof {
                reveal_strlit("-");
            }
            result.append("-");
        }
        result.append(sound.as_str());
        proof {
            lemma_join_push(done, sound@, '-');
            assert(done.push(sound@) + sound_tokens(
                cs@.subrange((i + width) as int, n as int),
                map@,
            ) =~= done + sound_tokens(rest, map@));
            done = done.push(sound@);
        }
        i = i + width;
    }
    result
}

} // verus!

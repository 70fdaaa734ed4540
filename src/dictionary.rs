use vstd::hash_map::StringHashMap;
use vstd::prelude::*;

use crate::text::{
    join_with, lemma_join_push, lower_of, lowercase, split_words, views, words_of,
};

verus! {

/// The entry that one source line gives: its first field in lowercase, and
/// the remaining fields joined by single spaces. A line with fewer than two
/// fields gives none.
pub open spec fn record_of(line: Seq<char>) -> Option<(Seq<char>, Seq<char>)> {
    let fields = words_of(line);
    if fields.len() >= 2 {
        Some((lower_of(fields[0]), join_with(fields.subrange(1, fields.len() as int), ' ')))
    } else {
        None
    }
}

/// The dictionary that a sequence of source lines describes; a later line
/// for the same word replaces an earlier one.
pub open spec fn dictionary_of(lines: Seq<Seq<char>>) -> Map<Seq<char>, Seq<char>>
    decreases lines.len(),
{
    if lines.len() == 0 {
        Map::empty()
    } else {
        let d = dictionary_of(lines.drop_last());
        match record_of(lines.last()) {
            Some((k, v)) => d.insert(k, v),
            None => d,
        }
    }
}

/// What looking a word up gives: the transcription of its lowercase form, or
/// the word itself where there is none.
pub open spec fn lookup_of(d: Map<Seq<char>, Seq<char>>, w: Seq<char>) -> Seq<char> {
    if d.contains_key(lower_of(w)) {
        d[lower_of(w)]
    } else {
        w
    }
}

/// Parses one source line into a word and its transcription.
pub fn parse_record(line: &str) -> (r: Option<(String, String)>)
    ensures
        match r {
            Some((k, v)) => record_of(line@) == Some((k@, v@)),
            None => record_of(line@) is None,
        },
{
    let fields = split_words(line);
    let n = fields.len();
    if n < 2 {
        return None;
    }
    let ghost fs = views(fields@);
    let word = lowercase(fields[0].as_str());
    let mut transcription = String::new();
    let mut i: usize = 1;
    while i < n
        invariant
            1 <= i <= n,
            n == fields@.len(),
            fs == views(fields@),
            transcription@ == join_with(fs.subrange(1, i as int), ' '),
        decreases n - i,
    {
        proof {
            lemma_join_push(fs.subrange(1, i as int), fs[i as int], ' ');
            assert(fs.subrange(1, i as int).push(fs[i as int]) =~= fs.subrange(1, i + 1));
        }
        if i > 1 {
            proof {
                reveal_strlit(" ");
            }
            transcription.append(" ");
        }
        transcription.append(fields[i].as_str());
        i = i + 1;
    }
    Some((word, transcription))
}

/// A pronunciation dictionary from lowercase words to IPA transcriptions.
pub struct Dictionary {
    entries: StringHashMap<String>,
}

impl View for Dictionary {
    type V = Map<Seq<char>, Seq<char>>;

    closed spec fn view(&self) -> Map<Seq<char>, Seq<char>> {
        self.entries@.map_values(|v: String| v@)
    }
}

impl Dictionary {
    /// A dictionary with no entries; every lookup passes its word through.
    pub fn new() -> (r: Dictionary)
        ensures
            r@ == Map::<Seq<char>, Seq<char>>::empty(),
    {
        let r = Dictionary { entries: StringHashMap::new() };
        assert(r@ =~= Map::<Seq<char>, Seq<char>>::empty());
        r
    }

    /// Builds the dictionary from source lines of the form
    /// `<word> <IPA> [<IPA> ...]`, skipping lines without a transcription.
    pub fn from_lines(lines: &Vec<String>) -> (r: Dictionary)
        ensures
            r@ == dictionary_of(views(lines@)),
    {
        let mut d = Dictionary::new();
        let n = lines.len();
        let mut i: usize = 0;
        while i < n
            invariant
                i <= n,
                n == lines@.len(),
                d@ == dictionary_of(views(lines@.subrange(0, i as int))),
            decreases n - i,
        {
            assert(views(lines@.subrange(0, i + 1)).drop_last() =~= views(
                lines@.subrange(0, i as int),
            ));
            assert(views(lines@.subrange(0, i + 1)).last() == lines@[i as int]@);
            match parse_record(lines[i].as_str()) {
                Some((k, v)) => {
                    let ghost before = d@;
                    d.entries.insert(k, v);
                    assert(d@ =~= before.insert(k@, v@));
                },
                None => {},
            }
            i = i + 1;
        }
        assert(lines@.subrange(0, n as int) =~= lines@);
        d
    }

    /// Looks up a word whose lowercase form `folded` has already been taken:
    /// the stored transcription of `folded`, or `word` unchanged.
    pub fn lookup_folded(&self, folded: &str, word: &str) -> (r: String)
        ensures
            r@ == if self@.contains_key(folded@) {
                self@[folded@]
            } else {
                word@
            },
    {
        match self.entries.get(folded) {
            Some(t) => t.clone(),
            None => word.to_owned(),
        }
    }

    /// Looks a word up in any case: the transcription of its lowercase form,
    /// or the word unchanged.
    pub fn lookup(&self, word: &str) -> (r: String)
        ensures
            r@ == lookup_of(self@, word@),
    {
        let folded = lowercase(word);
        self.lookup_folded(folded.as_str(), word)
    }
}

/// A word whose lowercase form is in the dictionary looks up to its stored
/// transcription, and so does every other casing of it.
pub proof fn lemma_lookup_present(d: Dictionary, w: Seq<char>, other: Seq<char>)
    requires
        d@.contains_key(lower_of(w)),
        lower_of(other) == lower_of(w),
    ensures
        lookup_of(d@, w) == d@[lower_of(w)],
        lookup_of(d@, other) == lookup_of(d@, w),
{
}

/// A word whose lowercase form is not in the dictionary looks up to itself.
pub proof fn lemma_lookup_absent(d: Dictionary, w: Seq<char>)
    requires
        !d@.contains_key(lower_of(w)),
    ensures
        lookup_of(d@, w) == w,
{
}

/// Two dictionaries built from the same lines look every word up alike.
pub proof fn lemma_build_deterministic(a: Dictionary, b: Dictionary, lines: Seq<Seq<char>>)
    requires
        a@ == dictionary_of(lines),
        b@ == dictionary_of(lines),
    ensures
        forall|w: Seq<char>| lookup_of(a@, w) == lookup_of(b@, w),
{
}

/// A line with fewer than two fields gives no entry.
pub proof fn lemma_short_line_no_record(line: Seq<char>)
    requires
        words_of(line).len() < 2,
    ensures
        record_of(line) is None,
{
}

/// Whether `line` is a well-formed record whose word is `k`.
pub open spec fn is_record_for(line: Seq<char>, k: Seq<char>) -> bool {
    match record_of(line) {
        Some((key, _)) => key == k,
        None => false,
    }
}

/// A word is a key of the built dictionary only if some line is a well-formed
/// record for it: lines without a transcription add no key.
pub proof fn lemma_keys_come_from_records(lines: Seq<Seq<char>>, k: Seq<char>)
    requires
        forall|i: int| 0 <= i < lines.len() ==> !is_record_for(#[trigger] lines[i], k),
    ensures
        !dictionary_of(lines).contains_key(k),
    decreases lines.len(),
{
    if lines.len() > 0 {
        let prefix = lines.drop_last();
        assert forall|i: int| 0 <= i < prefix.len() implies !is_record_for(
            #[trigger] prefix[i],
            k,
        ) by {
            assert(prefix[i] == lines[i]);
        }
        lemma_keys_come_from_records(prefix, k);
        assert(!is_record_for(lines[lines.len() - 1], k));
    }
}

} // verus!

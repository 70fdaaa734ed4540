use vstd::prelude::*;
use vstd::std_specs::iter::IteratorSpec;

verus! {

/// Whether a character has Unicode's White_Space property.
pub uninterp spec fn white_space(c: char) -> bool;

/// The lowercase form of a string, as Unicode's case mapping gives it.
pub uninterp spec fn lower_of(s: Seq<char>) -> Seq<char>;

/// Relies on `char::is_whitespace`: true exactly for White_Space characters,
/// a property of the character alone.
#[verifier::external_body]
pub(crate) fn is_white(c: char) -> (r: bool)
    ensures
        r == white_space(c),
{
    c.is_whitespace()
}

/// Relies on `str::to_lowercase`: the result depends on the characters alone.
#[verifier::external_body]
pub(crate) fn lowercase(s: &str) -> (r: String)
    ensures
        r@ == lower_of(s@),
{
    s.to_lowercase()
}

/// Relies on `char::to_string`: a string holding just that character.
#[verifier::external_body]
pub(crate) fn char_to_string(c: char) -> (r: String)
    ensures
        r@ == seq![c],
{
    c.to_string()
}

/// The characters of a string, as a vector.
pub fn chars_of(s: &str) -> (r: Vec<char>)
    ensures
        r@ == s@,
{
    let mut it = s.chars();
    let mut out: Vec<char> = Vec::new();
    loop
        invariant
            out@ + it.remaining() == s@,
            it.decrease() is Some,
        ensures
            out@ == s@,
        decreases it.decrease()->0,
    {
        match it.next() {
            Some(c) => {
                out.push(c);
            },
            None => {
                assert(out@ + it.remaining() =~= out@);
                break ;
            },
        }
    }
    out
}

/// The parts joined, with `sep` between each two neighbours.
pub open spec fn join_with(parts: Seq<Seq<char>>, sep: char) -> Seq<char>
    decreases parts.len(),
{
    if parts.len() == 0 {
        seq![]
    } else if parts.len() == 1 {
        parts[0]
    } else {
        join_with(parts.drop_last(), sep) + seq![sep] + parts.last()
    }
}

/// Appending one part to a join adds the separator only after a first part.
pub proof fn lemma_join_push(parts: Seq<Seq<char>>, p: Seq<char>, sep: char)
    ensures
        join_with(parts.push(p), sep) == if parts.len() == 0 {
            p
        } else {
            join_with(parts, sep) + seq![sep] + p
        },
{
    assert(parts.push(p).drop_last() =~= parts);
    if parts.len() == 0 {
        assert(parts.push(p)[0] == p);
    }
}

/// The views of a sequence of strings.
pub open spec fn views(v: Seq<String>) -> Seq<Seq<char>> {
    v.map_values(|w: String| w@)
}

/// Whether each character of `s` is white space.
pub open spec fn white_flags(s: Seq<char>) -> Seq<bool> {
    s.map_values(|c: char| white_space(c))
}

/// The fields finished so far and the field being read, after scanning `s`
/// from the left, where `white[i]` tells whether `s[i]` separates fields;
/// any run of separators ends a field.
pub open spec fn scan_fields(s: Seq<char>, white: Seq<bool>) -> (Seq<Seq<char>>, Seq<char>)
    decreases s.len(),
{
    if s.len() == 0 {
        (seq![], seq![])
    } else {
        let (done, cur) = scan_fields(s.drop_last(), white.drop_last());
        if white.last() {
            if cur.len() > 0 {
                (done.push(cur), seq![])
            } else {
                (done, seq![])
            }
        } else {
            (done, cur.push(s.last()))
        }
    }
}

/// The fields of `s`: its maximal runs of characters not marked as separators.
pub open spec fn fields_of(s: Seq<char>, white: Seq<bool>) -> Seq<Seq<char>> {
    let (done, cur) = scan_fields(s, white);
    if cur.len() > 0 {
        done.push(cur)
    } else {
        done
    }
}

/// The words of `s`: its maximal runs of characters that are not white space.
pub open spec fn words_of(s: Seq<char>) -> Seq<Seq<char>> {
    fields_of(s, white_flags(s))
}

/// Splits `cs` into its fields, in order, where `white` marks the separators;
/// no field is empty.
pub fn split_at_flags(cs: &Vec<char>, white: &Vec<bool>) -> (r: Vec<String>)
    requires
        white@.len() == cs@.len(),
    ensures
        views(r@) == fields_of(cs@, white@),
{
    let n = cs.len();
    let mut fields: Vec<String> = Vec::new();
    let mut cur = String::new();
    let mut i: usize = 0;
    while i < n
        invariant
            i <= n,
            n == cs@.len(),
            n == white@.len(),
            (views(fields@), cur@) == scan_fields(
                cs@.subrange(0, i as int),
                white@.subrange(0, i as int),
            ),
        decreases n - i,
    {
        assert(cs@.subrange(0, i + 1).drop_last() =~= cs@.subrange(0, i as int));
        assert(white@.subrange(0, i + 1).drop_last() =~= white@.subrange(0, i as int));
        if white[i] {
            if !cur.as_str().is_empty() {
                let ghost before = fields@;
                fields.push(cur);
                assert(views(fields@) =~= views(before).push(cur@));
                cur = String::new();
            }
        } else {
            let one = char_to_string(cs[i]);
            cur.append(one.as_str());
        }
        i = i + 1;
    }
    assert(cs@.subrange(0, n as int) =~= cs@);
    assert(white@.subrange(0, n as int) =~= white@);
    if !cur.as_str().is_empty() {
        let ghost before = fields@;
        fields.push(cur);
        assert(views(fields@) =~= views(before).push(cur@));
    }
    fields
}

/// Splits a string at runs of white space, in order, keeping no empty word.
pub fn split_words(s: &str) -> (r: Vec<String>)
    ensures
        views(r@) == words_of(s@),
{
    let cs = chars_of(s);
    let n = cs.len();
    let mut white: Vec<bool> = Vec::new();
    let mut i: usize = 0;
    while i < n
        invariant
            i <= n,
            n == cs@.len(),
            white@ == white_flags(cs@.subrange(0, i as int)),
        decreases n - i,
    {
        let w = is_white(cs[i]);
        white.push(w);
        assert(white@ =~= white_flags(cs@.subrange(0, i + 1)));
        i = i + 1;
    }
    assert(cs@.subrange(0, n as int) =~= cs@);
    assert(cs@ == s@);
    split_at_flags(&cs, &white)
}

} // verus!

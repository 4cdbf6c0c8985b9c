use vstd::prelude::*;
use vstd::slice::slice_subrange;

verus! {

/// The characters that `char::to_uppercase` turns a character into.
pub uninterp spec fn uppercase_chars(c: char) -> Seq<char>;

/// The characters that `str::to_lowercase` turns a string into.
pub uninterp spec fn lowercase_chars(s: Seq<char>) -> Seq<char>;

/// Whether `char::is_whitespace` holds of a character.
pub uninterp spec fn whitespace_char(c: char) -> bool;

/// `String::push` appends one character to the string.
pub assume_specification[ String::push ](s: &mut String, c: char)
    ensures
        final(s)@ == old(s)@.push(c),
;

/// `char::to_uppercase`, collected into a string: the upper case of `c` by
/// the Unicode tables of the standard library, which may be more than one
/// character.
#[verifier::external_body]
fn upper_of_char(c: char) -> (r: String)
    ensures
        r@ == uppercase_chars(c),
{
    c.to_uppercase().collect()
}

/// `str::to_lowercase`, on the characters of `word` as one string: their
/// lower case by the Unicode tables of the standard library.
#[verifier::external_body]
fn lower_of_chars(word: &[char]) -> (r: String)
    ensures
        r@ == lowercase_chars(word@),
{
    word.iter().collect::<String>().to_lowercase()
}

/// `char::is_whitespace`: whether `c` has the Unicode property White_Space.
#[verifier::external_body]
pub(crate) fn char_is_whitespace(c: char) -> (r: bool)
    ensures
        r == whitespace_char(c),
{
    c.is_whitespace()
}

/// A character that does not count in a name: a dot or a square bracket.
pub open spec fn is_unwanted(c: char) -> bool {
    c == '.' || c == '[' || c == ']'
}

/// `s` without dots and square brackets.
pub open spec fn stripped(s: Seq<char>) -> Seq<char> {
    s.filter(|c: char| !is_unwanted(c))
}

/// `s` without dots and square brackets, and with a blank for each
/// underscore where `rep_underscore` is set.
pub open spec fn cleaned(s: Seq<char>, rep_underscore: bool) -> Seq<char> {
    stripped(s).map_values(
        |c: char|
            if rep_underscore && c == '_' {
                ' '
            } else {
                c
            },
    )
}

/// Number of characters of `s` before its first white space.
pub open spec fn word_len(s: Seq<char>) -> nat
    decreases s.len(),
{
    if s.len() == 0 || whitespace_char(s[0]) {
        0
    } else {
        1 + word_len(s.drop_first())
    }
}

/// A word with its first character in upper case and the rest in lower
/// case.
pub open spec fn capitalized(word: Seq<char>) -> Seq<char> {
    if word.len() == 0 {
        Seq::empty()
    } else {
        uppercase_chars(word[0]) + lowercase_chars(word.drop_first())
    }
}

/// The words of `s`, which white space separates, each capitalized, one
/// after the other without anything between them.
pub open spec fn camel_words(s: Seq<char>) -> Seq<char>
    decreases s.len(),
    via camel_words_ends
{
    if s.len() == 0 {
        Seq::empty()
    } else if whitespace_char(s[0]) {
        camel_words(s.drop_first())
    } else {
        capitalized(s.take(word_len(s) as int)) + camel_words(s.skip(word_len(s) as int))
    }
}

#[via_fn]
proof fn camel_words_ends(s: Seq<char>) {
    lemma_word_len_bound(s);
}

/// What `to_upper_camel_case` makes of a string.
pub open spec fn spec_upper_camel_case(s: Seq<char>, rep_underscore: bool) -> Seq<char> {
    camel_words(cleaned(s, rep_underscore))
}

/// A word is no longer than the string that it starts.
pub proof fn lemma_word_len_bound(s: Seq<char>)
    ensures
        word_len(s) <= s.len(),
        s.len() > 0 && !whitespace_char(s[0]) ==> word_len(s) >= 1,
    decreases s.len(),
{
    if s.len() > 0 && !whitespace_char(s[0]) {
        lemma_word_len_bound(s.drop_first());
    }
}

/// The characters of a string, in a vector.
pub fn chars_of(s: &str) -> (r: Vec<char>)
    ensures
        r@ == s@,
{
    let mut out: Vec<char> = Vec::new();
    for c in iter: s.chars()
        invariant
            iter.seq() == s@,
            out@ == iter.seq().take(iter.index() as int),
    {
        out.push(c);
        assert(out@ =~= iter.seq().take(iter.index() + 1));
    }
    assert(out@ =~= s@);
    out
}

/// Removes dots and square brackets, and replaces underscores by blanks
/// where `rep_underscore` is set.
pub fn clean(s: &str, rep_underscore: bool) -> (r: Vec<char>)
    ensures
        r@ == cleaned(s@, rep_underscore),
{
    let chars = chars_of(s);
    let mut out: Vec<char> = Vec::new();
    let ghost keep = |c: char| !is_unwanted(c);
    let ghost swap = |c: char|
        if rep_underscore && c == '_' {
            ' '
        } else {
            c
        };
    let mut i: usize = 0;
    while i < chars.len()
        invariant
            i <= chars@.len(),
            chars@ == s@,
            keep == (|c: char| !is_unwanted(c)),
            swap == (|c: char|
                if rep_underscore && c == '_' {
                    ' '
                } else {
                    c
                }),
            out@ == chars@.take(i as int).filter(keep).map_values(swap),
        decreases chars@.len() - i,
    {
        let c = chars[i];
        proof {
            assert(chars@.take(i + 1) =~= chars@.take(i as int).push(c));
            Seq::filter_distributes_over_add(chars@.take(i as int), seq![c], keep);
            assert(chars@.take(i as int).push(c) =~= chars@.take(i as int) + seq![c]);
            reveal_with_fuel(Seq::filter, 3);
            assert(seq![c].filter(keep) =~= (if keep(c) {
                seq![c]
            } else {
                Seq::empty()
            })) by {
                assert(seq![c].drop_last() =~= Seq::<char>::empty());
            }
        }
        if !(c == '.' || c == '[' || c == ']') {
            let d = if rep_underscore && c == '_' {
                ' '
            } else {
                c
            };
            out.push(d);
            assert(out@ =~= chars@.take(i + 1).filter(keep).map_values(swap));
        } else {
            assert(out@ =~= chars@.take(i + 1).filter(keep).map_values(swap));
        }
        i += 1;
    }
    assert(chars@.take(i as int) =~= chars@);
    out
}

/// Removes dots and square brackets.
pub fn strip(s: &str) -> (r: Vec<char>)
    ensures
        r@ == stripped(s@),
{
    let r = clean(s, false);
    assert(r@ =~= stripped(s@));
    r
}

/// Joins the upper case of the first character of a word and the lower case
/// of the rest of it to `out`.
pub fn push_capitalized(out: &mut String, upper: &str, lower: &str)
    ensures
        final(out)@ == old(out)@ + upper@ + lower@,
{
    out.append(upper);
    out.append(lower);
}

/// Converts a string to UpperCamelCase
///
/// Dots and square brackets are dropped, underscores separate words where
/// `rep_underscore` is set, and the words, which white space separates, are
/// joined with their first character in upper case and the rest in lower
/// case.
pub fn to_upper_camel_case(s: &str, rep_underscore: bool) -> (r: String)
    ensures
        r@ == spec_upper_camel_case(s@, rep_underscore),
{
    let chars = clean(s, rep_underscore);
    let mut out = String::new();
    let mut i: usize = 0;
    proof {
        assert(chars@.skip(0) =~= chars@);
        assert(out@ + camel_words(chars@) =~= camel_words(chars@));
    }
    while i < chars.len()
        invariant
            i <= chars@.len(),
            out@ + camel_words(chars@.skip(i as int)) == camel_words(chars@),
        decreases chars@.len() - i,
    {
        let ghost tail = chars@.skip(i as int);
        if char_is_whitespace(chars[i]) {
            assert(tail.drop_first() =~= chars@.skip(i + 1));
            i += 1;
        } else {
            let mut j: usize = i + 1;
            proof {
                assert(tail.drop_first() =~= chars@.skip(i + 1));
            }
            while j < chars.len() && !char_is_whitespace(chars[j])
                invariant
                    i < j <= chars@.len(),
                    tail == chars@.skip(i as int),
                    word_len(tail) == (j - i) + word_len(chars@.skip(j as int)),
                decreases chars@.len() - j,
            {
                assert(chars@.skip(j as int).drop_first() =~= chars@.skip(j + 1));
                j += 1;
            }
            proof {
                assert(word_len(chars@.skip(j as int)) == 0);
                assert(tail.take((j - i) as int) =~= chars@.subrange(i as int, j as int));
                assert(tail.skip((j - i) as int) =~= chars@.skip(j as int));
                assert(chars@.subrange(i as int, j as int).drop_first() =~= chars@.subrange(
                    i + 1,
                    j as int,
                ));
            }
            let upper = upper_of_char(chars[i]);
            let rest = slice_subrange(chars.as_slice(), i + 1, j);
            let lower = lower_of_chars(rest);
            let ghost before = out@;
            push_capitalized(&mut out, upper.as_str(), lower.as_str());
            proof {
                let word = chars@.subrange(i as int, j as int);
                assert(out@ =~= before + capitalized(word));
                assert(camel_words(tail) == capitalized(word) + camel_words(chars@.skip(j as int)));
                assert(out@ + camel_words(chars@.skip(j as int)) =~= before + camel_words(tail));
            }
            i = j;
        }
    }
    assert(out@ + Seq::<char>::empty() =~= out@);
    out
}

} // verus!

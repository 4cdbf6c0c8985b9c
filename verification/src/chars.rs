use crate::text::{char_is_whitespace, whitespace_char};
use vstd::prelude::*;

verus! {

/// The string of a sequence of characters.
pub fn string_of(chars: &[char]) -> (r: String)
    ensures
        r@ == chars@,
{
    let mut out = String::new();
    let mut i: usize = 0;
    while i < chars.len()
        invariant
            i <= chars@.len(),
            out@ == chars@.take(i as int),
        decreases chars@.len() - i,
    {
        out.push(chars[i]);
        assert(out@ =~= chars@.take(i + 1));
        i += 1;
    }
    assert(chars@.take(i as int) =~= chars@);
    out
}

/// Appends the characters of `more` to `out`.
pub fn append(out: &mut Vec<char>, more: &[char])
    ensures
        final(out)@ == old(out)@ + more@,
{
    let mut i: usize = 0;
    while i < more.len()
        invariant
            i <= more@.len(),
            out@ == old(out)@ + more@.take(i as int),
        decreases more@.len() - i,
    {
        out.push(more[i]);
        assert(out@ =~= old(out)@ + more@.take(i + 1));
        i += 1;
    }
    assert(more@.take(i as int) =~= more@);
}

/// Appends the characters of the string `more` to `out`.
pub fn append_str(out: &mut Vec<char>, more: &str)
    ensures
        final(out)@ == old(out)@ + more@,
{
    let chars = crate::text::chars_of(more);
    append(out, chars.as_slice());
}

/// Whether the characters are those of the string `text`.
pub fn chars_eq(chars: &[char], text: &str) -> (r: bool)
    ensures
        r == (chars@ == text@),
{
    let other = crate::text::chars_of(text);
    if chars.len() != other.len() {
        return false;
    }
    let mut i: usize = 0;
    while i < chars.len()
        invariant
            i <= chars@.len(),
            chars@.len() == other@.len(),
            other@ == text@,
            forall|j: int| 0 <= j < i ==> chars@[j] == other@[j],
        decreases chars@.len() - i,
    {
        if chars[i] != other[i] {
            assert(chars@[i as int] != text@[i as int]);
            return false;
        }
        i += 1;
    }
    assert(chars@ =~= other@);
    true
}

/// Whether two strings hold the same characters.
pub fn str_eq(a: &str, b: &str) -> (r: bool)
    ensures
        r == (a@ == b@),
{
    let x = a.to_owned();
    let y = b.to_owned();
    x == y
}

/// The upper case of an ASCII letter; any other character as it is.
pub open spec fn ascii_upper_char(c: char) -> char {
    if 'a' <= c && c <= 'z' {
        ((c as u8 - 32) as u8) as char
    } else {
        c
    }
}

/// The upper case of an ASCII letter; any other character as it is.
pub fn to_ascii_upper_char(c: char) -> (r: char)
    ensures
        r == ascii_upper_char(c),
{
    if 'a' <= c && c <= 'z' {
        ((c as u8) - 32) as char
    } else {
        c
    }
}

/// The characters with every ASCII letter in upper case.
pub open spec fn ascii_upper(s: Seq<char>) -> Seq<char> {
    s.map_values(|c: char| ascii_upper_char(c))
}

/// Puts every ASCII letter in upper case.
pub fn to_ascii_uppercase(chars: &[char]) -> (r: Vec<char>)
    ensures
        r@ == ascii_upper(chars@),
{
    let mut out: Vec<char> = Vec::new();
    let mut i: usize = 0;
    while i < chars.len()
        invariant
            i <= chars@.len(),
            out@ == ascii_upper(chars@.take(i as int)),
        decreases chars@.len() - i,
    {
        out.push(to_ascii_upper_char(chars[i]));
        assert(out@ =~= ascii_upper(chars@.take(i + 1)));
        i += 1;
    }
    assert(chars@.take(i as int) =~= chars@);
    out
}

/// `s` without the characters `c` that it starts with.
pub open spec fn without_leading(s: Seq<char>, c: char) -> Seq<char>
    decreases s.len(),
{
    if s.len() > 0 && s[0] == c {
        without_leading(s.drop_first(), c)
    } else {
        s
    }
}

/// Drops the characters `c` that `chars` starts with.
pub fn trim_start_matches(chars: &[char], c: char) -> (r: Vec<char>)
    ensures
        r@ == without_leading(chars@, c),
{
    let mut i: usize = 0;
    assert(chars@.skip(0) =~= chars@);
    while i < chars.len() && chars[i] == c
        invariant
            i <= chars@.len(),
            without_leading(chars@, c) == without_leading(chars@.skip(i as int), c),
        decreases chars@.len() - i,
    {
        assert(chars@.skip(i as int).drop_first() =~= chars@.skip(i + 1));
        i += 1;
    }
    let mut out: Vec<char> = Vec::new();
    append(&mut out, vstd::slice::slice_subrange(chars, i, chars.len()));
    assert(out@ =~= chars@.skip(i as int));
    out
}

/// `parts` one after the other with `sep` between each two.
pub open spec fn joined(parts: Seq<Seq<char>>, sep: Seq<char>) -> Seq<char>
    decreases parts.len(),
{
    if parts.len() == 0 {
        Seq::empty()
    } else if parts.len() == 1 {
        parts[0]
    } else {
        joined(parts.drop_last(), sep) + sep + parts.last()
    }
}

/// The views of the parts.
pub open spec fn views(parts: Seq<Vec<char>>) -> Seq<Seq<char>> {
    parts.map_values(|p: Vec<char>| p@)
}

/// Joins `parts` with `sep` between each two.
pub fn join(parts: &Vec<Vec<char>>, sep: &str) -> (r: Vec<char>)
    ensures
        r@ == joined(views(parts@), sep@),
{
    let mut out: Vec<char> = Vec::new();
    let mut i: usize = 0;
    while i < parts.len()
        invariant
            i <= parts@.len(),
            out@ == joined(views(parts@).take(i as int), sep@),
        decreases parts@.len() - i,
    {
        let ghost before = out@;
        if i > 0 {
            append_str(&mut out, sep);
        }
        append(&mut out, parts[i].as_slice());
        proof {
            let now = views(parts@).take(i + 1);
            assert(now.drop_last() =~= views(parts@).take(i as int));
            assert(now.last() == parts@[i as int]@);
            if i == 0 {
                assert(out@ =~= parts@[0]@);
            }
        }
        i += 1;
    }
    assert(views(parts@).take(i as int) =~= views(parts@));
    out
}

/// Number of characters of `s` before the first `a` or `b`.
pub open spec fn piece_len(s: Seq<char>, a: char, b: char) -> nat
    decreases s.len(),
{
    if s.len() == 0 || s[0] == a || s[0] == b {
        0
    } else {
        1 + piece_len(s.drop_first(), a, b)
    }
}

/// A piece is no longer than the string that it starts.
pub proof fn lemma_piece_len_bound(s: Seq<char>, a: char, b: char)
    ensures
        piece_len(s, a, b) <= s.len(),
    decreases s.len(),
{
    if s.len() > 0 && s[0] != a && s[0] != b {
        lemma_piece_len_bound(s.drop_first(), a, b);
    }
}

/// The pieces of `s` that the characters `a` and `b` separate: one more than
/// there are separators, empty ones among them.
pub open spec fn pieces(s: Seq<char>, a: char, b: char) -> Seq<Seq<char>>
    decreases s.len(),
    via pieces_ends
{
    let n = piece_len(s, a, b) as int;
    if n >= s.len() {
        seq![s]
    } else {
        seq![s.take(n)] + pieces(s.skip(n + 1), a, b)
    }
}

#[via_fn]
proof fn pieces_ends(s: Seq<char>, a: char, b: char) {
    lemma_piece_len_bound(s, a, b);
}

/// Splits `chars` at every character `a` or `b`.
pub fn split(chars: &[char], a: char, b: char) -> (r: Vec<Vec<char>>)
    ensures
        views(r@) == pieces(chars@, a, b),
{
    let mut out: Vec<Vec<char>> = Vec::new();
    let mut start: usize = 0;
    let mut i: usize = 0;
    proof {
        assert(chars@.skip(0) =~= chars@);
        assert(views(out@) + pieces(chars@, a, b) =~= pieces(chars@, a, b));
    }
    while i < chars.len()
        invariant
            start <= i <= chars@.len(),
            views(out@) + pieces(chars@.skip(start as int), a, b) == pieces(chars@, a, b),
            piece_len(chars@.skip(start as int), a, b) == (i - start) + piece_len(
                chars@.skip(i as int),
                a,
                b,
            ),
        decreases chars@.len() - i,
    {
        let ghost tail = chars@.skip(start as int);
        let c = chars[i];
        if c == a || c == b {
            let mut piece: Vec<char> = Vec::new();
            append(&mut piece, vstd::slice::slice_subrange(chars, start, i));
            proof {
                assert(piece_len(chars@.skip(i as int), a, b) == 0);
                assert(piece@ =~= tail.take((i - start) as int));
                assert(tail.skip((i - start) + 1) =~= chars@.skip(i + 1));
                assert(views(out@.push(piece)) =~= views(out@) + seq![piece@]);
                assert(views(out@) + (seq![piece@] + pieces(chars@.skip(i + 1), a, b)) =~= views(
                    out@.push(piece),
                ) + pieces(chars@.skip(i + 1), a, b));
            }
            out.push(piece);
            start = i + 1;
        } else {
            assert(chars@.skip(i as int).drop_first() =~= chars@.skip(i + 1));
        }
        i += 1;
    }
    let mut piece: Vec<char> = Vec::new();
    append(&mut piece, vstd::slice::slice_subrange(chars, start, chars.len()));
    proof {
        let tail = chars@.skip(start as int);
        assert(piece@ =~= tail);
        assert(views(out@.push(piece)) =~= views(out@) + seq![piece@]);
    }
    out.push(piece);
    out
}

/// Whether every character of `s` is white space.
pub open spec fn is_blank(s: Seq<char>) -> bool {
    forall|i: int| 0 <= i < s.len() ==> whitespace_char(#[trigger] s[i])
}

/// Whether every character is white space: whether nothing is left of the
/// characters once white space is trimmed from them.
pub fn blank(chars: &[char]) -> (r: bool)
    ensures
        r == is_blank(chars@),
{
    let mut i: usize = 0;
    while i < chars.len()
        invariant
            i <= chars@.len(),
            forall|j: int| 0 <= j < i ==> whitespace_char(#[trigger] chars@[j]),
        decreases chars@.len() - i,
    {
        if !char_is_whitespace(chars[i]) {
            return false;
        }
        i += 1;
    }
    true
}

/// `s` without the white space that it starts with.
pub open spec fn without_leading_space(s: Seq<char>) -> Seq<char>
    decreases s.len(),
{
    if s.len() > 0 && whitespace_char(s[0]) {
        without_leading_space(s.drop_first())
    } else {
        s
    }
}

/// `s` without the white space that it ends with.
pub open spec fn without_trailing_space(s: Seq<char>) -> Seq<char>
    decreases s.len(),
{
    if s.len() > 0 && whitespace_char(s.last()) {
        without_trailing_space(s.drop_last())
    } else {
        s
    }
}

/// `s` without the white space at its two ends.
pub open spec fn trimmed(s: Seq<char>) -> Seq<char> {
    without_trailing_space(without_leading_space(s))
}

/// Removes the white space at the two ends.
pub fn trim(chars: &[char]) -> (r: Vec<char>)
    ensures
        r@ == trimmed(chars@),
{
    let mut i: usize = 0;
    assert(chars@.skip(0) =~= chars@);
    while i < chars.len() && char_is_whitespace(chars[i])
        invariant
            i <= chars@.len(),
            without_leading_space(chars@) == without_leading_space(chars@.skip(i as int)),
        decreases chars@.len() - i,
    {
        assert(chars@.skip(i as int).drop_first() =~= chars@.skip(i + 1));
        i += 1;
    }
    let mut j: usize = chars.len();
    proof {
        assert(chars@.subrange(i as int, j as int) =~= chars@.skip(i as int));
    }
    while j > i && char_is_whitespace(chars[j - 1])
        invariant
            i <= j <= chars@.len(),
            trimmed(chars@) == without_trailing_space(chars@.subrange(i as int, j as int)),
        decreases j,
    {
        assert(chars@.subrange(i as int, j as int).drop_last() =~= chars@.subrange(
            i as int,
            j - 1,
        ));
        j -= 1;
    }
    let mut out: Vec<char> = Vec::new();
    append(&mut out, vstd::slice::slice_subrange(chars, i, j));
    out
}

/// Whether `c` is an ASCII digit.
pub open spec fn is_digit(c: char) -> bool {
    '0' <= c && c <= '9'
}

/// The number that a sequence of ASCII digits writes.
pub open spec fn digits_value(s: Seq<char>) -> nat
    decreases s.len(),
{
    if s.len() == 0 {
        0
    } else {
        digits_value(s.drop_last()) * 10 + (s.last() as u32 - '0' as u32) as nat
    }
}

/// Whether every character of `s` is an ASCII digit.
pub open spec fn all_digits(s: Seq<char>) -> bool {
    forall|i: int| 0 <= i < s.len() ==> is_digit(#[trigger] s[i])
}

/// `s` without the plus sign that it may start with.
pub open spec fn without_sign(s: Seq<char>) -> Seq<char> {
    if s.len() > 0 && s[0] == '+' {
        s.drop_first()
    } else {
        s
    }
}

/// The number that `s` writes: an optional plus sign and then one or more
/// ASCII digits, whose number fits the machine word.
pub open spec fn spec_parse_usize(s: Seq<char>) -> Option<usize> {
    let digits = without_sign(s);
    if digits.len() > 0 && all_digits(digits) && digits_value(digits) <= usize::MAX {
        Some(digits_value(digits) as usize)
    } else {
        None
    }
}

/// The number of a sequence of digits grows with every digit.
pub proof fn lemma_digits_value_grows(s: Seq<char>, n: int)
    requires
        0 <= n <= s.len(),
    ensures
        digits_value(s.take(n)) <= digits_value(s),
    decreases s.len() - n,
{
    if n < s.len() {
        assert(s.take(n + 1).drop_last() =~= s.take(n));
        lemma_digits_value_grows(s, n + 1);
    } else {
        assert(s.take(n) =~= s);
    }
}

/// Reads a number as the standard library reads an unsigned integer.
pub fn parse_usize(chars: &[char]) -> (r: Option<usize>)
    ensures
        r == spec_parse_usize(chars@),
{
    let start: usize = if chars.len() > 0 && chars[0] == '+' {
        1
    } else {
        0
    };
    if start >= chars.len() {
        return None;
    }
    let ghost digits = chars@.skip(start as int);
    proof {
        if start == 1 {
            assert(digits =~= chars@.drop_first());
        } else {
            assert(digits =~= chars@);
        }
    }
    let mut value: usize = 0;
    let mut i: usize = start;
    while i < chars.len()
        invariant
            start <= i <= chars@.len(),
            digits == chars@.skip(start as int),
            digits == without_sign(chars@),
            all_digits(digits.take(i - start)),
            value == digits_value(digits.take(i - start)),
        decreases chars@.len() - i,
    {
        let c = chars[i];
        assert(c == digits[i - start]);
        if !('0' <= c && c <= '9') {
            assert(!is_digit(digits[i - start]));
            return None;
        }
        let d = (c as u32 - '0' as u32) as usize;
        proof {
            assert(digits.take(i - start + 1).drop_last() =~= digits.take(i - start));
            assert(digits.take(i - start + 1).last() == c);
            assert forall|j: int| 0 <= j < i - start + 1 implies is_digit(
                #[trigger] digits.take(i - start + 1)[j],
            ) by {
                if j < i - start {
                    assert(digits.take(i - start + 1)[j] == digits.take(i - start)[j]);
                }
            }
        }
        let next = match value.checked_mul(10) {
            Some(v) => v.checked_add(d),
            None => None,
        };
        match next {
            Some(v) => {
                value = v;
            },
            None => {
                proof {
                    assert(digits_value(digits.take(i - start + 1)) == value * 10 + d);
                    assert(digits_value(digits.take(i - start + 1)) > usize::MAX);
                    lemma_digits_value_grows(digits, i - start + 1);
                }
                return None;
            },
        }
        i += 1;
    }
    assert(digits.take(i - start) =~= digits);
    Some(value)
}

} // verus!

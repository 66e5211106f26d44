//! Character-level helpers shared by the field parsers.
use vstd::prelude::*;

verus! {

/// `String::push` of std appends the character to the end of the string.
pub assume_specification[ String::push ](s: &mut String, c: char)
    ensures
        final(s)@ == old(s)@.push(c),
;

/// `c` is one of the ten decimal digits `0` to `9`.
pub open spec fn is_digit(c: char) -> bool {
    '0' <= c && c <= '9'
}

/// The number that the decimal digit `c` stands for.
pub open spec fn digit_value(c: char) -> int
    recommends
        is_digit(c),
{
    c as int - '0' as int
}

/// The decimal digit that stands for `d`.
pub open spec fn digit_char(d: nat) -> char
    recommends
        d < 10,
{
    (d + '0' as nat) as char
}

/// The pieces of `s` between its separators, in order. A sequence with `n`
/// separators has `n + 1` pieces, some of which may be empty.
pub open spec fn split(s: Seq<char>, separator: char) -> Seq<Seq<char>>
    decreases s.len(),
{
    if s.len() == 0 {
        seq![Seq::<char>::empty()]
    } else {
        let before = split(s.drop_last(), separator);
        if s.last() == separator {
            before.push(Seq::<char>::empty())
        } else {
            before.drop_last().push(before.last().push(s.last()))
        }
    }
}

/// The pieces joined again, with `separator` between neighbours.
pub open spec fn join(pieces: Seq<Seq<char>>, separator: char) -> Seq<char>
    decreases pieces.len(),
{
    if pieces.len() == 0 {
        Seq::<char>::empty()
    } else if pieces.len() == 1 {
        pieces[0]
    } else {
        join(pieces.drop_last(), separator).push(separator) + pieces.last()
    }
}

/// The decimal notation of `n`, without leading zeros.
pub open spec fn decimal_text(n: nat) -> Seq<char>
    decreases n,
{
    if n < 10 {
        seq![digit_char(n)]
    } else {
        decimal_text(n / 10).push(digit_char(n % 10))
    }
}

/// The views of the strings of `v`, in order.
pub open spec fn texts(v: Seq<String>) -> Seq<Seq<char>> {
    Seq::new(v.len(), |i: int| v[i]@)
}

/// The views of the vectors of `v`, in order.
pub open spec fn runs(v: Seq<Vec<char>>) -> Seq<Seq<char>> {
    Seq::new(v.len(), |i: int| v[i]@)
}

/// Cutting never yields nothing, and no piece holds the separator.
pub proof fn lemma_split_pieces(s: Seq<char>, separator: char)
    ensures
        split(s, separator).len() >= 1,
        forall|i: int, j: int|
            0 <= i < split(s, separator).len() && 0 <= j < split(s, separator)[i].len()
                ==> split(s, separator)[i][j] != separator,
    decreases s.len(),
{
    if s.len() > 0 {
        lemma_split_pieces(s.drop_last(), separator);
    }
}

/// Joining the pieces of a cut sequence gives the sequence back.
pub proof fn lemma_join_split(s: Seq<char>, separator: char)
    ensures
        join(split(s, separator), separator) == s,
    decreases s.len(),
{
    lemma_split_pieces(s, separator);
    if s.len() > 0 {
        let shorter = s.drop_last();
        let before = split(shorter, separator);
        lemma_split_pieces(shorter, separator);
        lemma_join_split(shorter, separator);
        if s.last() == separator {
            let now = before.push(Seq::<char>::empty());
            assert(now.drop_last() == before);
            assert(join(now, separator) == join(before, separator).push(separator)
                + Seq::<char>::empty());
            assert(join(now, separator) == shorter.push(separator));
            assert(shorter.push(s.last()) == s);
        } else {
            let grown = before.last().push(s.last());
            let now = before.drop_last().push(grown);
            assert(now.drop_last() == before.drop_last());
            if before.len() == 1 {
                assert(join(before, separator) == before[0]);
                assert(join(now, separator) == grown);
            } else {
                assert(join(before, separator) == join(before.drop_last(), separator).push(
                    separator,
                ) + before.last());
                assert(join(now, separator) == join(before.drop_last(), separator).push(
                    separator,
                ) + grown);
                assert(join(now, separator) == join(before, separator).push(s.last()));
            }
            assert(shorter.push(s.last()) == s);
        }
    }
}

/// `c` is a decimal digit.
pub fn char_is_digit(c: char) -> (yes: bool)
    ensures
        yes == is_digit(c),
{
    '0' <= c && c <= '9'
}

/// The characters of `text`, in order.
pub fn chars_of(text: &str) -> (chars: Vec<char>)
    ensures
        chars@ == text@,
{
    let mut chars: Vec<char> = Vec::new();
    for c in it: text.chars()
        invariant
            it.seq() == text@,
            chars@ == it.seq().take(it.index()),
    {
        chars.push(c);
    }
    chars
}

/// The string spelled by `chars`.
pub fn string_of(chars: &Vec<char>) -> (text: String)
    ensures
        text@ == chars@,
{
    let mut text = String::new();
    let mut i: usize = 0;
    while i < chars.len()
        invariant
            i <= chars.len(),
            text@ == chars@.take(i as int),
        decreases chars.len() - i,
    {
        text.push(chars[i]);
        i += 1;
    }
    text
}

/// Cuts `chars` at each `separator`.
pub fn split_chars(chars: &Vec<char>, separator: char) -> (pieces: Vec<Vec<char>>)
    ensures
        runs(pieces@) == split(chars@, separator),
{
    let mut pieces: Vec<Vec<char>> = Vec::new();
    let mut current: Vec<char> = Vec::new();
    let mut i: usize = 0;
    while i < chars.len()
        invariant
            i <= chars.len(),
            runs(pieces@).push(current@) == split(chars@.take(i as int), separator),
        decreases chars.len() - i,
    {
        let ghost before = split(chars@.take(i as int), separator);
        assert(chars@.take(i + 1).drop_last() == chars@.take(i as int));
        if chars[i] == separator {
            let ghost earlier = runs(pieces@);
            pieces.push(current);
            current = Vec::new();
            assert(runs(pieces@) =~= before);
        } else {
            current.push(chars[i]);
            assert(runs(pieces@) =~= before.drop_last());
        }
        i += 1;
    }
    assert(chars@.take(i as int) == chars@);
    let ghost finished = runs(pieces@).push(current@);
    pieces.push(current);
    assert(runs(pieces@) =~= finished);
    pieces
}

/// Appends the decimal notation of `n` to `out`.
pub fn push_decimal(n: usize, out: &mut Vec<char>)
    ensures
        final(out)@ == old(out)@ + decimal_text(n as nat),
    decreases n,
{
    if n >= 10 {
        push_decimal(n / 10, out);
    }
    let d: u8 = (n % 10) as u8;
    out.push((d + 48u8) as char);
}

/// The decimal notation of `n`.
pub fn decimal_string(n: usize) -> (text: String)
    ensures
        text@ == decimal_text(n as nat),
{
    let mut digits: Vec<char> = Vec::new();
    push_decimal(n, &mut digits);
    string_of(&digits)
}

} // verus!

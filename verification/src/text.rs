//! Decimal numbers and space-separated words, as the other modules read and
//! write them.

use vstd::prelude::*;

verus! {

/// The character that writes the decimal digit `d`.
pub open spec fn digit_char(d: nat) -> char {
    if d == 0 {
        '0'
    } else if d == 1 {
        '1'
    } else if d == 2 {
        '2'
    } else if d == 3 {
        '3'
    } else if d == 4 {
        '4'
    } else if d == 5 {
        '5'
    } else if d == 6 {
        '6'
    } else if d == 7 {
        '7'
    } else if d == 8 {
        '8'
    } else {
        '9'
    }
}

/// The digit that `c` writes, if it is one of `0` to `9`.
pub open spec fn digit_value(c: char) -> Option<nat> {
    if c == '0' {
        Some(0)
    } else if c == '1' {
        Some(1)
    } else if c == '2' {
        Some(2)
    } else if c == '3' {
        Some(3)
    } else if c == '4' {
        Some(4)
    } else if c == '5' {
        Some(5)
    } else if c == '6' {
        Some(6)
    } else if c == '7' {
        Some(7)
    } else if c == '8' {
        Some(8)
    } else if c == '9' {
        Some(9)
    } else {
        None
    }
}

/// The decimal notation of `n`, without leading zeros.
pub open spec fn decimal(n: nat) -> Seq<char>
    decreases n,
{
    if n < 10 {
        seq![digit_char(n)]
    } else {
        decimal(n / 10).push(digit_char(n % 10))
    }
}

/// Every character of `s` is a decimal digit.
pub open spec fn all_digits(s: Seq<char>) -> bool {
    forall|i: int| 0 <= i < s.len() ==> (#[trigger] digit_value(s[i])) is Some
}

/// The number that the digits of `s` write, read from the left.
pub open spec fn digits_value(s: Seq<char>) -> nat
    decreases s.len(),
{
    if s.len() == 0 {
        0
    } else {
        digits_value(s.drop_last()) * 10 + match digit_value(s.last()) {
            Some(d) => d,
            None => 0,
        }
    }
}

/// `s` without the one plus sign that may lead a number.
pub open spec fn unsigned_digits(s: Seq<char>) -> Seq<char> {
    if s.len() > 0 && s[0] == '+' {
        s.skip(1)
    } else {
        s
    }
}

/// What `s` means as an unsigned decimal number no greater than `limit`: an
/// optional plus sign, then one or more digits and nothing else.
pub open spec fn parsed_decimal(s: Seq<char>, limit: u64) -> Option<u64> {
    let digits = unsigned_digits(s);
    if digits.len() > 0 && all_digits(digits) && digits_value(digits) <= limit {
        Some(digits_value(digits) as u64)
    } else {
        None
    }
}

/// A longer run of digits never writes a smaller number than its beginning.
pub proof fn lemma_digits_value_grows(s: Seq<char>, k: int)
    requires
        0 <= k <= s.len(),
    ensures
        digits_value(s.take(k)) <= digits_value(s),
    decreases s.len(),
{
    if k == s.len() {
        assert(s.take(k) =~= s);
    } else {
        assert(s.drop_last().take(k) =~= s.take(k));
        lemma_digits_value_grows(s.drop_last(), k);
    }
}

/// The characters of `text`, one by one.
pub fn chars_of(text: &str) -> (chars: Vec<char>)
    ensures
        chars@ == text@,
{
    let mut chars: Vec<char> = Vec::new();
    for c in it: text.chars()
        invariant
            it.seq() == text@,
            chars@ == text@.take(it.index()),
    {
        chars.push(c);
        assert(text@.take(it.index() + 1) =~= text@.take(it.index()).push(c));
    }
    assert(text@.take(text@.len() as int) =~= text@);
    chars
}

/// The digit that `c` writes, if any.
pub fn digit_of(c: char) -> (digit: Option<u64>)
    ensures
        digit matches Some(d) ==> d < 10 && digit_value(c) == Some(d as nat),
        digit is None ==> digit_value(c) is None,
{
    if c == '0' {
        Some(0)
    } else if c == '1' {
        Some(1)
    } else if c == '2' {
        Some(2)
    } else if c == '3' {
        Some(3)
    } else if c == '4' {
        Some(4)
    } else if c == '5' {
        Some(5)
    } else if c == '6' {
        Some(6)
    } else if c == '7' {
        Some(7)
    } else if c == '8' {
        Some(8)
    } else if c == '9' {
        Some(9)
    } else {
        None
    }
}

/// Reads `text` as an unsigned decimal number no greater than `limit`.
///
/// The text is an optional plus sign followed by digits only; anything else,
/// an empty run of digits or a number above `limit` gives `None`.
pub fn parse_decimal(text: &str, limit: u64) -> (value: Option<u64>)
    ensures
        value == parsed_decimal(text@, limit),
{
    let chars = chars_of(text);
    let start: usize = if chars.len() > 0 && chars[0] == '+' {
        1
    } else {
        0
    };
    let ghost digits = unsigned_digits(text@);
    assert(digits =~= text@.skip(start as int));
    if start == chars.len() {
        return None;
    }
    let mut value: u64 = 0;
    let mut i: usize = start;
    while i < chars.len()
        invariant
            start <= i <= chars.len(),
            chars@ == text@,
            digits == text@.skip(start as int),
            digits == unsigned_digits(text@),
            all_digits(digits.take(i - start)),
            digits_value(digits.take(i - start)) == value,
            value <= limit,
        decreases chars.len() - i,
    {
        let ghost k = i - start;
        assert(digits.take(k + 1).drop_last() =~= digits.take(k));
        assert(digits.take(k + 1).last() == chars@[i as int]);
        assert(digits[k] == chars@[i as int]);
        match digit_of(chars[i]) {
            None => {
                assert(digit_value(digits[k]) is None);
                return None;
            },
            Some(d) => {
                if d > limit || value > (limit - d) / 10 {
                    proof {
                        assert(digits_value(digits.take(k + 1)) == value * 10 + d);
                        lemma_digits_value_grows(digits, k + 1);
                    }
                    return None;
                }
                value = value * 10 + d;
            },
        }
        i = i + 1;
    }
    assert(digits.take(i - start) =~= digits);
    Some(value)
}

/// Writes one decimal digit.
fn digit_text(d: u64) -> (text: &'static str)
    requires
        d < 10,
    ensures
        text@ == seq![digit_char(d as nat)],
{
    proof {
        reveal_strlit("0");
        reveal_strlit("1");
        reveal_strlit("2");
        reveal_strlit("3");
        reveal_strlit("4");
        reveal_strlit("5");
        reveal_strlit("6");
        reveal_strlit("7");
        reveal_strlit("8");
        reveal_strlit("9");
    }
    let text = if d == 0 {
        "0"
    } else if d == 1 {
        "1"
    } else if d == 2 {
        "2"
    } else if d == 3 {
        "3"
    } else if d == 4 {
        "4"
    } else if d == 5 {
        "5"
    } else if d == 6 {
        "6"
    } else if d == 7 {
        "7"
    } else if d == 8 {
        "8"
    } else {
        "9"
    };
    assert(text@ =~= seq![digit_char(d as nat)]);
    text
}

/// Writes `n` in decimal notation, without leading zeros.
pub fn decimal_text(n: u64) -> (text: String)
    ensures
        text@ == decimal(n as nat),
    decreases n,
{
    let last = digit_text(n % 10);
    if n < 10 {
        last.to_owned()
    } else {
        let mut text = decimal_text(n / 10);
        text.append(last);
        assert(text@ =~= decimal((n / 10) as nat).push(digit_char((n % 10) as nat)));
        text
    }
}

/// The texts of `list` as contracts speak of them.
pub open spec fn texts(list: Seq<String>) -> Seq<Seq<char>> {
    Seq::new(list.len(), |i: int| list[i]@)
}

/// The pieces into which single spaces divide `s`: one more piece than there
/// are spaces, in order, each piece running from one space (or the beginning)
/// to the next (or the end). Pieces may be empty.
pub open spec fn split(s: Seq<char>) -> Seq<Seq<char>>
    decreases s.len(),
{
    if s.len() == 0 {
        seq![Seq::<char>::empty()]
    } else {
        let before = split(s.drop_last());
        if s.last() == ' ' {
            before.push(Seq::<char>::empty())
        } else {
            before.drop_last().push(before.last().push(s.last()))
        }
    }
}

/// The pieces of `pieces` written one after the other with one space between
/// neighbours.
pub open spec fn joined(pieces: Seq<Seq<char>>) -> Seq<char>
    decreases pieces.len(),
{
    if pieces.len() == 0 {
        Seq::<char>::empty()
    } else if pieces.len() == 1 {
        pieces[0]
    } else {
        joined(pieces.drop_last()) + seq![' '] + pieces.last()
    }
}

/// Splitting loses nothing: there is at least one piece, no piece holds a
/// space, and the pieces joined by spaces give the text back.
pub proof fn lemma_split_joins(s: Seq<char>)
    ensures
        split(s).len() >= 1,
        forall|i: int, j: int|
            0 <= i < split(s).len() && 0 <= j < split(s)[i].len() ==> split(s)[i][j] != ' ',
        joined(split(s)) == s,
    decreases s.len(),
{
    if s.len() == 0 {
        assert(joined(split(s)) =~= s);
    } else {
        let shorter = s.drop_last();
        lemma_split_joins(shorter);
        let before = split(shorter);
        let pieces = split(s);
        if s.last() == ' ' {
            assert(pieces.drop_last() =~= before);
            assert(joined(pieces) =~= s);
        } else {
            let word = before.last().push(s.last());
            assert(pieces.last() == word);
            assert(shorter.push(s.last()) =~= s);
            if before.len() == 1 {
                assert(joined(before) == before[0]);
                assert(pieces.len() == 1);
                assert(pieces[0] == shorter.push(s.last()));
                assert(joined(pieces) =~= s);
            } else {
                assert(pieces.drop_last() =~= before.drop_last());
                assert(joined(before) == joined(before.drop_last()) + seq![' '] + before.last());
                assert(joined(pieces) =~= s);
            }
        }
    }
}

/// Divides `text` at its spaces.
pub fn split_on_space(text: &str) -> (pieces: Vec<String>)
    ensures
        texts(pieces@) == split(text@),
{
    let chars = chars_of(text);
    let mut pieces: Vec<String> = Vec::new();
    let mut start: usize = 0;
    let mut i: usize = 0;
    assert(text@.take(0) =~= Seq::<char>::empty());
    assert(texts(pieces@).push(text@.subrange(0, 0)) =~= split(text@.take(0)));
    while i < chars.len()
        invariant
            start <= i <= chars.len(),
            chars@ == text@,
            split(text@.take(i as int)) == texts(pieces@).push(
                text@.subrange(start as int, i as int),
            ),
        decreases chars.len() - i,
    {
        let ghost prefix = text@.take(i as int);
        let ghost longer = text@.take(i + 1);
        assert(longer.drop_last() =~= prefix);
        assert(longer.last() == chars@[i as int]);
        let ghost done = texts(pieces@);
        if chars[i] == ' ' {
            let piece = text.substring_char(start, i);
            pieces.push(piece.to_owned());
            assert(texts(pieces@) =~= done.push(text@.subrange(start as int, i as int)));
            start = i + 1;
            assert(text@.subrange(start as int, i + 1) =~= Seq::<char>::empty());
        } else {
            assert(text@.subrange(start as int, i + 1) =~= text@.subrange(
                start as int,
                i as int,
            ).push(chars@[i as int]));
            assert(split(prefix).drop_last() =~= done);
        }
        i = i + 1;
    }
    assert(text@.take(i as int) =~= text@);
    let ghost done = texts(pieces@);
    let piece = text.substring_char(start, i);
    pieces.push(piece.to_owned());
    assert(texts(pieces@) =~= done.push(text@.subrange(start as int, i as int)));
    pieces
}

} // verus!

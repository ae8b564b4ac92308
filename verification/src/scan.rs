//! Lexical layer of the font reader: tokens, decimal numbers and hexadecimal
//! bitmap rows, each defined on plain byte sequences.

use vstd::prelude::*;

verus! {

/// The largest magnitude a decimal field may have.
pub const NUMBER_LIMIT: i32 = 99_999_999;

/// What splits a byte string into tokens.
#[derive(Clone, Copy, Debug, PartialEq, Eq, Structural)]
pub enum Separator {
    /// A line feed: the tokens are the non-empty lines.
    Newline,
    /// A space, a tab or a carriage return: the tokens are the words of a line.
    Blank,
}

impl Separator {
    /// Whether `byte` ends a token.
    pub open spec fn matches(self, byte: u8) -> bool {
        match self {
            Separator::Newline => byte == '\n' as u8,
            Separator::Blank => byte == ' ' as u8 || byte == '\t' as u8 || byte == '\r' as u8,
        }
    }

    fn test(self, byte: u8) -> (hit: bool)
        ensures
            hit == self.matches(byte),
    {
        match self {
            Separator::Newline => byte == '\n' as u8,
            Separator::Blank => byte == ' ' as u8 || byte == '\t' as u8 || byte == '\r' as u8,
        }
    }
}

/// The token that `current` contributes once it ends: itself, unless it is empty.
pub open spec fn flushed(current: Seq<u8>) -> Seq<Seq<u8>> {
    if current.len() > 0 {
        seq![current]
    } else {
        Seq::empty()
    }
}

/// The tokens of `bytes` from position `from` on, where `current` holds the
/// bytes of the token that is open at that position.
pub open spec fn tokens_from(
    bytes: Seq<u8>,
    separator: Separator,
    from: int,
    current: Seq<u8>,
) -> Seq<Seq<u8>>
    decreases bytes.len() - from,
{
    if from < 0 || from >= bytes.len() {
        flushed(current)
    } else if separator.matches(bytes[from]) {
        flushed(current) + tokens_from(bytes, separator, from + 1, Seq::empty())
    } else {
        tokens_from(bytes, separator, from + 1, current.push(bytes[from]))
    }
}

/// The maximal runs of bytes of `bytes` that hold no separator, in order.
pub open spec fn tokens(bytes: Seq<u8>, separator: Separator) -> Seq<Seq<u8>> {
    tokens_from(bytes, separator, 0, Seq::empty())
}

/// Whether `token` holds no separator.
pub open spec fn unbroken(token: Seq<u8>, separator: Separator) -> bool {
    forall|j: int| 0 <= j < token.len() ==> !separator.matches(#[trigger] token[j])
}

/// The bytes of `bytes` from position `from` on that are no separators.
pub open spec fn kept_from(bytes: Seq<u8>, separator: Separator, from: int) -> Seq<u8>
    decreases bytes.len() - from,
{
    if from < 0 || from >= bytes.len() {
        Seq::empty()
    } else if separator.matches(bytes[from]) {
        kept_from(bytes, separator, from + 1)
    } else {
        seq![bytes[from]] + kept_from(bytes, separator, from + 1)
    }
}

/// The tokens of a sequence, one after the other.
pub open spec fn joined(tokens: Seq<Seq<u8>>) -> Seq<u8>
    decreases tokens.len(),
{
    if tokens.len() == 0 {
        Seq::empty()
    } else {
        joined(tokens.drop_last()) + tokens.last()
    }
}

/// Joining a token and then more tokens.
proof fn lemma_joined_after(first: Seq<u8>, rest: Seq<Seq<u8>>)
    ensures
        joined(seq![first] + rest) == first + joined(rest),
    decreases rest.len(),
{
    if rest.len() == 0 {
        let one = seq![first];
        assert(one + rest =~= one);
        assert(one.drop_last() =~= Seq::<Seq<u8>>::empty());
        assert(one.last() == first);
        assert(joined(one.drop_last()) =~= Seq::<u8>::empty());
        assert(joined(one) == joined(one.drop_last()) + one.last());
        assert(joined(one) =~= first);
        assert(joined(rest) =~= Seq::<u8>::empty());
        assert(first + joined(rest) =~= first);
    } else {
        let all = seq![first] + rest;
        assert(all.drop_last() =~= seq![first] + rest.drop_last());
        assert(all.last() == rest.last());
        lemma_joined_after(first, rest.drop_last());
        assert(joined(all) =~= first + joined(rest));
    }
}

/// Every token holds a byte and no separator, and the tokens, one after the
/// other, are the bytes that are no separators, in their order.
pub proof fn lemma_tokens_from(bytes: Seq<u8>, separator: Separator, from: int, current: Seq<u8>)
    requires
        0 <= from,
        unbroken(current, separator),
    ensures
        forall|i: int|
            0 <= i < tokens_from(bytes, separator, from, current).len() ==> (
            #[trigger] tokens_from(bytes, separator, from, current)[i]).len() > 0 && unbroken(
                tokens_from(bytes, separator, from, current)[i],
                separator,
            ),
        joined(tokens_from(bytes, separator, from, current)) == current + kept_from(
            bytes,
            separator,
            from,
        ),
    decreases bytes.len() - from,
{
    let all = tokens_from(bytes, separator, from, current);
    if from >= bytes.len() {
        if current.len() > 0 {
            lemma_joined_after(current, Seq::empty());
            assert(seq![current] + Seq::<Seq<u8>>::empty() =~= seq![current]);
        }
        assert(joined(all) =~= current + kept_from(bytes, separator, from));
    } else if separator.matches(bytes[from]) {
        let rest = tokens_from(bytes, separator, from + 1, Seq::empty());
        lemma_tokens_from(bytes, separator, from + 1, Seq::empty());
        assert(Seq::<u8>::empty() + kept_from(bytes, separator, from + 1) =~= kept_from(
            bytes,
            separator,
            from + 1,
        ));
        if current.len() > 0 {
            lemma_joined_after(current, rest);
            assert forall|i: int| 0 <= i < all.len() implies (#[trigger] all[i]).len() > 0
                && unbroken(all[i], separator) by {
                if i > 0 {
                    assert(all[i] == rest[i - 1]);
                }
            }
        } else {
            assert(all =~= rest);
            assert(current + kept_from(bytes, separator, from) =~= kept_from(
                bytes,
                separator,
                from + 1,
            ));
        }
    } else {
        let grown = current.push(bytes[from]);
        assert forall|j: int| 0 <= j < grown.len() implies !separator.matches(
            #[trigger] grown[j],
        ) by {
            if j < current.len() {
                assert(grown[j] == current[j]);
            }
        }
        lemma_tokens_from(bytes, separator, from + 1, grown);
        assert(grown + kept_from(bytes, separator, from + 1) =~= current + kept_from(
            bytes,
            separator,
            from,
        ));
    }
}

/// Splitting loses nothing but separators: every token holds a byte and no
/// separator, and the tokens, one after the other, are the bytes of the
/// input that are no separators, in their order.
pub proof fn lemma_tokens(bytes: Seq<u8>, separator: Separator)
    ensures
        forall|i: int|
            0 <= i < tokens(bytes, separator).len() ==> (#[trigger] tokens(
                bytes,
                separator,
            )[i]).len() > 0 && unbroken(tokens(bytes, separator)[i], separator),
        joined(tokens(bytes, separator)) == kept_from(bytes, separator, 0),
{
    lemma_tokens_from(bytes, separator, 0, Seq::empty());
    assert(Seq::<u8>::empty() + kept_from(bytes, separator, 0) =~= kept_from(bytes, separator, 0));
}

/// The byte sequences that a vector of byte vectors holds.
pub open spec fn contents(rows: Seq<Vec<u8>>) -> Seq<Seq<u8>> {
    Seq::new(rows.len(), |i: int| rows[i]@)
}

/// Splits `bytes` into its tokens.
pub fn split(bytes: &[u8], separator: Separator) -> (out: Vec<Vec<u8>>)
    ensures
        contents(out@) == tokens(bytes@, separator),
{
    let mut out: Vec<Vec<u8>> = Vec::new();
    let mut current: Vec<u8> = Vec::new();
    let mut at: usize = 0;
    assert(contents(out@) + tokens_from(bytes@, separator, 0, current@) =~= tokens(
        bytes@,
        separator,
    ));
    while at < bytes.len()
        invariant
            at <= bytes.len(),
            tokens(bytes@, separator) == contents(out@) + tokens_from(
                bytes@,
                separator,
                at as int,
                current@,
            ),
        decreases bytes.len() - at,
    {
        let byte = bytes[at];
        let ghost before = contents(out@);
        let ghost open = current@;
        if separator.test(byte) {
            if current.len() > 0 {
                out.push(current);
                current = Vec::new();
            }
            assert(contents(out@) =~= before + flushed(open));
            assert(current@ =~= Seq::<u8>::empty());
            assert(before + (flushed(open) + tokens_from(
                bytes@,
                separator,
                at + 1,
                Seq::empty(),
            )) =~= (before + flushed(open)) + tokens_from(
                bytes@,
                separator,
                at + 1,
                Seq::empty(),
            ));
        } else {
            current.push(byte);
        }
        at += 1;
    }
    let ghost before = contents(out@);
    let ghost open = current@;
    if current.len() > 0 {
        out.push(current);
    }
    assert(contents(out@) =~= before + flushed(open));
    out
}

/// Whether `word` spells `text`, byte for character.
pub open spec fn spells(word: Seq<u8>, text: Seq<char>) -> bool {
    &&& word.len() == text.len()
    &&& forall|i: int| 0 <= i < word.len() ==> word[i] as u32 == #[trigger] text[i] as u32
}

/// Compares a word with a keyword.
pub fn word_is(word: &[u8], text: &str) -> (same: bool)
    ensures
        same == spells(word@, text@),
{
    if word.len() != text.unicode_len() {
        return false;
    }
    let mut at: usize = 0;
    while at < word.len()
        invariant
            at <= word.len(),
            word@.len() == text@.len(),
            forall|i: int| 0 <= i < at ==> word@[i] as u32 == #[trigger] text@[i] as u32,
        decreases word.len() - at,
    {
        if word[at] as u32 != text.get_char(at) as u32 {
            return false;
        }
        at += 1;
    }
    true
}

/// Whether `byte` is a decimal digit.
pub open spec fn is_digit(byte: u8) -> bool {
    '0' as u8 <= byte <= '9' as u8
}

/// Whether every byte of `digits` is a decimal digit.
pub open spec fn all_digits(digits: Seq<u8>) -> bool {
    forall|i: int| 0 <= i < digits.len() ==> is_digit(#[trigger] digits[i])
}

/// The value of a string of decimal digits, most significant first.
pub open spec fn digits_value(digits: Seq<u8>) -> int
    decreases digits.len(),
{
    if digits.len() == 0 {
        0
    } else {
        10 * digits_value(digits.drop_last()) + (digits.last() - '0' as u8)
    }
}

/// The value of an unsigned decimal field: one or more digits whose value
/// does not exceed [`NUMBER_LIMIT`].
pub open spec fn unsigned(digits: Seq<u8>) -> Option<int> {
    if digits.len() > 0 && all_digits(digits) && digits_value(digits) <= NUMBER_LIMIT {
        Some(digits_value(digits))
    } else {
        None
    }
}

/// The value of a decimal field: an unsigned field, or a minus sign and one.
pub open spec fn number(word: Seq<u8>) -> Option<int> {
    if word.len() > 0 && word[0] == '-' as u8 {
        match unsigned(word.skip(1)) {
            Some(value) => Some(-value),
            None => None,
        }
    } else {
        unsigned(word)
    }
}

/// A string of digits is worth at least as much as each of its prefixes.
pub proof fn lemma_digits_grow(digits: Seq<u8>, upto: int)
    requires
        all_digits(digits),
        0 <= upto <= digits.len(),
    ensures
        0 <= digits_value(digits.take(upto)) <= digits_value(digits),
    decreases digits.len(),
{
    if upto == digits.len() {
        assert(digits.take(upto) =~= digits);
        if digits.len() > 0 {
            lemma_digits_grow(digits.drop_last(), upto - 1);
        }
    } else {
        lemma_digits_grow(digits.drop_last(), upto);
        assert(digits.drop_last().take(upto) =~= digits.take(upto));
        assert(is_digit(digits[digits.len() - 1]));
    }
}

/// Reads a decimal field.
pub fn parse_number(word: &[u8]) -> (value: Option<i32>)
    ensures
        match value {
            Some(v) => number(word@) == Some(v as int),
            None => number(word@) is None,
        },
{
    let negative = word.len() > 0 && word[0] == '-' as u8;
    let start: usize = if negative { 1 } else { 0 };
    let ghost digits = word@.skip(start as int);
    proof {
        if !negative {
            assert(digits =~= word@);
        }
        assert(number(word@) == if negative {
            match unsigned(digits) {
                Some(v) => Some(-v),
                None => None,
            }
        } else {
            unsigned(digits)
        });
    }
    if word.len() == start {
        return None;
    }
    let mut total: i32 = 0;
    let mut at: usize = start;
    assert(digits.take(0) =~= Seq::<u8>::empty());
    while at < word.len()
        invariant
            start <= at <= word.len(),
            digits == word@.skip(start as int),
            digits.len() == word.len() - start,
            number(word@) == if negative {
                match unsigned(digits) {
                    Some(v) => Some(-v),
                    None => None,
                }
            } else {
                unsigned(digits)
            },
            all_digits(digits.take(at - start)),
            total == digits_value(digits.take(at - start)),
            0 <= total <= NUMBER_LIMIT,
        decreases word.len() - at,
    {
        let byte = word[at];
        let ghost seen = digits.take(at - start);
        let ghost more = digits.take(at - start + 1);
        assert(more.drop_last() =~= seen);
        assert(more.last() == byte);
        if byte < '0' as u8 || byte > '9' as u8 {
            assert(!is_digit(digits[at - start]));
            return None;
        }
        assert(all_digits(more)) by {
            assert forall|i: int| 0 <= i < more.len() implies is_digit(#[trigger] more[i]) by {
                if i < seen.len() {
                    assert(seen[i] == more[i]);
                }
            }
        }
        let digit: i32 = (byte - '0' as u8) as i32;
        if total > (NUMBER_LIMIT - digit) / 10 {
            proof {
                if all_digits(digits) {
                    lemma_digits_grow(digits, at - start + 1);
                }
            }
            return None;
        }
        total = 10 * total + digit;
        at += 1;
    }
    assert(digits.take(at - start) =~= digits);
    if negative {
        Some(-total)
    } else {
        Some(total)
    }
}

/// The value of a hexadecimal digit.
pub open spec fn hex_value(byte: u8) -> Option<int> {
    if '0' as u8 <= byte <= '9' as u8 {
        Some(byte - '0' as u8)
    } else if 'A' as u8 <= byte <= 'F' as u8 {
        Some(byte - 'A' as u8 + 10)
    } else if 'a' as u8 <= byte <= 'f' as u8 {
        Some(byte - 'a' as u8 + 10)
    } else {
        None
    }
}

/// Whether every byte of `word` is a hexadecimal digit.
pub open spec fn all_hex(word: Seq<u8>) -> bool {
    forall|i: int| 0 <= i < word.len() ==> hex_value(#[trigger] word[i]) is Some
}

/// Bit `place` of a four-bit value, counted from the most significant.
pub open spec fn nibble_bit(value: int, place: int) -> bool {
    if place == 0 {
        (value / 8) % 2 == 1
    } else if place == 1 {
        (value / 4) % 2 == 1
    } else if place == 2 {
        (value / 2) % 2 == 1
    } else {
        value % 2 == 1
    }
}

/// The first `width` bits of a row of hexadecimal digits, leftmost pixel
/// first. The row must hold digits only, and enough of them.
pub open spec fn row_bits(word: Seq<u8>, width: int) -> Option<Seq<bool>> {
    if 0 <= width <= 4 * word.len() && all_hex(word) {
        Some(Seq::new(width as nat, |c: int| nibble_bit(hex_value(word[c / 4])->0, c % 4)))
    } else {
        None
    }
}

fn hex_digit(byte: u8) -> (value: Option<u8>)
    ensures
        match value {
            Some(v) => hex_value(byte) == Some(v as int),
            None => hex_value(byte) is None,
        },
{
    if byte >= '0' as u8 && byte <= '9' as u8 {
        Some(byte - '0' as u8)
    } else if byte >= 'A' as u8 && byte <= 'F' as u8 {
        Some(byte - 'A' as u8 + 10)
    } else if byte >= 'a' as u8 && byte <= 'f' as u8 {
        Some(byte - 'a' as u8 + 10)
    } else {
        None
    }
}

fn bit_of(value: u8, place: usize) -> (set: bool)
    requires
        value < 16,
    ensures
        set == nibble_bit(value as int, place as int),
{
    if place == 0 {
        (value / 8) % 2 == 1
    } else if place == 1 {
        (value / 4) % 2 == 1
    } else if place == 2 {
        (value / 2) % 2 == 1
    } else {
        value % 2 == 1
    }
}

/// Reads one bitmap row of `width` pixels and appends its bits to `bits`.
/// Leaves `bits` as it was when the row is not well formed.
pub fn parse_row(word: &[u8], width: usize, bits: &mut Vec<bool>) -> (done: bool)
    ensures
        done == (row_bits(word@, width as int) is Some),
        done ==> final(bits)@ == old(bits)@ + row_bits(word@, width as int)->0,
        !done ==> final(bits)@ == old(bits)@,
{
    if word.len() < width / 4 || (word.len() == width / 4 && width % 4 != 0) {
        return false;
    }
    let mut at: usize = 0;
    while at < word.len()
        invariant
            at <= word.len(),
            forall|i: int| 0 <= i < at ==> hex_value(#[trigger] word@[i]) is Some,
        decreases word.len() - at,
    {
        if hex_digit(word[at]).is_none() {
            return false;
        }
        at += 1;
    }
    let ghost row = row_bits(word@, width as int)->0;
    let mut column: usize = 0;
    while column < width
        invariant
            column <= width,
            width <= 4 * word.len(),
            all_hex(word@),
            row == row_bits(word@, width as int)->0,
            row.len() == width,
            bits@ == old(bits)@ + row.take(column as int),
        decreases width - column,
    {
        let value = hex_digit(word[column / 4]).unwrap();
        let bit = bit_of(value, column % 4);
        bits.push(bit);
        assert(row.take(column + 1) =~= row.take(column as int).push(row[column as int]));
        assert(bits@ =~= old(bits)@ + row.take(column + 1));
        column += 1;
    }
    assert(row.take(width as int) =~= row);
    true
}

} // verus!

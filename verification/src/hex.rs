//! Text of the labels: upper-case hexadecimal numbers and printable glyphs.

use vstd::prelude::*;

verus! {

/// `String::push` of the standard library: appends one character to the end
/// of the string and leaves the rest as it was. Believed, not proved.
pub assume_specification[ String::push ](s: &mut String, ch: char)
    ensures
        final(s)@ == old(s)@.push(ch),
;

/// The upper-case hexadecimal digit for a value below 16.
pub open spec fn hex_digit(value: int) -> char {
    if value < 10 {
        ('0' as int + value) as char
    } else {
        ('A' as int + value - 10) as char
    }
}

/// The value of an upper-case hexadecimal digit.
pub open spec fn hex_digit_value(digit: char) -> int {
    if '0' <= digit <= '9' {
        digit as int - '0' as int
    } else {
        digit as int - 'A' as int + 10
    }
}

/// The upper-case hexadecimal numeral of `value`, most significant digit
/// first, filled up with leading zeros to at least `min_width` digits.
pub open spec fn hex_upper(value: nat, min_width: nat) -> Seq<char>
    decreases value, min_width,
{
    if value < 16 && min_width <= 1 {
        seq![hex_digit(value as int)]
    } else {
        hex_upper(value / 16, if min_width > 0 {
            (min_width - 1) as nat
        } else {
            0
        }).push(hex_digit((value % 16) as int))
    }
}

/// The number that a sequence of upper-case hexadecimal digits denotes.
pub open spec fn hex_value(digits: Seq<char>) -> nat
    decreases digits.len(),
{
    if digits.len() == 0 {
        0
    } else {
        (hex_value(digits.drop_last()) * 16 + hex_digit_value(digits.last())) as nat
    }
}

/// `16` to the power of `exponent`.
pub open spec fn pow16(exponent: nat) -> nat
    decreases exponent,
{
    if exponent == 0 {
        1
    } else {
        16 * pow16((exponent - 1) as nat)
    }
}

/// The glyph shown for a byte in the character column: the byte itself where
/// it is a visible ASCII character other than the space, a dot otherwise.
pub open spec fn glyph(byte: u8) -> char {
    if 33 <= byte <= 126 {
        byte as char
    } else {
        '.'
    }
}

/// A hexadecimal numeral consists of the digits `0` to `9` and `A` to `F`.
pub open spec fn is_hex_digit(c: char) -> bool {
    '0' <= c <= '9' || 'A' <= c <= 'F'
}

/// A hexadecimal digit denotes the value it was made from.
pub proof fn lemma_hex_digit_value(value: int)
    requires
        0 <= value < 16,
    ensures
        is_hex_digit(hex_digit(value)),
        hex_digit_value(hex_digit(value)) == value,
{
}

/// A numeral denotes the number it was made from, and consists of
/// hexadecimal digits only.
pub proof fn lemma_hex_upper_value(value: nat, min_width: nat)
    ensures
        hex_value(hex_upper(value, min_width)) == value,
        forall|i: int|
            0 <= i < hex_upper(value, min_width).len() ==> is_hex_digit(
                #[trigger] hex_upper(value, min_width)[i],
            ),
    decreases value, min_width,
{
    let s = hex_upper(value, min_width);
    if value < 16 && min_width <= 1 {
        lemma_hex_digit_value(value as int);
        assert(s.drop_last() =~= Seq::<char>::empty());
        assert(hex_value(s.drop_last()) == 0);
    } else {
        let rest_width: nat = if min_width > 0 {
            (min_width - 1) as nat
        } else {
            0
        };
        let rest = hex_upper(value / 16, rest_width);
        lemma_hex_upper_value(value / 16, rest_width);
        lemma_hex_digit_value((value % 16) as int);
        assert(s.drop_last() =~= rest);
        assert(s.last() == hex_digit((value % 16) as int));
    }
}

/// A numeral has exactly `min_width` digits where the number fits into that
/// many, and never fewer.
pub proof fn lemma_hex_upper_len(value: nat, min_width: nat)
    requires
        min_width >= 1,
    ensures
        hex_upper(value, min_width).len() >= min_width,
        value < pow16(min_width) ==> hex_upper(value, min_width).len() == min_width,
    decreases value, min_width,
{
    if value < 16 && min_width <= 1 {
    } else if min_width <= 1 {
        lemma_hex_upper_len(value / 16, 1);
        assert(pow16(1) == 16) by {
            reveal_with_fuel(pow16, 2);
        }
    } else {
        lemma_hex_upper_len(value / 16, (min_width - 1) as nat);
        assert(pow16(min_width) == 16 * pow16((min_width - 1) as nat));
    }
}

/// The upper-case hexadecimal digit for a value below 16.
pub fn hex_digit_char(value: u8) -> (c: char)
    requires
        value < 16,
    ensures
        c == hex_digit(value as int),
{
    if value < 10 {
        ('0' as u8 + value) as char
    } else {
        ('A' as u8 + (value - 10)) as char
    }
}

/// Appends the numeral of `value`, at least `min_width` digits wide.
pub fn push_hex(s: &mut String, value: u64, min_width: usize)
    ensures
        final(s)@ == old(s)@ + hex_upper(value as nat, min_width as nat),
    decreases value, min_width,
{
    if value >= 16 || min_width > 1 {
        let rest_width: usize = if min_width > 0 {
            min_width - 1
        } else {
            0
        };
        push_hex(s, value / 16, rest_width);
    }
    s.push(hex_digit_char((value % 16) as u8));
    proof {
        let numeral = hex_upper(value as nat, min_width as nat);
        if value >= 16 || min_width > 1 {
            let rest = hex_upper(
                (value / 16) as nat,
                if min_width > 0 {
                    (min_width - 1) as nat
                } else {
                    0
                },
            );
            assert(old(s)@ + numeral =~= (old(s)@ + rest).push(hex_digit((value % 16) as int)));
        } else {
            assert(old(s)@ + numeral =~= old(s)@.push(hex_digit(value as int)));
        }
    }
}

/// The upper-case hexadecimal numeral of `value`, filled up with leading
/// zeros to at least `min_width` digits.
pub fn format_hex(value: u64, min_width: usize) -> (s: String)
    ensures
        s@ == hex_upper(value as nat, min_width as nat),
{
    let mut s = String::new();
    push_hex(&mut s, value, min_width);
    assert(Seq::<char>::empty() + hex_upper(value as nat, min_width as nat) =~= hex_upper(
        value as nat,
        min_width as nat,
    ));
    s
}

/// The glyph shown for a byte in the character column.
pub fn printable(byte: u8) -> (c: char)
    ensures
        c == glyph(byte),
{
    if 33 <= byte && byte <= 126 {
        byte as char
    } else {
        '.'
    }
}

/// The one-character text of a byte's glyph.
pub fn glyph_text(byte: u8) -> (s: String)
    ensures
        s@ == seq![glyph(byte)],
{
    let mut s = String::new();
    s.push(printable(byte));
    s
}

} // verus!

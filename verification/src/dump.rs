//! One row of a hex dump as a line of text.

use crate::hex::{format_hex, glyph, hex_upper, lemma_hex_upper_len, pow16, printable, push_hex};
use crate::scene::{BYTE_DIGITS, OFFSET_DIGITS};
use vstd::prelude::*;

verus! {

/// `count` spaces.
pub open spec fn spaces(count: nat) -> Seq<char> {
    Seq::new(count, |i: int| ' ')
}

/// The hex field of the byte in a column: two digits, followed by a space in
/// the first half of the row and preceded by one in the second half, so that
/// two spaces part the halves.
pub open spec fn hex_field(column: int, byte: u8) -> Seq<char> {
    if column < 8 {
        hex_upper(byte as nat, BYTE_DIGITS as nat).push(' ')
    } else {
        seq![' '] + hex_upper(byte as nat, BYTE_DIGITS as nat)
    }
}

/// The hex fields of the bytes of a row, in their order.
pub open spec fn hex_fields(row: Seq<u8>) -> Seq<char>
    decreases row.len(),
{
    if row.len() == 0 {
        Seq::empty()
    } else {
        hex_fields(row.drop_last()) + hex_field(row.len() - 1, row.last())
    }
}

/// The glyphs of the bytes of a row, in their order.
pub open spec fn glyphs(row: Seq<u8>) -> Seq<char> {
    Seq::new(row.len(), |i: int| glyph(row[i]))
}

/// The bytes of the row `line` of `bytes`: sixteen, or what is left of them
/// in the last row.
pub open spec fn row_bytes(bytes: Seq<u8>, line: int) -> Seq<u8> {
    bytes.subrange(
        line * 16,
        if line * 16 + 16 <= bytes.len() {
            line * 16 + 16
        } else {
            bytes.len() as int
        },
    )
}

/// The text of the row `line` of `bytes`: the index of its first byte as a
/// numeral of at least eight digits, a space, the hex fields, filled up with
/// spaces to the width of a full row, two spaces, and the glyphs. A row
/// that holds no byte has no text.
pub open spec fn line_text(bytes: Seq<u8>, line: int) -> Option<Seq<char>> {
    if 0 <= line && line * 16 < bytes.len() {
        let row = row_bytes(bytes, line);
        Some(
            hex_upper((line * 16) as nat, OFFSET_DIGITS as nat).push(' ') + hex_fields(row)
                + spaces(((16 - row.len()) * 3) as nat) + spaces(2) + glyphs(row),
        )
    } else {
        None
    }
}

/// The hex fields of a row take three characters for each byte.
pub proof fn lemma_hex_fields_len(row: Seq<u8>)
    ensures
        hex_fields(row).len() == 3 * row.len(),
    decreases row.len(),
{
    if row.len() > 0 {
        lemma_hex_fields_len(row.drop_last());
        lemma_hex_upper_len(row.last() as nat, 2);
        assert(pow16(2) == 256) by {
            reveal_with_fuel(pow16, 3);
        }
    }
}

/// Every line whose first byte has an index of at most eight digits is as
/// long as a full row, less the glyphs that a short last row lacks.
pub proof fn lemma_line_text_len(bytes: Seq<u8>, line: int)
    requires
        0 <= line,
        line * 16 < bytes.len(),
        line * 16 < 0x1_0000_0000,
    ensures
        line_text(bytes, line) is Some,
        0 < row_bytes(bytes, line).len() <= 16,
        line_text(bytes, line)->0.len() == 59 + row_bytes(bytes, line).len(),
{
    lemma_hex_fields_len(row_bytes(bytes, line));
    lemma_hex_upper_len((line * 16) as nat, 8);
    assert(pow16(8) == 0x1_0000_0000) by {
        reveal_with_fuel(pow16, 9);
    }
}

/// The text of the row `line` of `bytes`.
pub fn format_line(bytes: &[u8], line: i32) -> (text: Option<String>)
    ensures
        text is Some <==> line_text(bytes@, line as int) is Some,
        text matches Some(s) ==> line_text(bytes@, line as int) == Some(s@),
{
    if line < 0 {
        return None;
    }
    let len = bytes.len();
    let first: u64 = (line as u64) * 16;
    if first >= len as u64 {
        return None;
    }
    let start = first as usize;
    let end = if len - start >= 16 {
        start + 16
    } else {
        len
    };
    let ghost row = row_bytes(bytes@, line as int);
    assert(row == bytes@.subrange(start as int, end as int));
    let mut s = format_hex(first, OFFSET_DIGITS);
    s.push(' ');
    let ghost head = s@;
    let mut i = start;
    while i < end
        invariant
            start <= i <= end <= bytes@.len(),
            end - start <= 16,
            s@ == head + hex_fields(bytes@.subrange(start as int, i as int)),
        decreases end - i,
    {
        let ghost before = bytes@.subrange(start as int, i as int);
        let ghost after = bytes@.subrange(start as int, i + 1);
        let ghost so_far = s@;
        assert(after.drop_last() =~= before);
        assert(after.last() == bytes@[i as int]);
        if i - start < 8 {
            push_hex(&mut s, bytes[i] as u64, BYTE_DIGITS);
            s.push(' ');
        } else {
            s.push(' ');
            push_hex(&mut s, bytes[i] as u64, BYTE_DIGITS);
        }
        assert(s@ =~= so_far + hex_field(i - start, bytes@[i as int]));
        assert(s@ =~= head + hex_fields(after));
        i = i + 1;
    }
    assert(s@ == head + hex_fields(row));
    let fill = (16 - (end - start)) * 3 + 2;
    let ghost fields = s@;
    let mut k: usize = 0;
    while k < fill
        invariant
            k <= fill,
            s@ == fields + spaces(k as nat),
        decreases fill - k,
    {
        let ghost so_far = s@;
        s.push(' ');
        assert(s@ =~= fields + spaces((k + 1) as nat));
        k = k + 1;
    }
    assert(spaces(fill as nat) =~= spaces(((16 - row.len()) * 3) as nat) + spaces(2));
    let ghost filled = s@;
    let mut i = start;
    while i < end
        invariant
            start <= i <= end <= bytes@.len(),
            row == bytes@.subrange(start as int, end as int),
            s@ == filled + glyphs(row).take(i - start),
        decreases end - i,
    {
        s.push(printable(bytes[i]));
        assert(glyphs(row).take(i + 1 - start) =~= glyphs(row).take(i - start).push(
            glyph(bytes@[i as int]),
        ));
        i = i + 1;
    }
    assert(glyphs(row).take(end - start) =~= glyphs(row));
    assert(s@ =~= line_text(bytes@, line as int)->0);
    Some(s)
}

} // verus!

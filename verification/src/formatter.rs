//! Rendering of bytes as text: two uppercase hexadecimal digits and a space
//! per byte in one pane, one printable character per byte in the other.
//!
//! A row shows up to sixteen bytes as two groups of eight with a spacer after
//! the first group. The last row of a buffer only ever shows a first group:
//! when fewer than eight bytes are left after it, the row ends there and so
//! does the output, whatever is left.

use vstd::prelude::*;
use vstd::string::*;

verus! {

/// The uppercase hexadecimal digit for a value below sixteen.
pub open spec fn hex_digit(n: int) -> char {
    if n < 10 {
        ('0' as int + n) as char
    } else {
        ('A' as int + (n - 10)) as char
    }
}

/// The hex text of one byte: high digit, low digit, one space.
pub open spec fn hex_of_byte(b: u8) -> Seq<char> {
    seq![hex_digit(b as int / 16), hex_digit(b as int % 16), ' ']
}

/// The ASCII text of one byte: itself when printable (0x20 to 0x7E), else a dot.
pub open spec fn ascii_of_byte(b: u8) -> char {
    if 0x20 <= b <= 0x7E {
        b as char
    } else {
        '.'
    }
}

/// Bytes in one group of a row.
pub const GROUP_LEN: usize = 8;

/// Bytes in a row that holds both groups.
pub const ROW_LEN: usize = 16;

/// The hex text of a run of bytes: three characters per byte, in order.
pub open spec fn hex_of_bytes(span: Seq<u8>) -> Seq<char> {
    Seq::new(3 * span.len(), |i: int| hex_of_byte(span[i / 3])[i % 3])
}

/// The ASCII text of a run of bytes: one character per byte, in order.
pub open spec fn ascii_of_bytes(span: Seq<u8>) -> Seq<char> {
    Seq::new(span.len(), |i: int| ascii_of_byte(span[i]))
}

/// What separates the two groups in the hex pane.
pub open spec fn hex_spacer() -> Seq<char> {
    seq![' ', ' ', ' ']
}

/// What separates the two groups in the ASCII pane.
pub open spec fn ascii_spacer() -> Seq<char> {
    seq![' ']
}

/// How many bytes of `span` fall into a row's first group.
pub open spec fn first_group_len(span: Seq<u8>) -> int {
    if span.len() <= GROUP_LEN {
        span.len() as int
    } else {
        GROUP_LEN as int
    }
}

/// The hex text of the row that shows `span`: the first group, the spacer,
/// then whatever of `span` lies beyond the first group.
pub open spec fn hex_line(span: Seq<u8>) -> Seq<char> {
    hex_of_bytes(span.take(first_group_len(span))) + hex_spacer() + hex_of_bytes(
        span.skip(first_group_len(span)),
    )
}

/// The ASCII text of the row that shows `span`, laid out as `hex_line` is.
pub open spec fn ascii_line(span: Seq<u8>) -> Seq<char> {
    ascii_of_bytes(span.take(first_group_len(span))) + ascii_spacer() + ascii_of_bytes(
        span.skip(first_group_len(span)),
    )
}

/// A hex text and an ASCII text belong together when both are the rendering
/// of one and the same run of bytes. The hex text names that run: no other
/// has the same hex row.
pub open spec fn paired(hex: Seq<char>, ascii: Seq<char>) -> bool {
    exists|span: Seq<u8>| hex == #[trigger] hex_line(span) && ascii == ascii_line(span)
}

/// Number of rows that a buffer of `len` bytes is shown in.
pub open spec fn row_count(len: nat) -> nat {
    ((len + ROW_LEN - 1) / (ROW_LEN as int)) as nat
}

/// Offset just past the last byte that row `i` shows of a buffer of `len`
/// bytes. A row with sixteen bytes ahead of it shows them all; any other row
/// shows one group of at most eight and nothing after it.
pub open spec fn row_end(len: nat, i: int) -> int {
    if ROW_LEN * i + ROW_LEN <= len {
        ROW_LEN * i + ROW_LEN
    } else if ROW_LEN * i + GROUP_LEN <= len {
        ROW_LEN * i + GROUP_LEN
    } else {
        len as int
    }
}

/// The bytes that row `i` shows.
pub open spec fn row_bytes(bytes: Seq<u8>, i: int) -> Seq<u8> {
    bytes.subrange(ROW_LEN * i, row_end(bytes.len(), i))
}

/// The hex pane of a buffer, row by row.
pub open spec fn hex_pane(bytes: Seq<u8>) -> Seq<Seq<char>> {
    Seq::new(row_count(bytes.len()), |i: int| hex_line(row_bytes(bytes, i)))
}

/// The ASCII pane of a buffer, row by row.
pub open spec fn ascii_pane(bytes: Seq<u8>) -> Seq<Seq<char>> {
    Seq::new(row_count(bytes.len()), |i: int| ascii_line(row_bytes(bytes, i)))
}

/// How the rows divide a buffer of `len` bytes: row `i` starts at byte `16 * i`
/// and is not empty; every row but the last shows sixteen bytes, so the rows
/// follow one another without a gap; the last row shows sixteen bytes or a
/// single group of at most eight, and fewer than eight bytes are left behind
/// it.
pub proof fn lemma_row_spans(len: nat, i: int)
    requires
        0 <= i < row_count(len),
    ensures
        ROW_LEN * i < row_end(len, i) <= len,
        row_end(len, i) - ROW_LEN * i == ROW_LEN || row_end(len, i) - ROW_LEN * i <= GROUP_LEN,
        i + 1 < row_count(len) ==> row_end(len, i) == ROW_LEN * (i + 1),
        i + 1 == row_count(len) ==> len - row_end(len, i) < GROUP_LEN,
{
}

/// A hex text stands for one run of bytes only: two runs with the same hex
/// row are the same run.
pub proof fn lemma_hex_line_injective(a: Seq<u8>, b: Seq<u8>)
    requires
        hex_line(a) == hex_line(b),
    ensures
        a == b,
{
    assert(hex_line(b).len() == 3 * b.len() + 3);
    let g = first_group_len(a);
    assert forall|m: int| 0 <= m < a.len() implies a[m] == b[m] by {
        let at = if m < g {
            3 * m
        } else {
            3 * m + 3
        };
        assert(hex_line(b)[at] == hex_digit(b[m] as int / 16));
        assert(hex_line(b)[at + 1] == hex_digit(b[m] as int % 16));
    }
}

/// The character for one hexadecimal digit.
fn hex_digit_char(n: u8) -> (c: char)
    requires
        n < 16,
    ensures
        c == hex_digit(n as int),
{
    if n < 10 {
        // '0' is 0x30
        (0x30u8 + n) as char
    } else {
        // 'A' is 0x41
        (0x41u8 + (n - 10)) as char
    }
}

/// The character shown for a byte in the ASCII pane.
pub fn byte_ascii(b: u8) -> (c: char)
    ensures
        c == ascii_of_byte(b),
{
    if 0x20 <= b && b <= 0x7E {
        b as char
    } else {
        '.'
    }
}

/// Appends the hex text of one byte.
fn push_hex(text: &mut String, b: u8)
    ensures
        final(text)@ == old(text)@ + hex_of_byte(b),
{
    text.push(hex_digit_char(b / 16));
    text.push(hex_digit_char(b % 16));
    text.push(' ');
}

/// The text shown for a byte in the hex pane.
pub fn byte_hex(b: u8) -> (text: String)
    ensures
        text@ == hex_of_byte(b),
{
    let mut text = String::new();
    push_hex(&mut text, b);
    text
}

/// Appends the next group of `bytes` from offset `start` to both texts: eight
/// bytes, or as many as are left when that is fewer. Returns how many it took.
fn push_group(bytes: &[u8], start: usize, hex: &mut String, ascii: &mut String) -> (taken: usize)
    requires
        start <= bytes@.len(),
    ensures
        taken <= GROUP_LEN,
        taken <= bytes@.len() - start,
        taken == GROUP_LEN || taken == bytes@.len() - start,
        final(hex)@ == old(hex)@ + hex_of_bytes(bytes@.subrange(start as int, start + taken)),
        final(ascii)@ == old(ascii)@ + ascii_of_bytes(
            bytes@.subrange(start as int, start + taken),
        ),
{
    let mut taken: usize = 0;
    while taken < GROUP_LEN && taken < bytes.len() - start
        invariant
            start <= bytes@.len(),
            taken <= GROUP_LEN,
            taken <= bytes@.len() - start,
            hex@ == old(hex)@ + hex_of_bytes(bytes@.subrange(start as int, start + taken)),
            ascii@ == old(ascii)@ + ascii_of_bytes(bytes@.subrange(start as int, start + taken)),
        decreases GROUP_LEN - taken,
    {
        let b = bytes[start + taken];
        push_hex(hex, b);
        ascii.push(byte_ascii(b));
        taken = taken + 1;
    }
    taken
}

/// Lays a buffer out as rows: the hex pane and the ASCII pane, one `String`
/// per row in each, row `i` of both showing the same bytes.
///
/// Every row starts with a group of eight bytes, or of what is left when that
/// is fewer, followed by the spacer. If fewer than eight bytes remain after
/// that group the row ends there and no further row is produced, so that up
/// to seven bytes at the end of a buffer are not shown; otherwise a second
/// group of eight completes the row. No byte is read twice, and none past the
/// end of the buffer.
pub fn format_rows(bytes: &[u8]) -> (rows: (Vec<String>, Vec<String>))
    ensures
        rows.0.deep_view() == hex_pane(bytes@),
        rows.1.deep_view() == ascii_pane(bytes@),
        rows.0.len() == row_count(bytes@.len()),
        rows.1.len() == row_count(bytes@.len()),
        forall|i: int|
            0 <= i < rows.0.len() ==> (#[trigger] rows.0[i])@ == hex_line(row_bytes(bytes@, i)),
        forall|i: int|
            0 <= i < rows.1.len() ==> (#[trigger] rows.1[i])@ == ascii_line(row_bytes(bytes@, i)),
        forall|i: int| 0 <= i < rows.0.len() ==> paired(#[trigger] rows.0[i]@, rows.1[i]@),
{
    let mut hex_out: Vec<String> = Vec::new();
    let mut ascii_out: Vec<String> = Vec::new();
    let mut pos: usize = 0;
    while pos < bytes.len()
        invariant_except_break
            pos == ROW_LEN * hex_out.len(),
        invariant
            pos <= bytes@.len(),
            hex_out.len() == ascii_out.len(),
            forall|j: int|
                0 <= j < hex_out.len() ==> #[trigger] hex_out[j]@ == hex_line(
                    row_bytes(bytes@, j),
                ),
            forall|j: int|
                0 <= j < ascii_out.len() ==> #[trigger] ascii_out[j]@ == ascii_line(
                    row_bytes(bytes@, j),
                ),
        ensures
            hex_out.len() == row_count(bytes@.len()),
        decreases bytes@.len() - pos,
    {
        let mut hex = String::new();
        let mut ascii = String::new();
        let first = push_group(bytes, pos, &mut hex, &mut ascii);
        pos = pos + first;
        proof {
            reveal_strlit("   ");
        }
        hex.append("   ");
        ascii.push(' ');
        if bytes.len() - pos < GROUP_LEN {
            hex_out.push(hex);
            ascii_out.push(ascii);
            break ;
        }
        let second = push_group(bytes, pos, &mut hex, &mut ascii);
        pos = pos + second;
        hex_out.push(hex);
        ascii_out.push(ascii);
    }
    (hex_out, ascii_out)
}

} // verus!

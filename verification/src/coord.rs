//! Coordinate tokens: a two-character string such as `6c` or `9J`, whose
//! on-the-wire form is its two ASCII bytes. The first character is the row
//! digit; the second names the column, case-insensitively (`a` through the
//! letter for the last column).

use crate::grid::SIZE;
use vstd::prelude::*;
use vstd::string::StrSliceExecFns;

verus! {

/// Whether `char::is_alphanumeric` accepts the character (a Unicode letter
/// or number).
pub uninterp spec fn unicode_alphanumeric(c: char) -> bool;

/// Whether `char::is_alphabetic` accepts the character (a Unicode letter).
pub uninterp spec fn unicode_alphabetic(c: char) -> bool;

/// Relies on `char::is_alphanumeric`: true exactly for Unicode letters and
/// numbers; the result depends on the character alone.
pub assume_specification[ char::is_alphanumeric ](c: char) -> (r: bool)
    ensures
        r == unicode_alphanumeric(c),
;

/// Relies on `char::is_alphabetic`: true exactly for Unicode letters; the
/// result depends on the character alone.
pub assume_specification[ char::is_alphabetic ](c: char) -> (r: bool)
    ensures
        r == unicode_alphabetic(c),
;

/// The shape a terminal entry must have before it is sent: two characters,
/// an alphanumeric then an alphabetic one. (This is only a shape check; it
/// does not bound the decoded row and column.)
pub open spec fn field_format_ok(s: Seq<char>) -> bool {
    &&& s.len() == 2
    &&& unicode_alphanumeric(s[0])
    &&& unicode_alphabetic(s[1])
}

/// The column letter lowercased: ASCII `A`..`Z` map down, all else stays.
pub open spec fn lower_char(c: char) -> char {
    if 65 <= c as int && c as int <= 90 {
        ((c as int + 32) as char)
    } else {
        c
    }
}

/// The character is a decimal digit.
pub open spec fn digit_char(c: char) -> bool {
    48 <= c as int && c as int <= 57
}

/// Row index a digit character denotes.
pub open spec fn row_of_char(c: char) -> int {
    c as int - 48
}

/// Column index a letter denotes: its lowercase form relative to `a`.
pub open spec fn col_of_char(c: char) -> int {
    if 65 <= c as int && c as int <= 90 {
        c as int - 65
    } else {
        c as int - 97
    }
}

/// A fully valid coordinate token: a digit row on the grid and a column
/// letter whose lowercase form lies within the first `SIZE` letters.
pub open spec fn valid_coord(s: Seq<char>) -> bool {
    &&& s.len() == 2
    &&& digit_char(s[0])
    &&& 0 <= row_of_char(s[0]) < SIZE
    &&& 0 <= col_of_char(s[1]) < SIZE
}

/// Row index of a valid coordinate token.
pub open spec fn row_of(s: Seq<char>) -> int {
    row_of_char(s[0])
}

/// Column index of a valid coordinate token.
pub open spec fn col_of(s: Seq<char>) -> int {
    col_of_char(s[1])
}

/// The two characters a pair of wire bytes spells.
pub open spec fn wire_chars(b0: u8, b1: u8) -> Seq<char> {
    seq![b0 as char, b1 as char]
}

/// The wire bytes carry a valid coordinate token.
pub open spec fn wire_coord_ok(b0: u8, b1: u8) -> bool {
    valid_coord(wire_chars(b0, b1))
}

/// Shape check applied to what the player typed: length two, alphanumeric
/// then alphabetic. Anything else is rejected and asked again.
pub fn check_correct_field_format(field: &str) -> (ok: bool)
    ensures
        ok == field_format_ok(field@),
{
    if field.unicode_len() != 2 {
        return false;
    }
    let c0 = field.get_char(0);
    let c1 = field.get_char(1);
    c0.is_alphanumeric() && c1.is_alphabetic()
}

/// Decode a coordinate given as its two characters.
pub fn decode_coord(c0: char, c1: char) -> (rc: (usize, usize))
    requires
        valid_coord(seq![c0, c1]),
    ensures
        rc.0 == row_of_char(c0),
        rc.1 == col_of_char(c1),
        rc.0 < SIZE,
        rc.1 < SIZE,
{
    let row: usize = (c0 as usize) - 48;
    let u: usize = c1 as usize;
    let col: usize = if 65 <= u && u <= 90 {
        u - 65
    } else {
        u - 97
    };
    (row, col)
}

/// Decode a coordinate entered at the terminal into `(row, column)`.
pub fn get_indices_from_field(field: &str) -> (rc: (usize, usize))
    requires
        valid_coord(field@),
    ensures
        rc.0 == row_of(field@),
        rc.1 == col_of(field@),
        rc.0 < SIZE,
        rc.1 < SIZE,
{
    let c0 = field.get_char(0);
    let c1 = field.get_char(1);
    proof {
        assert(seq![c0, c1] =~= field@);
    }
    decode_coord(c0, c1)
}

/// Decode the two wire bytes the defender received.
pub fn decode_wire_coord(b0: u8, b1: u8) -> (rc: (usize, usize))
    requires
        wire_coord_ok(b0, b1),
    ensures
        rc.0 == row_of(wire_chars(b0, b1)),
        rc.1 == col_of(wire_chars(b0, b1)),
        rc.0 < SIZE,
        rc.1 < SIZE,
{
    decode_coord(b0 as char, b1 as char)
}

/// Whether two received bytes spell a coordinate the defender can resolve.
pub fn wire_format_ok(b0: u8, b1: u8) -> (ok: bool)
    ensures
        ok == wire_coord_ok(b0, b1),
{
    let row_ok = 48 <= b0 && b0 <= 57;
    let col_ok = (65 <= b1 && b1 <= 65 + (SIZE as u8) - 1) || (97 <= b1 && b1 <= 97 + (SIZE as u8)
        - 1);
    row_ok && col_ok
}

/// The characters a coordinate encodes to: the row digit and the lowercase
/// column letter.
pub open spec fn encode_coord_spec(row: int, col: int) -> Seq<char> {
    seq![(48 + row) as char, (97 + col) as char]
}

/// Encode `(row, column)` back into its two-character token, the column
/// letter in lowercase.
pub fn encode_coord(row: usize, col: usize) -> (t: (char, char))
    requires
        row < SIZE,
        col < SIZE,
    ensures
        seq![t.0, t.1] =~= encode_coord_spec(row as int, col as int),
        t.0 as int == 48 + row,
        t.1 as int == 97 + col,
{
    let c0 = (48 + row as u8) as char;
    let c1 = (97 + col as u8) as char;
    (c0, c1)
}

/// The wire bytes for a validated coordinate token: its two ASCII codes.
pub fn coord_wire_bytes(c0: char, c1: char) -> (b: (u8, u8))
    requires
        valid_coord(seq![c0, c1]),
    ensures
        b.0 as int == c0 as int,
        b.1 as int == c1 as int,
        wire_coord_ok(b.0, b.1),
        row_of(wire_chars(b.0, b.1)) == row_of_char(c0),
        col_of(wire_chars(b.0, b.1)) == col_of_char(c1),
{
    let b0 = c0 as u8;
    let b1 = c1 as u8;
    (b0, b1)
}

/// Law: decoding a valid coordinate token and encoding the result gives the
/// same token back, with its column letter normalized to lowercase.
pub proof fn lemma_coord_round_trip(s: Seq<char>)
    requires
        valid_coord(s),
    ensures
        encode_coord_spec(row_of(s), col_of(s)) =~= seq![s[0], lower_char(s[1])],
{
}

} // verus!

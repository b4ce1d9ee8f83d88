//! The span and location resolver: turns byte positions in the UTF-8
//! encoding of the source text into character offsets and 1-based-line /
//! 0-based-column pairs, so that reported positions stay stable across
//! encodings.

use vstd::prelude::*;
use crate::ast::{is_boundary, is_cont_byte};

verus! {

/// The number of characters in `code[0 .. end)`: every byte that is not
/// a UTF-8 continuation byte starts one character.
pub open spec fn char_count(code: Seq<u8>, end: int) -> int
    decreases end,
{
    if end <= 0 {
        0
    } else {
        char_count(code, end - 1) + if is_cont_byte(code[end - 1]) {
            0int
        } else {
            1int
        }
    }
}

/// The number of line breaks in `code[0 .. end)`.
pub open spec fn newline_count(code: Seq<u8>, end: int) -> int
    decreases end,
{
    if end <= 0 {
        0
    } else {
        newline_count(code, end - 1) + if code[end - 1] == 10u8 {
            1int
        } else {
            0int
        }
    }
}

/// The byte position where the line holding position `p` begins.
pub open spec fn line_start(code: Seq<u8>, p: int) -> int
    decreases p,
{
    if p <= 0 {
        0
    } else if code[p - 1] == 10u8 {
        p
    } else {
        line_start(code, p - 1)
    }
}

/// The 1-based line of byte position `p`.
pub open spec fn line_of(code: Seq<u8>, p: int) -> int {
    1 + newline_count(code, p)
}

/// The 0-based character column of byte position `p` within its line.
pub open spec fn col_of(code: Seq<u8>, p: int) -> int {
    char_count(code, p) - char_count(code, line_start(code, p))
}

/// Character counts never decrease along the text.
pub proof fn lemma_char_count_le(code: Seq<u8>, a: int, b: int)
    requires
        a <= b,
    ensures
        char_count(code, a) <= char_count(code, b),
    decreases b - a,
{
    if a < b {
        lemma_char_count_le(code, a, b - 1);
    }
}

/// The character count is bounded by the byte count.
pub proof fn lemma_char_count_bound(code: Seq<u8>, end: int)
    requires
        0 <= end,
    ensures
        char_count(code, end) <= end,
        0 <= char_count(code, end),
    decreases end,
{
    if end > 0 {
        lemma_char_count_bound(code, end - 1);
    }
}

/// Between a character boundary and any strictly later position there
/// lies at least one character: character offsets of distinct boundary
/// positions are distinct.
pub proof fn lemma_char_count_strict(code: Seq<u8>, lo: int, hi: int)
    requires
        0 <= lo < hi,
        lo < code.len(),
        is_boundary(code, lo),
    ensures
        char_count(code, lo) < char_count(code, hi),
{
    lemma_char_count_le(code, lo + 1, hi);
}

/// Line numbers are bounded by one more than the byte count.
pub proof fn lemma_newline_count_bound(code: Seq<u8>, end: int)
    requires
        0 <= end,
    ensures
        0 <= newline_count(code, end) <= end,
    decreases end,
{
    if end > 0 {
        lemma_newline_count_bound(code, end - 1);
    }
}

/// The start of a line lies at or before the position itself.
pub proof fn lemma_line_start_bound(code: Seq<u8>, p: int)
    requires
        0 <= p,
    ensures
        0 <= line_start(code, p) <= p,
    decreases p,
{
    if p > 0 && code[p - 1] != 10u8 {
        lemma_line_start_bound(code, p - 1);
    }
}

/// Columns are non-negative.
pub proof fn lemma_col_nonneg(code: Seq<u8>, p: int)
    requires
        0 <= p,
    ensures
        0 <= col_of(code, p),
{
    lemma_line_start_bound(code, p);
    lemma_char_count_le(code, line_start(code, p), p);
}

/// Resolves one byte position: its character offset, 1-based line and
/// 0-based character column.
pub fn resolve_pos(code: &Vec<u8>, p: usize) -> (r: (usize, usize, usize))
    requires
        p <= code@.len(),
        p < usize::MAX,
    ensures
        r.0 == char_count(code@, p as int),
        r.1 == line_of(code@, p as int),
        r.2 == col_of(code@, p as int),
{
    let mut i: usize = 0;
    let mut chars: usize = 0;
    let mut lines: usize = 1;
    let mut ls_chars: usize = 0;
    while i < p
        invariant
            0 <= i <= p <= code@.len(),
            p < usize::MAX,
            chars == char_count(code@, i as int),
            lines == line_of(code@, i as int),
            ls_chars == char_count(code@, line_start(code@, i as int)),
            chars <= i,
            lines <= i + 1,
        decreases p - i,
    {
        proof {
            lemma_char_count_bound(code@, i as int);
            lemma_line_start_bound(code@, i + 1);
        }
        let b = code[i];
        if !(0x80 <= b && b < 0xC0) {
            chars = chars + 1;
        }
        if b == 10u8 {
            lines = lines + 1;
            ls_chars = chars;
        }
        i = i + 1;
    }
    proof {
        lemma_line_start_bound(code@, p as int);
        lemma_char_count_le(code@, line_start(code@, p as int), p as int);
        lemma_char_count_bound(code@, p as int);
    }
    (chars, lines, chars - ls_chars)
}


/// Counting characters in a prefix of a concatenation that stays inside
/// the first part sees only the first part.
proof fn lemma_char_count_prefix(a: Seq<u8>, b: Seq<u8>, e: int)
    requires
        0 <= e <= a.len(),
    ensures
        char_count(a + b, e) == char_count(a, e),
    decreases e,
{
    if e > 0 {
        lemma_char_count_prefix(a, b, e - 1);
        assert((a + b)[e - 1] == a[e - 1]);
    }
}

/// Characters of a concatenation split at the boundary.
proof fn lemma_char_count_concat(a: Seq<u8>, b: Seq<u8>, j: int)
    requires
        0 <= j <= b.len(),
    ensures
        char_count(a + b, a.len() + j) == char_count(a, a.len() as int) + char_count(b, j),
    decreases j,
{
    if j == 0 {
        lemma_char_count_prefix(a, b, a.len() as int);
    } else {
        lemma_char_count_concat(a, b, j - 1);
        assert((a + b)[a.len() + j - 1] == b[j - 1]);
    }
}

/// The UTF-8 encoding of one scalar starts with a leading byte and
/// continues with continuation bytes only.
proof fn lemma_encode_scalar_shape(v: u32)
    requires
        vstd::utf8::is_scalar(v),
    ensures
        1 <= vstd::utf8::encode_scalar(v).len() <= 4,
        !is_cont_byte(vstd::utf8::encode_scalar(v)[0]),
        forall|j: int|
            1 <= j < vstd::utf8::encode_scalar(v).len() ==> is_cont_byte(
                #[trigger] vstd::utf8::encode_scalar(v)[j],
            ),
{
    assert(((v & 0x7F) as u8) < 0x80) by (bit_vector);
    assert((0xC0u8 | ((v >> 6) & 0x1F) as u8) >= 0xC0) by (bit_vector);
    assert((0xE0u8 | ((v >> 12) & 0x0F) as u8) >= 0xC0) by (bit_vector);
    assert((0xF0u8 | ((v >> 18) & 0x7) as u8) >= 0xC0) by (bit_vector);
    assert(0x80 <= (0x80u8 | (v & 0x3F) as u8) < 0xC0) by (bit_vector);
    assert(0x80 <= (0x80u8 | ((v >> 6) & 0x3F) as u8) < 0xC0) by (bit_vector);
    assert(0x80 <= (0x80u8 | ((v >> 12) & 0x3F) as u8) < 0xC0) by (bit_vector);
}

/// One encoded scalar holds exactly one character.
proof fn lemma_char_count_scalar(v: u32)
    requires
        vstd::utf8::is_scalar(v),
    ensures
        char_count(vstd::utf8::encode_scalar(v), vstd::utf8::encode_scalar(v).len() as int) == 1,
{
    lemma_encode_scalar_shape(v);
    let s = vstd::utf8::encode_scalar(v);
    assert(char_count(s, 0) == 0);
    assert(char_count(s, 1) == 1);
    if s.len() >= 2 {
        assert(char_count(s, 2) == 1);
    }
    if s.len() >= 3 {
        assert(char_count(s, 3) == 1);
    }
    if s.len() >= 4 {
        assert(char_count(s, 4) == 1);
    }
}

/// The character count of a text's UTF-8 encoding is the text's length
/// in characters: byte-level counting agrees with the original text.
pub proof fn lemma_char_count_encode(chars: Seq<char>)
    ensures
        char_count(
            vstd::utf8::encode_utf8(chars),
            vstd::utf8::encode_utf8(chars).len() as int,
        ) == chars.len(),
    decreases chars.len(),
{
    broadcast use vstd::utf8::char_is_scalar;

    if chars.len() > 0 {
        let a = vstd::utf8::encode_scalar(chars[0] as u32);
        let b = vstd::utf8::encode_utf8(chars.drop_first());
        lemma_char_count_encode(chars.drop_first());
        vstd::utf8::char_is_scalar(chars[0]);
        lemma_char_count_scalar(chars[0] as u32);
        lemma_char_count_concat(a, b, b.len() as int);
        assert(vstd::utf8::encode_utf8(chars) == a + b);
    }
}

} // verus!

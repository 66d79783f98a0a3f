//! Byte-level text coordinates.
//!
//! A document is a UTF-8 string. Lines and columns are zero-based; a column
//! counts the bytes from the start of its line. Every conversion between
//! line/column pairs and byte offsets lives here.

use vstd::prelude::*;
use vstd::string::*;
use vstd::utf8::*;

verus! {

/// The line feed byte.
pub const LF: u8 = 10;

/// The carriage return byte.
pub const CR: u8 = 13;

/// The index of the first line feed at or after `from`, or the length of
/// `s` when no line feed follows.
pub open spec fn line_end(s: Seq<u8>, from: int) -> int
    decreases s.len() - from,
{
    if from < 0 || from >= s.len() {
        s.len() as int
    } else if s[from] == LF {
        from
    } else {
        line_end(s, from + 1)
    }
}

/// The number of bytes of the line that begins at `from`, without its
/// terminator. A terminator is a line feed, or a carriage return directly
/// followed by a line feed; a carriage return at the very end of the text
/// belongs to the line.
pub open spec fn line_len(s: Seq<u8>, from: int) -> int {
    let e = line_end(s, from);
    if e < s.len() && from < e && s[e - 1] == CR {
        e - from - 1
    } else {
        e - from
    }
}

/// Where the line after the one beginning at `from` begins.
pub open spec fn next_line(s: Seq<u8>, from: int) -> int {
    line_end(s, from) + 1
}

/// The end of a line lies between its beginning and the end of the text.
pub proof fn lemma_line_end_bounds(s: Seq<u8>, from: int)
    requires
        0 <= from <= s.len(),
    ensures
        from <= line_end(s, from) <= s.len(),
        line_end(s, from) < s.len() ==> s[line_end(s, from)] == LF,
        forall|k: int| from <= k < line_end(s, from) ==> s[k] != LF,
        0 <= line_len(s, from) <= line_end(s, from) - from,
    decreases s.len() - from,
{
    if from < s.len() && s[from] != LF {
        lemma_line_end_bounds(s, from + 1);
    }
}

/// The lengths of the lines of `s` from byte `from` on, each without its
/// terminator. A text that ends in a line feed has no empty last line.
pub open spec fn line_lengths(s: Seq<u8>, from: int) -> Seq<int>
    decreases s.len() + 1 - from,
{
    if from < 0 || from >= s.len() {
        Seq::empty()
    } else {
        proof {
            lemma_line_end_bounds(s, from);
        }
        seq![line_len(s, from)] + line_lengths(s, next_line(s, from))
    }
}

/// The byte offset of `line`/`col`, counting lines from the line that
/// begins at byte `pos`. Every line passed is passed whole, its terminator
/// included; the column is clamped to the length of its line; a line past
/// the last one gives the length of `s`.
pub open spec fn offset_from(s: Seq<u8>, pos: int, line: nat, col: nat) -> int
    decreases s.len() + 1 - pos,
{
    if pos < 0 || pos >= s.len() {
        s.len() as int
    } else if line == 0 {
        if col <= line_len(s, pos) {
            pos + col
        } else {
            pos + line_len(s, pos)
        }
    } else {
        proof {
            lemma_line_end_bounds(s, pos);
        }
        offset_from(s, next_line(s, pos), (line - 1) as nat, col)
    }
}

/// The byte offset that a zero-based `line` and `col` denote in `s`.
pub open spec fn offset_of(s: Seq<u8>, line: nat, col: nat) -> int {
    offset_from(s, 0, line, col)
}

/// The zero-based line and column of byte offset `off`: the number of line
/// feeds before it, and the number of bytes after the last of them. An
/// offset past the end counts as the end.
pub open spec fn position_of(s: Seq<u8>, off: int) -> (int, int)
    decreases off,
{
    if off <= 0 {
        (0, 0)
    } else if off > s.len() {
        position_of(s, s.len() as int)
    } else {
        let before = position_of(s, off - 1);
        if s[off - 1] == LF {
            (before.0 + 1, 0)
        } else {
            (before.0, before.1 + 1)
        }
    }
}

/// Within a line the column grows with the offset: from the beginning of
/// a line up to its line feed, a position keeps its line and adds the
/// bytes passed to its column.
pub proof fn lemma_position_in_line(s: Seq<u8>, from: int, k: int)
    requires
        0 <= from <= k <= line_end(s, from),
        from <= s.len(),
    ensures
        position_of(s, k) == (position_of(s, from).0, position_of(s, from).1 + (k - from)),
    decreases k - from,
{
    lemma_line_end_bounds(s, from);
    if k > from {
        lemma_position_in_line(s, from, k - 1);
        assert(s[k - 1] != LF);
    }
}

/// Counting lines from a line that begins at `pos`, the offset of a
/// position in an existing line, with a column within the line, is the
/// offset whose position it is.
pub proof fn lemma_offset_from_is_the_position(s: Seq<u8>, pos: int, line: nat, col: nat)
    requires
        0 <= pos <= s.len(),
        position_of(s, pos).1 == 0,
        offset_from(s, pos, line, 0) < s.len(),
        col <= line_len(s, offset_from(s, pos, line, 0)),
    ensures
        position_of(s, offset_from(s, pos, line, col)) == (
            position_of(s, pos).0 + line,
            col as int,
        ),
    decreases s.len() + 1 - pos,
{
    lemma_line_end_bounds(s, pos);
    assert(pos < s.len());
    if line == 0 {
        assert(offset_from(s, pos, line, col) == pos + col);
        lemma_position_in_line(s, pos, pos + col);
    } else {
        let e = line_end(s, pos);
        assert(offset_from(s, pos, line, 0) == offset_from(s, e + 1, (line - 1) as nat, 0));
        assert(offset_from(s, pos, line, col) == offset_from(s, e + 1, (line - 1) as nat, col));
        assert(e < s.len());
        lemma_position_in_line(s, pos, e);
        assert(position_of(s, e + 1) == (position_of(s, e).0 + 1, 0int));
        lemma_offset_from_is_the_position(s, e + 1, (line - 1) as nat, col);
    }
}

/// An offset is the offset of its position: in a text, the position of
/// the byte offset that a line and a column denote is that line and that
/// column, where the text has the line and the column lies within it.
pub proof fn law_offset_is_the_position(s: Seq<u8>, line: nat, col: nat)
    requires
        offset_of(s, line, 0) < s.len(),
        col <= line_len(s, offset_of(s, line, 0)),
    ensures
        position_of(s, offset_of(s, line, col)) == (line as int, col as int),
{
    lemma_offset_from_is_the_position(s, 0, line, col);
}

/// Finds the end of the line that begins at `from`.
pub fn find_line_end(src: &[u8], from: usize) -> (e: usize)
    requires
        from <= src.len(),
    ensures
        e == line_end(src@, from as int),
        from <= e <= src.len(),
{
    let mut i: usize = from;
    while i < src.len() && src[i] != LF
        invariant
            from <= i <= src.len(),
            line_end(src@, from as int) == line_end(src@, i as int),
        decreases src.len() - i,
    {
        i += 1;
    }
    proof {
        lemma_line_end_bounds(src@, i as int);
    }
    i
}

/// The length of the line that begins at `from` and ends at `e`.
pub fn measure_line(src: &[u8], from: usize, e: usize) -> (n: usize)
    requires
        from <= src.len(),
        e == line_end(src@, from as int),
    ensures
        n == line_len(src@, from as int),
        from + n <= e,
{
    proof {
        lemma_line_end_bounds(src@, from as int);
    }
    if e < src.len() && from < e && src[e - 1] == CR {
        e - from - 1
    } else {
        e - from
    }
}

/// Converts a line and column to a byte offset in `src`.
pub fn offset_at(src: &[u8], line: usize, col: usize) -> (off: usize)
    ensures
        off == offset_of(src@, line as nat, col as nat),
        off <= src.len(),
{
    let mut pos: usize = 0;
    let mut left: usize = line;
    while pos < src.len()
        invariant
            pos <= src.len(),
            left <= line,
            offset_of(src@, line as nat, col as nat) == offset_from(
                src@,
                pos as int,
                left as nat,
                col as nat,
            ),
        decreases src.len() - pos,
    {
        let e: usize = find_line_end(src, pos);
        let n: usize = measure_line(src, pos, e);
        if left == 0 {
            return if col <= n {
                pos + col
            } else {
                pos + n
            };
        }
        if e >= src.len() {
            assert(offset_from(src@, next_line(src@, pos as int), (left - 1) as nat, col as nat)
                == src@.len());
            return src.len();
        }
        left = left - 1;
        pos = e + 1;
    }
    src.len()
}

/// Converts a byte offset in `src` to a line and column.
pub fn position_at(src: &[u8], off: usize) -> (p: (usize, usize))
    ensures
        p.0 == position_of(src@, off as int).0,
        p.1 == position_of(src@, off as int).1,
{
    let stop: usize = if off <= src.len() {
        off
    } else {
        src.len()
    };
    let mut line: usize = 0;
    let mut col: usize = 0;
    let mut i: usize = 0;
    while i < stop
        invariant
            i <= stop <= src.len(),
            line <= i,
            col <= i,
            line == position_of(src@, i as int).0,
            col == position_of(src@, i as int).1,
        decreases stop - i,
    {
        if src[i] == LF {
            line += 1;
            col = 0;
        } else {
            col += 1;
        }
        i += 1;
    }
    (line, col)
}

/// Whether two byte slices hold the same bytes.
pub fn bytes_eq(a: &[u8], b: &[u8]) -> (same: bool)
    ensures
        same == (a@ == b@),
{
    if a.len() != b.len() {
        return false;
    }
    let mut i: usize = 0;
    while i < a.len()
        invariant
            i <= a.len(),
            a.len() == b.len(),
            forall|k: int| 0 <= k < i ==> a@[k] == b@[k],
        decreases a.len() - i,
    {
        if a[i] != b[i] {
            return false;
        }
        i += 1;
    }
    assert(a@ =~= b@);
    true
}

/// Two strings with the same UTF-8 bytes hold the same characters.
pub proof fn lemma_encode_injective(a: Seq<char>, b: Seq<char>)
    requires
        encode_utf8(a) == encode_utf8(b),
    ensures
        a == b,
{
    encode_utf8_decode_utf8(a);
    encode_utf8_decode_utf8(b);
}

/// Whether two strings hold the same characters.
pub fn str_eq(a: &str, b: &str) -> (same: bool)
    ensures
        same == (a@ == b@),
{
    let same = bytes_eq(a.as_bytes(), b.as_bytes());
    proof {
        if same {
            lemma_encode_injective(a@, b@);
        }
    }
    same
}

/// Whether the bytes of `s` from `start` up to `end` exist and equal `pat`.
pub open spec fn bytes_match(s: Seq<u8>, start: int, end: int, pat: Seq<u8>) -> bool {
    0 <= start <= end <= s.len() && s.subrange(start, end) == pat
}

/// Compares a byte range of `src` with `pat`; a range that does not lie
/// within `src` matches nothing.
pub fn range_equals(src: &[u8], start: usize, end: usize, pat: &[u8]) -> (same: bool)
    ensures
        same == bytes_match(src@, start as int, end as int, pat@),
{
    if start > end || end > src.len() || end - start != pat.len() {
        return false;
    }
    let mut i: usize = 0;
    while i < pat.len()
        invariant
            i <= pat.len(),
            start <= end <= src.len(),
            end - start == pat.len(),
            forall|k: int| 0 <= k < i ==> src@[start + k] == pat@[k],
        decreases pat.len() - i,
    {
        if src[start + i] != pat[i] {
            return false;
        }
        i += 1;
    }
    assert(src@.subrange(start as int, end as int) =~= pat@);
    true
}

/// Whether `start..end` is a range of whole characters of `src`.
pub open spec fn text_in_range(src: Seq<char>, start: int, end: int) -> bool {
    let b = encode_utf8(src);
    &&& 0 <= start <= end <= b.len()
    &&& is_char_boundary(b, start)
    &&& is_char_boundary(b, end)
}

/// The characters that the bytes `start..end` of `src` encode.
pub open spec fn text_between(src: Seq<char>, start: int, end: int) -> Seq<char> {
    decode_utf8(encode_utf8(src).subrange(start, end))
}

/// A boundary of the whole text is a boundary of the tail that begins at
/// an earlier boundary.
pub proof fn lemma_boundary_in_tail(b: Seq<u8>, start: int, end: int)
    requires
        valid_utf8(b),
        0 <= start <= end <= b.len(),
        is_char_boundary(b, start),
        is_char_boundary(b, end),
    ensures
        valid_utf8(b.subrange(start, b.len() as int)),
        is_char_boundary(b.subrange(start, b.len() as int), end - start),
{
    let tail = b.subrange(start, b.len() as int);
    valid_utf8_split(b, start);
    if end == b.len() {
        is_char_boundary_start_end_of_seq(tail);
    } else if end > start {
        is_char_boundary_iff_not_is_continuation_byte(b, end);
        is_char_boundary_iff_not_is_continuation_byte(tail, end - start);
    }
}

/// The part of `src` that lies in the byte range `start..end`, where that
/// range holds whole characters.
pub fn slice_text<'a>(src: &'a str, start: usize, end: usize) -> (r: Option<&'a str>)
    ensures
        r is Some <==> text_in_range(src@, start as int, end as int),
        r matches Some(t) ==> t@ == text_between(src@, start as int, end as int),
{
    let total: usize = src.as_bytes().len();
    if start <= end && end <= total && src.is_char_boundary(start) && src.is_char_boundary(end) {
        proof {
            encode_utf8_valid_utf8(src@);
            lemma_boundary_in_tail(src.spec_bytes(), start as int, end as int);
        }
        let (_, tail) = src.split_at(start);
        let (mid, _) = tail.split_at(end - start);
        proof {
            assert(mid.spec_bytes() =~= src.spec_bytes().subrange(start as int, end as int));
            encode_utf8_decode_utf8(mid@);
        }
        Some(mid)
    } else {
        None
    }
}

/// Encoding a concatenation encodes each part in turn.
pub proof fn lemma_encode_concat(a: Seq<char>, b: Seq<char>)
    ensures
        encode_utf8(a + b) == encode_utf8(a) + encode_utf8(b),
    decreases a.len(),
{
    if a.len() > 0 {
        lemma_encode_concat(a.drop_first(), b);
        assert((a + b).drop_first() =~= a.drop_first() + b);
    }
}

/// The bytes of `s` with the range `start..end` replaced by `with`.
pub open spec fn spliced(s: Seq<u8>, start: int, end: int, with: Seq<u8>) -> Seq<u8> {
    s.subrange(0, start) + with + s.subrange(end, s.len() as int)
}

/// Replaces the bytes `start..end` of `src` by `new_text`.
pub fn splice(src: &str, start: usize, end: usize, new_text: &str) -> (r: String)
    requires
        text_in_range(src@, start as int, end as int),
    ensures
        encode_utf8(r@) == spliced(
            encode_utf8(src@),
            start as int,
            end as int,
            encode_utf8(new_text@),
        ),
{
    proof {
        encode_utf8_valid_utf8(src@);
    }
    let (head, _) = src.split_at(start);
    let (_, tail) = src.split_at(end);
    let mut r = String::from_str(head);
    r.append(new_text);
    r.append(tail);
    proof {
        lemma_encode_concat(head@, new_text@);
        lemma_encode_concat(head@ + new_text@, tail@);
    }
    r
}

/// The first `n` characters of `s`, or all of `s` where it has fewer.
pub fn take_chars<'a>(s: &'a str, n: usize) -> (r: &'a str)
    ensures
        r@ == s@.take(if n <= s@.len() { n as int } else { s@.len() as int }),
{
    let total: usize = s.unicode_len();
    let k: usize = if n <= total {
        n
    } else {
        total
    };
    s.substring_char(0, k)
}

/// Collects the lengths of the lines of `src`.
pub fn line_lengths_of(src: &[u8]) -> (lens: Vec<usize>)
    ensures
        lens@.len() == line_lengths(src@, 0).len(),
        forall|k: int| 0 <= k < lens@.len() ==> lens@[k] == line_lengths(src@, 0)[k],
{
    let mut lens: Vec<usize> = Vec::new();
    let mut pos: usize = 0;
    while pos < src.len()
        invariant
            pos <= src.len(),
            line_lengths(src@, 0).len() == lens@.len() + line_lengths(src@, pos as int).len(),
            forall|k: int| 0 <= k < lens@.len() ==> lens@[k] == line_lengths(src@, 0)[k],
            forall|k: int|
                0 <= k < line_lengths(src@, pos as int).len() ==> line_lengths(
                    src@,
                    pos as int,
                )[k] == line_lengths(src@, 0)[lens@.len() + k],
        decreases src.len() - pos,
    {
        let e: usize = find_line_end(src, pos);
        let n: usize = measure_line(src, pos, e);
        proof {
            let rest = line_lengths(src@, next_line(src@, pos as int));
            assert(line_lengths(src@, pos as int)[0] == n);
            assert forall|k: int| 0 <= k < rest.len() implies rest[k] == line_lengths(src@, 0)[
                lens@.len() + 1 + k] by {
                assert(line_lengths(src@, pos as int)[k + 1] == rest[k]);
            }
        }
        lens.push(n);
        if e < src.len() {
            pos = e + 1;
        } else {
            pos = e;
        }
    }
    lens
}

} // verus!

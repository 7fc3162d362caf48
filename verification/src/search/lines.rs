//! Splitting a text into its lines.
//!
//! The text is cut in its UTF-8 encoding, at the bytes of its line feeds and
//! carriage returns; that the pieces are the lines of the text, character for
//! character, is proved from the laws of the encoding.

use vstd::prelude::*;
use vstd::utf8::{
    decode_utf8_split, encode_utf8, encode_utf8_decode_utf8, encode_utf8_valid_utf8,
    is_char_boundary, is_char_boundary_iff_not_is_continuation_byte,
    is_char_boundary_start_end_of_seq, valid_utf8,
};
use crate::search::text::{line_len, text_lines, views, without_cr};

verus! {

/// The encoding of two texts, one after the other, is the encoding of the
/// one followed by that of the other.
pub proof fn lemma_encode_concat(a: Seq<char>, b: Seq<char>)
    ensures
        encode_utf8(a + b) == encode_utf8(a) + encode_utf8(b),
    decreases a.len(),
{
    if a.len() == 0 {
        assert(a + b =~= b);
        assert(encode_utf8(a) + encode_utf8(b) =~= encode_utf8(b));
    } else {
        assert((a + b).drop_first() =~= a.drop_first() + b);
        lemma_encode_concat(a.drop_first(), b);
        assert(encode_utf8(a + b) =~= encode_utf8(a) + encode_utf8(b));
    }
}

/// A line feed is encoded by the byte 10, a carriage return by the byte 13.
pub proof fn lemma_encode_line_end()
    ensures
        encode_utf8(seq!['\n']) == seq![10u8],
        encode_utf8(seq!['\r']) == seq![13u8],
{
    assert((10u32 & 0x7F) as u8 == 10u8) by (bit_vector);
    assert((13u32 & 0x7F) as u8 == 13u8) by (bit_vector);
    assert('\n' as u32 == 10u32);
    assert('\r' as u32 == 13u32);
    reveal_with_fuel(encode_utf8, 2);
    assert(seq!['\n'].drop_first() =~= Seq::<char>::empty());
    assert(seq!['\r'].drop_first() =~= Seq::<char>::empty());
    assert(encode_utf8(seq!['\n']) =~= seq![10u8]);
    assert(encode_utf8(seq!['\r']) =~= seq![13u8]);
}

/// A text cut at a character boundary of its encoding is its two parts, one
/// after the other.
pub proof fn lemma_cut(whole: Seq<char>, left: Seq<char>, right: Seq<char>, mid: int)
    requires
        is_char_boundary(encode_utf8(whole), mid),
        0 <= mid <= encode_utf8(whole).len(),
        encode_utf8(left) == encode_utf8(whole).subrange(0, mid),
        encode_utf8(right) == encode_utf8(whole).subrange(mid, encode_utf8(whole).len() as int),
    ensures
        whole == left + right,
{
    let bytes = encode_utf8(whole);
    encode_utf8_valid_utf8(whole);
    decode_utf8_split(bytes, mid);
    encode_utf8_decode_utf8(whole);
    encode_utf8_decode_utf8(left);
    encode_utf8_decode_utf8(right);
    assert(whole =~= left + right);
}

/// Two texts with the same encoding are the same text.
pub proof fn lemma_same_encoding(a: Seq<char>, b: Seq<char>)
    requires
        encode_utf8(a) == encode_utf8(b),
    ensures
        a == b,
{
    encode_utf8_decode_utf8(a);
    encode_utf8_decode_utf8(b);
}

/// A text that holds the character `c`, a line feed or a carriage return,
/// holds its byte in its encoding.
pub proof fn lemma_byte_of(s: Seq<char>, i: int, c: char)
    requires
        0 <= i < s.len(),
        s[i] == c,
        c == '\n' || c == '\r',
    ensures
        encode_utf8(s.take(i)).len() < encode_utf8(s).len(),
        encode_utf8(s)[encode_utf8(s.take(i)).len() as int] == c as u8,
        encode_utf8(s.take(i)).len() + 1 + encode_utf8(s.skip(i + 1)).len() == encode_utf8(s).len(),
{
    lemma_encode_line_end();
    let a = s.take(i);
    let b = s.skip(i + 1);
    assert(s =~= a + seq![c] + b);
    lemma_encode_concat(a + seq![c], b);
    lemma_encode_concat(a, seq![c]);
    assert('\n' as u8 == 10u8);
    assert('\r' as u8 == 13u8);
}

/// A text without a line feed is one line.
pub proof fn lemma_no_line_feed(s: Seq<char>)
    requires
        forall|i: int| 0 <= i < s.len() ==> s[i] != '\n',
    ensures
        line_len(s) == s.len(),
    decreases s.len(),
{
    if s.len() > 0 {
        assert forall|i: int| 0 <= i < s.drop_first().len() implies s.drop_first()[i] != '\n' by {
            assert(s.drop_first()[i] == s[i + 1]);
        }
        lemma_no_line_feed(s.drop_first());
    }
}

/// The first line of a text ends at its first line feed.
pub proof fn lemma_first_line(line: Seq<char>, rest: Seq<char>)
    requires
        forall|i: int| 0 <= i < line.len() ==> line[i] != '\n',
    ensures
        line_len(line + seq!['\n'] + rest) == line.len(),
    decreases line.len(),
{
    let s = line + seq!['\n'] + rest;
    if line.len() > 0 {
        assert(s.drop_first() =~= line.drop_first() + seq!['\n'] + rest);
        assert forall|i: int| 0 <= i < line.drop_first().len() implies line.drop_first()[i]
            != '\n' by {
            assert(line.drop_first()[i] == line[i + 1]);
        }
        lemma_first_line(line.drop_first(), rest);
    }
}

/// The position of the first byte 10 in `bytes`, or their number where
/// there is none.
fn find_line_feed(bytes: &[u8]) -> (at: usize)
    ensures
        at <= bytes@.len(),
        forall|j: int| 0 <= j < at ==> bytes@[j] != 10u8,
        at < bytes@.len() ==> bytes@[at as int] == 10u8,
{
    let mut at: usize = 0;
    while at < bytes.len() && bytes[at] != 10u8
        invariant
            at <= bytes@.len(),
            forall|j: int| 0 <= j < at ==> bytes@[j] != 10u8,
        decreases bytes@.len() - at,
    {
        at = at + 1;
    }
    at
}

/// A text whose encoding holds no byte 10 holds no line feed.
proof fn lemma_no_feed(s: Seq<char>)
    requires
        forall|j: int| 0 <= j < encode_utf8(s).len() ==> encode_utf8(s)[j] != 10u8,
    ensures
        forall|i: int| 0 <= i < s.len() ==> s[i] != '\n',
{
    assert forall|i: int| 0 <= i < s.len() implies s[i] != '\n' by {
        if s[i] == '\n' {
            lemma_byte_of(s, i, '\n');
            assert('\n' as u8 == 10u8);
        }
    }
}

/// Splits a text into its lines.
pub fn split_lines<'a>(text: &'a str) -> (lines: Vec<&'a str>)
    ensures
        views(lines@) == text_lines(text@),
{
    let mut lines: Vec<&'a str> = Vec::new();
    let mut rest: &'a str = text;
    assert(views(lines@) + text_lines(rest@) =~= text_lines(text@));
    loop
        invariant
            views(lines@) + text_lines(rest@) == text_lines(text@),
        decreases rest@.len(),
    {
        if rest.is_empty() {
            assert(views(lines@) + text_lines(rest@) =~= views(lines@));
            return lines;
        }
        let ghost whole = rest@;
        let ghost kept = views(lines@);
        let bytes = rest.as_bytes();
        let at = find_line_feed(bytes);
        proof {
            encode_utf8_valid_utf8(whole);
        }
        if at == bytes.len() {
            proof {
                lemma_no_feed(whole);
                lemma_no_line_feed(whole);
            }
            lines.push(rest);
            assert(views(lines@) =~= kept + seq![whole]);
            return lines;
        }
        proof {
            is_char_boundary_iff_not_is_continuation_byte(bytes@, at as int);
        }
        let (line, tail) = rest.split_at(at);
        proof {
            lemma_cut(whole, line@, tail@, at as int);
            encode_utf8_valid_utf8(tail@);
            let tail_bytes = encode_utf8(tail@);
            assert(tail_bytes[0] == 10u8);
            if tail_bytes.len() > 1 {
                reveal_with_fuel(is_char_boundary, 2);
                reveal_with_fuel(valid_utf8, 2);
                assert(is_char_boundary(tail_bytes, 1));
            } else {
                is_char_boundary_start_end_of_seq(tail_bytes);
            }
        }
        let (feed, after) = tail.split_at(1);
        proof {
            lemma_encode_line_end();
            assert(encode_utf8(feed@) =~= seq![10u8]);
            lemma_same_encoding(feed@, seq!['\n']);
            lemma_cut(tail@, feed@, after@, 1);
            assert(whole =~= line@ + seq!['\n'] + after@);
            lemma_no_feed(line@);
            lemma_first_line(line@, after@);
            assert(whole.take(line@.len() as int) =~= line@);
            assert(whole.skip(line@.len() as int + 1) =~= after@);
            assert(text_lines(whole) == seq![without_cr(line@)] + text_lines(after@));
        }
        let line_bytes = line.as_bytes();
        let ghost full = line@;
        let shown = if line_bytes.len() > 0 && line_bytes[line_bytes.len() - 1] == 13u8 {
            proof {
                encode_utf8_valid_utf8(full);
                is_char_boundary_iff_not_is_continuation_byte(line_bytes@, line_bytes@.len() - 1);
            }
            let (head, cr) = line.split_at(line_bytes.len() - 1);
            proof {
                assert(encode_utf8(cr@) =~= seq![13u8]);
                lemma_same_encoding(cr@, seq!['\r']);
                lemma_cut(full, head@, cr@, line_bytes@.len() - 1);
                assert(full.drop_last() =~= head@);
            }
            head
        } else {
            proof {
                if full.len() > 0 && full.last() == '\r' {
                    lemma_byte_of(full, full.len() - 1, '\r');
                    assert(full.skip(full.len() as int) =~= Seq::<char>::empty());
                    assert('\r' as u8 == 13u8);
                }
            }
            line
        };
        assert(shown@ == without_cr(full));
        lines.push(shown);
        assert(views(lines@) =~= kept.push(shown@));
        rest = after;
        assert(views(lines@) + text_lines(rest@) =~= kept + text_lines(whole));
    }
}

} // verus!

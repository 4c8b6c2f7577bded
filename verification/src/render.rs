//! The text of a manifest: a JSON object with one member, `frames`, that
//! maps each name to the array `[x, y, width, height]`, laid out with two
//! spaces for each level and one value on each line.

use crate::geometry::Rect;
use vstd::prelude::*;

verus! {

pub const NEWLINE: u8 = 0x0a;

pub const SPACE: u8 = 0x20;

pub const COMMA: u8 = 0x2c;

pub const COLON: u8 = 0x3a;

pub const OPEN_BRACKET: u8 = 0x5b;

pub const CLOSE_BRACKET: u8 = 0x5d;

pub const OPEN_BRACE: u8 = 0x7b;

pub const CLOSE_BRACE: u8 = 0x7d;

pub const DIGIT_ZERO: u8 = 0x30;

/// `n` spaces.
pub open spec fn spaces(n: nat) -> Seq<u8> {
    Seq::new(n, |i: int| SPACE)
}

/// The bytes of `"frames"`, quotes included.
pub open spec fn frames_key() -> Seq<u8> {
    seq![0x22u8, 0x66u8, 0x72u8, 0x61u8, 0x6du8, 0x65u8, 0x73u8, 0x22u8]
}

/// The decimal digits of `n`, without leading zeros.
pub open spec fn decimal(n: nat) -> Seq<u8>
    decreases n,
{
    if n < 10 {
        seq![(DIGIT_ZERO + n) as u8]
    } else {
        decimal(n / 10).push((DIGIT_ZERO + n % 10) as u8)
    }
}

/// What ends a line: a comma where more follows, and the line break.
pub open spec fn line_end(more: bool) -> Seq<u8> {
    if more {
        seq![COMMA, NEWLINE]
    } else {
        seq![NEWLINE]
    }
}

/// One number of a rectangle on a line of its own.
pub open spec fn number_line(n: u32, more: bool) -> Seq<u8> {
    spaces(6) + decimal(n as nat) + line_end(more)
}

/// One member of `frames`: the quoted name and the four numbers of its
/// rectangle.
pub open spec fn entry_text(quoted: Seq<u8>, rect: Rect, more: bool) -> Seq<u8> {
    spaces(4) + quoted + seq![COLON, SPACE, OPEN_BRACKET, NEWLINE] + number_line(rect.x, true)
        + number_line(rect.y, true) + number_line(rect.width, true) + number_line(
        rect.height,
        false,
    ) + spaces(4) + seq![CLOSE_BRACKET] + line_end(more)
}

/// The first `n` members of `frames`.
pub open spec fn entries_text(quoted: Seq<Seq<u8>>, rects: Seq<Rect>, n: int) -> Seq<u8>
    decreases n,
{
    if n <= 0 {
        Seq::empty()
    } else {
        entries_text(quoted, rects, n - 1) + entry_text(
            quoted[n - 1],
            rects[n - 1],
            n < rects.len(),
        )
    }
}

/// What stands before the members of `frames`.
pub open spec fn opening() -> Seq<u8> {
    seq![OPEN_BRACE, NEWLINE] + spaces(2) + frames_key() + seq![COLON, SPACE, OPEN_BRACE]
}

/// What stands after the members of `frames`.
pub open spec fn closing() -> Seq<u8> {
    seq![CLOSE_BRACE, NEWLINE, CLOSE_BRACE]
}

/// The whole text for rectangles `rects` under the quoted names `quoted`,
/// in the order given. Where there are none, `frames` is `{}`.
pub open spec fn document(quoted: Seq<Seq<u8>>, rects: Seq<Rect>) -> Seq<u8> {
    if rects.len() == 0 {
        opening() + closing()
    } else {
        opening() + seq![NEWLINE] + entries_text(quoted, rects, rects.len() as int) + spaces(2)
            + closing()
    }
}

/// Appends `n` spaces.
pub fn put_spaces(out: &mut Vec<u8>, n: usize)
    ensures
        final(out)@ == old(out)@ + spaces(n as nat),
{
    let mut i: usize = 0;
    while i < n
        invariant
            i <= n,
            out@ == old(out)@ + spaces(i as nat),
        decreases n - i,
    {
        out.push(SPACE);
        i += 1;
        assert(out@ =~= old(out)@ + spaces(i as nat));
    }
    assert(old(out)@ + spaces(0) =~= old(out)@);
}

/// Appends `bytes`.
pub fn put_bytes(out: &mut Vec<u8>, bytes: &Vec<u8>)
    ensures
        final(out)@ == old(out)@ + bytes@,
{
    let mut i: usize = 0;
    assert(out@ =~= old(out)@ + bytes@.take(0));
    while i < bytes.len()
        invariant
            i <= bytes.len(),
            out@ == old(out)@ + bytes@.take(i as int),
        decreases bytes.len() - i,
    {
        out.push(bytes[i]);
        i += 1;
        assert(out@ =~= old(out)@ + bytes@.take(i as int));
    }
    assert(bytes@.take(i as int) =~= bytes@);
}

/// Appends the decimal digits of `n`.
pub fn put_decimal(out: &mut Vec<u8>, n: u32)
    ensures
        final(out)@ == old(out)@ + decimal(n as nat),
    decreases n,
{
    if n >= 10 {
        put_decimal(out, n / 10);
    }
    out.push(DIGIT_ZERO + (n % 10) as u8);
    assert(out@ =~= old(out)@ + decimal(n as nat));
}

/// Appends the end of a line.
pub fn put_line_end(out: &mut Vec<u8>, more: bool)
    ensures
        final(out)@ == old(out)@ + line_end(more),
{
    if more {
        out.push(COMMA);
    }
    out.push(NEWLINE);
    assert(out@ =~= old(out)@ + line_end(more));
}

/// Appends one number on a line of its own.
pub fn put_number_line(out: &mut Vec<u8>, n: u32, more: bool)
    ensures
        final(out)@ == old(out)@ + number_line(n, more),
{
    put_spaces(out, 6);
    put_decimal(out, n);
    put_line_end(out, more);
    assert(out@ =~= old(out)@ + number_line(n, more));
}

/// Appends one member of `frames`.
pub fn put_entry(out: &mut Vec<u8>, quoted: &Vec<u8>, rect: &Rect, more: bool)
    ensures
        final(out)@ == old(out)@ + entry_text(quoted@, *rect, more),
{
    put_spaces(out, 4);
    put_bytes(out, quoted);
    out.push(COLON);
    out.push(SPACE);
    out.push(OPEN_BRACKET);
    out.push(NEWLINE);
    let ghost head = out@;
    assert(head =~= old(out)@ + (spaces(4) + quoted@ + seq![COLON, SPACE, OPEN_BRACKET, NEWLINE]));
    put_number_line(out, rect.x, true);
    put_number_line(out, rect.y, true);
    put_number_line(out, rect.width, true);
    put_number_line(out, rect.height, false);
    let ghost body = out@;
    assert(body =~= old(out)@ + (spaces(4) + quoted@ + seq![COLON, SPACE, OPEN_BRACKET, NEWLINE]
        + number_line(rect.x, true) + number_line(rect.y, true) + number_line(rect.width, true)
        + number_line(rect.height, false)));
    put_spaces(out, 4);
    out.push(CLOSE_BRACKET);
    put_line_end(out, more);
    assert(out@ =~= old(out)@ + entry_text(quoted@, *rect, more));
}

} // verus!

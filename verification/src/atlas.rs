//! The composite image: every placed image copied to its rectangle, all
//! else transparent.

use crate::geometry::Rect;
use crate::placement::Piece;
use crate::raster::{byte_len, channel, lemma_offset_in_buffer, lemma_offset_injective, offset};
use vstd::prelude::*;

verus! {

/// Why a composite image could not be made.
#[derive(Clone, Copy, Debug, PartialEq, Eq, Structural)]
pub enum AssemblyError {
    /// A rectangle reaches beyond the image.
    OutOfBounds,
    /// The image has more bytes than this machine can address.
    TooLarge,
}

/// Channel `c` of the pixel in column `x` of row `y` once `piece` has been
/// copied over a buffer in which that channel was `under`.
pub open spec fn stamped(piece: Piece, under: u8, x: int, y: int, c: int) -> u8 {
    let rect = piece.placement.rect;
    if rect.covers(x, y) {
        channel(piece.pixels@, rect.width as int, x - rect.x, y - rect.y, c)
    } else {
        under
    }
}

/// Channel `c` of the pixel in column `x` of row `y` of the composite of
/// `pieces`: that of the last piece whose rectangle covers the pixel, and
/// zero where none does.
pub open spec fn painted(pieces: Seq<Piece>, x: int, y: int, c: int) -> u8
    decreases pieces.len(),
{
    if pieces.len() == 0 {
        0
    } else {
        stamped(pieces.last(), painted(pieces.drop_last(), x, y, c), x, y, c)
    }
}

/// Whether every rectangle of `pieces` lies within `width` by `height`
/// pixels.
pub open spec fn all_within(pieces: Seq<Piece>, width: int, height: int) -> bool {
    forall|i: int|
        0 <= i < pieces.len() ==> (#[trigger] pieces[i]).placement.rect.within(width, height)
}

/// Whether every piece comes with the pixels of its rectangle.
pub open spec fn all_wf(pieces: Seq<Piece>) -> bool {
    forall|i: int| 0 <= i < pieces.len() ==> (#[trigger] pieces[i]).wf()
}

/// `buf` is the composite of `pieces` on `width` by `height` pixels.
pub open spec fn shows(buf: Seq<u8>, width: int, height: int, pieces: Seq<Piece>) -> bool {
    &&& buf.len() == byte_len(width, height)
    &&& forall|x: int, y: int, c: int|
        0 <= x < width && 0 <= y < height && 0 <= c < 4 ==> #[trigger] channel(buf, width, x, y, c)
            == painted(pieces, x, y, c)
}

/// Copies the pixel that starts at byte `at` of `from` to column `x` of row
/// `y` of `buf`. Every other pixel stays as it was.
pub fn copy_pixel(buf: &mut Vec<u8>, width: u32, height: u32, x: u32, y: u32, from: &Vec<u8>, at: usize)
    requires
        old(buf)@.len() == byte_len(width as int, height as int),
        x < width,
        y < height,
        at + 4 <= from@.len(),
    ensures
        final(buf)@.len() == old(buf)@.len(),
        forall|px: int, py: int, c: int|
            0 <= px < width && 0 <= py < height && 0 <= c < 4 ==> #[trigger] channel(
                final(buf)@,
                width as int,
                px,
                py,
                c,
            ) == if px == x && py == y {
                from@[at + c]
            } else {
                channel(old(buf)@, width as int, px, py, c)
            },
{
    let len: usize = buf.len();
    let given: usize = from.len();
    proof {
        lemma_offset_in_buffer(width as int, height as int, x as int, y as int, 3);
    }
    let row: usize = y as usize * width as usize;
    let to: usize = 4 * (row + x as usize);
    buf.set(to, from[at]);
    buf.set(to + 1, from[at + 1]);
    buf.set(to + 2, from[at + 2]);
    buf.set(to + 3, from[at + 3]);
    proof {
        assert forall|px: int, py: int, c: int|
            0 <= px < width && 0 <= py < height && 0 <= c < 4 implies #[trigger] channel(
            buf@,
            width as int,
            px,
            py,
            c,
        ) == if px == x && py == y {
            from@[at + c]
        } else {
            channel(old(buf)@, width as int, px, py, c)
        } by {
            lemma_offset_in_buffer(width as int, height as int, px, py, c);
            if !(px == x && py == y) {
                let o = offset(width as int, px, py, c);
                if o == to {
                    lemma_offset_injective(width as int, px, py, c, x as int, y as int, 0);
                }
                if o == to + 1 {
                    lemma_offset_injective(width as int, px, py, c, x as int, y as int, 1);
                }
                if o == to + 2 {
                    lemma_offset_injective(width as int, px, py, c, x as int, y as int, 2);
                }
                if o == to + 3 {
                    lemma_offset_injective(width as int, px, py, c, x as int, y as int, 3);
                }
            }
        }
    }
}

/// Whether the pixel in column `x` of row `y` belongs to the part of `rect`
/// that is copied first: its first `rows` rows, and the first `cols` pixels
/// of the row after them.
pub open spec fn in_copied_part(rect: Rect, rows: int, cols: int, x: int, y: int) -> bool {
    rect.covers(x, y) && (y - rect.y < rows || (y - rect.y == rows && x - rect.x < cols))
}

/// Copies the pixels of `piece` to its rectangle in `buf`. Every pixel
/// outside the rectangle stays as it was.
pub fn blit(buf: &mut Vec<u8>, width: u32, height: u32, piece: &Piece)
    requires
        old(buf)@.len() == byte_len(width as int, height as int),
        piece.wf(),
        piece.placement.rect.within(width as int, height as int),
    ensures
        final(buf)@.len() == old(buf)@.len(),
        forall|px: int, py: int, c: int|
            0 <= px < width && 0 <= py < height && 0 <= c < 4 ==> #[trigger] channel(
                final(buf)@,
                width as int,
                px,
                py,
                c,
            ) == stamped(*piece, channel(old(buf)@, width as int, px, py, c), px, py, c),
{
    let rect = piece.placement.rect;
    let len: usize = piece.pixels.len();
    let mut j: u32 = 0;
    while j < rect.height
        invariant
            rect == piece.placement.rect,
            len == piece.pixels@.len(),
            piece.wf(),
            rect.within(width as int, height as int),
            buf@.len() == byte_len(width as int, height as int),
            j <= rect.height,
            forall|px: int, py: int, c: int|
                0 <= px < width && 0 <= py < height && 0 <= c < 4 ==> #[trigger] channel(
                    buf@,
                    width as int,
                    px,
                    py,
                    c,
                ) == if in_copied_part(rect, j as int, 0, px, py) {
                    channel(piece.pixels@, rect.width as int, px - rect.x, py - rect.y, c)
                } else {
                    channel(old(buf)@, width as int, px, py, c)
                },
        decreases rect.height - j,
    {
        let mut i: u32 = 0;
        while i < rect.width
            invariant
                rect == piece.placement.rect,
                len == piece.pixels@.len(),
                piece.wf(),
                rect.within(width as int, height as int),
                buf@.len() == byte_len(width as int, height as int),
                j < rect.height,
                i <= rect.width,
                forall|px: int, py: int, c: int|
                    0 <= px < width && 0 <= py < height && 0 <= c < 4 ==> #[trigger] channel(
                        buf@,
                        width as int,
                        px,
                        py,
                        c,
                    ) == if in_copied_part(rect, j as int, i as int, px, py) {
                        channel(piece.pixels@, rect.width as int, px - rect.x, py - rect.y, c)
                    } else {
                        channel(old(buf)@, width as int, px, py, c)
                    },
            decreases rect.width - i,
        {
            proof {
                lemma_offset_in_buffer(rect.width as int, rect.height as int, i as int, j as int, 3);
            }
            let row: usize = j as usize * rect.width as usize;
            let at: usize = 4 * (row + i as usize);
            copy_pixel(buf, width, height, rect.x + i, rect.y + j, &piece.pixels, at);
            i += 1;
        }
        j += 1;
    }
}

/// The composite of `pieces` on an image of `width` by `height` pixels:
/// each piece copied to its rectangle in the order given, every other pixel
/// transparent. Fails where a rectangle reaches beyond the image, or where
/// the image is too large for this machine.
pub fn composite(width: u32, height: u32, pieces: &Vec<Piece>) -> (result: Result<
    Vec<u8>,
    AssemblyError,
>)
    requires
        all_wf(pieces@),
    ensures
        result is Ok <==> all_within(pieces@, width as int, height as int) && byte_len(
            width as int,
            height as int,
        ) <= usize::MAX,
        result is Ok ==> shows(result->Ok_0@, width as int, height as int, pieces@),
        result is Err ==> (result->Err_0 == AssemblyError::OutOfBounds <==> !all_within(
            pieces@,
            width as int,
            height as int,
        )),
{
    let mut k: usize = 0;
    while k < pieces.len()
        invariant
            k <= pieces.len(),
            forall|i: int|
                0 <= i < k ==> (#[trigger] pieces@[i]).placement.rect.within(
                    width as int,
                    height as int,
                ),
        decreases pieces.len() - k,
    {
        let rect = pieces[k].placement.rect;
        if rect.x as u64 + rect.width as u64 > width as u64 || rect.y as u64 + rect.height as u64
            > height as u64 {
            return Err(AssemblyError::OutOfBounds);
        }
        k += 1;
    }
    assert(0 <= width * height <= 0xffff_ffff * 0xffff_ffff) by (nonlinear_arith)
        requires
            0 <= width <= 0xffff_ffff,
            0 <= height <= 0xffff_ffff,
    ;
    let area: u64 = width as u64 * height as u64;
    if area > (usize::MAX as u64) / 4 {
        return Err(AssemblyError::TooLarge);
    }
    let total: usize = 4 * (area as usize);
    let mut buf: Vec<u8> = vec![0u8; total];
    assert(shows(buf@, width as int, height as int, pieces@.take(0))) by {
        assert forall|x: int, y: int, c: int|
            0 <= x < width && 0 <= y < height && 0 <= c < 4 implies #[trigger] channel(
            buf@,
            width as int,
            x,
            y,
            c,
        ) == painted(pieces@.take(0), x, y, c) by {
            lemma_offset_in_buffer(width as int, height as int, x, y, c);
        }
    }
    let mut k: usize = 0;
    while k < pieces.len()
        invariant
            k <= pieces.len(),
            all_wf(pieces@),
            all_within(pieces@, width as int, height as int),
            shows(buf@, width as int, height as int, pieces@.take(k as int)),
        decreases pieces.len() - k,
    {
        let ghost under = buf@;
        blit(&mut buf, width, height, &pieces[k]);
        proof {
            let done = pieces@.take(k as int);
            let next = pieces@.take(k + 1);
            assert(next.drop_last() =~= done);
            assert(next.last() == pieces@[k as int]);
            assert forall|x: int, y: int, c: int|
                0 <= x < width && 0 <= y < height && 0 <= c < 4 implies #[trigger] channel(
                buf@,
                width as int,
                x,
                y,
                c,
            ) == painted(next, x, y, c) by {
                assert(channel(under, width as int, x, y, c) == painted(done, x, y, c));
            }
        }
        k += 1;
    }
    assert(pieces@.take(k as int) =~= pieces@);
    Ok(buf)
}

/// Where no two rectangles share a pixel, the composite shows under each
/// rectangle the pixels of its own piece, whatever the order of the pieces:
/// what is read back from a rectangle is what was put there.
pub proof fn lemma_round_trip(pieces: Seq<Piece>, k: int, x: int, y: int, c: int)
    requires
        0 <= k < pieces.len(),
        forall|i: int, j: int|
            0 <= i < j < pieces.len() ==> !(#[trigger] pieces[i]).placement.rect.meets(
                (#[trigger] pieces[j]).placement.rect,
            ),
        pieces[k].placement.rect.covers(x, y),
    ensures
        painted(pieces, x, y, c) == channel(
            pieces[k].pixels@,
            pieces[k].placement.rect.width as int,
            x - pieces[k].placement.rect.x,
            y - pieces[k].placement.rect.y,
            c,
        ),
    decreases pieces.len(),
{
    let last = pieces.len() - 1;
    if k < last {
        assert(!pieces[k].placement.rect.meets(pieces[last].placement.rect));
        assert(!pieces.last().placement.rect.covers(x, y));
        let rest = pieces.drop_last();
        assert forall|i: int, j: int| 0 <= i < j < rest.len() implies !(#[trigger] rest[i]).placement.rect.meets(
            (#[trigger] rest[j]).placement.rect,
        ) by {
            assert(rest[i] == pieces[i] && rest[j] == pieces[j]);
        }
        lemma_round_trip(rest, k, x, y, c);
    }
}

} // verus!

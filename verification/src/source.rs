//! Source images and the trimming of their transparent borders.

use crate::geometry::Rect;
use crate::raster::{byte_len, channel, lemma_next_row, lemma_offset_in_buffer, offset};
use vstd::prelude::*;

verus! {

/// An image to be packed: its name and its RGBA8 pixels, row by row.
#[derive(Clone, Debug)]
pub struct SourceImage {
    pub name: String,
    pub width: u32,
    pub height: u32,
    pub pixels: Vec<u8>,
}

impl SourceImage {
    /// The buffer holds exactly the pixels that the size asks for.
    pub open spec fn wf(&self) -> bool {
        self.pixels@.len() == byte_len(self.width as int, self.height as int)
    }

    /// Whether the pixel in column `x` of row `y` exists and is not fully
    /// transparent.
    pub open spec fn visible(&self, x: int, y: int) -> bool {
        &&& 0 <= x < self.width
        &&& 0 <= y < self.height
        &&& channel(self.pixels@, self.width as int, x, y, 3) != 0
    }

    /// No pixel of column `x` is visible.
    pub open spec fn column_clear(&self, x: int) -> bool {
        forall|y: int| 0 <= y < self.height ==> !#[trigger] self.visible(x, y)
    }

    /// No pixel of row `y` is visible.
    pub open spec fn row_clear(&self, y: int) -> bool {
        forall|x: int| 0 <= x < self.width ==> !#[trigger] self.visible(x, y)
    }

    /// No pixel of the image is visible.
    pub open spec fn blank(&self) -> bool {
        forall|x: int, y: int| !#[trigger] self.visible(x, y)
    }

    /// `area` is the smallest rectangle that holds every visible pixel: all
    /// that lies outside it is clear, and each of its four edges holds a
    /// visible pixel.
    pub open spec fn tight_box(&self, area: Rect) -> bool {
        &&& 1 <= area.width
        &&& 1 <= area.height
        &&& area.within(self.width as int, self.height as int)
        &&& forall|x: int|
            0 <= x < self.width && !(area.x <= x < area.right()) ==> #[trigger] self.column_clear(x)
        &&& forall|y: int|
            0 <= y < self.height && !(area.y <= y < area.bottom()) ==> #[trigger] self.row_clear(y)
        &&& !self.column_clear(area.x as int)
        &&& !self.column_clear(area.right() - 1)
        &&& !self.row_clear(area.y as int)
        &&& !self.row_clear(area.bottom() - 1)
    }

    /// Channel `c` of the pixel in column `x` of row `y` of `out` is that
    /// of the pixel `x` columns and `y` rows into `area`.
    pub open spec fn copied(&self, area: Rect, out: Seq<u8>, x: int, y: int, c: int) -> bool {
        channel(out, area.width as int, x, y, c) == channel(
            self.pixels@,
            self.width as int,
            area.x + x,
            area.y + y,
            c,
        )
    }

    /// The first `done` pixels of row `y` of `out` are those of `area`.
    pub open spec fn cropped_row(&self, area: Rect, out: Seq<u8>, y: int, done: int) -> bool {
        forall|x: int, c: int|
            0 <= x < done && 0 <= c < 4 ==> #[trigger] self.copied(area, out, x, y, c)
    }

    /// The first `rows` rows of `out` are those of `area`.
    pub open spec fn cropped_rows(&self, area: Rect, out: Seq<u8>, rows: int) -> bool {
        forall|x: int, y: int, c: int|
            0 <= x < area.width && 0 <= y < rows && 0 <= c < 4 ==> #[trigger] self.copied(
                area,
                out,
                x,
                y,
                c,
            )
    }

    /// `out` holds the pixels of `area`, and nothing else.
    pub open spec fn cropped(&self, area: Rect, out: Seq<u8>) -> bool {
        self.cropped_rows(area, out, area.height as int)
    }

    /// The whole image as a rectangle.
    pub open spec fn full_box(&self) -> Rect {
        Rect { x: 0, y: 0, width: self.width, height: self.height }
    }

    /// An image of `width` by `height` pixels, where `pixels` holds four
    /// bytes for each of them; `None` where it does not.
    pub fn new(name: String, width: u32, height: u32, pixels: Vec<u8>) -> (image: Option<
        SourceImage,
    >)
        ensures
            image is Some <==> pixels@.len() == byte_len(width as int, height as int),
            image is Some ==> image->0 == (SourceImage { name, width, height, pixels })
                && image->0.wf(),
    {
        assert(0 <= width * height <= 0xffff_ffff * 0xffff_ffff) by (nonlinear_arith)
            requires
                0 <= width <= 0xffff_ffff,
                0 <= height <= 0xffff_ffff,
        ;
        let area: u64 = (width as u64) * (height as u64);
        let len: u64 = pixels.len() as u64;
        if len % 4 == 0 && len / 4 == area {
            Some(SourceImage { name, width, height, pixels })
        } else {
            None
        }
    }

    /// The alpha value of the pixel in column `x` of row `y`.
    pub fn alpha(&self, x: u32, y: u32) -> (a: u8)
        requires
            self.wf(),
            x < self.width,
            y < self.height,
        ensures
            a == channel(self.pixels@, self.width as int, x as int, y as int, 3),
    {
        let len: usize = self.pixels.len();
        proof {
            lemma_offset_in_buffer(self.width as int, self.height as int, x as int, y as int, 3);
            assert(offset(self.width as int, x as int, y as int, 3) < len);
        }
        let row: usize = y as usize * self.width as usize;
        let at: usize = 4 * (row + x as usize) + 3;
        self.pixels[at]
    }

    /// Decides `column_clear`.
    pub fn is_column_clear(&self, x: u32) -> (clear: bool)
        requires
            self.wf(),
            x < self.width,
        ensures
            clear == self.column_clear(x as int),
    {
        let mut y: u32 = 0;
        while y < self.height
            invariant
                self.wf(),
                x < self.width,
                y <= self.height,
                forall|j: int| 0 <= j < y ==> !#[trigger] self.visible(x as int, j),
            decreases self.height - y,
        {
            if self.alpha(x, y) != 0 {
                assert(self.visible(x as int, y as int));
                return false;
            }
            y += 1;
        }
        true
    }

    /// Decides `row_clear`.
    pub fn is_row_clear(&self, y: u32) -> (clear: bool)
        requires
            self.wf(),
            y < self.height,
        ensures
            clear == self.row_clear(y as int),
    {
        let mut x: u32 = 0;
        while x < self.width
            invariant
                self.wf(),
                y < self.height,
                x <= self.width,
                forall|i: int| 0 <= i < x ==> !#[trigger] self.visible(i, y as int),
            decreases self.width - x,
        {
            if self.alpha(x, y) != 0 {
                assert(self.visible(x as int, y as int));
                return false;
            }
            x += 1;
        }
        true
    }
}

impl SourceImage {
    /// The smallest rectangle that holds every visible pixel of the image,
    /// or `None` where the image has none.
    pub fn trim_bounds(&self) -> (bounds: Option<Rect>)
        requires
            self.wf(),
        ensures
            bounds is None <==> self.blank(),
            bounds is Some ==> self.tight_box(bounds->0),
    {
        let mut left: u32 = 0;
        while left < self.width && self.is_column_clear(left)
            invariant
                self.wf(),
                left <= self.width,
                forall|x: int| 0 <= x < left ==> #[trigger] self.column_clear(x),
            decreases self.width - left,
        {
            left += 1;
        }
        if left == self.width {
            assert forall|x: int, y: int| !#[trigger] self.visible(x, y) by {
                if 0 <= x < self.width {
                    assert(self.column_clear(x));
                }
            }
            return None;
        }
        let ghost (px, py) = choose|px: int, py: int| left == px && self.visible(px, py);
        assert(self.visible(px, py));
        let mut right: u32 = self.width;
        while right > left + 1 && self.is_column_clear(right - 1)
            invariant
                self.wf(),
                left < right <= self.width,
                !self.column_clear(left as int),
                forall|x: int| right <= x < self.width ==> #[trigger] self.column_clear(x),
            decreases right,
        {
            right -= 1;
        }
        let mut top: u32 = 0;
        while top < self.height && self.is_row_clear(top)
            invariant
                self.wf(),
                top <= self.height,
                top <= py,
                self.visible(px, py),
                forall|y: int| 0 <= y < top ==> #[trigger] self.row_clear(y),
            decreases self.height - top,
        {
            proof {
                if top == py {
                    assert(self.row_clear(py));
                    assert(!self.visible(px, py));
                }
            }
            top += 1;
        }
        assert(top < self.height);
        let mut bottom: u32 = self.height;
        while bottom > top + 1 && self.is_row_clear(bottom - 1)
            invariant
                self.wf(),
                top < bottom <= self.height,
                !self.row_clear(top as int),
                forall|y: int| bottom <= y < self.height ==> #[trigger] self.row_clear(y),
            decreases bottom,
        {
            bottom -= 1;
        }
        let area = Rect { x: left, y: top, width: right - left, height: bottom - top };
        assert(!self.blank());
        Some(area)
    }

    /// The pixels of `area`, as a buffer of their own.
    pub fn crop(&self, area: &Rect) -> (out: Vec<u8>)
        requires
            self.wf(),
            area.within(self.width as int, self.height as int),
        ensures
            out@.len() == byte_len(area.width as int, area.height as int),
            self.cropped(*area, out@),
    {
        let len: usize = self.pixels.len();
        let mut out: Vec<u8> = Vec::new();
        let mut y: u32 = 0;
        while y < area.height
            invariant
                self.wf(),
                len == self.pixels@.len(),
                area.within(self.width as int, self.height as int),
                y <= area.height,
                out@.len() == 4 * (y * area.width),
                self.cropped_rows(*area, out@, y as int),
            decreases area.height - y,
        {
            let mut x: u32 = 0;
            while x < area.width
                invariant
                    self.wf(),
                    len == self.pixels@.len(),
                    area.within(self.width as int, self.height as int),
                    y < area.height,
                    x <= area.width,
                    out@.len() == 4 * (y * area.width + x),
                    self.cropped_rows(*area, out@, y as int),
                    self.cropped_row(*area, out@, y as int, x as int),
                decreases area.width - x,
            {
                proof {
                    lemma_offset_in_buffer(
                        self.width as int,
                        self.height as int,
                        area.x + x,
                        area.y + y,
                        3,
                    );
                }
                let row: usize = (area.y + y) as usize * self.width as usize;
                let from: usize = 4 * (row + (area.x + x) as usize);
                let ghost before = out@;
                out.push(self.pixels[from]);
                out.push(self.pixels[from + 1]);
                out.push(self.pixels[from + 2]);
                out.push(self.pixels[from + 3]);
                proof {
                    assert(forall|k: int| 0 <= k < before.len() ==> out@[k] == before[k]);
                    assert forall|i: int, c: int| 0 <= i < x + 1 && 0 <= c < 4 implies self.copied(
                        *area,
                        out@,
                        i,
                        y as int,
                        c,
                    ) by {
                        if i < x {
                            assert(self.copied(*area, before, i, y as int, c));
                        }
                    }
                    assert forall|i: int, j: int, c: int|
                        0 <= i < area.width && 0 <= j < y && 0 <= c < 4 implies self.copied(
                        *area,
                        out@,
                        i,
                        j,
                        c,
                    ) by {
                        lemma_offset_in_buffer(area.width as int, y as int, i, j, c);
                        assert(self.copied(*area, before, i, j, c));
                    }
                }
                x += 1;
            }
            proof {
                lemma_next_row(area.width as int, y as int);
                assert forall|i: int, j: int, c: int|
                    0 <= i < area.width && 0 <= j < y + 1 && 0 <= c < 4 implies self.copied(
                    *area,
                    out@,
                    i,
                    j,
                    c,
                ) by {
                    if j == y {
                        assert(self.copied(*area, out@, i, y as int, c));
                    }
                }
            }
            y += 1;
        }
        proof {
            assert(area.height * area.width == area.width * area.height) by (nonlinear_arith);
        }
        out
    }
}

/// An image has at most one tight box.
pub proof fn lemma_tight_box_unique(image: SourceImage, a: Rect, b: Rect)
    requires
        image.tight_box(a),
        image.tight_box(b),
    ensures
        a == b,
{
    assert(image.column_clear(a.x as int) || a.x >= b.x);
    assert(image.column_clear(b.x as int) || b.x >= a.x);
    assert(image.column_clear(a.right() - 1) || a.right() <= b.right());
    assert(image.column_clear(b.right() - 1) || b.right() <= a.right());
    assert(image.row_clear(a.y as int) || a.y >= b.y);
    assert(image.row_clear(b.y as int) || b.y >= a.y);
    assert(image.row_clear(a.bottom() - 1) || a.bottom() <= b.bottom());
    assert(image.row_clear(b.bottom() - 1) || b.bottom() <= a.bottom());
}

} // verus!

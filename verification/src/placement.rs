//! Where an image has been placed, and the rules that a set of placements
//! keeps.

use crate::config::PackConfig;
use crate::geometry::Rect;
use crate::raster::byte_len;
use vstd::prelude::*;

verus! {

/// Why an image could not be packed.
#[derive(Clone, Copy, Debug, PartialEq, Eq, Structural)]
pub enum PackError {
    /// The configured area is empty or larger than a packer can handle.
    UnusableConfig,
    /// Two images of one batch share a name.
    DuplicateName,
    /// There is nothing to place: the image has no pixels, or trimming is
    /// on and none of them is visible.
    EmptyImage,
    /// The area has no room left for the image and its margin.
    OutOfSpace,
    /// A position was chosen that breaks the rules of the layout.
    Misplaced,
}

/// One placed image.
#[derive(Clone, Debug)]
pub struct Placement {
    /// The name of the source image.
    pub name: String,
    /// Where the visible content stands in the atlas, margin excluded.
    pub rect: Rect,
    /// The part of the source image that was placed: all of it, or what
    /// trimming left.
    pub source: Rect,
}

/// A placement as contracts speak of it.
pub struct Slot {
    pub name: Seq<char>,
    pub rect: Rect,
    pub source: Rect,
}

impl View for Placement {
    type V = Slot;

    open spec fn view(&self) -> Slot {
        Slot { name: self.name@, rect: self.rect, source: self.source }
    }
}

/// A placed image together with the pixels that go into its rectangle.
#[derive(Clone, Debug)]
pub struct Piece {
    pub placement: Placement,
    pub pixels: Vec<u8>,
}

impl Piece {
    /// The buffer holds exactly the pixels of the rectangle.
    pub open spec fn wf(&self) -> bool {
        self.pixels@.len() == byte_len(
            self.placement.rect.width as int,
            self.placement.rect.height as int,
        )
    }
}

/// The placements of a sequence of pieces, in the same order.
pub open spec fn slots_of(pieces: Seq<Piece>) -> Seq<Slot> {
    pieces.map_values(|piece: Piece| piece.placement@)
}

/// The views of a sequence of placements, in the same order.
pub open spec fn slots_in(placements: Seq<Placement>) -> Seq<Slot> {
    placements.map_values(|placement: Placement| placement@)
}

/// Whether some placement among `slots` carries `name`.
pub open spec fn name_used(slots: Seq<Slot>, name: Seq<char>) -> bool {
    exists|i: int| 0 <= i < slots.len() && (#[trigger] slots[i]).name == name
}

/// Whether `rect`, with its margin, stays clear of every placement among
/// `slots`.
pub open spec fn clear_of(slots: Seq<Slot>, rect: Rect, margin: int) -> bool {
    forall|i: int| 0 <= i < slots.len() ==> !(#[trigger] slots[i]).rect.meets_padded(rect, margin)
}

/// No two of the placements come closer than their margins allow.
pub open spec fn apart(slots: Seq<Slot>, margin: int) -> bool {
    forall|i: int, j: int|
        0 <= i < j < slots.len() ==> !(#[trigger] slots[i]).rect.meets_padded(
            (#[trigger] slots[j]).rect,
            margin,
        )
}

/// Every placement lies, margin included, within an area of `width` by
/// `height` pixels, and is not empty.
pub open spec fn contained(slots: Seq<Slot>, margin: int, width: int, height: int) -> bool {
    forall|i: int|
        0 <= i < slots.len() ==> {
            &&& (#[trigger] slots[i]).rect.within_padded(margin, width, height)
            &&& 1 <= slots[i].rect.width
            &&& 1 <= slots[i].rect.height
        }
}

/// No two of the placements share a name.
pub open spec fn distinct_names(slots: Seq<Slot>) -> bool {
    forall|i: int, j: int|
        0 <= i < j < slots.len() ==> (#[trigger] slots[i]).name != (#[trigger] slots[j]).name
}

/// Every rectangle has the size of the part of the source that it shows:
/// no margin is counted in, and nothing is scaled.
pub open spec fn same_size(slots: Seq<Slot>) -> bool {
    forall|i: int|
        0 <= i < slots.len() ==> (#[trigger] slots[i]).rect.width == slots[i].source.width
            && slots[i].rect.height == slots[i].source.height
}

/// The rules of a layout under `config`: placements keep their margins
/// apart, stay inside the configured area, have the size of what they
/// show, and have names of their own.
pub open spec fn tidy(config: PackConfig, slots: Seq<Slot>) -> bool {
    &&& apart(slots, config.border_padding as int)
    &&& contained(
        slots,
        config.border_padding as int,
        config.max_width as int,
        config.max_height as int,
    )
    &&& same_size(slots)
    &&& distinct_names(slots)
}

} // verus!

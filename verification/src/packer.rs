//! The packer: it takes images one by one, lets the skyline search choose a
//! position for each, and accepts a position only after checking it against
//! the rules of the layout.

use crate::atlas::{composite, shows, AssemblyError};
use crate::config::PackConfig;
use crate::geometry::Rect;
use crate::placement::{
    apart, clear_of, contained, distinct_names, name_used, same_size, slots_in, slots_of, tidy,
    PackError, Piece, Placement, Slot,
};
use crate::skyline::{
    get_frame, new_skyline, pack_own, packer_settings, packer_taken, skyline_frame, skyline_takes,
    SkylineSettings, Taken,
};
use crate::raster::byte_len;
use crate::source::{lemma_tight_box_unique, SourceImage};
use texture_packer::texture::memory_rgba8_texture::MemoryRGBA8Texture;
use texture_packer::TexturePacker;
use vstd::prelude::*;

verus! {

/// The settings of the skyline search for `config`. The margin is reserved
/// on every side of a texture. The search keeps the last row of its area
/// free, so it is given one row more than the configured height. Rotation
/// and trimming are never left to it.
pub open spec fn settings_for(config: PackConfig) -> SkylineSettings {
    SkylineSettings {
        max_width: config.max_width,
        max_height: (config.max_height + 1) as u32,
        allow_rotation: false,
        force_max_dimensions: false,
        border_padding: config.border_padding,
        texture_padding: 0,
        texture_extrusion: config.border_padding,
        trim: false,
        texture_outlines: false,
    }
}

/// Whether a rectangle of `width` by `height` pixels, with its margin on
/// every side, is no larger than the configured area.
pub open spec fn roomy(config: PackConfig, width: int, height: int) -> bool {
    &&& width + 2 * config.border_padding <= config.max_width
    &&& height + 2 * config.border_padding <= config.max_height
}

/// What becomes of a frame that the skyline search proposes for a rectangle
/// of `width` by `height` pixels: it is accepted where it has that size,
/// lies with its margin inside the configured area and stays clear of every
/// earlier placement, and refused as misplaced otherwise.
pub open spec fn settled(
    config: PackConfig,
    slots: Seq<Slot>,
    width: u32,
    height: u32,
    frame: Option<(u32, u32, u32, u32)>,
) -> Result<Rect, PackError> {
    match frame {
        None => Err(PackError::Misplaced),
        Some((x, y, w, h)) => {
            let rect = Rect { x, y, width: w, height: h };
            if w == width && h == height && rect.within_padded(
                config.border_padding as int,
                config.max_width as int,
                config.max_height as int,
            ) && clear_of(slots, rect, config.border_padding as int) {
                Ok(rect)
            } else {
                Err(PackError::Misplaced)
            }
        },
    }
}

/// Decides what becomes of a proposed frame.
pub fn settle(
    config: &PackConfig,
    placed: &Vec<Piece>,
    width: u32,
    height: u32,
    frame: Option<(u32, u32, u32, u32)>,
) -> (result: Result<Rect, PackError>)
    ensures
        result == settled(*config, slots_of(placed@), width, height, frame),
{
    match frame {
        None => Err(PackError::Misplaced),
        Some((x, y, w, h)) => {
            let rect = Rect { x, y, width: w, height: h };
            if w != width || h != height || !rect.fits_padded(
                config.border_padding,
                config.max_width,
                config.max_height,
            ) {
                return Err(PackError::Misplaced);
            }
            let ghost slots = slots_of(placed@);
            let mut i: usize = 0;
            while i < placed.len()
                invariant
                    i <= placed.len(),
                    slots == slots_of(placed@),
                    frame == Some((x, y, w, h)),
                    rect == (Rect { x, y, width: w, height: h }),
                    w == width,
                    h == height,
                    rect.within_padded(
                        config.border_padding as int,
                        config.max_width as int,
                        config.max_height as int,
                    ),
                    forall|k: int|
                        0 <= k < i ==> !(#[trigger] slots[k]).rect.meets_padded(
                            rect,
                            config.border_padding as int,
                        ),
                decreases placed.len() - i,
            {
                if placed[i].placement.rect.touches_padded(&rect, config.border_padding) {
                    assert(slots[i as int].rect.meets_padded(rect, config.border_padding as int));
                    return Err(PackError::Misplaced);
                }
                i += 1;
            }
            Ok(rect)
        },
    }
}

/// Decides `name_used`.
pub fn has_name(placed: &Vec<Piece>, name: &String) -> (used: bool)
    ensures
        used == name_used(slots_of(placed@), name@),
{
    let ghost slots = slots_of(placed@);
    let mut i: usize = 0;
    while i < placed.len()
        invariant
            i <= placed.len(),
            slots == slots_of(placed@),
            forall|k: int| 0 <= k < i ==> (#[trigger] slots[k]).name != name@,
        decreases placed.len() - i,
    {
        if placed[i].placement.name == *name {
            assert(slots[i as int].name == name@);
            return true;
        }
        i += 1;
    }
    false
}

/// The part of `image` that is placed: with trimming, the smallest
/// rectangle that holds its visible pixels; without, all of it. `None`
/// where that part is empty.
pub open spec fn placed_part(config: PackConfig, image: SourceImage) -> Option<Rect> {
    if config.trim {
        if image.blank() {
            None
        } else {
            Some(choose|area: Rect| image.tight_box(area))
        }
    } else if image.width == 0 || image.height == 0 {
        None
    } else {
        Some(image.full_box())
    }
}

/// Whether packing `image` gets as far as asking the skyline search.
pub open spec fn asks_skyline(config: PackConfig, slots: Seq<Slot>, image: SourceImage) -> bool {
    &&& !name_used(slots, image.name@)
    &&& placed_part(config, image) is Some
    &&& roomy(
        config,
        placed_part(config, image)->0.width as int,
        placed_part(config, image)->0.height as int,
    )
}

/// What the skyline search is asked to take for `image`.
pub open spec fn request(config: PackConfig, image: SourceImage) -> Taken {
    (
        image.name@,
        placed_part(config, image)->0.width as nat,
        placed_part(config, image)->0.height as nat,
    )
}

/// The result of packing `image` after the placements `slots`, when the
/// skyline search has taken `taken` before.
pub open spec fn pack_result(
    config: PackConfig,
    slots: Seq<Slot>,
    taken: Seq<Taken>,
    image: SourceImage,
) -> Result<Slot, PackError> {
    if name_used(slots, image.name@) {
        Err(PackError::DuplicateName)
    } else if placed_part(config, image) is None {
        Err(PackError::EmptyImage)
    } else if !asks_skyline(config, slots, image) {
        Err(PackError::OutOfSpace)
    } else if !skyline_takes(
        settings_for(config),
        taken,
        request(config, image).1,
        request(config, image).2,
    ) {
        Err(PackError::OutOfSpace)
    } else {
        let area = placed_part(config, image)->0;
        match settled(
            config,
            slots,
            area.width,
            area.height,
            skyline_frame(
                settings_for(config),
                taken.push(request(config, image)),
                image.name@,
            ),
        ) {
            Ok(rect) => Ok(Slot { name: image.name@, rect, source: area }),
            Err(e) => Err(e),
        }
    }
}

/// What the skyline search has taken once `image` was packed.
pub open spec fn taken_after(
    config: PackConfig,
    slots: Seq<Slot>,
    taken: Seq<Taken>,
    image: SourceImage,
) -> Seq<Taken> {
    if asks_skyline(config, slots, image) && skyline_takes(
        settings_for(config),
        taken,
        request(config, image).1,
        request(config, image).2,
    ) {
        taken.push(request(config, image))
    } else {
        taken
    }
}

/// A result as contracts speak of it.
pub open spec fn outcome(result: Result<Placement, PackError>) -> Result<Slot, PackError> {
    match result {
        Ok(placement) => Ok(placement@),
        Err(e) => Err(e),
    }
}

/// A packer: a configuration, the skyline search that works for it, and
/// the images placed so far with their pixels, oldest first.
pub struct Packer {
    pub config: PackConfig,
    pub skyline: TexturePacker<'static, MemoryRGBA8Texture, String>,
    pub pieces: Vec<Piece>,
}

impl Packer {
    /// The placements made so far, oldest first.
    pub open spec fn slots(&self) -> Seq<Slot> {
        slots_of(self.pieces@)
    }

    /// What the skyline search has taken so far, oldest first.
    pub open spec fn taken(&self) -> Seq<Taken> {
        packer_taken(self.skyline)
    }

    /// The configuration is usable, the skyline search works with the
    /// settings that belong to it, the placements keep the rules of the
    /// layout, and each comes with the pixels of its rectangle.
    pub open spec fn wf(&self) -> bool {
        &&& self.config.usable()
        &&& packer_settings(self.skyline) == settings_for(self.config)
        &&& tidy(self.config, self.slots())
        &&& forall|i: int| 0 <= i < self.pieces@.len() ==> (#[trigger] self.pieces@[i]).wf()
    }

    /// An empty packer for `config`; `UnusableConfig` where the configured
    /// area is empty or too large.
    pub fn new(config: PackConfig) -> (result: Result<Packer, PackError>)
        ensures
            result is Ok <==> config.usable(),
            result is Err ==> result->Err_0 == PackError::UnusableConfig,
            result is Ok ==> {
                &&& result->Ok_0.wf()
                &&& result->Ok_0.config == config
                &&& result->Ok_0.pieces@.len() == 0
                &&& result->Ok_0.taken() == Seq::<Taken>::empty()
            },
    {
        if !config.is_usable() {
            return Err(PackError::UnusableConfig);
        }
        let settings = SkylineSettings {
            max_width: config.max_width,
            max_height: config.max_height + 1,
            allow_rotation: false,
            force_max_dimensions: false,
            border_padding: config.border_padding,
            texture_padding: 0,
            texture_extrusion: config.border_padding,
            trim: false,
            texture_outlines: false,
        };
        let skyline = new_skyline(settings);
        Ok(Packer { config, skyline, pieces: Vec::new() })
    }

    /// Decides `placed_part`.
    pub fn part_to_place(config: &PackConfig, image: &SourceImage) -> (part: Option<Rect>)
        requires
            image.wf(),
        ensures
            part == placed_part(*config, *image),
            part is Some ==> {
                &&& part->0.within(image.width as int, image.height as int)
                &&& 1 <= part->0.width
                &&& 1 <= part->0.height
            },
    {
        if config.trim {
            let bounds = image.trim_bounds();
            proof {
                if let Some(area) = bounds {
                    let chosen = choose|area: Rect| image.tight_box(area);
                    lemma_tight_box_unique(*image, area, chosen);
                }
            }
            bounds
        } else if image.width == 0 || image.height == 0 {
            None
        } else {
            Some(Rect { x: 0, y: 0, width: image.width, height: image.height })
        }
    }

    /// Places `image` and returns its placement. Nothing is placed where
    /// the name is taken, where there is nothing to place, where there is
    /// no room, or where the skyline search proposes a position that would
    /// break the rules of the layout.
    pub fn pack(&mut self, image: &SourceImage) -> (result: Result<Placement, PackError>)
        requires
            old(self).wf(),
            image.wf(),
        ensures
            final(self).wf(),
            final(self).config == old(self).config,
            outcome(result) == pack_result(
                old(self).config,
                old(self).slots(),
                old(self).taken(),
                *image,
            ),
            final(self).taken() == taken_after(
                old(self).config,
                old(self).slots(),
                old(self).taken(),
                *image,
            ),
            result is Err ==> final(self).pieces@ == old(self).pieces@,
            result is Ok ==> {
                &&& final(self).pieces@.len() == old(self).pieces@.len() + 1
                &&& final(self).pieces@.drop_last() == old(self).pieces@
                &&& final(self).pieces@.last().placement@ == result->Ok_0@
                &&& image.cropped(result->Ok_0.source, final(self).pieces@.last().pixels@)
            },
    {
        if has_name(&self.pieces, &image.name) {
            return Err(PackError::DuplicateName);
        }
        let area = match Self::part_to_place(&self.config, image) {
            None => {
                return Err(PackError::EmptyImage);
            },
            Some(area) => area,
        };
        let margin: u64 = 2 * (self.config.border_padding as u64);
        if area.width as u64 + margin > self.config.max_width as u64 || area.height as u64 + margin
            > self.config.max_height as u64 {
            return Err(PackError::OutOfSpace);
        }
        let pixels = image.crop(&area);
        proof {
            assert(area.width * area.height <= self.config.max_width * self.config.max_height)
                by (nonlinear_arith)
                requires
                    0 <= area.width <= self.config.max_width,
                    0 <= area.height <= self.config.max_height,
            ;
        }
        if !pack_own(&mut self.skyline, &image.name, area.width, area.height, &pixels) {
            return Err(PackError::OutOfSpace);
        }
        let frame = get_frame(&self.skyline, &image.name);
        let rect = match settle(&self.config, &self.pieces, area.width, area.height, frame) {
            Err(e) => {
                return Err(e);
            },
            Ok(rect) => rect,
        };
        let placement = Placement { name: image.name.clone(), rect, source: area };
        let kept = Placement { name: image.name.clone(), rect, source: area };
        let ghost before = self.pieces@;
        self.pieces.push(Piece { placement: kept, pixels });
        proof {
            let slots = slots_of(before);
            let now = slots_of(self.pieces@);
            assert(now =~= slots.push(kept@));
            assert(self.pieces@.drop_last() =~= before);
            let margin = self.config.border_padding as int;
            assert(apart(now, margin)) by {
                assert forall|i: int, j: int| 0 <= i < j < now.len() implies !(#[trigger] now[i]).rect.meets_padded(
                    (#[trigger] now[j]).rect,
                    margin,
                ) by {
                    if j < slots.len() {
                        assert(now[i] == slots[i] && now[j] == slots[j]);
                    } else {
                        assert(now[i] == slots[i]);
                    }
                }
            }
            assert(distinct_names(now)) by {
                assert forall|i: int, j: int| 0 <= i < j < now.len() implies (#[trigger] now[i]).name
                    != (#[trigger] now[j]).name by {
                    if j < slots.len() {
                        assert(now[i] == slots[i] && now[j] == slots[j]);
                    } else {
                        assert(now[i] == slots[i]);
                    }
                }
            }
            assert(contained(
                now,
                margin,
                self.config.max_width as int,
                self.config.max_height as int,
            )) by {
                assert forall|i: int| 0 <= i < now.len() implies {
                    &&& (#[trigger] now[i]).rect.within_padded(
                        margin,
                        self.config.max_width as int,
                        self.config.max_height as int,
                    )
                    &&& 1 <= now[i].rect.width
                    &&& 1 <= now[i].rect.height
                } by {
                    if i < slots.len() {
                        assert(now[i] == slots[i]);
                    }
                }
            }
            assert(same_size(now)) by {
                assert forall|i: int| 0 <= i < now.len() implies (#[trigger] now[i]).rect.width
                    == now[i].source.width && now[i].rect.height == now[i].source.height by {
                    if i < slots.len() {
                        assert(now[i] == slots[i]);
                    }
                }
            }
            assert forall|i: int| 0 <= i < self.pieces@.len() implies (#[trigger] self.pieces@[i]).wf() by {
                if i < before.len() {
                    assert(self.pieces@[i] == before[i]);
                }
            }
        }
        Ok(placement)
    }
}

/// The width that holds every placement of `slots` with its margin.
pub open spec fn reach_right(slots: Seq<Slot>, margin: int) -> int
    decreases slots.len(),
{
    if slots.len() == 0 {
        0
    } else {
        let rest = reach_right(slots.drop_last(), margin);
        let own = slots.last().rect.right() + margin;
        if own > rest {
            own
        } else {
            rest
        }
    }
}

/// The height that holds every placement of `slots` with its margin.
pub open spec fn reach_bottom(slots: Seq<Slot>, margin: int) -> int
    decreases slots.len(),
{
    if slots.len() == 0 {
        0
    } else {
        let rest = reach_bottom(slots.drop_last(), margin);
        let own = slots.last().rect.bottom() + margin;
        if own > rest {
            own
        } else {
            rest
        }
    }
}

/// Every placement lies, margin included, within the reach of all.
pub proof fn lemma_reach_holds_all(slots: Seq<Slot>, margin: int, i: int)
    requires
        0 <= i < slots.len(),
    ensures
        slots[i].rect.right() + margin <= reach_right(slots, margin),
        slots[i].rect.bottom() + margin <= reach_bottom(slots, margin),
    decreases slots.len(),
{
    if i < slots.len() - 1 {
        lemma_reach_holds_all(slots.drop_last(), margin, i);
    }
}

/// A finished atlas: the composite image and the placements in it.
#[derive(Clone, Debug)]
pub struct Atlas {
    pub width: u32,
    pub height: u32,
    pub pixels: Vec<u8>,
    pub placements: Vec<Placement>,
}

impl Packer {
    /// The atlas of all that has been placed: an image just large enough
    /// for every placement and its margin, which shows each placed image at
    /// its rectangle and is transparent elsewhere. Fails only where that
    /// image is too large for this machine.
    pub fn export(&self) -> (result: Result<Atlas, AssemblyError>)
        requires
            self.wf(),
        ensures
            result is Ok <==> byte_len(
                reach_right(self.slots(), self.config.border_padding as int),
                reach_bottom(self.slots(), self.config.border_padding as int),
            ) <= usize::MAX,
            result is Err ==> result->Err_0 == AssemblyError::TooLarge,
            result is Ok ==> {
                let atlas = result->Ok_0;
                &&& atlas.width == reach_right(self.slots(), self.config.border_padding as int)
                &&& atlas.height == reach_bottom(self.slots(), self.config.border_padding as int)
                &&& slots_in(atlas.placements@) == self.slots()
                &&& shows(atlas.pixels@, atlas.width as int, atlas.height as int, self.pieces@)
                &&& contained(
                    self.slots(),
                    self.config.border_padding as int,
                    atlas.width as int,
                    atlas.height as int,
                )
            },
    {
        let ghost slots = self.slots();
        let ghost margin = self.config.border_padding as int;
        let mut width: u32 = 0;
        let mut height: u32 = 0;
        let mut placements: Vec<Placement> = Vec::new();
        let mut k: usize = 0;
        while k < self.pieces.len()
            invariant
                k <= self.pieces.len(),
                self.wf(),
                slots == self.slots(),
                margin == self.config.border_padding as int,
                width == reach_right(slots.take(k as int), margin),
                height == reach_bottom(slots.take(k as int), margin),
                width <= self.config.max_width,
                height <= self.config.max_height,
                slots_in(placements@) == slots.take(k as int),
            decreases self.pieces.len() - k,
        {
            let placement = &self.pieces[k].placement;
            let rect = placement.rect;
            proof {
                assert(slots[k as int].rect == rect);
                assert(slots.take(k + 1).drop_last() =~= slots.take(k as int));
                assert(slots.take(k + 1).last() == slots[k as int]);
            }
            let right: u32 = rect.x + rect.width + self.config.border_padding;
            let bottom: u32 = rect.y + rect.height + self.config.border_padding;
            if right > width {
                width = right;
            }
            if bottom > height {
                height = bottom;
            }
            placements.push(
                Placement { name: placement.name.clone(), rect, source: placement.source },
            );
            proof {
                assert(slots_in(placements@) =~= slots.take(k + 1));
            }
            k += 1;
        }
        proof {
            assert(slots.take(k as int) =~= slots);
            assert forall|i: int| 0 <= i < self.pieces@.len() implies (#[trigger] self.pieces@[i]).placement.rect.within(
                width as int,
                height as int,
            ) by {
                lemma_reach_holds_all(slots, margin, i);
                assert(slots[i].rect == self.pieces@[i].placement.rect);
            }
            assert forall|i: int| 0 <= i < slots.len() implies {
                &&& (#[trigger] slots[i]).rect.within_padded(margin, width as int, height as int)
                &&& 1 <= slots[i].rect.width
                &&& 1 <= slots[i].rect.height
            } by {
                lemma_reach_holds_all(slots, margin, i);
            }
        }
        match composite(width, height, &self.pieces) {
            Ok(pixels) => Ok(Atlas { width, height, pixels, placements }),
            Err(_) => Err(AssemblyError::TooLarge),
        }
    }
}

} // verus!

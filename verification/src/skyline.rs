//! The boundary to the `texture_packer` crate, whose skyline packer chooses
//! where each rectangle goes. Nothing in this file is proved: every contract
//! here is taken on trust from that crate's source.

use texture_packer::texture::memory_rgba8_texture::MemoryRGBA8Texture;
use texture_packer::TexturePacker;
use texture_packer::TexturePackerConfig;
use vstd::prelude::*;

verus! {

/// The settings of a skyline packer, one field for each field of
/// `texture_packer::TexturePackerConfig`.
#[derive(Clone, Copy, Debug)]
pub struct SkylineSettings {
    pub max_width: u32,
    pub max_height: u32,
    pub allow_rotation: bool,
    pub force_max_dimensions: bool,
    pub border_padding: u32,
    pub texture_padding: u32,
    pub texture_extrusion: u32,
    pub trim: bool,
    pub texture_outlines: bool,
}

/// One texture that a packer took: its key, its width and its height.
pub type Taken = (Seq<char>, nat, nat);

#[verifier::external_type_specification]
#[verifier::external_body]
pub struct ExMemoryTexture(MemoryRGBA8Texture);

#[verifier::external_type_specification]
#[verifier::external_body]
#[verifier::reject_recursive_types(T)]
#[verifier::reject_recursive_types(K)]
pub struct ExTexturePacker<'a, T: 'a + Clone, K: Clone + Eq + std::hash::Hash>(TexturePacker<'a, T, K>);

/// The settings that a packer was made with.
pub uninterp spec fn packer_settings(packer: TexturePacker<'static, MemoryRGBA8Texture, String>) -> SkylineSettings;

/// The textures that a packer has taken so far, oldest first.
pub uninterp spec fn packer_taken(packer: TexturePacker<'static, MemoryRGBA8Texture, String>) -> Seq<Taken>;

/// Whether a packer with these settings, having taken `taken`, takes one
/// more texture of `width` by `height` pixels.
pub uninterp spec fn skyline_takes(settings: SkylineSettings, taken: Seq<Taken>, width: nat, height: nat) -> bool;

/// The frame `(x, y, w, h)` that a packer with these settings, having taken
/// `taken`, holds under `key`.
pub uninterp spec fn skyline_frame(settings: SkylineSettings, taken: Seq<Taken>, key: Seq<char>) -> Option<(u32, u32, u32, u32)>;

/// The inputs on which the arithmetic of the skyline search stays within
/// `u32` and none of its assertions can fail.
pub open spec fn skyline_safe(settings: SkylineSettings, width: nat, height: nat) -> bool {
    &&& !settings.allow_rotation
    &&& !settings.trim
    &&& 1 <= width
    &&& 1 <= height
    &&& 1 <= settings.max_width
    &&& 1 <= settings.max_height
    &&& width * height <= u32::MAX
    &&& settings.max_width + width + settings.texture_padding + 2 * settings.texture_extrusion
        + settings.border_padding <= u32::MAX
    &&& settings.max_height + height + settings.texture_padding + 2 * settings.texture_extrusion
        + settings.border_padding <= u32::MAX
}

/// `TexturePacker::new_skyline`: an empty packer that keeps the settings it
/// was given.
#[verifier::external_body]
pub(crate) fn new_skyline(settings: SkylineSettings) -> (packer: TexturePacker<'static, MemoryRGBA8Texture, String>)
    ensures
        packer_settings(packer) == settings,
        packer_taken(packer) == Seq::<Taken>::empty(),
{
    TexturePacker::new_skyline(TexturePackerConfig {
        max_width: settings.max_width,
        max_height: settings.max_height,
        allow_rotation: settings.allow_rotation,
        force_max_dimensions: settings.force_max_dimensions,
        border_padding: settings.border_padding,
        texture_padding: settings.texture_padding,
        texture_extrusion: settings.texture_extrusion,
        trim: settings.trim,
        texture_outlines: settings.texture_outlines,
    })
}

/// `TexturePacker::pack_own` on a texture that
/// `MemoryRGBA8Texture::from_memory` builds from `pixels`: with rotation and
/// trimming off, whether the packer takes the texture depends on its
/// settings, on what it took before and on the texture's size alone. A
/// packer that refuses is left as it was; one that accepts has taken one
/// texture more. Left out are the inputs on which the crate's `u32`
/// arithmetic could overflow or one of its assertions fail.
#[verifier::external_body]
pub(crate) fn pack_own(
    packer: &mut TexturePacker<'static, MemoryRGBA8Texture, String>,
    key: &String,
    width: u32,
    height: u32,
    pixels: &Vec<u8>,
) -> (taken: bool)
    requires
        pixels@.len() == 4 * (width * height),
        skyline_safe(packer_settings(*old(packer)), width as nat, height as nat),
    ensures
        taken == skyline_takes(
            packer_settings(*old(packer)),
            packer_taken(*old(packer)),
            width as nat,
            height as nat,
        ),
        packer_settings(*final(packer)) == packer_settings(*old(packer)),
        packer_taken(*final(packer)) == if taken {
            packer_taken(*old(packer)).push((key@, width as nat, height as nat))
        } else {
            packer_taken(*old(packer))
        },
{
    let texture = MemoryRGBA8Texture::from_memory(pixels.as_slice(), width, height);
    packer.pack_own(key.clone(), texture).is_ok()
}

/// `TexturePacker::get_frame`: the rectangle of the frame held under `key`,
/// which depends on the packer's settings and on what it has taken alone.
#[verifier::external_body]
pub(crate) fn get_frame(
    packer: &TexturePacker<'static, MemoryRGBA8Texture, String>,
    key: &String,
) -> (frame: Option<(u32, u32, u32, u32)>)
    ensures
        frame == skyline_frame(packer_settings(*packer), packer_taken(*packer), key@),
{
    packer.get_frame(key).map(|f| (f.frame.x, f.frame.y, f.frame.w, f.frame.h))
}

} // verus!

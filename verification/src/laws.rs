//! What holds of packing as a whole.

use crate::atlas::{lemma_round_trip, painted, shows};
use crate::batch::{layout, pieces_from};
use crate::config::PackConfig;
use crate::geometry::Rect;
use crate::manifest::{
    frames, items_of, lemma_frames_names, lemma_frames_value, lemma_sorted_names_differ, lists,
    sorted, Item, Manifest,
};
use crate::names::{lemma_name_not_before_itself, lemma_name_order_carries, name_before};
use crate::packer::placed_part;
use crate::placement::{contained, slots_of, tidy, PackError, Piece, Slot};
use crate::raster::channel;
use crate::source::{lemma_tight_box_unique, SourceImage};
use vstd::prelude::*;

verus! {

/// Two rectangles that keep a margin apart lie at least twice the margin
/// from one another, to the side or above and below.
pub proof fn lemma_margin_between(a: Rect, b: Rect, margin: int)
    requires
        !a.meets_padded(b, margin),
    ensures
        a.right() + 2 * margin <= b.x || b.right() + 2 * margin <= a.x || a.bottom() + 2 * margin
            <= b.y || b.bottom() + 2 * margin <= a.y,
{
}

/// In a layout that keeps the rules, no pixel belongs to two placements,
/// and none lies outside the configured area.
pub proof fn lemma_tidy_pixels(config: PackConfig, slots: Seq<Slot>, i: int, j: int, x: int, y: int)
    requires
        tidy(config, slots),
        0 <= i < slots.len(),
        0 <= j < slots.len(),
        i != j,
        slots[i].rect.covers(x, y),
    ensures
        !slots[j].rect.covers(x, y),
        0 <= x < config.max_width,
        0 <= y < config.max_height,
{
    if i < j {
        assert(!slots[i].rect.meets_padded(slots[j].rect, config.border_padding as int));
    } else {
        assert(!slots[j].rect.meets_padded(slots[i].rect, config.border_padding as int));
    }
}

/// Sorted items that stand for the same mapping are the same items in the
/// same order.
pub proof fn lemma_sorted_items_unique(a: Seq<Item>, b: Seq<Item>)
    requires
        sorted(a),
        sorted(b),
        frames(a) == frames(b),
    ensures
        a == b,
    decreases a.len(),
{
    if a.len() == 0 {
        if b.len() > 0 {
            lemma_frames_names(b, b.last().0);
            assert(b[b.len() - 1].0 == b.last().0);
        }
        assert(a =~= b);
    } else {
        let na = a.last().0;
        lemma_frames_names(a, na);
        lemma_frames_names(b, na);
        assert(a[a.len() - 1].0 == na);
        let j = choose|j: int| 0 <= j < b.len() && (#[trigger] b[j]).0 == na;
        let nb = b.last().0;
        lemma_frames_names(a, nb);
        lemma_frames_names(b, nb);
        assert(b[b.len() - 1].0 == nb);
        let i = choose|i: int| 0 <= i < a.len() && (#[trigger] a[i]).0 == nb;
        if na != nb {
            assert(name_before(b[j].0, b[b.len() - 1].0));
            assert(name_before(a[i].0, a[a.len() - 1].0));
            lemma_name_order_carries(na, nb, na);
            lemma_name_not_before_itself(na);
        }
        lemma_frames_value(a, a.len() - 1);
        lemma_frames_value(b, b.len() - 1);
        let ra = a.drop_last();
        let rb = b.drop_last();
        assert(sorted(ra)) by {
            assert forall|p: int, q: int| 0 <= p < q < ra.len() implies name_before(
                (#[trigger] ra[p]).0,
                (#[trigger] ra[q]).0,
            ) by {
                assert(ra[p] == a[p] && ra[q] == a[q]);
            }
        }
        assert(sorted(rb)) by {
            assert forall|p: int, q: int| 0 <= p < q < rb.len() implies name_before(
                (#[trigger] rb[p]).0,
                (#[trigger] rb[q]).0,
            ) by {
                assert(rb[p] == b[p] && rb[q] == b[q]);
            }
        }
        lemma_frames_names(ra, na);
        lemma_frames_names(rb, na);
        if lists(ra, na) {
            let k = choose|k: int| 0 <= k < ra.len() && (#[trigger] ra[k]).0 == na;
            lemma_sorted_names_differ(a, k, a.len() - 1);
        }
        if lists(rb, na) {
            let k = choose|k: int| 0 <= k < rb.len() && (#[trigger] rb[k]).0 == na;
            lemma_sorted_names_differ(b, k, b.len() - 1);
        }
        assert(frames(ra) =~= frames(a).remove(na));
        assert(frames(rb) =~= frames(b).remove(na));
        lemma_sorted_items_unique(ra, rb);
        assert(a =~= ra.push(a.last()));
        assert(b =~= rb.push(b.last()));
    }
}

/// Packing is determined by its input: the same images in the same order
/// under the same configuration give the same placements, and manifests of
/// the same placements have the same text.
pub proof fn lemma_same_input_same_output(
    config: PackConfig,
    images: Seq<SourceImage>,
    first: Seq<Slot>,
    second: Seq<Slot>,
    first_manifest: Manifest,
    second_manifest: Manifest,
)
    requires
        layout(config, images) == Ok::<Seq<Slot>, PackError>(first),
        layout(config, images) == Ok::<Seq<Slot>, PackError>(second),
        first_manifest.wf(),
        second_manifest.wf(),
        first_manifest@ == frames(items_of(first)),
        second_manifest@ == frames(items_of(second)),
    ensures
        first == second,
        first_manifest.items() == second_manifest.items(),
        first_manifest.text() == second_manifest.text(),
{
    lemma_sorted_items_unique(first_manifest.items(), second_manifest.items());
}

/// What is read back from the atlas at a placement's rectangle is the part
/// of the source image that was placed there, pixel by pixel.
pub proof fn lemma_atlas_shows_sources(
    config: PackConfig,
    images: Seq<SourceImage>,
    pieces: Seq<Piece>,
    pixels: Seq<u8>,
    width: int,
    height: int,
    i: int,
    x: int,
    y: int,
    c: int,
)
    requires
        tidy(config, slots_of(pieces)),
        pieces_from(pieces, images),
        contained(slots_of(pieces), config.border_padding as int, width, height),
        shows(pixels, width, height, pieces),
        0 <= i < pieces.len(),
        0 <= x < pieces[i].placement.rect.width,
        0 <= y < pieces[i].placement.rect.height,
        0 <= c < 4,
    ensures
        channel(
            pixels,
            width,
            pieces[i].placement.rect.x + x,
            pieces[i].placement.rect.y + y,
            c,
        ) == channel(
            images[i].pixels@,
            images[i].width as int,
            pieces[i].placement.source.x + x,
            pieces[i].placement.source.y + y,
            c,
        ),
{
    let slots = slots_of(pieces);
    let rect = pieces[i].placement.rect;
    let source = pieces[i].placement.source;
    let margin = config.border_padding as int;
    assert(slots[i].rect == rect && slots[i].source == source);
    assert forall|p: int, q: int| 0 <= p < q < pieces.len() implies !(#[trigger] pieces[p]).placement.rect.meets(
        (#[trigger] pieces[q]).placement.rect,
    ) by {
        assert(!slots[p].rect.meets_padded(slots[q].rect, margin));
    }
    lemma_round_trip(pieces, i, rect.x + x, rect.y + y, c);
    assert(channel(pixels, width, rect.x + x, rect.y + y, c) == painted(
        pieces,
        rect.x + x,
        rect.y + y,
        c,
    ));
    assert(images[i].copied(source, pieces[i].pixels@, x, y, c));
}

/// An image whose visible pixels stop `border` pixels short of every edge,
/// and reach that far on every side, is placed without that border when
/// trimming is on, and whole when it is off.
pub proof fn lemma_border_trimmed(config: PackConfig, image: SourceImage, border: int)
    requires
        0 <= border,
        2 * border < image.width,
        2 * border < image.height,
        forall|x: int, y: int| #[trigger]
            image.visible(x, y) ==> border <= x < image.width - border && border <= y
                < image.height - border,
        !image.column_clear(border),
        !image.column_clear(image.width - border - 1),
        !image.row_clear(border),
        !image.row_clear(image.height - border - 1),
    ensures
        config.trim ==> placed_part(config, image) == Some(
            Rect {
                x: border as u32,
                y: border as u32,
                width: (image.width - 2 * border) as u32,
                height: (image.height - 2 * border) as u32,
            },
        ),
        !config.trim ==> placed_part(config, image) == Some(image.full_box()),
{
    let inner = Rect {
        x: border as u32,
        y: border as u32,
        width: (image.width - 2 * border) as u32,
        height: (image.height - 2 * border) as u32,
    };
    assert(image.tight_box(inner));
    if config.trim {
        let x = choose|x: int| 0 <= x < image.width && image.visible(x, border);
        assert(image.visible(x, border));
        assert(!image.blank());
        let chosen = choose|area: Rect| image.tight_box(area);
        lemma_tight_box_unique(image, inner, chosen);
    }
}

} // verus!

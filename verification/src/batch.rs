//! Packing a whole batch of images, in the order given.

use crate::config::PackConfig;
use crate::packer::{pack_result, taken_after, Packer};
use crate::placement::{tidy, PackError, Piece, Slot};
use crate::skyline::Taken;
use crate::source::SourceImage;
use vstd::prelude::*;

verus! {

/// No two images of the batch share a name.
pub open spec fn names_distinct(images: Seq<SourceImage>) -> bool {
    forall|i: int, j: int|
        0 <= i < j < images.len() ==> (#[trigger] images[i]).name@ != (#[trigger] images[j]).name@
}

/// Every image of the batch holds the pixels that its size asks for.
pub open spec fn all_images_wf(images: Seq<SourceImage>) -> bool {
    forall|i: int| 0 <= i < images.len() ==> (#[trigger] images[i]).wf()
}

/// Where packing stands after the first `n` images of the batch: the
/// placements made and what the skyline search has taken, or the error of
/// the first image that could not be packed.
pub open spec fn batch(config: PackConfig, images: Seq<SourceImage>, n: nat) -> Result<
    (Seq<Slot>, Seq<Taken>),
    PackError,
>
    decreases n,
{
    if n == 0 {
        Ok((Seq::empty(), Seq::empty()))
    } else {
        match batch(config, images, (n - 1) as nat) {
            Err(e) => Err(e),
            Ok((slots, taken)) => match pack_result(config, slots, taken, images[n - 1]) {
                Err(e) => Err(e),
                Ok(slot) => Ok(
                    (slots.push(slot), taken_after(config, slots, taken, images[n - 1])),
                ),
            },
        }
    }
}

/// The placements of a whole batch, or why it cannot be packed. An
/// unusable configuration and a repeated name are found before anything is
/// packed; after that the first image that cannot be packed ends the run.
pub open spec fn layout(config: PackConfig, images: Seq<SourceImage>) -> Result<
    Seq<Slot>,
    PackError,
> {
    if !config.usable() {
        Err(PackError::UnusableConfig)
    } else if !names_distinct(images) {
        Err(PackError::DuplicateName)
    } else {
        match batch(config, images, images.len()) {
            Ok((slots, taken)) => Ok(slots),
            Err(e) => Err(e),
        }
    }
}

/// Each piece holds the pixels of the placed part of the image at the
/// same position in the batch.
pub open spec fn pieces_from(pieces: Seq<Piece>, images: Seq<SourceImage>) -> bool {
    &&& pieces.len() <= images.len()
    &&& forall|i: int|
        0 <= i < pieces.len() ==> (#[trigger] images[i]).cropped(
            pieces[i].placement.source,
            pieces[i].pixels@,
        )
}

/// Decides whether some name occurs twice in the batch.
pub fn has_duplicate_names(images: &Vec<SourceImage>) -> (repeated: bool)
    ensures
        repeated == !names_distinct(images@),
{
    let mut j: usize = 0;
    while j < images.len()
        invariant
            j <= images.len(),
            forall|a: int, b: int|
                0 <= a < b < j ==> (#[trigger] images@[a]).name@ != (#[trigger] images@[b]).name@,
        decreases images.len() - j,
    {
        let mut i: usize = 0;
        while i < j
            invariant
                i <= j < images.len(),
                forall|a: int| 0 <= a < i ==> (#[trigger] images@[a]).name@ != images@[j as int].name@,
            decreases j - i,
        {
            if images[i].name == images[j].name {
                assert(images@[i as int].name@ == images@[j as int].name@);
                return true;
            }
            i += 1;
        }
        j += 1;
    }
    false
}

/// Packs the images in the order given and returns the packer that holds
/// them all.
pub fn pack_all(config: PackConfig, images: &Vec<SourceImage>) -> (result: Result<Packer, PackError>)
    requires
        all_images_wf(images@),
    ensures
        match result {
            Ok(packer) => {
                &&& layout(config, images@) == Ok::<Seq<Slot>, PackError>(packer.slots())
                &&& packer.wf()
                &&& packer.config == config
                &&& tidy(config, packer.slots())
                &&& packer.pieces@.len() == images@.len()
                &&& pieces_from(packer.pieces@, images@)
            },
            Err(e) => layout(config, images@) == Err::<Seq<Slot>, PackError>(e),
        },
{
    let mut packer = match Packer::new(config) {
        Err(e) => {
            return Err(e);
        },
        Ok(packer) => packer,
    };
    if has_duplicate_names(images) {
        return Err(PackError::DuplicateName);
    }
    assert(packer.slots() =~= Seq::<Slot>::empty());
    let mut n: usize = 0;
    while n < images.len()
        invariant
            n <= images.len(),
            all_images_wf(images@),
            config.usable(),
            names_distinct(images@),
            packer.wf(),
            packer.config == config,
            packer.pieces@.len() == n,
            pieces_from(packer.pieces@, images@),
            batch(config, images@, n as nat) == Ok::<(Seq<Slot>, Seq<Taken>), PackError>(
                (packer.slots(), packer.taken()),
            ),
        decreases images.len() - n,
    {
        let ghost before = packer.pieces@;
        let ghost slots = packer.slots();
        match packer.pack(&images[n]) {
            Err(e) => {
                assert(batch(config, images@, (n + 1) as nat) is Err);
                proof {
                    lemma_batch_fails_on(config, images@, (n + 1) as nat, images@.len() as nat);
                }
                return Err(e);
            },
            Ok(placement) => {
                proof {
                    assert(packer.pieces@ =~= before.push(packer.pieces@.last()));
                    assert(packer.slots() =~= slots.push(placement@));
                    assert forall|i: int| 0 <= i < packer.pieces@.len() implies (#[trigger] images@[i]).cropped(
                        packer.pieces@[i].placement.source,
                        packer.pieces@[i].pixels@,
                    ) by {
                        if i < n {
                            assert(packer.pieces@[i] == before[i]);
                        }
                    }
                }
            },
        }
        n += 1;
    }
    Ok(packer)
}

/// Once an image of the batch could not be packed, the error stays.
pub proof fn lemma_batch_fails_on(config: PackConfig, images: Seq<SourceImage>, n: nat, m: nat)
    requires
        n <= m,
        batch(config, images, n) is Err,
    ensures
        batch(config, images, m) == batch(config, images, n),
    decreases m,
{
    if n < m {
        lemma_batch_fails_on(config, images, n, (m - 1) as nat);
    }
}

} // verus!

use splore::atlas::{blit, composite, copy_pixel, AssemblyError};
use splore::batch::pack_all;
use splore::config::PackConfig;
use splore::geometry::Rect;
use splore::packer::Packer;
use splore::placement::{Piece, Placement};
use splore::source::SourceImage;

fn piece(name: &str, x: u32, y: u32, width: u32, height: u32, fill: [u8; 4]) -> Piece {
    let mut pixels = Vec::new();
    for _ in 0..width * height {
        pixels.extend_from_slice(&fill);
    }
    Piece {
        placement: Placement {
            name: name.to_string(),
            rect: Rect::new(x, y, width, height),
            source: Rect::new(0, 0, width, height),
        },
        pixels,
    }
}

/// An image in which every pixel differs from every other.
fn gradient(name: &str, width: u32, height: u32) -> SourceImage {
    let mut pixels = Vec::new();
    for y in 0..height {
        for x in 0..width {
            pixels.extend_from_slice(&[x as u8, y as u8, (x * 7 + y) as u8, 255]);
        }
    }
    SourceImage::new(name.to_string(), width, height, pixels).unwrap()
}

fn pixel_at(pixels: &[u8], width: u32, x: u32, y: u32) -> [u8; 4] {
    let at = (4 * (y * width + x)) as usize;
    [pixels[at], pixels[at + 1], pixels[at + 2], pixels[at + 3]]
}

#[test]
fn composite_copies_each_piece_to_its_rectangle() {
    let pieces = vec![piece("r", 0, 0, 1, 2, [9, 8, 7, 6]), piece("g", 2, 1, 2, 1, [1, 2, 3, 4])];
    let out = composite(4, 2, &pieces).unwrap();
    let expected: Vec<u8> = vec![
        9, 8, 7, 6, 0, 0, 0, 0, 0, 0, 0, 0, 0, 0, 0, 0, //
        9, 8, 7, 6, 0, 0, 0, 0, 1, 2, 3, 4, 1, 2, 3, 4,
    ];
    assert_eq!(out, expected);
}

#[test]
fn composite_of_nothing_is_transparent() {
    let out = composite(3, 2, &Vec::new()).unwrap();
    assert_eq!(out, vec![0u8; 24]);
}

#[test]
fn composite_lets_the_later_piece_win() {
    let pieces = vec![piece("under", 0, 0, 2, 1, [1, 1, 1, 1]), piece("over", 1, 0, 1, 1, [2, 2, 2, 2])];
    let out = composite(2, 1, &pieces).unwrap();
    assert_eq!(out, vec![1, 1, 1, 1, 2, 2, 2, 2]);
}

#[test]
fn composite_refuses_a_rectangle_beyond_the_image() {
    let pieces = vec![piece("wide", 3, 0, 2, 1, [1, 1, 1, 1])];
    assert_eq!(composite(4, 2, &pieces), Err(AssemblyError::OutOfBounds));
    let pieces = vec![piece("tall", 0, 1, 1, 2, [1, 1, 1, 1])];
    assert_eq!(composite(4, 2, &pieces), Err(AssemblyError::OutOfBounds));
}

#[test]
fn copy_pixel_changes_one_pixel() {
    let mut buf = vec![0u8; 16];
    let from = vec![0, 0, 5, 6, 7, 8];
    copy_pixel(&mut buf, 2, 2, 1, 1, &from, 2);
    assert_eq!(buf, vec![0, 0, 0, 0, 0, 0, 0, 0, 0, 0, 0, 0, 5, 6, 7, 8]);
}

#[test]
fn blit_leaves_the_rest_alone() {
    let mut buf = vec![3u8; 24];
    blit(&mut buf, 3, 2, &piece("p", 1, 0, 1, 2, [7, 7, 7, 7]));
    let expected: Vec<u8> = vec![
        3, 3, 3, 3, 7, 7, 7, 7, 3, 3, 3, 3, //
        3, 3, 3, 3, 7, 7, 7, 7, 3, 3, 3, 3,
    ];
    assert_eq!(buf, expected);
}

#[test]
fn atlas_is_just_large_enough() {
    let config = PackConfig { border_padding: 3, ..PackConfig::default() };
    let images = vec![gradient("a", 16, 16), gradient("b", 16, 16)];
    let atlas = pack_all(config, &images).unwrap().export().unwrap();
    assert_eq!((atlas.width, atlas.height), (44, 22));
    assert_eq!(atlas.pixels.len(), 4 * 44 * 22);
    assert_eq!(atlas.placements.len(), 2);
}

#[test]
fn atlas_without_images_is_empty() {
    let atlas = Packer::new(PackConfig::default()).unwrap().export().unwrap();
    assert_eq!((atlas.width, atlas.height), (0, 0));
    assert!(atlas.pixels.is_empty());
    assert!(atlas.placements.is_empty());
}

#[test]
fn single_pixel_atlas() {
    let images = vec![gradient("dot", 1, 1)];
    let atlas = pack_all(PackConfig::default(), &images).unwrap().export().unwrap();
    assert!(atlas.width >= 1 && atlas.height >= 1);
    assert_eq!(atlas.placements.len(), 1);
    assert_eq!(atlas.placements[0].rect.width, 1);
    assert_eq!(atlas.placements[0].rect.height, 1);
}

#[test]
fn atlas_gives_back_every_source_pixel() {
    let config = PackConfig { border_padding: 2, ..PackConfig::default() };
    let images =
        vec![gradient("a", 5, 7), gradient("b", 9, 3), gradient("c", 1, 1), gradient("d", 12, 12)];
    let atlas = pack_all(config, &images).unwrap().export().unwrap();
    for (image, placement) in images.iter().zip(atlas.placements.iter()) {
        assert_eq!(placement.name, image.name);
        for y in 0..image.height {
            for x in 0..image.width {
                assert_eq!(
                    pixel_at(&atlas.pixels, atlas.width, placement.rect.x + x, placement.rect.y + y),
                    pixel_at(&image.pixels, image.width, x, y)
                );
            }
        }
    }
}

#[test]
fn atlas_gives_back_the_trimmed_part() {
    let mut image = gradient("t", 8, 6);
    for y in 0..6u32 {
        for x in 0..8u32 {
            if x < 2 || x >= 7 || y < 1 || y >= 4 {
                image.pixels[(4 * (y * 8 + x) + 3) as usize] = 0;
            }
        }
    }
    let config = PackConfig { trim: true, ..PackConfig::default() };
    let images = vec![image];
    let atlas = pack_all(config, &images).unwrap().export().unwrap();
    let placement = &atlas.placements[0];
    assert_eq!(placement.source, Rect::new(2, 1, 5, 3));
    assert_eq!(placement.rect, Rect::new(0, 0, 5, 3));
    assert_eq!((atlas.width, atlas.height), (5, 3));
    for y in 0..3 {
        for x in 0..5 {
            assert_eq!(
                pixel_at(&atlas.pixels, atlas.width, x, y),
                pixel_at(&images[0].pixels, 8, x + 2, y + 1)
            );
        }
    }
}

#[test]
fn padding_stays_transparent() {
    let config = PackConfig { border_padding: 1, ..PackConfig::default() };
    let images = vec![gradient("a", 2, 2)];
    let atlas = pack_all(config, &images).unwrap().export().unwrap();
    assert_eq!((atlas.width, atlas.height), (4, 4));
    for y in 0..4 {
        for x in 0..4 {
            let inside = (1..3).contains(&x) && (1..3).contains(&y);
            if !inside {
                assert_eq!(pixel_at(&atlas.pixels, 4, x, y), [0, 0, 0, 0]);
            }
        }
    }
}

#[test]
fn composite_refuses_an_image_beyond_the_machine() {
    assert_eq!(composite(u32::MAX, u32::MAX, &Vec::new()), Err(AssemblyError::TooLarge));
    let pieces = vec![piece("p", 0, 0, 1, 1, [1, 1, 1, 1])];
    assert_eq!(composite(u32::MAX, u32::MAX, &pieces), Err(AssemblyError::TooLarge));
    let pieces = vec![piece("p", u32::MAX, 0, 1, 1, [1, 1, 1, 1])];
    assert_eq!(composite(u32::MAX, u32::MAX, &pieces), Err(AssemblyError::OutOfBounds));
}

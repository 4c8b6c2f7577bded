use splore::batch::{has_duplicate_names, pack_all};
use splore::config::{PackConfig, MAX_ATLAS_SIDE};
use splore::geometry::Rect;
use splore::packer::{settle, Packer};
use splore::placement::{PackError, Piece, Placement};
use splore::source::SourceImage;

fn solid(name: &str, width: u32, height: u32) -> SourceImage {
    let pixels = vec![200u8; (4 * width * height) as usize];
    SourceImage::new(name.to_string(), width, height, pixels).unwrap()
}

fn placed(name: &str, x: u32, y: u32, width: u32, height: u32) -> Piece {
    Piece {
        placement: Placement {
            name: name.to_string(),
            rect: Rect::new(x, y, width, height),
            source: Rect::new(0, 0, width, height),
        },
        pixels: vec![0u8; (4 * width * height) as usize],
    }
}

fn rects(packer: &Packer) -> Vec<(String, Rect)> {
    packer.pieces.iter().map(|p| (p.placement.name.clone(), p.placement.rect)).collect()
}

#[test]
fn batch_keeps_the_order_given() {
    let images = vec![solid("a", 16, 16), solid("b", 16, 16)];
    let packer = pack_all(PackConfig::default(), &images).unwrap();
    assert_eq!(
        rects(&packer),
        vec![
            ("a".to_string(), Rect::new(0, 0, 16, 16)),
            ("b".to_string(), Rect::new(16, 0, 16, 16))
        ]
    );
}

#[test]
fn batch_without_images_is_empty() {
    let packer = pack_all(PackConfig::default(), &Vec::new()).unwrap();
    assert!(packer.pieces.is_empty());
}

#[test]
fn batch_too_large_for_the_area_fails() {
    let config = PackConfig { max_width: 8, ..PackConfig::default() };
    let images = vec![solid("big", 16, 16)];
    assert_eq!(pack_all(config, &images).err(), Some(PackError::OutOfSpace));
}

#[test]
fn batch_runs_out_of_space_when_full() {
    let config = PackConfig { max_width: 32, max_height: 16, ..PackConfig::default() };
    let images = vec![solid("a", 16, 16), solid("b", 16, 16), solid("c", 1, 1)];
    assert_eq!(pack_all(config, &images).err(), Some(PackError::OutOfSpace));
    let packer = pack_all(config, &images[..2].to_vec()).unwrap();
    assert_eq!(packer.pieces.len(), 2);
}

#[test]
fn repeated_name_is_found_before_packing() {
    let config = PackConfig { max_width: 8, ..PackConfig::default() };
    let images = vec![solid("big", 16, 16), solid("a", 2, 2), solid("a", 3, 3)];
    assert_eq!(pack_all(config, &images).err(), Some(PackError::DuplicateName));
}

#[test]
fn duplicate_names_are_detected() {
    assert!(!has_duplicate_names(&vec![solid("a", 1, 1), solid("b", 1, 1), solid("c", 1, 1)]));
    assert!(has_duplicate_names(&vec![solid("a", 1, 1), solid("b", 1, 1), solid("a", 1, 1)]));
    assert!(!has_duplicate_names(&Vec::new()));
}

#[test]
fn unusable_configurations_are_refused() {
    let images = vec![solid("a", 1, 1)];
    for config in [
        PackConfig { max_width: 0, ..PackConfig::default() },
        PackConfig { max_height: 0, ..PackConfig::default() },
        PackConfig { max_width: MAX_ATLAS_SIDE + 1, max_height: 1, ..PackConfig::default() },
        PackConfig { max_width: 1 << 16, max_height: 1 << 16, ..PackConfig::default() },
    ] {
        assert!(!config.is_usable());
        assert_eq!(pack_all(config, &images).err(), Some(PackError::UnusableConfig));
    }
    assert!(PackConfig { max_width: 65535, max_height: 65537, ..PackConfig::default() }.is_usable());
}

#[test]
fn default_configuration() {
    let config = PackConfig::default();
    assert_eq!(
        config,
        PackConfig {
            allow_rotation: false,
            border_padding: 0,
            trim: false,
            max_width: 1024,
            max_height: 1024
        }
    );
}

#[test]
fn rotation_is_never_used() {
    let config =
        PackConfig { allow_rotation: true, max_width: 20, max_height: 10, ..PackConfig::default() };
    let images = vec![solid("upright", 10, 20)];
    assert_eq!(pack_all(config, &images).err(), Some(PackError::OutOfSpace));
}

#[test]
fn image_without_pixels_is_empty() {
    let images = vec![SourceImage::new("none".to_string(), 0, 5, Vec::new()).unwrap()];
    assert_eq!(pack_all(PackConfig::default(), &images).err(), Some(PackError::EmptyImage));
    let trimming = PackConfig { trim: true, ..PackConfig::default() };
    assert_eq!(pack_all(trimming, &images).err(), Some(PackError::EmptyImage));
}

#[test]
fn padding_counts_against_the_area() {
    let config =
        PackConfig { border_padding: 2, max_width: 20, max_height: 20, ..PackConfig::default() };
    assert_eq!(pack_all(config, &vec![solid("a", 17, 16)]).err(), Some(PackError::OutOfSpace));
    let packer = pack_all(config, &vec![solid("a", 16, 16)]).unwrap();
    assert_eq!(packer.pieces[0].placement.rect, Rect::new(2, 2, 16, 16));
}

#[test]
fn placements_keep_apart_and_inside() {
    let config =
        PackConfig { border_padding: 3, max_width: 128, max_height: 128, ..PackConfig::default() };
    let mut images = Vec::new();
    for i in 0..24u32 {
        images.push(solid(&format!("image{}", i), 5 + (i * 7) % 19, 4 + (i * 5) % 13));
    }
    let packer = pack_all(config, &images).unwrap();
    assert_eq!(packer.pieces.len(), images.len());
    let placements: Vec<&Placement> = packer.pieces.iter().map(|p| &p.placement).collect();
    for (i, a) in placements.iter().enumerate() {
        assert_eq!((a.rect.width, a.rect.height), (images[i].width, images[i].height));
        assert!(a.rect.fits_padded(3, 128, 128));
        for b in placements.iter().skip(i + 1) {
            assert!(!a.rect.touches_padded(&b.rect, 3));
            let apart_x = a.rect.x + a.rect.width + 3 <= b.rect.x
                || b.rect.x + b.rect.width + 3 <= a.rect.x;
            let apart_y = a.rect.y + a.rect.height + 3 <= b.rect.y
                || b.rect.y + b.rect.height + 3 <= a.rect.y;
            assert!(apart_x || apart_y);
        }
    }
}

#[test]
fn same_input_gives_the_same_layout() {
    let config = PackConfig { border_padding: 1, trim: true, ..PackConfig::default() };
    let mut images = Vec::new();
    for i in 0..12u32 {
        images.push(solid(&format!("n{}", i), 3 + (i * 11) % 17, 2 + (i * 3) % 9));
    }
    let first = pack_all(config, &images).unwrap();
    let second = pack_all(config, &images).unwrap();
    assert_eq!(rects(&first), rects(&second));
    assert_eq!(first.export().unwrap().pixels, second.export().unwrap().pixels);
}

#[test]
fn proposed_frame_is_checked() {
    let config = PackConfig { border_padding: 1, max_width: 32, max_height: 32, ..PackConfig::default() };
    let earlier = vec![placed("a", 1, 1, 8, 8)];
    assert_eq!(settle(&config, &earlier, 4, 4, Some((11, 1, 4, 4))), Ok(Rect::new(11, 1, 4, 4)));
    assert_eq!(settle(&config, &earlier, 4, 4, None), Err(PackError::Misplaced));
    assert_eq!(settle(&config, &earlier, 4, 4, Some((11, 1, 4, 5))), Err(PackError::Misplaced));
    assert_eq!(settle(&config, &earlier, 4, 4, Some((10, 1, 4, 4))), Err(PackError::Misplaced));
    assert_eq!(settle(&config, &earlier, 4, 4, Some((11, 0, 4, 4))), Err(PackError::Misplaced));
    assert_eq!(settle(&config, &earlier, 4, 4, Some((28, 11, 4, 4))), Err(PackError::Misplaced));
    assert_eq!(settle(&config, &earlier, 4, 4, Some((27, 27, 4, 4))), Ok(Rect::new(27, 27, 4, 4)));
}

#[test]
fn part_to_place_follows_the_trim_setting() {
    let mut image = solid("i", 4, 4);
    for at in [3usize, 7, 11, 15, 19, 35, 51] {
        image.pixels[at] = 0;
    }
    let keeping = PackConfig::default();
    let trimming = PackConfig { trim: true, ..PackConfig::default() };
    assert_eq!(Packer::part_to_place(&keeping, &image), Some(Rect::new(0, 0, 4, 4)));
    assert_eq!(Packer::part_to_place(&trimming, &image), Some(Rect::new(1, 1, 3, 3)));
    let blank = SourceImage::new("b".to_string(), 2, 2, vec![0u8; 16]).unwrap();
    assert_eq!(Packer::part_to_place(&keeping, &blank), Some(Rect::new(0, 0, 2, 2)));
    assert_eq!(Packer::part_to_place(&trimming, &blank), None);
}

#[test]
fn names_in_use_are_found() {
    let earlier = vec![placed("a", 0, 0, 1, 1), placed("b", 1, 0, 1, 1)];
    assert!(splore::packer::has_name(&earlier, &"a".to_string()));
    assert!(splore::packer::has_name(&earlier, &"b".to_string()));
    assert!(!splore::packer::has_name(&earlier, &"c".to_string()));
    assert!(!splore::packer::has_name(&Vec::new(), &"a".to_string()));
}

#[test]
fn failed_pack_leaves_the_placements_alone() {
    let config = PackConfig { max_width: 10, max_height: 10, ..PackConfig::default() };
    let mut packer = Packer::new(config).unwrap();
    packer.pack(&solid("a", 6, 6)).unwrap();
    assert_eq!(packer.pack(&solid("b", 6, 6)).unwrap_err(), PackError::OutOfSpace);
    assert_eq!(packer.pack(&solid("c", 11, 1)).unwrap_err(), PackError::OutOfSpace);
    assert_eq!(rects(&packer), vec![("a".to_string(), Rect::new(0, 0, 6, 6))]);
    let c = packer.pack(&solid("c", 4, 10)).unwrap();
    assert_eq!(c.rect, Rect::new(6, 0, 4, 10));
}

use splore::geometry::Rect;
use splore::source::SourceImage;
use splore::tilemap::{get_index, OvergroundTile, Tile};

/// An image of `width` by `height` pixels in which the pixels listed are
/// visible and all others are not.
fn dotted(width: u32, height: u32, visible: &[(u32, u32)]) -> SourceImage {
    let mut pixels = vec![0u8; (4 * width * height) as usize];
    for &(x, y) in visible {
        let at = (4 * (y * width + x)) as usize;
        pixels[at] = x as u8;
        pixels[at + 1] = y as u8;
        pixels[at + 2] = 99;
        pixels[at + 3] = 1;
    }
    SourceImage::new("dotted".to_string(), width, height, pixels).unwrap()
}

#[test]
fn image_needs_four_bytes_for_each_pixel() {
    assert!(SourceImage::new("ok".to_string(), 2, 3, vec![0u8; 24]).is_some());
    assert!(SourceImage::new("short".to_string(), 2, 3, vec![0u8; 23]).is_none());
    assert!(SourceImage::new("long".to_string(), 2, 3, vec![0u8; 25]).is_none());
    assert!(SourceImage::new("none".to_string(), 0, 0, Vec::new()).is_some());
    assert!(SourceImage::new("flat".to_string(), 7, 0, Vec::new()).is_some());
    assert!(SourceImage::new("odd".to_string(), 1, 1, vec![0u8; 5]).is_none());
    let image = SourceImage::new("kept".to_string(), 1, 2, vec![1, 2, 3, 4, 5, 6, 7, 8]).unwrap();
    assert_eq!(image.name, "kept");
    assert_eq!((image.width, image.height), (1, 2));
    assert_eq!(image.pixels, vec![1, 2, 3, 4, 5, 6, 7, 8]);
}

#[test]
fn alpha_is_the_fourth_byte() {
    let image = SourceImage::new("i".to_string(), 2, 2, (0u8..16).collect()).unwrap();
    assert_eq!(image.alpha(0, 0), 3);
    assert_eq!(image.alpha(1, 0), 7);
    assert_eq!(image.alpha(0, 1), 11);
    assert_eq!(image.alpha(1, 1), 15);
}

#[test]
fn clear_rows_and_columns() {
    let image = dotted(4, 3, &[(1, 1), (2, 1)]);
    assert!(image.is_column_clear(0));
    assert!(!image.is_column_clear(1));
    assert!(!image.is_column_clear(2));
    assert!(image.is_column_clear(3));
    assert!(image.is_row_clear(0));
    assert!(!image.is_row_clear(1));
    assert!(image.is_row_clear(2));
}

#[test]
fn trim_bounds_hold_every_visible_pixel() {
    assert_eq!(dotted(6, 5, &[(1, 3), (4, 1)]).trim_bounds(), Some(Rect::new(1, 1, 4, 3)));
    assert_eq!(dotted(6, 5, &[(0, 0)]).trim_bounds(), Some(Rect::new(0, 0, 1, 1)));
    assert_eq!(dotted(6, 5, &[(5, 4)]).trim_bounds(), Some(Rect::new(5, 4, 1, 1)));
    assert_eq!(dotted(6, 5, &[(0, 0), (5, 4)]).trim_bounds(), Some(Rect::new(0, 0, 6, 5)));
    assert_eq!(dotted(6, 5, &[(2, 0), (2, 4)]).trim_bounds(), Some(Rect::new(2, 0, 1, 5)));
    assert_eq!(dotted(1, 1, &[(0, 0)]).trim_bounds(), Some(Rect::new(0, 0, 1, 1)));
}

#[test]
fn trim_bounds_of_a_blank_image() {
    assert_eq!(dotted(6, 5, &[]).trim_bounds(), None);
    assert_eq!(dotted(0, 0, &[]).trim_bounds(), None);
    assert_eq!(dotted(3, 0, &[]).trim_bounds(), None);
    assert_eq!(dotted(0, 3, &[]).trim_bounds(), None);
}

#[test]
fn trim_bounds_ignore_transparent_holes() {
    let image = dotted(5, 5, &[(1, 1), (3, 1), (1, 3), (3, 3)]);
    assert_eq!(image.trim_bounds(), Some(Rect::new(1, 1, 3, 3)));
}

#[test]
fn crop_takes_the_pixels_of_the_area() {
    let image = SourceImage::new("i".to_string(), 3, 2, (0u8..24).collect()).unwrap();
    assert_eq!(image.crop(&Rect::new(1, 0, 2, 1)), vec![4, 5, 6, 7, 8, 9, 10, 11]);
    assert_eq!(image.crop(&Rect::new(0, 1, 1, 1)), vec![12, 13, 14, 15]);
    assert_eq!(image.crop(&Rect::new(2, 0, 1, 2)), vec![8, 9, 10, 11, 20, 21, 22, 23]);
    assert_eq!(image.crop(&Rect::new(0, 0, 3, 2)), image.pixels);
    assert_eq!(image.crop(&Rect::new(1, 1, 0, 0)), Vec::<u8>::new());
}

#[test]
fn rectangles_with_margins() {
    let a = Rect::new(10, 10, 5, 5);
    assert!(a.fits_padded(0, 15, 15));
    assert!(!a.fits_padded(0, 14, 15));
    assert!(!a.fits_padded(0, 15, 14));
    assert!(a.fits_padded(10, 25, 25));
    assert!(!a.fits_padded(11, 100, 100));
    assert!(!a.fits_padded(10, 24, 25));
    assert!(!Rect::new(0, 0, 1, 1).fits_padded(4294967295, 4294967295, 4294967295));
    assert!(!a.touches_padded(&Rect::new(15, 10, 5, 5), 0));
    assert!(a.touches_padded(&Rect::new(14, 14, 5, 5), 0));
    assert!(a.touches_padded(&Rect::new(15, 10, 5, 5), 1));
    assert!(a.touches_padded(&Rect::new(20, 10, 5, 5), 3));
    assert!(!a.touches_padded(&Rect::new(21, 10, 5, 5), 3));
    assert!(!a.touches_padded(&Rect::new(10, 21, 5, 5), 3));
    assert!(a.touches_padded(&Rect::new(0, 0, 5, 5), 3));
    assert!(!a.touches_padded(&Rect::new(0, 0, 4, 4), 3));
    assert!(a.touches_padded(&a, 0));
}

#[test]
fn first_vertex_of_a_tile() {
    assert_eq!(get_index(0, 0, 10), 0);
    assert_eq!(get_index(1, 0, 10), 4);
    assert_eq!(get_index(1, 2, 10), 84);
    assert_eq!(get_index(9, 9, 10), 396);
    assert_eq!(get_index(3, 16383, 0), 12);
    assert_eq!(get_index(16383, 0, 0), 65532);
}

#[test]
fn overground_tiles() {
    assert_eq!(OvergroundTile::default(), OvergroundTile::Dirt);
    assert_eq!(OvergroundTile::Dirt.name(), "dirt");
    assert_eq!(OvergroundTile::Grass.name(), "grass");
}

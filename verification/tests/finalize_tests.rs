use hqs_core::{
    check_crop_bounds, crop_image_px, parse_crop_px, sniff_filetype, FileType, FinalizeError,
};
use image::GenericImageView;

#[test]
fn crop_within_bounds_produces_the_requested_size() {
    let base = image::DynamicImage::new_rgba8(1920, 1080);
    let cropped = crop_image_px(&base, 10, 10, 800, 600).unwrap();
    assert_eq!(cropped.dimensions(), (800, 600));
}

#[test]
fn crop_past_the_right_edge_is_out_of_bounds() {
    let base = image::DynamicImage::new_rgba8(1920, 1080);
    let err = crop_image_px(&base, 1900, 0, 100, 100).unwrap_err();
    assert_eq!(
        err,
        FinalizeError::CropOutOfBounds {
            image_width: 1920,
            image_height: 1080,
            x: 1900,
            y: 0,
            width: 100,
            height: 100,
        }
    );
}

#[test]
fn crop_with_zero_extent_is_rejected() {
    let base = image::DynamicImage::new_rgba8(32, 32);
    assert_eq!(crop_image_px(&base, 0, 0, 0, 10).unwrap_err(), FinalizeError::EmptyCrop);
    assert_eq!(crop_image_px(&base, 0, 0, 10, 0).unwrap_err(), FinalizeError::EmptyCrop);
}

#[test]
fn crop_overflowing_32_bits_is_rejected() {
    let base = image::DynamicImage::new_rgba8(32, 32);
    assert_eq!(
        crop_image_px(&base, u32::MAX, 0, 2, 2).unwrap_err(),
        FinalizeError::CropOverflow
    );
}

#[test]
fn crop_keeps_pixels_exactly() {
    let mut img = image::RgbaImage::new(8, 8);
    for (x, y, p) in img.enumerate_pixels_mut() {
        *p = image::Rgba([x as u8, y as u8, (x + y) as u8, 255]);
    }
    let base = image::DynamicImage::ImageRgba8(img);
    let cropped = crop_image_px(&base, 2, 3, 4, 4).unwrap().to_rgba8();
    for y in 0..4u32 {
        for x in 0..4u32 {
            assert_eq!(
                cropped.get_pixel(x, y),
                &image::Rgba([(x + 2) as u8, (y + 3) as u8, (x + y + 5) as u8, 255])
            );
        }
    }
}

#[test]
fn check_crop_bounds_is_exact_on_the_edges() {
    assert!(check_crop_bounds(1920, 1080, 0, 0, 1920, 1080).is_ok());
    assert!(check_crop_bounds(1920, 1080, 1919, 1079, 1, 1).is_ok());
    assert!(matches!(
        check_crop_bounds(1920, 1080, 1920, 0, 1, 1),
        Err(FinalizeError::CropOutOfBounds { .. })
    ));
    assert!(matches!(
        check_crop_bounds(1920, 1080, 0, 0, 1921, 1),
        Err(FinalizeError::CropOutOfBounds { .. })
    ));
}

#[test]
fn parse_crop_px_takes_exactly_four_integers() {
    assert_eq!(parse_crop_px(&vec![1, 2, 3, 4]).unwrap(), [1, 2, 3, 4]);
    assert_eq!(parse_crop_px(&vec![1, 2, 3]).unwrap_err(), FinalizeError::BadCropSpec);
    assert_eq!(parse_crop_px(&vec![1, 2, 3, 4, 5]).unwrap_err(), FinalizeError::BadCropSpec);
}

#[test]
fn extension_sniffing_matches_the_finalize_rules() {
    assert_eq!(sniff_filetype("shot.png"), FileType::Png);
    assert_eq!(sniff_filetype("shot.jpg"), FileType::Jpeg);
    assert_eq!(sniff_filetype("shot.JPeG"), FileType::Jpeg);
    assert_eq!(sniff_filetype("a/b/shot.ppm"), FileType::Ppm);
    assert_eq!(sniff_filetype("a/b/shot.PNM"), FileType::Ppm);
    assert_eq!(sniff_filetype("no_extension"), FileType::Png);
    assert_eq!(sniff_filetype(".hidden"), FileType::Png);
    assert_eq!(sniff_filetype("dir.d/file"), FileType::Png);
    assert_eq!(sniff_filetype("shot.webp"), FileType::Png);
    assert_eq!(sniff_filetype("trailing."), FileType::Png);
}

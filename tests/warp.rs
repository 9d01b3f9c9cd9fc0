use kornia_rs::image::{Image, ImageError, ImageSize};
use kornia_rs::interpolation::InterpolationMode;
use kornia_rs::warp::{warp_affine, AffineMatrix};

fn varied(width: usize, height: usize) -> Image {
    let data: Vec<u8> = (0..width * height * 3)
        .map(|i| ((i * 53 + 7) % 256) as u8)
        .collect();
    Image::new(ImageSize { width, height }, data).unwrap()
}

fn translation(tx: i32, ty: i32, scale: u32) -> AffineMatrix {
    AffineMatrix { m0: scale as i32, m1: 0, m2: tx, m3: 0, m4: scale as i32, m5: ty, scale }
}

#[test]
fn warp_identity_copies_interior_and_blanks_last_row_and_column() {
    let image = varied(4, 4);
    let size = ImageSize { width: 4, height: 4 };
    let out = warp_affine(&image, &translation(0, 0, 1), size, InterpolationMode::Bilinear).unwrap();
    for y in 0..4 {
        for x in 0..4 {
            for c in 0..3 {
                let expected = if x < 3 && y < 3 { image.get_pixel(x, y, c).unwrap() } else { 0 };
                assert_eq!(out.get_pixel(x, y, c), Some(expected));
            }
        }
    }
}

#[test]
fn warp_translation_outside_frame_is_all_zero() {
    let image = varied(4, 4);
    let size = ImageSize { width: 3, height: 2 };
    for m in [
        translation(10 * 256, 0, 256),
        translation(0, 4 * 256, 256),
        translation(-3 * 256, 0, 256),
        translation(0, -2 * 256, 256),
    ] {
        for mode in [InterpolationMode::Bilinear, InterpolationMode::Nearest] {
            let out = warp_affine(&image, &m, size, mode).unwrap();
            assert_eq!(out.image_size(), size);
            assert_eq!(out.as_slice(), &[0u8; 18][..]);
        }
    }
}

#[test]
fn warp_half_pixel_shift_averages_neighbours() {
    let image = Image::new(
        ImageSize { width: 3, height: 2 },
        vec![0, 0, 0, 100, 100, 100, 200, 200, 200, 0, 0, 0, 100, 100, 100, 200, 200, 200],
    )
    .unwrap();
    let m = translation(1, 0, 2);
    let out = warp_affine(&image, &m, ImageSize { width: 2, height: 1 }, InterpolationMode::Bilinear)
        .unwrap();
    assert_eq!(out.as_slice(), &[50, 50, 50, 150, 150, 150]);
}

#[test]
fn warp_nearest_picks_rounded_pixel() {
    let image = Image::new(
        ImageSize { width: 3, height: 2 },
        vec![0, 0, 0, 100, 100, 100, 200, 200, 200, 0, 0, 0, 100, 100, 100, 200, 200, 200],
    )
    .unwrap();
    let m = translation(1, 0, 4);
    let out = warp_affine(&image, &m, ImageSize { width: 2, height: 1 }, InterpolationMode::Nearest)
        .unwrap();
    assert_eq!(out.as_slice(), &[0, 0, 0, 100, 100, 100]);
}

#[test]
fn warp_rejects_zero_scale() {
    let image = varied(2, 2);
    let m = AffineMatrix { m0: 1, m1: 0, m2: 0, m3: 0, m4: 1, m5: 0, scale: 0 };
    let r = warp_affine(&image, &m, ImageSize { width: 2, height: 2 }, InterpolationMode::Bilinear);
    assert!(matches!(r, Err(ImageError::InvalidMatrix)));
}

#[test]
fn warp_rejects_zero_size() {
    let image = varied(2, 2);
    let r = warp_affine(&image, &translation(0, 0, 1), ImageSize { width: 0, height: 2 }, InterpolationMode::Bilinear);
    assert!(matches!(r, Err(ImageError::InvalidSize)));
}

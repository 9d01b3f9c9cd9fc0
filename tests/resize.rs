use kornia_rs::image::{Image, ImageError, ImageSize};
use kornia_rs::interpolation::InterpolationMode;
use kornia_rs::resize::{resize, resize_rows};
use kornia_rs::tensor::TensorError;

fn image_from(width: usize, height: usize, data: Vec<u8>) -> Image {
    Image::new(ImageSize { width, height }, data).unwrap()
}

fn varied(width: usize, height: usize) -> Image {
    let data: Vec<u8> = (0..width * height * 3)
        .map(|i| ((i * 97 + 13) % 256) as u8)
        .collect();
    image_from(width, height, data)
}

#[test]
fn resize_smoke() {
    let image = Image::from_shape_vec([4, 5, 3], vec![0; 4 * 5 * 3]).unwrap();
    let image_resized = resize(
        &image,
        ImageSize {
            width: 2,
            height: 3,
        },
        InterpolationMode::Bilinear,
    )
    .unwrap();
    assert_eq!(image_resized.num_channels(), 3);
    assert_eq!(image_resized.image_size().width, 2);
    assert_eq!(image_resized.image_size().height, 3);
}

#[test]
fn resize_to_own_size_is_identity() {
    let image = varied(5, 4);
    for mode in [InterpolationMode::Bilinear, InterpolationMode::Nearest] {
        let out = resize(&image, image.image_size(), mode).unwrap();
        assert_eq!(out.as_slice(), image.as_slice());
    }
}

#[test]
fn resize_one_pixel_image_to_own_size() {
    let image = image_from(1, 1, vec![9, 8, 7]);
    let out = resize(&image, ImageSize { width: 1, height: 1 }, InterpolationMode::Bilinear).unwrap();
    assert_eq!(out.as_slice(), &[9, 8, 7]);
}

#[test]
fn resize_constant_four_by_four_to_two_by_two() {
    let image = image_from(4, 4, vec![100; 4 * 4 * 3]);
    let out = resize(&image, ImageSize { width: 2, height: 2 }, InterpolationMode::Bilinear).unwrap();
    assert_eq!(out.image_size(), ImageSize { width: 2, height: 2 });
    assert_eq!(out.as_slice(), &[100u8; 12][..]);
}

#[test]
fn resize_constant_field_upscaled_stays_constant() {
    let image = image_from(3, 2, vec![217; 3 * 2 * 3]);
    let out = resize(&image, ImageSize { width: 7, height: 5 }, InterpolationMode::Bilinear).unwrap();
    assert!(out.as_slice().iter().all(|&v| v == 217));
    assert_eq!(out.as_slice().len(), 7 * 5 * 3);
}

#[test]
fn resize_bilinear_midpoint_values() {
    let image = image_from(2, 1, vec![0, 0, 0, 100, 200, 255]);
    let out = resize(&image, ImageSize { width: 3, height: 1 }, InterpolationMode::Bilinear).unwrap();
    assert_eq!(out.as_slice(), &[0, 0, 0, 50, 100, 127, 100, 200, 255]);
}

#[test]
fn resize_bilinear_truncates() {
    let image = image_from(2, 1, vec![0, 0, 0, 100, 100, 100]);
    let out = resize(&image, ImageSize { width: 4, height: 1 }, InterpolationMode::Bilinear).unwrap();
    assert_eq!(out.as_slice(), &[0, 0, 0, 33, 33, 33, 66, 66, 66, 100, 100, 100]);
}

#[test]
fn resize_upscale_keeps_corners_and_averages_between() {
    let image = image_from(
        2,
        2,
        vec![0, 0, 0, 40, 40, 40, 80, 80, 80, 120, 120, 120],
    );
    let out = resize(&image, ImageSize { width: 3, height: 3 }, InterpolationMode::Bilinear).unwrap();
    let firsts: Vec<u8> = out.as_slice().chunks(3).map(|p| p[0]).collect();
    assert_eq!(firsts, vec![0, 20, 40, 40, 60, 80, 80, 100, 120]);
    assert_eq!(out.get_pixel(2, 2, 1), Some(120));
}

#[test]
fn resize_nearest_rounds_halves_up() {
    let image = image_from(2, 1, vec![0, 0, 0, 100, 200, 255]);
    let out = resize(&image, ImageSize { width: 3, height: 1 }, InterpolationMode::Nearest).unwrap();
    assert_eq!(out.as_slice(), &[0, 0, 0, 100, 200, 255, 100, 200, 255]);
}

#[test]
fn resize_rows_bands_match_whole_resize() {
    let image = varied(7, 5);
    let size = ImageSize { width: 6, height: 4 };
    for mode in [InterpolationMode::Bilinear, InterpolationMode::Nearest] {
        let whole = resize(&image, size, mode).unwrap();
        let last = resize_rows(&image, size, mode, 3, 4);
        let middle = resize_rows(&image, size, mode, 1, 3);
        let first = resize_rows(&image, size, mode, 0, 1);
        let mut joined = first;
        joined.extend_from_slice(&middle);
        joined.extend_from_slice(&last);
        assert_eq!(joined.as_slice(), whole.as_slice());
        assert!(resize_rows(&image, size, mode, 2, 2).is_empty());
    }
}

#[test]
fn resize_rejects_zero_target() {
    let image = varied(2, 2);
    let r = resize(&image, ImageSize { width: 0, height: 2 }, InterpolationMode::Bilinear);
    assert!(matches!(r, Err(ImageError::InvalidSize)));
    let r = resize(&image, ImageSize { width: 2, height: 0 }, InterpolationMode::Nearest);
    assert!(matches!(r, Err(ImageError::InvalidSize)));
}

#[test]
fn resize_rejects_target_too_large() {
    let image = varied(2, 2);
    let r = resize(&image, ImageSize { width: usize::MAX, height: 2 }, InterpolationMode::Bilinear);
    assert!(matches!(r, Err(ImageError::InvalidSize)));
}

#[test]
fn image_new_rejects_wrong_length() {
    let r = Image::new(ImageSize { width: 2, height: 2 }, vec![0; 11]);
    assert!(matches!(r, Err(ImageError::Tensor(TensorError::ElementCountMismatch))));
    let r = Image::new(ImageSize { width: 0, height: 2 }, vec![]);
    assert!(matches!(r, Err(ImageError::Tensor(TensorError::ZeroExtent))));
}

#[test]
fn image_from_shape_vec_rejects_other_channel_count() {
    let r = Image::from_shape_vec([2, 2, 4], vec![0; 16]);
    assert!(matches!(r, Err(ImageError::InvalidChannelCount)));
}

#[test]
fn image_get_pixel_reads_row_major() {
    let image = varied(3, 2);
    let data = image.as_slice().to_vec();
    assert_eq!(image.get_pixel(2, 1, 0), Some(data[(1 * 3 + 2) * 3]));
    assert_eq!(image.get_pixel(1, 0, 2), Some(data[(0 * 3 + 1) * 3 + 2]));
    assert_eq!(image.get_pixel(3, 0, 0), None);
    assert_eq!(image.get_pixel(0, 2, 0), None);
    assert_eq!(image.get_pixel(0, 0, 3), None);
    assert_eq!(image.width(), 3);
    assert_eq!(image.height(), 2);
}

use raster_filters::structures::image::{ConstructionError, Image};
use raster_filters::structures::pixel::Pixel;
use raster_filters::structures::w_matrix::W_matrix;

fn two_by_two() -> Image {
    Image::new(vec![10, 40, 70, 100], vec![20, 50, 80, 110], vec![30, 60, 90, 120], 2, 2).unwrap()
}

#[test]
fn new_lays_the_channels_out_pixel_by_pixel() {
    let img = two_by_two();
    assert_eq!(img.width(), 2);
    assert_eq!(img.height(), 2);
    assert_eq!(
        img.pixels(),
        &vec![
            Pixel::new(10, 20, 30),
            Pixel::new(40, 50, 60),
            Pixel::new(70, 80, 90),
            Pixel::new(100, 110, 120),
        ]
    );
}

#[test]
fn new_keeps_width_and_height_apart() {
    let img = Image::new(vec![1, 2, 3, 4, 5, 6], vec![0; 6], vec![0; 6], 3, 2).unwrap();
    assert_eq!(img.width(), 3);
    assert_eq!(img.height(), 2);
    assert_eq!(img.pixels().len(), 6);
    assert_eq!(img.pixels()[4], Pixel::new(5, 0, 0));
}

#[test]
fn new_rejects_a_zero_dimension() {
    assert_eq!(
        Image::new(vec![], vec![], vec![], 0, 3).unwrap_err(),
        ConstructionError::ZeroDimension
    );
    assert_eq!(
        Image::new(vec![], vec![], vec![], 3, 0).unwrap_err(),
        ConstructionError::ZeroDimension
    );
    assert_eq!(
        Image::new(vec![1], vec![1], vec![1], 0, 0).unwrap_err(),
        ConstructionError::ZeroDimension
    );
}

#[test]
fn new_rejects_channels_of_unequal_length() {
    assert_eq!(
        Image::new(vec![1, 2], vec![1], vec![1, 2], 2, 1).unwrap_err(),
        ConstructionError::ChannelLengthMismatch
    );
    assert_eq!(
        Image::new(vec![1, 2], vec![1, 2], vec![1, 2, 3], 2, 1).unwrap_err(),
        ConstructionError::ChannelLengthMismatch
    );
    assert_eq!(
        Image::new(vec![1], vec![1, 2], vec![1, 2], 2, 1).unwrap_err(),
        ConstructionError::ChannelLengthMismatch
    );
}

#[test]
fn new_rejects_a_wrong_number_of_values() {
    assert_eq!(
        Image::new(vec![1, 2, 3], vec![1, 2, 3], vec![1, 2, 3], 2, 2).unwrap_err(),
        ConstructionError::PixelCountMismatch
    );
    assert_eq!(
        Image::new(vec![1; 5], vec![1; 5], vec![1; 5], 2, 2).unwrap_err(),
        ConstructionError::PixelCountMismatch
    );
}

#[test]
fn new_rejects_dimensions_whose_product_does_not_fit() {
    assert_eq!(
        Image::new(vec![1], vec![1], vec![1], usize::MAX, 2).unwrap_err(),
        ConstructionError::PixelCountMismatch
    );
}

#[test]
fn new_reports_a_zero_dimension_before_the_other_faults() {
    assert_eq!(
        Image::new(vec![1, 2], vec![1], vec![], 0, 2).unwrap_err(),
        ConstructionError::ZeroDimension
    );
    assert_eq!(
        Image::new(vec![1, 2, 3], vec![1], vec![1], 1, 1).unwrap_err(),
        ConstructionError::ChannelLengthMismatch
    );
}

#[test]
fn new_keeps_the_low_eight_bits_of_a_value() {
    let img = Image::new(vec![256, -1], vec![300, 255], vec![-256, 511], 2, 1).unwrap();
    assert_eq!(img.pixels(), &vec![Pixel::new(0, 44, 0), Pixel::new(255, 255, 255)]);
}

#[test]
fn to_vector_gives_back_the_channels() {
    let img = two_by_two();
    let (r, g, b) = Image::to_vector(&img);
    assert_eq!(r, vec![10, 40, 70, 100]);
    assert_eq!(g, vec![20, 50, 80, 110]);
    assert_eq!(b, vec![30, 60, 90, 120]);
}

#[test]
fn channels_survive_a_round_trip() {
    let img = Image::new(vec![0, 255, 7], vec![1, 2, 3], vec![255, 0, 128], 1, 3).unwrap();
    let (r, g, b) = Image::to_vector(&img);
    let again = Image::new(r, g, b, img.width(), img.height()).unwrap();
    assert_eq!(again.pixels(), img.pixels());
    assert_eq!(again.width(), 1);
    assert_eq!(again.height(), 3);
}

#[test]
fn invert_end_to_end() {
    let mut img = two_by_two();
    img.invert();
    assert_eq!(
        img.pixels(),
        &vec![
            Pixel::new(245, 235, 225),
            Pixel::new(215, 205, 195),
            Pixel::new(185, 175, 165),
            Pixel::new(155, 145, 135),
        ]
    );
    let (r, g, b) = Image::to_vector(&img);
    assert_eq!(r, vec![245, 215, 185, 155]);
    assert_eq!(g, vec![235, 205, 175, 145]);
    assert_eq!(b, vec![225, 195, 165, 135]);
}

#[test]
fn invert_twice_restores_the_image() {
    let mut img = two_by_two();
    img.invert();
    img.invert();
    assert_eq!(img.pixels(), two_by_two().pixels());
}

#[test]
fn grayscale_reduces_every_pixel() {
    let mut img = two_by_two();
    img.grayscale();
    // 3 + 6 + 10, 13 + 16 + 20, 23 + 26 + 30, 33 + 36 + 40
    assert_eq!(
        img.pixels(),
        &vec![
            Pixel::new(19, 19, 19),
            Pixel::new(49, 49, 49),
            Pixel::new(79, 79, 79),
            Pixel::new(109, 109, 109),
        ]
    );
}

#[test]
fn transforms_keep_one_pixel_per_position() {
    let mut img = Image::new(vec![9; 12], vec![8; 12], vec![7; 12], 4, 3).unwrap();
    img.invert();
    assert_eq!((img.width(), img.height(), img.pixels().len()), (4, 3, 12));
    img.grayscale();
    assert_eq!((img.width(), img.height(), img.pixels().len()), (4, 3, 12));
    img.gaussian_blur(&W_matrix::default_blur());
    assert_eq!((img.width(), img.height(), img.pixels().len()), (4, 3, 12));
    img.gaussian_blur(&W_matrix::new(vec![1; 9], 3).unwrap());
    assert_eq!((img.width(), img.height(), img.pixels().len()), (4, 3, 12));
    assert_eq!(img.pixels().len(), img.width() * img.height());
}

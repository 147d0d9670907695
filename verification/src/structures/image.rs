//! A raster image: a row-major buffer of pixels with its dimensions.

use crate::convolution::{
    blurred_pixel, lemma_blurred_channel_bounds, lemma_cell_offsets, lemma_weighted_sum_bounds,
    source_index, weighted_sum,
};
use crate::structures::pixel::{Channel, Pixel};
use crate::structures::w_matrix::{lemma_weight_sum_monotonic, KernelView, W_matrix};
use libc::c_int;
use vstd::prelude::*;

verus! {

/// The mathematical model of an image: its dimensions and its pixels, row by
/// row.
pub struct ImageView {
    /// The number of pixels in a row.
    pub width: nat,
    /// The number of rows.
    pub height: nat,
    /// The pixels in row-major order.
    pub pixels: Seq<Pixel>,
}

impl ImageView {
    /// An image has at least one pixel, and exactly one pixel per position.
    pub open spec fn wf(self) -> bool {
        &&& self.width > 0
        &&& self.height > 0
        &&& self.pixels.len() == self.width * self.height
    }

    /// The row of the pixel with index `i`.
    pub open spec fn row_of(self, i: int) -> int {
        i / (self.width as int)
    }

    /// The column of the pixel with index `i`.
    pub open spec fn col_of(self, i: int) -> int {
        i % (self.width as int)
    }

    /// The image with every pixel inverted.
    pub open spec fn inverted(self) -> ImageView {
        ImageView { pixels: self.pixels.map_values(|p: Pixel| p.inverted()), ..self }
    }

    /// The image with every pixel reduced to its gray level.
    pub open spec fn grayed(self) -> ImageView {
        ImageView { pixels: self.pixels.map_values(|p: Pixel| p.grayed()), ..self }
    }

    /// The image blurred with `kernel`: every pixel is computed from the
    /// pixels of `self`, none from an already blurred one.
    pub open spec fn blurred(self, kernel: KernelView) -> ImageView {
        ImageView {
            pixels: Seq::new(self.pixels.len(), |ci: int| blurred_pixel(self, kernel, ci)),
            ..self
        }
    }
}

/// Why three channel sequences and two dimensions make no image.
#[derive(Clone, Copy, Debug, PartialEq, Eq, Structural)]
pub enum ConstructionError {
    /// The width or the height is zero.
    ZeroDimension,
    /// The three channel sequences differ in length.
    ChannelLengthMismatch,
    /// The channel sequences do not hold one value per position.
    PixelCountMismatch,
}

/// The reason for which channel sequences of the given lengths are rejected
/// for the given dimensions, if they are.  A zero dimension is reported
/// first, then sequences of unequal lengths, then a wrong number of values.
pub open spec fn construction_error(
    red_len: nat,
    green_len: nat,
    blue_len: nat,
    width: nat,
    height: nat,
) -> Option<ConstructionError> {
    if width == 0 || height == 0 {
        Some(ConstructionError::ZeroDimension)
    } else if red_len != green_len || green_len != blue_len {
        Some(ConstructionError::ChannelLengthMismatch)
    } else if red_len != width * height {
        Some(ConstructionError::PixelCountMismatch)
    } else {
        None
    }
}

/// The channel intensity that a number from a channel sequence stands for:
/// the number itself from 0 to 255, and its remainder modulo 256 otherwise.
pub open spec fn channel_value(v: c_int) -> u8 {
    ((v as int) % 256) as u8
}

/// The pixels that three channel sequences of one length stand for.
pub open spec fn pixels_of_channels(red: Seq<c_int>, green: Seq<c_int>, blue: Seq<c_int>) -> Seq<
    Pixel,
> {
    Seq::new(
        red.len(),
        |i: int|
            Pixel {
                r: channel_value(red[i]),
                g: channel_value(green[i]),
                b: channel_value(blue[i]),
            },
    )
}

/// Every transform keeps the dimensions of an image, and with them the
/// number of its pixels: one per position, before and after.
pub proof fn lemma_transforms_keep_dimensions(img: ImageView, kernel: KernelView)
    requires
        img.wf(),
    ensures
        img.inverted().wf(),
        img.grayed().wf(),
        img.blurred(kernel).wf(),
        img.inverted().width == img.width && img.inverted().height == img.height,
        img.grayed().width == img.width && img.grayed().height == img.height,
        img.blurred(kernel).width == img.width && img.blurred(kernel).height == img.height,
{
}

/// Inverting an image twice gives the image back.
pub proof fn lemma_invert_image_involution(img: ImageView)
    ensures
        img.inverted().inverted() == img,
{
    assert(img.inverted().inverted().pixels =~= img.pixels);
}

/// Splitting pixels into channel sequences and putting them together again
/// gives the same pixels.
pub proof fn lemma_channels_round_trip(pixels: Seq<Pixel>)
    ensures
        pixels_of_channels(
            pixels.map_values(|p: Pixel| p.r as c_int),
            pixels.map_values(|p: Pixel| p.g as c_int),
            pixels.map_values(|p: Pixel| p.b as c_int),
        ) == pixels,
{
    assert(pixels_of_channels(
        pixels.map_values(|p: Pixel| p.r as c_int),
        pixels.map_values(|p: Pixel| p.g as c_int),
        pixels.map_values(|p: Pixel| p.b as c_int),
    ) =~= pixels);
}

/// A raster image of at least one pixel.
#[derive(Debug)]
pub struct Image {
    pixels: Vec<Pixel>,
    height: usize,
    width: usize,
}

impl View for Image {
    type V = ImageView;

    closed spec fn view(&self) -> ImageView {
        ImageView {
            width: self.width as nat,
            height: self.height as nat,
            pixels: self.pixels@,
        }
    }
}

/// Keeps the low eight bits of a number from a channel sequence.
fn truncate_channel(v: c_int) -> (c: u8)
    ensures
        c == channel_value(v),
{
    assert((v as u8) == (v as int) % 256) by (bit_vector);
    #[verifier::truncate]
    (v as u8)
}

impl Image {
    /// Every image that exists has one pixel per position.
    #[verifier::type_invariant]
    pub open spec fn well_formed(&self) -> bool {
        self@.wf()
    }

    /// Builds an image of the given dimensions from one sequence per
    /// channel, each with one value per pixel in row-major order.  Fails if
    /// a dimension is zero, if the sequences differ in length, or if their
    /// length is not `width * height`.
    pub fn new(
        vec_r: Vec<c_int>,
        vec_g: Vec<c_int>,
        vec_b: Vec<c_int>,
        width: usize,
        height: usize,
    ) -> (res: Result<Image, ConstructionError>)
        ensures
            match res {
                Ok(image) => {
                    &&& image@.wf()
                    &&& construction_error(
                        vec_r@.len(),
                        vec_g@.len(),
                        vec_b@.len(),
                        width as nat,
                        height as nat,
                    ) is None
                    &&& image@ == (ImageView {
                        width: width as nat,
                        height: height as nat,
                        pixels: pixels_of_channels(vec_r@, vec_g@, vec_b@),
                    })
                },
                Err(e) => construction_error(
                    vec_r@.len(),
                    vec_g@.len(),
                    vec_b@.len(),
                    width as nat,
                    height as nat,
                ) == Some(e),
            },
    {
        if width == 0 || height == 0 {
            return Err(ConstructionError::ZeroDimension);
        }
        if vec_r.len() != vec_g.len() || vec_g.len() != vec_b.len() {
            return Err(ConstructionError::ChannelLengthMismatch);
        }
        let size: usize = match width.checked_mul(height) {
            Some(size) => size,
            None => {
                return Err(ConstructionError::PixelCountMismatch);
            },
        };
        if vec_r.len() != size {
            return Err(ConstructionError::PixelCountMismatch);
        }
        let mut vec_pixel: Vec<Pixel> = Vec::new();
        let mut i: usize = 0;
        while i < size
            invariant
                i <= size,
                size == vec_r@.len(),
                size == vec_g@.len(),
                size == vec_b@.len(),
                vec_pixel@.len() == i,
                forall|k: int|
                    0 <= k < i ==> vec_pixel@[k] == pixels_of_channels(vec_r@, vec_g@, vec_b@)[k],
            decreases size - i,
        {
            vec_pixel.push(
                Pixel::new(
                    truncate_channel(vec_r[i]),
                    truncate_channel(vec_g[i]),
                    truncate_channel(vec_b[i]),
                ),
            );
            i += 1;
        }
        assert(vec_pixel@ =~= pixels_of_channels(vec_r@, vec_g@, vec_b@));
        Ok(Image { pixels: vec_pixel, height: height, width: width })
    }

    /// Splits the image into one sequence per channel, each with one value
    /// per pixel in row-major order.
    pub fn to_vector(image: &Image) -> (channels: (Vec<c_int>, Vec<c_int>, Vec<c_int>))
        ensures
            channels.0@ == image@.pixels.map_values(|p: Pixel| p.r as c_int),
            channels.1@ == image@.pixels.map_values(|p: Pixel| p.g as c_int),
            channels.2@ == image@.pixels.map_values(|p: Pixel| p.b as c_int),
    {
        let mut r: Vec<c_int> = Vec::new();
        let mut g: Vec<c_int> = Vec::new();
        let mut b: Vec<c_int> = Vec::new();
        let count: usize = image.pixels.len();
        let mut i: usize = 0;
        while i < count
            invariant
                i <= count,
                count == image@.pixels.len(),
                r@.len() == i,
                g@.len() == i,
                b@.len() == i,
                forall|k: int| 0 <= k < i ==> r@[k] == image@.pixels[k].r as c_int,
                forall|k: int| 0 <= k < i ==> g@[k] == image@.pixels[k].g as c_int,
                forall|k: int| 0 <= k < i ==> b@[k] == image@.pixels[k].b as c_int,
            decreases count - i,
        {
            let pixel = image.pixels[i];
            r.push(pixel.r as c_int);
            g.push(pixel.g as c_int);
            b.push(pixel.b as c_int);
            i += 1;
        }
        assert(r@ =~= image@.pixels.map_values(|p: Pixel| p.r as c_int));
        assert(g@ =~= image@.pixels.map_values(|p: Pixel| p.g as c_int));
        assert(b@ =~= image@.pixels.map_values(|p: Pixel| p.b as c_int));
        (r, g, b)
    }

    /// The number of pixels in a row.
    pub fn width(&self) -> (w: usize)
        ensures
            w == self@.width,
    {
        self.width
    }

    /// The number of rows.
    pub fn height(&self) -> (h: usize)
        ensures
            h == self@.height,
    {
        self.height
    }

    /// The pixels in row-major order.
    pub fn pixels(&self) -> (p: &Vec<Pixel>)
        ensures
            p@ == self@.pixels,
    {
        &self.pixels
    }

    /// Inverts every pixel of the image.
    pub fn invert(&mut self)
        ensures
            final(self)@ == old(self)@.inverted(),
            final(self)@.wf(),
    {
        proof {
            use_type_invariant(&*self);
        }
        let ghost before = self@;
        let count: usize = self.pixels.len();
        let mut i: usize = 0;
        while i < count
            invariant
                i <= count,
                count == before.pixels.len(),
                self@.width == before.width,
                self@.height == before.height,
                self@.pixels.len() == before.pixels.len(),
                before.wf(),
                forall|k: int| 0 <= k < i ==> self@.pixels[k] == before.pixels[k].inverted(),
                forall|k: int| i <= k < count ==> self@.pixels[k] == before.pixels[k],
            decreases count - i,
        {
            let mut pixel = self.pixels[i];
            pixel.invert();
            self.pixels[i] = pixel;
            i += 1;
        }
        assert(self@.pixels =~= before.inverted().pixels);
    }

    /// Reduces every pixel of the image to its gray level.
    pub fn grayscale(&mut self)
        ensures
            final(self)@ == old(self)@.grayed(),
            final(self)@.wf(),
    {
        proof {
            use_type_invariant(&*self);
        }
        let ghost before = self@;
        let count: usize = self.pixels.len();
        let mut i: usize = 0;
        while i < count
            invariant
                i <= count,
                count == before.pixels.len(),
                self@.width == before.width,
                self@.height == before.height,
                self@.pixels.len() == before.pixels.len(),
                before.wf(),
                forall|k: int| 0 <= k < i ==> self@.pixels[k] == before.pixels[k].grayed(),
                forall|k: int| i <= k < count ==> self@.pixels[k] == before.pixels[k],
            decreases count - i,
        {
            let mut pixel = self.pixels[i];
            pixel.grayscale();
            self.pixels[i] = pixel;
            i += 1;
        }
        assert(self@.pixels =~= before.grayed().pixels);
    }

    /// Blurs the image with `matrix`.  Every output pixel is the weighted
    /// sum of the pixels under the kernel, taken from the image as it was
    /// before the call, divided by the total weight of the kernel.
    pub fn gaussian_blur(&mut self, matrix: &W_matrix)
        ensures
            final(self)@ == old(self)@.blurred(matrix@),
            final(self)@.wf(),
    {
        proof {
            use_type_invariant(&*self);
        }
        let ghost before = self@;
        let clean_cloned_pixels = self.pixels.clone();
        let total_weight: u128 = matrix.get_total_weight();
        let height: usize = self.height;
        let width: usize = self.width;
        let count: usize = clean_cloned_pixels.len();
        let mut i: usize = 0;
        while i < height
            invariant
                i <= height,
                before.wf(),
                width == before.width,
                height == before.height,
                count == width * height,
                clean_cloned_pixels@ == before.pixels,
                total_weight == matrix@.total_weight(),
                self@.width == before.width,
                self@.height == before.height,
                self@.pixels.len() == count,
                forall|k: int|
                    0 <= k < count && k < i * width ==> self@.pixels[k] == blurred_pixel(
                        before,
                        matrix@,
                        k,
                    ),
                forall|k: int| i * width <= k < count ==> self@.pixels[k] == before.pixels[k],
            decreases height - i,
        {
            let mut j: usize = 0;
            while j < width
                invariant
                    i < height,
                    j <= width,
                    before.wf(),
                    width == before.width,
                    height == before.height,
                    count == width * height,
                    clean_cloned_pixels@ == before.pixels,
                    total_weight == matrix@.total_weight(),
                    self@.width == before.width,
                    self@.height == before.height,
                    self@.pixels.len() == count,
                    forall|k: int|
                        0 <= k < count && k < i * width + j ==> self@.pixels[k] == blurred_pixel(
                            before,
                            matrix@,
                            k,
                        ),
                    forall|k: int|
                        i * width + j <= k < count ==> self@.pixels[k] == before.pixels[k],
                decreases width - j,
            {
                assert(0 <= i * width && i * width + j < width * height) by (nonlinear_arith)
                    requires
                        0 <= i < height,
                        0 <= j < width,
                ;
                let current_index: usize = i * width + j;
                assert(ImageView { pixels: clean_cloned_pixels@, ..self@ } == before);
                self.apply_matrix_on_pixel(
                    current_index,
                    &clean_cloned_pixels,
                    matrix,
                    total_weight,
                );
                j += 1;
            }
            assert((i + 1) * width == i * width + width) by (nonlinear_arith);
            i += 1;
        }
        assert(self@.pixels =~= before.blurred(matrix@).pixels);
    }

    /// Replaces the pixel at `ci` by its blurred value, computed from the
    /// pixels in `cloned_image`, which stand for the image before the blur.
    fn apply_matrix_on_pixel(
        &mut self,
        ci: usize,
        cloned_image: &Vec<Pixel>,
        matrix: &W_matrix,
        total_weight: u128,
    )
        requires
            ci < cloned_image@.len(),
            cloned_image@.len() == old(self)@.pixels.len(),
            total_weight == matrix@.total_weight(),
        ensures
            final(self)@ == (ImageView {
                pixels: old(self)@.pixels.update(
                    ci as int,
                    blurred_pixel(
                        ImageView { pixels: cloned_image@, ..old(self)@ },
                        matrix@,
                        ci as int,
                    ),
                ),
                ..old(self)@
            }),
    {
        proof {
            use_type_invariant(&*self);
            use_type_invariant(matrix);
        }
        let ghost src = ImageView { pixels: cloned_image@, ..self@ };
        let ghost kernel = matrix@;
        let width: usize = self.width;
        let weights = matrix.weight();
        let size: usize = matrix.size();
        let mut blur_r: u128 = 0;
        let mut blur_g: u128 = 0;
        let mut blur_b: u128 = 0;
        let current_row: usize = ci / width;
        let image_size: usize = cloned_image.len();
        let mut matrix_index: usize = 0;

        let half_matrix_size: i128 = (size / 2) as i128;
        let neg_half_matrix_size: i128 = half_matrix_size - size as i128 + 1;
        let cells: usize = weights.len();
        assert(size < 0x1_0000_0000) by (nonlinear_arith)
            requires
                size * size == cells,
                cells <= 0xffff_ffff_ffff_ffff,
        ;

        let mut width_counter: i128 = neg_half_matrix_size;
        assert((width_counter + half_matrix_size) * size == 0) by (nonlinear_arith)
            requires
                width_counter + half_matrix_size == 0,
        ;
        while width_counter < half_matrix_size + 1
            invariant
                src.wf(),
                src.width == width,
                src.pixels == cloned_image@,
                image_size == cloned_image@.len(),
                kernel == matrix@,
                kernel.wf(),
                weights@ == kernel.weights,
                size == kernel.size,
                size < 0x1_0000_0000,
                cells == size * size,
                half_matrix_size == kernel.half(),
                neg_half_matrix_size == -half_matrix_size,
                ci < image_size,
                current_row == ci / width,
                neg_half_matrix_size <= width_counter <= half_matrix_size + 1,
                matrix_index == (width_counter + half_matrix_size) * size,
                blur_r == weighted_sum(src, kernel, ci as int, Channel::Red, matrix_index as nat),
                blur_g == weighted_sum(src, kernel, ci as int, Channel::Green, matrix_index as nat),
                blur_b == weighted_sum(src, kernel, ci as int, Channel::Blue, matrix_index as nat),
            decreases half_matrix_size + 1 - width_counter,
        {
            let mut j: i128 = neg_half_matrix_size;
            while j < half_matrix_size + 1
                invariant
                    src.wf(),
                    src.width == width,
                    src.pixels == cloned_image@,
                    image_size == cloned_image@.len(),
                    kernel == matrix@,
                    kernel.wf(),
                    weights@ == kernel.weights,
                    size == kernel.size,
                    size < 0x1_0000_0000,
                    cells == size * size,
                    half_matrix_size == kernel.half(),
                    neg_half_matrix_size == -half_matrix_size,
                    ci < image_size,
                    current_row == ci / width,
                    neg_half_matrix_size <= width_counter <= half_matrix_size,
                    neg_half_matrix_size <= j <= half_matrix_size + 1,
                    matrix_index == (width_counter + half_matrix_size) * size + (j
                        + half_matrix_size),
                    blur_r == weighted_sum(
                        src,
                        kernel,
                        ci as int,
                        Channel::Red,
                        matrix_index as nat,
                    ),
                    blur_g == weighted_sum(
                        src,
                        kernel,
                        ci as int,
                        Channel::Green,
                        matrix_index as nat,
                    ),
                    blur_b == weighted_sum(
                        src,
                        kernel,
                        ci as int,
                        Channel::Blue,
                        matrix_index as nat,
                    ),
                decreases half_matrix_size + 1 - j,
            {
                proof {
                    let row: int = width_counter + half_matrix_size;
                    let col: int = j + half_matrix_size;
                    lemma_cell_offsets(kernel, row, col);
                    assert(row * size + col < size * size) by (nonlinear_arith)
                        requires
                            0 <= row < size,
                            0 <= col < size,
                    ;
                    assert(-0x1_0000_0000_0000_0000_0000_0000 < width_counter * width
                        < 0x1_0000_0000_0000_0000_0000_0000) by (nonlinear_arith)
                        requires
                            -0x1_0000_0000 < width_counter < 0x1_0000_0000,
                            0 <= width < 0x1_0000_0000_0000_0000,
                    ;
                    lemma_weighted_sum_bounds(
                        src,
                        kernel,
                        ci as int,
                        Channel::Red,
                        matrix_index as nat,
                    );
                    lemma_weighted_sum_bounds(
                        src,
                        kernel,
                        ci as int,
                        Channel::Green,
                        matrix_index as nat,
                    );
                    lemma_weighted_sum_bounds(
                        src,
                        kernel,
                        ci as int,
                        Channel::Blue,
                        matrix_index as nat,
                    );
                    lemma_weight_sum_monotonic(kernel.weights, 0, matrix_index as nat);
                }
                let selected: i128 = ci as i128 + width_counter * (width as i128) + j;
                assert(selected == source_index(src, kernel, ci as int, matrix_index as int));
                if selected >= 0 && selected < image_size as i128 {
                    let source: usize = selected as usize;
                    if (source / width) as i128 == current_row as i128 + width_counter {
                        let weight: u128 = weights[matrix_index] as u128;
                        let pixel = cloned_image[source];
                        assert(pixel.r * weight <= 255 * 255 && pixel.g * weight <= 255 * 255
                            && pixel.b * weight <= 255 * 255) by (nonlinear_arith)
                            requires
                                pixel.r <= 255,
                                pixel.g <= 255,
                                pixel.b <= 255,
                                weight <= 255,
                        ;
                        blur_r += pixel.r as u128 * weight;
                        blur_g += pixel.g as u128 * weight;
                        blur_b += pixel.b as u128 * weight;
                    }
                }
                matrix_index += 1;
                j += 1;
            }
            assert((width_counter + 1 + half_matrix_size) * size == (width_counter
                + half_matrix_size) * size + size) by (nonlinear_arith);
            width_counter += 1;
        }
        proof {
            assert(matrix_index == size * size) by (nonlinear_arith)
                requires
                    matrix_index == (width_counter + half_matrix_size) * size,
                    width_counter == half_matrix_size + 1,
                    size == 2 * half_matrix_size + 1,
            ;
            lemma_blurred_channel_bounds(src, kernel, ci as int, Channel::Red);
            lemma_blurred_channel_bounds(src, kernel, ci as int, Channel::Green);
            lemma_blurred_channel_bounds(src, kernel, ci as int, Channel::Blue);
        }
        self.pixels[ci] = Pixel {
            r: (blur_r / total_weight) as u8,
            g: (blur_g / total_weight) as u8,
            b: (blur_b / total_weight) as u8,
        };
    }
}

} // verus!

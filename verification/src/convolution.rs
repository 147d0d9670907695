//! What a weighted-kernel blur computes, stated over the models of an image
//! and a kernel, and the facts about it that the executable code and its
//! callers rely on.
//!
//! The kernel is laid over the image with its centre cell on the output
//! position.  Each cell points at one source pixel; cells that point outside
//! the image are skipped, and the weighted sum of the others is divided by
//! the total weight of the whole kernel.  Pixels near the border therefore
//! come out darker than their surroundings.

use crate::structures::image::ImageView;
use crate::structures::pixel::{Channel, Pixel};
use crate::structures::w_matrix::{weight_sum, KernelView};
use vstd::arithmetic::div_mod::{lemma_fundamental_div_mod, lemma_fundamental_div_mod_converse};
use vstd::prelude::*;

verus! {

/// The flat index of the source pixel under cell `k` of the kernel when the
/// centre of the kernel lies on the pixel with index `ci`.  It may fall
/// outside the image.
pub open spec fn source_index(img: ImageView, kernel: KernelView, ci: int, k: int) -> int {
    ci + kernel.row_offset(k) * img.width + kernel.col_offset(k)
}

/// Whether cell `k` of the kernel, centred on `ci`, takes part in the sum:
/// its source index lies in the pixel buffer, and on the row that the cell's
/// row offset asks for.  The second condition keeps a column offset from
/// reaching round the end of a row into the next one.
pub open spec fn contributes(img: ImageView, kernel: KernelView, ci: int, k: int) -> bool {
    let selected: int = source_index(img, kernel, ci, k);
    &&& 0 <= selected < img.width * img.height
    &&& selected / (img.width as int) == ci / (img.width as int) + kernel.row_offset(k)
}

/// Whether the neighbour of `ci` that cell `k` of the kernel asks for, taken
/// by row and column, lies inside the image.
pub open spec fn neighbour_in_image(img: ImageView, kernel: KernelView, ci: int, k: int) -> bool {
    &&& 0 <= img.row_of(ci) + kernel.row_offset(k) < img.height
    &&& 0 <= img.col_of(ci) + kernel.col_offset(k) < img.width
}

/// What cell `k` of the kernel adds to the sum of channel `c` at `ci`: the
/// source intensity times the weight of the cell, or nothing if the cell is
/// skipped.
pub open spec fn term(img: ImageView, kernel: KernelView, ci: int, c: Channel, k: int) -> int {
    if contributes(img, kernel, ci, k) {
        img.pixels[source_index(img, kernel, ci, k)].channel(c) * kernel.weights[k]
    } else {
        0
    }
}

/// The sum of channel `c` at `ci` over the first `n` cells of the kernel.
pub open spec fn weighted_sum(
    img: ImageView,
    kernel: KernelView,
    ci: int,
    c: Channel,
    n: nat,
) -> int
    decreases n,
{
    if n == 0 {
        0
    } else {
        weighted_sum(img, kernel, ci, c, (n - 1) as nat) + term(img, kernel, ci, c, n - 1)
    }
}

/// The total weight of those among the first `n` cells that take part in
/// the sum at `ci`.
pub open spec fn covered_weight(img: ImageView, kernel: KernelView, ci: int, n: nat) -> int
    decreases n,
{
    if n == 0 {
        0
    } else {
        covered_weight(img, kernel, ci, (n - 1) as nat) + if contributes(img, kernel, ci, n - 1) {
            kernel.weights[n - 1] as int
        } else {
            0
        }
    }
}

/// The blurred intensity of channel `c` at `ci`: the weighted sum over the
/// whole kernel, divided by the total weight, rounding down.
pub open spec fn blurred_channel(img: ImageView, kernel: KernelView, ci: int, c: Channel) -> int {
    weighted_sum(img, kernel, ci, c, kernel.weights.len()) / (kernel.total_weight() as int)
}

/// The blurred pixel at `ci`.
pub open spec fn blurred_pixel(img: ImageView, kernel: KernelView, ci: int) -> Pixel {
    Pixel {
        r: blurred_channel(img, kernel, ci, Channel::Red) as u8,
        g: blurred_channel(img, kernel, ci, Channel::Green) as u8,
        b: blurred_channel(img, kernel, ci, Channel::Blue) as u8,
    }
}

/// Cell `k` of a kernel lies `k / size` rows down and `k % size` columns
/// right of the top left cell: the cell in row `row` and column `col` is
/// number `row * size + col`.
pub proof fn lemma_cell_offsets(kernel: KernelView, row: int, col: int)
    requires
        kernel.size > 0,
        0 <= col < kernel.size,
    ensures
        kernel.row_offset(row * kernel.size + col) == row - kernel.half(),
        kernel.col_offset(row * kernel.size + col) == col - kernel.half(),
{
    lemma_fundamental_div_mod_converse(row * kernel.size + col, kernel.size as int, row, col);
}

/// A weighted sum is never negative and at most 255 times the weight that
/// took part in it, which is at most the weight of the cells it ran over.
pub proof fn lemma_weighted_sum_bounds(
    img: ImageView,
    kernel: KernelView,
    ci: int,
    c: Channel,
    n: nat,
)
    ensures
        0 <= weighted_sum(img, kernel, ci, c, n) <= 255 * covered_weight(img, kernel, ci, n),
        0 <= covered_weight(img, kernel, ci, n) <= weight_sum(kernel.weights, n),
    decreases n,
{
    if n > 0 {
        lemma_weighted_sum_bounds(img, kernel, ci, c, (n - 1) as nat);
        let k: int = n - 1;
        if contributes(img, kernel, ci, k) {
            let v: u8 = img.pixels[source_index(img, kernel, ci, k)].channel(c);
            let w: u8 = kernel.weights[k];
            assert(0 <= v * w <= 255 * w) by (nonlinear_arith)
                requires
                    0 <= v <= 255,
                    0 <= w,
            ;
        }
    }
}

/// A blurred intensity fits a channel.
pub proof fn lemma_blurred_channel_bounds(img: ImageView, kernel: KernelView, ci: int, c: Channel)
    requires
        kernel.total_weight() > 0,
    ensures
        0 <= blurred_channel(img, kernel, ci, c) <= 255,
{
    let n: nat = kernel.weights.len();
    lemma_weighted_sum_bounds(img, kernel, ci, c, n);
    let s: int = weighted_sum(img, kernel, ci, c, n);
    let t: int = kernel.total_weight() as int;
    assert(0 <= s / t <= 255) by (nonlinear_arith)
        requires
            0 <= s <= 255 * t,
            t > 0,
    ;
}

/// The boundary test on flat indices accepts a cell exactly when the
/// neighbour it asks for, taken by row and column, lies inside the image.
/// No cell reaches round the end of a row, and none reads above the first or
/// below the last row.
pub proof fn lemma_contributes_iff_neighbour_in_image(
    img: ImageView,
    kernel: KernelView,
    ci: int,
    k: int,
)
    requires
        img.wf(),
        0 <= ci < img.pixels.len(),
    ensures
        contributes(img, kernel, ci, k) == neighbour_in_image(img, kernel, ci, k),
{
    let w: int = img.width as int;
    let h: int = img.height as int;
    let row: int = ci / w;
    let col: int = ci % w;
    let d_row: int = kernel.row_offset(k);
    let d_col: int = kernel.col_offset(k);
    let selected: int = source_index(img, kernel, ci, k);
    let shift: int = (col + d_col) / w;
    let rest: int = (col + d_col) % w;
    lemma_fundamental_div_mod(ci, w);
    lemma_fundamental_div_mod(col + d_col, w);
    assert(selected == (row + d_row + shift) * w + rest) by (nonlinear_arith)
        requires
            selected == ci + d_row * w + d_col,
            ci == w * row + col,
            col + d_col == w * shift + rest,
    ;
    lemma_fundamental_div_mod_converse(selected, w, row + d_row + shift, rest);
    if 0 <= col + d_col < w {
        lemma_fundamental_div_mod_converse(col + d_col, w, 0, col + d_col);
        assert(shift == 0);
        let target: int = row + d_row;
        assert((0 <= selected < w * h) == (0 <= target < h)) by (nonlinear_arith)
            requires
                selected == target * w + rest,
                0 <= rest < w,
        ;
    } else {
        assert(shift != 0) by (nonlinear_arith)
            requires
                col + d_col == w * shift + rest,
                0 <= rest < w,
                !(0 <= col + d_col < w),
        ;
    }
}

/// On an image that holds the intensity `v` in channel `c` of every pixel,
/// a weighted sum is `v` times the weight that took part in it.
pub proof fn lemma_uniform_weighted_sum(
    img: ImageView,
    kernel: KernelView,
    ci: int,
    c: Channel,
    v: int,
    n: nat,
)
    requires
        img.wf(),
        forall|i: int| 0 <= i < img.pixels.len() ==> (#[trigger] img.pixels[i]).channel(c) == v,
    ensures
        weighted_sum(img, kernel, ci, c, n) == v * covered_weight(img, kernel, ci, n),
    decreases n,
{
    if n > 0 {
        lemma_uniform_weighted_sum(img, kernel, ci, c, v, (n - 1) as nat);
        let before: int = covered_weight(img, kernel, ci, (n - 1) as nat);
        let w: int = kernel.weights[n - 1] as int;
        if contributes(img, kernel, ci, n - 1) {
            assert(v * before + v * w == v * (before + w)) by (nonlinear_arith);
        }
    }
}

/// Where every cell among the first `n` takes part in the sum, the weight
/// that took part is the weight of those cells.
pub proof fn lemma_covered_weight_full(img: ImageView, kernel: KernelView, ci: int, n: nat)
    requires
        forall|k: int| 0 <= k < n ==> contributes(img, kernel, ci, k),
    ensures
        covered_weight(img, kernel, ci, n) == weight_sum(kernel.weights, n),
    decreases n,
{
    if n > 0 {
        lemma_covered_weight_full(img, kernel, ci, (n - 1) as nat);
    }
}

/// Whether the pixel `ci` lies at least half a kernel away from every border
/// of the image, so that the whole kernel fits round it.
pub open spec fn is_interior(img: ImageView, kernel: KernelView, ci: int) -> bool {
    &&& kernel.half() <= img.row_of(ci) < img.height - kernel.half()
    &&& kernel.half() <= img.col_of(ci) < img.width - kernel.half()
}

/// Round an interior pixel no cell of the kernel is skipped: the weight that
/// takes part in its sums is the total weight.
pub proof fn lemma_interior_fully_covered(img: ImageView, kernel: KernelView, ci: int)
    requires
        img.wf(),
        kernel.wf(),
        0 <= ci < img.pixels.len(),
        is_interior(img, kernel, ci),
    ensures
        covered_weight(img, kernel, ci, kernel.weights.len()) == kernel.total_weight(),
{
    let size: int = kernel.size as int;
    assert forall|k: int| 0 <= k < kernel.weights.len() implies contributes(
        img,
        kernel,
        ci,
        k,
    ) by {
        lemma_fundamental_div_mod(k, size);
        assert(0 <= k / size < size) by (nonlinear_arith)
            requires
                0 <= k < size * size,
                size > 0,
                k == size * (k / size) + k % size,
                0 <= k % size < size,
        ;
        lemma_contributes_iff_neighbour_in_image(img, kernel, ci, k);
    }
    lemma_covered_weight_full(img, kernel, ci, kernel.weights.len());
}

/// At the first pixel of an image, the top left corner, every cell of the
/// kernel that lies above or left of the centre is skipped, while the sums
/// are still divided by the total weight.
pub proof fn lemma_corner_skips_cells(img: ImageView, kernel: KernelView, k: int)
    requires
        img.wf(),
        kernel.row_offset(k) < 0 || kernel.col_offset(k) < 0,
    ensures
        !contributes(img, kernel, 0, k),
        forall|c: Channel| term(img, kernel, 0, c, k) == 0,
{
    assert(img.pixels.len() > 0) by (nonlinear_arith)
        requires
            img.pixels.len() == img.width * img.height,
            img.width > 0,
            img.height > 0,
    ;
    lemma_contributes_iff_neighbour_in_image(img, kernel, 0, k);
}

/// A blur leaves a pixel of a uniform image as it is wherever the kernel
/// skips no weight, and everywhere if the image is black.
pub proof fn lemma_blur_uniform(img: ImageView, kernel: KernelView, p: Pixel, ci: int)
    requires
        img.wf(),
        kernel.wf(),
        forall|i: int| 0 <= i < img.pixels.len() ==> img.pixels[i] == p,
        0 <= ci < img.pixels.len(),
        covered_weight(img, kernel, ci, kernel.weights.len()) == kernel.total_weight()
            || p.is_black(),
    ensures
        blurred_pixel(img, kernel, ci) == p,
        img.blurred(kernel).pixels[ci] == p,
{
    let n: nat = kernel.weights.len();
    let total: int = kernel.total_weight() as int;
    let covered: int = covered_weight(img, kernel, ci, n);
    assert forall|c: Channel| blurred_channel(img, kernel, ci, c) == p.channel(c) by {
        let v: int = p.channel(c) as int;
        lemma_uniform_weighted_sum(img, kernel, ci, c, v, n);
        assert((v * covered) / total == v) by (nonlinear_arith)
            requires
                total > 0,
                covered == total || v == 0,
        ;
    }
    assert(blurred_channel(img, kernel, ci, Channel::Red) == p.channel(Channel::Red));
    assert(blurred_channel(img, kernel, ci, Channel::Green) == p.channel(Channel::Green));
    assert(blurred_channel(img, kernel, ci, Channel::Blue) == p.channel(Channel::Blue));
}

/// A blur leaves every interior pixel of a uniform image as it is, whatever
/// the kernel.
pub proof fn lemma_blur_uniform_interior(img: ImageView, kernel: KernelView, p: Pixel, ci: int)
    requires
        img.wf(),
        kernel.wf(),
        forall|i: int| 0 <= i < img.pixels.len() ==> img.pixels[i] == p,
        0 <= ci < img.pixels.len(),
        is_interior(img, kernel, ci),
    ensures
        img.blurred(kernel).pixels[ci] == p,
{
    lemma_interior_fully_covered(img, kernel, ci);
    lemma_blur_uniform(img, kernel, p, ci);
}

/// Where the kernel skips some weight, a blur darkens every lit channel of
/// a uniform image: the sum runs over part of the weight and is divided by
/// all of it.
pub proof fn lemma_blur_uniform_darkens(img: ImageView, kernel: KernelView, p: Pixel, ci: int)
    requires
        img.wf(),
        kernel.wf(),
        forall|i: int| 0 <= i < img.pixels.len() ==> img.pixels[i] == p,
        0 <= ci < img.pixels.len(),
        covered_weight(img, kernel, ci, kernel.weights.len()) < kernel.total_weight(),
    ensures
        forall|c: Channel|
            p.channel(c) > 0 ==> #[trigger] blurred_channel(img, kernel, ci, c) < p.channel(c),
        !p.is_black() ==> blurred_pixel(img, kernel, ci) != p,
{
    let n: nat = kernel.weights.len();
    let total: int = kernel.total_weight() as int;
    let covered: int = covered_weight(img, kernel, ci, n);
    assert forall|c: Channel| p.channel(c) > 0 implies #[trigger] blurred_channel(
        img,
        kernel,
        ci,
        c,
    ) < p.channel(c) by {
        let v: int = p.channel(c) as int;
        lemma_uniform_weighted_sum(img, kernel, ci, c, v, n);
        lemma_weighted_sum_bounds(img, kernel, ci, c, n);
        assert((v * covered) / total < v) by (nonlinear_arith)
            requires
                total > 0,
                0 <= covered < total,
                v > 0,
        ;
    }
    if !p.is_black() {
        lemma_blurred_channel_bounds(img, kernel, ci, Channel::Red);
        lemma_blurred_channel_bounds(img, kernel, ci, Channel::Green);
        lemma_blurred_channel_bounds(img, kernel, ci, Channel::Blue);
        assert(p.channel(Channel::Red) > 0 || p.channel(Channel::Green) > 0 || p.channel(
            Channel::Blue,
        ) > 0);
    }
}

} // verus!

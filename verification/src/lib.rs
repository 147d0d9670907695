//! In-memory raster images with 8-bit RGB channels and three transforms on
//! them: colour inversion, grayscale reduction and a weighted-kernel blur.
//!
//! Every executable function carries a contract over a mathematical model of
//! its data: [`structures::image::ImageView`] for an image and
//! [`structures::w_matrix::KernelView`] for a kernel.  Both types keep their
//! fields private, so a value that exists is a valid one.

pub mod convolution;
pub mod decimal;
pub mod paths;
pub mod structures;

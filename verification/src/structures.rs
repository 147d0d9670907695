//! The data the transforms work on: pixels, images and weight matrices.

pub mod image;
pub mod pixel;
pub mod w_matrix;

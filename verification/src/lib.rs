//! Password-keyed masking of RGB images, and their rendering on a terminal.
//!
//! Masking combines every pixel with one triple of a stream of bytes that
//! is determined by a password alone. It is its own inverse: masking twice
//! with the same password gives the image back.
//!
//! Rendering fits the image into the character grid of a terminal, averages
//! the block of pixels under each character cell and writes the cells as
//! colored blocks, one line of text per row of cells.

pub mod color;
pub mod generator;
pub mod keystream;
pub mod mask;
pub mod pixels;
pub mod raw_image;
pub mod render;
pub mod viewer;
pub mod viewport;

//! Decoder for the structural metadata of a JPEG XL file: the box container,
//! the codestream signature, the image size and the image metadata, and the
//! per-frame header, read bit by bit in the order the format lays them out.

pub mod bit_reader;
pub mod bits;
pub mod common;
pub mod decode_jxl;
pub mod error;
pub mod jxl_file;
pub mod jxl_frame;
pub mod jxl_image;
pub mod pixel_array;

//! The buffer that the samples of a decoded image go to.

use vstd::prelude::*;

verus! {

/// A buffer for the samples of `width * height` pixels in `channels`
/// channels.
#[derive(Debug)]
pub struct PixelArray<T> {
    pub width: u32,
    pub height: u32,
    pub channels: u16,
    pub buffer: Vec<T>,
}

impl<T> PixelArray<T> {
    /// An empty buffer with room for every sample of the image.
    pub fn new(width: u32, height: u32, channels: u16) -> (r: PixelArray<T>)
        requires
            width * height <= u32::MAX,
            width * height * channels <= u32::MAX,
        ensures
            r.width == width,
            r.height == height,
            r.channels == channels,
            r.buffer@.len() == 0,
    {
        let samples: u32 = width * height * (channels as u32);
        PixelArray { width, height, channels, buffer: Vec::with_capacity(samples as usize) }
    }
}

} // verus!

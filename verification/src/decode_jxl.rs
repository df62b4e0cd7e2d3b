//! The decoder proper: from the boxes of a file to the image header and the
//! header of its frames.

use crate::bit_reader::BitStream;
use crate::bits::{bits_of, spec_read_u16};
use crate::common::ImageSize;
use crate::error::{view_of, JxlError};
use crate::jxl_file::{spec_codestream, JxlBoxView, JxlFile};
use crate::jxl_frame::{spec_read_frame, JxlFrame, JxlFrameView};
use crate::jxl_image::{
    spec_read_metadata, spec_read_size, JxlImageMetadata, JxlImageMetadataView,
};
use vstd::prelude::*;

verus! {

/// What the decoder has read of an image.
#[derive(Debug, PartialEq, Eq)]
pub struct JxlImage {
    pub image_size: ImageSize,
    pub image_metadata: JxlImageMetadata,
    pub preview_frame: Option<JxlFrame>,
    pub frames: Vec<JxlFrame>,
}

/// What the decoder has read of an image, as a mathematical value.
pub struct JxlImageView {
    pub image_size: ImageSize,
    pub image_metadata: JxlImageMetadataView,
    pub preview_frame: Option<JxlFrameView>,
    pub frames: Seq<JxlFrameView>,
}

/// The views of a sequence of frames.
pub open spec fn spec_frame_views(frames: Seq<JxlFrame>) -> Seq<JxlFrameView> {
    frames.map_values(|f: JxlFrame| f@)
}

impl View for JxlImage {
    type V = JxlImageView;

    open spec fn view(&self) -> JxlImageView {
        JxlImageView {
            image_size: self.image_size,
            image_metadata: self.image_metadata@,
            preview_frame: match self.preview_frame {
                Some(frame) => Some(frame@),
                None => None,
            },
            frames: spec_frame_views(self.frames@),
        }
    }
}

/// The 16-bit number that a codestream starts with.
pub const CODESTREAM_SIGNATURE: u16 = 0x0aff;

/// The image header: the signature of the codestream, the size record and
/// the metadata record. The first of them that fails decides the outcome.
#[verifier::opaque]
pub open spec fn spec_read_header(s: Seq<bool>) -> (
    Result<(ImageSize, JxlImageMetadataView), JxlError>,
    Seq<bool>,
) {
    let signature = spec_read_u16(s, 16);
    let size = spec_read_size(signature.1);
    let metadata = spec_read_metadata(size.1);
    if signature.0 is None {
        (Err(JxlError::Truncated), signature.1)
    } else if signature.0 != Some(CODESTREAM_SIGNATURE) {
        (Err(JxlError::InvalidCodestream), signature.1)
    } else if size.0 is Err {
        (Err(size.0->Err_0), size.1)
    } else if metadata.0 is Err {
        (Err(metadata.0->Err_0), metadata.1)
    } else {
        (Ok((size.0->Ok_0, metadata.0->Ok_0)), metadata.1)
    }
}

/// What is decoded of a codestream: the image header; the header of a
/// preview frame where the metadata announce a preview; and the header of one
/// frame. The first of them that fails decides the outcome.
pub open spec fn spec_decode_codestream(s: Seq<bool>) -> Result<JxlImageView, JxlError> {
    let header = spec_read_header(s);
    let image_size = header.0->Ok_0.0;
    let image_metadata = header.0->Ok_0.1;
    let extra_channels = image_metadata.extra_channels.len();
    let xyb_encoded = image_metadata.xyb_encoded;
    let preview = if image_metadata.preview_size is Some {
        let frame = spec_read_frame(header.1, extra_channels, xyb_encoded);
        match frame.0 {
            Ok(f) => (Ok(Some(f)), frame.1),
            Err(e) => (Err(e), frame.1),
        }
    } else {
        (Ok(None), header.1)
    };
    let frame = spec_read_frame(preview.1, extra_channels, xyb_encoded);
    if header.0 is Err {
        Err(header.0->Err_0)
    } else if preview.0 is Err {
        Err(preview.0->Err_0)
    } else if frame.0 is Err {
        Err(frame.0->Err_0)
    } else {
        Ok(
            JxlImageView {
                image_size,
                image_metadata,
                preview_frame: preview.0->Ok_0,
                frames: seq![frame.0->Ok_0],
            },
        )
    }
}

/// What is decoded of a file: of the codestream that its boxes carry, which
/// has to hold at least one byte.
pub open spec fn spec_decode_jxl(boxes: Seq<JxlBoxView>) -> Result<JxlImageView, JxlError> {
    match spec_codestream(boxes) {
        Err(e) => Err(e),
        Ok(bytes) => if bytes.len() == 0 {
            Err(JxlError::Truncated)
        } else {
            spec_decode_codestream(bits_of(bytes))
        },
    }
}

/// Reads the image header at the start of a codestream.
pub fn read_header(bitstream: &mut BitStream) -> (r: Result<
    (ImageSize, JxlImageMetadata),
    JxlError,
>)
    ensures
        match r {
            Ok((size, metadata)) => spec_read_header(old(bitstream)@) == (
                Ok::<_, JxlError>((size, metadata@)),
                final(bitstream)@,
            ),
            Err(e) => spec_read_header(old(bitstream)@) == (
                Err::<(ImageSize, JxlImageMetadataView), _>(e),
                final(bitstream)@,
            ),
        },
{
    proof {
        reveal(spec_read_header);
    }
    let signature = bitstream.read_u16(16).ok_or(JxlError::Truncated)?;
    if signature != CODESTREAM_SIGNATURE {
        return Err(JxlError::InvalidCodestream);
    }
    let image_size = ImageSize::read(bitstream)?;
    let image_metadata = JxlImageMetadata::read(bitstream)?;
    Ok((image_size, image_metadata))
}

/// Decodes the headers of the image that the boxes of a file carry.
pub fn decode_jxl(input_file: JxlFile) -> (r: Result<JxlImage, JxlError>)
    ensures
        view_of(r) == spec_decode_jxl(input_file@),
{
    let data = input_file.get_image_data()?;
    let mut jxl_data = match BitStream::try_new(data.as_slice()) {
        Some(stream) => stream,
        None => {
            return Err(JxlError::Truncated);
        },
    };
    let (image_size, image_metadata) = read_header(&mut jxl_data)?;
    let preview_frame = if image_metadata.preview_size.is_some() {
        Some(JxlFrame::read(&mut jxl_data, &image_metadata)?)
    } else {
        None
    };
    let mut frames: Vec<JxlFrame> = Vec::new();
    let next_frame = JxlFrame::read(&mut jxl_data, &image_metadata)?;
    proof {
        assert(spec_frame_views(frames@.push(next_frame)) =~= seq![next_frame@]);
    }
    frames.push(next_frame);
    Ok(JxlImage { image_size, image_metadata, preview_frame, frames })
}

} // verus!

use jxl_decoder::bit_reader::BitStream;
use jxl_decoder::common::ImageSize;
use jxl_decoder::decode_jxl::{decode_jxl, read_header, JxlImage, CODESTREAM_SIGNATURE};
use jxl_decoder::error::{JxlError, Unsupported};
use jxl_decoder::jxl_file::{JxlBox, JxlBoxType, JxlFile};
use jxl_decoder::jxl_frame::{
    JxlFrame, JxlFrameEncoding, JxlFrameFlags, JxlFrameHeader, JxlFramePasses, JxlFrameType,
};
use jxl_decoder::jxl_image::{JxlBitDepth, JxlColourEncoding, JxlImageMetadata, JxlOrientation};

/// Lays fields out as a stream reads them: each a value and a width in bits,
/// least significant bit first, the last byte filled up with zero bits.
fn codestream_bits(fields: &[(u64, u8)]) -> Vec<u8> {
    let mut bytes: Vec<u8> = Vec::new();
    let mut filled: usize = 0;
    for &(value, width) in fields {
        for i in 0..width {
            if filled % 8 == 0 {
                bytes.push(0);
            }
            if (value >> i) & 1 == 1 {
                let last = bytes.len() - 1;
                bytes[last] |= 1 << (filled % 8);
            }
            filled += 1;
        }
    }
    bytes
}

fn container_box(code: &[u8; 4], payload: &[u8]) -> Vec<u8> {
    let mut bytes = Vec::new();
    bytes.extend_from_slice(&((payload.len() as u32 + 8).to_be_bytes()));
    bytes.extend_from_slice(code);
    bytes.extend_from_slice(payload);
    bytes
}

/// The signature, a size record, and a metadata record with all defaults.
fn header_fields(size: &[(u64, u8)]) -> Vec<(u64, u8)> {
    let mut fields = vec![(0x0aff, 16)];
    fields.extend_from_slice(size);
    fields.extend_from_slice(&[(1, 1), (0, 1), (0, 2), (0, 1), (0, 2), (0, 1), (1, 1), (1, 1)]);
    fields
}

/// A regular modular frame with no flag set, one pass and no crop.
fn frame_fields() -> Vec<(u64, u8)> {
    vec![(0, 1), (0, 2), (1, 1), (0, 2), (0, 1), (0, 2), (0, 2), (0, 2), (0, 1)]
}

fn default_image_metadata() -> JxlImageMetadata {
    JxlImageMetadata {
        orientation: JxlOrientation::Normal,
        intrinsic_size: None,
        preview_size: None,
        animation_info: None,
        bit_depth: JxlBitDepth::Integer { bits: 8 },
        modular_16bit: false,
        extra_channel_count: 0,
        extra_channels: vec![],
        xyb_encoded: false,
        colour_encoding: JxlColourEncoding {},
        tone_mapping: None,
        extensions: None,
    }
}

fn plain_frame() -> JxlFrame {
    JxlFrame {
        header: JxlFrameHeader {
            frame_type: JxlFrameType::RegularFrame,
            frame_encoding: JxlFrameEncoding::Modular,
            flags: JxlFrameFlags {
                use_noise: false,
                use_patches: false,
                use_splines: false,
                use_lf_frame: false,
                use_adaptive_lf_smoothing: true,
            },
            ycbcr: false,
            jpeg_upscaling: [1, 1, 1],
            upsampling: 1,
            ec_upscaling: vec![],
            modular_group_size: Some(128),
            x_qm_scale: 2,
            b_qm_scale: 2,
            passes: JxlFramePasses {
                pass_count: 1,
                num_ds: 0,
                shifts: vec![0],
                downsample: vec![],
                last_pass: vec![],
            },
            lf_level: None,
            crop_info: None,
        },
    }
}

#[test]
fn the_codestream_signature_reads_as_ff_0a() {
    assert_eq!(CODESTREAM_SIGNATURE, 0x0aff);
    assert_eq!(BitStream::new(&[0xff, 0x0a]).read_u16(16), Some(CODESTREAM_SIGNATURE));
}

#[test]
fn header_of_a_file_with_a_signature_box_and_a_bare_codestream() {
    let mut bytes = container_box(b"JXL ", b"\x0d\x0a\x87\x0a");
    bytes.extend(codestream_bits(&header_fields(&[(1, 1), (31, 5), (1, 3)])));
    let file = JxlFile::read(&bytes).unwrap();
    assert_eq!(file.boxes.len(), 2);
    assert_eq!(file.boxes[0].box_type, JxlBoxType::JXL_SIGNATURE);
    assert_eq!(file.boxes[1].box_type, JxlBoxType::JXL_RAW);
    let codestream = file.get_image_data().unwrap();
    assert_eq!(&codestream[..2], &[0xff, 0x0a]);
    let mut stream = BitStream::new(&codestream);
    let (size, metadata) = read_header(&mut stream).unwrap();
    assert_eq!(size, ImageSize { width: 256, height: 256 });
    assert_eq!(metadata, default_image_metadata());
    assert_eq!(metadata.intrinsic_size, None);
    assert_eq!(metadata.preview_size, None);
    assert_eq!(metadata.animation_info, None);
    assert_eq!(metadata.tone_mapping, None);
    assert_eq!(metadata.extensions, None);
}

#[test]
fn header_of_a_file_with_a_signature_box_and_a_codestream_box() {
    let codestream = codestream_bits(&header_fields(&[(0, 1), (0, 2), (511, 9), (1, 3)]));
    let mut bytes = container_box(b"JXL ", b"\x0d\x0a\x87\x0a");
    bytes.extend(container_box(b"jxlc", &codestream));
    let file = JxlFile::read(&bytes).unwrap();
    assert_eq!(file.boxes.len(), 2);
    assert_eq!(file.boxes[1].box_type, JxlBoxType::JXL_CODESTREAM);
    let mut stream = BitStream::new(&file.get_image_data().unwrap());
    assert_eq!(
        read_header(&mut stream),
        Ok((ImageSize { width: 512, height: 512 }, default_image_metadata()))
    );
}

#[test]
fn header_with_another_signature_is_no_codestream() {
    let mut stream = BitStream::new(&[0xff, 0x0b, 0xff, 0xff]);
    assert_eq!(read_header(&mut stream), Err(JxlError::InvalidCodestream));
    assert_eq!(stream.read_u16(16), Some(0xffff));
    assert_eq!(read_header(&mut BitStream::new(&[0x0a, 0xff, 0, 0])), Err(JxlError::InvalidCodestream));
}

#[test]
fn image_header_ends_where_the_input_is_too_short() {
    assert_eq!(read_header(&mut BitStream::new(&[0xff])), Err(JxlError::Truncated));
    assert_eq!(read_header(&mut BitStream::new(&[0xff, 0x0a])), Err(JxlError::Truncated));
    assert_eq!(read_header(&mut BitStream::new(&[0xff, 0x0a, 0x3f])), Err(JxlError::Truncated));
    let bytes = codestream_bits(&[(0x0aff, 16), (1, 1), (31, 5), (1, 3), (1, 1)]);
    assert_eq!(read_header(&mut BitStream::new(&bytes)), Err(JxlError::Truncated));
}

#[test]
fn header_passes_on_what_the_metadata_do_not_support() {
    let bytes = codestream_bits(&[
        (0x0aff, 16),
        (1, 1),
        (0, 5),
        (1, 3),
        (1, 1),
        (0, 1),
        (0, 2),
        (0, 1),
        (1, 2),
    ]);
    assert_eq!(
        read_header(&mut BitStream::new(&bytes)),
        Err(JxlError::Unsupported(Unsupported::ExtraChannels))
    );
}

#[test]
fn decode_of_a_bare_codestream_with_one_frame() {
    let mut fields = header_fields(&[(1, 1), (24, 5), (4, 3)]);
    fields.extend(frame_fields());
    let file = JxlFile::read(&codestream_bits(&fields)).unwrap();
    assert_eq!(
        decode_jxl(file),
        Ok(JxlImage {
            image_size: ImageSize { width: 300, height: 200 },
            image_metadata: default_image_metadata(),
            preview_frame: None,
            frames: vec![plain_frame()],
        })
    );
}

#[test]
fn decode_of_a_container_with_the_codestream_in_two_boxes() {
    let mut fields = header_fields(&[(0, 1), (0, 2), (511, 9), (1, 3)]);
    fields.extend(frame_fields());
    let codestream = codestream_bits(&fields);
    let mut bytes = container_box(b"JXL ", b"\x0d\x0a\x87\x0a");
    bytes.extend(container_box(b"ftyp", b"jxl \0\0\0\0jxl "));
    bytes.extend(container_box(b"jxlc", &codestream[..3]));
    bytes.extend(container_box(b"jxll", &[5]));
    bytes.extend(container_box(b"jxlc", &codestream[3..]));
    let image = decode_jxl(JxlFile::read(&bytes).unwrap()).unwrap();
    assert_eq!(image.image_size, ImageSize { width: 512, height: 512 });
    assert_eq!(image.image_metadata, default_image_metadata());
    assert_eq!(image.preview_frame, None);
    assert_eq!(image.frames, vec![plain_frame()]);
}

#[test]
fn decode_of_a_file_without_a_codestream_is_truncated() {
    assert_eq!(decode_jxl(JxlFile { boxes: vec![] }), Err(JxlError::Truncated));
    let bytes = container_box(b"JXL ", b"\x0d\x0a\x87\x0a");
    assert_eq!(decode_jxl(JxlFile::read(&bytes).unwrap()), Err(JxlError::Truncated));
}

#[test]
fn decode_of_a_header_without_a_frame_is_truncated() {
    let fields = header_fields(&[(1, 1), (31, 5), (0, 3), (31, 5)]);
    let bytes = codestream_bits(&fields);
    assert_eq!(bytes.len(), 5);
    let mut stream = BitStream::new(&bytes);
    assert!(read_header(&mut stream).is_ok());
    assert!(stream.is_empty());
    assert_eq!(decode_jxl(JxlFile::read(&bytes).unwrap()), Err(JxlError::Truncated));

    let mut fields = header_fields(&[(1, 1), (31, 5), (0, 3), (31, 5)]);
    fields.extend_from_slice(&[(0, 1), (0, 2), (1, 1), (0, 2)]);
    let file = JxlFile::read(&codestream_bits(&fields)).unwrap();
    assert_eq!(decode_jxl(file), Err(JxlError::Truncated));
}

#[test]
fn decode_passes_on_what_a_frame_does_not_support() {
    let mut fields = header_fields(&[(1, 1), (31, 5), (1, 3)]);
    fields.push((1, 1));
    let file = JxlFile::read(&codestream_bits(&fields)).unwrap();
    assert_eq!(decode_jxl(file), Err(JxlError::Unsupported(Unsupported::FrameEncoding)));

    let mut fields = header_fields(&[(1, 1), (31, 5), (1, 3)]);
    fields.extend_from_slice(&[(0, 1), (1, 2), (1, 1)]);
    let file = JxlFile::read(&codestream_bits(&fields)).unwrap();
    assert_eq!(decode_jxl(file), Err(JxlError::Unsupported(Unsupported::FrameType)));
}

#[test]
fn decode_of_a_partial_codestream_is_unsupported() {
    let file = JxlFile {
        boxes: vec![JxlBox {
            box_type: JxlBoxType::JXL_PARTIAL,
            data: vec![0x80, 0, 0, 0, 0xff, 0x0a],
            length: 14,
        }],
    };
    assert_eq!(decode_jxl(file), Err(JxlError::Unsupported(Unsupported::PartialCodestream)));
}

#[test]
fn decode_of_a_codestream_with_another_signature_fails() {
    let file = JxlFile {
        boxes: vec![JxlBox {
            box_type: JxlBoxType::JXL_CODESTREAM,
            data: vec![0x89, 0x50, 0x4e, 0x47],
            length: 12,
        }],
    };
    assert_eq!(decode_jxl(file), Err(JxlError::InvalidCodestream));
}

#[test]
fn a_malformed_file_is_reported_and_not_skipped() {
    let mut fields = header_fields(&[(1, 1), (31, 5), (1, 3)]);
    fields.extend(frame_fields());
    let mut bytes = container_box(b"JXL ", b"\x0d\x0a\x87\x0a");
    bytes.extend(container_box(b"skip", &[1, 2, 3]));
    bytes.extend(container_box(b"jxlc", &codestream_bits(&fields)));
    assert_eq!(JxlFile::read(&bytes), Err(JxlError::UnknownBoxType));
}

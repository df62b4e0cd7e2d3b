use jxl_decoder::error::{JxlError, Unsupported};
use jxl_decoder::jxl_file::{JxlBox, JxlBoxType, JxlFile};

/// A box with a four-byte length: the length, the type code, the payload.
fn small_box(code: &[u8; 4], payload: &[u8]) -> Vec<u8> {
    let mut bytes = Vec::new();
    bytes.extend_from_slice(&((payload.len() as u32 + 8).to_be_bytes()));
    bytes.extend_from_slice(code);
    bytes.extend_from_slice(payload);
    bytes
}

/// A box with an eight-byte length: a length field of 1, the type code, the
/// extended length, the payload.
fn large_box(code: &[u8; 4], payload: &[u8]) -> Vec<u8> {
    let mut bytes = Vec::new();
    bytes.extend_from_slice(&1u32.to_be_bytes());
    bytes.extend_from_slice(code);
    bytes.extend_from_slice(&((payload.len() as u64 + 16).to_be_bytes()));
    bytes.extend_from_slice(payload);
    bytes
}

fn signature_box() -> Vec<u8> {
    small_box(b"JXL ", b"\x0d\x0a\x87\x0a")
}

fn file_type_box() -> Vec<u8> {
    small_box(b"ftyp", b"jxl \0\0\0\0jxl ")
}

fn a_box(box_type: JxlBoxType, data: &[u8], length: u64) -> JxlBox {
    JxlBox { box_type, data: data.to_vec(), length }
}

#[test]
fn an_empty_file_has_no_boxes() {
    assert_eq!(JxlFile::read(&[]), Ok(JxlFile { boxes: vec![] }));
}

#[test]
fn a_bare_codestream_is_one_raw_box() {
    let bytes = [0xff, 0x0a, 0x01, 0x02, 0x03];
    assert_eq!(
        JxlFile::read(&bytes),
        Ok(JxlFile { boxes: vec![a_box(JxlBoxType::JXL_RAW, &bytes, 5)] })
    );
    assert_eq!(
        JxlFile::read(&[0xff, 0x0a]),
        Ok(JxlFile { boxes: vec![a_box(JxlBoxType::JXL_RAW, &[0xff, 0x0a], 2)] })
    );
}

#[test]
fn a_container_is_split_into_its_boxes() {
    let mut bytes = signature_box();
    bytes.extend(file_type_box());
    bytes.extend(small_box(b"jxll", &[5]));
    bytes.extend(small_box(b"jxlc", &[0xff, 0x0a, 0x7f]));
    bytes.extend(small_box(b"Exif", &[]));
    assert_eq!(
        JxlFile::read(&bytes),
        Ok(JxlFile {
            boxes: vec![
                a_box(JxlBoxType::JXL_SIGNATURE, b"\x0d\x0a\x87\x0a", 12),
                a_box(JxlBoxType::JXL_FILE_TYPE, b"jxl \0\0\0\0jxl ", 20),
                a_box(JxlBoxType::JXL_LEVEL, &[5], 9),
                a_box(JxlBoxType::JXL_CODESTREAM, &[0xff, 0x0a, 0x7f], 11),
                a_box(JxlBoxType::JXL_EXIF, &[], 8),
            ]
        })
    );
}

#[test]
fn every_type_code_of_the_vocabulary_is_known() {
    let codes: [(&[u8; 4], JxlBoxType); 9] = [
        (b"jxll", JxlBoxType::JXL_LEVEL),
        (b"jumb", JxlBoxType::JXL_JUMBF),
        (b"Exif", JxlBoxType::JXL_EXIF),
        (b"xml ", JxlBoxType::JXL_XML),
        (b"brob", JxlBoxType::JXL_BROTLI),
        (b"jxli", JxlBoxType::JXL_INDEX),
        (b"jxlc", JxlBoxType::JXL_CODESTREAM),
        (b"jxlp", JxlBoxType::JXL_PARTIAL),
        (b"jbrd", JxlBoxType::JXL_RECONSTRUCTION),
    ];
    for (code, box_type) in codes {
        assert_eq!(JxlBoxType::from_code(code[0], code[1], code[2], code[3]), Some(box_type));
        assert_eq!(JxlBox::read(&small_box(code, &[1, 2])), Ok(a_box(box_type, &[1, 2], 10)));
    }
    assert_eq!(JxlBoxType::from_code(b'J', b'X', b'L', b' '), Some(JxlBoxType::JXL_SIGNATURE));
    assert_eq!(JxlBoxType::from_code(b'f', b't', b'y', b'p'), Some(JxlBoxType::JXL_FILE_TYPE));
    assert_eq!(JxlBoxType::from_code(b'j', b'x', b'l', b' '), None);
    assert_eq!(JxlBoxType::from_code(b'J', b'X', b'L', b'C'), None);
    assert_eq!(JxlBoxType::from_code(0, 0, 0, 0), None);
}

#[test]
fn the_length_is_big_endian() {
    let payload = vec![0xEE; 0x0203 - 8];
    let mut bytes = vec![0x00, 0x00, 0x02, 0x03];
    bytes.extend_from_slice(b"jumb");
    bytes.extend_from_slice(&payload);
    assert_eq!(
        JxlFile::read(&bytes),
        Ok(JxlFile { boxes: vec![a_box(JxlBoxType::JXL_JUMBF, &payload, 0x0203)] })
    );
}

#[test]
fn a_length_of_one_announces_an_extended_length() {
    let mut bytes = large_box(b"jxlc", &[0xAA, 0xBB]);
    bytes.extend(small_box(b"xml ", &[0xCC]));
    assert_eq!(
        JxlFile::read(&bytes),
        Ok(JxlFile {
            boxes: vec![
                a_box(JxlBoxType::JXL_CODESTREAM, &[0xAA, 0xBB], 18),
                a_box(JxlBoxType::JXL_XML, &[0xCC], 9),
            ]
        })
    );
    assert_eq!(
        JxlBox::read(&large_box(b"brob", &[])),
        Ok(a_box(JxlBoxType::JXL_BROTLI, &[], 16))
    );
}

#[test]
fn the_first_box_is_read_alone() {
    let mut bytes = small_box(b"jxlc", &[1, 2, 3]);
    bytes.extend_from_slice(&[0xde, 0xad]);
    assert_eq!(JxlBox::read(&bytes), Ok(a_box(JxlBoxType::JXL_CODESTREAM, &[1, 2, 3], 11)));
}

#[test]
fn an_unknown_type_code_is_an_error() {
    assert_eq!(JxlFile::read(&small_box(b"abcd", &[1, 2, 3])), Err(JxlError::UnknownBoxType));
    let mut bytes = signature_box();
    bytes.extend(small_box(b"free", &[]));
    bytes.extend(small_box(b"jxlc", &[0xff, 0x0a]));
    assert_eq!(JxlFile::read(&bytes), Err(JxlError::UnknownBoxType));
    assert_eq!(JxlBox::read(&small_box(b"JXL\0", &[])), Err(JxlError::UnknownBoxType));
}

#[test]
fn a_box_that_runs_past_the_end_is_truncated() {
    assert_eq!(JxlFile::read(&[0, 0, 0]), Err(JxlError::Truncated));
    assert_eq!(JxlFile::read(&[0, 0, 0, 9, b'j', b'x', b'l']), Err(JxlError::Truncated));
    assert_eq!(JxlFile::read(&[0, 0, 0, 9, b'j', b'x', b'l', b'c']), Err(JxlError::Truncated));
    let mut bytes = small_box(b"jxlc", &[1, 2, 3, 4]);
    bytes.pop();
    assert_eq!(JxlFile::read(&bytes), Err(JxlError::Truncated));
    let mut bytes = signature_box();
    bytes.extend_from_slice(&[0, 0, 0, 8, b'j']);
    assert_eq!(JxlFile::read(&bytes), Err(JxlError::Truncated));
}

#[test]
fn an_extended_length_that_is_cut_off_is_truncated() {
    let bytes = [0, 0, 0, 1, b'j', b'x', b'l', b'c', 0, 0, 0, 0, 0, 0, 0];
    assert_eq!(JxlFile::read(&bytes), Err(JxlError::Truncated));
    let bytes = [0, 0, 0, 1, b'j', b'x', b'l', b'c', 0, 0, 0, 0, 0, 0, 0, 17];
    assert_eq!(JxlFile::read(&bytes), Err(JxlError::Truncated));
    let bytes = [0, 0, 0, 1, b'j', b'x', b'l', b'c', 0xff, 0xff, 0xff, 0xff, 0xff, 0xff, 0xff, 0xff];
    assert_eq!(JxlFile::read(&bytes), Err(JxlError::Truncated));
}

#[test]
fn a_length_shorter_than_the_header_is_invalid() {
    for length in [0u8, 2, 7] {
        let bytes = [0, 0, 0, length, b'j', b'x', b'l', b'c', 1, 2, 3];
        assert_eq!(JxlFile::read(&bytes), Err(JxlError::InvalidBoxLength));
    }
    let bytes = [0, 0, 0, 1, b'j', b'x', b'l', b'c', 0, 0, 0, 0, 0, 0, 0, 15];
    assert_eq!(JxlFile::read(&bytes), Err(JxlError::InvalidBoxLength));
    let bytes = [0, 0, 0, 1, b'j', b'x', b'l', b'c', 0, 0, 0, 0, 0, 0, 0, 0];
    assert_eq!(JxlFile::read(&bytes), Err(JxlError::InvalidBoxLength));
}

#[test]
fn an_unknown_type_code_is_reported_before_the_length() {
    let bytes = [0, 0, 0, 3, b'n', b'o', b'p', b'e'];
    assert_eq!(JxlFile::read(&bytes), Err(JxlError::UnknownBoxType));
    let bytes = [0, 0, 0, 99, b'n', b'o', b'p', b'e'];
    assert_eq!(JxlFile::read(&bytes), Err(JxlError::UnknownBoxType));
}

#[test]
fn a_signature_box_holds_the_signature() {
    assert_eq!(
        JxlFile::read(&signature_box()),
        Ok(JxlFile { boxes: vec![a_box(JxlBoxType::JXL_SIGNATURE, b"\x0d\x0a\x87\x0a", 12)] })
    );
    assert_eq!(
        JxlFile::read(&small_box(b"JXL ", b"\x0d\x0a\x87\x0b")),
        Err(JxlError::InvalidSignature)
    );
    assert_eq!(
        JxlFile::read(&small_box(b"JXL ", b"\x0d\x0a\x87")),
        Err(JxlError::InvalidSignature)
    );
    assert_eq!(
        JxlFile::read(&small_box(b"JXL ", b"\x0d\x0a\x87\x0a\x00")),
        Err(JxlError::InvalidSignature)
    );
    assert_eq!(JxlFile::read(&small_box(b"JXL ", b"")), Err(JxlError::InvalidSignature));
}

#[test]
fn a_file_type_box_holds_the_file_type() {
    assert_eq!(
        JxlFile::read(&file_type_box()),
        Ok(JxlFile { boxes: vec![a_box(JxlBoxType::JXL_FILE_TYPE, b"jxl \0\0\0\0jxl ", 20)] })
    );
    assert_eq!(
        JxlFile::read(&small_box(b"ftyp", b"jxl \0\0\0\x01jxl ")),
        Err(JxlError::InvalidFileType)
    );
    assert_eq!(
        JxlFile::read(&small_box(b"ftyp", b"jxl \0\0\0\0")),
        Err(JxlError::InvalidFileType)
    );
    let mut bytes = signature_box();
    bytes.extend(small_box(b"ftyp", b"mp42\0\0\0\0mp42"));
    assert_eq!(JxlFile::read(&bytes), Err(JxlError::InvalidFileType));
}

#[test]
fn a_codestream_may_follow_the_boxes_bare() {
    let mut bytes = signature_box();
    bytes.extend_from_slice(&[0xff, 0x0a, 0x11, 0x22]);
    assert_eq!(
        JxlFile::read(&bytes),
        Ok(JxlFile {
            boxes: vec![
                a_box(JxlBoxType::JXL_SIGNATURE, b"\x0d\x0a\x87\x0a", 12),
                a_box(JxlBoxType::JXL_RAW, &[0xff, 0x0a, 0x11, 0x22], 4),
            ]
        })
    );
}

#[test]
fn the_codestream_is_the_payload_of_the_raw_box() {
    let bytes = [0xff, 0x0a, 0x01, 0x02];
    let file = JxlFile::read(&bytes).unwrap();
    assert_eq!(file.get_image_data(), Ok(bytes.to_vec()));
}

#[test]
fn the_codestream_joins_the_codestream_boxes_in_order() {
    let mut bytes = signature_box();
    bytes.extend(file_type_box());
    bytes.extend(small_box(b"jxlc", &[0xff, 0x0a, 0x01]));
    bytes.extend(small_box(b"Exif", &[0x99, 0x98]));
    bytes.extend(large_box(b"jxlc", &[0x02, 0x03]));
    bytes.extend(small_box(b"jxlc", &[]));
    bytes.extend_from_slice(&[0xff, 0x0a, 0x04]);
    let file = JxlFile::read(&bytes).unwrap();
    assert_eq!(file.boxes.len(), 7);
    assert_eq!(
        file.get_image_data(),
        Ok(vec![0xff, 0x0a, 0x01, 0x02, 0x03, 0xff, 0x0a, 0x04])
    );
}

#[test]
fn a_file_without_a_codestream_has_an_empty_one() {
    assert_eq!(JxlFile { boxes: vec![] }.get_image_data(), Ok(vec![]));
    let mut bytes = signature_box();
    bytes.extend(file_type_box());
    assert_eq!(JxlFile::read(&bytes).unwrap().get_image_data(), Ok(vec![]));
}

#[test]
fn a_partial_codestream_is_unsupported() {
    let mut bytes = signature_box();
    bytes.extend(small_box(b"jxlc", &[0xff, 0x0a]));
    bytes.extend(small_box(b"jxlp", &[0, 0, 0, 0, 0xff, 0x0a]));
    let file = JxlFile::read(&bytes).unwrap();
    assert_eq!(
        file.get_image_data(),
        Err(JxlError::Unsupported(Unsupported::PartialCodestream))
    );
    let file = JxlFile::read(&small_box(b"jxlp", &[0x80, 0, 0, 0])).unwrap();
    assert_eq!(
        file.get_image_data(),
        Err(JxlError::Unsupported(Unsupported::PartialCodestream))
    );
}

#[test]
fn a_partial_codestream_box_starts_with_its_index() {
    let partial = |payload: &[u8]| a_box(JxlBoxType::JXL_PARTIAL, payload, payload.len() as u64 + 8);
    assert_eq!(partial(&[0, 0, 0, 0]).partial_index(), Some((0, false)));
    assert_eq!(partial(&[0, 0, 1, 2, 0xff]).partial_index(), Some((258, false)));
    assert_eq!(partial(&[0x80, 0, 0, 3]).partial_index(), Some((3, true)));
    assert_eq!(partial(&[0xff, 0xff, 0xff, 0xff]).partial_index(), Some((0x7fff_ffff, true)));
    assert_eq!(partial(&[0x7f, 0xff, 0xff, 0xff]).partial_index(), Some((0x7fff_ffff, false)));
    assert_eq!(partial(&[0, 0, 1]).partial_index(), None);
    assert_eq!(a_box(JxlBoxType::JXL_CODESTREAM, &[0, 0, 0, 1], 12).partial_index(), None);
}

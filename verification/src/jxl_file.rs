//! The box container: a file is either a bare codestream or a sequence of
//! typed, length-delimited boxes, some of which carry the codestream.

use crate::error::{view_of, JxlError, Unsupported};
use vstd::prelude::*;
use vstd::slice::{slice_subrange, slice_to_vec};

verus! {

/// What a box holds.
#[allow(non_camel_case_types)]
#[derive(Debug, Clone, Copy, PartialEq, Eq, Structural)]
pub enum JxlBoxType {
    /// The whole of a file that is a bare codestream.
    JXL_RAW,
    /// `JXL `
    JXL_SIGNATURE,
    /// `ftyp`
    JXL_FILE_TYPE,
    /// `jxll`
    JXL_LEVEL,
    /// `jumb`
    JXL_JUMBF,
    /// `Exif`
    JXL_EXIF,
    /// `xml `
    JXL_XML,
    /// `brob`
    JXL_BROTLI,
    /// `jxli`
    JXL_INDEX,
    /// `jxlc`
    JXL_CODESTREAM,
    /// `jxlp`
    JXL_PARTIAL,
    /// `jbrd`
    JXL_RECONSTRUCTION,
}

/// A box of a file: its type, its payload, and its length in the file,
/// header included.
#[derive(Debug, PartialEq, Eq)]
pub struct JxlBox {
    pub box_type: JxlBoxType,
    pub data: Vec<u8>,
    pub length: u64,
}

/// A box as a mathematical value.
pub struct JxlBoxView {
    pub box_type: JxlBoxType,
    pub data: Seq<u8>,
    pub length: u64,
}

impl View for JxlBox {
    type V = JxlBoxView;

    open spec fn view(&self) -> JxlBoxView {
        JxlBoxView { box_type: self.box_type, data: self.data@, length: self.length }
    }
}

/// The boxes of a file, in file order.
#[derive(Debug, PartialEq, Eq)]
pub struct JxlFile {
    pub boxes: Vec<JxlBox>,
}

/// The views of a sequence of boxes.
pub open spec fn spec_box_views(boxes: Seq<JxlBox>) -> Seq<JxlBoxView> {
    boxes.map_values(|b: JxlBox| b@)
}

impl View for JxlFile {
    type V = Seq<JxlBoxView>;

    open spec fn view(&self) -> Seq<JxlBoxView> {
        spec_box_views(self.boxes@)
    }
}

/// The big-endian number in the four bytes of `bytes` from `at` on.
pub open spec fn spec_be_u32(bytes: Seq<u8>, at: int) -> u32 {
    (bytes[at] * 0x100_0000 + bytes[at + 1] * 0x1_0000 + bytes[at + 2] * 0x100 + bytes[at
        + 3]) as u32
}

/// The big-endian number in the eight bytes of `bytes` from `at` on.
pub open spec fn spec_be_u64(bytes: Seq<u8>, at: int) -> u64 {
    (spec_be_u32(bytes, at) * 0x1_0000_0000 + spec_be_u32(bytes, at + 4)) as u64
}

/// The box type that a four-byte type code names, if it names one.
pub open spec fn spec_box_type(a: u8, b: u8, c: u8, d: u8) -> Option<JxlBoxType> {
    let code = (a as char, b as char, c as char, d as char);
    if code == ('J', 'X', 'L', ' ') {
        Some(JxlBoxType::JXL_SIGNATURE)
    } else if code == ('f', 't', 'y', 'p') {
        Some(JxlBoxType::JXL_FILE_TYPE)
    } else if code == ('j', 'x', 'l', 'l') {
        Some(JxlBoxType::JXL_LEVEL)
    } else if code == ('j', 'u', 'm', 'b') {
        Some(JxlBoxType::JXL_JUMBF)
    } else if code == ('E', 'x', 'i', 'f') {
        Some(JxlBoxType::JXL_EXIF)
    } else if code == ('x', 'm', 'l', ' ') {
        Some(JxlBoxType::JXL_XML)
    } else if code == ('b', 'r', 'o', 'b') {
        Some(JxlBoxType::JXL_BROTLI)
    } else if code == ('j', 'x', 'l', 'i') {
        Some(JxlBoxType::JXL_INDEX)
    } else if code == ('j', 'x', 'l', 'c') {
        Some(JxlBoxType::JXL_CODESTREAM)
    } else if code == ('j', 'x', 'l', 'p') {
        Some(JxlBoxType::JXL_PARTIAL)
    } else if code == ('j', 'b', 'r', 'd') {
        Some(JxlBoxType::JXL_RECONSTRUCTION)
    } else {
        None
    }
}

/// The payload that a signature box has to carry.
pub open spec fn spec_signature_payload() -> Seq<u8> {
    seq![0x0du8, 0x0au8, 0x87u8, 0x0au8]
}

/// The payload that a file-type box has to carry: `jxl `, four zero bytes,
/// `jxl `.
pub open spec fn spec_file_type_payload() -> Seq<u8> {
    seq![
        0x6au8,
        0x78u8,
        0x6cu8,
        0x20u8,
        0u8,
        0u8,
        0u8,
        0u8,
        0x6au8,
        0x78u8,
        0x6cu8,
        0x20u8,
    ]
}

/// Whether `input` starts with the two-byte marker of a bare codestream.
pub open spec fn spec_is_raw(input: Seq<u8>) -> bool {
    input.len() >= 2 && input[0] == 0xff && input[1] == 0x0a
}

/// The box that `input` starts with.
///
/// A box starts with its length as a big-endian number in four bytes and its
/// type code in four more. A length of 1 says that the length stands in the
/// eight bytes that follow. The length counts the header, and the payload is
/// what remains of it. The payloads of a signature box and of a file-type
/// box are fixed.
pub open spec fn spec_parse_box(input: Seq<u8>) -> Result<JxlBoxView, JxlError> {
    let box_type = spec_box_type(input[4], input[5], input[6], input[7]);
    let extended = spec_be_u32(input, 0) == 1;
    let header: int = if extended {
        16
    } else {
        8
    };
    let length = if extended {
        spec_be_u64(input, 8)
    } else {
        spec_be_u32(input, 0) as u64
    };
    let data = input.subrange(header, length as int);
    if input.len() < 8 {
        Err(JxlError::Truncated)
    } else if box_type is None {
        Err(JxlError::UnknownBoxType)
    } else if input.len() < header {
        Err(JxlError::Truncated)
    } else if length < header {
        Err(JxlError::InvalidBoxLength)
    } else if length > input.len() {
        Err(JxlError::Truncated)
    } else if box_type == Some(JxlBoxType::JXL_SIGNATURE) && data != spec_signature_payload() {
        Err(JxlError::InvalidSignature)
    } else if box_type == Some(JxlBoxType::JXL_FILE_TYPE) && data != spec_file_type_payload() {
        Err(JxlError::InvalidFileType)
    } else {
        Ok(JxlBoxView { box_type: box_type->0, data, length })
    }
}

/// `front`, followed by the boxes of `rest` where there are any.
pub open spec fn spec_prepend(front: Seq<JxlBoxView>, rest: Result<Seq<JxlBoxView>, JxlError>)
    -> Result<Seq<JxlBoxView>, JxlError> {
    match rest {
        Ok(boxes) => Ok(front + boxes),
        Err(e) => Err(e),
    }
}

/// The boxes of a file.
///
/// An empty input has none. An input that starts with the marker of a bare
/// codestream is one raw box that holds all of it. Any other input is the
/// box that it starts with, followed by the boxes of what comes after that
/// box; the first box that cannot be read decides the outcome.
pub open spec fn spec_parse_boxes(input: Seq<u8>) -> Result<Seq<JxlBoxView>, JxlError>
    decreases input.len(),
{
    if input.len() == 0 {
        Ok(Seq::empty())
    } else if spec_is_raw(input) {
        Ok(seq![JxlBoxView { box_type: JxlBoxType::JXL_RAW, data: input, length: input.len() as u64 }])
    } else {
        match spec_parse_box(input) {
            Err(e) => Err(e),
            Ok(first) => spec_prepend(
                seq![first],
                spec_parse_boxes(input.skip(first.length as int)),
            ),
        }
    }
}

/// The payloads of the raw and the codestream boxes, one after another in
/// the order of the boxes.
pub open spec fn spec_codestream_payloads(boxes: Seq<JxlBoxView>) -> Seq<u8>
    decreases boxes.len(),
{
    if boxes.len() == 0 {
        Seq::empty()
    } else {
        let front = spec_codestream_payloads(boxes.drop_last());
        let last = boxes.last();
        if last.box_type == JxlBoxType::JXL_RAW || last.box_type == JxlBoxType::JXL_CODESTREAM {
            front + last.data
        } else {
            front
        }
    }
}

/// The codestream of a file: the payloads of its raw and codestream boxes,
/// unless a partial-codestream box stands among the boxes.
pub open spec fn spec_codestream(boxes: Seq<JxlBoxView>) -> Result<Seq<u8>, JxlError> {
    if exists|i: int| 0 <= i < boxes.len() && (#[trigger] boxes[i]).box_type == JxlBoxType::JXL_PARTIAL {
        Err(JxlError::Unsupported(Unsupported::PartialCodestream))
    } else {
        Ok(spec_codestream_payloads(boxes))
    }
}

/// What a partial-codestream box says of its place: the big-endian number
/// in its first four bytes holds the index of the box in its low 31 bits,
/// and in its top bit whether the box is the last one.
pub open spec fn spec_partial_index(b: JxlBoxView) -> Option<(u32, bool)> {
    if b.box_type == JxlBoxType::JXL_PARTIAL && b.data.len() >= 4 {
        let raw = spec_be_u32(b.data, 0);
        Some(((raw % 0x8000_0000) as u32, raw >= 0x8000_0000))
    } else {
        None
    }
}

/// Reads the big-endian number in the four bytes of `input` from `at` on.
fn read_be_u32(input: &[u8], at: usize) -> (r: u32)
    requires
        at + 4 <= input.len(),
    ensures
        r == spec_be_u32(input@, at as int),
{
    (input[at] as u32) * 0x100_0000 + (input[at + 1] as u32) * 0x1_0000 + (input[at + 2] as u32)
        * 0x100 + (input[at + 3] as u32)
}

/// Reads the big-endian number in the eight bytes of `input` from `at` on.
fn read_be_u64(input: &[u8], at: usize) -> (r: u64)
    requires
        at + 8 <= input.len(),
    ensures
        r == spec_be_u64(input@, at as int),
{
    (read_be_u32(input, at) as u64) * 0x1_0000_0000 + (read_be_u32(input, at + 4) as u64)
}

/// Compares a byte string with the bytes that it is expected to hold.
fn bytes_equal(data: &[u8], expected: &[u8]) -> (r: bool)
    ensures
        r == (data@ == expected@),
{
    if data.len() != expected.len() {
        return false;
    }
    let mut i: usize = 0;
    while i < data.len()
        invariant
            i <= data@.len(),
            data@.len() == expected@.len(),
            forall|j: int| 0 <= j < i ==> data@[j] == expected@[j],
        decreases data.len() - i,
    {
        if data[i] != expected[i] {
            return false;
        }
        i += 1;
    }
    assert(data@ =~= expected@);
    true
}

impl JxlBoxType {
    /// The box type that a four-byte type code names, if it names one.
    pub fn from_code(a: u8, b: u8, c: u8, d: u8) -> (r: Option<Self>)
        ensures
            r == spec_box_type(a, b, c, d),
    {
        match (a, b, c, d) {
            (0x4a, 0x58, 0x4c, 0x20) => Some(JxlBoxType::JXL_SIGNATURE),
            (0x66, 0x74, 0x79, 0x70) => Some(JxlBoxType::JXL_FILE_TYPE),
            (0x6a, 0x78, 0x6c, 0x6c) => Some(JxlBoxType::JXL_LEVEL),
            (0x6a, 0x75, 0x6d, 0x62) => Some(JxlBoxType::JXL_JUMBF),
            (0x45, 0x78, 0x69, 0x66) => Some(JxlBoxType::JXL_EXIF),
            (0x78, 0x6d, 0x6c, 0x20) => Some(JxlBoxType::JXL_XML),
            (0x62, 0x72, 0x6f, 0x62) => Some(JxlBoxType::JXL_BROTLI),
            (0x6a, 0x78, 0x6c, 0x69) => Some(JxlBoxType::JXL_INDEX),
            (0x6a, 0x78, 0x6c, 0x63) => Some(JxlBoxType::JXL_CODESTREAM),
            (0x6a, 0x78, 0x6c, 0x70) => Some(JxlBoxType::JXL_PARTIAL),
            (0x6a, 0x62, 0x72, 0x64) => Some(JxlBoxType::JXL_RECONSTRUCTION),
            _ => None,
        }
    }
}

impl JxlBox {
    /// Reads the box that `input` starts with.
    pub fn read(input: &[u8]) -> (r: Result<Self, JxlError>)
        ensures
            view_of(r) == spec_parse_box(input@),
            r matches Ok(b) ==> 8 <= b.length <= input@.len(),
    {
        if input.len() < 8 {
            return Err(JxlError::Truncated);
        }
        let box_type = match JxlBoxType::from_code(input[4], input[5], input[6], input[7]) {
            Some(box_type) => box_type,
            None => {
                return Err(JxlError::UnknownBoxType);
            },
        };
        let small = read_be_u32(input, 0);
        let header: usize = if small == 1 {
            16
        } else {
            8
        };
        if input.len() < header {
            return Err(JxlError::Truncated);
        }
        let length: u64 = if small == 1 {
            read_be_u64(input, 8)
        } else {
            small as u64
        };
        if length < header as u64 {
            return Err(JxlError::InvalidBoxLength);
        }
        if length > input.len() as u64 {
            return Err(JxlError::Truncated);
        }
        let data = slice_to_vec(slice_subrange(input, header, length as usize));
        match box_type {
            JxlBoxType::JXL_SIGNATURE => {
                if !bytes_equal(data.as_slice(), &[0x0d, 0x0a, 0x87, 0x0a]) {
                    return Err(JxlError::InvalidSignature);
                }
            },
            JxlBoxType::JXL_FILE_TYPE => {
                if !bytes_equal(
                    data.as_slice(),
                    &[0x6a, 0x78, 0x6c, 0x20, 0, 0, 0, 0, 0x6a, 0x78, 0x6c, 0x20],
                ) {
                    return Err(JxlError::InvalidFileType);
                }
            },
            _ => {},
        }
        Ok(JxlBox { box_type, data, length })
    }

    /// The index of a partial-codestream box and whether it is the last
    /// one; nothing for a box of another type or with a payload of less than
    /// four bytes.
    pub fn partial_index(&self) -> (r: Option<(u32, bool)>)
        ensures
            r == spec_partial_index(self@),
    {
        match self.box_type {
            JxlBoxType::JXL_PARTIAL => {
                if self.data.len() < 4 {
                    return None;
                }
                let box_index = read_be_u32(self.data.as_slice(), 0);
                assert(box_index & !(1u32 << 31) == box_index % 0x8000_0000) by (bit_vector);
                assert((box_index & (1u32 << 31) != 0) == (box_index >= 0x8000_0000))
                    by (bit_vector);
                Some((box_index & !(1 << 31), box_index & (1 << 31) != 0))
            },
            _ => None,
        }
    }
}

impl JxlFile {
    /// Splits the bytes of a file into its boxes.
    pub fn read(input: &[u8]) -> (r: Result<Self, JxlError>)
        ensures
            view_of(r) == spec_parse_boxes(input@),
    {
        let mut boxes: Vec<JxlBox> = Vec::new();
        let mut pos: usize = 0;
        proof {
            let all = spec_parse_boxes(input@);
            assert(input@.skip(0) =~= input@);
            assert(spec_box_views(boxes@) =~= Seq::empty());
            if all is Ok {
                assert(Seq::<JxlBoxView>::empty() + all->Ok_0 =~= all->Ok_0);
            }
        }
        while pos < input.len()
            invariant
                pos <= input@.len(),
                spec_parse_boxes(input@) == spec_prepend(
                    spec_box_views(boxes@),
                    spec_parse_boxes(input@.skip(pos as int)),
                ),
            decreases input@.len() - pos,
        {
            let rest = slice_subrange(input, pos, input.len());
            let ghost front = spec_box_views(boxes@);
            assert(rest@ =~= input@.skip(pos as int));
            if rest.len() >= 2 && rest[0] == 0xff && rest[1] == 0x0a {
                let raw = JxlBox {
                    box_type: JxlBoxType::JXL_RAW,
                    length: rest.len() as u64,
                    data: slice_to_vec(rest),
                };
                boxes.push(raw);
                proof {
                    assert(spec_box_views(boxes@) =~= front + seq![raw@]);
                    assert(input@.skip(input@.len() as int).len() == 0);
                    assert(spec_box_views(boxes@) + Seq::<JxlBoxView>::empty() =~= spec_box_views(
                        boxes@,
                    ));
                }
                pos = input.len();
            } else {
                let first = match JxlBox::read(rest) {
                    Ok(first) => first,
                    Err(e) => {
                        return Err(e);
                    },
                };
                let length = first.length as usize;
                proof {
                    let after = spec_parse_boxes(rest@.skip(length as int));
                    assert(rest@.skip(length as int) =~= input@.skip(pos + length));
                    assert(spec_box_views(boxes@.push(first)) =~= front + seq![first@]);
                    if after is Ok {
                        assert(front + (seq![first@] + after->Ok_0) =~= (front + seq![first@])
                            + after->Ok_0);
                    }
                }
                boxes.push(first);
                pos += length;
            }
        }
        proof {
            assert(spec_box_views(boxes@) + Seq::<JxlBoxView>::empty() =~= spec_box_views(boxes@));
        }
        Ok(JxlFile { boxes })
    }

    /// The codestream that the boxes of the file carry.
    pub fn get_image_data(&self) -> (r: Result<Vec<u8>, JxlError>)
        ensures
            view_of(r) == spec_codestream(self@),
    {
        let mut output_vector: Vec<u8> = Vec::new();
        let mut i: usize = 0;
        while i < self.boxes.len()
            invariant
                i <= self.boxes@.len(),
                output_vector@ == spec_codestream_payloads(self@.take(i as int)),
                forall|j: int| 0 <= j < i ==> (#[trigger] self@[j]).box_type != JxlBoxType::JXL_PARTIAL,
            decreases self.boxes.len() - i,
        {
            let jxl_box = &self.boxes[i];
            proof {
                assert(self@.take(i + 1).drop_last() =~= self@.take(i as int));
                assert(self@[i as int] == jxl_box@);
            }
            match jxl_box.box_type {
                JxlBoxType::JXL_RAW | JxlBoxType::JXL_CODESTREAM => {
                    let ghost before = output_vector@;
                    output_vector.extend_from_slice(jxl_box.data.as_slice());
                    assert(output_vector@ =~= before + jxl_box.data@);
                },
                JxlBoxType::JXL_PARTIAL => {
                    return Err(JxlError::Unsupported(Unsupported::PartialCodestream));
                },
                _ => {},
            }
            i += 1;
        }
        proof {
            assert(self@.take(i as int) =~= self@);
        }
        Ok(output_vector)
    }
}

} // verus!

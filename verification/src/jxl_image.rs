//! The image header: the size records and the image metadata.

use crate::bit_reader::{spec_read_quad, spec_read_var_u64, BitStream, QuadDistributions};
use crate::bits::{spec_read_bool, spec_read_u8};
use crate::common::ImageSize;
use crate::error::{view_of, JxlError, Unsupported};
use vstd::arithmetic::power2::lemma2_to64;
use vstd::prelude::*;

verus! {

/// The width that an aspect ratio derives from a height: the height times
/// 1, 6/5, 4/3, 3/2, 16/9, 5/4 or 2 for the ratios 1 to 7, rounded down.
pub open spec fn spec_ratio_width(height: u32, ratio: u8) -> int {
    if ratio == 1 {
        height as int
    } else if ratio == 2 {
        height * 6 / 5
    } else if ratio == 3 {
        height * 4 / 3
    } else if ratio == 4 {
        height * 3 / 2
    } else if ratio == 5 {
        height * 16 / 9
    } else if ratio == 6 {
        height * 5 / 4
    } else {
        height * 2
    }
}

/// Derives a width from a height and one of the seven fixed aspect ratios.
pub fn ratio_width(height: u32, ratio: u8) -> (width: u32)
    requires
        1 <= ratio <= 7,
        spec_ratio_width(height, ratio) <= u32::MAX,
    ensures
        width == spec_ratio_width(height, ratio),
{
    let h: u64 = height as u64;
    let w: u64 = match ratio {
        1 => h,
        2 => (h * 6) / 5,
        3 => (h * 4) / 3,
        4 => (h * 3) / 2,
        5 => (h * 16) / 9,
        6 => (h * 5) / 4,
        _ => h * 2,
    };
    w as u32
}

/// One dimension of an image size: a multiple of eight up to 256 where
/// `div8` is set, else a selector-coded integer from 1 upwards.
#[verifier::opaque]
pub open spec fn spec_read_dimension(s: Seq<bool>, div8: bool) -> (Option<u32>, Seq<bool>) {
    if div8 {
        let raw = spec_read_u8(s, 5);
        match raw.0 {
            Some(v) => (Some(((v + 1) * 8) as u32), raw.1),
            None => (None, raw.1),
        }
    } else {
        spec_read_quad(
            s,
            QuadDistributions::BitCountWithOffset(9, 1),
            QuadDistributions::BitCountWithOffset(13, 1),
            QuadDistributions::BitCountWithOffset(18, 1),
            QuadDistributions::BitCountWithOffset(30, 1),
        )
    }
}

/// One dimension of a preview size: a multiple of eight where `div8` is
/// set, else a selector-coded integer from 1 upwards.
#[verifier::opaque]
pub open spec fn spec_read_preview_dimension(s: Seq<bool>, div8: bool) -> (
    Option<u32>,
    Seq<bool>,
) {
    if div8 {
        let raw = spec_read_quad(
            s,
            QuadDistributions::RawValue(16),
            QuadDistributions::RawValue(32),
            QuadDistributions::BitCountWithOffset(5, 1),
            QuadDistributions::BitCountWithOffset(9, 33),
        );
        match raw.0 {
            Some(v) => (Some((v * 8) as u32), raw.1),
            None => (None, raw.1),
        }
    } else {
        spec_read_quad(
            s,
            QuadDistributions::BitCountWithOffset(6, 1),
            QuadDistributions::BitCountWithOffset(8, 65),
            QuadDistributions::BitCountWithOffset(10, 321),
            QuadDistributions::BitCountWithOffset(12, 1345),
        )
    }
}

/// A size record: the `div8` flag, the height, a three-bit aspect ratio, and
/// the width, which is coded like the height where the ratio is 0 and derived
/// from the height otherwise. The first field that the input is too short
/// for ends the read.
#[verifier::opaque]
pub open spec fn spec_read_size(s: Seq<bool>) -> (Result<ImageSize, JxlError>, Seq<bool>) {
    let div8 = spec_read_bool(s);
    let height = spec_read_dimension(div8.1, div8.0->0);
    let ratio = spec_read_u8(height.1, 3);
    let width = if ratio.0 == Some(0u8) {
        spec_read_dimension(ratio.1, div8.0->0)
    } else {
        (Some(spec_ratio_width(height.0->0, ratio.0->0) as u32), ratio.1)
    };
    if div8.0 is None {
        (Err(JxlError::Truncated), div8.1)
    } else if height.0 is None {
        (Err(JxlError::Truncated), height.1)
    } else if ratio.0 is None {
        (Err(JxlError::Truncated), ratio.1)
    } else if width.0 is None {
        (Err(JxlError::Truncated), width.1)
    } else {
        (Ok(ImageSize { width: width.0->0, height: height.0->0 }), width.1)
    }
}

/// A preview size record: laid out like a size record, with the preview's
/// own coding of a dimension.
#[verifier::opaque]
pub open spec fn spec_read_preview_size(s: Seq<bool>) -> (Result<ImageSize, JxlError>, Seq<bool>) {
    let div8 = spec_read_bool(s);
    let height = spec_read_preview_dimension(div8.1, div8.0->0);
    let ratio = spec_read_u8(height.1, 3);
    let width = if ratio.0 == Some(0u8) {
        spec_read_preview_dimension(ratio.1, div8.0->0)
    } else {
        (Some(spec_ratio_width(height.0->0, ratio.0->0) as u32), ratio.1)
    };
    if div8.0 is None {
        (Err(JxlError::Truncated), div8.1)
    } else if height.0 is None {
        (Err(JxlError::Truncated), height.1)
    } else if ratio.0 is None {
        (Err(JxlError::Truncated), ratio.1)
    } else if width.0 is None {
        (Err(JxlError::Truncated), width.1)
    } else {
        (Ok(ImageSize { width: width.0->0, height: height.0->0 }), width.1)
    }
}

/// Reads one dimension of an image size.
fn read_dimension(bitstream: &mut BitStream, div8: bool) -> (r: Option<u32>)
    ensures
        (r, final(bitstream)@) == spec_read_dimension(old(bitstream)@, div8),
        r matches Some(v) ==> 1 <= v <= 0x4000_0000,
{
    proof {
        reveal(spec_read_dimension);
        lemma2_to64();
    }
    if div8 {
        Some((bitstream.read_u8(5)? + 1) as u32 * 8)
    } else {
        bitstream.read_quad_u32(
            QuadDistributions::BitCountWithOffset(9, 1),
            QuadDistributions::BitCountWithOffset(13, 1),
            QuadDistributions::BitCountWithOffset(18, 1),
            QuadDistributions::BitCountWithOffset(30, 1),
        )
    }
}

/// Reads one dimension of a preview size.
fn read_preview_dimension(bitstream: &mut BitStream, div8: bool) -> (r: Option<u32>)
    ensures
        (r, final(bitstream)@) == spec_read_preview_dimension(old(bitstream)@, div8),
        r matches Some(v) ==> 1 <= v <= 5440,
{
    proof {
        reveal(spec_read_preview_dimension);
        lemma2_to64();
    }
    if div8 {
        Some(
            bitstream.read_quad_u32(
                QuadDistributions::RawValue(16),
                QuadDistributions::RawValue(32),
                QuadDistributions::BitCountWithOffset(5, 1),
                QuadDistributions::BitCountWithOffset(9, 33),
            )? * 8,
        )
    } else {
        bitstream.read_quad_u32(
            QuadDistributions::BitCountWithOffset(6, 1),
            QuadDistributions::BitCountWithOffset(8, 65),
            QuadDistributions::BitCountWithOffset(10, 321),
            QuadDistributions::BitCountWithOffset(12, 1345),
        )
    }
}

impl ImageSize {
    /// Reads the size record of an image or of an intrinsic size. Both
    /// dimensions of a size that was read are at least 1.
    pub fn read(bitstream: &mut BitStream) -> (r: Result<Self, JxlError>)
        ensures
            (r, final(bitstream)@) == spec_read_size(old(bitstream)@),
            r matches Ok(size) ==> size.width >= 1 && size.height >= 1,
    {
        proof {
            reveal(spec_read_size);
        }
        let div8 = bitstream.read_bool().ok_or(JxlError::Truncated)?;
        let height = read_dimension(bitstream, div8).ok_or(JxlError::Truncated)?;
        let ratio = bitstream.read_u8(3).ok_or(JxlError::Truncated)?;
        let width = if ratio == 0 {
            read_dimension(bitstream, div8).ok_or(JxlError::Truncated)?
        } else {
            proof {
                lemma2_to64();
            }
            ratio_width(height, ratio)
        };
        Ok(ImageSize { width, height })
    }

    /// Reads the size record of a preview. Both dimensions of a size that
    /// was read are at least 1.
    pub fn read_preview(bitstream: &mut BitStream) -> (r: Result<Self, JxlError>)
        ensures
            (r, final(bitstream)@) == spec_read_preview_size(old(bitstream)@),
            r matches Ok(size) ==> size.width >= 1 && size.height >= 1,
    {
        proof {
            reveal(spec_read_preview_size);
        }
        let div8 = bitstream.read_bool().ok_or(JxlError::Truncated)?;
        let height = read_preview_dimension(bitstream, div8).ok_or(JxlError::Truncated)?;
        let ratio = bitstream.read_u8(3).ok_or(JxlError::Truncated)?;
        let width = if ratio == 0 {
            read_preview_dimension(bitstream, div8).ok_or(JxlError::Truncated)?
        } else {
            proof {
                lemma2_to64();
            }
            ratio_width(height, ratio)
        };
        Ok(ImageSize { width, height })
    }
}

/// How the image is to be turned or mirrored for display.
#[derive(Debug, Clone, Copy, PartialEq, Eq, Structural)]
pub enum JxlOrientation {
    Normal,
    Rotate90,
    Rotate180,
    Rotate270,
    HorizontalFlip,
    VerticalFlip,
    Rotate90HorizontalFlip,
    HorizontalFlipRotate90,
}

/// The orientation that a three-bit code stands for.
pub open spec fn spec_orientation(value: u8) -> JxlOrientation {
    if value == 0 {
        JxlOrientation::Normal
    } else if value == 1 {
        JxlOrientation::HorizontalFlip
    } else if value == 2 {
        JxlOrientation::Rotate180
    } else if value == 3 {
        JxlOrientation::VerticalFlip
    } else if value == 4 {
        JxlOrientation::Rotate90HorizontalFlip
    } else if value == 5 {
        JxlOrientation::Rotate90
    } else if value == 6 {
        JxlOrientation::HorizontalFlipRotate90
    } else {
        JxlOrientation::Rotate270
    }
}

impl JxlOrientation {
    /// The orientation that a three-bit code stands for.
    pub fn from(value: u8) -> (r: Self)
        requires
            value < 8,
        ensures
            r == spec_orientation(value),
    {
        match value {
            0 => JxlOrientation::Normal,
            1 => JxlOrientation::HorizontalFlip,
            2 => JxlOrientation::Rotate180,
            3 => JxlOrientation::VerticalFlip,
            4 => JxlOrientation::Rotate90HorizontalFlip,
            5 => JxlOrientation::Rotate90,
            6 => JxlOrientation::HorizontalFlipRotate90,
            _ => JxlOrientation::Rotate270,
        }
    }
}

/// The timing of an animation.
#[derive(Debug, Clone, Copy, PartialEq, Eq, Structural)]
pub struct JxlAnimationInfo {
    pub tps_numerator: u32,
    pub tps_denominator: u32,
    pub loop_count: u32,
    pub has_timecodes: bool,
}

/// An animation record: ticks per second as a numerator and a denominator,
/// the loop count, and the time-code flag.
#[verifier::opaque]
pub open spec fn spec_read_animation(s: Seq<bool>) -> (
    Result<JxlAnimationInfo, JxlError>,
    Seq<bool>,
) {
    let numerator = spec_read_quad(
        s,
        QuadDistributions::RawValue(100),
        QuadDistributions::RawValue(1000),
        QuadDistributions::BitCountWithOffset(10, 1),
        QuadDistributions::BitCountWithOffset(30, 1),
    );
    let denominator = spec_read_quad(
        numerator.1,
        QuadDistributions::RawValue(1),
        QuadDistributions::RawValue(1001),
        QuadDistributions::BitCountWithOffset(8, 1),
        QuadDistributions::BitCountWithOffset(10, 1),
    );
    let loop_count = spec_read_quad(
        denominator.1,
        QuadDistributions::RawValue(0),
        QuadDistributions::BitCount(3),
        QuadDistributions::BitCount(16),
        QuadDistributions::BitCount(32),
    );
    let has_timecodes = spec_read_bool(loop_count.1);
    if numerator.0 is None {
        (Err(JxlError::Truncated), numerator.1)
    } else if denominator.0 is None {
        (Err(JxlError::Truncated), denominator.1)
    } else if loop_count.0 is None {
        (Err(JxlError::Truncated), loop_count.1)
    } else if has_timecodes.0 is None {
        (Err(JxlError::Truncated), has_timecodes.1)
    } else {
        (
            Ok(
                JxlAnimationInfo {
                    tps_numerator: numerator.0->0,
                    tps_denominator: denominator.0->0,
                    loop_count: loop_count.0->0,
                    has_timecodes: has_timecodes.0->0,
                },
            ),
            has_timecodes.1,
        )
    }
}

impl JxlAnimationInfo {
    /// Reads an animation record.
    pub fn read(bitstream: &mut BitStream) -> (r: Result<Self, JxlError>)
        ensures
            (r, final(bitstream)@) == spec_read_animation(old(bitstream)@),
    {
        proof {
            reveal(spec_read_animation);
        }
        let tps_numerator = bitstream.read_quad_u32(
            QuadDistributions::RawValue(100),
            QuadDistributions::RawValue(1000),
            QuadDistributions::BitCountWithOffset(10, 1),
            QuadDistributions::BitCountWithOffset(30, 1),
        ).ok_or(JxlError::Truncated)?;
        let tps_denominator = bitstream.read_quad_u32(
            QuadDistributions::RawValue(1),
            QuadDistributions::RawValue(1001),
            QuadDistributions::BitCountWithOffset(8, 1),
            QuadDistributions::BitCountWithOffset(10, 1),
        ).ok_or(JxlError::Truncated)?;
        let loop_count = bitstream.read_quad_u32(
            QuadDistributions::RawValue(0),
            QuadDistributions::BitCount(3),
            QuadDistributions::BitCount(16),
            QuadDistributions::BitCount(32),
        ).ok_or(JxlError::Truncated)?;
        let has_timecodes = bitstream.read_bool().ok_or(JxlError::Truncated)?;
        Ok(JxlAnimationInfo { tps_numerator, tps_denominator, loop_count, has_timecodes })
    }
}

/// The precision of the samples.
#[derive(Debug, Clone, Copy, PartialEq, Eq, Structural)]
pub enum JxlBitDepth {
    Integer { bits: u8 },
    Float { bits: u8, exp_bits: u8 },
}

/// A bit depth record: a flag tells integer samples from floating-point ones,
/// a selector-coded integer gives the bits per sample, and floating-point
/// samples add the width of the exponent, one more than four bits spell.
#[verifier::opaque]
pub open spec fn spec_read_bit_depth(s: Seq<bool>) -> (Result<JxlBitDepth, JxlError>, Seq<bool>) {
    let float = spec_read_bool(s);
    let bits = if float.0 == Some(true) {
        spec_read_quad(
            float.1,
            QuadDistributions::RawValue(32),
            QuadDistributions::RawValue(16),
            QuadDistributions::RawValue(24),
            QuadDistributions::BitCountWithOffset(6, 1),
        )
    } else {
        spec_read_quad(
            float.1,
            QuadDistributions::RawValue(8),
            QuadDistributions::RawValue(10),
            QuadDistributions::RawValue(12),
            QuadDistributions::BitCountWithOffset(6, 1),
        )
    };
    let exponent = spec_read_u8(bits.1, 4);
    if float.0 is None {
        (Err(JxlError::Truncated), float.1)
    } else if bits.0 is None {
        (Err(JxlError::Truncated), bits.1)
    } else if float.0 == Some(false) {
        (Ok(JxlBitDepth::Integer { bits: bits.0->0 as u8 }), bits.1)
    } else if exponent.0 is None {
        (Err(JxlError::Truncated), exponent.1)
    } else {
        (
            Ok(JxlBitDepth::Float { bits: bits.0->0 as u8, exp_bits: (exponent.0->0 + 1) as u8 }),
            exponent.1,
        )
    }
}

impl JxlBitDepth {
    /// Reads a bit depth record.
    pub fn read(bitstream: &mut BitStream) -> (r: Result<Self, JxlError>)
        ensures
            (r, final(bitstream)@) == spec_read_bit_depth(old(bitstream)@),
    {
        proof {
            reveal(spec_read_bit_depth);
            lemma2_to64();
        }
        if !bitstream.read_bool().ok_or(JxlError::Truncated)? {
            let bits = bitstream.read_quad_u32(
                QuadDistributions::RawValue(8),
                QuadDistributions::RawValue(10),
                QuadDistributions::RawValue(12),
                QuadDistributions::BitCountWithOffset(6, 1),
            ).ok_or(JxlError::Truncated)?;
            Ok(JxlBitDepth::Integer { bits: bits as u8 })
        } else {
            let bits = bitstream.read_quad_u32(
                QuadDistributions::RawValue(32),
                QuadDistributions::RawValue(16),
                QuadDistributions::RawValue(24),
                QuadDistributions::BitCountWithOffset(6, 1),
            ).ok_or(JxlError::Truncated)?;
            let exp_bits = bitstream.read_u8(4).ok_or(JxlError::Truncated)? + 1;
            Ok(JxlBitDepth::Float { bits: bits as u8, exp_bits })
        }
    }
}

/// A channel beside the colour channels. Its record is not decoded.
#[derive(Debug, Clone, Copy, PartialEq, Eq, Structural)]
pub struct JxlExtraChannel {}

/// The colour encoding of the image. Only the default one is decoded, and
/// it has no fields.
#[derive(Debug, Clone, Copy, PartialEq, Eq, Structural)]
pub struct JxlColourEncoding {}

/// A colour encoding record: one flag, set for the default encoding.
pub open spec fn spec_read_colour_encoding(s: Seq<bool>) -> (
    Result<JxlColourEncoding, JxlError>,
    Seq<bool>,
) {
    let all_default = spec_read_bool(s);
    if all_default.0 is None {
        (Err(JxlError::Truncated), all_default.1)
    } else if all_default.0 == Some(true) {
        (Ok(JxlColourEncoding {  }), all_default.1)
    } else {
        (Err(JxlError::Unsupported(Unsupported::ColourEncoding)), all_default.1)
    }
}

impl JxlColourEncoding {
    /// Reads a colour encoding record.
    pub fn read(bitstream: &mut BitStream) -> (r: Result<Self, JxlError>)
        ensures
            (r, final(bitstream)@) == spec_read_colour_encoding(old(bitstream)@),
    {
        let all_default = bitstream.read_bool().ok_or(JxlError::Truncated)?;
        if all_default {
            Ok(JxlColourEncoding {  })
        } else {
            Err(JxlError::Unsupported(Unsupported::ColourEncoding))
        }
    }
}

/// How the image is to be tone mapped. Its record is not decoded.
#[derive(Debug, Clone, Copy, PartialEq, Eq, Structural)]
pub struct JxlToneMapping {}

/// The extensions that a header announces.
#[derive(Debug, PartialEq, Eq)]
pub struct JxlExtensions {
    pub extensions: Vec<u64>,
}

impl View for JxlExtensions {
    type V = Seq<u64>;

    open spec fn view(&self) -> Seq<u64> {
        self.extensions@
    }
}

/// An extensions record: a bitmap in a small variable-length integer. An
/// empty bitmap announces no extension; any other is not decoded.
pub open spec fn spec_read_extensions(s: Seq<bool>) -> (Result<Seq<u64>, JxlError>, Seq<bool>) {
    let bitmap = spec_read_var_u64(s);
    match bitmap.0 {
        Err(e) => (Err(e), bitmap.1),
        Ok(bits) => if bits == 0 {
            (Ok(Seq::empty()), bitmap.1)
        } else {
            (Err(JxlError::Unsupported(Unsupported::Extensions)), bitmap.1)
        },
    }
}

impl JxlExtensions {
    /// Reads an extensions record.
    pub fn read(bitstream: &mut BitStream) -> (r: Result<Self, JxlError>)
        ensures
            (view_of(r), final(bitstream)@) == spec_read_extensions(old(bitstream)@),
    {
        let extensions_bitmap = bitstream.read_var_u64()?;
        if extensions_bitmap == 0 {
            Ok(JxlExtensions { extensions: Vec::new() })
        } else {
            Err(JxlError::Unsupported(Unsupported::Extensions))
        }
    }
}

/// What the header says of the image beside its size.
#[derive(Debug, PartialEq, Eq)]
pub struct JxlImageMetadata {
    pub orientation: JxlOrientation,
    pub intrinsic_size: Option<ImageSize>,
    pub preview_size: Option<ImageSize>,
    pub animation_info: Option<JxlAnimationInfo>,
    pub bit_depth: JxlBitDepth,
    pub modular_16bit: bool,
    pub extra_channel_count: u32,
    pub extra_channels: Vec<JxlExtraChannel>,
    pub xyb_encoded: bool,
    pub colour_encoding: JxlColourEncoding,
    pub tone_mapping: Option<JxlToneMapping>,
    pub extensions: Option<JxlExtensions>,
}

/// The image metadata as a mathematical value.
pub struct JxlImageMetadataView {
    pub orientation: JxlOrientation,
    pub intrinsic_size: Option<ImageSize>,
    pub preview_size: Option<ImageSize>,
    pub animation_info: Option<JxlAnimationInfo>,
    pub bit_depth: JxlBitDepth,
    pub modular_16bit: bool,
    pub extra_channel_count: u32,
    pub extra_channels: Seq<JxlExtraChannel>,
    pub xyb_encoded: bool,
    pub colour_encoding: JxlColourEncoding,
    pub tone_mapping: Option<JxlToneMapping>,
    pub extensions: Option<Seq<u64>>,
}

impl View for JxlImageMetadata {
    type V = JxlImageMetadataView;

    open spec fn view(&self) -> JxlImageMetadataView {
        JxlImageMetadataView {
            orientation: self.orientation,
            intrinsic_size: self.intrinsic_size,
            preview_size: self.preview_size,
            animation_info: self.animation_info,
            bit_depth: self.bit_depth,
            modular_16bit: self.modular_16bit,
            extra_channel_count: self.extra_channel_count,
            extra_channels: self.extra_channels@,
            xyb_encoded: self.xyb_encoded,
            colour_encoding: self.colour_encoding,
            tone_mapping: self.tone_mapping,
            extensions: match self.extensions {
                Some(extensions) => Some(extensions@),
                None => None,
            },
        }
    }
}

/// A record that stands in the stream only where `enabled` holds and a
/// presence bit, read first, is set.
pub open spec fn spec_read_optional<T>(
    s: Seq<bool>,
    enabled: bool,
    read: spec_fn(Seq<bool>) -> (Result<T, JxlError>, Seq<bool>),
) -> (Result<Option<T>, JxlError>, Seq<bool>) {
    if !enabled {
        (Ok(None), s)
    } else {
        let present = spec_read_bool(s);
        match present.0 {
            None => (Err(JxlError::Truncated), present.1),
            Some(false) => (Ok(None), present.1),
            Some(true) => {
                let record = read(present.1);
                match record.0 {
                    Ok(value) => (Ok(Some(value)), record.1),
                    Err(e) => (Err(e), record.1),
                }
            },
        }
    }
}

/// The image metadata record, field by field in stream order.
///
/// `all_default` comes first; where it is clear, `extra_fields` follows.
/// With `extra_fields` set come the orientation and, each behind its own
/// presence bit, the intrinsic size, the preview size and the animation
/// record. The bit depth, the 16-bit flag, the number of extra channels, the
/// XYB flag and the colour encoding are always there. A tone mapping record
/// would follow where `extra_fields` is set, and is not decoded. The
/// extensions stand there unless `all_default` is set. The flag of the
/// default colour matrix ends the record; where it is clear, a three-bit
/// channel-weight mask follows that has to be zero.
///
/// The first step that fails decides the outcome: a field that the input is
/// too short for, or a feature that is not decoded.
#[verifier::opaque]
pub open spec fn spec_read_metadata(s: Seq<bool>) -> (
    Result<JxlImageMetadataView, JxlError>,
    Seq<bool>,
) {
    let all_default = spec_read_bool(s);
    let extra_fields = if all_default.0 == Some(true) {
        (Some(false), all_default.1)
    } else {
        spec_read_bool(all_default.1)
    };
    let extra = extra_fields.0 == Some(true);
    let orientation = if extra {
        spec_read_u8(extra_fields.1, 3)
    } else {
        (Some(0u8), extra_fields.1)
    };
    let intrinsic_size = spec_read_optional(orientation.1, extra, |t: Seq<bool>| spec_read_size(t));
    let preview_size = spec_read_optional(
        intrinsic_size.1,
        extra,
        |t: Seq<bool>| spec_read_preview_size(t),
    );
    let animation_info = spec_read_optional(
        preview_size.1,
        extra,
        |t: Seq<bool>| spec_read_animation(t),
    );
    let bit_depth = spec_read_bit_depth(animation_info.1);
    let modular_16bit = spec_read_bool(bit_depth.1);
    let extra_channel_count = spec_read_quad(
        modular_16bit.1,
        QuadDistributions::RawValue(0),
        QuadDistributions::RawValue(1),
        QuadDistributions::BitCountWithOffset(4, 2),
        QuadDistributions::BitCountWithOffset(12, 1),
    );
    let xyb_encoded = spec_read_bool(extra_channel_count.1);
    let colour_encoding = spec_read_colour_encoding(xyb_encoded.1);
    let extensions = if all_default.0 == Some(true) {
        (Ok(Seq::empty()), colour_encoding.1)
    } else {
        spec_read_extensions(colour_encoding.1)
    };
    let default_m = spec_read_bool(extensions.1);
    let cw_mask = spec_read_u8(default_m.1, 3);
    let metadata = JxlImageMetadataView {
        orientation: spec_orientation(orientation.0->0),
        intrinsic_size: intrinsic_size.0->Ok_0,
        preview_size: preview_size.0->Ok_0,
        animation_info: animation_info.0->Ok_0,
        bit_depth: bit_depth.0->Ok_0,
        modular_16bit: modular_16bit.0->0,
        extra_channel_count: 0,
        extra_channels: Seq::empty(),
        xyb_encoded: xyb_encoded.0->0,
        colour_encoding: colour_encoding.0->Ok_0,
        tone_mapping: None,
        extensions: None,
    };
    if all_default.0 is None {
        (Err(JxlError::Truncated), all_default.1)
    } else if extra_fields.0 is None {
        (Err(JxlError::Truncated), extra_fields.1)
    } else if orientation.0 is None {
        (Err(JxlError::Truncated), orientation.1)
    } else if intrinsic_size.0 is Err {
        (Err(intrinsic_size.0->Err_0), intrinsic_size.1)
    } else if preview_size.0 is Err {
        (Err(preview_size.0->Err_0), preview_size.1)
    } else if animation_info.0 is Err {
        (Err(animation_info.0->Err_0), animation_info.1)
    } else if bit_depth.0 is Err {
        (Err(bit_depth.0->Err_0), bit_depth.1)
    } else if modular_16bit.0 is None {
        (Err(JxlError::Truncated), modular_16bit.1)
    } else if extra_channel_count.0 is None {
        (Err(JxlError::Truncated), extra_channel_count.1)
    } else if extra_channel_count.0 != Some(0u32) {
        (Err(JxlError::Unsupported(Unsupported::ExtraChannels)), extra_channel_count.1)
    } else if xyb_encoded.0 is None {
        (Err(JxlError::Truncated), xyb_encoded.1)
    } else if colour_encoding.0 is Err {
        (Err(colour_encoding.0->Err_0), colour_encoding.1)
    } else if extra {
        (Err(JxlError::Unsupported(Unsupported::ToneMapping)), colour_encoding.1)
    } else if extensions.0 is Err {
        (Err(extensions.0->Err_0), extensions.1)
    } else if default_m.0 is None {
        (Err(JxlError::Truncated), default_m.1)
    } else if default_m.0 == Some(true) {
        (Ok(metadata), default_m.1)
    } else if xyb_encoded.0 == Some(true) {
        (Err(JxlError::Unsupported(Unsupported::CustomXybMatrix)), default_m.1)
    } else if cw_mask.0 is None {
        (Err(JxlError::Truncated), cw_mask.1)
    } else if cw_mask.0 != Some(0u8) {
        (Err(JxlError::Unsupported(Unsupported::ChannelWeightMask)), cw_mask.1)
    } else {
        (Ok(metadata), cw_mask.1)
    }
}

impl JxlImageMetadata {
    /// Reads the image metadata record.
    pub fn read(bitstream: &mut BitStream) -> (r: Result<Self, JxlError>)
        ensures
            (view_of(r), final(bitstream)@) == spec_read_metadata(old(bitstream)@),
    {
        proof {
            reveal(spec_read_metadata);
            lemma2_to64();
        }
        let all_default = bitstream.read_bool().ok_or(JxlError::Truncated)?;
        let extra_fields = if all_default {
            false
        } else {
            bitstream.read_bool().ok_or(JxlError::Truncated)?
        };
        let orientation = if extra_fields {
            JxlOrientation::from(bitstream.read_u8(3).ok_or(JxlError::Truncated)?)
        } else {
            JxlOrientation::Normal
        };
        let intrinsic_size = if !extra_fields {
            None
        } else if bitstream.read_bool().ok_or(JxlError::Truncated)? {
            Some(ImageSize::read(bitstream)?)
        } else {
            None
        };
        let preview_size = if !extra_fields {
            None
        } else if bitstream.read_bool().ok_or(JxlError::Truncated)? {
            Some(ImageSize::read_preview(bitstream)?)
        } else {
            None
        };
        let animation_info = if !extra_fields {
            None
        } else if bitstream.read_bool().ok_or(JxlError::Truncated)? {
            Some(JxlAnimationInfo::read(bitstream)?)
        } else {
            None
        };
        let bit_depth = JxlBitDepth::read(bitstream)?;
        let modular_16bit = bitstream.read_bool().ok_or(JxlError::Truncated)?;
        let extra_channel_count = bitstream.read_quad_u32(
            QuadDistributions::RawValue(0),
            QuadDistributions::RawValue(1),
            QuadDistributions::BitCountWithOffset(4, 2),
            QuadDistributions::BitCountWithOffset(12, 1),
        ).ok_or(JxlError::Truncated)?;
        if extra_channel_count != 0 {
            return Err(JxlError::Unsupported(Unsupported::ExtraChannels));
        }
        let extra_channels: Vec<JxlExtraChannel> = Vec::new();
        let xyb_encoded = bitstream.read_bool().ok_or(JxlError::Truncated)?;
        let colour_encoding = JxlColourEncoding::read(bitstream)?;
        if extra_fields {
            return Err(JxlError::Unsupported(Unsupported::ToneMapping));
        }
        let tone_mapping: Option<JxlToneMapping> = None;
        let extensions = if all_default {
            None
        } else {
            let extensions_ = JxlExtensions::read(bitstream)?;
            if extensions_.extensions.len() == 0 {
                None
            } else {
                Some(extensions_)
            }
        };
        let default_m = bitstream.read_bool().ok_or(JxlError::Truncated)?;
        if !default_m {
            if xyb_encoded {
                return Err(JxlError::Unsupported(Unsupported::CustomXybMatrix));
            }
            let cw_mask = bitstream.read_u8(3).ok_or(JxlError::Truncated)?;
            if cw_mask != 0 {
                return Err(JxlError::Unsupported(Unsupported::ChannelWeightMask));
            }
        }
        Ok(
            JxlImageMetadata {
                orientation,
                intrinsic_size,
                preview_size,
                animation_info,
                bit_depth,
                modular_16bit,
                extra_channel_count,
                extra_channels,
                xyb_encoded,
                colour_encoding,
                tone_mapping,
                extensions,
            },
        )
    }
}

} // verus!

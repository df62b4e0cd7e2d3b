//! The frame header: what a frame is, how it is coded, and how its passes
//! and its crop rectangle are laid out.

use crate::bit_reader::{
    lemma_fits_u8, pick_distribution, spec_read_quad, spec_read_var_u64, spec_selector, BitStream,
    QuadDistributions,
};
use crate::bits::{spec_read_bool, spec_read_u16, spec_read_u8};
use crate::common::{spec_unpack_signed, unpack_signed};
use crate::error::{view_of, JxlError, Unsupported};
use crate::jxl_image::JxlImageMetadata;
use vstd::arithmetic::power2::{lemma2_to64, pow2};
use vstd::prelude::*;

verus! {

/// What a frame is for.
#[derive(Debug, Clone, Copy, PartialEq, Eq, Structural)]
pub enum JxlFrameType {
    RegularFrame,
    LFFrame,
    ReferenceOnly,
    SkipProgressive,
}

/// The frame type that a two-bit code stands for.
pub open spec fn spec_frame_type(value: u8) -> JxlFrameType {
    if value == 0 {
        JxlFrameType::RegularFrame
    } else if value == 1 {
        JxlFrameType::LFFrame
    } else if value == 2 {
        JxlFrameType::ReferenceOnly
    } else {
        JxlFrameType::SkipProgressive
    }
}

impl JxlFrameType {
    /// The frame type that a two-bit code stands for.
    pub fn from(value: u8) -> (r: Self)
        requires
            value < 4,
        ensures
            r == spec_frame_type(value),
    {
        match value {
            0 => JxlFrameType::RegularFrame,
            1 => JxlFrameType::LFFrame,
            2 => JxlFrameType::ReferenceOnly,
            _ => JxlFrameType::SkipProgressive,
        }
    }
}

/// How the samples of a frame are coded.
#[derive(Debug, Clone, Copy, PartialEq, Eq, Structural)]
pub enum JxlFrameEncoding {
    VarDCT,
    Modular,
}

/// The frame encoding that a one-bit code stands for.
pub open spec fn spec_frame_encoding(value: u8) -> JxlFrameEncoding {
    if value == 0 {
        JxlFrameEncoding::VarDCT
    } else {
        JxlFrameEncoding::Modular
    }
}

impl JxlFrameEncoding {
    /// The frame encoding that a one-bit code stands for.
    pub fn from(value: u8) -> (r: Self)
        requires
            value < 2,
        ensures
            r == spec_frame_encoding(value),
    {
        match value {
            0 => JxlFrameEncoding::VarDCT,
            _ => JxlFrameEncoding::Modular,
        }
    }
}

/// The features that a frame uses.
#[derive(Debug, Clone, Copy, PartialEq, Eq, Structural)]
pub struct JxlFrameFlags {
    pub use_noise: bool,
    pub use_patches: bool,
    pub use_splines: bool,
    pub use_lf_frame: bool,
    pub use_adaptive_lf_smoothing: bool,
}

/// The features that a flags bitmask switches on: noise by bit 0, patches by
/// bit 1, splines by bit 4, the use of an LF frame by bit 5; bit 7 switches
/// the adaptive LF smoothing off.
pub open spec fn spec_frame_flags(value: u64) -> JxlFrameFlags {
    JxlFrameFlags {
        use_noise: (value & 0x1) != 0,
        use_patches: (value & 0x2) != 0,
        use_splines: (value & 0x10) != 0,
        use_lf_frame: (value & 0x20) != 0,
        use_adaptive_lf_smoothing: (value & 0x80) == 0,
    }
}

impl From<u64> for JxlFrameFlags {
    fn from(value: u64) -> (r: Self) {
        JxlFrameFlags {
            use_noise: (value & 0x1) != 0,
            use_patches: (value & 0x2) != 0,
            use_splines: (value & 0x10) != 0,
            use_lf_frame: (value & 0x20) != 0,
            use_adaptive_lf_smoothing: (value & 0x80) == 0,
        }
    }
}

impl vstd::std_specs::convert::FromSpecImpl<u64> for JxlFrameFlags {
    open spec fn obeys_from_spec() -> bool {
        true
    }

    open spec fn from_spec(value: u64) -> Self {
        spec_frame_flags(value)
    }
}

/// `n` reads of `width <= 8` bits each, one after another. The first read
/// that the input is too short for ends them.
pub open spec fn spec_read_u8_list(s: Seq<bool>, n: nat, width: nat) -> (
    Option<Seq<u8>>,
    Seq<bool>,
)
    decreases n,
{
    if n == 0 {
        (Some(Seq::empty()), s)
    } else {
        let front = spec_read_u8_list(s, (n - 1) as nat, width);
        match front.0 {
            None => front,
            Some(values) => {
                let last = spec_read_u8(front.1, width);
                match last.0 {
                    Some(v) => (Some(values.push(v)), last.1),
                    None => (None, last.1),
                }
            },
        }
    }
}

/// `n` reads of a selector-coded integer, one after another, each value
/// kept in eight bits. The first read that the input is too short for ends
/// them.
pub open spec fn spec_read_quad_list(
    s: Seq<bool>,
    n: nat,
    d0: QuadDistributions,
    d1: QuadDistributions,
    d2: QuadDistributions,
    d3: QuadDistributions,
) -> (Option<Seq<u8>>, Seq<bool>)
    decreases n,
{
    if n == 0 {
        (Some(Seq::empty()), s)
    } else {
        let front = spec_read_quad_list(s, (n - 1) as nat, d0, d1, d2, d3);
        match front.0 {
            None => front,
            Some(values) => {
                let last = spec_read_quad(front.1, d0, d1, d2, d3);
                match last.0 {
                    Some(v) => (Some(values.push(v as u8)), last.1),
                    None => (None, last.1),
                }
            },
        }
    }
}

/// Once a read of a list has failed, asking for more items changes nothing.
proof fn lemma_u8_list_failure_stays(s: Seq<bool>, failed: nat, n: nat, width: nat)
    requires
        failed <= n,
        spec_read_u8_list(s, failed, width).0 is None,
    ensures
        spec_read_u8_list(s, n, width) == spec_read_u8_list(s, failed, width),
    decreases n,
{
    if failed < n {
        lemma_u8_list_failure_stays(s, failed, (n - 1) as nat, width);
    }
}

/// Once a read of a list has failed, asking for more items changes nothing.
proof fn lemma_quad_list_failure_stays(
    s: Seq<bool>,
    failed: nat,
    n: nat,
    d0: QuadDistributions,
    d1: QuadDistributions,
    d2: QuadDistributions,
    d3: QuadDistributions,
)
    requires
        failed <= n,
        spec_read_quad_list(s, failed, d0, d1, d2, d3).0 is None,
    ensures
        spec_read_quad_list(s, n, d0, d1, d2, d3) == spec_read_quad_list(s, failed, d0, d1, d2, d3),
    decreases n,
{
    if failed < n {
        lemma_quad_list_failure_stays(s, failed, (n - 1) as nat, d0, d1, d2, d3);
    }
}

/// Reads `count` fields of `bits` bits each.
fn read_u8_list(bitstream: &mut BitStream, count: usize, bits: u8) -> (r: Option<Vec<u8>>)
    requires
        bits <= 8,
    ensures
        ({
            let expected = spec_read_u8_list(old(bitstream)@, count as nat, bits as nat);
            &&& final(bitstream)@ == expected.1
            &&& r is Some == expected.0 is Some
            &&& r matches Some(values) ==> expected.0 == Some(values@)
        }),
{
    let mut values: Vec<u8> = Vec::new();
    let mut i: usize = 0;
    while i < count
        invariant
            i <= count,
            bits <= 8,
            spec_read_u8_list(old(bitstream)@, i as nat, bits as nat) == (
                Some(values@),
                bitstream@,
            ),
        decreases count - i,
    {
        match bitstream.read_u8(bits) {
            Some(v) => {
                values.push(v);
            },
            None => {
                proof {
                    lemma_u8_list_failure_stays(
                        old(bitstream)@,
                        (i + 1) as nat,
                        count as nat,
                        bits as nat,
                    );
                }
                return None;
            },
        }
        i += 1;
    }
    Some(values)
}

/// Reads `count` selector-coded integers whose values fit in eight bits.
fn read_quad_list(
    bitstream: &mut BitStream,
    count: usize,
    d0: QuadDistributions,
    d1: QuadDistributions,
    d2: QuadDistributions,
    d3: QuadDistributions,
) -> (r: Option<Vec<u8>>)
    requires
        d0.wf() && d0.fits_u8(),
        d1.wf() && d1.fits_u8(),
        d2.wf() && d2.fits_u8(),
        d3.wf() && d3.fits_u8(),
    ensures
        ({
            let expected = spec_read_quad_list(old(bitstream)@, count as nat, d0, d1, d2, d3);
            &&& final(bitstream)@ == expected.1
            &&& r is Some == expected.0 is Some
            &&& r matches Some(values) ==> expected.0 == Some(values@)
        }),
{
    let mut values: Vec<u8> = Vec::new();
    let mut i: usize = 0;
    while i < count
        invariant
            i <= count,
            d0.wf() && d0.fits_u8(),
            d1.wf() && d1.fits_u8(),
            d2.wf() && d2.fits_u8(),
            d3.wf() && d3.fits_u8(),
            spec_read_quad_list(old(bitstream)@, i as nat, d0, d1, d2, d3) == (
                Some(values@),
                bitstream@,
            ),
        decreases count - i,
    {
        let ghost before = bitstream@;
        match bitstream.read_quad_u32(d0, d1, d2, d3) {
            Some(v) => {
                proof {
                    lemma_fits_u8(pick_distribution(spec_selector(before), d0, d1, d2, d3), v);
                }
                values.push(v as u8);
            },
            None => {
                proof {
                    lemma_quad_list_failure_stays(
                        old(bitstream)@,
                        (i + 1) as nat,
                        count as nat,
                        d0,
                        d1,
                        d2,
                        d3,
                    );
                }
                return None;
            },
        }
        i += 1;
    }
    Some(values)
}

/// How a frame is split into passes.
#[derive(Debug, PartialEq, Eq)]
pub struct JxlFramePasses {
    pub pass_count: u8,
    pub num_ds: u8,
    pub shifts: Vec<u8>,
    pub downsample: Vec<u8>,
    pub last_pass: Vec<u8>,
}

/// The passes of a frame as a mathematical value.
pub struct JxlFramePassesView {
    pub pass_count: u8,
    pub num_ds: u8,
    pub shifts: Seq<u8>,
    pub downsample: Seq<u8>,
    pub last_pass: Seq<u8>,
}

impl View for JxlFramePasses {
    type V = JxlFramePassesView;

    open spec fn view(&self) -> JxlFramePassesView {
        JxlFramePassesView {
            pass_count: self.pass_count,
            num_ds: self.num_ds,
            shifts: self.shifts@,
            downsample: self.downsample@,
            last_pass: self.last_pass@,
        }
    }
}

/// A passes record: the number of passes, from 1 to 11; unless there is a
/// single pass, the number of downsampling steps, from 0 to 4; a two-bit
/// shift for every pass but the last, whose shift is 0; and for every
/// downsampling step first its factor, then the pass that it ends with.
#[verifier::opaque]
pub open spec fn spec_read_passes(s: Seq<bool>) -> (Result<JxlFramePassesView, JxlError>, Seq<bool>) {
    let pass_count = spec_read_quad(
        s,
        QuadDistributions::RawValue(1),
        QuadDistributions::RawValue(2),
        QuadDistributions::RawValue(3),
        QuadDistributions::BitCountWithOffset(3, 4),
    );
    let num_ds = if pass_count.0 == Some(1u32) {
        (Some(0u32), pass_count.1)
    } else {
        spec_read_quad(
            pass_count.1,
            QuadDistributions::RawValue(0),
            QuadDistributions::RawValue(1),
            QuadDistributions::RawValue(2),
            QuadDistributions::BitCountWithOffset(1, 3),
        )
    };
    let shifts = spec_read_u8_list(num_ds.1, (pass_count.0->0 - 1) as nat, 2);
    let downsample = spec_read_quad_list(
        shifts.1,
        num_ds.0->0 as nat,
        QuadDistributions::RawValue(1),
        QuadDistributions::RawValue(2),
        QuadDistributions::RawValue(4),
        QuadDistributions::RawValue(8),
    );
    let last_pass = spec_read_quad_list(
        downsample.1,
        num_ds.0->0 as nat,
        QuadDistributions::RawValue(0),
        QuadDistributions::RawValue(1),
        QuadDistributions::RawValue(2),
        QuadDistributions::BitCount(3),
    );
    if pass_count.0 is None {
        (Err(JxlError::Truncated), pass_count.1)
    } else if num_ds.0 is None {
        (Err(JxlError::Truncated), num_ds.1)
    } else if shifts.0 is None {
        (Err(JxlError::Truncated), shifts.1)
    } else if downsample.0 is None {
        (Err(JxlError::Truncated), downsample.1)
    } else if last_pass.0 is None {
        (Err(JxlError::Truncated), last_pass.1)
    } else {
        (
            Ok(
                JxlFramePassesView {
                    pass_count: pass_count.0->0 as u8,
                    num_ds: num_ds.0->0 as u8,
                    shifts: shifts.0->0.push(0),
                    downsample: downsample.0->0,
                    last_pass: last_pass.0->0,
                },
            ),
            last_pass.1,
        )
    }
}

impl JxlFramePasses {
    /// Reads a passes record.
    pub fn read(bitstream: &mut BitStream) -> (r: Result<Self, JxlError>)
        ensures
            (view_of(r), final(bitstream)@) == spec_read_passes(old(bitstream)@),
    {
        proof {
            reveal(spec_read_passes);
            lemma2_to64();
        }
        let pass_count = bitstream.read_quad_u32(
            QuadDistributions::RawValue(1),
            QuadDistributions::RawValue(2),
            QuadDistributions::RawValue(3),
            QuadDistributions::BitCountWithOffset(3, 4),
        ).ok_or(JxlError::Truncated)? as u8;
        let num_ds = if pass_count == 1 {
            0
        } else {
            bitstream.read_quad_u32(
                QuadDistributions::RawValue(0),
                QuadDistributions::RawValue(1),
                QuadDistributions::RawValue(2),
                QuadDistributions::BitCountWithOffset(1, 3),
            ).ok_or(JxlError::Truncated)?
        } as u8;
        let mut shifts = read_u8_list(bitstream, (pass_count - 1) as usize, 2).ok_or(
            JxlError::Truncated,
        )?;
        shifts.push(0);
        let downsample = read_quad_list(
            bitstream,
            num_ds as usize,
            QuadDistributions::RawValue(1),
            QuadDistributions::RawValue(2),
            QuadDistributions::RawValue(4),
            QuadDistributions::RawValue(8),
        ).ok_or(JxlError::Truncated)?;
        let last_pass = read_quad_list(
            bitstream,
            num_ds as usize,
            QuadDistributions::RawValue(0),
            QuadDistributions::RawValue(1),
            QuadDistributions::RawValue(2),
            QuadDistributions::BitCount(3),
        ).ok_or(JxlError::Truncated)?;
        Ok(JxlFramePasses { pass_count, num_ds, shifts, downsample, last_pass })
    }
}

/// The part of the image that a frame covers.
#[derive(Debug, Clone, Copy, PartialEq, Eq, Structural)]
pub struct JxlFrameCropInfo {
    pub width: u32,
    pub height: u32,
    pub x0: i32,
    pub y0: i32,
}

/// The header of a frame.
#[derive(Debug, PartialEq, Eq)]
pub struct JxlFrameHeader {
    pub frame_type: JxlFrameType,
    pub frame_encoding: JxlFrameEncoding,
    pub flags: JxlFrameFlags,
    pub ycbcr: bool,
    pub jpeg_upscaling: [u8; 3],
    pub upsampling: u8,
    pub ec_upscaling: Vec<u8>,
    pub modular_group_size: Option<u16>,
    pub x_qm_scale: u8,
    pub b_qm_scale: u8,
    pub passes: JxlFramePasses,
    pub lf_level: Option<u8>,
    pub crop_info: Option<JxlFrameCropInfo>,
}

/// The header of a frame as a mathematical value.
pub struct JxlFrameHeaderView {
    pub frame_type: JxlFrameType,
    pub frame_encoding: JxlFrameEncoding,
    pub flags: JxlFrameFlags,
    pub ycbcr: bool,
    pub jpeg_upscaling: Seq<u8>,
    pub upsampling: u8,
    pub ec_upscaling: Seq<u8>,
    pub modular_group_size: Option<u16>,
    pub x_qm_scale: u8,
    pub b_qm_scale: u8,
    pub passes: JxlFramePassesView,
    pub lf_level: Option<u8>,
    pub crop_info: Option<JxlFrameCropInfo>,
}

impl View for JxlFrameHeader {
    type V = JxlFrameHeaderView;

    open spec fn view(&self) -> JxlFrameHeaderView {
        JxlFrameHeaderView {
            frame_type: self.frame_type,
            frame_encoding: self.frame_encoding,
            flags: self.flags,
            ycbcr: self.ycbcr,
            jpeg_upscaling: self.jpeg_upscaling@,
            upsampling: self.upsampling,
            ec_upscaling: self.ec_upscaling@,
            modular_group_size: self.modular_group_size,
            x_qm_scale: self.x_qm_scale,
            b_qm_scale: self.b_qm_scale,
            passes: self.passes@,
            lf_level: self.lf_level,
            crop_info: self.crop_info,
        }
    }
}

/// One coordinate or extent of a crop rectangle, as it is coded.
pub open spec fn spec_read_crop_value(s: Seq<bool>) -> (Option<u32>, Seq<bool>) {
    spec_read_quad(
        s,
        QuadDistributions::BitCount(8),
        QuadDistributions::BitCountWithOffset(11, 8),
        QuadDistributions::BitCountWithOffset(14, 2304),
        QuadDistributions::BitCountWithOffset(30, 18688),
    )
}

/// A crop rectangle: the two offsets, coded unsigned, then the width and
/// the height.
#[verifier::opaque]
pub open spec fn spec_read_crop(s: Seq<bool>) -> (Option<JxlFrameCropInfo>, Seq<bool>) {
    let ux0 = spec_read_crop_value(s);
    let uy0 = spec_read_crop_value(ux0.1);
    let width = spec_read_crop_value(uy0.1);
    let height = spec_read_crop_value(width.1);
    if ux0.0 is None {
        (None, ux0.1)
    } else if uy0.0 is None {
        (None, uy0.1)
    } else if width.0 is None {
        (None, width.1)
    } else if height.0 is None {
        (None, height.1)
    } else {
        (
            Some(
                JxlFrameCropInfo {
                    width: width.0->0,
                    height: height.0->0,
                    x0: spec_unpack_signed(ux0.0->0) as i32,
                    y0: spec_unpack_signed(uy0.0->0) as i32,
                },
            ),
            height.1,
        )
    }
}

/// The header of a frame of an image with `extra_channels` extra channels,
/// field by field in stream order.
///
/// `all_default` comes first. Where it is set the frame is a regular frame
/// in VarDCT mode; else two bits give the frame type and one bit the
/// encoding. Only a regular frame in modular mode is decoded, so what
/// follows is the layout of such a frame: the flags bitmask in a small
/// variable-length integer; the YCbCr flag, unless the image is XYB
/// encoded; three two-bit upscaling factors where YCbCr is set and no LF
/// frame is used; the upsampling factor, unless an LF frame is used; one
/// upscaling factor for every extra channel; the two-bit shift of the
/// modular group size, which is 128 shifted by it; the passes; and, unless
/// an LF frame is used, a presence bit and behind it the crop rectangle.
/// Both quantisation-matrix scales keep their default, 2, and there is no
/// LF level.
///
/// The first step that fails decides the outcome: a field that the input is
/// too short for, or a feature that is not decoded.
#[verifier::opaque]
pub open spec fn spec_read_frame_header(s: Seq<bool>, extra_channels: nat, xyb_encoded: bool) -> (
    Result<JxlFrameHeaderView, JxlError>,
    Seq<bool>,
) {
    let all_default = spec_read_bool(s);
    let frame_type = if all_default.0 == Some(true) {
        (Some(0u8), all_default.1)
    } else {
        spec_read_u8(all_default.1, 2)
    };
    let frame_encoding = if all_default.0 == Some(true) {
        (Some(0u8), frame_type.1)
    } else {
        spec_read_u8(frame_type.1, 1)
    };
    let bitmask = spec_read_var_u64(frame_encoding.1);
    let flags = spec_frame_flags(bitmask.0->Ok_0);
    let ycbcr = if xyb_encoded {
        (Some(false), bitmask.1)
    } else {
        spec_read_bool(bitmask.1)
    };
    let subsampled = ycbcr.0 == Some(true) && !flags.use_lf_frame;
    let jpeg0 = if subsampled {
        spec_read_u8(ycbcr.1, 2)
    } else {
        (Some(1u8), ycbcr.1)
    };
    let jpeg1 = if subsampled {
        spec_read_u8(jpeg0.1, 2)
    } else {
        (Some(1u8), jpeg0.1)
    };
    let jpeg2 = if subsampled {
        spec_read_u8(jpeg1.1, 2)
    } else {
        (Some(1u8), jpeg1.1)
    };
    let upsampling = if flags.use_lf_frame {
        (Some(1u32), jpeg2.1)
    } else {
        spec_read_quad(
            jpeg2.1,
            QuadDistributions::RawValue(1),
            QuadDistributions::RawValue(2),
            QuadDistributions::RawValue(4),
            QuadDistributions::RawValue(8),
        )
    };
    let ec_upscaling = spec_read_quad_list(
        upsampling.1,
        extra_channels,
        QuadDistributions::RawValue(1),
        QuadDistributions::RawValue(2),
        QuadDistributions::RawValue(4),
        QuadDistributions::RawValue(8),
    );
    let group_shift = spec_read_u16(ec_upscaling.1, 2);
    let passes = spec_read_passes(group_shift.1);
    let has_crop = if flags.use_lf_frame {
        (Some(false), passes.1)
    } else {
        spec_read_bool(passes.1)
    };
    let crop = if has_crop.0 == Some(true) {
        spec_read_crop(has_crop.1)
    } else {
        (None, has_crop.1)
    };
    let header = JxlFrameHeaderView {
        frame_type: JxlFrameType::RegularFrame,
        frame_encoding: JxlFrameEncoding::Modular,
        flags,
        ycbcr: ycbcr.0->0,
        jpeg_upscaling: seq![jpeg0.0->0, jpeg1.0->0, jpeg2.0->0],
        upsampling: upsampling.0->0 as u8,
        ec_upscaling: ec_upscaling.0->0,
        modular_group_size: Some((128 * pow2(group_shift.0->0 as nat)) as u16),
        x_qm_scale: 2,
        b_qm_scale: 2,
        passes: passes.0->Ok_0,
        lf_level: None,
        crop_info: crop.0,
    };
    if all_default.0 is None {
        (Err(JxlError::Truncated), all_default.1)
    } else if frame_type.0 is None {
        (Err(JxlError::Truncated), frame_type.1)
    } else if frame_encoding.0 is None {
        (Err(JxlError::Truncated), frame_encoding.1)
    } else if frame_type.0 != Some(0u8) {
        (Err(JxlError::Unsupported(Unsupported::FrameType)), frame_encoding.1)
    } else if frame_encoding.0 != Some(1u8) {
        (Err(JxlError::Unsupported(Unsupported::FrameEncoding)), frame_encoding.1)
    } else if bitmask.0 is Err {
        (Err(bitmask.0->Err_0), bitmask.1)
    } else if ycbcr.0 is None {
        (Err(JxlError::Truncated), ycbcr.1)
    } else if jpeg0.0 is None {
        (Err(JxlError::Truncated), jpeg0.1)
    } else if jpeg1.0 is None {
        (Err(JxlError::Truncated), jpeg1.1)
    } else if jpeg2.0 is None {
        (Err(JxlError::Truncated), jpeg2.1)
    } else if upsampling.0 is None {
        (Err(JxlError::Truncated), upsampling.1)
    } else if ec_upscaling.0 is None {
        (Err(JxlError::Truncated), ec_upscaling.1)
    } else if group_shift.0 is None {
        (Err(JxlError::Truncated), group_shift.1)
    } else if passes.0 is Err {
        (Err(passes.0->Err_0), passes.1)
    } else if has_crop.0 is None {
        (Err(JxlError::Truncated), has_crop.1)
    } else if has_crop.0 == Some(true) && crop.0 is None {
        (Err(JxlError::Truncated), crop.1)
    } else {
        (Ok(header), crop.1)
    }
}

/// Reads one coordinate or extent of a crop rectangle.
fn read_crop_value(bitstream: &mut BitStream) -> (r: Option<u32>)
    ensures
        (r, final(bitstream)@) == spec_read_crop_value(old(bitstream)@),
{
    bitstream.read_quad_u32(
        QuadDistributions::BitCount(8),
        QuadDistributions::BitCountWithOffset(11, 8),
        QuadDistributions::BitCountWithOffset(14, 2304),
        QuadDistributions::BitCountWithOffset(30, 18688),
    )
}

/// Reads a crop rectangle.
fn read_crop(bitstream: &mut BitStream) -> (r: Option<JxlFrameCropInfo>)
    ensures
        (r, final(bitstream)@) == spec_read_crop(old(bitstream)@),
{
    proof {
        reveal(spec_read_crop);
    }
    let ux0 = read_crop_value(bitstream)?;
    let uy0 = read_crop_value(bitstream)?;
    let width = read_crop_value(bitstream)?;
    let height = read_crop_value(bitstream)?;
    Some(JxlFrameCropInfo { x0: unpack_signed(ux0), y0: unpack_signed(uy0), width, height })
}

impl JxlFrameHeader {
    /// Reads the header of a frame of the image that `image_metadata`
    /// describes.
    pub fn read(bitstream: &mut BitStream, image_metadata: &JxlImageMetadata) -> (r: Result<
        Self,
        JxlError,
    >)
        ensures
            (view_of(r), final(bitstream)@) == spec_read_frame_header(
                old(bitstream)@,
                image_metadata.extra_channels@.len(),
                image_metadata.xyb_encoded,
            ),
    {
        proof {
            reveal(spec_read_frame_header);
            lemma2_to64();
        }
        let all_default = bitstream.read_bool().ok_or(JxlError::Truncated)?;
        let frame_type = if all_default {
            JxlFrameType::RegularFrame
        } else {
            JxlFrameType::from(bitstream.read_u8(2).ok_or(JxlError::Truncated)?)
        };
        let frame_encoding = if all_default {
            JxlFrameEncoding::VarDCT
        } else {
            JxlFrameEncoding::from(bitstream.read_u8(1).ok_or(JxlError::Truncated)?)
        };
        if frame_type != JxlFrameType::RegularFrame {
            return Err(JxlError::Unsupported(Unsupported::FrameType));
        }
        if frame_encoding != JxlFrameEncoding::Modular {
            return Err(JxlError::Unsupported(Unsupported::FrameEncoding));
        }
        let flags = JxlFrameFlags::from(
            if all_default {
                0u64
            } else {
                bitstream.read_var_u64()?
            },
        );
        let ycbcr = if all_default || image_metadata.xyb_encoded {
            false
        } else {
            bitstream.read_bool().ok_or(JxlError::Truncated)?
        };
        let jpeg_upscaling = if !ycbcr || flags.use_lf_frame {
            [1, 1, 1]
        } else {
            [
                bitstream.read_u8(2).ok_or(JxlError::Truncated)?,
                bitstream.read_u8(2).ok_or(JxlError::Truncated)?,
                bitstream.read_u8(2).ok_or(JxlError::Truncated)?,
            ]
        };
        let upsampling = if all_default || flags.use_lf_frame {
            1
        } else {
            bitstream.read_quad_u32(
                QuadDistributions::RawValue(1),
                QuadDistributions::RawValue(2),
                QuadDistributions::RawValue(4),
                QuadDistributions::RawValue(8),
            ).ok_or(JxlError::Truncated)?
        } as u8;
        let ec_upscaling = read_quad_list(
            bitstream,
            image_metadata.extra_channels.len(),
            QuadDistributions::RawValue(1),
            QuadDistributions::RawValue(2),
            QuadDistributions::RawValue(4),
            QuadDistributions::RawValue(8),
        ).ok_or(JxlError::Truncated)?;
        let modular_group_size = if frame_encoding != JxlFrameEncoding::Modular {
            None
        } else {
            let shift = bitstream.read_u16(2).ok_or(JxlError::Truncated)?;
            proof {
                vstd::bits::lemma_u16_shl_is_mul(128, shift);
            }
            Some(128u16 << shift)
        };
        let d_xqms: u8 = if image_metadata.xyb_encoded && frame_encoding
            == JxlFrameEncoding::VarDCT {
            3
        } else {
            2
        };
        let x_qm_scale = if all_default || !image_metadata.xyb_encoded || frame_encoding
            != JxlFrameEncoding::VarDCT {
            d_xqms
        } else {
            bitstream.read_u8(3).ok_or(JxlError::Truncated)?
        };
        let b_qm_scale = if all_default || !image_metadata.xyb_encoded || frame_encoding
            != JxlFrameEncoding::VarDCT {
            2
        } else {
            bitstream.read_u8(3).ok_or(JxlError::Truncated)?
        };
        let passes = JxlFramePasses::read(bitstream)?;
        let lf_level = if frame_type == JxlFrameType::LFFrame {
            Some(1 + bitstream.read_u8(2).ok_or(JxlError::Truncated)?)
        } else {
            None
        };
        let crop_info = if all_default || flags.use_lf_frame || !(bitstream.read_bool().ok_or(
            JxlError::Truncated,
        )?) {
            None
        } else {
            Some(read_crop(bitstream).ok_or(JxlError::Truncated)?)
        };
        let header = JxlFrameHeader {
            frame_type,
            frame_encoding,
            flags,
            ycbcr,
            jpeg_upscaling,
            upsampling,
            ec_upscaling,
            modular_group_size,
            x_qm_scale,
            b_qm_scale,
            passes,
            lf_level,
            crop_info,
        };
        proof {
            let expected = spec_read_frame_header(
                old(bitstream)@,
                image_metadata.extra_channels@.len(),
                image_metadata.xyb_encoded,
            );
            assert(expected.0->Ok_0.jpeg_upscaling =~= header@.jpeg_upscaling);
        }
        Ok(header)
    }
}

/// A frame of the image. Of a frame only the header is decoded.
#[derive(Debug, PartialEq, Eq)]
pub struct JxlFrame {
    pub header: JxlFrameHeader,
}

/// A frame as a mathematical value.
pub struct JxlFrameView {
    pub header: JxlFrameHeaderView,
}

impl View for JxlFrame {
    type V = JxlFrameView;

    open spec fn view(&self) -> JxlFrameView {
        JxlFrameView { header: self.header@ }
    }
}

/// A frame: its header.
pub open spec fn spec_read_frame(s: Seq<bool>, extra_channels: nat, xyb_encoded: bool) -> (
    Result<JxlFrameView, JxlError>,
    Seq<bool>,
) {
    let header = spec_read_frame_header(s, extra_channels, xyb_encoded);
    match header.0 {
        Ok(h) => (Ok(JxlFrameView { header: h }), header.1),
        Err(e) => (Err(e), header.1),
    }
}

impl JxlFrame {
    /// Reads a frame of the image that `image_metadata` describes.
    pub fn read(bitstream: &mut BitStream, image_metadata: &JxlImageMetadata) -> (r: Result<
        Self,
        JxlError,
    >)
        ensures
            (view_of(r), final(bitstream)@) == spec_read_frame(
                old(bitstream)@,
                image_metadata.extra_channels@.len(),
                image_metadata.xyb_encoded,
            ),
    {
        Ok(JxlFrame { header: JxlFrameHeader::read(bitstream, image_metadata)? })
    }
}

} // verus!

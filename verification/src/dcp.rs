//! DNG camera profile (DCP) parser.
//!
//! A DCP file is a TIFF container (byte order mark, the magic number
//! `0x4352` in place of TIFF's `0x002A`, and one image file directory)
//! whose tags carry the colour matrices, hue/saturation lookup tables
//! and tone curve of a camera profile.
//!
//! Real-valued fields are kept exactly as the file encodes them
//! ([`TiffReal`]): a signed rational, or the bit pattern of an IEEE-754
//! single or double.  Turning them into floating-point numbers is left to
//! the colour pipeline that consumes the profile.

use vstd::prelude::*;
use vstd::string::*;
use vstd::utf8::valid_utf8;
use vstd::utf8::decode_utf8;
use crate::tiff::TYPE_SHORT;
use crate::tiff::TYPE_LONG;
use crate::tiff::TYPE_SRATIONAL;
use crate::tiff::TYPE_FLOAT;
use crate::tiff::TYPE_DOUBLE;
use crate::tiff::u16_at;
use crate::tiff::u32_at;
use crate::tiff::i32_at;
use crate::tiff::u64_at;
use crate::tiff::size_of_type;
use crate::tiff::short_or_long_at;
use crate::tiff::saturate;
use crate::tiff::lemma_saturated_reads;
use crate::tiff::offset_of;
use crate::tiff::read_u16;
use crate::tiff::read_u32;
use crate::tiff::read_i32;
use crate::tiff::read_u64;
use crate::tiff::read_short_or_long;
use crate::tiff::type_size;

verus! {

/// CalibrationIlluminant1
pub const TAG_CALIBRATION_ILLUMINANT_1: u16 = 50778;
/// CalibrationIlluminant2
pub const TAG_CALIBRATION_ILLUMINANT_2: u16 = 50779;
/// ColorMatrix1 (XYZ to camera)
pub const TAG_COLOR_MATRIX_1: u16 = 50721;
/// ColorMatrix2
pub const TAG_COLOR_MATRIX_2: u16 = 50722;
/// ForwardMatrix1 (camera to XYZ)
pub const TAG_FORWARD_MATRIX_1: u16 = 50964;
/// ForwardMatrix2
pub const TAG_FORWARD_MATRIX_2: u16 = 50965;
/// ProfileHueSatMapDims
pub const TAG_PROFILE_HUE_SAT_MAP_DIMS: u16 = 50937;
/// ProfileHueSatMapData1
pub const TAG_PROFILE_HUE_SAT_MAP_DATA_1: u16 = 50938;
/// ProfileHueSatMapData2
pub const TAG_PROFILE_HUE_SAT_MAP_DATA_2: u16 = 50939;
/// ProfileToneCurve
pub const TAG_PROFILE_TONE_CURVE: u16 = 50940;
/// ProfileLookTableDims
pub const TAG_PROFILE_LOOK_TABLE_DIMS: u16 = 50981;
/// ProfileLookTableData
pub const TAG_PROFILE_LOOK_TABLE_DATA: u16 = 50982;
/// ProfileName
pub const TAG_PROFILE_NAME: u16 = 50936;
/// ProfileHueSatMapEncoding
pub const TAG_PROFILE_HUE_SAT_MAP_ENCODING: u16 = 51107;

/// Magic number of a DCP file ('CR').
pub const DCP_MAGIC: u16 = 0x4352;

// ---------------------------------------------------------------------------
// Standard illuminants
// ---------------------------------------------------------------------------

/// Standard light sources a profile can be calibrated under.
#[derive(Debug, Clone, Copy, PartialEq, Eq, Structural)]
pub enum Illuminant {
    /// Standard illuminant A, 2856 K (tungsten); EXIF code 17.
    StdA,
    /// D50; EXIF code 23.
    D50,
    /// D55; EXIF code 20.
    D55,
    /// D65; EXIF code 21.
    D65,
    /// D75; EXIF code 22.
    D75,
    /// Any other code.
    Unknown,
}

/// The illuminant an EXIF LightSource code names.
pub open spec fn illuminant_from_code(v: u16) -> Illuminant {
    if v == 17 {
        Illuminant::StdA
    } else if v == 20 {
        Illuminant::D55
    } else if v == 21 {
        Illuminant::D65
    } else if v == 22 {
        Illuminant::D75
    } else if v == 23 {
        Illuminant::D50
    } else {
        Illuminant::Unknown
    }
}

/// Approximate correlated colour temperature, in kelvin.
pub open spec fn illuminant_kelvin(i: Illuminant) -> u32 {
    match i {
        Illuminant::StdA => 2856,
        Illuminant::D50 => 5003,
        Illuminant::D55 => 5503,
        Illuminant::D65 => 6504,
        Illuminant::D75 => 7504,
        Illuminant::Unknown => 6504,
    }
}

impl From<u16> for Illuminant {
    fn from(v: u16) -> (r: Self) {
        match v {
            17 => Illuminant::StdA,
            20 => Illuminant::D55,
            21 => Illuminant::D65,
            22 => Illuminant::D75,
            23 => Illuminant::D50,
            _ => Illuminant::Unknown,
        }
    }
}

impl vstd::std_specs::convert::FromSpecImpl<u16> for Illuminant {
    open spec fn obeys_from_spec() -> bool {
        true
    }

    open spec fn from_spec(v: u16) -> Self {
        illuminant_from_code(v)
    }
}

impl Illuminant {
    /// Approximate correlated colour temperature in kelvin (an unknown
    /// illuminant is taken to be D65).
    pub fn temperature(&self) -> (k: u32)
        ensures
            k == illuminant_kelvin(*self),
    {
        match self {
            Illuminant::StdA => 2856,
            Illuminant::D50 => 5003,
            Illuminant::D55 => 5503,
            Illuminant::D65 => 6504,
            Illuminant::D75 => 7504,
            Illuminant::Unknown => 6504,
        }
    }
}

// ---------------------------------------------------------------------------
// Profile data
// ---------------------------------------------------------------------------

/// A real number exactly as a TIFF field encodes it.
#[derive(Debug, Clone, Copy, PartialEq, Eq, Structural)]
pub enum TiffReal {
    /// SRATIONAL: numerator / denominator (a zero denominator means 0).
    Rational { num: i32, den: i32 },
    /// FLOAT: bit pattern of an IEEE-754 binary32.
    Single(u32),
    /// DOUBLE: bit pattern of an IEEE-754 binary64.
    Double(u64),
    /// A field of a type that carries no real number: the value 0.
    Zero,
}

/// Dimensions of a hue/saturation/value lookup table.
#[derive(Debug, Clone, Copy, Default, PartialEq, Eq, Structural)]
pub struct HueSatMapDims {
    pub hue_divs: u32,
    pub sat_divs: u32,
    pub val_divs: u32,
}

/// One entry of a hue/saturation/value lookup table.
#[derive(Debug, Clone, Copy, PartialEq, Eq, Structural)]
pub struct HueSatMapEntry {
    /// Added to hue, in degrees.
    pub hue_shift: TiffReal,
    /// Multiplies saturation.
    pub sat_scale: TiffReal,
    /// Multiplies value.
    pub val_scale: TiffReal,
}

/// A parsed camera profile.
#[derive(Debug, Clone)]
pub struct DcpProfile {
    pub name: String,
    pub illuminant1: Illuminant,
    pub illuminant2: Illuminant,
    /// ColorMatrix1: XYZ to camera (3x3, row-major).
    pub color_matrix_1: Option<[TiffReal; 9]>,
    pub color_matrix_2: Option<[TiffReal; 9]>,
    /// ForwardMatrix1: camera to XYZ (3x3, row-major).
    pub forward_matrix_1: Option<[TiffReal; 9]>,
    pub forward_matrix_2: Option<[TiffReal; 9]>,
    pub hue_sat_map_dims: Option<HueSatMapDims>,
    pub hue_sat_map_data_1: Option<Vec<HueSatMapEntry>>,
    pub hue_sat_map_data_2: Option<Vec<HueSatMapEntry>>,
    /// 0 = linear, 1 = sRGB.
    pub hue_sat_map_encoding: u32,
    pub look_table_dims: Option<HueSatMapDims>,
    pub look_table_data: Option<Vec<HueSatMapEntry>>,
    /// Tone curve as (input, output) pairs.
    pub tone_curve: Option<Vec<(TiffReal, TiffReal)>>,
}

/// The mathematical content of a [`DcpProfile`].
#[verifier::ext_equal]
pub struct DcpProfileModel {
    pub name: Seq<char>,
    pub illuminant1: Illuminant,
    pub illuminant2: Illuminant,
    pub color_matrix_1: Option<Seq<TiffReal>>,
    pub color_matrix_2: Option<Seq<TiffReal>>,
    pub forward_matrix_1: Option<Seq<TiffReal>>,
    pub forward_matrix_2: Option<Seq<TiffReal>>,
    pub hue_sat_map_dims: Option<HueSatMapDims>,
    pub hue_sat_map_data_1: Option<Seq<HueSatMapEntry>>,
    pub hue_sat_map_data_2: Option<Seq<HueSatMapEntry>>,
    pub hue_sat_map_encoding: u32,
    pub look_table_dims: Option<HueSatMapDims>,
    pub look_table_data: Option<Seq<HueSatMapEntry>>,
    pub tone_curve: Option<Seq<(TiffReal, TiffReal)>>,
}

pub open spec fn matrix_model(m: Option<[TiffReal; 9]>) -> Option<Seq<TiffReal>> {
    match m {
        Some(a) => Some(a@),
        None => None,
    }
}

pub open spec fn table_model(t: Option<Vec<HueSatMapEntry>>) -> Option<Seq<HueSatMapEntry>> {
    match t {
        Some(v) => Some(v@),
        None => None,
    }
}

pub open spec fn curve_model(c: Option<Vec<(TiffReal, TiffReal)>>) -> Option<
    Seq<(TiffReal, TiffReal)>,
> {
    match c {
        Some(v) => Some(v@),
        None => None,
    }
}

impl View for DcpProfile {
    type V = DcpProfileModel;

    open spec fn view(&self) -> DcpProfileModel {
        DcpProfileModel {
            name: self.name@,
            illuminant1: self.illuminant1,
            illuminant2: self.illuminant2,
            color_matrix_1: matrix_model(self.color_matrix_1),
            color_matrix_2: matrix_model(self.color_matrix_2),
            forward_matrix_1: matrix_model(self.forward_matrix_1),
            forward_matrix_2: matrix_model(self.forward_matrix_2),
            hue_sat_map_dims: self.hue_sat_map_dims,
            hue_sat_map_data_1: table_model(self.hue_sat_map_data_1),
            hue_sat_map_data_2: table_model(self.hue_sat_map_data_2),
            hue_sat_map_encoding: self.hue_sat_map_encoding,
            look_table_dims: self.look_table_dims,
            look_table_data: table_model(self.look_table_data),
            tone_curve: curve_model(self.tone_curve),
        }
    }
}

/// The profile before any tag is read: unnamed, calibrated for
/// standard illuminant A and D65, linear hue/sat encoding, no tables.
pub open spec fn default_profile() -> DcpProfileModel {
    DcpProfileModel {
        name: Seq::empty(),
        illuminant1: Illuminant::StdA,
        illuminant2: Illuminant::D65,
        color_matrix_1: None,
        color_matrix_2: None,
        forward_matrix_1: None,
        forward_matrix_2: None,
        hue_sat_map_dims: None,
        hue_sat_map_data_1: None,
        hue_sat_map_data_2: None,
        hue_sat_map_encoding: 0,
        look_table_dims: None,
        look_table_data: None,
        tone_curve: None,
    }
}

impl Default for DcpProfile {
    fn default() -> (p: Self)
        ensures
            p@ == default_profile(),
    {
        DcpProfile {
            name: String::new(),
            illuminant1: Illuminant::StdA,
            illuminant2: Illuminant::D65,
            color_matrix_1: None,
            color_matrix_2: None,
            forward_matrix_1: None,
            forward_matrix_2: None,
            hue_sat_map_dims: None,
            hue_sat_map_data_1: None,
            hue_sat_map_data_2: None,
            hue_sat_map_encoding: 0,
            look_table_dims: None,
            look_table_data: None,
            tone_curve: None,
        }
    }
}

// ---------------------------------------------------------------------------
// What each field decodes to
// ---------------------------------------------------------------------------

/// The real number a matrix element of type `typ` encodes at `off`.
pub open spec fn real_at(d: Seq<u8>, off: int, typ: u16, le: bool) -> TiffReal {
    if typ == TYPE_SRATIONAL {
        TiffReal::Rational { num: i32_at(d, off, le), den: i32_at(d, off + 4, le) }
    } else if typ == TYPE_FLOAT {
        TiffReal::Single(u32_at(d, off, le))
    } else if typ == TYPE_DOUBLE {
        TiffReal::Double(u64_at(d, off, le))
    } else {
        TiffReal::Zero
    }
}

/// The real number a table or curve sample of type `typ` encodes at `off`:
/// only FLOAT and DOUBLE samples carry a value.
pub open spec fn sample_at(d: Seq<u8>, off: int, typ: u16, le: bool) -> TiffReal {
    if typ == TYPE_FLOAT {
        TiffReal::Single(u32_at(d, off, le))
    } else if typ == TYPE_DOUBLE {
        TiffReal::Double(u64_at(d, off, le))
    } else {
        TiffReal::Zero
    }
}

/// A 3x3 matrix: the first `min(count, 9)` elements are read, the rest are zero.
pub open spec fn matrix_at(d: Seq<u8>, off: int, typ: u16, count: int, le: bool) -> Seq<TiffReal> {
    Seq::new(
        9,
        |i: int|
            if i < count {
                real_at(d, off + i * size_of_type(typ), typ, le)
            } else {
                TiffReal::Zero
            },
    )
}

/// Table dimensions: three consecutive SHORT or LONG values.
pub open spec fn dims_at(d: Seq<u8>, off: int, typ: u16, le: bool) -> HueSatMapDims {
    HueSatMapDims {
        hue_divs: short_or_long_at(d, off, typ, le),
        sat_divs: short_or_long_at(d, off + size_of_type(typ), typ, le),
        val_divs: short_or_long_at(d, off + 2 * size_of_type(typ), typ, le),
    }
}

/// One table entry: three consecutive samples.
pub open spec fn entry_at(d: Seq<u8>, off: int, typ: u16, le: bool) -> HueSatMapEntry {
    HueSatMapEntry {
        hue_shift: sample_at(d, off, typ, le),
        sat_scale: sample_at(d, off + size_of_type(typ), typ, le),
        val_scale: sample_at(d, off + 2 * size_of_type(typ), typ, le),
    }
}

/// A lookup table of `count / 3` entries.
pub open spec fn table_at(d: Seq<u8>, off: int, typ: u16, count: int, le: bool) -> Seq<
    HueSatMapEntry,
> {
    Seq::new((count / 3) as nat, |i: int| entry_at(d, off + i * (3 * size_of_type(typ)), typ, le))
}

/// A tone curve of `count / 2` (input, output) points.
pub open spec fn curve_at(d: Seq<u8>, off: int, typ: u16, count: int, le: bool) -> Seq<
    (TiffReal, TiffReal),
> {
    Seq::new(
        (count / 2) as nat,
        |i: int|
            (
                sample_at(d, off + i * (2 * size_of_type(typ)), typ, le),
                sample_at(d, off + i * (2 * size_of_type(typ)) + size_of_type(typ), typ, le),
            ),
    )
}

/// Reading a field at a saturated offset reads the same as at the exact one.
proof fn lemma_saturated_fields(d: Seq<u8>, x: int, typ: u16, le: bool)
    requires
        0 <= x,
        d.len() <= usize::MAX,
    ensures
        real_at(d, saturate(x), typ, le) == real_at(d, x, typ, le),
        sample_at(d, saturate(x), typ, le) == sample_at(d, x, typ, le),
        short_or_long_at(d, saturate(x), typ, le) == short_or_long_at(d, x, typ, le),
{
    lemma_saturated_reads(d, x, le);
    lemma_saturated_reads(d, x + 4, le);
}

// ---------------------------------------------------------------------------
// Field readers
// ---------------------------------------------------------------------------

/// Reads a SRATIONAL (numerator, denominator) at `offset`.
fn read_srational(data: &[u8], offset: usize, le: bool) -> (r: TiffReal)
    ensures
        r == real_at(data@, offset as int, TYPE_SRATIONAL, le),
{
    let total: usize = data.len();
    let num: i32 = read_i32(data, offset, le);
    let den: i32 = read_i32(data, offset.saturating_add(4), le);
    proof {
        lemma_saturated_reads(data@, offset + 4, le);
    }
    TiffReal::Rational { num, den }
}

/// Reads a matrix element of type `typ` at `offset`.
fn read_real(data: &[u8], offset: usize, typ: u16, le: bool) -> (r: TiffReal)
    ensures
        r == real_at(data@, offset as int, typ, le),
{
    match typ {
        TYPE_SRATIONAL => read_srational(data, offset, le),
        TYPE_FLOAT => TiffReal::Single(read_u32(data, offset, le)),
        TYPE_DOUBLE => TiffReal::Double(read_u64(data, offset, le)),
        _ => TiffReal::Zero,
    }
}

/// Reads a table or curve sample of type `typ` at `offset`.
fn read_sample(data: &[u8], offset: usize, typ: u16, le: bool) -> (r: TiffReal)
    ensures
        r == sample_at(data@, offset as int, typ, le),
{
    match typ {
        TYPE_FLOAT => TiffReal::Single(read_u32(data, offset, le)),
        TYPE_DOUBLE => TiffReal::Double(read_u64(data, offset, le)),
        _ => TiffReal::Zero,
    }
}

/// Reads a 3x3 matrix from SRATIONAL, FLOAT or DOUBLE data.
fn read_matrix_3x3(data: &[u8], offset: usize, typ: u16, count: usize, le: bool) -> (m: [TiffReal; 9])
    ensures
        m@ == matrix_at(data@, offset as int, typ, count as int, le),
{
    let total: usize = data.len();
    let mut matrix: [TiffReal; 9] = [TiffReal::Zero; 9];
    let n: usize = if count < 9 {
        count
    } else {
        9
    };
    let step: usize = type_size(typ);
    let mut i: usize = 0;
    while i < n
        invariant
            i <= n,
            n <= 9,
            n == (if count < 9 { count } else { 9 }),
            step == size_of_type(typ),
            total == data@.len(),
            forall|j: int|
                0 <= j < 9 ==> matrix@[j] == (if j < i {
                    real_at(data@, offset + j * size_of_type(typ), typ, le)
                } else {
                    TiffReal::Zero
                }),
        decreases n - i,
    {
        let at: usize = offset_of(offset, i, step);
        proof {
            lemma_saturated_fields(data@, offset + i * step, typ, le);
        }
        matrix[i] = read_real(data, at, typ, le);
        i += 1;
    }
    assert(matrix@ =~= matrix_at(data@, offset as int, typ, count as int, le));
    matrix
}

/// Reads table dimensions [hue_divs, sat_divs, val_divs].
fn read_hue_sat_dims(data: &[u8], offset: usize, typ: u16, le: bool) -> (r: HueSatMapDims)
    ensures
        r == dims_at(data@, offset as int, typ, le),
{
    let total: usize = data.len();
    let size: usize = type_size(typ);
    let second: usize = offset_of(offset, 1, size);
    let third: usize = offset_of(offset, 2, size);
    proof {
        lemma_saturated_fields(data@, offset + size, typ, le);
        lemma_saturated_fields(data@, offset + 2 * size, typ, le);
    }
    HueSatMapDims {
        hue_divs: read_short_or_long(data, offset, typ, le),
        sat_divs: read_short_or_long(data, second, typ, le),
        val_divs: read_short_or_long(data, third, typ, le),
    }
}

/// Reads one table entry (hue shift, saturation scale, value scale).
fn read_entry(data: &[u8], offset: usize, typ: u16, le: bool) -> (r: HueSatMapEntry)
    ensures
        r == entry_at(data@, offset as int, typ, le),
{
    let total: usize = data.len();
    let size: usize = type_size(typ);
    let second: usize = offset_of(offset, 1, size);
    let third: usize = offset_of(offset, 2, size);
    proof {
        lemma_saturated_fields(data@, offset + size, typ, le);
        lemma_saturated_fields(data@, offset + 2 * size, typ, le);
    }
    HueSatMapEntry {
        hue_shift: read_sample(data, offset, typ, le),
        sat_scale: read_sample(data, second, typ, le),
        val_scale: read_sample(data, third, typ, le),
    }
}

/// Reads a lookup table: `count / 3` entries of three samples each.
fn read_hue_sat_data(data: &[u8], offset: usize, typ: u16, count: usize, le: bool) -> (r: Vec<
    HueSatMapEntry,
>)
    ensures
        r@ == table_at(data@, offset as int, typ, count as int, le),
{
    let total: usize = data.len();
    let num_entries: usize = count / 3;
    let size: usize = type_size(typ);
    let stride: usize = 3 * size;
    let mut entries: Vec<HueSatMapEntry> = Vec::new();
    let mut i: usize = 0;
    while i < num_entries
        invariant
            i <= num_entries,
            num_entries == count / 3,
            size == size_of_type(typ),
            stride == 3 * size,
            total == data@.len(),
            entries@.len() == i,
            forall|j: int|
                0 <= j < i ==> entries@[j] == entry_at(
                    data@,
                    offset + j * (3 * size_of_type(typ)),
                    typ,
                    le,
                ),
        decreases num_entries - i,
    {
        let base: usize = offset_of(offset, i, stride);
        let e: HueSatMapEntry = read_entry(data, base, typ, le);
        proof {
            let x: int = offset + i * stride;
            assert(0 <= i * stride) by (nonlinear_arith)
                requires
                    0 <= i,
                    0 <= stride,
            ;
            lemma_saturated_fields(data@, x, typ, le);
            lemma_saturated_fields(data@, x + size, typ, le);
            lemma_saturated_fields(data@, x + 2 * size, typ, le);
            if x > usize::MAX {
                lemma_saturated_fields(data@, usize::MAX + size, typ, le);
                lemma_saturated_fields(data@, usize::MAX + 2 * size, typ, le);
            }
        }
        entries.push(e);
        i += 1;
    }
    assert(entries@ =~= table_at(data@, offset as int, typ, count as int, le));
    entries
}

/// Reads a tone curve: `count / 2` (input, output) sample pairs.
fn read_tone_curve(data: &[u8], offset: usize, typ: u16, count: usize, le: bool) -> (r: Vec<
    (TiffReal, TiffReal),
>)
    ensures
        r@ == curve_at(data@, offset as int, typ, count as int, le),
{
    let total: usize = data.len();
    let num_points: usize = count / 2;
    let size: usize = type_size(typ);
    let stride: usize = 2 * size;
    let mut curve: Vec<(TiffReal, TiffReal)> = Vec::new();
    let mut i: usize = 0;
    while i < num_points
        invariant
            i <= num_points,
            num_points == count / 2,
            size == size_of_type(typ),
            stride == 2 * size,
            total == data@.len(),
            curve@.len() == i,
            forall|j: int|
                0 <= j < i ==> curve@[j] == (
                    sample_at(data@, offset + j * (2 * size_of_type(typ)), typ, le),
                    sample_at(
                        data@,
                        offset + j * (2 * size_of_type(typ)) + size_of_type(typ),
                        typ,
                        le,
                    ),
                ),
        decreases num_points - i,
    {
        let base: usize = offset_of(offset, i, stride);
        let next: usize = offset_of(base, 1, size);
        let input: TiffReal = read_sample(data, base, typ, le);
        let output: TiffReal = read_sample(data, next, typ, le);
        proof {
            let x: int = offset + i * stride;
            assert(0 <= i * stride) by (nonlinear_arith)
                requires
                    0 <= i,
                    0 <= stride,
            ;
            lemma_saturated_fields(data@, x, typ, le);
            lemma_saturated_fields(data@, x + size, typ, le);
            if x > usize::MAX {
                lemma_saturated_fields(data@, usize::MAX + size, typ, le);
            }
        }
        curve.push((input, output));
        i += 1;
    }
    assert(curve@ =~= curve_at(data@, offset as int, typ, count as int, le));
    curve
}

// ---------------------------------------------------------------------------
// Profile name
// ---------------------------------------------------------------------------

/// The text `String::from_utf8_lossy` makes of `bytes`: its valid UTF-8
/// sequences decoded, every invalid sequence replaced by U+FFFD.
pub uninterp spec fn utf8_lossy(bytes: Seq<u8>) -> Seq<char>;

/// Calls `String::from_utf8_lossy` on `data[start..end]`.
/// Claimed: the text is `utf8_lossy` of those bytes, and for valid UTF-8
/// it is their plain decoding (the function's documented behaviour).
#[verifier::external_body]
fn lossy_text(data: &[u8], start: usize, end: usize) -> (r: String)
    requires
        start <= end <= data@.len(),
    ensures
        r@ == utf8_lossy(data@.subrange(start as int, end as int)),
        valid_utf8(data@.subrange(start as int, end as int)) ==> r@ == decode_utf8(
            data@.subrange(start as int, end as int),
        ),
{
    String::from_utf8_lossy(&data[start..end]).into_owned()
}

/// The text of a byte string: its UTF-8 decoding when it is valid UTF-8,
/// else what `String::from_utf8_lossy` makes of it.
pub open spec fn text_of(bytes: Seq<u8>) -> Seq<char> {
    if valid_utf8(bytes) {
        decode_utf8(bytes)
    } else {
        utf8_lossy(bytes)
    }
}

/// `s` without its trailing NUL characters.
pub open spec fn trim_trailing_nul(s: Seq<char>) -> Seq<char>
    decreases s.len(),
{
    if s.len() > 0 && s.last() == '\0' {
        trim_trailing_nul(s.drop_last())
    } else {
        s
    }
}

/// Removes the trailing NUL characters of `text` (a profile name is stored
/// NUL-padded).
pub fn trim_end_nul(text: String) -> (r: String)
    ensures
        r@ == trim_trailing_nul(text@),
{
    let s: &str = text.as_str();
    let n: usize = s.unicode_len();
    let mut k: usize = n;
    assert(s@.subrange(0, n as int) =~= s@);
    loop
        invariant
            k <= n,
            n == s@.len(),
            trim_trailing_nul(s@) == trim_trailing_nul(s@.subrange(0, k as int)),
        ensures
            k <= n,
            trim_trailing_nul(s@) == trim_trailing_nul(s@.subrange(0, k as int)),
            k == 0 || s@[k - 1] != '\0',
        decreases k,
    {
        if k == 0 {
            break;
        }
        if s.get_char(k - 1) != '\0' {
            break;
        }
        assert(s@.subrange(0, k as int).drop_last() =~= s@.subrange(0, k - 1));
        k -= 1;
    }
    let kept: &str = s.substring_char(0, k);
    kept.to_owned()
}

// ---------------------------------------------------------------------------
// Error messages
// ---------------------------------------------------------------------------

/// Why a buffer is not a readable DCP file.
#[derive(Debug, Clone, Copy, PartialEq, Eq, Structural)]
pub enum DcpError {
    /// Fewer than eight bytes: no room for a TIFF header.
    TooShort,
    /// The first two bytes are neither `II` nor `MM`.
    InvalidByteOrder(u8, u8),
    /// The header's magic number is not `0x4352`.
    NotDcp(u16),
    /// The directory offset points outside the buffer.
    IfdOutOfBounds,
}

/// Lower-case hexadecimal digit of `v` (0..16).
pub open spec fn hex_digit(v: int) -> char {
    if v == 0 {
        '0'
    } else if v == 1 {
        '1'
    } else if v == 2 {
        '2'
    } else if v == 3 {
        '3'
    } else if v == 4 {
        '4'
    } else if v == 5 {
        '5'
    } else if v == 6 {
        '6'
    } else if v == 7 {
        '7'
    } else if v == 8 {
        '8'
    } else if v == 9 {
        '9'
    } else if v == 10 {
        'a'
    } else if v == 11 {
        'b'
    } else if v == 12 {
        'c'
    } else if v == 13 {
        'd'
    } else if v == 14 {
        'e'
    } else {
        'f'
    }
}

/// The lowest `width` hexadecimal digits of `v`, most significant first.
pub open spec fn hex_text(v: int, width: nat) -> Seq<char>
    decreases width,
{
    if width == 0 {
        Seq::empty()
    } else {
        hex_text(v / 16, (width - 1) as nat).push(hex_digit(v % 16))
    }
}

/// The message each error is reported with.
pub open spec fn error_text(e: DcpError) -> Seq<char> {
    match e {
        DcpError::TooShort => "DCP file too short"@,
        DcpError::InvalidByteOrder(a, b) => "Invalid TIFF byte order: "@ + hex_text(a as int, 2)
            + hex_text(b as int, 2),
        DcpError::NotDcp(m) => "Not a DCP file (magic: 0x"@ + hex_text(m as int, 4) + ")"@,
        DcpError::IfdOutOfBounds => "IFD offset out of bounds"@,
    }
}

fn hex_digit_str(d: u32) -> (s: &'static str)
    requires
        d < 16,
    ensures
        s@ == seq![hex_digit(d as int)],
{
    match d {
        0 => {
            proof {
                reveal_strlit("0");
            }
            "0"
        },
        1 => {
            proof {
                reveal_strlit("1");
            }
            "1"
        },
        2 => {
            proof {
                reveal_strlit("2");
            }
            "2"
        },
        3 => {
            proof {
                reveal_strlit("3");
            }
            "3"
        },
        4 => {
            proof {
                reveal_strlit("4");
            }
            "4"
        },
        5 => {
            proof {
                reveal_strlit("5");
            }
            "5"
        },
        6 => {
            proof {
                reveal_strlit("6");
            }
            "6"
        },
        7 => {
            proof {
                reveal_strlit("7");
            }
            "7"
        },
        8 => {
            proof {
                reveal_strlit("8");
            }
            "8"
        },
        9 => {
            proof {
                reveal_strlit("9");
            }
            "9"
        },
        10 => {
            proof {
                reveal_strlit("a");
            }
            "a"
        },
        11 => {
            proof {
                reveal_strlit("b");
            }
            "b"
        },
        12 => {
            proof {
                reveal_strlit("c");
            }
            "c"
        },
        13 => {
            proof {
                reveal_strlit("d");
            }
            "d"
        },
        14 => {
            proof {
                reveal_strlit("e");
            }
            "e"
        },
        _ => {
            proof {
                reveal_strlit("f");
            }
            "f"
        },
    }
}

/// Appends the lowest `width` hexadecimal digits of `v`.
fn append_hex(s: &mut String, v: u32, width: u32)
    ensures
        final(s)@ == old(s)@ + hex_text(v as int, width as nat),
    decreases width,
{
    if width > 0 {
        append_hex(s, v / 16, width - 1);
        s.append(hex_digit_str(v % 16));
        assert(final(s)@ =~= old(s)@ + hex_text(v as int, width as nat));
    } else {
        assert(old(s)@ + hex_text(v as int, 0) =~= old(s)@);
    }
}

/// The message an error is reported with.
fn error_message(e: DcpError) -> (s: String)
    ensures
        s@ == error_text(e),
{
    match e {
        DcpError::TooShort => String::from_str("DCP file too short"),
        DcpError::InvalidByteOrder(a, b) => {
            let mut s: String = String::from_str("Invalid TIFF byte order: ");
            append_hex(&mut s, a as u32, 2);
            append_hex(&mut s, b as u32, 2);
            s
        },
        DcpError::NotDcp(m) => {
            let mut s: String = String::from_str("Not a DCP file (magic: 0x");
            append_hex(&mut s, m as u32, 4);
            s.append(")");
            s
        },
        DcpError::IfdOutOfBounds => String::from_str("IFD offset out of bounds"),
    }
}

// ---------------------------------------------------------------------------
// The image file directory
// ---------------------------------------------------------------------------

/// Where the value of the directory entry at `at` lives: inside the entry
/// itself when it fits in four bytes, else at the offset the entry holds.
pub open spec fn value_location(d: Seq<u8>, at: int, le: bool) -> int {
    let typ = u16_at(d, at + 2, le);
    let count = u32_at(d, at + 4, le) as int;
    if size_of_type(typ) * count <= 4 {
        at + 8
    } else {
        u32_at(d, at + 8, le) as int
    }
}

/// The profile after reading the twelve-byte directory entry at `at`:
/// a known tag sets its field, any other tag changes nothing.
pub open spec fn apply_entry(d: Seq<u8>, le: bool, p: DcpProfileModel, at: int) -> DcpProfileModel {
    let tag = u16_at(d, at, le);
    let typ = u16_at(d, at + 2, le);
    let count = u32_at(d, at + 4, le) as int;
    let ptr = value_location(d, at, le);
    if tag == TAG_PROFILE_NAME {
        if ptr + count <= d.len() {
            DcpProfileModel {
                name: trim_trailing_nul(text_of(d.subrange(ptr, ptr + count))),
                ..p
            }
        } else {
            p
        }
    } else if tag == TAG_CALIBRATION_ILLUMINANT_1 {
        DcpProfileModel {
            illuminant1: illuminant_from_code(short_or_long_at(d, ptr, typ, le) as u16),
            ..p
        }
    } else if tag == TAG_CALIBRATION_ILLUMINANT_2 {
        DcpProfileModel {
            illuminant2: illuminant_from_code(short_or_long_at(d, ptr, typ, le) as u16),
            ..p
        }
    } else if tag == TAG_COLOR_MATRIX_1 {
        DcpProfileModel { color_matrix_1: Some(matrix_at(d, ptr, typ, count, le)), ..p }
    } else if tag == TAG_COLOR_MATRIX_2 {
        DcpProfileModel { color_matrix_2: Some(matrix_at(d, ptr, typ, count, le)), ..p }
    } else if tag == TAG_FORWARD_MATRIX_1 {
        DcpProfileModel { forward_matrix_1: Some(matrix_at(d, ptr, typ, count, le)), ..p }
    } else if tag == TAG_FORWARD_MATRIX_2 {
        DcpProfileModel { forward_matrix_2: Some(matrix_at(d, ptr, typ, count, le)), ..p }
    } else if tag == TAG_PROFILE_HUE_SAT_MAP_DIMS {
        DcpProfileModel { hue_sat_map_dims: Some(dims_at(d, ptr, typ, le)), ..p }
    } else if tag == TAG_PROFILE_HUE_SAT_MAP_DATA_1 {
        DcpProfileModel { hue_sat_map_data_1: Some(table_at(d, ptr, typ, count, le)), ..p }
    } else if tag == TAG_PROFILE_HUE_SAT_MAP_DATA_2 {
        DcpProfileModel { hue_sat_map_data_2: Some(table_at(d, ptr, typ, count, le)), ..p }
    } else if tag == TAG_PROFILE_HUE_SAT_MAP_ENCODING {
        DcpProfileModel { hue_sat_map_encoding: short_or_long_at(d, ptr, typ, le), ..p }
    } else if tag == TAG_PROFILE_LOOK_TABLE_DIMS {
        DcpProfileModel { look_table_dims: Some(dims_at(d, ptr, typ, le)), ..p }
    } else if tag == TAG_PROFILE_LOOK_TABLE_DATA {
        DcpProfileModel { look_table_data: Some(table_at(d, ptr, typ, count, le)), ..p }
    } else if tag == TAG_PROFILE_TONE_CURVE {
        DcpProfileModel { tone_curve: Some(curve_at(d, ptr, typ, count, le)), ..p }
    } else {
        p
    }
}

/// The profile after reading entries `i..count` of the directory whose
/// entries start at `start`, stopping at the first entry that does not lie
/// wholly inside the buffer.
pub open spec fn apply_entries(
    d: Seq<u8>,
    le: bool,
    start: int,
    count: int,
    i: int,
    p: DcpProfileModel,
) -> DcpProfileModel
    decreases count - i,
{
    if i < count && start + 12 * i + 12 <= d.len() {
        apply_entries(d, le, start, count, i + 1, apply_entry(d, le, p, start + 12 * i))
    } else {
        p
    }
}

/// Reads the directory entry at `entry_offset` into `profile`.
fn apply_ifd_entry(data: &[u8], entry_offset: usize, le: bool, profile: &mut DcpProfile)
    requires
        entry_offset + 12 <= data@.len(),
    ensures
        final(profile)@ == apply_entry(data@, le, old(profile)@, entry_offset as int),
{
    let total: usize = data.len();
    let tag: u16 = read_u16(data, entry_offset, le);
    let typ: u16 = read_u16(data, entry_offset + 2, le);
    let count: usize = read_u32(data, entry_offset + 4, le) as usize;
    let value_offset_raw: u32 = read_u32(data, entry_offset + 8, le);
    let size: usize = type_size(typ);
    assert((size as u64) * (count as u64) <= 8 * 0xffff_ffff) by (nonlinear_arith)
        requires
            size <= 8,
            count <= 0xffff_ffff,
    ;
    let value_size: u64 = (size as u64) * (count as u64);
    let value_ptr: usize = if value_size <= 4 {
        entry_offset + 8
    } else {
        value_offset_raw as usize
    };
    assert(value_ptr == value_location(data@, entry_offset as int, le));
    match tag {
        TAG_PROFILE_NAME => {
            if count <= data.len() && value_ptr <= data.len() - count {
                let text: String = lossy_text(data, value_ptr, value_ptr + count);
                assert(text@ == text_of(data@.subrange(value_ptr as int, value_ptr + count)));
                profile.name = trim_end_nul(text);
            }
        },
        TAG_CALIBRATION_ILLUMINANT_1 => {
            let v: u32 = read_short_or_long(data, value_ptr, typ, le);
            profile.illuminant1 = Illuminant::from(v as u16);
        },
        TAG_CALIBRATION_ILLUMINANT_2 => {
            let v: u32 = read_short_or_long(data, value_ptr, typ, le);
            profile.illuminant2 = Illuminant::from(v as u16);
        },
        TAG_COLOR_MATRIX_1 => {
            profile.color_matrix_1 = Some(read_matrix_3x3(data, value_ptr, typ, count, le));
        },
        TAG_COLOR_MATRIX_2 => {
            profile.color_matrix_2 = Some(read_matrix_3x3(data, value_ptr, typ, count, le));
        },
        TAG_FORWARD_MATRIX_1 => {
            profile.forward_matrix_1 = Some(read_matrix_3x3(data, value_ptr, typ, count, le));
        },
        TAG_FORWARD_MATRIX_2 => {
            profile.forward_matrix_2 = Some(read_matrix_3x3(data, value_ptr, typ, count, le));
        },
        TAG_PROFILE_HUE_SAT_MAP_DIMS => {
            profile.hue_sat_map_dims = Some(read_hue_sat_dims(data, value_ptr, typ, le));
        },
        TAG_PROFILE_HUE_SAT_MAP_DATA_1 => {
            profile.hue_sat_map_data_1 = Some(read_hue_sat_data(data, value_ptr, typ, count, le));
        },
        TAG_PROFILE_HUE_SAT_MAP_DATA_2 => {
            profile.hue_sat_map_data_2 = Some(read_hue_sat_data(data, value_ptr, typ, count, le));
        },
        TAG_PROFILE_HUE_SAT_MAP_ENCODING => {
            profile.hue_sat_map_encoding = read_short_or_long(data, value_ptr, typ, le);
        },
        TAG_PROFILE_LOOK_TABLE_DIMS => {
            profile.look_table_dims = Some(read_hue_sat_dims(data, value_ptr, typ, le));
        },
        TAG_PROFILE_LOOK_TABLE_DATA => {
            profile.look_table_data = Some(read_hue_sat_data(data, value_ptr, typ, count, le));
        },
        TAG_PROFILE_TONE_CURVE => {
            profile.tone_curve = Some(read_tone_curve(data, value_ptr, typ, count, le));
        },
        _ => {},
    }
}

/// Reads every directory entry that lies inside the buffer into `profile`.
fn parse_ifd(data: &[u8], offset: usize, le: bool, profile: &mut DcpProfile) -> (r: Result<
    (),
    DcpError,
>)
    ensures
        offset + 2 > data@.len() ==> r == Err::<(), DcpError>(DcpError::IfdOutOfBounds)
            && final(profile)@ == old(profile)@,
        offset + 2 <= data@.len() ==> r is Ok && final(profile)@ == apply_entries(
            data@,
            le,
            offset + 2,
            u16_at(data@, offset as int, le) as int,
            0,
            old(profile)@,
        ),
{
    if offset > data.len() || data.len() - offset < 2 {
        return Err(DcpError::IfdOutOfBounds);
    }
    let entry_count: usize = read_u16(data, offset, le) as usize;
    let entries_start: usize = offset + 2;
    let ghost target = apply_entries(
        data@,
        le,
        entries_start as int,
        entry_count as int,
        0,
        old(profile)@,
    );
    let mut i: usize = 0;
    while i < entry_count && data.len() - entries_start - 12 * i >= 12
        invariant
            i <= entry_count,
            entry_count <= 0xffff,
            entries_start + 12 * i <= data@.len(),
            apply_entries(data@, le, entries_start as int, entry_count as int, i as int, profile@)
                == target,
        decreases entry_count - i,
    {
        let entry_offset: usize = entries_start + 12 * i;
        apply_ifd_entry(data, entry_offset, le, profile);
        i += 1;
    }
    Ok(())
}

/// What parsing a DCP file gives: the profile its directory describes, or
/// the first problem found in its header.
pub open spec fn dcp_parse(d: Seq<u8>) -> Result<DcpProfileModel, DcpError> {
    if d.len() < 8 {
        Err(DcpError::TooShort)
    } else if !((d[0] == 0x49 && d[1] == 0x49) || (d[0] == 0x4d && d[1] == 0x4d)) {
        Err(DcpError::InvalidByteOrder(d[0], d[1]))
    } else {
        let le = d[0] == 0x49;
        let magic = u16_at(d, 2, le);
        if magic != DCP_MAGIC {
            Err(DcpError::NotDcp(magic))
        } else {
            let off = u32_at(d, 4, le) as int;
            if off + 2 > d.len() {
                Err(DcpError::IfdOutOfBounds)
            } else {
                Ok(apply_entries(d, le, off + 2, u16_at(d, off, le) as int, 0, default_profile()))
            }
        }
    }
}

fn parse_profile(data: &[u8]) -> (r: Result<DcpProfile, DcpError>)
    ensures
        match dcp_parse(data@) {
            Ok(m) => r is Ok && r->Ok_0@ == m,
            Err(e) => r is Err && r->Err_0 == e,
        },
{
    if data.len() < 8 {
        return Err(DcpError::TooShort);
    }
    let little_endian: bool = if data[0] == 0x49 && data[1] == 0x49 {
        true
    } else if data[0] == 0x4d && data[1] == 0x4d {
        false
    } else {
        return Err(DcpError::InvalidByteOrder(data[0], data[1]));
    };
    let magic: u16 = read_u16(data, 2, little_endian);
    if magic != DCP_MAGIC {
        return Err(DcpError::NotDcp(magic));
    }
    let ifd_offset: usize = read_u32(data, 4, little_endian) as usize;
    if ifd_offset >= data.len() {
        return Err(DcpError::IfdOutOfBounds);
    }
    let mut profile: DcpProfile = DcpProfile::default();
    match parse_ifd(data, ifd_offset, little_endian, &mut profile) {
        Ok(()) => Ok(profile),
        Err(e) => Err(e),
    }
}

/// Parses a DCP file.
///
/// Succeeds exactly when the buffer holds at least a TIFF header with byte
/// order `II` or `MM`, the DCP magic number and a directory offset with
/// room for the entry count; the profile is then the default one updated
/// by every directory entry that lies inside the buffer, in order.
/// Otherwise the error message names the first problem found.
pub fn parse_dcp(data: &[u8]) -> (r: Result<DcpProfile, String>)
    ensures
        match dcp_parse(data@) {
            Ok(m) => r is Ok && r->Ok_0@ == m,
            Err(e) => r is Err && r->Err_0@ == error_text(e),
        },
{
    match parse_profile(data) {
        Ok(p) => Ok(p),
        Err(e) => Err(error_message(e)),
    }
}

impl Default for HueSatMapEntry {
    fn default() -> (e: Self)
        ensures
            e == (HueSatMapEntry {
                hue_shift: TiffReal::Zero,
                sat_scale: TiffReal::Zero,
                val_scale: TiffReal::Zero,
            }),
    {
        HueSatMapEntry {
            hue_shift: TiffReal::Zero,
            sat_scale: TiffReal::Zero,
            val_scale: TiffReal::Zero,
        }
    }
}

// ---------------------------------------------------------------------------
// Table addressing
// ---------------------------------------------------------------------------

/// Position of entry (`hue`, `sat`, `val`) in a table stored value-major,
/// saturation-minor, hue-micro, clamped to the last of `len` entries.
pub open spec fn table_position(dims: HueSatMapDims, hue: int, sat: int, val: int, len: int) -> int {
    let exact = (val * dims.sat_divs + sat) * dims.hue_divs + hue;
    if exact < len - 1 {
        exact
    } else {
        len - 1
    }
}

/// Index of table entry (`hue`, `sat`, `val`) in a table of `len` entries
/// (value-major, saturation-minor, hue-micro); an index past the end reads
/// the last entry.
pub fn hue_sat_entry_index(dims: &HueSatMapDims, hue: usize, sat: usize, val: usize, len: usize) -> (i: usize)
    requires
        len > 0,
    ensures
        i == table_position(*dims, hue as int, sat as int, val as int, len as int),
        i < len,
{
    let last: usize = len - 1;
    let sd: usize = dims.sat_divs as usize;
    let hd: usize = dims.hue_divs as usize;
    let exact: Option<usize> = if hd == 0 {
        Some(hue)
    } else {
        match val.checked_mul(sd) {
            Some(a) => match a.checked_add(sat) {
                Some(b) => match b.checked_mul(hd) {
                    Some(c) => c.checked_add(hue),
                    None => None,
                },
                None => None,
            },
            None => None,
        }
    };
    proof {
        let row: int = val * sd + sat;
        assert(0 <= val * sd) by (nonlinear_arith)
            requires
                0 <= val,
                0 <= sd,
        ;
        if hd == 0 {
            assert(row * hd == 0) by (nonlinear_arith)
                requires
                    hd == 0,
            ;
        } else {
            assert(row <= row * hd) by (nonlinear_arith)
                requires
                    hd >= 1,
                    row >= 0,
            ;
        }
    }
    match exact {
        Some(e) => if e < last {
            e
        } else {
            last
        },
        None => last,
    }
}

// ---------------------------------------------------------------------------
// Laws
// ---------------------------------------------------------------------------

/// An illuminant code the parser does not know is given D65's colour
/// temperature.
pub proof fn lemma_unknown_illuminant_is_d65(v: u16)
    requires
        v != 17 && v != 20 && v != 21 && v != 22 && v != 23,
    ensures
        illuminant_from_code(v) == Illuminant::Unknown,
        illuminant_kelvin(illuminant_from_code(v)) == illuminant_kelvin(Illuminant::D65),
{
}

/// The tags a profile field is read from.
pub open spec fn is_profile_tag(tag: u16) -> bool {
    tag == TAG_PROFILE_NAME || tag == TAG_CALIBRATION_ILLUMINANT_1
        || tag == TAG_CALIBRATION_ILLUMINANT_2 || tag == TAG_COLOR_MATRIX_1 || tag
        == TAG_COLOR_MATRIX_2 || tag == TAG_FORWARD_MATRIX_1 || tag == TAG_FORWARD_MATRIX_2 || tag
        == TAG_PROFILE_HUE_SAT_MAP_DIMS || tag == TAG_PROFILE_HUE_SAT_MAP_DATA_1 || tag
        == TAG_PROFILE_HUE_SAT_MAP_DATA_2 || tag == TAG_PROFILE_HUE_SAT_MAP_ENCODING || tag
        == TAG_PROFILE_LOOK_TABLE_DIMS || tag == TAG_PROFILE_LOOK_TABLE_DATA || tag
        == TAG_PROFILE_TONE_CURVE
}

/// A directory entry whose tag is not one of the profile tags leaves the
/// profile as it was.
pub proof fn lemma_unknown_tag_ignored(d: Seq<u8>, le: bool, p: DcpProfileModel, at: int)
    requires
        !is_profile_tag(u16_at(d, at, le)),
    ensures
        apply_entry(d, le, p, at) == p,
{
}

/// A directory that claims more entries than the buffer holds reads as
/// the directory of the entries that lie wholly inside the buffer.
pub proof fn lemma_truncated_directory(
    d: Seq<u8>,
    le: bool,
    start: int,
    count: int,
    i: int,
    p: DcpProfileModel,
)
    requires
        0 <= start <= d.len(),
        0 <= i <= count,
        start + 12 * i <= d.len(),
    ensures
        apply_entries(d, le, start, count, i, p) == apply_entries(
            d,
            le,
            start,
            if count < (d.len() - start) / 12 {
                count
            } else {
                (d.len() - start) / 12
            },
            i,
            p,
        ),
    decreases count - i,
{
    let fit = if count < (d.len() - start) / 12 {
        count
    } else {
        (d.len() - start) / 12
    };
    if i < count && start + 12 * i + 12 <= d.len() {
        assert(i < fit);
        lemma_truncated_directory(d, le, start, count, i + 1, apply_entry(d, le, p, start + 12 * i));
    } else {
        assert(!(i < fit && start + 12 * i + 12 <= d.len()));
    }
}

/// A profile name never ends in NUL, and is a prefix of the decoded text.
pub proof fn lemma_trimmed_name(s: Seq<char>)
    ensures
        trim_trailing_nul(s).len() == 0 || trim_trailing_nul(s).last() != '\0',
        trim_trailing_nul(s).is_prefix_of(s),
    decreases s.len(),
{
    if s.len() > 0 && s.last() == '\0' {
        lemma_trimmed_name(s.drop_last());
        assert(s.drop_last().subrange(0, trim_trailing_nul(s).len() as int) =~= s.subrange(
            0,
            trim_trailing_nul(s).len() as int,
        ));
    } else {
        assert(s.subrange(0, s.len() as int) =~= s);
    }
}

/// Every cell of a table holding one entry per cell lies inside the table.
proof fn lemma_cell_in_table(hd: int, sd: int, vd: int, h: int, s: int, v: int)
    requires
        0 <= h < hd,
        0 <= s < sd,
        0 <= v < vd,
    ensures
        0 <= (v * sd + s) * hd + h < hd * sd * vd,
{
    assert(0 <= v * sd + s <= vd * sd - 1) by (nonlinear_arith)
        requires
            0 <= s < sd,
            0 <= v < vd,
    ;
    assert(0 <= (v * sd + s) * hd + h <= (vd * sd - 1) * hd + hd - 1) by (nonlinear_arith)
        requires
            0 <= v * sd + s <= vd * sd - 1,
            0 <= h < hd,
    ;
    assert((vd * sd - 1) * hd + hd - 1 == hd * sd * vd - 1) by (nonlinear_arith);
}

/// Cell addressing of a hue/saturation/value table that holds one entry
/// per cell: the cells are laid out value-major, saturation-minor,
/// hue-micro.  The first cell is entry 0; the next hue is the next entry;
/// the next saturation is `hue_divs` entries on; the next value slice is
/// `hue_divs * sat_divs` entries on (whatever `val_divs` is); and every
/// cell is addressed exactly, inside the table.
pub proof fn lemma_table_cells(dims: HueSatMapDims, h: int, s: int, v: int, len: int)
    requires
        0 <= h < dims.hue_divs,
        0 <= s < dims.sat_divs,
        0 <= v < dims.val_divs,
        len == dims.hue_divs * dims.sat_divs * dims.val_divs,
    ensures
        table_position(dims, 0, 0, 0, len) == 0,
        table_position(dims, h, s, v, len) == (v * dims.sat_divs + s) * dims.hue_divs + h,
        0 <= table_position(dims, h, s, v, len) < len,
        h + 1 < dims.hue_divs ==> table_position(dims, h + 1, s, v, len) == table_position(
            dims,
            h,
            s,
            v,
            len,
        ) + 1,
        s + 1 < dims.sat_divs ==> table_position(dims, h, s + 1, v, len) == table_position(
            dims,
            h,
            s,
            v,
            len,
        ) + dims.hue_divs,
        v + 1 < dims.val_divs ==> table_position(dims, h, s, v + 1, len) == table_position(
            dims,
            h,
            s,
            v,
            len,
        ) + dims.hue_divs * dims.sat_divs,
{
    let hd: int = dims.hue_divs as int;
    let sd: int = dims.sat_divs as int;
    let vd: int = dims.val_divs as int;
    lemma_cell_in_table(hd, sd, vd, h, s, v);
    lemma_cell_in_table(hd, sd, vd, 0, 0, 0);
    assert((0 * sd + 0) * hd + 0 == 0) by (nonlinear_arith);
    if h + 1 < hd {
        lemma_cell_in_table(hd, sd, vd, h + 1, s, v);
    }
    if s + 1 < sd {
        lemma_cell_in_table(hd, sd, vd, h, s + 1, v);
        assert((v * sd + (s + 1)) * hd + h == (v * sd + s) * hd + h + hd) by (nonlinear_arith);
    }
    if v + 1 < vd {
        lemma_cell_in_table(hd, sd, vd, h, s, v + 1);
        assert(((v + 1) * sd + s) * hd + h == (v * sd + s) * hd + h + hd * sd) by (nonlinear_arith);
    }
}

/// Where the directory entry at `at` keeps its value, read off the raw
/// entry: inline at `at + 8` when `count` elements of the type take at most
/// four bytes, else at the 32-bit offset stored at `at + 8`.
pub open spec fn raw_value_offset(d: Seq<u8>, at: int, le: bool) -> int {
    if size_of_type(u16_at(d, at + 2, le)) * u32_at(d, at + 4, le) <= 4 {
        at + 8
    } else {
        u32_at(d, at + 8, le) as int
    }
}

/// `t` holds the `count / 3` entries of three FLOAT samples (12 bytes per
/// entry: hue shift, saturation scale, value scale) stored from `off`.
pub open spec fn is_float_table(t: Seq<HueSatMapEntry>, d: Seq<u8>, off: int, count: int, le: bool) -> bool {
    &&& t.len() == count / 3
    &&& forall|j: int|
        0 <= j < t.len() ==> #[trigger] t[j] == (HueSatMapEntry {
            hue_shift: TiffReal::Single(u32_at(d, off + 12 * j, le)),
            sat_scale: TiffReal::Single(u32_at(d, off + 12 * j + 4, le)),
            val_scale: TiffReal::Single(u32_at(d, off + 12 * j + 8, le)),
        })
}

/// `t` holds the `count / 3` entries of three DOUBLE samples (24 bytes per
/// entry) stored from `off`.
pub open spec fn is_double_table(t: Seq<HueSatMapEntry>, d: Seq<u8>, off: int, count: int, le: bool) -> bool {
    &&& t.len() == count / 3
    &&& forall|j: int|
        0 <= j < t.len() ==> #[trigger] t[j] == (HueSatMapEntry {
            hue_shift: TiffReal::Double(u64_at(d, off + 24 * j, le)),
            sat_scale: TiffReal::Double(u64_at(d, off + 24 * j + 8, le)),
            val_scale: TiffReal::Double(u64_at(d, off + 24 * j + 16, le)),
        })
}

/// The three table dimensions stored from `off`, in file order:
/// hue divisions, then saturation divisions, then value divisions.
pub open spec fn dims_in_file_order(d: Seq<u8>, off: int, typ: u16, le: bool) -> HueSatMapDims {
    if typ == TYPE_SHORT {
        HueSatMapDims {
            hue_divs: u16_at(d, off, le) as u32,
            sat_divs: u16_at(d, off + 2, le) as u32,
            val_divs: u16_at(d, off + 4, le) as u32,
        }
    } else {
        HueSatMapDims {
            hue_divs: u32_at(d, off, le),
            sat_divs: u32_at(d, off + 4, le),
            val_divs: u32_at(d, off + 8, le),
        }
    }
}

/// A ProfileHueSatMapDims or ProfileLookTableDims entry of SHORT or LONG
/// type sets its table's dimensions to the three values stored where the
/// entry points, in file order, and leaves the other table's dimensions
/// alone.
pub proof fn lemma_dims_entry(d: Seq<u8>, le: bool, p: DcpProfileModel, at: int)
    requires
        u16_at(d, at, le) == TAG_PROFILE_HUE_SAT_MAP_DIMS || u16_at(d, at, le)
            == TAG_PROFILE_LOOK_TABLE_DIMS,
        u16_at(d, at + 2, le) == TYPE_SHORT || u16_at(d, at + 2, le) == TYPE_LONG,
    ensures
        u16_at(d, at, le) == TAG_PROFILE_HUE_SAT_MAP_DIMS ==> apply_entry(d, le, p, at).hue_sat_map_dims
            == Some(dims_in_file_order(d, raw_value_offset(d, at, le), u16_at(d, at + 2, le), le))
            && apply_entry(d, le, p, at).look_table_dims == p.look_table_dims,
        u16_at(d, at, le) == TAG_PROFILE_LOOK_TABLE_DIMS ==> apply_entry(d, le, p, at).look_table_dims
            == Some(dims_in_file_order(d, raw_value_offset(d, at, le), u16_at(d, at + 2, le), le))
            && apply_entry(d, le, p, at).hue_sat_map_dims == p.hue_sat_map_dims,
{
}

/// A FLOAT or DOUBLE ProfileHueSatMapData1, ProfileHueSatMapData2 or
/// ProfileLookTableData entry sets its table to the `count / 3` sample
/// triples stored where the entry points; every such table is read the
/// same way, and the other tables are left alone.
pub proof fn lemma_table_entry(d: Seq<u8>, le: bool, p: DcpProfileModel, at: int)
    requires
        u16_at(d, at, le) == TAG_PROFILE_HUE_SAT_MAP_DATA_1 || u16_at(d, at, le)
            == TAG_PROFILE_HUE_SAT_MAP_DATA_2 || u16_at(d, at, le) == TAG_PROFILE_LOOK_TABLE_DATA,
    ensures
        ({
            let q = apply_entry(d, le, p, at);
            let tag = u16_at(d, at, le);
            let typ = u16_at(d, at + 2, le);
            let count = u32_at(d, at + 4, le) as int;
            let off = raw_value_offset(d, at, le);
            let t = if tag == TAG_PROFILE_HUE_SAT_MAP_DATA_1 {
                q.hue_sat_map_data_1
            } else if tag == TAG_PROFILE_HUE_SAT_MAP_DATA_2 {
                q.hue_sat_map_data_2
            } else {
                q.look_table_data
            };
            &&& t is Some
            &&& typ == TYPE_FLOAT ==> is_float_table(t->0, d, off, count, le)
            &&& typ == TYPE_DOUBLE ==> is_double_table(t->0, d, off, count, le)
            &&& tag != TAG_PROFILE_HUE_SAT_MAP_DATA_1 ==> q.hue_sat_map_data_1 == p.hue_sat_map_data_1
            &&& tag != TAG_PROFILE_HUE_SAT_MAP_DATA_2 ==> q.hue_sat_map_data_2 == p.hue_sat_map_data_2
            &&& tag != TAG_PROFILE_LOOK_TABLE_DATA ==> q.look_table_data == p.look_table_data
            &&& q.hue_sat_map_dims == p.hue_sat_map_dims
            &&& q.look_table_dims == p.look_table_dims
            &&& q.tone_curve == p.tone_curve
        }),
{
    let q = apply_entry(d, le, p, at);
    let tag = u16_at(d, at, le);
    let typ = u16_at(d, at + 2, le);
    let count = u32_at(d, at + 4, le) as int;
    let off = raw_value_offset(d, at, le);
    let t = if tag == TAG_PROFILE_HUE_SAT_MAP_DATA_1 {
        q.hue_sat_map_data_1
    } else if tag == TAG_PROFILE_HUE_SAT_MAP_DATA_2 {
        q.hue_sat_map_data_2
    } else {
        q.look_table_data
    };
    assert(t == Some(table_at(d, off, typ, count, le)));
    if typ == TYPE_FLOAT {
        assert forall|j: int| 0 <= j < t->0.len() implies #[trigger] t->0[j] == (HueSatMapEntry {
            hue_shift: TiffReal::Single(u32_at(d, off + 12 * j, le)),
            sat_scale: TiffReal::Single(u32_at(d, off + 12 * j + 4, le)),
            val_scale: TiffReal::Single(u32_at(d, off + 12 * j + 8, le)),
        }) by {
            assert(j * (3 * size_of_type(typ)) == 12 * j);
        }
    }
    if typ == TYPE_DOUBLE {
        assert forall|j: int| 0 <= j < t->0.len() implies #[trigger] t->0[j] == (HueSatMapEntry {
            hue_shift: TiffReal::Double(u64_at(d, off + 24 * j, le)),
            sat_scale: TiffReal::Double(u64_at(d, off + 24 * j + 8, le)),
            val_scale: TiffReal::Double(u64_at(d, off + 24 * j + 16, le)),
        }) by {
            assert(j * (3 * size_of_type(typ)) == 24 * j);
        }
    }
}

/// A FLOAT or DOUBLE ProfileToneCurve entry sets the tone curve to its
/// `count / 2` points, each read input first, output second, from where
/// the entry points.
pub proof fn lemma_tone_curve_entry(d: Seq<u8>, le: bool, p: DcpProfileModel, at: int)
    requires
        u16_at(d, at, le) == TAG_PROFILE_TONE_CURVE,
    ensures
        ({
            let c = apply_entry(d, le, p, at).tone_curve;
            let typ = u16_at(d, at + 2, le);
            let count = u32_at(d, at + 4, le) as int;
            let off = raw_value_offset(d, at, le);
            &&& c is Some
            &&& c->0.len() == count / 2
            &&& typ == TYPE_FLOAT ==> forall|i: int|
                0 <= i < count / 2 ==> #[trigger] c->0[i] == (
                    TiffReal::Single(u32_at(d, off + 8 * i, le)),
                    TiffReal::Single(u32_at(d, off + 8 * i + 4, le)),
                )
            &&& typ == TYPE_DOUBLE ==> forall|i: int|
                0 <= i < count / 2 ==> #[trigger] c->0[i] == (
                    TiffReal::Double(u64_at(d, off + 16 * i, le)),
                    TiffReal::Double(u64_at(d, off + 16 * i + 8, le)),
                )
        }),
{
    let c = apply_entry(d, le, p, at).tone_curve;
    let typ = u16_at(d, at + 2, le);
    let count = u32_at(d, at + 4, le) as int;
    let off = raw_value_offset(d, at, le);
    assert(c == Some(curve_at(d, off, typ, count, le)));
    if typ == TYPE_FLOAT {
        assert forall|i: int| 0 <= i < count / 2 implies #[trigger] c->0[i] == (
            TiffReal::Single(u32_at(d, off + 8 * i, le)),
            TiffReal::Single(u32_at(d, off + 8 * i + 4, le)),
        ) by {
            assert(size_of_type(typ) == 4);
            assert(i * (2 * size_of_type(typ)) == 8 * i);
        }
    }
    if typ == TYPE_DOUBLE {
        assert forall|i: int| 0 <= i < count / 2 implies #[trigger] c->0[i] == (
            TiffReal::Double(u64_at(d, off + 16 * i, le)),
            TiffReal::Double(u64_at(d, off + 16 * i + 8, le)),
        ) by {
            assert(size_of_type(typ) == 8);
            assert(i * (2 * size_of_type(typ)) == 16 * i);
        }
    }
}

/// Element `i` of a 3x3 matrix whose `count` elements of type `typ` are
/// stored from `off`: SRATIONAL pairs 8 bytes apart, FLOAT values 4 bytes
/// apart, DOUBLE values 8 bytes apart; past `count`, or for any other
/// type, zero.
pub open spec fn matrix_element_in_file(d: Seq<u8>, off: int, typ: u16, count: int, i: int, le: bool) -> TiffReal {
    if i >= count {
        TiffReal::Zero
    } else if typ == TYPE_SRATIONAL {
        TiffReal::Rational { num: i32_at(d, off + 8 * i, le), den: i32_at(d, off + 8 * i + 4, le) }
    } else if typ == TYPE_FLOAT {
        TiffReal::Single(u32_at(d, off + 4 * i, le))
    } else if typ == TYPE_DOUBLE {
        TiffReal::Double(u64_at(d, off + 8 * i, le))
    } else {
        TiffReal::Zero
    }
}

/// A ColorMatrix or ForwardMatrix entry sets its own matrix to the nine
/// elements stored where the entry points (the first `count` of them, the
/// rest zero) and leaves the other three matrices alone.
pub proof fn lemma_matrix_entry(d: Seq<u8>, le: bool, p: DcpProfileModel, at: int)
    requires
        u16_at(d, at, le) == TAG_COLOR_MATRIX_1 || u16_at(d, at, le) == TAG_COLOR_MATRIX_2
            || u16_at(d, at, le) == TAG_FORWARD_MATRIX_1 || u16_at(d, at, le)
            == TAG_FORWARD_MATRIX_2,
    ensures
        ({
            let q = apply_entry(d, le, p, at);
            let tag = u16_at(d, at, le);
            let typ = u16_at(d, at + 2, le);
            let count = u32_at(d, at + 4, le) as int;
            let off = raw_value_offset(d, at, le);
            let m = if tag == TAG_COLOR_MATRIX_1 {
                q.color_matrix_1
            } else if tag == TAG_COLOR_MATRIX_2 {
                q.color_matrix_2
            } else if tag == TAG_FORWARD_MATRIX_1 {
                q.forward_matrix_1
            } else {
                q.forward_matrix_2
            };
            &&& m is Some
            &&& m->0.len() == 9
            &&& forall|i: int|
                0 <= i < 9 ==> #[trigger] m->0[i] == matrix_element_in_file(d, off, typ, count, i, le)
            &&& tag != TAG_COLOR_MATRIX_1 ==> q.color_matrix_1 == p.color_matrix_1
            &&& tag != TAG_COLOR_MATRIX_2 ==> q.color_matrix_2 == p.color_matrix_2
            &&& tag != TAG_FORWARD_MATRIX_1 ==> q.forward_matrix_1 == p.forward_matrix_1
            &&& tag != TAG_FORWARD_MATRIX_2 ==> q.forward_matrix_2 == p.forward_matrix_2
        }),
{
    let q = apply_entry(d, le, p, at);
    let tag = u16_at(d, at, le);
    let typ = u16_at(d, at + 2, le);
    let count = u32_at(d, at + 4, le) as int;
    let off = raw_value_offset(d, at, le);
    let m = if tag == TAG_COLOR_MATRIX_1 {
        q.color_matrix_1
    } else if tag == TAG_COLOR_MATRIX_2 {
        q.color_matrix_2
    } else if tag == TAG_FORWARD_MATRIX_1 {
        q.forward_matrix_1
    } else {
        q.forward_matrix_2
    };
    assert(m == Some(matrix_at(d, off, typ, count, le)));
    assert forall|i: int| 0 <= i < 9 implies #[trigger] m->0[i] == matrix_element_in_file(
        d,
        off,
        typ,
        count,
        i,
        le,
    ) by {
        if typ == TYPE_SRATIONAL || typ == TYPE_DOUBLE {
            assert(size_of_type(typ) == 8);
            assert(i * size_of_type(typ) == 8 * i);
        } else if typ == TYPE_FLOAT {
            assert(size_of_type(typ) == 4);
            assert(i * size_of_type(typ) == 4 * i);
        }
    }
}

/// The SHORT or LONG value an entry stores at `off`.
pub open spec fn short_or_long_in_file(d: Seq<u8>, off: int, typ: u16, le: bool) -> u32 {
    if typ == TYPE_SHORT {
        u16_at(d, off, le) as u32
    } else {
        u32_at(d, off, le)
    }
}

/// CalibrationIlluminant entries set their own illuminant from the EXIF
/// light-source code they store (17 standard A, 20 D55, 21 D65, 22 D75,
/// 23 D50), and ProfileHueSatMapEncoding sets the encoding to the value it
/// stores; each leaves the other two fields alone.
pub proof fn lemma_scalar_entry(d: Seq<u8>, le: bool, p: DcpProfileModel, at: int)
    requires
        u16_at(d, at, le) == TAG_CALIBRATION_ILLUMINANT_1 || u16_at(d, at, le)
            == TAG_CALIBRATION_ILLUMINANT_2 || u16_at(d, at, le) == TAG_PROFILE_HUE_SAT_MAP_ENCODING,
    ensures
        ({
            let q = apply_entry(d, le, p, at);
            let tag = u16_at(d, at, le);
            let v = short_or_long_in_file(d, raw_value_offset(d, at, le), u16_at(d, at + 2, le), le);
            let code = v as u16;
            let named = if code == 17 {
                Illuminant::StdA
            } else if code == 20 {
                Illuminant::D55
            } else if code == 21 {
                Illuminant::D65
            } else if code == 22 {
                Illuminant::D75
            } else if code == 23 {
                Illuminant::D50
            } else {
                Illuminant::Unknown
            };
            &&& tag == TAG_CALIBRATION_ILLUMINANT_1 ==> q.illuminant1 == named && q.illuminant2
                == p.illuminant2 && q.hue_sat_map_encoding == p.hue_sat_map_encoding
            &&& tag == TAG_CALIBRATION_ILLUMINANT_2 ==> q.illuminant2 == named && q.illuminant1
                == p.illuminant1 && q.hue_sat_map_encoding == p.hue_sat_map_encoding
            &&& tag == TAG_PROFILE_HUE_SAT_MAP_ENCODING ==> q.hue_sat_map_encoding == v
                && q.illuminant1 == p.illuminant1 && q.illuminant2 == p.illuminant2
        }),
{
}

/// A ProfileName entry whose bytes lie inside the buffer names the profile
/// with those bytes as text, trailing NULs removed (UTF-8 decoded exactly
/// when valid); one whose bytes run past the end changes nothing.
pub proof fn lemma_name_entry(d: Seq<u8>, le: bool, p: DcpProfileModel, at: int)
    requires
        u16_at(d, at, le) == TAG_PROFILE_NAME,
    ensures
        ({
            let q = apply_entry(d, le, p, at);
            let count = u32_at(d, at + 4, le) as int;
            let off = raw_value_offset(d, at, le);
            let bytes = d.subrange(off, off + count);
            &&& off + count <= d.len() && valid_utf8(bytes) ==> q.name == trim_trailing_nul(
                decode_utf8(bytes),
            )
            &&& off + count <= d.len() ==> q.name == trim_trailing_nul(text_of(bytes))
            &&& off + count > d.len() ==> q == p
            &&& q.illuminant1 == p.illuminant1 && q.illuminant2 == p.illuminant2
            &&& q.tone_curve == p.tone_curve
        }),
{
}

/// Addressing past the end of a table reads its last entry; inside the
/// table, the cell's own entry.
pub proof fn lemma_table_clamp(dims: HueSatMapDims, h: nat, s: nat, v: nat, len: int)
    requires
        len > 0,
    ensures
        0 <= table_position(dims, h as int, s as int, v as int, len) < len,
        (v * dims.sat_divs + s) * dims.hue_divs + h >= len - 1 ==> table_position(
            dims,
            h as int,
            s as int,
            v as int,
            len,
        ) == len - 1,
        (v * dims.sat_divs + s) * dims.hue_divs + h < len ==> table_position(
            dims,
            h as int,
            s as int,
            v as int,
            len,
        ) == (v * dims.sat_divs + s) * dims.hue_divs + h,
{
    assert(0 <= (v * dims.sat_divs + s) * dims.hue_divs + h) by (nonlinear_arith);
}

/// What the header decides: a file shorter than eight bytes, without an
/// `II`/`MM` byte order mark, or without the magic number 0x4352 in that
/// byte order is refused for that reason; a file that parses has all of
/// these and a directory whose entry count lies inside the buffer.
pub proof fn lemma_dcp_header(d: Seq<u8>)
    ensures
        d.len() < 8 ==> dcp_parse(d) == Err::<DcpProfileModel, DcpError>(DcpError::TooShort),
        d.len() >= 8 && !(d[0] == 0x49 && d[1] == 0x49) && !(d[0] == 0x4d && d[1] == 0x4d)
            ==> dcp_parse(d) == Err::<DcpProfileModel, DcpError>(
            DcpError::InvalidByteOrder(d[0], d[1]),
        ),
        d.len() >= 8 && ((d[0] == 0x49 && d[1] == 0x49) || (d[0] == 0x4d && d[1] == 0x4d))
            && u16_at(d, 2, d[0] == 0x49) != 0x4352 ==> dcp_parse(d) == Err::<
            DcpProfileModel,
            DcpError,
        >(DcpError::NotDcp(u16_at(d, 2, d[0] == 0x49))),
        dcp_parse(d) is Ok ==> {
            &&& d.len() >= 8
            &&& (d[0] == 0x49 && d[1] == 0x49) || (d[0] == 0x4d && d[1] == 0x4d)
            &&& u16_at(d, 2, d[0] == 0x49) == 0x4352
            &&& u32_at(d, 4, d[0] == 0x49) + 2 <= d.len()
        },
{
}

} // verus!

//! The integer side of RAW decoding: crop geometry, CFA alignment,
//! black/white levels, photosite addressing and the choice of a bundled
//! camera profile.  Sample normalisation, white balance and colour
//! conversion work on floating-point values and are done by the caller
//! with what these functions compute.

use vstd::prelude::*;
use vstd::string::*;
use crate::raw::RawFrameInfo;
use crate::raw::cfa_color;
use crate::raw::cfa_color_code;
use crate::raw::decode_image;
use crate::raw::loader_error_text;
use crate::raw::frame_info;
use crate::raw::frame_cfa;
use crate::raw::raw_decode;
use crate::raw::loader_error_display;
use crate::raw::raw_frame_info;
use crate::raw::raw_frame_cfa;
use crate::dcp::DcpProfile;
use crate::dcp::dcp_parse;
use crate::dcp::parse_dcp;
use crate::demosaic::pattern_index;

verus! {

// ---------------------------------------------------------------------------
// Decoding
// ---------------------------------------------------------------------------

/// Decodes a RAW file with `rawloader`; a failure is reported as
/// `RAW decode error: ` followed by the decoder's own message.
pub fn decode_frame(data: &[u8]) -> (r: Result<rawloader::RawImage, String>)
    ensures
        r is Ok <==> raw_decode(data@) is Ok,
        r matches Ok(img) ==> raw_decode(data@) == Ok::<_, rawloader::RawLoaderError>(img),
        r matches Err(m) ==> m@ == "RAW decode error: "@ + loader_error_display(
            raw_decode(data@)->Err_0,
        ),
        r matches Err(m) ==> "RAW decode error: "@.is_prefix_of(m@) && m@.last() == '"',
{
    match decode_image(data) {
        Ok(img) => Ok(img),
        Err(e) => {
            let mut msg: String = String::from_str("RAW decode error: ");
            let text: String = loader_error_text(&e);
            let ghost prefix = msg@;
            msg.append(text.as_str());
            assert(msg@.subrange(0, prefix.len() as int) =~= prefix);
            Err(msg)
        },
    }
}

// ---------------------------------------------------------------------------
// CFA pattern
// ---------------------------------------------------------------------------

/// Letter of a CFA code: R, G, B, or `?` for any other code.
pub open spec fn cfa_letter(code: u8) -> char {
    if code == 0 {
        'R'
    } else if code == 1 {
        'G'
    } else if code == 2 {
        'B'
    } else {
        '?'
    }
}

/// The letters of a 2x2 CFA pattern, row-major.
pub open spec fn cfa_text(p: Seq<u8>) -> Seq<char> {
    Seq::new(4, |i: int| cfa_letter(p[i]))
}

fn cfa_letter_str(code: u8) -> (s: &'static str)
    ensures
        s@ == seq![cfa_letter(code)],
{
    match code {
        0 => {
            proof {
                reveal_strlit("R");
            }
            "R"
        },
        1 => {
            proof {
                reveal_strlit("G");
            }
            "G"
        },
        2 => {
            proof {
                reveal_strlit("B");
            }
            "B"
        },
        _ => {
            proof {
                reveal_strlit("?");
            }
            "?"
        },
    }
}

/// Formats a CFA pattern as letters, e.g. `RGGB`.
pub fn format_cfa_pattern(pattern: &[u8; 4]) -> (s: String)
    ensures
        s@ == cfa_text(pattern@),
{
    let mut s: String = String::new();
    let mut i: usize = 0;
    while i < 4
        invariant
            i <= 4,
            s@ == Seq::new(i as nat, |j: int| cfa_letter(pattern@[j])),
        decreases 4 - i,
    {
        s.append(cfa_letter_str(pattern[i]));
        i += 1;
        assert(s@ =~= Seq::new(i as nat, |j: int| cfa_letter(pattern@[j])));
    }
    assert(s@ =~= cfa_text(pattern@));
    s
}

/// Reads the 2x2 CFA pattern of the cropped image: the colour filter
/// array at offset (`crop_top`, `crop_left`).
pub fn parse_cfa_pattern_with_offset(cfa: &rawloader::CFA, crop_top: usize, crop_left: usize) -> (p: [u8; 4])
    requires
        crop_top + 1 <= usize::MAX - 48,
        crop_left + 1 <= usize::MAX - 48,
    ensures
        forall|r: usize, c: usize|
            r < 2 && c < 2 ==> p@[r * 2 + c] == #[trigger] cfa_color(
                *cfa,
                (r + crop_top) as usize,
                (c + crop_left) as usize,
            ) as u8,
{
    let mut pattern: [u8; 4] = [1u8; 4];
    let mut row: usize = 0;
    while row < 2
        invariant
            row <= 2,
            crop_top + 1 <= usize::MAX - 48,
            crop_left + 1 <= usize::MAX - 48,
            forall|r: usize, c: usize|
                r < row && c < 2 ==> pattern@[r * 2 + c] == #[trigger] cfa_color(
                    *cfa,
                    (r + crop_top) as usize,
                    (c + crop_left) as usize,
                ) as u8,
        decreases 2 - row,
    {
        let mut col: usize = 0;
        while col < 2
            invariant
                row < 2,
                col <= 2,
                crop_top + 1 <= usize::MAX - 48,
                crop_left + 1 <= usize::MAX - 48,
                forall|r: usize, c: usize|
                    r < row && c < 2 ==> pattern@[r * 2 + c] == #[trigger] cfa_color(
                        *cfa,
                        (r + crop_top) as usize,
                        (c + crop_left) as usize,
                    ) as u8,
                forall|c: usize|
                    c < col ==> pattern@[row * 2 + c] == #[trigger] cfa_color(
                        *cfa,
                        (row + crop_top) as usize,
                        (c + crop_left) as usize,
                    ) as u8,
            decreases 2 - col,
        {
            let idx: usize = row * 2 + col;
            let color: usize = cfa_color_code(cfa, row + crop_top, col + crop_left);
            pattern[idx] = color as u8;
            col += 1;
        }
        row += 1;
    }
    pattern
}

// ---------------------------------------------------------------------------
// Levels
// ---------------------------------------------------------------------------

/// The largest of the levels (0 for none).
pub open spec fn max_level(levels: Seq<u16>) -> u16
    decreases levels.len(),
{
    if levels.len() == 0 {
        0
    } else {
        let rest = max_level(levels.drop_last());
        if levels.last() > rest {
            levels.last()
        } else {
            rest
        }
    }
}

/// A black level as used for normalisation: a zero level stands for the
/// largest level of the four (the decoder leaves some positions at 0).
pub open spec fn effective_black_level(levels: Seq<u16>, i: int) -> u16 {
    if levels[i] == 0 && max_level(levels) > 0 {
        max_level(levels)
    } else {
        levels[i]
    }
}

/// Replaces each zero black level by the largest one.
pub fn effective_black_levels(raw: &[u16; 4]) -> (r: Vec<u16>)
    ensures
        r@.len() == 4,
        forall|i: int| 0 <= i < 4 ==> r@[i] == effective_black_level(raw@, i),
{
    let mut max_black: u16 = 0;
    let mut i: usize = 0;
    while i < 4
        invariant
            i <= 4,
            max_black == max_level(raw@.subrange(0, i as int)),
        decreases 4 - i,
    {
        assert(raw@.subrange(0, i + 1).drop_last() =~= raw@.subrange(0, i as int));
        if raw[i] > max_black {
            max_black = raw[i];
        }
        i += 1;
    }
    assert(raw@.subrange(0, 4) =~= raw@);
    let mut levels: Vec<u16> = Vec::new();
    let mut j: usize = 0;
    while j < 4
        invariant
            j <= 4,
            max_black == max_level(raw@),
            levels@.len() == j,
            forall|k: int| 0 <= k < j ==> levels@[k] == effective_black_level(raw@, k),
        decreases 4 - j,
    {
        let v: u16 = raw[j];
        if v == 0 && max_black > 0 {
            levels.push(max_black);
        } else {
            levels.push(v);
        }
        j += 1;
    }
    levels
}

/// Copies levels into a vector.
fn levels_vec(raw: &[u16; 4]) -> (r: Vec<u16>)
    ensures
        r@ == raw@,
{
    let mut levels: Vec<u16> = Vec::new();
    let mut j: usize = 0;
    while j < 4
        invariant
            j <= 4,
            levels@ == raw@.subrange(0, j as int),
        decreases 4 - j,
    {
        levels.push(raw[j]);
        j += 1;
        assert(levels@ =~= raw@.subrange(0, j as int));
    }
    assert(raw@.subrange(0, 4) =~= raw@);
    levels
}

// ---------------------------------------------------------------------------
// Frame geometry
// ---------------------------------------------------------------------------

/// Where the usable area of a decoded frame lies and how to read it.
#[derive(Debug, Clone)]
pub struct FrameLayout {
    /// Width of the full sensor image.
    pub full_width: usize,
    /// Height of the full sensor image.
    pub full_height: usize,
    /// First usable row.
    pub crop_top: usize,
    /// First usable column.
    pub crop_left: usize,
    /// Width of the usable area.
    pub width: usize,
    /// Height of the usable area.
    pub height: usize,
    /// CFA codes of the usable area's 2x2 pattern.
    pub cfa_pattern: [u8; 4],
    /// The same pattern as letters, e.g. `RGGB`.
    pub cfa_string: String,
    /// Black level per position of the full sensor's 2x2 pattern.
    pub black_levels: Vec<u16>,
    /// White level per position of the full sensor's 2x2 pattern.
    pub white_levels: Vec<u16>,
}

impl FrameLayout {
    /// The usable area lies inside the sensor image, which fits in memory.
    pub open spec fn wf(&self) -> bool {
        &&& self.crop_left + self.width <= self.full_width
        &&& self.crop_top + self.height <= self.full_height
        &&& self.full_width * self.full_height <= usize::MAX
    }
}

/// The crop of a frame leaves a usable area inside the sensor image, and
/// the image fits in memory.
pub open spec fn crop_fits(info: RawFrameInfo) -> bool {
    &&& info.crops[3] + info.crops[1] <= info.width
    &&& info.crops[0] + info.crops[2] <= info.height
    &&& info.crops[0] + 49 <= usize::MAX
    &&& info.crops[3] + 49 <= usize::MAX
    &&& info.width * info.height <= usize::MAX
}

/// `l` is the layout of the frame with metadata `info` and colour filter
/// array `cfa`.
pub open spec fn is_layout_of(l: FrameLayout, info: RawFrameInfo, cfa: rawloader::CFA) -> bool {
    &&& l.full_width == info.width
    &&& l.full_height == info.height
    &&& l.crop_top == info.crops[0]
    &&& l.crop_left == info.crops[3]
    &&& l.width == info.width - info.crops[3] - info.crops[1]
    &&& l.height == info.height - info.crops[0] - info.crops[2]
    &&& forall|r: usize, c: usize|
        r < 2 && c < 2 ==> l.cfa_pattern@[r * 2 + c] == #[trigger] cfa_color(
            cfa,
            (r + info.crops[0]) as usize,
            (c + info.crops[3]) as usize,
        ) as u8
    &&& l.cfa_string@ == cfa_text(l.cfa_pattern@)
    &&& l.black_levels@.len() == 4
    &&& forall|i: int|
        0 <= i < 4 ==> l.black_levels@[i] == effective_black_level(info.blacklevels@, i)
    &&& l.white_levels@ == info.whitelevels@
}

/// The layout of a frame whose crop fits.
pub fn layout_from(info: &RawFrameInfo, cfa: &rawloader::CFA) -> (l: FrameLayout)
    requires
        crop_fits(*info),
    ensures
        l.wf(),
        is_layout_of(l, *info, *cfa),
        l.full_width == info.width,
        l.full_height == info.height,
        l.crop_top == info.crops[0],
        l.crop_left == info.crops[3],
        l.width == info.width - info.crops[3] - info.crops[1],
        l.height == info.height - info.crops[0] - info.crops[2],
        forall|r: usize, c: usize|
            r < 2 && c < 2 ==> l.cfa_pattern@[r * 2 + c] == #[trigger] cfa_color(
                *cfa,
                (r + info.crops[0]) as usize,
                (c + info.crops[3]) as usize,
            ) as u8,
        l.cfa_string@ == cfa_text(l.cfa_pattern@),
        l.black_levels@.len() == 4,
        forall|i: int| 0 <= i < 4 ==> l.black_levels@[i] == effective_black_level(info.blacklevels@, i),
        l.white_levels@ == info.whitelevels@,
{
    let crop_top: usize = info.crops[0];
    let crop_right: usize = info.crops[1];
    let crop_bottom: usize = info.crops[2];
    let crop_left: usize = info.crops[3];
    let width: usize = info.width - crop_left - crop_right;
    let height: usize = info.height - crop_top - crop_bottom;
    let cfa_pattern: [u8; 4] = parse_cfa_pattern_with_offset(cfa, crop_top, crop_left);
    let cfa_string: String = format_cfa_pattern(&cfa_pattern);
    let black_levels: Vec<u16> = effective_black_levels(&info.blacklevels);
    let white_levels: Vec<u16> = levels_vec(&info.whitelevels);
    FrameLayout {
        full_width: info.width,
        full_height: info.height,
        crop_top,
        crop_left,
        width,
        height,
        cfa_pattern,
        cfa_string,
        black_levels,
        white_levels,
    }
}

/// The layout of a decoded frame, or `None` when its crop does not leave a
/// usable area inside the sensor image (or the image does not fit in memory).
pub fn frame_layout(img: &rawloader::RawImage) -> (r: Option<FrameLayout>)
    ensures
        r is Some <==> crop_fits(raw_frame_info(*img)),
        r matches Some(l) ==> l.wf() && is_layout_of(l, raw_frame_info(*img), raw_frame_cfa(*img)),
{
    let info: RawFrameInfo = frame_info(img);
    let cfa: &rawloader::CFA = frame_cfa(img);
    let c: [usize; 4] = info.crops;
    if c[3] > info.width || c[1] > info.width - c[3] {
        return None;
    }
    if c[0] > info.height || c[2] > info.height - c[0] {
        return None;
    }
    if c[0] > usize::MAX - 49 || c[3] > usize::MAX - 49 {
        return None;
    }
    if info.height != 0 && info.width > usize::MAX / info.height {
        assert(info.width * info.height > usize::MAX) by (nonlinear_arith)
            requires
                info.width > usize::MAX / info.height,
                info.height > 0,
        ;
        return None;
    }
    proof {
        if info.height != 0 {
            assert(info.width * info.height <= usize::MAX) by (nonlinear_arith)
                requires
                    info.width <= usize::MAX / info.height,
                    info.height > 0,
            ;
        }
    }
    Some(layout_from(&info, cfa))
}

/// Where a photosite of the usable area is read and which levels apply.
#[derive(Debug, Clone, Copy, PartialEq, Eq, Structural)]
pub struct SensorSite {
    /// Index of the sample in the full sensor image.
    pub index: usize,
    /// Position in the usable area's 2x2 pattern (selects white balance).
    pub cfa_index: usize,
    /// Black level of the position in the full sensor's pattern.
    pub black: u16,
    /// White level of the position in the full sensor's pattern.
    pub white: u16,
}

/// `levels[i]`, or `default` when there is no such level.
pub open spec fn level_or(levels: Seq<u16>, i: int, default: u16) -> u16 {
    if 0 <= i < levels.len() {
        levels[i]
    } else {
        default
    }
}

/// Addresses photosite (`row`, `col`) of the usable area: its sample in the
/// full sensor image, its position in the usable area's pattern, and the
/// black and white levels of its position in the full sensor's pattern
/// (0 and 65535 when the frame has none).
pub fn sensor_site(layout: &FrameLayout, row: usize, col: usize) -> (s: SensorSite)
    requires
        layout.wf(),
        row < layout.height,
        col < layout.width,
    ensures
        s.index == (row + layout.crop_top) * layout.full_width + col + layout.crop_left,
        s.index < layout.full_width * layout.full_height,
        s.cfa_index == pattern_index(row as int, col as int),
        s.black == level_or(
            layout.black_levels@,
            pattern_index(row + layout.crop_top, col + layout.crop_left),
            0,
        ),
        s.white == level_or(
            layout.white_levels@,
            pattern_index(row + layout.crop_top, col + layout.crop_left),
            65535,
        ),
{
    let full_row: usize = row + layout.crop_top;
    let full_col: usize = col + layout.crop_left;
    assert(full_row * layout.full_width + full_col < layout.full_width * layout.full_height)
        by (nonlinear_arith)
        requires
            full_row < layout.full_height,
            full_col < layout.full_width,
    ;
    let index: usize = full_row * layout.full_width + full_col;
    let cfa_index: usize = (row % 2) * 2 + (col % 2);
    let full_cfa_index: usize = (full_row % 2) * 2 + (full_col % 2);
    let black: u16 = if full_cfa_index < layout.black_levels.len() {
        layout.black_levels[full_cfa_index]
    } else {
        0
    };
    let white: u16 = if full_cfa_index < layout.white_levels.len() {
        layout.white_levels[full_cfa_index]
    } else {
        65535
    };
    SensorSite { index, cfa_index, black, white }
}

/// With an even crop, a photosite's position in the usable area's pattern
/// is its position in the full sensor's pattern: white balance and levels
/// are then looked up at the same pattern position.
pub proof fn lemma_even_crop_keeps_pattern(row: nat, col: nat, crop_top: nat, crop_left: nat)
    requires
        crop_top % 2 == 0,
        crop_left % 2 == 0,
    ensures
        pattern_index((row + crop_top) as int, (col + crop_left) as int) == pattern_index(
            row as int,
            col as int,
        ),
{
}

// ---------------------------------------------------------------------------
// Bundled profiles
// ---------------------------------------------------------------------------

/// `needle` occurs somewhere in `hay`.
pub open spec fn contains_text(hay: Seq<char>, needle: Seq<char>) -> bool {
    exists|i: int|
        0 <= i && i + needle.len() <= hay.len() && #[trigger] hay.subrange(i, i + needle.len())
            == needle
}

/// Whether `needle` occurs in `hay`.
fn str_contains(hay: &str, needle: &str) -> (r: bool)
    ensures
        r == contains_text(hay@, needle@),
{
    let n: usize = hay.unicode_len();
    let m: usize = needle.unicode_len();
    if m > n {
        return false;
    }
    if m == 0 {
        assert(hay@.subrange(0, 0 + needle@.len() as int) =~= needle@);
        return true;
    }
    let mut i: usize = 0;
    while i <= n - m
        invariant
            n == hay@.len(),
            m == needle@.len(),
            1 <= m <= n,
            i <= n - m + 1,
            forall|k: int| 0 <= k < i ==> #[trigger] hay@.subrange(k, k + m) != needle@,
        decreases n - m + 1 - i,
    {
        let mut j: usize = 0;
        let mut matched: bool = true;
        while j < m
            invariant
                n == hay@.len(),
                m == needle@.len(),
                i + m <= n,
                j <= m,
                matched ==> forall|q: int| 0 <= q < j ==> hay@[i + q] == needle@[q],
                !matched ==> hay@.subrange(i as int, i + m) != needle@,
            decreases m - j,
        {
            if matched && hay.get_char(i + j) != needle.get_char(j) {
                matched = false;
                assert(hay@.subrange(i as int, i + m)[j as int] != needle@[j as int]);
            }
            j += 1;
        }
        if matched {
            assert(hay@.subrange(i as int, i + m) =~= needle@);
            return true;
        }
        i += 1;
    }
    false
}

/// The camera models the bundled profile is for: an EOS-1D X that is not
/// a Mark II or III.
pub open spec fn uses_bundled_profile(model: Seq<char>) -> bool {
    contains_text(model, "EOS-1D X"@) && !contains_text(model, "Mark"@)
}

/// The bundled camera profile for a camera, parsed from `profile_data`
/// (the bundled Canon EOS-1D X Camera Standard profile): `Some` exactly
/// when the model is one it is for and the data parses.
pub fn load_bundled_dcp(make: &str, model: &str, profile_data: &[u8]) -> (r: Option<DcpProfile>)
    ensures
        r is Some <==> uses_bundled_profile(model@) && dcp_parse(profile_data@) is Ok,
        r matches Some(p) ==> dcp_parse(profile_data@) == Ok::<_, crate::dcp::DcpError>(p@),
{
    if str_contains(model, "EOS-1D X") && !str_contains(model, "Mark") {
        match parse_dcp(profile_data) {
            Ok(p) => Some(p),
            Err(_) => None,
        }
    } else {
        None
    }
}

/// No level exceeds the largest one.
proof fn lemma_max_level_bounds(levels: Seq<u16>, i: int)
    requires
        0 <= i < levels.len(),
    ensures
        levels[i] <= max_level(levels),
    decreases levels.len(),
{
    if i < levels.len() - 1 {
        lemma_max_level_bounds(levels.drop_last(), i);
    }
}

/// When any black level is set, every effective black level is set: a
/// level the decoder gave is kept and a missing (zero) one is replaced by
/// the largest level, which is at least every given one.
pub proof fn lemma_effective_black_levels(levels: Seq<u16>, i: int, j: int)
    requires
        0 <= i < levels.len(),
        0 <= j < levels.len(),
        levels[j] > 0,
    ensures
        effective_black_level(levels, i) > 0,
        levels[i] > 0 ==> effective_black_level(levels, i) == levels[i],
        levels[i] == 0 ==> effective_black_level(levels, i) >= levels[j],
{
    lemma_max_level_bounds(levels, j);
}

/// Which models get the bundled EOS-1D X profile: a model that does not
/// name the EOS-1D X never does (an EOS-1D or EOS-1Ds does not), a Mark II
/// or Mark III never does, and every other EOS-1D X does.
pub proof fn lemma_bundled_profile_models(model: Seq<char>)
    ensures
        !contains_text(model, "EOS-1D X"@) ==> !uses_bundled_profile(model),
        contains_text(model, "Mark"@) ==> !uses_bundled_profile(model),
        contains_text(model, "EOS-1D X"@) && !contains_text(model, "Mark"@) ==> uses_bundled_profile(
            model,
        ),
{
}

/// The letters of a CFA pattern name the colours its photosites record:
/// R for red, G for green, B for blue; a code shown as `?` is treated as
/// green.
pub proof fn lemma_cfa_letters_name_colors(code: u8)
    ensures
        cfa_letter(code) == 'R' <==> crate::demosaic::color_of_code(code)
            == crate::demosaic::CfaColor::Red,
        cfa_letter(code) == 'B' <==> crate::demosaic::color_of_code(code)
            == crate::demosaic::CfaColor::Blue,
        cfa_letter(code) == 'G' ==> crate::demosaic::color_of_code(code)
            == crate::demosaic::CfaColor::Green,
        cfa_letter(code) == '?' ==> crate::demosaic::color_of_code(code)
            == crate::demosaic::CfaColor::Green,
        code == 0 ==> cfa_letter(code) == 'R',
        code == 1 ==> cfa_letter(code) == 'G',
        code == 2 ==> cfa_letter(code) == 'B',
{
}

} // verus!

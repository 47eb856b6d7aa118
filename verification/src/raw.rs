//! The decoded RAW frame, as the `rawloader` crate delivers it.
//!
//! Only what the integer logic of this library reads is taken out of a
//! `RawImage`; its floating-point fields (white-balance coefficients,
//! colour matrix, float sample data) are read by the caller.

use vstd::prelude::*;

verus! {

#[verifier::external_type_specification]
#[verifier::external_body]
pub struct ExRawLoaderCfa(rawloader::CFA);

#[verifier::external_type_specification]
#[verifier::external_body]
pub struct ExRawLoaderImage(rawloader::RawImage);

#[verifier::external_type_specification]
#[verifier::external_body]
pub struct ExRawLoaderError(rawloader::RawLoaderError);

/// The colour code `rawloader` stores for photosite (`row`, `col`) of a
/// colour filter array: its 48x48 table, read at `row % 48`, `col % 48`.
pub uninterp spec fn cfa_color(cfa: rawloader::CFA, row: usize, col: usize) -> usize;

/// Calls `CFA::color_at`.  Claimed: the result is the table entry
/// `cfa_color` names, and it is one of the codes 0..=3 that `CFA::new`
/// fills the table with.  `color_at` adds 48 to both coordinates, so they
/// must leave room for that.
#[verifier::external_body]
pub(crate) fn cfa_color_code(cfa: &rawloader::CFA, row: usize, col: usize) -> (c: usize)
    requires
        row <= usize::MAX - 48,
        col <= usize::MAX - 48,
    ensures
        c == cfa_color(*cfa, row, col),
        c <= 3,
{
    cfa.color_at(row, col)
}

/// What `rawloader::decode` makes of the bytes of a RAW file: the decoded
/// image, or the error it reports.
pub uninterp spec fn raw_decode(data: Seq<u8>) -> Result<rawloader::RawImage, rawloader::RawLoaderError>;

/// Calls `rawloader::decode` on the bytes of a RAW file (through an
/// in-memory cursor).  Claimed: the outcome is `raw_decode` of the bytes;
/// decoding reads nothing but them.
#[verifier::external_body]
pub(crate) fn decode_image(data: &[u8]) -> (r: Result<rawloader::RawImage, rawloader::RawLoaderError>)
    ensures
        r == raw_decode(data@),
{
    let mut cursor = std::io::Cursor::new(data);
    rawloader::decode(&mut cursor)
}

/// The text the `Display` impl of `RawLoaderError` writes for an error.
pub uninterp spec fn loader_error_display(e: rawloader::RawLoaderError) -> Seq<char>;

/// Formats a `RawLoaderError` with its `Display` impl, which writes
/// `RawLoaderError: "<message>"`.  Claimed: the text is
/// `loader_error_display` of the error and has that frame.
#[verifier::external_body]
pub(crate) fn loader_error_text(e: &rawloader::RawLoaderError) -> (s: String)
    ensures
        s@ == loader_error_display(*e),
        "RawLoaderError: \""@.is_prefix_of(s@),
        s@.len() > "RawLoaderError: \""@.len(),
        s@.last() == '"',
{
    e.to_string()
}

/// The integer metadata of a decoded frame.
#[derive(Debug, Clone)]
pub struct RawFrameInfo {
    /// Camera make as encoded in the file.
    pub make: String,
    /// Camera model as encoded in the file.
    pub model: String,
    /// Width of the full sensor image.
    pub width: usize,
    /// Height of the full sensor image.
    pub height: usize,
    /// Crop to the usable area: top, right, bottom, left.
    pub crops: [usize; 4],
    /// Black level per colour, RGBE order.
    pub blacklevels: [u16; 4],
    /// White level per colour, RGBE order.
    pub whitelevels: [u16; 4],
}

/// The integer metadata a `RawImage` holds (its public fields `make`,
/// `model`, `width`, `height`, `crops`, `blacklevels`, `whitelevels`).
pub uninterp spec fn raw_frame_info(img: rawloader::RawImage) -> RawFrameInfo;

/// The colour filter array a `RawImage` holds (its public field `cfa`).
pub uninterp spec fn raw_frame_cfa(img: rawloader::RawImage) -> rawloader::CFA;

/// Copies the integer metadata out of a `RawImage`, field for field.
/// Claimed: the copy is `raw_frame_info` of the image.
#[verifier::external_body]
pub(crate) fn frame_info(img: &rawloader::RawImage) -> (info: RawFrameInfo)
    ensures
        info == raw_frame_info(*img),
{
    RawFrameInfo {
        make: img.make.clone(),
        model: img.model.clone(),
        width: img.width,
        height: img.height,
        crops: img.crops,
        blacklevels: img.blacklevels,
        whitelevels: img.whitelevels,
    }
}

/// Borrows the colour filter array of a `RawImage`.  Claimed: it is
/// `raw_frame_cfa` of the image.
#[verifier::external_body]
pub(crate) fn frame_cfa(img: &rawloader::RawImage) -> (cfa: &rawloader::CFA)
    ensures
        *cfa == raw_frame_cfa(*img),
{
    &img.cfa
}

} // verus!

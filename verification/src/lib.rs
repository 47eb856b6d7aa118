//! RAW photo decoding support: TIFF-style DNG camera profile parsing,
//! Bayer colour-filter geometry and the integer side of RAW frame handling.

pub mod tiff;
pub mod dcp;
pub mod raw;
pub mod demosaic;
pub mod decode;

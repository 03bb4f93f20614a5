//! Reading, changing and writing EXIF metadata inside image files.
//!
//! The library has two layers. The directory codec turns an ordered list of
//! typed tags into the nested image-file-directory layout of a TIFF body and
//! back. The JPEG engine finds, removes and inserts the APP1 segment that
//! carries such a body inside a JPEG byte stream.

pub mod endian;
pub mod error;
pub mod exif_tag;
pub mod exif_tag_format;
pub mod filetype;
pub mod ifd;
pub mod jpg;
pub mod metadata;
pub mod roundtrip;
pub mod tag_value;
pub mod u8conversion;
pub mod util;

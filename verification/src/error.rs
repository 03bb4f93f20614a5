use vstd::prelude::*;

verus! {

/// Why an operation on a container or on an EXIF payload was refused.
#[derive(Clone, Copy, Debug, PartialEq, Eq, Structural)]
pub enum ExifError {
    /// The container's magic bytes are absent or wrong.
    InvalidSignature,
    /// A length or offset field disagrees with the data that is there.
    MalformedSegment,
    /// A TIFF format code that is not known, or a container type that this
    /// library does not handle.
    UnsupportedFormat,
    /// The on-wire format of a known tag conflicts with the tag's canonical
    /// format and no coercion applies.
    IncompatibleFormat,
    /// The container holds no EXIF segment.
    NotFound,
    /// The EXIF payload does not start with a well-formed header.
    FormatError,
}

impl ExifError {
    /// A short description of the error, for diagnostics.
    pub fn message(&self) -> (text: &'static str)
        ensures
            text@ == self.spec_message()@,
    {
        match self {
            ExifError::InvalidSignature => "wrong container signature",
            ExifError::MalformedSegment => "segment length inconsistent with data",
            ExifError::UnsupportedFormat => "unsupported format",
            ExifError::IncompatibleFormat => "illegal format for known tag",
            ExifError::NotFound => "no EXIF data found",
            ExifError::FormatError => "malformed EXIF header",
        }
    }

    pub open spec fn spec_message(&self) -> &'static str {
        match self {
            ExifError::InvalidSignature => "wrong container signature",
            ExifError::MalformedSegment => "segment length inconsistent with data",
            ExifError::UnsupportedFormat => "unsupported format",
            ExifError::IncompatibleFormat => "illegal format for known tag",
            ExifError::NotFound => "no EXIF data found",
            ExifError::FormatError => "malformed EXIF header",
        }
    }
}

} // verus!

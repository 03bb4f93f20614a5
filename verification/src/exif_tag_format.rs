use vstd::prelude::*;

verus! {

/// The twelve TIFF data formats, in the order of their on-wire codes 1 to 12.
#[derive(Clone, Copy, Debug, PartialEq, Eq, Structural)]
pub enum ExifTagFormat {
    INT8U,
    STRING,
    INT16U,
    INT32U,
    RATIONAL64U,
    INT8S,
    UNDEF,
    INT16S,
    INT32S,
    RATIONAL64S,
    FLOAT,
    DOUBLE,
}

impl ExifTagFormat {
    /// The on-wire code of the format.
    pub open spec fn spec_as_u16(&self) -> u16 {
        match self {
            ExifTagFormat::INT8U => 1,
            ExifTagFormat::STRING => 2,
            ExifTagFormat::INT16U => 3,
            ExifTagFormat::INT32U => 4,
            ExifTagFormat::RATIONAL64U => 5,
            ExifTagFormat::INT8S => 6,
            ExifTagFormat::UNDEF => 7,
            ExifTagFormat::INT16S => 8,
            ExifTagFormat::INT32S => 9,
            ExifTagFormat::RATIONAL64S => 10,
            ExifTagFormat::FLOAT => 11,
            ExifTagFormat::DOUBLE => 12,
        }
    }

    /// The format with the given on-wire code, if there is one.
    pub open spec fn spec_from_u16(code: u16) -> Option<ExifTagFormat> {
        if code == 1 {
            Some(ExifTagFormat::INT8U)
        } else if code == 2 {
            Some(ExifTagFormat::STRING)
        } else if code == 3 {
            Some(ExifTagFormat::INT16U)
        } else if code == 4 {
            Some(ExifTagFormat::INT32U)
        } else if code == 5 {
            Some(ExifTagFormat::RATIONAL64U)
        } else if code == 6 {
            Some(ExifTagFormat::INT8S)
        } else if code == 7 {
            Some(ExifTagFormat::UNDEF)
        } else if code == 8 {
            Some(ExifTagFormat::INT16S)
        } else if code == 9 {
            Some(ExifTagFormat::INT32S)
        } else if code == 10 {
            Some(ExifTagFormat::RATIONAL64S)
        } else if code == 11 {
            Some(ExifTagFormat::FLOAT)
        } else if code == 12 {
            Some(ExifTagFormat::DOUBLE)
        } else {
            None
        }
    }

    /// Number of bytes that one component of this format takes.
    pub open spec fn spec_bytes_per_component(&self) -> u32 {
        match self {
            ExifTagFormat::INT8U => 1,
            ExifTagFormat::STRING => 1,
            ExifTagFormat::INT16U => 2,
            ExifTagFormat::INT32U => 4,
            ExifTagFormat::RATIONAL64U => 8,
            ExifTagFormat::INT8S => 1,
            ExifTagFormat::UNDEF => 1,
            ExifTagFormat::INT16S => 2,
            ExifTagFormat::INT32S => 4,
            ExifTagFormat::RATIONAL64S => 8,
            ExifTagFormat::FLOAT => 4,
            ExifTagFormat::DOUBLE => 8,
        }
    }

    /// The on-wire code of the format.
    #[verifier::when_used_as_spec(spec_as_u16)]
    pub fn as_u16(&self) -> (code: u16)
        ensures
            code == self.spec_as_u16(),
    {
        match self {
            ExifTagFormat::INT8U => 1,
            ExifTagFormat::STRING => 2,
            ExifTagFormat::INT16U => 3,
            ExifTagFormat::INT32U => 4,
            ExifTagFormat::RATIONAL64U => 5,
            ExifTagFormat::INT8S => 6,
            ExifTagFormat::UNDEF => 7,
            ExifTagFormat::INT16S => 8,
            ExifTagFormat::INT32S => 9,
            ExifTagFormat::RATIONAL64S => 10,
            ExifTagFormat::FLOAT => 11,
            ExifTagFormat::DOUBLE => 12,
        }
    }

    /// The format with the given on-wire code, if there is one.
    #[verifier::when_used_as_spec(spec_from_u16)]
    pub fn from_u16(code: u16) -> (format: Option<ExifTagFormat>)
        ensures
            format == Self::spec_from_u16(code),
    {
        match code {
            1 => Some(ExifTagFormat::INT8U),
            2 => Some(ExifTagFormat::STRING),
            3 => Some(ExifTagFormat::INT16U),
            4 => Some(ExifTagFormat::INT32U),
            5 => Some(ExifTagFormat::RATIONAL64U),
            6 => Some(ExifTagFormat::INT8S),
            7 => Some(ExifTagFormat::UNDEF),
            8 => Some(ExifTagFormat::INT16S),
            9 => Some(ExifTagFormat::INT32S),
            10 => Some(ExifTagFormat::RATIONAL64S),
            11 => Some(ExifTagFormat::FLOAT),
            12 => Some(ExifTagFormat::DOUBLE),
            _ => None,
        }
    }

    /// Number of bytes that one component of this format takes.
    #[verifier::when_used_as_spec(spec_bytes_per_component)]
    pub fn bytes_per_component(&self) -> (size: u32)
        ensures
            size == self.spec_bytes_per_component(),
            1 <= size <= 8,
    {
        match self {
            ExifTagFormat::INT8U => 1,
            ExifTagFormat::STRING => 1,
            ExifTagFormat::INT16U => 2,
            ExifTagFormat::INT32U => 4,
            ExifTagFormat::RATIONAL64U => 8,
            ExifTagFormat::INT8S => 1,
            ExifTagFormat::UNDEF => 1,
            ExifTagFormat::INT16S => 2,
            ExifTagFormat::INT32S => 4,
            ExifTagFormat::RATIONAL64S => 8,
            ExifTagFormat::FLOAT => 4,
            ExifTagFormat::DOUBLE => 8,
        }
    }
}

/// A code names the format that it came from, and no other.
pub proof fn lemma_format_code_roundtrip(format: ExifTagFormat)
    ensures
        ExifTagFormat::spec_from_u16(format.spec_as_u16()) == Some(format),
        1 <= format.spec_bytes_per_component() <= 8,
{
}

} // verus!

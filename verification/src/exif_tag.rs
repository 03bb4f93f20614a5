use crate::endian::Endian;
use crate::error::ExifError;
use crate::exif_tag_format::ExifTagFormat;
use crate::tag_value::{
    copy_items, lemma_u8_items, lemma_value_roundtrip, lemma_wire_len, widen, widen_to_u32,
    TagValue, ValueRef, ValueView,
};
use crate::u8conversion::{
    from_u8_slice, iR64, items_from_bytes, items_to_bytes, lemma_items_roundtrip, uR64,
};
use vstd::prelude::*;

verus! {

/// The directory that a tag belongs to. The order of the variants is the
/// order in which tags are kept and written.
#[derive(Clone, Copy, Debug, PartialEq, Eq, Structural, PartialOrd, Ord, Hash)]
pub enum ExifTagGroup {
    IFD0,
    ExifIFD,
    GPSIFD,
    InteropIFD,
}

impl ExifTagGroup {
    /// Position of the group in the order IFD0, ExifIFD, GPSIFD, InteropIFD.
    pub open spec fn spec_rank(&self) -> u8 {
        match self {
            ExifTagGroup::IFD0 => 0,
            ExifTagGroup::ExifIFD => 1,
            ExifTagGroup::GPSIFD => 2,
            ExifTagGroup::InteropIFD => 3,
        }
    }

    /// Position of the group in the order IFD0, ExifIFD, GPSIFD, InteropIFD.
    #[verifier::when_used_as_spec(spec_rank)]
    pub fn rank(&self) -> (r: u8)
        ensures
            r == self.spec_rank(),
            r < 4,
    {
        match self {
            ExifTagGroup::IFD0 => 0,
            ExifTagGroup::ExifIFD => 1,
            ExifTagGroup::GPSIFD => 2,
            ExifTagGroup::InteropIFD => 3,
        }
    }
}

/// What is fixed for a known tag: its canonical format, its directory,
/// whether it may be written, and the number of components that the standard
/// gives it, if it gives one. A text is padded with zero bytes up to that
/// number.
#[derive(Clone, Copy, Debug, PartialEq, Eq, Structural)]
pub struct TagInfo {
    pub format: ExifTagFormat,
    pub group: ExifTagGroup,
    pub writable: bool,
    pub components: Option<u32>,
}

/// Id of the tag in IFD0 that points to the Exif directory.
pub const EXIF_OFFSET: u16 = 0x8769;

/// Id of the tag in IFD0 that points to the GPS directory.
pub const GPS_INFO: u16 = 0x8825;

/// Id of the tag in the Exif directory that points to the interoperability
/// directory.
pub const INTEROP_OFFSET: u16 = 0xa005;

/// The directory that the tag with this id points to, if it is one of the
/// three offset tags.
pub open spec fn spec_subifd(id: u16) -> Option<ExifTagGroup> {
    if id == EXIF_OFFSET {
        Some(ExifTagGroup::ExifIFD)
    } else if id == GPS_INFO {
        Some(ExifTagGroup::GPSIFD)
    } else if id == INTEROP_OFFSET {
        Some(ExifTagGroup::InteropIFD)
    } else {
        None
    }
}

/// The directory that the tag with this id points to, if it is one of the
/// three offset tags.
#[verifier::when_used_as_spec(spec_subifd)]
pub fn subifd(id: u16) -> (group: Option<ExifTagGroup>)
    ensures
        group == spec_subifd(id),
{
    if id == EXIF_OFFSET {
        Some(ExifTagGroup::ExifIFD)
    } else if id == GPS_INFO {
        Some(ExifTagGroup::GPSIFD)
    } else if id == INTEROP_OFFSET {
        Some(ExifTagGroup::InteropIFD)
    } else {
        None
    }
}

/// The properties of a known tag, as an entry of the table of known tags.
pub open spec fn spec_known(
    format: ExifTagFormat,
    group: ExifTagGroup,
    writable: bool,
    components: Option<u32>,
) -> Option<TagInfo> {
    Some(TagInfo { format, group, writable, components })
}

/// The properties of a known tag, as an entry of the table of known tags.
#[verifier::when_used_as_spec(spec_known)]
pub fn known(
    format: ExifTagFormat,
    group: ExifTagGroup,
    writable: bool,
    components: Option<u32>,
) -> (info: Option<TagInfo>)
    ensures
        info == spec_known(format, group, writable, components),
{
    Some(TagInfo { format, group, writable, components })
}

/// The fixed properties of the tag with this id, if the id is known.
#[verifier::opaque]
pub open spec fn spec_tag_info(id: u16) -> Option<TagInfo> {
    match id {
        0x0000 => spec_known(ExifTagFormat::INT8U, ExifTagGroup::GPSIFD, true, Some(4)),
        0x0001 => spec_known(ExifTagFormat::STRING, ExifTagGroup::InteropIFD, true, Some(4)),
        0x0002 => spec_known(ExifTagFormat::RATIONAL64U, ExifTagGroup::GPSIFD, true, Some(3)),
        0x0003 => spec_known(ExifTagFormat::STRING, ExifTagGroup::GPSIFD, true, Some(2)),
        0x0004 => spec_known(ExifTagFormat::RATIONAL64U, ExifTagGroup::GPSIFD, true, Some(3)),
        0x0005 => spec_known(ExifTagFormat::INT8U, ExifTagGroup::GPSIFD, true, Some(1)),
        0x0006 => spec_known(ExifTagFormat::RATIONAL64U, ExifTagGroup::GPSIFD, true, Some(1)),
        0x0007 => spec_known(ExifTagFormat::RATIONAL64U, ExifTagGroup::GPSIFD, true, Some(3)),
        0x001d => spec_known(ExifTagFormat::STRING, ExifTagGroup::GPSIFD, true, Some(11)),
        0x0100 => spec_known(ExifTagFormat::INT32U, ExifTagGroup::IFD0, true, Some(1)),
        0x0101 => spec_known(ExifTagFormat::INT32U, ExifTagGroup::IFD0, true, Some(1)),
        0x0102 => spec_known(ExifTagFormat::INT16U, ExifTagGroup::IFD0, true, Some(3)),
        0x0103 => spec_known(ExifTagFormat::INT16U, ExifTagGroup::IFD0, true, Some(1)),
        0x0106 => spec_known(ExifTagFormat::INT16U, ExifTagGroup::IFD0, true, Some(1)),
        0x010e => spec_known(ExifTagFormat::STRING, ExifTagGroup::IFD0, true, None),
        0x010f => spec_known(ExifTagFormat::STRING, ExifTagGroup::IFD0, true, None),
        0x0110 => spec_known(ExifTagFormat::STRING, ExifTagGroup::IFD0, true, None),
        0x0111 => spec_known(ExifTagFormat::INT32U, ExifTagGroup::IFD0, false, None),
        0x0112 => spec_known(ExifTagFormat::INT16U, ExifTagGroup::IFD0, true, Some(1)),
        0x0115 => spec_known(ExifTagFormat::INT16U, ExifTagGroup::IFD0, true, Some(1)),
        0x0116 => spec_known(ExifTagFormat::INT32U, ExifTagGroup::IFD0, true, Some(1)),
        0x0117 => spec_known(ExifTagFormat::INT32U, ExifTagGroup::IFD0, false, None),
        0x011a => spec_known(ExifTagFormat::RATIONAL64U, ExifTagGroup::IFD0, true, Some(1)),
        0x011b => spec_known(ExifTagFormat::RATIONAL64U, ExifTagGroup::IFD0, true, Some(1)),
        0x011c => spec_known(ExifTagFormat::INT16U, ExifTagGroup::IFD0, true, Some(1)),
        0x0128 => spec_known(ExifTagFormat::INT16U, ExifTagGroup::IFD0, true, Some(1)),
        0x0131 => spec_known(ExifTagFormat::STRING, ExifTagGroup::IFD0, true, None),
        0x0132 => spec_known(ExifTagFormat::STRING, ExifTagGroup::IFD0, true, Some(20)),
        0x013b => spec_known(ExifTagFormat::STRING, ExifTagGroup::IFD0, true, None),
        0x013e => spec_known(ExifTagFormat::RATIONAL64U, ExifTagGroup::IFD0, true, Some(2)),
        0x0158 => spec_known(ExifTagFormat::INT32S, ExifTagGroup::IFD0, true, Some(1)),
        0x0159 => spec_known(ExifTagFormat::INT32S, ExifTagGroup::IFD0, true, Some(1)),
        0x0211 => spec_known(ExifTagFormat::RATIONAL64U, ExifTagGroup::IFD0, true, Some(3)),
        0x0213 => spec_known(ExifTagFormat::INT16U, ExifTagGroup::IFD0, true, Some(1)),
        0x8298 => spec_known(ExifTagFormat::STRING, ExifTagGroup::IFD0, true, None),
        0x829a => spec_known(ExifTagFormat::RATIONAL64U, ExifTagGroup::ExifIFD, true, Some(1)),
        0x829d => spec_known(ExifTagFormat::RATIONAL64U, ExifTagGroup::ExifIFD, true, Some(1)),
        0x8769 => spec_known(ExifTagFormat::INT32U, ExifTagGroup::IFD0, false, Some(1)),
        0x8822 => spec_known(ExifTagFormat::INT16U, ExifTagGroup::ExifIFD, true, Some(1)),
        0x8825 => spec_known(ExifTagFormat::INT32U, ExifTagGroup::IFD0, false, Some(1)),
        0x8827 => spec_known(ExifTagFormat::INT16U, ExifTagGroup::ExifIFD, true, None),
        0x882a => spec_known(ExifTagFormat::INT16S, ExifTagGroup::ExifIFD, true, None),
        0x9000 => spec_known(ExifTagFormat::UNDEF, ExifTagGroup::ExifIFD, true, Some(4)),
        0x9003 => spec_known(ExifTagFormat::STRING, ExifTagGroup::ExifIFD, true, Some(20)),
        0x9004 => spec_known(ExifTagFormat::STRING, ExifTagGroup::ExifIFD, true, Some(20)),
        0x9101 => spec_known(ExifTagFormat::UNDEF, ExifTagGroup::ExifIFD, true, Some(4)),
        0x9201 => spec_known(ExifTagFormat::RATIONAL64S, ExifTagGroup::ExifIFD, true, Some(1)),
        0x9202 => spec_known(ExifTagFormat::RATIONAL64U, ExifTagGroup::ExifIFD, true, Some(1)),
        0x9203 => spec_known(ExifTagFormat::RATIONAL64S, ExifTagGroup::ExifIFD, true, Some(1)),
        0x9204 => spec_known(ExifTagFormat::RATIONAL64S, ExifTagGroup::ExifIFD, true, Some(1)),
        0x9205 => spec_known(ExifTagFormat::RATIONAL64U, ExifTagGroup::ExifIFD, true, Some(1)),
        0x9207 => spec_known(ExifTagFormat::INT16U, ExifTagGroup::ExifIFD, true, Some(1)),
        0x9208 => spec_known(ExifTagFormat::INT16U, ExifTagGroup::ExifIFD, true, Some(1)),
        0x9209 => spec_known(ExifTagFormat::INT16U, ExifTagGroup::ExifIFD, true, Some(1)),
        0x920a => spec_known(ExifTagFormat::RATIONAL64U, ExifTagGroup::ExifIFD, true, Some(1)),
        0x927c => spec_known(ExifTagFormat::UNDEF, ExifTagGroup::ExifIFD, true, None),
        0x9286 => spec_known(ExifTagFormat::UNDEF, ExifTagGroup::ExifIFD, true, None),
        0xa000 => spec_known(ExifTagFormat::UNDEF, ExifTagGroup::ExifIFD, true, Some(4)),
        0xa001 => spec_known(ExifTagFormat::INT16U, ExifTagGroup::ExifIFD, true, Some(1)),
        0xa002 => spec_known(ExifTagFormat::INT16U, ExifTagGroup::ExifIFD, true, Some(1)),
        0xa003 => spec_known(ExifTagFormat::INT16U, ExifTagGroup::ExifIFD, true, Some(1)),
        0xa005 => spec_known(ExifTagFormat::INT32U, ExifTagGroup::ExifIFD, false, Some(1)),
        0xa402 => spec_known(ExifTagFormat::INT16U, ExifTagGroup::ExifIFD, true, Some(1)),
        0xa403 => spec_known(ExifTagFormat::INT16U, ExifTagGroup::ExifIFD, true, Some(1)),
        0xa405 => spec_known(ExifTagFormat::INT16U, ExifTagGroup::ExifIFD, true, Some(1)),
        0xa406 => spec_known(ExifTagFormat::INT16U, ExifTagGroup::ExifIFD, true, Some(1)),
        0xa420 => spec_known(ExifTagFormat::STRING, ExifTagGroup::ExifIFD, true, Some(33)),
        0xa430 => spec_known(ExifTagFormat::STRING, ExifTagGroup::ExifIFD, true, None),
        0xa431 => spec_known(ExifTagFormat::STRING, ExifTagGroup::ExifIFD, true, None),
        0xa432 => spec_known(ExifTagFormat::RATIONAL64U, ExifTagGroup::ExifIFD, true, Some(4)),
        0xa433 => spec_known(ExifTagFormat::STRING, ExifTagGroup::ExifIFD, true, None),
        0xa434 => spec_known(ExifTagFormat::STRING, ExifTagGroup::ExifIFD, true, None),
        _ => None,
    }
}

/// The fixed properties of the tag with this id, if the id is known.
#[verifier::when_used_as_spec(spec_tag_info)]
pub fn tag_info(id: u16) -> (info: Option<TagInfo>)
    ensures
        info == spec_tag_info(id),
{
    proof {
        reveal(spec_tag_info);
    }
    match id {
        0x0000 => known(ExifTagFormat::INT8U, ExifTagGroup::GPSIFD, true, Some(4)),
        0x0001 => known(ExifTagFormat::STRING, ExifTagGroup::InteropIFD, true, Some(4)),
        0x0002 => known(ExifTagFormat::RATIONAL64U, ExifTagGroup::GPSIFD, true, Some(3)),
        0x0003 => known(ExifTagFormat::STRING, ExifTagGroup::GPSIFD, true, Some(2)),
        0x0004 => known(ExifTagFormat::RATIONAL64U, ExifTagGroup::GPSIFD, true, Some(3)),
        0x0005 => known(ExifTagFormat::INT8U, ExifTagGroup::GPSIFD, true, Some(1)),
        0x0006 => known(ExifTagFormat::RATIONAL64U, ExifTagGroup::GPSIFD, true, Some(1)),
        0x0007 => known(ExifTagFormat::RATIONAL64U, ExifTagGroup::GPSIFD, true, Some(3)),
        0x001d => known(ExifTagFormat::STRING, ExifTagGroup::GPSIFD, true, Some(11)),
        0x0100 => known(ExifTagFormat::INT32U, ExifTagGroup::IFD0, true, Some(1)),
        0x0101 => known(ExifTagFormat::INT32U, ExifTagGroup::IFD0, true, Some(1)),
        0x0102 => known(ExifTagFormat::INT16U, ExifTagGroup::IFD0, true, Some(3)),
        0x0103 => known(ExifTagFormat::INT16U, ExifTagGroup::IFD0, true, Some(1)),
        0x0106 => known(ExifTagFormat::INT16U, ExifTagGroup::IFD0, true, Some(1)),
        0x010e => known(ExifTagFormat::STRING, ExifTagGroup::IFD0, true, None),
        0x010f => known(ExifTagFormat::STRING, ExifTagGroup::IFD0, true, None),
        0x0110 => known(ExifTagFormat::STRING, ExifTagGroup::IFD0, true, None),
        0x0111 => known(ExifTagFormat::INT32U, ExifTagGroup::IFD0, false, None),
        0x0112 => known(ExifTagFormat::INT16U, ExifTagGroup::IFD0, true, Some(1)),
        0x0115 => known(ExifTagFormat::INT16U, ExifTagGroup::IFD0, true, Some(1)),
        0x0116 => known(ExifTagFormat::INT32U, ExifTagGroup::IFD0, true, Some(1)),
        0x0117 => known(ExifTagFormat::INT32U, ExifTagGroup::IFD0, false, None),
        0x011a => known(ExifTagFormat::RATIONAL64U, ExifTagGroup::IFD0, true, Some(1)),
        0x011b => known(ExifTagFormat::RATIONAL64U, ExifTagGroup::IFD0, true, Some(1)),
        0x011c => known(ExifTagFormat::INT16U, ExifTagGroup::IFD0, true, Some(1)),
        0x0128 => known(ExifTagFormat::INT16U, ExifTagGroup::IFD0, true, Some(1)),
        0x0131 => known(ExifTagFormat::STRING, ExifTagGroup::IFD0, true, None),
        0x0132 => known(ExifTagFormat::STRING, ExifTagGroup::IFD0, true, Some(20)),
        0x013b => known(ExifTagFormat::STRING, ExifTagGroup::IFD0, true, None),
        0x013e => known(ExifTagFormat::RATIONAL64U, ExifTagGroup::IFD0, true, Some(2)),
        0x0158 => known(ExifTagFormat::INT32S, ExifTagGroup::IFD0, true, Some(1)),
        0x0159 => known(ExifTagFormat::INT32S, ExifTagGroup::IFD0, true, Some(1)),
        0x0211 => known(ExifTagFormat::RATIONAL64U, ExifTagGroup::IFD0, true, Some(3)),
        0x0213 => known(ExifTagFormat::INT16U, ExifTagGroup::IFD0, true, Some(1)),
        0x8298 => known(ExifTagFormat::STRING, ExifTagGroup::IFD0, true, None),
        0x829a => known(ExifTagFormat::RATIONAL64U, ExifTagGroup::ExifIFD, true, Some(1)),
        0x829d => known(ExifTagFormat::RATIONAL64U, ExifTagGroup::ExifIFD, true, Some(1)),
        0x8769 => known(ExifTagFormat::INT32U, ExifTagGroup::IFD0, false, Some(1)),
        0x8822 => known(ExifTagFormat::INT16U, ExifTagGroup::ExifIFD, true, Some(1)),
        0x8825 => known(ExifTagFormat::INT32U, ExifTagGroup::IFD0, false, Some(1)),
        0x8827 => known(ExifTagFormat::INT16U, ExifTagGroup::ExifIFD, true, None),
        0x882a => known(ExifTagFormat::INT16S, ExifTagGroup::ExifIFD, true, None),
        0x9000 => known(ExifTagFormat::UNDEF, ExifTagGroup::ExifIFD, true, Some(4)),
        0x9003 => known(ExifTagFormat::STRING, ExifTagGroup::ExifIFD, true, Some(20)),
        0x9004 => known(ExifTagFormat::STRING, ExifTagGroup::ExifIFD, true, Some(20)),
        0x9101 => known(ExifTagFormat::UNDEF, ExifTagGroup::ExifIFD, true, Some(4)),
        0x9201 => known(ExifTagFormat::RATIONAL64S, ExifTagGroup::ExifIFD, true, Some(1)),
        0x9202 => known(ExifTagFormat::RATIONAL64U, ExifTagGroup::ExifIFD, true, Some(1)),
        0x9203 => known(ExifTagFormat::RATIONAL64S, ExifTagGroup::ExifIFD, true, Some(1)),
        0x9204 => known(ExifTagFormat::RATIONAL64S, ExifTagGroup::ExifIFD, true, Some(1)),
        0x9205 => known(ExifTagFormat::RATIONAL64U, ExifTagGroup::ExifIFD, true, Some(1)),
        0x9207 => known(ExifTagFormat::INT16U, ExifTagGroup::ExifIFD, true, Some(1)),
        0x9208 => known(ExifTagFormat::INT16U, ExifTagGroup::ExifIFD, true, Some(1)),
        0x9209 => known(ExifTagFormat::INT16U, ExifTagGroup::ExifIFD, true, Some(1)),
        0x920a => known(ExifTagFormat::RATIONAL64U, ExifTagGroup::ExifIFD, true, Some(1)),
        0x927c => known(ExifTagFormat::UNDEF, ExifTagGroup::ExifIFD, true, None),
        0x9286 => known(ExifTagFormat::UNDEF, ExifTagGroup::ExifIFD, true, None),
        0xa000 => known(ExifTagFormat::UNDEF, ExifTagGroup::ExifIFD, true, Some(4)),
        0xa001 => known(ExifTagFormat::INT16U, ExifTagGroup::ExifIFD, true, Some(1)),
        0xa002 => known(ExifTagFormat::INT16U, ExifTagGroup::ExifIFD, true, Some(1)),
        0xa003 => known(ExifTagFormat::INT16U, ExifTagGroup::ExifIFD, true, Some(1)),
        0xa005 => known(ExifTagFormat::INT32U, ExifTagGroup::ExifIFD, false, Some(1)),
        0xa402 => known(ExifTagFormat::INT16U, ExifTagGroup::ExifIFD, true, Some(1)),
        0xa403 => known(ExifTagFormat::INT16U, ExifTagGroup::ExifIFD, true, Some(1)),
        0xa405 => known(ExifTagFormat::INT16U, ExifTagGroup::ExifIFD, true, Some(1)),
        0xa406 => known(ExifTagFormat::INT16U, ExifTagGroup::ExifIFD, true, Some(1)),
        0xa420 => known(ExifTagFormat::STRING, ExifTagGroup::ExifIFD, true, Some(33)),
        0xa430 => known(ExifTagFormat::STRING, ExifTagGroup::ExifIFD, true, None),
        0xa431 => known(ExifTagFormat::STRING, ExifTagGroup::ExifIFD, true, None),
        0xa432 => known(ExifTagFormat::RATIONAL64U, ExifTagGroup::ExifIFD, true, Some(4)),
        0xa433 => known(ExifTagFormat::STRING, ExifTagGroup::ExifIFD, true, None),
        0xa434 => known(ExifTagFormat::STRING, ExifTagGroup::ExifIFD, true, None),
        _ => None,
    }
}

/// A tag as a value of its own: its id, its directory and what it holds.
pub struct TagView {
    pub id: u16,
    pub group: ExifTagGroup,
    pub value: ValueView,
}

impl TagView {
    /// The tag with a known id and a value of that tag's canonical format, or
    /// the unknown tag with an id that is not known and raw bytes. A known tag
    /// is in the directory that is fixed for it, whatever `group` says.
    pub open spec fn assemble(id: u16, group: ExifTagGroup, value: ValueView) -> Option<TagView> {
        match spec_tag_info(id) {
            Some(info) => if !(value is Raw) && value.format() == info.format {
                Some(TagView { id, group: info.group, value })
            } else {
                None
            },
            None => if value is Raw {
                Some(TagView { id, group, value })
            } else {
                None
            },
        }
    }

    /// Whether the tag holds raw bytes, as the tags do that this library does
    /// not know.
    pub open spec fn is_unknown(self) -> bool {
        self.value is Raw
    }

    /// The on-wire format of the tag.
    pub open spec fn format(self) -> ExifTagFormat {
        self.value.format()
    }

    /// The least number of components that a text of this tag takes.
    pub open spec fn min_text(self) -> nat {
        match spec_tag_info(self.id) {
            Some(info) => match info.components {
                Some(n) => n as nat,
                None => 0,
            },
            None => 0,
        }
    }

    /// Number of components of the tag on the wire.
    pub open spec fn components(self) -> nat {
        self.value.components(self.min_text())
    }

    /// Number of bytes of the tag's value on the wire.
    pub open spec fn byte_count(self) -> nat {
        self.components() * (self.format().spec_bytes_per_component() as nat)
    }

    /// The bytes of the tag's value on the wire.
    pub open spec fn wire_bytes(self, e: Endian) -> Seq<u8> {
        self.value.wire_bytes(e, self.min_text())
    }

    /// Whether the tag is written when a directory is encoded. A known tag
    /// is writable or not by its id. An unknown tag is written when its bytes
    /// make up a whole number of components.
    pub open spec fn is_writable(self) -> bool {
        match self.value {
            ValueView::Raw(format, bytes) => bytes.len() % (
            format.spec_bytes_per_component() as nat) == 0,
            _ => match spec_tag_info(self.id) {
                Some(info) => info.writable,
                None => false,
            },
        }
    }

    /// The directory that the tag points to, if it is an offset tag.
    pub open spec fn is_offset_tag(self) -> Option<ExifTagGroup> {
        if self.is_unknown() {
            None
        } else {
            spec_subifd(self.id)
        }
    }

    /// Whether reading the tag's on-wire form gives the tag back: the tag is
    /// the one that its id names, and its value is canonical.
    pub open spec fn is_canonical(self) -> bool {
        &&& TagView::assemble(self.id, self.group, self.value) == Some(self)
        &&& self.value.is_canonical()
    }

    /// Place of the tag in the order in which tags are kept: by directory,
    /// and within a directory the known tags before the unknown ones.
    pub open spec fn rank(self) -> nat {
        (2 * self.group.spec_rank() + if self.is_unknown() {
            1nat
        } else {
            0nat
        }) as nat
    }

    /// The tag that a directory entry with this id, format and value holds.
    /// An id that is not known gives an unknown tag in the directory `group`.
    /// A known id needs its canonical format; the one exception is a 16-bit
    /// unsigned value for a tag whose format is 32-bit unsigned, which is
    /// widened.
    pub open spec fn from_wire(
        id: u16,
        format: ExifTagFormat,
        raw: Seq<u8>,
        e: Endian,
        group: ExifTagGroup,
    ) -> Result<TagView, ExifError> {
        match spec_tag_info(id) {
            None => Ok(TagView { id, group, value: ValueView::Raw(format, raw) }),
            Some(info) => if info.format == format {
                match ValueView::from_wire(format, raw, e) {
                    Ok(value) => Ok(TagView { id, group: info.group, value }),
                    Err(err) => Err(err),
                }
            } else if info.format == ExifTagFormat::INT32U && format == ExifTagFormat::INT16U {
                Ok(
                    TagView {
                        id,
                        group: info.group,
                        value: ValueView::INT32U(widen(items_from_bytes::<u16>(raw, e))),
                    },
                )
            } else {
                Err(ExifError::IncompatibleFormat)
            },
        }
    }
}

/// No known tag has a floating-point format, and the three offset tags are
/// known, hold one 32-bit number and are not writable.
pub proof fn lemma_tag_table(id: u16)
    ensures
        spec_tag_info(id) matches Some(info) ==> info.format != ExifTagFormat::FLOAT && info.format
            != ExifTagFormat::DOUBLE,
        spec_subifd(id) is Some ==> (spec_tag_info(id) matches Some(info) && info.format
            == ExifTagFormat::INT32U && !info.writable),
{
    reveal(spec_tag_info);
}

/// Format coercion. Where a known tag stands on the wire in another format
/// than its canonical one, it is read in one case only: a tag whose format
/// is 32-bit unsigned takes 16-bit unsigned numbers, each widened. Every
/// other mismatch is the error `IncompatibleFormat`.
pub proof fn lemma_format_coercion(
    id: u16,
    format: ExifTagFormat,
    raw: Seq<u8>,
    e: Endian,
    group: ExifTagGroup,
)
    requires
        spec_tag_info(id) is Some,
        spec_tag_info(id)->Some_0.format != format,
    ensures
        TagView::from_wire(id, format, raw, e, group) == if spec_tag_info(id)->Some_0.format
            == ExifTagFormat::INT32U && format == ExifTagFormat::INT16U {
            Ok::<TagView, ExifError>(
                TagView {
                    id,
                    group: spec_tag_info(id)->Some_0.group,
                    value: ValueView::INT32U(widen(items_from_bytes::<u16>(raw, e))),
                },
            )
        } else {
            Err::<TagView, ExifError>(ExifError::IncompatibleFormat)
        },
{
}

/// Coercion keeps the numbers. The 16-bit unsigned numbers `v`, written in
/// the format of 16-bit numbers and read for a tag whose format is 32-bit
/// unsigned, give a tag that holds the same numbers, each in 32 bits.
pub proof fn lemma_coercion_keeps_numbers(id: u16, v: Seq<u16>, e: Endian, group: ExifTagGroup)
    requires
        spec_tag_info(id) is Some,
        spec_tag_info(id)->Some_0.format == ExifTagFormat::INT32U,
    ensures
        TagView::from_wire(id, ExifTagFormat::INT16U, items_to_bytes(v, e), e, group) == Ok::<
            TagView,
            ExifError,
        >(
            TagView {
                id,
                group: spec_tag_info(id)->Some_0.group,
                value: ValueView::INT32U(widen(v)),
            },
        ),
        widen(v).len() == v.len(),
        forall|k: int| 0 <= k < v.len() ==> widen(v)[k] == v[k],
{
    lemma_items_roundtrip(v, e);
}

/// Reading the on-wire form of a canonical tag gives the tag back.
pub proof fn lemma_tag_roundtrip(t: TagView, e: Endian)
    requires
        t.is_canonical(),
    ensures
        t.wire_bytes(e).len() == t.byte_count(),
        TagView::from_wire(t.id, t.format(), t.wire_bytes(e), e, t.group) == Ok::<
            TagView,
            ExifError,
        >(t),
{
    lemma_wire_len(t.value, e, t.min_text());
    if !(t.value is Raw) {
        lemma_value_roundtrip(t.value, e, t.min_text());
    }
}

/// An EXIF tag: one variant for each tag that this library knows, with the
/// value in the type of the tag's format, and one for all others.
#[derive(Debug, PartialEq, Eq)]
pub enum ExifTag {
    InteroperabilityIndex(String),
    ImageWidth(Vec<u32>),
    ImageHeight(Vec<u32>),
    BitsPerSample(Vec<u16>),
    Compression(Vec<u16>),
    PhotometricInterpretation(Vec<u16>),
    ImageDescription(String),
    Make(String),
    Model(String),
    StripOffsets(Vec<u32>),
    Orientation(Vec<u16>),
    SamplesPerPixel(Vec<u16>),
    RowsPerStrip(Vec<u32>),
    StripByteCounts(Vec<u32>),
    XResolution(Vec<uR64>),
    YResolution(Vec<uR64>),
    PlanarConfiguration(Vec<u16>),
    ResolutionUnit(Vec<u16>),
    Software(String),
    ModifyDate(String),
    Artist(String),
    WhitePoint(Vec<uR64>),
    XClipPathUnits(Vec<i32>),
    YClipPathUnits(Vec<i32>),
    YCbCrCoefficients(Vec<uR64>),
    YCbCrPositioning(Vec<u16>),
    Copyright(String),
    ExifOffset(Vec<u32>),
    GPSInfo(Vec<u32>),
    ExposureTime(Vec<uR64>),
    FNumber(Vec<uR64>),
    ExposureProgram(Vec<u16>),
    ISO(Vec<u16>),
    TimeZoneOffset(Vec<i16>),
    ExifVersion(Vec<u8>),
    DateTimeOriginal(String),
    CreateDate(String),
    ComponentsConfiguration(Vec<u8>),
    ShutterSpeedValue(Vec<iR64>),
    ApertureValue(Vec<uR64>),
    BrightnessValue(Vec<iR64>),
    ExposureCompensation(Vec<iR64>),
    MaxApertureValue(Vec<uR64>),
    MeteringMode(Vec<u16>),
    LightSource(Vec<u16>),
    Flash(Vec<u16>),
    FocalLength(Vec<uR64>),
    MakerNote(Vec<u8>),
    UserComment(Vec<u8>),
    FlashpixVersion(Vec<u8>),
    ColorSpace(Vec<u16>),
    ExifImageWidth(Vec<u16>),
    ExifImageHeight(Vec<u16>),
    InteropOffset(Vec<u32>),
    ExposureMode(Vec<u16>),
    WhiteBalance(Vec<u16>),
    FocalLengthIn35mmFormat(Vec<u16>),
    SceneCaptureType(Vec<u16>),
    ImageUniqueID(String),
    OwnerName(String),
    SerialNumber(String),
    LensInfo(Vec<uR64>),
    LensMake(String),
    LensModel(String),
    GPSVersionID(Vec<u8>),
    GPSLatitude(Vec<uR64>),
    GPSLongitudeRef(String),
    GPSLongitude(Vec<uR64>),
    GPSAltitudeRef(Vec<u8>),
    GPSAltitude(Vec<uR64>),
    GPSTimeStamp(Vec<uR64>),
    GPSDateStamp(String),
    /// A tag that this library does not know: its id, its format, the
    /// directory it stands in and the bytes of its value as they are on the
    /// wire.
    Unknown { id: u16, format: ExifTagFormat, group: ExifTagGroup, raw: Vec<u8> },
}

/// The tag as a value of its own: the id and the directory of its variant,
/// and what it holds.
#[verifier::opaque]
pub open spec fn tag_view(tag: ExifTag) -> TagView {
    match tag {
        ExifTag::InteroperabilityIndex(v) => TagView {
            id: 0x0001,
            group: ExifTagGroup::InteropIFD,
            value: ValueView::STRING(v@),
        },
        ExifTag::ImageWidth(v) => TagView {
            id: 0x0100,
            group: ExifTagGroup::IFD0,
            value: ValueView::INT32U(v@),
        },
        ExifTag::ImageHeight(v) => TagView {
            id: 0x0101,
            group: ExifTagGroup::IFD0,
            value: ValueView::INT32U(v@),
        },
        ExifTag::BitsPerSample(v) => TagView {
            id: 0x0102,
            group: ExifTagGroup::IFD0,
            value: ValueView::INT16U(v@),
        },
        ExifTag::Compression(v) => TagView {
            id: 0x0103,
            group: ExifTagGroup::IFD0,
            value: ValueView::INT16U(v@),
        },
        ExifTag::PhotometricInterpretation(v) => TagView {
            id: 0x0106,
            group: ExifTagGroup::IFD0,
            value: ValueView::INT16U(v@),
        },
        ExifTag::ImageDescription(v) => TagView {
            id: 0x010e,
            group: ExifTagGroup::IFD0,
            value: ValueView::STRING(v@),
        },
        ExifTag::Make(v) => TagView {
            id: 0x010f,
            group: ExifTagGroup::IFD0,
            value: ValueView::STRING(v@),
        },
        ExifTag::Model(v) => TagView {
            id: 0x0110,
            group: ExifTagGroup::IFD0,
            value: ValueView::STRING(v@),
        },
        ExifTag::StripOffsets(v) => TagView {
            id: 0x0111,
            group: ExifTagGroup::IFD0,
            value: ValueView::INT32U(v@),
        },
        ExifTag::Orientation(v) => TagView {
            id: 0x0112,
            group: ExifTagGroup::IFD0,
            value: ValueView::INT16U(v@),
        },
        ExifTag::SamplesPerPixel(v) => TagView {
            id: 0x0115,
            group: ExifTagGroup::IFD0,
            value: ValueView::INT16U(v@),
        },
        ExifTag::RowsPerStrip(v) => TagView {
            id: 0x0116,
            group: ExifTagGroup::IFD0,
            value: ValueView::INT32U(v@),
        },
        ExifTag::StripByteCounts(v) => TagView {
            id: 0x0117,
            group: ExifTagGroup::IFD0,
            value: ValueView::INT32U(v@),
        },
        ExifTag::XResolution(v) => TagView {
            id: 0x011a,
            group: ExifTagGroup::IFD0,
            value: ValueView::RATIONAL64U(v@),
        },
        ExifTag::YResolution(v) => TagView {
            id: 0x011b,
            group: ExifTagGroup::IFD0,
            value: ValueView::RATIONAL64U(v@),
        },
        ExifTag::PlanarConfiguration(v) => TagView {
            id: 0x011c,
            group: ExifTagGroup::IFD0,
            value: ValueView::INT16U(v@),
        },
        ExifTag::ResolutionUnit(v) => TagView {
            id: 0x0128,
            group: ExifTagGroup::IFD0,
            value: ValueView::INT16U(v@),
        },
        ExifTag::Software(v) => TagView {
            id: 0x0131,
            group: ExifTagGroup::IFD0,
            value: ValueView::STRING(v@),
        },
        ExifTag::ModifyDate(v) => TagView {
            id: 0x0132,
            group: ExifTagGroup::IFD0,
            value: ValueView::STRING(v@),
        },
        ExifTag::Artist(v) => TagView {
            id: 0x013b,
            group: ExifTagGroup::IFD0,
            value: ValueView::STRING(v@),
        },
        ExifTag::WhitePoint(v) => TagView {
            id: 0x013e,
            group: ExifTagGroup::IFD0,
            value: ValueView::RATIONAL64U(v@),
        },
        ExifTag::XClipPathUnits(v) => TagView {
            id: 0x0158,
            group: ExifTagGroup::IFD0,
            value: ValueView::INT32S(v@),
        },
        ExifTag::YClipPathUnits(v) => TagView {
            id: 0x0159,
            group: ExifTagGroup::IFD0,
            value: ValueView::INT32S(v@),
        },
        ExifTag::YCbCrCoefficients(v) => TagView {
            id: 0x0211,
            group: ExifTagGroup::IFD0,
            value: ValueView::RATIONAL64U(v@),
        },
        ExifTag::YCbCrPositioning(v) => TagView {
            id: 0x0213,
            group: ExifTagGroup::IFD0,
            value: ValueView::INT16U(v@),
        },
        ExifTag::Copyright(v) => TagView {
            id: 0x8298,
            group: ExifTagGroup::IFD0,
            value: ValueView::STRING(v@),
        },
        ExifTag::ExifOffset(v) => TagView {
            id: 0x8769,
            group: ExifTagGroup::IFD0,
            value: ValueView::INT32U(v@),
        },
        ExifTag::GPSInfo(v) => TagView {
            id: 0x8825,
            group: ExifTagGroup::IFD0,
            value: ValueView::INT32U(v@),
        },
        ExifTag::ExposureTime(v) => TagView {
            id: 0x829a,
            group: ExifTagGroup::ExifIFD,
            value: ValueView::RATIONAL64U(v@),
        },
        ExifTag::FNumber(v) => TagView {
            id: 0x829d,
            group: ExifTagGroup::ExifIFD,
            value: ValueView::RATIONAL64U(v@),
        },
        ExifTag::ExposureProgram(v) => TagView {
            id: 0x8822,
            group: ExifTagGroup::ExifIFD,
            value: ValueView::INT16U(v@),
        },
        ExifTag::ISO(v) => TagView {
            id: 0x8827,
            group: ExifTagGroup::ExifIFD,
            value: ValueView::INT16U(v@),
        },
        ExifTag::TimeZoneOffset(v) => TagView {
            id: 0x882a,
            group: ExifTagGroup::ExifIFD,
            value: ValueView::INT16S(v@),
        },
        ExifTag::ExifVersion(v) => TagView {
            id: 0x9000,
            group: ExifTagGroup::ExifIFD,
            value: ValueView::UNDEF(v@),
        },
        ExifTag::DateTimeOriginal(v) => TagView {
            id: 0x9003,
            group: ExifTagGroup::ExifIFD,
            value: ValueView::STRING(v@),
        },
        ExifTag::CreateDate(v) => TagView {
            id: 0x9004,
            group: ExifTagGroup::ExifIFD,
            value: ValueView::STRING(v@),
        },
        ExifTag::ComponentsConfiguration(v) => TagView {
            id: 0x9101,
            group: ExifTagGroup::ExifIFD,
            value: ValueView::UNDEF(v@),
        },
        ExifTag::ShutterSpeedValue(v) => TagView {
            id: 0x9201,
            group: ExifTagGroup::ExifIFD,
            value: ValueView::RATIONAL64S(v@),
        },
        ExifTag::ApertureValue(v) => TagView {
            id: 0x9202,
            group: ExifTagGroup::ExifIFD,
            value: ValueView::RATIONAL64U(v@),
        },
        ExifTag::BrightnessValue(v) => TagView {
            id: 0x9203,
            group: ExifTagGroup::ExifIFD,
            value: ValueView::RATIONAL64S(v@),
        },
        ExifTag::ExposureCompensation(v) => TagView {
            id: 0x9204,
            group: ExifTagGroup::ExifIFD,
            value: ValueView::RATIONAL64S(v@),
        },
        ExifTag::MaxApertureValue(v) => TagView {
            id: 0x9205,
            group: ExifTagGroup::ExifIFD,
            value: ValueView::RATIONAL64U(v@),
        },
        ExifTag::MeteringMode(v) => TagView {
            id: 0x9207,
            group: ExifTagGroup::ExifIFD,
            value: ValueView::INT16U(v@),
        },
        ExifTag::LightSource(v) => TagView {
            id: 0x9208,
            group: ExifTagGroup::ExifIFD,
            value: ValueView::INT16U(v@),
        },
        ExifTag::Flash(v) => TagView {
            id: 0x9209,
            group: ExifTagGroup::ExifIFD,
            value: ValueView::INT16U(v@),
        },
        ExifTag::FocalLength(v) => TagView {
            id: 0x920a,
            group: ExifTagGroup::ExifIFD,
            value: ValueView::RATIONAL64U(v@),
        },
        ExifTag::MakerNote(v) => TagView {
            id: 0x927c,
            group: ExifTagGroup::ExifIFD,
            value: ValueView::UNDEF(v@),
        },
        ExifTag::UserComment(v) => TagView {
            id: 0x9286,
            group: ExifTagGroup::ExifIFD,
            value: ValueView::UNDEF(v@),
        },
        ExifTag::FlashpixVersion(v) => TagView {
            id: 0xa000,
            group: ExifTagGroup::ExifIFD,
            value: ValueView::UNDEF(v@),
        },
        ExifTag::ColorSpace(v) => TagView {
            id: 0xa001,
            group: ExifTagGroup::ExifIFD,
            value: ValueView::INT16U(v@),
        },
        ExifTag::ExifImageWidth(v) => TagView {
            id: 0xa002,
            group: ExifTagGroup::ExifIFD,
            value: ValueView::INT16U(v@),
        },
        ExifTag::ExifImageHeight(v) => TagView {
            id: 0xa003,
            group: ExifTagGroup::ExifIFD,
            value: ValueView::INT16U(v@),
        },
        ExifTag::InteropOffset(v) => TagView {
            id: 0xa005,
            group: ExifTagGroup::ExifIFD,
            value: ValueView::INT32U(v@),
        },
        ExifTag::ExposureMode(v) => TagView {
            id: 0xa402,
            group: ExifTagGroup::ExifIFD,
            value: ValueView::INT16U(v@),
        },
        ExifTag::WhiteBalance(v) => TagView {
            id: 0xa403,
            group: ExifTagGroup::ExifIFD,
            value: ValueView::INT16U(v@),
        },
        ExifTag::FocalLengthIn35mmFormat(v) => TagView {
            id: 0xa405,
            group: ExifTagGroup::ExifIFD,
            value: ValueView::INT16U(v@),
        },
        ExifTag::SceneCaptureType(v) => TagView {
            id: 0xa406,
            group: ExifTagGroup::ExifIFD,
            value: ValueView::INT16U(v@),
        },
        ExifTag::ImageUniqueID(v) => TagView {
            id: 0xa420,
            group: ExifTagGroup::ExifIFD,
            value: ValueView::STRING(v@),
        },
        ExifTag::OwnerName(v) => TagView {
            id: 0xa430,
            group: ExifTagGroup::ExifIFD,
            value: ValueView::STRING(v@),
        },
        ExifTag::SerialNumber(v) => TagView {
            id: 0xa431,
            group: ExifTagGroup::ExifIFD,
            value: ValueView::STRING(v@),
        },
        ExifTag::LensInfo(v) => TagView {
            id: 0xa432,
            group: ExifTagGroup::ExifIFD,
            value: ValueView::RATIONAL64U(v@),
        },
        ExifTag::LensMake(v) => TagView {
            id: 0xa433,
            group: ExifTagGroup::ExifIFD,
            value: ValueView::STRING(v@),
        },
        ExifTag::LensModel(v) => TagView {
            id: 0xa434,
            group: ExifTagGroup::ExifIFD,
            value: ValueView::STRING(v@),
        },
        ExifTag::GPSVersionID(v) => TagView {
            id: 0x0000,
            group: ExifTagGroup::GPSIFD,
            value: ValueView::INT8U(v@),
        },
        ExifTag::GPSLatitude(v) => TagView {
            id: 0x0002,
            group: ExifTagGroup::GPSIFD,
            value: ValueView::RATIONAL64U(v@),
        },
        ExifTag::GPSLongitudeRef(v) => TagView {
            id: 0x0003,
            group: ExifTagGroup::GPSIFD,
            value: ValueView::STRING(v@),
        },
        ExifTag::GPSLongitude(v) => TagView {
            id: 0x0004,
            group: ExifTagGroup::GPSIFD,
            value: ValueView::RATIONAL64U(v@),
        },
        ExifTag::GPSAltitudeRef(v) => TagView {
            id: 0x0005,
            group: ExifTagGroup::GPSIFD,
            value: ValueView::INT8U(v@),
        },
        ExifTag::GPSAltitude(v) => TagView {
            id: 0x0006,
            group: ExifTagGroup::GPSIFD,
            value: ValueView::RATIONAL64U(v@),
        },
        ExifTag::GPSTimeStamp(v) => TagView {
            id: 0x0007,
            group: ExifTagGroup::GPSIFD,
            value: ValueView::RATIONAL64U(v@),
        },
        ExifTag::GPSDateStamp(v) => TagView {
            id: 0x001d,
            group: ExifTagGroup::GPSIFD,
            value: ValueView::STRING(v@),
        },
        ExifTag::Unknown { id, format, group, raw } => TagView {
            id,
            group,
            value: ValueView::Raw(format, raw@),
        },
    }
}

impl View for ExifTag {
    type V = TagView;

    open spec fn view(&self) -> TagView {
        tag_view(*self)
    }
}

/// A tag taken apart: its id, its directory and its value, borrowed.
pub struct TagParts<'a> {
    pub id: u16,
    pub group: ExifTagGroup,
    pub value: ValueRef<'a>,
}

impl<'a> View for TagParts<'a> {
    type V = TagView;

    open spec fn view(&self) -> TagView {
        TagView { id: self.id, group: self.group, value: self.value@ }
    }
}

/// What is the same in two results of reading a tag: the view of the tag, or
/// the error.
pub open spec fn tag_reads_as(
    got: Result<ExifTag, ExifError>,
    want: Result<TagView, ExifError>,
) -> bool {
    match (got, want) {
        (Ok(tag), Ok(view)) => tag@ == view,
        (Err(e1), Err(e2)) => e1 == e2,
        _ => false,
    }
}

/// The views of the tags of `tags`, in order.
pub open spec fn tag_views(tags: Seq<ExifTag>) -> Seq<TagView> {
    Seq::new(tags.len(), |i: int| tags[i]@)
}

impl ExifTag {
    /// The id, the directory and the value of the tag.
    pub fn parts<'a>(&'a self) -> (p: TagParts<'a>)
        ensures
            p@ == self@,
    {
        proof {
            reveal(tag_view);
        }
        match self {
            ExifTag::InteroperabilityIndex(v) => TagParts {
                id: 0x0001,
                group: ExifTagGroup::InteropIFD,
                value: ValueRef::STRING(v),
            },
            ExifTag::ImageWidth(v) => TagParts {
                id: 0x0100,
                group: ExifTagGroup::IFD0,
                value: ValueRef::INT32U(v),
            },
            ExifTag::ImageHeight(v) => TagParts {
                id: 0x0101,
                group: ExifTagGroup::IFD0,
                value: ValueRef::INT32U(v),
            },
            ExifTag::BitsPerSample(v) => TagParts {
                id: 0x0102,
                group: ExifTagGroup::IFD0,
                value: ValueRef::INT16U(v),
            },
            ExifTag::Compression(v) => TagParts {
                id: 0x0103,
                group: ExifTagGroup::IFD0,
                value: ValueRef::INT16U(v),
            },
            ExifTag::PhotometricInterpretation(v) => TagParts {
                id: 0x0106,
                group: ExifTagGroup::IFD0,
                value: ValueRef::INT16U(v),
            },
            ExifTag::ImageDescription(v) => TagParts {
                id: 0x010e,
                group: ExifTagGroup::IFD0,
                value: ValueRef::STRING(v),
            },
            ExifTag::Make(v) => TagParts {
                id: 0x010f,
                group: ExifTagGroup::IFD0,
                value: ValueRef::STRING(v),
            },
            ExifTag::Model(v) => TagParts {
                id: 0x0110,
                group: ExifTagGroup::IFD0,
                value: ValueRef::STRING(v),
            },
            ExifTag::StripOffsets(v) => TagParts {
                id: 0x0111,
                group: ExifTagGroup::IFD0,
                value: ValueRef::INT32U(v),
            },
            ExifTag::Orientation(v) => TagParts {
                id: 0x0112,
                group: ExifTagGroup::IFD0,
                value: ValueRef::INT16U(v),
            },
            ExifTag::SamplesPerPixel(v) => TagParts {
                id: 0x0115,
                group: ExifTagGroup::IFD0,
                value: ValueRef::INT16U(v),
            },
            ExifTag::RowsPerStrip(v) => TagParts {
                id: 0x0116,
                group: ExifTagGroup::IFD0,
                value: ValueRef::INT32U(v),
            },
            ExifTag::StripByteCounts(v) => TagParts {
                id: 0x0117,
                group: ExifTagGroup::IFD0,
                value: ValueRef::INT32U(v),
            },
            ExifTag::XResolution(v) => TagParts {
                id: 0x011a,
                group: ExifTagGroup::IFD0,
                value: ValueRef::RATIONAL64U(v),
            },
            ExifTag::YResolution(v) => TagParts {
                id: 0x011b,
                group: ExifTagGroup::IFD0,
                value: ValueRef::RATIONAL64U(v),
            },
            ExifTag::PlanarConfiguration(v) => TagParts {
                id: 0x011c,
                group: ExifTagGroup::IFD0,
                value: ValueRef::INT16U(v),
            },
            ExifTag::ResolutionUnit(v) => TagParts {
                id: 0x0128,
                group: ExifTagGroup::IFD0,
                value: ValueRef::INT16U(v),
            },
            ExifTag::Software(v) => TagParts {
                id: 0x0131,
                group: ExifTagGroup::IFD0,
                value: ValueRef::STRING(v),
            },
            ExifTag::ModifyDate(v) => TagParts {
                id: 0x0132,
                group: ExifTagGroup::IFD0,
                value: ValueRef::STRING(v),
            },
            ExifTag::Artist(v) => TagParts {
                id: 0x013b,
                group: ExifTagGroup::IFD0,
                value: ValueRef::STRING(v),
            },
            ExifTag::WhitePoint(v) => TagParts {
                id: 0x013e,
                group: ExifTagGroup::IFD0,
                value: ValueRef::RATIONAL64U(v),
            },
            ExifTag::XClipPathUnits(v) => TagParts {
                id: 0x0158,
                group: ExifTagGroup::IFD0,
                value: ValueRef::INT32S(v),
            },
            ExifTag::YClipPathUnits(v) => TagParts {
                id: 0x0159,
                group: ExifTagGroup::IFD0,
                value: ValueRef::INT32S(v),
            },
            ExifTag::YCbCrCoefficients(v) => TagParts {
                id: 0x0211,
                group: ExifTagGroup::IFD0,
                value: ValueRef::RATIONAL64U(v),
            },
            ExifTag::YCbCrPositioning(v) => TagParts {
                id: 0x0213,
                group: ExifTagGroup::IFD0,
                value: ValueRef::INT16U(v),
            },
            ExifTag::Copyright(v) => TagParts {
                id: 0x8298,
                group: ExifTagGroup::IFD0,
                value: ValueRef::STRING(v),
            },
            ExifTag::ExifOffset(v) => TagParts {
                id: 0x8769,
                group: ExifTagGroup::IFD0,
                value: ValueRef::INT32U(v),
            },
            ExifTag::GPSInfo(v) => TagParts {
                id: 0x8825,
                group: ExifTagGroup::IFD0,
                value: ValueRef::INT32U(v),
            },
            ExifTag::ExposureTime(v) => TagParts {
                id: 0x829a,
                group: ExifTagGroup::ExifIFD,
                value: ValueRef::RATIONAL64U(v),
            },
            ExifTag::FNumber(v) => TagParts {
                id: 0x829d,
                group: ExifTagGroup::ExifIFD,
                value: ValueRef::RATIONAL64U(v),
            },
            ExifTag::ExposureProgram(v) => TagParts {
                id: 0x8822,
                group: ExifTagGroup::ExifIFD,
                value: ValueRef::INT16U(v),
            },
            ExifTag::ISO(v) => TagParts {
                id: 0x8827,
                group: ExifTagGroup::ExifIFD,
                value: ValueRef::INT16U(v),
            },
            ExifTag::TimeZoneOffset(v) => TagParts {
                id: 0x882a,
                group: ExifTagGroup::ExifIFD,
                value: ValueRef::INT16S(v),
            },
            ExifTag::ExifVersion(v) => TagParts {
                id: 0x9000,
                group: ExifTagGroup::ExifIFD,
                value: ValueRef::UNDEF(v),
            },
            ExifTag::DateTimeOriginal(v) => TagParts {
                id: 0x9003,
                group: ExifTagGroup::ExifIFD,
                value: ValueRef::STRING(v),
            },
            ExifTag::CreateDate(v) => TagParts {
                id: 0x9004,
                group: ExifTagGroup::ExifIFD,
                value: ValueRef::STRING(v),
            },
            ExifTag::ComponentsConfiguration(v) => TagParts {
                id: 0x9101,
                group: ExifTagGroup::ExifIFD,
                value: ValueRef::UNDEF(v),
            },
            ExifTag::ShutterSpeedValue(v) => TagParts {
                id: 0x9201,
                group: ExifTagGroup::ExifIFD,
                value: ValueRef::RATIONAL64S(v),
            },
            ExifTag::ApertureValue(v) => TagParts {
                id: 0x9202,
                group: ExifTagGroup::ExifIFD,
                value: ValueRef::RATIONAL64U(v),
            },
            ExifTag::BrightnessValue(v) => TagParts {
                id: 0x9203,
                group: ExifTagGroup::ExifIFD,
                value: ValueRef::RATIONAL64S(v),
            },
            ExifTag::ExposureCompensation(v) => TagParts {
                id: 0x9204,
                group: ExifTagGroup::ExifIFD,
                value: ValueRef::RATIONAL64S(v),
            },
            ExifTag::MaxApertureValue(v) => TagParts {
                id: 0x9205,
                group: ExifTagGroup::ExifIFD,
                value: ValueRef::RATIONAL64U(v),
            },
            ExifTag::MeteringMode(v) => TagParts {
                id: 0x9207,
                group: ExifTagGroup::ExifIFD,
                value: ValueRef::INT16U(v),
            },
            ExifTag::LightSource(v) => TagParts {
                id: 0x9208,
                group: ExifTagGroup::ExifIFD,
                value: ValueRef::INT16U(v),
            },
            ExifTag::Flash(v) => TagParts {
                id: 0x9209,
                group: ExifTagGroup::ExifIFD,
                value: ValueRef::INT16U(v),
            },
            ExifTag::FocalLength(v) => TagParts {
                id: 0x920a,
                group: ExifTagGroup::ExifIFD,
                value: ValueRef::RATIONAL64U(v),
            },
            ExifTag::MakerNote(v) => TagParts {
                id: 0x927c,
                group: ExifTagGroup::ExifIFD,
                value: ValueRef::UNDEF(v),
            },
            ExifTag::UserComment(v) => TagParts {
                id: 0x9286,
                group: ExifTagGroup::ExifIFD,
                value: ValueRef::UNDEF(v),
            },
            ExifTag::FlashpixVersion(v) => TagParts {
                id: 0xa000,
                group: ExifTagGroup::ExifIFD,
                value: ValueRef::UNDEF(v),
            },
            ExifTag::ColorSpace(v) => TagParts {
                id: 0xa001,
                group: ExifTagGroup::ExifIFD,
                value: ValueRef::INT16U(v),
            },
            ExifTag::ExifImageWidth(v) => TagParts {
                id: 0xa002,
                group: ExifTagGroup::ExifIFD,
                value: ValueRef::INT16U(v),
            },
            ExifTag::ExifImageHeight(v) => TagParts {
                id: 0xa003,
                group: ExifTagGroup::ExifIFD,
                value: ValueRef::INT16U(v),
            },
            ExifTag::InteropOffset(v) => TagParts {
                id: 0xa005,
                group: ExifTagGroup::ExifIFD,
                value: ValueRef::INT32U(v),
            },
            ExifTag::ExposureMode(v) => TagParts {
                id: 0xa402,
                group: ExifTagGroup::ExifIFD,
                value: ValueRef::INT16U(v),
            },
            ExifTag::WhiteBalance(v) => TagParts {
                id: 0xa403,
                group: ExifTagGroup::ExifIFD,
                value: ValueRef::INT16U(v),
            },
            ExifTag::FocalLengthIn35mmFormat(v) => TagParts {
                id: 0xa405,
                group: ExifTagGroup::ExifIFD,
                value: ValueRef::INT16U(v),
            },
            ExifTag::SceneCaptureType(v) => TagParts {
                id: 0xa406,
                group: ExifTagGroup::ExifIFD,
                value: ValueRef::INT16U(v),
            },
            ExifTag::ImageUniqueID(v) => TagParts {
                id: 0xa420,
                group: ExifTagGroup::ExifIFD,
                value: ValueRef::STRING(v),
            },
            ExifTag::OwnerName(v) => TagParts {
                id: 0xa430,
                group: ExifTagGroup::ExifIFD,
                value: ValueRef::STRING(v),
            },
            ExifTag::SerialNumber(v) => TagParts {
                id: 0xa431,
                group: ExifTagGroup::ExifIFD,
                value: ValueRef::STRING(v),
            },
            ExifTag::LensInfo(v) => TagParts {
                id: 0xa432,
                group: ExifTagGroup::ExifIFD,
                value: ValueRef::RATIONAL64U(v),
            },
            ExifTag::LensMake(v) => TagParts {
                id: 0xa433,
                group: ExifTagGroup::ExifIFD,
                value: ValueRef::STRING(v),
            },
            ExifTag::LensModel(v) => TagParts {
                id: 0xa434,
                group: ExifTagGroup::ExifIFD,
                value: ValueRef::STRING(v),
            },
            ExifTag::GPSVersionID(v) => TagParts {
                id: 0x0000,
                group: ExifTagGroup::GPSIFD,
                value: ValueRef::INT8U(v),
            },
            ExifTag::GPSLatitude(v) => TagParts {
                id: 0x0002,
                group: ExifTagGroup::GPSIFD,
                value: ValueRef::RATIONAL64U(v),
            },
            ExifTag::GPSLongitudeRef(v) => TagParts {
                id: 0x0003,
                group: ExifTagGroup::GPSIFD,
                value: ValueRef::STRING(v),
            },
            ExifTag::GPSLongitude(v) => TagParts {
                id: 0x0004,
                group: ExifTagGroup::GPSIFD,
                value: ValueRef::RATIONAL64U(v),
            },
            ExifTag::GPSAltitudeRef(v) => TagParts {
                id: 0x0005,
                group: ExifTagGroup::GPSIFD,
                value: ValueRef::INT8U(v),
            },
            ExifTag::GPSAltitude(v) => TagParts {
                id: 0x0006,
                group: ExifTagGroup::GPSIFD,
                value: ValueRef::RATIONAL64U(v),
            },
            ExifTag::GPSTimeStamp(v) => TagParts {
                id: 0x0007,
                group: ExifTagGroup::GPSIFD,
                value: ValueRef::RATIONAL64U(v),
            },
            ExifTag::GPSDateStamp(v) => TagParts {
                id: 0x001d,
                group: ExifTagGroup::GPSIFD,
                value: ValueRef::STRING(v),
            },
            ExifTag::Unknown { id, format, group, raw } => TagParts {
                id: *id,
                group: *group,
                value: ValueRef::Raw(*format, raw),
            },
        }
    }

    /// The tag with the given id that holds the given value: the known tag
    /// where the id is known and the value has its format, the unknown tag
    /// where the id is not known and the value is raw bytes, else nothing.
    pub fn from_parts(id: u16, group: ExifTagGroup, value: TagValue) -> (tag: Option<ExifTag>)
        ensures
            match tag {
                Some(t) => TagView::assemble(id, group, value@) == Some(t@),
                None => TagView::assemble(id, group, value@) is None,
            },
    {
        proof {
            reveal(tag_view);
            reveal(spec_tag_info);
        }
        match (id, value) {
            (0x0001, TagValue::STRING(v)) => Some(ExifTag::InteroperabilityIndex(v)),
            (0x0100, TagValue::INT32U(v)) => Some(ExifTag::ImageWidth(v)),
            (0x0101, TagValue::INT32U(v)) => Some(ExifTag::ImageHeight(v)),
            (0x0102, TagValue::INT16U(v)) => Some(ExifTag::BitsPerSample(v)),
            (0x0103, TagValue::INT16U(v)) => Some(ExifTag::Compression(v)),
            (0x0106, TagValue::INT16U(v)) => Some(ExifTag::PhotometricInterpretation(v)),
            (0x010e, TagValue::STRING(v)) => Some(ExifTag::ImageDescription(v)),
            (0x010f, TagValue::STRING(v)) => Some(ExifTag::Make(v)),
            (0x0110, TagValue::STRING(v)) => Some(ExifTag::Model(v)),
            (0x0111, TagValue::INT32U(v)) => Some(ExifTag::StripOffsets(v)),
            (0x0112, TagValue::INT16U(v)) => Some(ExifTag::Orientation(v)),
            (0x0115, TagValue::INT16U(v)) => Some(ExifTag::SamplesPerPixel(v)),
            (0x0116, TagValue::INT32U(v)) => Some(ExifTag::RowsPerStrip(v)),
            (0x0117, TagValue::INT32U(v)) => Some(ExifTag::StripByteCounts(v)),
            (0x011a, TagValue::RATIONAL64U(v)) => Some(ExifTag::XResolution(v)),
            (0x011b, TagValue::RATIONAL64U(v)) => Some(ExifTag::YResolution(v)),
            (0x011c, TagValue::INT16U(v)) => Some(ExifTag::PlanarConfiguration(v)),
            (0x0128, TagValue::INT16U(v)) => Some(ExifTag::ResolutionUnit(v)),
            (0x0131, TagValue::STRING(v)) => Some(ExifTag::Software(v)),
            (0x0132, TagValue::STRING(v)) => Some(ExifTag::ModifyDate(v)),
            (0x013b, TagValue::STRING(v)) => Some(ExifTag::Artist(v)),
            (0x013e, TagValue::RATIONAL64U(v)) => Some(ExifTag::WhitePoint(v)),
            (0x0158, TagValue::INT32S(v)) => Some(ExifTag::XClipPathUnits(v)),
            (0x0159, TagValue::INT32S(v)) => Some(ExifTag::YClipPathUnits(v)),
            (0x0211, TagValue::RATIONAL64U(v)) => Some(ExifTag::YCbCrCoefficients(v)),
            (0x0213, TagValue::INT16U(v)) => Some(ExifTag::YCbCrPositioning(v)),
            (0x8298, TagValue::STRING(v)) => Some(ExifTag::Copyright(v)),
            (0x8769, TagValue::INT32U(v)) => Some(ExifTag::ExifOffset(v)),
            (0x8825, TagValue::INT32U(v)) => Some(ExifTag::GPSInfo(v)),
            (0x829a, TagValue::RATIONAL64U(v)) => Some(ExifTag::ExposureTime(v)),
            (0x829d, TagValue::RATIONAL64U(v)) => Some(ExifTag::FNumber(v)),
            (0x8822, TagValue::INT16U(v)) => Some(ExifTag::ExposureProgram(v)),
            (0x8827, TagValue::INT16U(v)) => Some(ExifTag::ISO(v)),
            (0x882a, TagValue::INT16S(v)) => Some(ExifTag::TimeZoneOffset(v)),
            (0x9000, TagValue::UNDEF(v)) => Some(ExifTag::ExifVersion(v)),
            (0x9003, TagValue::STRING(v)) => Some(ExifTag::DateTimeOriginal(v)),
            (0x9004, TagValue::STRING(v)) => Some(ExifTag::CreateDate(v)),
            (0x9101, TagValue::UNDEF(v)) => Some(ExifTag::ComponentsConfiguration(v)),
            (0x9201, TagValue::RATIONAL64S(v)) => Some(ExifTag::ShutterSpeedValue(v)),
            (0x9202, TagValue::RATIONAL64U(v)) => Some(ExifTag::ApertureValue(v)),
            (0x9203, TagValue::RATIONAL64S(v)) => Some(ExifTag::BrightnessValue(v)),
            (0x9204, TagValue::RATIONAL64S(v)) => Some(ExifTag::ExposureCompensation(v)),
            (0x9205, TagValue::RATIONAL64U(v)) => Some(ExifTag::MaxApertureValue(v)),
            (0x9207, TagValue::INT16U(v)) => Some(ExifTag::MeteringMode(v)),
            (0x9208, TagValue::INT16U(v)) => Some(ExifTag::LightSource(v)),
            (0x9209, TagValue::INT16U(v)) => Some(ExifTag::Flash(v)),
            (0x920a, TagValue::RATIONAL64U(v)) => Some(ExifTag::FocalLength(v)),
            (0x927c, TagValue::UNDEF(v)) => Some(ExifTag::MakerNote(v)),
            (0x9286, TagValue::UNDEF(v)) => Some(ExifTag::UserComment(v)),
            (0xa000, TagValue::UNDEF(v)) => Some(ExifTag::FlashpixVersion(v)),
            (0xa001, TagValue::INT16U(v)) => Some(ExifTag::ColorSpace(v)),
            (0xa002, TagValue::INT16U(v)) => Some(ExifTag::ExifImageWidth(v)),
            (0xa003, TagValue::INT16U(v)) => Some(ExifTag::ExifImageHeight(v)),
            (0xa005, TagValue::INT32U(v)) => Some(ExifTag::InteropOffset(v)),
            (0xa402, TagValue::INT16U(v)) => Some(ExifTag::ExposureMode(v)),
            (0xa403, TagValue::INT16U(v)) => Some(ExifTag::WhiteBalance(v)),
            (0xa405, TagValue::INT16U(v)) => Some(ExifTag::FocalLengthIn35mmFormat(v)),
            (0xa406, TagValue::INT16U(v)) => Some(ExifTag::SceneCaptureType(v)),
            (0xa420, TagValue::STRING(v)) => Some(ExifTag::ImageUniqueID(v)),
            (0xa430, TagValue::STRING(v)) => Some(ExifTag::OwnerName(v)),
            (0xa431, TagValue::STRING(v)) => Some(ExifTag::SerialNumber(v)),
            (0xa432, TagValue::RATIONAL64U(v)) => Some(ExifTag::LensInfo(v)),
            (0xa433, TagValue::STRING(v)) => Some(ExifTag::LensMake(v)),
            (0xa434, TagValue::STRING(v)) => Some(ExifTag::LensModel(v)),
            (0x0000, TagValue::INT8U(v)) => Some(ExifTag::GPSVersionID(v)),
            (0x0002, TagValue::RATIONAL64U(v)) => Some(ExifTag::GPSLatitude(v)),
            (0x0003, TagValue::STRING(v)) => Some(ExifTag::GPSLongitudeRef(v)),
            (0x0004, TagValue::RATIONAL64U(v)) => Some(ExifTag::GPSLongitude(v)),
            (0x0005, TagValue::INT8U(v)) => Some(ExifTag::GPSAltitudeRef(v)),
            (0x0006, TagValue::RATIONAL64U(v)) => Some(ExifTag::GPSAltitude(v)),
            (0x0007, TagValue::RATIONAL64U(v)) => Some(ExifTag::GPSTimeStamp(v)),
            (0x001d, TagValue::STRING(v)) => Some(ExifTag::GPSDateStamp(v)),
            (id, TagValue::Raw(format, raw)) => {
                if tag_info(id).is_none() {
                    Some(ExifTag::Unknown { id, format, group, raw })
                } else {
                    None
                }
            },
            _ => None,
        }
    }

    /// The numeric id of the tag.
    pub fn as_u16(&self) -> (id: u16)
        ensures
            id == self@.id,
    {
        self.parts().id
    }

    /// The on-wire format of the tag.
    pub fn format(&self) -> (format: ExifTagFormat)
        ensures
            format == self@.format(),
    {
        self.parts().value.format()
    }

    /// The directory that the tag belongs to.
    pub fn get_group(&self) -> (group: ExifTagGroup)
        ensures
            group == self@.group,
    {
        self.parts().group
    }

    /// Whether this is a tag that the library does not know.
    pub fn is_unknown(&self) -> (unknown: bool)
        ensures
            unknown == self@.is_unknown(),
    {
        proof {
            reveal(tag_view);
        }
        match self {
            ExifTag::Unknown { .. } => true,
            _ => false,
        }
    }

    /// Whether the tag holds a text.
    pub fn is_string(&self) -> (string: bool)
        ensures
            string == (self@.format() == ExifTagFormat::STRING),
    {
        match self.format() {
            ExifTagFormat::STRING => true,
            _ => false,
        }
    }

    /// Whether the tag is written when a directory is encoded.
    pub fn is_writable(&self) -> (writable: bool)
        ensures
            writable == self@.is_writable(),
    {
        let p = self.parts();
        match p.value {
            ValueRef::Raw(format, raw) => raw.len() % (format.bytes_per_component() as usize) == 0,
            _ => match tag_info(p.id) {
                Some(info) => info.writable,
                None => false,
            },
        }
    }

    /// The directory that the tag points to, if it is an offset tag.
    pub fn is_offset_tag(&self) -> (group: Option<ExifTagGroup>)
        ensures
            group == self@.is_offset_tag(),
    {
        if self.is_unknown() {
            None
        } else {
            subifd(self.as_u16())
        }
    }

    /// The least number of components that a text of this tag takes.
    fn min_text(&self) -> (n: u32)
        ensures
            n == self@.min_text(),
    {
        match tag_info(self.as_u16()) {
            Some(info) => match info.components {
                Some(n) => n,
                None => 0,
            },
            None => 0,
        }
    }

    /// Number of components of the tag on the wire, where that number fits
    /// in the 32 bits that a directory entry has for it.
    pub fn number_of_components(&self) -> (count: Option<u32>)
        ensures
            count == if self@.components() <= u32::MAX {
                Some(self@.components() as u32)
            } else {
                None
            },
    {
        self.parts().value.number_of_components(self.min_text())
    }

    /// The bytes of the tag's value on the wire.
    pub fn value_as_u8_vec(&self, endian: &Endian) -> (bytes: Vec<u8>)
        ensures
            bytes@ == self@.wire_bytes(*endian),
    {
        self.parts().value.to_u8_vec(*endian, self.min_text())
    }

    /// The tag that a directory entry with this id and format holds, where
    /// `data[from..to]` is its value.
    pub fn from_wire(
        id: u16,
        format: ExifTagFormat,
        data: &Vec<u8>,
        from: usize,
        to: usize,
        endian: Endian,
        group: ExifTagGroup,
    ) -> (tag: Result<ExifTag, ExifError>)
        requires
            from <= to <= data.len(),
        ensures
            tag_reads_as(
                tag,
                TagView::from_wire(
                    id,
                    format,
                    data@.subrange(from as int, to as int),
                    endian,
                    group,
                ),
            ),
    {
        let ghost raw = data@.subrange(from as int, to as int);
        proof {
            lemma_tag_table(id);
        }
        let value = match tag_info(id) {
            None => {
                proof {
                    lemma_u8_items(raw, endian);
                }
                TagValue::Raw(format, from_u8_slice::<u8>(data, from, to, endian))
            },
            Some(info) => {
                if info.format == format {
                    match TagValue::from_wire(format, data, from, to, endian) {
                        Ok(value) => value,
                        Err(err) => {
                            return Err(err);
                        },
                    }
                } else if info.format == ExifTagFormat::INT32U && format == ExifTagFormat::INT16U {
                    let narrow = from_u8_slice::<u16>(data, from, to, endian);
                    TagValue::INT32U(widen_to_u32(&narrow))
                } else {
                    return Err(ExifError::IncompatibleFormat);
                }
            },
        };
        match ExifTag::from_parts(id, group, value) {
            Some(tag) => Ok(tag),
            None => Err(ExifError::IncompatibleFormat),
        }
    }

    /// The tag that a directory entry with this id and format holds, where
    /// `raw` is its value.
    pub fn from_u16_with_data(
        id: u16,
        format: &ExifTagFormat,
        raw: &Vec<u8>,
        endian: &Endian,
        group: &ExifTagGroup,
    ) -> (tag: Result<ExifTag, ExifError>)
        ensures
            tag_reads_as(tag, TagView::from_wire(id, *format, raw@, *endian, *group)),
    {
        assert(raw@.subrange(0, raw.len() as int) =~= raw@);
        ExifTag::from_wire(id, *format, raw, 0, raw.len(), *endian, *group)
    }
}

impl Clone for ExifTag {
    fn clone(&self) -> (copy: Self)
        ensures
            copy@ == self@,
    {
        proof {
            reveal(tag_view);
        }
        match self {
            ExifTag::InteroperabilityIndex(v) => ExifTag::InteroperabilityIndex(v.clone()),
            ExifTag::ImageWidth(v) => ExifTag::ImageWidth(v.clone()),
            ExifTag::ImageHeight(v) => ExifTag::ImageHeight(v.clone()),
            ExifTag::BitsPerSample(v) => ExifTag::BitsPerSample(v.clone()),
            ExifTag::Compression(v) => ExifTag::Compression(v.clone()),
            ExifTag::PhotometricInterpretation(v) => ExifTag::PhotometricInterpretation(v.clone()),
            ExifTag::ImageDescription(v) => ExifTag::ImageDescription(v.clone()),
            ExifTag::Make(v) => ExifTag::Make(v.clone()),
            ExifTag::Model(v) => ExifTag::Model(v.clone()),
            ExifTag::StripOffsets(v) => ExifTag::StripOffsets(v.clone()),
            ExifTag::Orientation(v) => ExifTag::Orientation(v.clone()),
            ExifTag::SamplesPerPixel(v) => ExifTag::SamplesPerPixel(v.clone()),
            ExifTag::RowsPerStrip(v) => ExifTag::RowsPerStrip(v.clone()),
            ExifTag::StripByteCounts(v) => ExifTag::StripByteCounts(v.clone()),
            ExifTag::XResolution(v) => ExifTag::XResolution(copy_items(v)),
            ExifTag::YResolution(v) => ExifTag::YResolution(copy_items(v)),
            ExifTag::PlanarConfiguration(v) => ExifTag::PlanarConfiguration(v.clone()),
            ExifTag::ResolutionUnit(v) => ExifTag::ResolutionUnit(v.clone()),
            ExifTag::Software(v) => ExifTag::Software(v.clone()),
            ExifTag::ModifyDate(v) => ExifTag::ModifyDate(v.clone()),
            ExifTag::Artist(v) => ExifTag::Artist(v.clone()),
            ExifTag::WhitePoint(v) => ExifTag::WhitePoint(copy_items(v)),
            ExifTag::XClipPathUnits(v) => ExifTag::XClipPathUnits(v.clone()),
            ExifTag::YClipPathUnits(v) => ExifTag::YClipPathUnits(v.clone()),
            ExifTag::YCbCrCoefficients(v) => ExifTag::YCbCrCoefficients(copy_items(v)),
            ExifTag::YCbCrPositioning(v) => ExifTag::YCbCrPositioning(v.clone()),
            ExifTag::Copyright(v) => ExifTag::Copyright(v.clone()),
            ExifTag::ExifOffset(v) => ExifTag::ExifOffset(v.clone()),
            ExifTag::GPSInfo(v) => ExifTag::GPSInfo(v.clone()),
            ExifTag::ExposureTime(v) => ExifTag::ExposureTime(copy_items(v)),
            ExifTag::FNumber(v) => ExifTag::FNumber(copy_items(v)),
            ExifTag::ExposureProgram(v) => ExifTag::ExposureProgram(v.clone()),
            ExifTag::ISO(v) => ExifTag::ISO(v.clone()),
            ExifTag::TimeZoneOffset(v) => ExifTag::TimeZoneOffset(v.clone()),
            ExifTag::ExifVersion(v) => ExifTag::ExifVersion(v.clone()),
            ExifTag::DateTimeOriginal(v) => ExifTag::DateTimeOriginal(v.clone()),
            ExifTag::CreateDate(v) => ExifTag::CreateDate(v.clone()),
            ExifTag::ComponentsConfiguration(v) => ExifTag::ComponentsConfiguration(v.clone()),
            ExifTag::ShutterSpeedValue(v) => ExifTag::ShutterSpeedValue(copy_items(v)),
            ExifTag::ApertureValue(v) => ExifTag::ApertureValue(copy_items(v)),
            ExifTag::BrightnessValue(v) => ExifTag::BrightnessValue(copy_items(v)),
            ExifTag::ExposureCompensation(v) => ExifTag::ExposureCompensation(copy_items(v)),
            ExifTag::MaxApertureValue(v) => ExifTag::MaxApertureValue(copy_items(v)),
            ExifTag::MeteringMode(v) => ExifTag::MeteringMode(v.clone()),
            ExifTag::LightSource(v) => ExifTag::LightSource(v.clone()),
            ExifTag::Flash(v) => ExifTag::Flash(v.clone()),
            ExifTag::FocalLength(v) => ExifTag::FocalLength(copy_items(v)),
            ExifTag::MakerNote(v) => ExifTag::MakerNote(v.clone()),
            ExifTag::UserComment(v) => ExifTag::UserComment(v.clone()),
            ExifTag::FlashpixVersion(v) => ExifTag::FlashpixVersion(v.clone()),
            ExifTag::ColorSpace(v) => ExifTag::ColorSpace(v.clone()),
            ExifTag::ExifImageWidth(v) => ExifTag::ExifImageWidth(v.clone()),
            ExifTag::ExifImageHeight(v) => ExifTag::ExifImageHeight(v.clone()),
            ExifTag::InteropOffset(v) => ExifTag::InteropOffset(v.clone()),
            ExifTag::ExposureMode(v) => ExifTag::ExposureMode(v.clone()),
            ExifTag::WhiteBalance(v) => ExifTag::WhiteBalance(v.clone()),
            ExifTag::FocalLengthIn35mmFormat(v) => ExifTag::FocalLengthIn35mmFormat(v.clone()),
            ExifTag::SceneCaptureType(v) => ExifTag::SceneCaptureType(v.clone()),
            ExifTag::ImageUniqueID(v) => ExifTag::ImageUniqueID(v.clone()),
            ExifTag::OwnerName(v) => ExifTag::OwnerName(v.clone()),
            ExifTag::SerialNumber(v) => ExifTag::SerialNumber(v.clone()),
            ExifTag::LensInfo(v) => ExifTag::LensInfo(copy_items(v)),
            ExifTag::LensMake(v) => ExifTag::LensMake(v.clone()),
            ExifTag::LensModel(v) => ExifTag::LensModel(v.clone()),
            ExifTag::GPSVersionID(v) => ExifTag::GPSVersionID(v.clone()),
            ExifTag::GPSLatitude(v) => ExifTag::GPSLatitude(copy_items(v)),
            ExifTag::GPSLongitudeRef(v) => ExifTag::GPSLongitudeRef(v.clone()),
            ExifTag::GPSLongitude(v) => ExifTag::GPSLongitude(copy_items(v)),
            ExifTag::GPSAltitudeRef(v) => ExifTag::GPSAltitudeRef(v.clone()),
            ExifTag::GPSAltitude(v) => ExifTag::GPSAltitude(copy_items(v)),
            ExifTag::GPSTimeStamp(v) => ExifTag::GPSTimeStamp(copy_items(v)),
            ExifTag::GPSDateStamp(v) => ExifTag::GPSDateStamp(v.clone()),
            ExifTag::Unknown { id, format, group, raw } => ExifTag::Unknown {
                id: *id,
                format: *format,
                group: *group,
                raw: raw.clone(),
            },
        }
    }
}

/// A tag in one of the known variants is the tag that its id names. It is
/// canonical where its value is: every value but a text that ends in NUL.
pub proof fn lemma_known_variant(tag: ExifTag)
    requires
        !(tag is Unknown),
    ensures
        TagView::assemble(tag@.id, tag@.group, tag@.value) == Some(tag@),
        tag@.is_canonical() == tag@.value.is_canonical(),
        !tag@.is_unknown(),
{
    reveal(tag_view);
    reveal(spec_tag_info);
}

} // verus!

use crate::endian::{
    exif_header, push_u16, push_u32, read_u16, read_u32, spec_exif_header, Endian,
};
use crate::error::ExifError;
use crate::exif_tag::{
    lemma_tag_table, subifd, tag_view, tag_views, ExifTag, ExifTagGroup, TagView, EXIF_OFFSET,
    INTEROP_OFFSET,
};
use crate::exif_tag_format::ExifTagFormat;
use crate::filetype::{get_file_type, spec_get_file_type, FileExtension};
use crate::ifd::{
    area, area_len, area_size, encodable, entries, entry_bytes, entry_count, ifd_fits, ifd_size,
    lemma_area_len, lemma_select, lemma_tag_wire_len, link_entry, out_of_line, prepend, select,
    spec_decode, spec_decode_entries, spec_decode_entry, spec_decode_ifd, spec_encode,
    spec_encode_ifd, MAX_ENTRIES, MAX_SUBIFD_DEPTH, MIN_PAYLOAD_LENGTH,
};
use crate::jpg;
use crate::tag_value::{lemma_u8_items, zeros};
use crate::u8conversion::from_u8_slice;
use vstd::prelude::*;
use vstd::utf8::encode_utf8;

verus! {

/// The tags of one image and the byte order in which they are written.
pub struct Metadata {
    data: Vec<ExifTag>,
    endian: Endian,
}

/// A `Metadata` as a value: the byte order and the tags, in order.
pub struct MetadataView {
    pub endian: Endian,
    pub tags: Seq<TagView>,
}

impl View for Metadata {
    type V = MetadataView;

    closed spec fn view(&self) -> MetadataView {
        MetadataView { endian: self.endian, tags: tag_views(self.data@) }
    }
}

/// The id of the offset tag, if there is one.
pub open spec fn subifd_id(subifd_tag: Option<ExifTag>) -> Option<u16> {
    match subifd_tag {
        Some(tag) => Some(tag@.id),
        None => None,
    }
}

/// What `encode_ifd` returns for the tags `ts` of one directory that starts
/// at `base`: nothing where the directory has no entries, the end of the
/// directory and its bytes where it can be written, and an error where its
/// entry count or an offset in it does not fit.
pub open spec fn encoded_ifd(
    ts: Seq<TagView>,
    e: Endian,
    base: int,
    next_ifd_link: Seq<u8>,
    subifd: Option<u16>,
    r: Result<Option<(u32, Vec<u8>)>, ExifError>,
) -> bool {
    match r {
        Ok(None) => entry_count(ts, subifd) == 0,
        Ok(Some((end, bytes))) => {
            &&& entry_count(ts, subifd) > 0
            &&& ifd_fits(ts, base, subifd)
            &&& bytes@ == spec_encode_ifd(ts, e, base, next_ifd_link, subifd)
            &&& end == base + ifd_size(ts, subifd)
        },
        Err(err) => {
            &&& err == ExifError::MalformedSegment
            &&& entry_count(ts, subifd) > 0
            &&& !ifd_fits(ts, base, subifd)
        },
    }
}

/// What `encode_metadata_general` returns for the given tags: the TIFF body,
/// or an error where the tags cannot be written as one.
pub open spec fn encoded(tags: Seq<TagView>, e: Endian, r: Result<Vec<u8>, ExifError>) -> bool {
    match r {
        Ok(bytes) => encodable(tags) && bytes@ == spec_encode(tags, e),
        Err(err) => !encodable(tags) && err == ExifError::MalformedSegment,
    }
}

/// Unfolds the selection of the tags from index `j` on.
proof fn lemma_select_step(tags: Seq<TagView>, group: ExifTagGroup, j: int)
    requires
        0 <= j < tags.len(),
    ensures
        select(tags.skip(j), group) == if tags[j].is_writable() && tags[j].group == group {
            seq![tags[j]] + select(tags.skip(j + 1), group)
        } else {
            select(tags.skip(j + 1), group)
        },
{
    assert(tags.skip(j).drop_first() =~= tags.skip(j + 1));
}

/// Unfolds entries, area and area size of a sequence that starts with `t`.
proof fn lemma_layout_step(t: TagView, rest: Seq<TagView>, e: Endian, offset: int)
    ensures
        entries(seq![t] + rest, e, offset) == entry_bytes(t, e, offset) + entries(
            rest,
            e,
            offset + area_len(t),
        ),
        area(seq![t] + rest, e) == if out_of_line(t) {
            t.wire_bytes(e) + area(rest, e)
        } else {
            area(rest, e)
        },
        area_size(seq![t] + rest) == area_len(t) + area_size(rest),
        (seq![t] + rest).len() == rest.len() + 1,
{
    assert((seq![t] + rest).drop_first() =~= rest);
}

/// A tag with more components than 32 bits can count does not fit into any
/// directory.
proof fn lemma_large_tag(t: TagView)
    requires
        t.components() > u32::MAX,
    ensures
        area_len(t) > u32::MAX,
{
    crate::exif_tag_format::lemma_format_code_roundtrip(t.format());
    let size = t.format().spec_bytes_per_component() as nat;
    assert(t.components() * size >= t.components()) by (nonlinear_arith)
        requires
            size >= 1,
    ;
}

/// The part of the offset area that the value of `t` takes.
pub open spec fn area_bytes(t: TagView, e: Endian) -> Seq<u8> {
    if out_of_line(t) {
        t.wire_bytes(e)
    } else {
        Seq::empty()
    }
}

/// Appends the entry of `tag` to `ifd_vec` and, where the value does not fit
/// into the entry, the value to `ifd_offset_area`, whose end in the TIFF body
/// is `next_offset`. Returns the new end of the offset area, or nothing
/// where that end does not fit in 32 bits.
fn encode_entry(
    tag: &ExifTag,
    e: Endian,
    next_offset: u32,
    ifd_vec: &mut Vec<u8>,
    ifd_offset_area: &mut Vec<u8>,
) -> (end: Option<u32>)
    requires
        tag@.is_writable(),
    ensures
        match end {
            Some(end) => {
                &&& end == next_offset + area_len(tag@)
                &&& final(ifd_vec)@ == old(ifd_vec)@ + entry_bytes(tag@, e, next_offset as int)
                &&& final(ifd_offset_area)@ == old(ifd_offset_area)@ + area_bytes(tag@, e)
            },
            None => next_offset + area_len(tag@) > u32::MAX,
        },
{
    let ghost t = tag@;
    proof {
        lemma_tag_wire_len(t, e);
    }
    let number_of_components: u32 = match tag.number_of_components() {
        Some(n) => n,
        None => {
            proof {
                lemma_large_tag(t);
            }
            return None;
        },
    };
    let size = tag.format().bytes_per_component();
    assert((number_of_components as u64) * (size as u64) <= 8 * 0xFFFF_FFFFu64) by (nonlinear_arith)
        requires
            number_of_components <= 0xFFFF_FFFFu32,
            size <= 8,
    ;
    let byte_count: u64 = (number_of_components as u64) * (size as u64);
    assert(byte_count == t.byte_count());
    if byte_count > 4 && next_offset as u64 + byte_count > 0xFFFF_FFFF {
        return None;
    }
    push_u16(ifd_vec, tag.as_u16(), e);
    push_u16(ifd_vec, tag.format().as_u16(), e);
    push_u32(ifd_vec, number_of_components, e);
    let mut value = tag.value_as_u8_vec(&e);
    if byte_count > 4 {
        push_u32(ifd_vec, next_offset, e);
        ifd_offset_area.append(&mut value);
        assert(ifd_vec@ =~= old(ifd_vec)@ + entry_bytes(t, e, next_offset as int));
        Some((next_offset as u64 + byte_count) as u32)
    } else {
        ifd_vec.append(&mut value);
        let ghost with_value = ifd_vec@;
        let mut pad: u64 = byte_count;
        while pad < 4
            invariant
                byte_count <= pad <= 4,
                ifd_vec@ == with_value + zeros((pad - byte_count) as nat),
            decreases 4 - pad,
        {
            ifd_vec.push(0x00);
            pad += 1;
            assert(ifd_vec@ =~= with_value + zeros((pad - byte_count) as nat));
        }
        assert(ifd_vec@ =~= old(ifd_vec)@ + entry_bytes(t, e, next_offset as int));
        assert(ifd_offset_area@ =~= old(ifd_offset_area)@ + area_bytes(t, e));
        Some(next_offset)
    }
}

impl Metadata {
    /// A new `Metadata` without tags, in little-endian byte order.
    pub fn new() -> (metadata: Metadata)
        ensures
            metadata@.endian == Endian::Little,
            metadata@.tags == Seq::<TagView>::empty(),
    {
        let metadata = Metadata { endian: Endian::Little, data: Vec::new() };
        assert(tag_views(metadata.data@) =~= Seq::<TagView>::empty());
        metadata
    }

    /// The tags, in the order in which they are kept.
    pub fn data(&self) -> (tags: &Vec<ExifTag>)
        ensures
            tag_views(tags@) == self@.tags,
    {
        &self.data
    }

    /// The byte order.
    pub fn get_endian(&self) -> (endian: &Endian)
        ensures
            *endian == self@.endian,
    {
        &self.endian
    }

    /// Writes one directory: the writable tags of `group`, and behind them,
    /// where `subifd_tag` is given, the entry of that offset tag, which
    /// points to where this directory ends. `given_offset` is the offset of
    /// the directory in the TIFF body.
    pub fn encode_ifd(
        &self,
        group: ExifTagGroup,
        given_offset: u32,
        next_ifd_link: &[u8; 4],
        subifd_tag: Option<ExifTag>,
    ) -> (r: Result<Option<(u32, Vec<u8>)>, ExifError>)
        requires
            subifd_tag matches Some(tag) ==> tag@.is_offset_tag() is Some,
        ensures
            encoded_ifd(
                select(self@.tags, group),
                self@.endian,
                given_offset as int,
                next_ifd_link@,
                subifd_id(subifd_tag),
                r,
            ),
    {
        let e = self.endian;
        let ghost tags = self@.tags;
        let ghost ts = select(tags, group);
        let ghost link = subifd_id(subifd_tag);
        proof {
            lemma_select(tags, group);
            lemma_area_len(ts, e);
        }
        // Number of entries.
        let mut count_entries: usize = 0;
        let mut j: usize = 0;
        assert(tags.skip(0) =~= tags);
        while j < self.data.len()
            invariant
                j <= self.data.len(),
                count_entries <= j,
                tags == tag_views(self.data@),
                ts == select(tags, group),
                count_entries + select(tags.skip(j as int), group).len() == ts.len(),
            decreases self.data.len() - j,
        {
            proof {
                lemma_select_step(tags, group, j as int);
            }
            let tag = &self.data[j];
            if tag.is_writable() && tag.get_group() == group {
                count_entries += 1;
            }
            j += 1;
        }
        assert(tags.skip(j as int) =~= Seq::<TagView>::empty());
        if count_entries > MAX_ENTRIES {
            return Err(ExifError::MalformedSegment);
        }
        let with_link: u64 = if subifd_tag.is_some() {
            1
        } else {
            0
        };
        let total: u64 = count_entries as u64 + with_link;
        assert(total == entry_count(ts, link));
        if total == 0 {
            return Ok(None);
        }
        if total > MAX_ENTRIES as u64 {
            return Err(ExifError::MalformedSegment);
        }
        let area_start: u64 = given_offset as u64 + 2 + 12 * total + 4;
        if area_start > 0xFFFF_FFFF {
            return Err(ExifError::MalformedSegment);
        }
        // Entry count and entries.
        let mut ifd_vec: Vec<u8> = Vec::new();
        push_u16(&mut ifd_vec, total as u16, e);
        let ghost count_bytes = ifd_vec@;
        let mut ifd_offset_area: Vec<u8> = Vec::new();
        let mut next_offset: u32 = area_start as u32;
        let mut j: usize = 0;
        assert(ifd_vec@ + entries(ts, e, area_start as int) =~= count_bytes + entries(
            ts,
            e,
            area_start as int,
        ));
        assert(ifd_offset_area@ + area(ts, e) =~= area(ts, e));
        while j < self.data.len()
            invariant
                j <= self.data.len(),
                tags == tag_views(self.data@),
                ts == select(tags, group),
                link == subifd_id(subifd_tag),
                total == entry_count(ts, link),
                0 < total <= MAX_ENTRIES,
                area_start == given_offset + 2 + 12 * total + 4,
                ifd_vec@ + entries(select(tags.skip(j as int), group), e, next_offset as int)
                    == count_bytes + entries(ts, e, area_start as int),
                ifd_offset_area@ + area(select(tags.skip(j as int), group), e) == area(ts, e),
                next_offset + area_size(select(tags.skip(j as int), group)) == area_start
                    + area_size(ts),
            decreases self.data.len() - j,
        {
            let ghost rest = select(tags.skip(j + 1), group);
            let ghost before_table = ifd_vec@;
            let ghost before_area = ifd_offset_area@;
            proof {
                lemma_select_step(tags, group, j as int);
            }
            let tag = &self.data[j];
            if tag.is_writable() && tag.get_group() == group {
                let ghost t = tag@;
                proof {
                    lemma_layout_step(t, rest, e, next_offset as int);
                }
                match encode_entry(tag, e, next_offset, &mut ifd_vec, &mut ifd_offset_area) {
                    Some(end) => {
                        proof {
                            assert(ifd_vec@ + entries(rest, e, end as int) =~= before_table + (
                            entry_bytes(t, e, next_offset as int) + entries(rest, e, end as int)));
                            assert(ifd_offset_area@ + area(rest, e) =~= before_area + (area_bytes(
                                t,
                                e,
                            ) + area(rest, e)));
                        }
                        next_offset = end;
                    },
                    None => {
                        return Err(ExifError::MalformedSegment);
                    },
                }
            }
            j += 1;
        }
        assert(tags.skip(j as int) =~= Seq::<TagView>::empty());
        assert(ifd_vec@ =~= count_bytes + entries(ts, e, area_start as int));
        assert(ifd_offset_area@ =~= area(ts, e));
        // The entry of the offset tag, the link, the offset area.
        match subifd_tag {
            Some(tag) => {
                proof {
                    lemma_tag_table(tag@.id);
                }
                push_u16(&mut ifd_vec, tag.as_u16(), e);
                push_u16(&mut ifd_vec, ExifTagFormat::INT32U.as_u16(), e);
                push_u32(&mut ifd_vec, 1, e);
                push_u32(&mut ifd_vec, next_offset, e);
                assert(ifd_vec@ =~= count_bytes + entries(ts, e, area_start as int) + link_entry(
                    tag@.id,
                    e,
                    next_offset as int,
                ));
            },
            None => {
                assert(ifd_vec@ =~= count_bytes + entries(ts, e, area_start as int) + Seq::<
                    u8,
                >::empty());
            },
        }
        let ghost with_entries = ifd_vec@;
        ifd_vec.push(next_ifd_link[0]);
        ifd_vec.push(next_ifd_link[1]);
        ifd_vec.push(next_ifd_link[2]);
        ifd_vec.push(next_ifd_link[3]);
        assert(ifd_vec@ =~= with_entries + next_ifd_link@);
        ifd_vec.append(&mut ifd_offset_area);
        Ok(Some((next_offset, ifd_vec)))
    }

    /// The TIFF body that holds the writable tags: header, IFD0, the Exif
    /// directory, and the interoperability directory where it has tags.
    pub fn encode_metadata_general(&self) -> (r: Result<Vec<u8>, ExifError>)
        ensures
            encoded(self@.tags, self@.endian, r),
    {
        let mut exif_vec: Vec<u8> = self.endian.header();
        let no_link: [u8; 4] = [0x00, 0x00, 0x00, 0x00];
        assert(no_link@ =~= zeros(4));
        let mut current_offset: u32 = 8;
        let exif_offset = ExifTag::ExifOffset(vec![0]);
        let interop_offset = ExifTag::InteropOffset(vec![0]);
        proof {
            reveal(tag_view);
            assert(exif_offset@.id == EXIF_OFFSET && exif_offset@.is_offset_tag() is Some);
            assert(interop_offset@.id == INTEROP_OFFSET && interop_offset@.is_offset_tag() is Some);
        }
        match self.encode_ifd(ExifTagGroup::IFD0, current_offset, &no_link, Some(exif_offset)) {
            Ok(Some((offset_post_ifd0, mut ifd0_data))) => {
                current_offset = offset_post_ifd0;
                exif_vec.append(&mut ifd0_data);
            },
            Ok(None) => {
                return Err(ExifError::MalformedSegment);
            },
            Err(err) => {
                return Err(err);
            },
        }
        match self.encode_ifd(
            ExifTagGroup::ExifIFD,
            current_offset,
            &no_link,
            Some(interop_offset),
        ) {
            Ok(Some((offset_post_exififd, mut exififd_data))) => {
                current_offset = offset_post_exififd;
                exif_vec.append(&mut exififd_data);
            },
            Ok(None) => {
                return Err(ExifError::MalformedSegment);
            },
            Err(err) => {
                return Err(err);
            },
        }
        match self.encode_ifd(ExifTagGroup::InteropIFD, current_offset, &no_link, None) {
            Ok(Some((_, mut interopifd_data))) => {
                exif_vec.append(&mut interopifd_data);
            },
            Ok(None) => {
                assert(exif_vec@ =~= exif_vec@ + Seq::<u8>::empty());
            },
            Err(err) => {
                return Err(err);
            },
        }
        Ok(exif_vec)
    }

    /// The tags of the directory at `ifd_start` and of the directories
    /// below it. `depth` says how many directories may hang below this one.
    pub fn decode_ifd(
        encoded_data: &Vec<u8>,
        group: &ExifTagGroup,
        ifd_start: usize,
        endian: &Endian,
        depth: usize,
    ) -> (r: Result<Vec<ExifTag>, ExifError>)
        ensures
            tags_read_as(
                r,
                spec_decode_ifd(encoded_data@, *group, ifd_start as int, *endian, depth as nat),
            ),
        decreases depth, 1nat,
    {
        let len = encoded_data.len();
        if len < 2 || ifd_start > len - 2 {
            let none: Vec<ExifTag> = Vec::new();
            assert(tag_views(none@) =~= Seq::<TagView>::empty());
            return Ok(none);
        }
        let number_of_entries = read_u16(encoded_data, ifd_start, *endian);
        if ((len - ifd_start) as u64) < 2 + 12 * (number_of_entries as u64) + 4 {
            let none: Vec<ExifTag> = Vec::new();
            assert(tag_views(none@) =~= Seq::<TagView>::empty());
            return Ok(none);
        }
        let n = number_of_entries as usize;
        let mut tags: Vec<ExifTag> = Vec::new();
        let mut i: usize = 0;
        let ghost goal = spec_decode_ifd(
            encoded_data@,
            *group,
            ifd_start as int,
            *endian,
            depth as nat,
        );
        proof {
            let all = spec_decode_entries(
                encoded_data@,
                *group,
                ifd_start as int,
                *endian,
                depth as nat,
                0,
                n as nat,
            );
            assert(tag_views(tags@) =~= Seq::<TagView>::empty());
            assert(goal == all);
            if let Ok(views) = all {
                assert(Seq::<TagView>::empty() + views =~= views);
            }
        }
        while i < n
            invariant
                i <= n,
                n <= 0xffff,
                ifd_start + 2 + 12 * n + 4 <= encoded_data.len(),
                goal == spec_decode_ifd(
                    encoded_data@,
                    *group,
                    ifd_start as int,
                    *endian,
                    depth as nat,
                ),
                goal == prepend(
                    tag_views(tags@),
                    spec_decode_entries(
                        encoded_data@,
                        *group,
                        ifd_start as int,
                        *endian,
                        depth as nat,
                        i as nat,
                        n as nat,
                    ),
                ),
            decreases n - i,
        {
            let entry_start_index = ifd_start + 2 + 12 * i;
            let ghost before = tag_views(tags@);
            let ghost rest = spec_decode_entries(
                encoded_data@,
                *group,
                ifd_start as int,
                *endian,
                depth as nat,
                (i + 1) as nat,
                n as nat,
            );
            match Self::decode_entry(encoded_data, *group, entry_start_index, *endian, depth) {
                Ok(mut found) => {
                    let ghost head = tag_views(found@);
                    tags.append(&mut found);
                    proof {
                        assert(tag_views(tags@) =~= before + head);
                        if let Ok(views) = rest {
                            assert(before + (head + views) =~= (before + head) + views);
                        }
                    }
                },
                Err(err) => {
                    return Err(err);
                },
            }
            i += 1;
        }
        proof {
            assert(tag_views(tags@) + Seq::<TagView>::empty() =~= tag_views(tags@));
        }
        Ok(tags)
    }

    /// The tags that the directory entry at `at` stands for.
    fn decode_entry(
        encoded_data: &Vec<u8>,
        group: ExifTagGroup,
        at: usize,
        endian: Endian,
        depth: usize,
    ) -> (r: Result<Vec<ExifTag>, ExifError>)
        requires
            at + 12 <= encoded_data.len(),
        ensures
            tags_read_as(
                r,
                spec_decode_entry(encoded_data@, group, at as int, endian, depth as nat),
            ),
        decreases depth, 0nat,
    {
        let hex_tag = read_u16(encoded_data, at, endian);
        let hex_format = read_u16(encoded_data, at + 2, endian);
        let hex_component_number = read_u32(encoded_data, at + 4, endian);
        let format = match ExifTagFormat::from_u16(hex_format) {
            Some(format) => format,
            None => {
                return Err(ExifError::UnsupportedFormat);
            },
        };
        let size = format.bytes_per_component();
        assert((size as u64) * (hex_component_number as u64) <= 8 * 0xFFFF_FFFFu64)
            by (nonlinear_arith)
            requires
                hex_component_number <= 0xFFFF_FFFFu32,
                size <= 8,
        ;
        let byte_count: u64 = (size as u64) * (hex_component_number as u64);
        let value_start: u64 = if byte_count > 4 {
            read_u32(encoded_data, at + 8, endian) as u64
        } else {
            (at + 8) as u64
        };
        if value_start + byte_count > encoded_data.len() as u64 {
            return Err(ExifError::MalformedSegment);
        }
        let from = value_start as usize;
        let to = from + byte_count as usize;
        match subifd(hex_tag) {
            Some(subifd_group) => {
                if byte_count < 4 || depth == 0 {
                    return Err(ExifError::MalformedSegment);
                }
                let offset = read_u32(encoded_data, from, endian) as usize;
                Self::decode_ifd(encoded_data, &subifd_group, offset, &endian, depth - 1)
            },
            None => {
                match ExifTag::from_wire(hex_tag, format, encoded_data, from, to, endian, group) {
                    Ok(tag) => {
                        let mut found: Vec<ExifTag> = Vec::new();
                        found.push(tag);
                        assert(tag_views(found@) =~= seq![tag@]);
                        Ok(found)
                    },
                    Err(err) => Err(err),
                }
            },
        }
    }

    /// The byte order and the tags that a payload holds. The payload starts
    /// with the EXIF preamble; the TIFF body follows.
    pub fn decode_metadata_general(encoded_data: &Vec<u8>) -> (r: Result<
        (Endian, Vec<ExifTag>),
        ExifError,
    >)
        ensures
            decoded_as(r, spec_decode(encoded_data@)),
    {
        if encoded_data.len() < MIN_PAYLOAD_LENGTH {
            return Err(ExifError::FormatError);
        }
        let header = exif_header();
        let mut i: usize = 0;
        while i < 6
            invariant
                i <= 6,
                header@ == spec_exif_header(),
                encoded_data.len() >= MIN_PAYLOAD_LENGTH,
                forall|k: int| 0 <= k < i ==> encoded_data@[k] == header@[k],
            decreases 6 - i,
        {
            if encoded_data[i] != header[i] {
                assert(encoded_data@.take(6)[i as int] != spec_exif_header()[i as int]);
                return Err(ExifError::FormatError);
            }
            i += 1;
        }
        assert(encoded_data@.take(6) =~= spec_exif_header());
        let ghost body_view = encoded_data@.skip(6);
        let endian;
        if encoded_data[6] == 0x49 && encoded_data[7] == 0x49 {
            endian = Endian::Little;
            assert(body_view.take(2) =~= Endian::Little.spec_mark());
        } else if encoded_data[6] == 0x4d && encoded_data[7] == 0x4d {
            endian = Endian::Big;
            assert(body_view.take(2) =~= Endian::Big.spec_mark());
            assert(body_view.take(2)[0] != Endian::Little.spec_mark()[0]);
        } else {
            assert(body_view.take(2)[0] == encoded_data@[6]);
            assert(body_view.take(2)[1] == encoded_data@[7]);
            assert(Endian::Little.spec_mark()[0] == 0x49 && Endian::Little.spec_mark()[1] == 0x49);
            assert(Endian::Big.spec_mark()[0] == 0x4d && Endian::Big.spec_mark()[1] == 0x4d);
            return Err(ExifError::FormatError);
        }
        proof {
            lemma_u8_items(encoded_data@.subrange(6, encoded_data.len() as int), endian);
            assert(encoded_data@.subrange(6, encoded_data.len() as int) =~= body_view);
        }
        let body: Vec<u8> = from_u8_slice::<u8>(encoded_data, 6, encoded_data.len(), endian);
        let ifd0_offset = read_u32(&body, 4, endian) as usize;
        match Self::decode_ifd(&body, &ExifTagGroup::IFD0, ifd0_offset, &endian, MAX_SUBIFD_DEPTH) {
            Ok(all_tags) => Ok((endian, all_tags)),
            Err(err) => Err(err),
        }
    }
}

/// Whether tags that were read and the tags that were to be read agree.
pub open spec fn tags_read_as(
    got: Result<Vec<ExifTag>, ExifError>,
    want: Result<Seq<TagView>, ExifError>,
) -> bool {
    match (got, want) {
        (Ok(tags), Ok(views)) => tag_views(tags@) == views,
        (Err(e1), Err(e2)) => e1 == e2,
        _ => false,
    }
}

/// Whether what was decoded and what was to be decoded agree.
pub open spec fn decoded_as(
    got: Result<(Endian, Vec<ExifTag>), ExifError>,
    want: Result<(Endian, Seq<TagView>), ExifError>,
) -> bool {
    match (got, want) {
        (Ok((e1, tags)), Ok((e2, views))) => e1 == e2 && tag_views(tags@) == views,
        (Err(e1), Err(e2)) => e1 == e2,
        _ => false,
    }
}

/// What is done where the metadata of an image cannot be read.
#[derive(Clone, Copy, Debug, PartialEq, Eq, Structural)]
pub enum DecodePolicy {
    /// The error is returned.
    Strict,
    /// A new `Metadata` without tags is returned.
    BestEffort,
}

/// The first tag of `tags` with the given id.
pub open spec fn spec_get_tag(tags: Seq<TagView>, id: u16) -> Option<TagView>
    decreases tags.len(),
{
    if tags.len() == 0 {
        None
    } else if tags[0].id == id {
        Some(tags[0])
    } else {
        spec_get_tag(tags.drop_first(), id)
    }
}

/// Number of places in the order of tags: four directories, and in each the
/// known tags and the unknown ones.
pub const RANKS: u8 = 8;

/// The tags of `tags` that have the given place in the order and another id
/// than `id`, in their order.
pub open spec fn keep(tags: Seq<TagView>, id: u16, rank: nat) -> Seq<TagView>
    decreases tags.len(),
{
    if tags.len() == 0 {
        Seq::empty()
    } else if tags[0].id != id && tags[0].rank() == rank {
        seq![tags[0]] + keep(tags.drop_first(), id, rank)
    } else {
        keep(tags.drop_first(), id, rank)
    }
}

/// The tag `t` where it has the given place in the order, else nothing.
pub open spec fn placed(t: TagView, rank: nat) -> Seq<TagView> {
    if t.rank() == rank {
        seq![t]
    } else {
        Seq::empty()
    }
}

/// The tags from the place `rank` of the order on, after `t` was set.
pub open spec fn spec_set_from(tags: Seq<TagView>, t: TagView, rank: nat) -> Seq<TagView>
    decreases RANKS - rank,
{
    if rank >= RANKS {
        Seq::empty()
    } else {
        keep(tags, t.id, rank) + placed(t, rank) + spec_set_from(tags, t, rank + 1)
    }
}

/// The tags after `t` was set: the tags with the id of `t` are gone, the
/// others stand in the order of directories, in each directory the known
/// before the unknown, and otherwise as they stood; `t` stands behind those
/// of its own place in that order.
pub open spec fn spec_set_tag(tags: Seq<TagView>, t: TagView) -> Seq<TagView> {
    spec_set_from(tags, t, 0)
}

/// Whether the tags stand in the order of directories, and in each directory
/// the known before the unknown.
pub open spec fn is_ordered(tags: Seq<TagView>) -> bool {
    forall|i: int, j: int| 0 <= i <= j < tags.len() ==> tags[i].rank() <= tags[j].rank()
}

/// The metadata without tags.
pub open spec fn spec_empty() -> MetadataView {
    MetadataView { endian: Endian::Little, tags: Seq::empty() }
}

/// The metadata that a payload holds.
pub open spec fn spec_metadata_of(payload: Result<Seq<u8>, ExifError>) -> Result<
    MetadataView,
    ExifError,
> {
    match payload {
        Ok(bytes) => match spec_decode(bytes) {
            Ok((endian, tags)) => Ok(MetadataView { endian, tags }),
            Err(err) => Err(err),
        },
        Err(err) => Err(err),
    }
}

/// The metadata of an image of the given type. Only JPEG is read.
pub open spec fn spec_read_metadata(file: Seq<u8>, file_type: FileExtension) -> Result<
    MetadataView,
    ExifError,
> {
    match file_type {
        FileExtension::JPEG => spec_metadata_of(jpg::spec_read(file)),
        _ => Err(ExifError::UnsupportedFormat),
    }
}

/// What `policy` makes of metadata that was or was not read.
pub open spec fn spec_apply_policy(
    read: Result<MetadataView, ExifError>,
    policy: DecodePolicy,
) -> Result<MetadataView, ExifError> {
    match read {
        Ok(view) => Ok(view),
        Err(err) => match policy {
            DecodePolicy::Strict => Err(err),
            DecodePolicy::BestEffort => Ok(spec_empty()),
        },
    }
}

/// The metadata of an image of the given type, or what `policy` says where
/// it cannot be read. A file type that is not read is an error under every
/// policy.
pub open spec fn spec_new_from_vec(
    file: Seq<u8>,
    file_type: FileExtension,
    policy: DecodePolicy,
) -> Result<MetadataView, ExifError> {
    match file_type {
        FileExtension::JPEG => spec_apply_policy(spec_read_metadata(file, file_type), policy),
        _ => Err(ExifError::UnsupportedFormat),
    }
}

/// The metadata of the image that is stored under `path`, whose extension
/// says what type of file it is, and whose bytes are `file`.
pub open spec fn spec_new_from_path(path: Seq<u8>, file: Seq<u8>) -> Result<
    MetadataView,
    ExifError,
> {
    match spec_get_file_type(path) {
        Ok(file_type) => spec_new_from_vec(file, file_type, DecodePolicy::BestEffort),
        Err(err) => Err(err),
    }
}

/// Whether metadata that was made and the metadata that was to be made agree.
pub open spec fn metadata_is(
    got: Result<Metadata, ExifError>,
    want: Result<MetadataView, ExifError>,
) -> bool {
    match (got, want) {
        (Ok(metadata), Ok(view)) => metadata@ == view,
        (Err(e1), Err(e2)) => e1 == e2,
        _ => false,
    }
}

/// The bytes that stand for the tags in a file of the given type: for JPEG
/// the APP1 segment with the TIFF body. There are none for the other types,
/// and none where the tags cannot be written or are too long for a segment.
pub open spec fn spec_as_u8_vec(view: MetadataView, file_type: FileExtension) -> Seq<u8> {
    match file_type {
        FileExtension::JPEG => if encodable(view.tags) && spec_encode(view.tags, view.endian).len()
            <= jpg::MAX_EXIF_LEN {
            jpg::spec_app1_segment(spec_encode(view.tags, view.endian))
        } else {
            Seq::empty()
        },
        _ => Seq::empty(),
    }
}

/// The file of the given type without its metadata.
pub open spec fn spec_clear_metadata(file: Seq<u8>, file_type: FileExtension) -> Result<
    Seq<u8>,
    ExifError,
> {
    match file_type {
        FileExtension::JPEG => jpg::spec_clear(file),
        _ => Err(ExifError::UnsupportedFormat),
    }
}

/// The file of the given type with the tags in the place of its metadata.
pub open spec fn spec_write_to_vec(
    view: MetadataView,
    file: Seq<u8>,
    file_type: FileExtension,
) -> Result<Seq<u8>, ExifError> {
    match file_type {
        FileExtension::JPEG => if encodable(view.tags) {
            jpg::spec_write(file, spec_encode(view.tags, view.endian))
        } else {
            Err(ExifError::MalformedSegment)
        },
        _ => Err(ExifError::UnsupportedFormat),
    }
}

/// The file that is stored under `path`, without its metadata.
pub open spec fn spec_file_clear_metadata(path: Seq<u8>, file: Seq<u8>) -> Result<
    Seq<u8>,
    ExifError,
> {
    match spec_get_file_type(path) {
        Ok(file_type) => spec_clear_metadata(file, file_type),
        Err(err) => Err(err),
    }
}

/// The file that is stored under `path`, with the tags in the place of its
/// metadata.
pub open spec fn spec_write_to_file(view: MetadataView, path: Seq<u8>, file: Seq<u8>) -> Result<
    Seq<u8>,
    ExifError,
> {
    match spec_get_file_type(path) {
        Ok(file_type) => spec_write_to_vec(view, file, file_type),
        Err(err) => Err(err),
    }
}

/// What a function that changes a file leaves in the buffer and returns:
/// the new file, or the file as it was and the error.
pub open spec fn changed_to(
    want: Result<Seq<u8>, ExifError>,
    before: Seq<u8>,
    after: Seq<u8>,
    r: Result<(), ExifError>,
) -> bool {
    match want {
        Ok(file) => r is Ok && after == file,
        Err(err) => r == Err::<(), ExifError>(err) && after == before,
    }
}

/// Place of the tag in the order in which tags are kept.
fn rank_of(tag: &ExifTag) -> (rank: u8)
    ensures
        rank == tag@.rank(),
        rank < RANKS,
{
    let unknown: u8 = if tag.is_unknown() {
        1
    } else {
        0
    };
    2 * tag.get_group().rank() + unknown
}

/// Unfolds `keep` for the tags from index `i` on.
proof fn lemma_keep_step(tags: Seq<TagView>, id: u16, rank: nat, i: int)
    requires
        0 <= i < tags.len(),
    ensures
        keep(tags.skip(i), id, rank) == if tags[i].id != id && tags[i].rank() == rank {
            seq![tags[i]] + keep(tags.skip(i + 1), id, rank)
        } else {
            keep(tags.skip(i + 1), id, rank)
        },
{
    assert(tags.skip(i).drop_first() =~= tags.skip(i + 1));
}

/// Every tag that `keep` leaves has the place that was asked for.
proof fn lemma_keep_rank(tags: Seq<TagView>, id: u16, rank: nat)
    ensures
        forall|i: int|
            0 <= i < keep(tags, id, rank).len() ==> (#[trigger] keep(tags, id, rank)[i]).rank()
                == rank && keep(tags, id, rank)[i].id != id,
    decreases tags.len(),
{
    if tags.len() > 0 {
        lemma_keep_rank(tags.drop_first(), id, rank);
    }
}

/// The tags from the place `rank` on stand in order, none before `rank`, and
/// only `t` has the id of `t`.
proof fn lemma_set_from(tags: Seq<TagView>, t: TagView, rank: nat)
    ensures
        is_ordered(spec_set_from(tags, t, rank)),
        forall|i: int|
            0 <= i < spec_set_from(tags, t, rank).len() ==> {
                &&& rank <= (#[trigger] spec_set_from(tags, t, rank)[i]).rank()
                &&& spec_set_from(tags, t, rank)[i].id == t.id ==> spec_set_from(tags, t, rank)[i]
                    == t
            },
        rank <= t.rank() < RANKS ==> spec_get_tag(spec_set_from(tags, t, rank), t.id) == Some(t),
    decreases RANKS - rank,
{
    if rank < RANKS {
        lemma_keep_rank(tags, t.id, rank);
        lemma_set_from(tags, t, rank + 1);
        let kept = keep(tags, t.id, rank);
        let head = kept + placed(t, rank);
        let tail = spec_set_from(tags, t, rank + 1);
        let all = spec_set_from(tags, t, rank);
        assert(all == head + tail);
        assert forall|i: int| 0 <= i < all.len() implies {
            &&& rank <= (#[trigger] all[i]).rank()
            &&& all[i].id == t.id ==> all[i] == t
        } by {
            if i < kept.len() {
                assert(all[i] == kept[i]);
            } else if i < head.len() {
                assert(all[i] == t);
            } else {
                assert(all[i] == tail[i - head.len()]);
            }
        }
        assert forall|i: int, j: int| 0 <= i <= j < all.len() implies all[i].rank()
            <= all[j].rank() by {
            if i < head.len() {
                assert(all[i].rank() == rank) by {
                    if i < kept.len() {
                        assert(all[i] == kept[i]);
                    } else {
                        assert(all[i] == t);
                    }
                }
            } else {
                assert(all[i] == tail[i - head.len()]);
                assert(all[j] == tail[j - head.len()]);
            }
        }
        if rank <= t.rank() {
            lemma_get_skips(kept, t.id, placed(t, rank) + tail);
            assert(kept + (placed(t, rank) + tail) =~= all);
            if t.rank() == rank {
                assert((placed(t, rank) + tail)[0] == t);
            } else {
                assert(placed(t, rank) + tail =~= tail);
            }
        }
    }
}

/// Tags with another id in front do not change which tag is found.
proof fn lemma_get_skips(front: Seq<TagView>, id: u16, back: Seq<TagView>)
    requires
        forall|i: int| 0 <= i < front.len() ==> (#[trigger] front[i]).id != id,
    ensures
        spec_get_tag(front + back, id) == spec_get_tag(back, id),
    decreases front.len(),
{
    if front.len() == 0 {
        assert(front + back =~= back);
    } else {
        assert((front + back).drop_first() =~= front.drop_first() + back);
        assert((front + back)[0] == front[0]);
        lemma_get_skips(front.drop_first(), id, back);
    }
}

impl Metadata {
    /// The stored tag with the id of `input_tag`, if there is one.
    pub fn get_tag(&self, input_tag: &ExifTag) -> (tag: Option<&ExifTag>)
        ensures
            match tag {
                Some(found) => spec_get_tag(self@.tags, input_tag@.id) == Some(found@),
                None => spec_get_tag(self@.tags, input_tag@.id) is None,
            },
    {
        self.get_tag_by_hex(input_tag.as_u16())
    }

    /// The first stored tag with the given id, if there is one.
    pub fn get_tag_by_hex(&self, input_tag_hex: u16) -> (tag: Option<&ExifTag>)
        ensures
            match tag {
                Some(found) => spec_get_tag(self@.tags, input_tag_hex) == Some(found@),
                None => spec_get_tag(self@.tags, input_tag_hex) is None,
            },
    {
        let ghost tags = self@.tags;
        let mut i: usize = 0;
        assert(tags.skip(0) =~= tags);
        while i < self.data.len()
            invariant
                i <= self.data.len(),
                tags == tag_views(self.data@),
                spec_get_tag(tags, input_tag_hex) == spec_get_tag(
                    tags.skip(i as int),
                    input_tag_hex,
                ),
            decreases self.data.len() - i,
        {
            assert(tags.skip(i as int).drop_first() =~= tags.skip(i + 1));
            if self.data[i].as_u16() == input_tag_hex {
                return Some(&self.data[i]);
            }
            i += 1;
        }
        None
    }

    /// Sets the tag. Stored tags with the same id are replaced, and the tags
    /// are put in the order of their directories, in each directory the
    /// known tags before the unknown ones.
    pub fn set_tag(&mut self, input_tag: ExifTag)
        ensures
            final(self)@.endian == old(self)@.endian,
            final(self)@.tags == spec_set_tag(old(self)@.tags, input_tag@),
            is_ordered(final(self)@.tags),
            spec_get_tag(final(self)@.tags, input_tag@.id) == Some(input_tag@),
    {
        let ghost tags = self@.tags;
        let ghost t = input_tag@;
        let id = input_tag.as_u16();
        let input_rank = rank_of(&input_tag);
        let mut sorted: Vec<ExifTag> = Vec::new();
        let mut rank: u8 = 0;
        proof {
            assert(tag_views(sorted@) =~= Seq::<TagView>::empty());
            assert(tag_views(sorted@) + spec_set_from(tags, t, 0) =~= spec_set_tag(tags, t));
        }
        while rank < RANKS
            invariant
                rank <= RANKS,
                tags == tag_views(self.data@),
                tags == old(self)@.tags,
                self.endian == old(self).endian,
                t == input_tag@,
                id == t.id,
                input_rank == t.rank(),
                tag_views(sorted@) + spec_set_from(tags, t, rank as nat) == spec_set_tag(tags, t),
            decreases RANKS - rank,
        {
            let ghost tail = placed(t, rank as nat) + spec_set_from(tags, t, (rank + 1) as nat);
            let mut i: usize = 0;
            proof {
                assert(tags.skip(0) =~= tags);
                assert(tag_views(sorted@) + (keep(tags, id, rank as nat) + tail) =~= tag_views(
                    sorted@,
                ) + spec_set_from(tags, t, rank as nat));
            }
            while i < self.data.len()
                invariant
                    i <= self.data.len(),
                    rank < RANKS,
                    tags == tag_views(self.data@),
                    tag_views(sorted@) + (keep(tags.skip(i as int), id, rank as nat) + tail)
                        == spec_set_tag(tags, t),
                decreases self.data.len() - i,
            {
                let ghost before = tag_views(sorted@);
                let ghost rest = keep(tags.skip(i + 1), id, rank as nat);
                proof {
                    lemma_keep_step(tags, id, rank as nat, i as int);
                }
                let tag = &self.data[i];
                if tag.as_u16() != id && rank_of(tag) == rank {
                    let copy = tag.clone();
                    sorted.push(copy);
                    proof {
                        assert(tag_views(sorted@) =~= before + seq![tags[i as int]]);
                        assert(tag_views(sorted@) + (rest + tail) =~= before + ((seq![
                            tags[i as int],
                        ] + rest) + tail));
                    }
                }
                i += 1;
            }
            proof {
                assert(tags.skip(i as int) =~= Seq::<TagView>::empty());
                assert(tag_views(sorted@) + tail =~= tag_views(sorted@) + (Seq::<TagView>::empty()
                    + tail));
            }
            if input_rank == rank {
                let ghost before = tag_views(sorted@);
                let copy = input_tag.clone();
                sorted.push(copy);
                proof {
                    assert(tag_views(sorted@) =~= before + seq![t]);
                    assert(tag_views(sorted@) + spec_set_from(tags, t, (rank + 1) as nat)
                        =~= before + tail);
                }
            } else {
                proof {
                    assert(tag_views(sorted@) + spec_set_from(tags, t, (rank + 1) as nat)
                        =~= tag_views(sorted@) + tail);
                }
            }
            rank += 1;
        }
        proof {
            assert(tag_views(sorted@) + Seq::<TagView>::empty() =~= tag_views(sorted@));
            lemma_set_from(tags, t, 0);
        }
        self.data = sorted;
    }

    /// The bytes that stand for the tags in a file of the given type, for
    /// use with other code that puts them into the file.
    pub fn as_u8_vec(&self, for_file_type: FileExtension) -> (bytes: Vec<u8>)
        ensures
            bytes@ == spec_as_u8_vec(self@, for_file_type),
    {
        match for_file_type {
            FileExtension::JPEG => match self.encode_metadata_general() {
                Ok(general_encoded_metadata) => {
                    if general_encoded_metadata.len() <= jpg::MAX_EXIF_LEN {
                        jpg::as_u8_vec(&general_encoded_metadata)
                    } else {
                        Vec::new()
                    }
                },
                Err(_) => Vec::new(),
            },
            _ => Vec::new(),
        }
    }

    /// Removes the metadata from a file of the given type. The buffer stays
    /// as it was where an error is returned.
    pub fn clear_metadata(file_buffer: &mut Vec<u8>, file_type: FileExtension) -> (r: Result<
        (),
        ExifError,
    >)
        ensures
            changed_to(
                spec_clear_metadata(old(file_buffer)@, file_type),
                old(file_buffer)@,
                final(file_buffer)@,
                r,
            ),
    {
        match file_type {
            FileExtension::JPEG => jpg::clear_metadata(file_buffer),
            _ => Err(ExifError::UnsupportedFormat),
        }
    }

    /// Writes the tags into a file of the given type, in the place of the
    /// metadata that it holds. The buffer stays as it was where an error is
    /// returned.
    pub fn write_to_vec(&self, file_buffer: &mut Vec<u8>, file_type: FileExtension) -> (r: Result<
        (),
        ExifError,
    >)
        ensures
            changed_to(
                spec_write_to_vec(self@, old(file_buffer)@, file_type),
                old(file_buffer)@,
                final(file_buffer)@,
                r,
            ),
    {
        match file_type {
            FileExtension::JPEG => match self.encode_metadata_general() {
                Ok(general_encoded_metadata) => jpg::write_metadata(
                    file_buffer,
                    &general_encoded_metadata,
                ),
                Err(err) => Err(err),
            },
            _ => Err(ExifError::UnsupportedFormat),
        }
    }

    /// The metadata that a payload holds, or what `policy` says where there
    /// is no payload or it cannot be decoded.
    fn general_decoding_wrapper(
        raw_pre_decode_general: Result<Vec<u8>, ExifError>,
        policy: DecodePolicy,
    ) -> (r: Result<Metadata, ExifError>)
        ensures
            metadata_is(
                r,
                spec_apply_policy(
                    spec_metadata_of(
                        match raw_pre_decode_general {
                            Ok(bytes) => Ok(bytes@),
                            Err(err) => Err(err),
                        },
                    ),
                    policy,
                ),
            ),
    {
        let failure = match raw_pre_decode_general {
            Ok(pre_decode_general) => match Self::decode_metadata_general(&pre_decode_general) {
                Ok((endian, data)) => {
                    return Ok(Metadata { endian, data });
                },
                Err(err) => err,
            },
            Err(err) => err,
        };
        match policy {
            DecodePolicy::Strict => Err(failure),
            DecodePolicy::BestEffort => Ok(Metadata::new()),
        }
    }

    /// The metadata of an image of the given type that is held in memory.
    /// Where the metadata cannot be read, `policy` decides between the error
    /// and a new `Metadata` without tags. A file type that this library
    /// does not read is an error under both.
    pub fn new_from_vec_with_policy(
        file_buffer: &Vec<u8>,
        file_type: FileExtension,
        policy: DecodePolicy,
    ) -> (r: Result<Metadata, ExifError>)
        ensures
            metadata_is(r, spec_new_from_vec(file_buffer@, file_type, policy)),
    {
        let raw_pre_decode_general = match file_type {
            FileExtension::JPEG => jpg::read_metadata(file_buffer),
            _ => {
                return Err(ExifError::UnsupportedFormat);
            },
        };
        Self::general_decoding_wrapper(raw_pre_decode_general, policy)
    }

    /// The metadata of an image of the given type that is held in memory.
    /// Where the metadata cannot be read, the result is a new `Metadata`
    /// without tags. A file type that this library does not read is an
    /// error.
    pub fn new_from_vec(file_buffer: &Vec<u8>, file_type: FileExtension) -> (r: Result<
        Metadata,
        ExifError,
    >)
        ensures
            metadata_is(r, spec_new_from_vec(file_buffer@, file_type, DecodePolicy::BestEffort)),
    {
        Self::new_from_vec_with_policy(file_buffer, file_type, DecodePolicy::BestEffort)
    }
}

impl Metadata {
    /// The metadata of the image that is stored under `path` and whose
    /// bytes are `file_buffer`. The extension of the path says what type of
    /// file it is. Where the metadata cannot be read, the result is a new
    /// `Metadata` without tags; a path that names no type of file that is
    /// read here is an error.
    pub fn new_from_path(path: &str, file_buffer: &Vec<u8>) -> (r: Result<Metadata, ExifError>)
        ensures
            metadata_is(r, spec_new_from_path(encode_utf8(path@), file_buffer@)),
    {
        match get_file_type(path) {
            Ok(file_type) => Self::new_from_vec(file_buffer, file_type),
            Err(err) => Err(err),
        }
    }

    /// Removes the metadata from the image that is stored under `path` and
    /// whose bytes are `file_buffer`. The buffer stays as it was where an
    /// error is returned.
    pub fn file_clear_metadata(path: &str, file_buffer: &mut Vec<u8>) -> (r: Result<(), ExifError>)
        ensures
            changed_to(
                spec_file_clear_metadata(encode_utf8(path@), old(file_buffer)@),
                old(file_buffer)@,
                final(file_buffer)@,
                r,
            ),
    {
        match get_file_type(path) {
            Ok(file_type) => Self::clear_metadata(file_buffer, file_type),
            Err(err) => Err(err),
        }
    }

    /// Writes the tags into the image that is stored under `path` and whose
    /// bytes are `file_buffer`, in the place of the metadata that it holds.
    /// The buffer stays as it was where an error is returned.
    pub fn write_to_file(&self, path: &str, file_buffer: &mut Vec<u8>) -> (r: Result<(), ExifError>)
        ensures
            changed_to(
                spec_write_to_file(self@, encode_utf8(path@), old(file_buffer)@),
                old(file_buffer)@,
                final(file_buffer)@,
                r,
            ),
    {
        match get_file_type(path) {
            Ok(file_type) => self.write_to_vec(file_buffer, file_type),
            Err(err) => Err(err),
        }
    }
}

impl Clone for Metadata {
    fn clone(&self) -> (copy: Self)
        ensures
            copy@ == self@,
    {
        let mut data: Vec<ExifTag> = Vec::new();
        let mut i: usize = 0;
        while i < self.data.len()
            invariant
                i <= self.data.len(),
                data.len() == i,
                tag_views(data@) == tag_views(self.data@).take(i as int),
            decreases self.data.len() - i,
        {
            let ghost before = tag_views(data@);
            let copy = self.data[i].clone();
            data.push(copy);
            assert forall|k: int| 0 <= k < i + 1 implies tag_views(data@)[k] == tag_views(
                self.data@,
            )[k] by {
                if k < i {
                    assert(before[k] == tag_views(self.data@).take(i as int)[k]);
                }
            }
            assert(tag_views(data@) =~= tag_views(self.data@).take(i + 1));
            i += 1;
        }
        assert(tag_views(self.data@).take(i as int) =~= tag_views(self.data@));
        Metadata { data, endian: self.endian }
    }
}

} // verus!

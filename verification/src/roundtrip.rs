use crate::endian::{
    lemma_u16_roundtrip, lemma_u32_roundtrip, spec_exif_header, u16_from_bytes, u16_to_bytes,
    u32_from_bytes, u32_to_bytes, Endian,
};
use crate::error::ExifError;
use crate::exif_tag::{
    lemma_tag_roundtrip, lemma_tag_table, spec_subifd, ExifTagGroup, TagView, EXIF_OFFSET,
    INTEROP_OFFSET,
};
use crate::exif_tag_format::{lemma_format_code_roundtrip, ExifTagFormat};
use crate::ifd::{
    area_size, area_start, encodable, entries, entry_bytes, entry_count, entry_tail, ifd_size,
    lemma_block_entry, lemma_block_value, lemma_entry_len, lemma_ifd_len, lemma_link_entry_len,
    lemma_select, lemma_tag_wire_len, link_entry, out_of_line, select, spec_decode,
    spec_decode_entries, spec_decode_entry, spec_decode_ifd, spec_encode, spec_encode_ifd,
    value_offset, MAX_ENTRIES, MAX_SUBIFD_DEPTH,
};
use crate::filetype::FileExtension;
use crate::jpg;
use crate::metadata::{is_ordered, spec_read_metadata, spec_write_to_vec, MetadataView};
use crate::tag_value::zeros;
use vstd::prelude::*;

verus! {

/// The tags that are written when `tags` are encoded, in the order in which
/// they stand in the TIFF body: the writable tags of IFD0, of the Exif
/// directory and of the interoperability directory. Tags that are not
/// writable and tags of the GPS directory are not written.
pub open spec fn written_tags(tags: Seq<TagView>) -> Seq<TagView> {
    select(tags, ExifTagGroup::IFD0) + select(tags, ExifTagGroup::ExifIFD) + select(
        tags,
        ExifTagGroup::InteropIFD,
    )
}

/// Where the directory of `group` starts in the TIFF body that holds `tags`.
pub open spec fn directory_start(tags: Seq<TagView>, group: ExifTagGroup) -> int {
    let size0 = ifd_size(select(tags, ExifTagGroup::IFD0), Some(EXIF_OFFSET));
    let size1 = ifd_size(select(tags, ExifTagGroup::ExifIFD), Some(INTEROP_OFFSET));
    match group {
        ExifTagGroup::IFD0 => 8,
        ExifTagGroup::ExifIFD => (8 + size0) as int,
        _ => (8 + size0 + size1) as int,
    }
}

/// The offset tag that ends the directory of `group`, if it has one.
pub open spec fn directory_link(group: ExifTagGroup) -> Option<u16> {
    match group {
        ExifTagGroup::IFD0 => Some(EXIF_OFFSET),
        ExifTagGroup::ExifIFD => Some(INTEROP_OFFSET),
        _ => None,
    }
}

/// Whether every tag of `tags` that is written is canonical.
pub open spec fn all_canonical(tags: Seq<TagView>) -> bool {
    forall|i: int|
        0 <= i < tags.len() && (#[trigger] tags[i]).is_writable() ==> tags[i].is_canonical()
}

/// A writable tag with more than four bytes of value has no more components
/// than bytes, and one with at most four has at most four components.
proof fn lemma_components_bound(t: TagView)
    requires
        t.is_writable(),
    ensures
        t.components() <= t.byte_count(),
{
    lemma_format_code_roundtrip(t.format());
    let size = t.format().spec_bytes_per_component() as nat;
    assert(t.components() * size >= t.components()) by (nonlinear_arith)
        requires
            size >= 1,
    ;
}

/// A writable, canonical tag is no offset tag.
proof fn lemma_writable_is_no_link(t: TagView)
    requires
        t.is_writable(),
        t.is_canonical(),
    ensures
        spec_subifd(t.id) is None,
{
    lemma_tag_table(t.id);
}

/// The four parts of an entry.
proof fn lemma_entry_parts(body: Seq<u8>, at: int, t: TagView, e: Endian, offset: int)
    requires
        t.is_writable(),
        0 <= at,
        at + 12 <= body.len(),
        body.subrange(at, at + 12) == entry_bytes(t, e, offset),
    ensures
        body.subrange(at, at + 2) == u16_to_bytes(t.id, e),
        body.subrange(at + 2, at + 4) == u16_to_bytes(t.format().spec_as_u16(), e),
        body.subrange(at + 4, at + 8) == u32_to_bytes(t.components() as u32, e),
        body.subrange(at + 8, at + 12) == entry_tail(t, e, offset),
{
    let entry = entry_bytes(t, e, offset);
    lemma_entry_len(t, e, offset);
    lemma_u16_roundtrip(t.id, e);
    lemma_u16_roundtrip(t.format().spec_as_u16(), e);
    lemma_u32_roundtrip(t.components() as u32, e);
    assert(body.subrange(at, at + 2) =~= body.subrange(at, at + 12).subrange(0, 2));
    assert(body.subrange(at + 2, at + 4) =~= body.subrange(at, at + 12).subrange(2, 4));
    assert(body.subrange(at + 4, at + 8) =~= body.subrange(at, at + 12).subrange(4, 8));
    assert(body.subrange(at + 8, at + 12) =~= body.subrange(at, at + 12).subrange(8, 12));
    assert(entry.subrange(0, 2) =~= u16_to_bytes(t.id, e));
    assert(entry.subrange(2, 4) =~= u16_to_bytes(t.format().spec_as_u16(), e));
    assert(entry.subrange(4, 8) =~= u32_to_bytes(t.components() as u32, e));
    assert(entry.subrange(8, 12) =~= entry_tail(t, e, offset));
}

/// An entry that was written for a canonical tag is read as that tag.
proof fn lemma_decode_plain_entry(
    body: Seq<u8>,
    e: Endian,
    group: ExifTagGroup,
    at: int,
    t: TagView,
    offset: int,
    depth: nat,
)
    requires
        0 <= at,
        at + 12 <= body.len() <= u32::MAX,
        t.is_writable(),
        t.is_canonical(),
        t.group == group,
        body.subrange(at, at + 12) == entry_bytes(t, e, offset),
        out_of_line(t) ==> 0 <= offset && offset + t.byte_count() <= body.len() && body.subrange(
            offset,
            offset + t.byte_count(),
        ) == t.wire_bytes(e),
    ensures
        spec_decode_entry(body, group, at, e, depth) == Ok::<Seq<TagView>, ExifError>(seq![t]),
{
    lemma_entry_parts(body, at, t, e, offset);
    lemma_components_bound(t);
    lemma_tag_wire_len(t, e);
    lemma_writable_is_no_link(t);
    lemma_format_code_roundtrip(t.format());
    lemma_u16_roundtrip(t.id, e);
    lemma_u16_roundtrip(t.format().spec_as_u16(), e);
    let size = t.format().spec_bytes_per_component();
    let id = u16_from_bytes(body.subrange(at, at + 2), e);
    let code = u16_from_bytes(body.subrange(at + 2, at + 4), e);
    let count = u32_from_bytes(body.subrange(at + 4, at + 8), e);
    assert(id == t.id);
    assert(code == t.format().spec_as_u16());
    assert(t.components() <= u32::MAX);
    lemma_u32_roundtrip(t.components() as u32, e);
    assert(count == t.components());
    let byte_count = size * count;
    assert(byte_count == t.byte_count()) by (nonlinear_arith)
        requires
            byte_count == size * count,
            count == t.components(),
            t.byte_count() == t.components() * (size as nat),
    ;
    let from = if byte_count > 4 {
        u32_from_bytes(body.subrange(at + 8, at + 12), e) as int
    } else {
        at + 8
    };
    if out_of_line(t) {
        lemma_u32_roundtrip(offset as u32, e);
        assert(from == offset);
    } else {
        assert(from == at + 8);
        let tail = entry_tail(t, e, offset);
        assert(body.subrange(at + 8, at + 8 + byte_count) =~= body.subrange(
            at + 8,
            at + 12,
        ).subrange(0, byte_count));
        assert(tail.subrange(0, byte_count) =~= t.wire_bytes(e));
    }
    assert(body.subrange(from, from + byte_count) == t.wire_bytes(e));
    lemma_tag_roundtrip(t, e);
}

/// The entry of an offset tag is read as the tags of the directory that it
/// points to.
proof fn lemma_decode_link_entry(
    body: Seq<u8>,
    e: Endian,
    group: ExifTagGroup,
    at: int,
    id: u16,
    target: int,
    depth: nat,
    below: Seq<TagView>,
)
    requires
        0 <= at,
        at + 12 <= body.len(),
        0 <= target <= u32::MAX,
        body.subrange(at, at + 12) == link_entry(id, e, target),
        spec_subifd(id) is Some,
        depth > 0,
        spec_decode_ifd(body, spec_subifd(id)->Some_0, target, e, (depth - 1) as nat) == Ok::<
            Seq<TagView>,
            ExifError,
        >(below),
    ensures
        spec_decode_entry(body, group, at, e, depth) == Ok::<Seq<TagView>, ExifError>(below),
{
    let entry = link_entry(id, e, target);
    let code = ExifTagFormat::INT32U.spec_as_u16();
    lemma_link_entry_len(id, e, target);
    lemma_u16_roundtrip(id, e);
    lemma_u16_roundtrip(code, e);
    lemma_u32_roundtrip(1, e);
    lemma_u32_roundtrip(target as u32, e);
    lemma_format_code_roundtrip(ExifTagFormat::INT32U);
    assert(body.subrange(at, at + 2) =~= body.subrange(at, at + 12).subrange(0, 2));
    assert(body.subrange(at + 2, at + 4) =~= body.subrange(at, at + 12).subrange(2, 4));
    assert(body.subrange(at + 4, at + 8) =~= body.subrange(at, at + 12).subrange(4, 8));
    assert(body.subrange(at + 8, at + 12) =~= body.subrange(at, at + 12).subrange(8, 12));
    assert(entry.subrange(0, 2) =~= u16_to_bytes(id, e));
    assert(entry.subrange(2, 4) =~= u16_to_bytes(code, e));
    assert(entry.subrange(4, 8) =~= u32_to_bytes(1, e));
    assert(entry.subrange(8, 12) =~= u32_to_bytes(target as u32, e));
    assert(u16_from_bytes(body.subrange(at, at + 2), e) == id);
    assert(u16_from_bytes(body.subrange(at + 2, at + 4), e) == code);
    assert(u32_from_bytes(body.subrange(at + 4, at + 8), e) == 1);
    assert(u32_from_bytes(body.subrange(at + 8, at + 12), e) == target);
}

/// What is known of a directory that was written into a TIFF body.
pub open spec fn holds_directory(
    body: Seq<u8>,
    e: Endian,
    group: ExifTagGroup,
    base: int,
    ts: Seq<TagView>,
    subifd: Option<u16>,
) -> bool {
    &&& 0 <= base
    &&& base + ifd_size(ts, subifd) <= body.len() <= u32::MAX
    &&& 0 < entry_count(ts, subifd) <= MAX_ENTRIES
    &&& body.subrange(base, base + ifd_size(ts, subifd)) == spec_encode_ifd(
        ts,
        e,
        base,
        zeros(4),
        subifd,
    )
    &&& forall|k: int|
        0 <= k < ts.len() ==> {
            &&& (#[trigger] ts[k]).is_writable()
            &&& ts[k].is_canonical()
            &&& ts[k].group == group
        }
}

/// What is known of the directory that an offset tag points to: it lies
/// right behind the directory of the offset tag, and reading it gives
/// `below`.
pub open spec fn holds_below(
    body: Seq<u8>,
    e: Endian,
    base: int,
    ts: Seq<TagView>,
    subifd: Option<u16>,
    depth: nat,
    below: Seq<TagView>,
) -> bool {
    match subifd {
        Some(id) => {
            &&& spec_subifd(id) is Some
            &&& depth > 0
            &&& spec_decode_ifd(
                body,
                spec_subifd(id)->Some_0,
                base + ifd_size(ts, subifd),
                e,
                (depth - 1) as nat,
            ) == Ok::<Seq<TagView>, ExifError>(below)
        },
        None => below == Seq::<TagView>::empty(),
    }
}

/// The entries from `i` on of a directory that was written are read as the
/// tags from `i` on, followed by the tags of the directory below.
proof fn lemma_decode_entries(
    body: Seq<u8>,
    e: Endian,
    group: ExifTagGroup,
    base: int,
    ts: Seq<TagView>,
    subifd: Option<u16>,
    depth: nat,
    below: Seq<TagView>,
    i: int,
)
    requires
        holds_directory(body, e, group, base, ts, subifd),
        holds_below(body, e, base, ts, subifd, depth, below),
        0 <= i <= entry_count(ts, subifd),
    ensures
        spec_decode_entries(
            body,
            group,
            base,
            e,
            depth,
            i as nat,
            entry_count(ts, subifd),
        ) == Ok::<Seq<TagView>, ExifError>(
            if i <= ts.len() {
                ts.skip(i) + below
            } else {
                Seq::empty()
            },
        ),
    decreases entry_count(ts, subifd) - i,
{
    let n = entry_count(ts, subifd);
    let block = spec_encode_ifd(ts, e, base, zeros(4), subifd);
    let start = area_start(ts, base, subifd);
    let at = base + 2 + 12 * i;
    lemma_ifd_len(ts, e, base, zeros(4), subifd);
    if i >= n {
        if i <= ts.len() {
            assert(ts.skip(i) + below =~= Seq::<TagView>::empty());
        }
    } else {
        lemma_decode_entries(body, e, group, base, ts, subifd, depth, below, i + 1);
        assert(body.subrange(at, at + 12) =~= block.subrange(2 + 12 * i, 2 + 12 * i + 12));
        if i < ts.len() {
            let t = ts[i];
            let offset = value_offset(ts, start, i);
            lemma_block_entry(ts, e, base, subifd, i);
            if out_of_line(t) {
                lemma_block_value(ts, e, base, subifd, i);
                assert(body.subrange(offset, offset + t.byte_count()) =~= block.subrange(
                    offset - base,
                    offset - base + t.byte_count(),
                ));
            }
            lemma_decode_plain_entry(body, e, group, at, t, offset, depth);
            assert(seq![t] + (ts.skip(i + 1) + below) =~= ts.skip(i) + below);
        } else {
            let id = subifd->Some_0;
            let target = start + area_size(ts);
            lemma_u16_roundtrip(n as u16, e);
            crate::ifd::lemma_entries_len(ts, e, start);
            lemma_link_entry_len(id, e, target);
            assert(block.subrange(2 + 12 * i, 2 + 12 * i + 12) =~= link_entry(id, e, target));
            lemma_decode_link_entry(body, e, group, at, id, target, depth, below);
            assert(below + Seq::<TagView>::empty() =~= below);
            assert(ts.skip(i) + below =~= below);
        }
    }
}

/// A directory that was written is read as its tags, followed by the tags of
/// the directory below.
proof fn lemma_decode_directory(
    body: Seq<u8>,
    e: Endian,
    group: ExifTagGroup,
    base: int,
    ts: Seq<TagView>,
    subifd: Option<u16>,
    depth: nat,
    below: Seq<TagView>,
)
    requires
        holds_directory(body, e, group, base, ts, subifd),
        holds_below(body, e, base, ts, subifd, depth, below),
    ensures
        spec_decode_ifd(body, group, base, e, depth) == Ok::<Seq<TagView>, ExifError>(ts + below),
{
    let n = entry_count(ts, subifd);
    let block = spec_encode_ifd(ts, e, base, zeros(4), subifd);
    lemma_ifd_len(ts, e, base, zeros(4), subifd);
    lemma_u16_roundtrip(n as u16, e);
    assert(body.subrange(base, base + 2) =~= block.subrange(0, 2));
    assert(block.subrange(0, 2) =~= u16_to_bytes(n as u16, e));
    lemma_decode_entries(body, e, group, base, ts, subifd, depth, below, 0);
    assert(ts.skip(0) =~= ts);
}

/// Every selected tag is canonical where every written tag is.
proof fn lemma_select_canonical(tags: Seq<TagView>, group: ExifTagGroup)
    requires
        all_canonical(tags),
    ensures
        forall|k: int|
            0 <= k < select(tags, group).len() ==> (#[trigger] select(tags, group)[k]).is_writable()
                && select(tags, group)[k].is_canonical() && select(tags, group)[k].group == group,
    decreases tags.len(),
{
    if tags.len() > 0 {
        let rest = tags.drop_first();
        assert forall|i: int| 0 <= i < rest.len() && (#[trigger] rest[i]).is_writable() implies rest[
            i
        ].is_canonical() by {
            assert(rest[i] == tags[i + 1]);
        }
        lemma_select_canonical(rest, group);
    }
}

/// The TIFF body that holds `tags` is made of the header and the three
/// directories, each at its start.
pub proof fn lemma_body_layout(tags: Seq<TagView>, e: Endian)
    requires
        encodable(tags),
    ensures
        ({
            let body = spec_encode(tags, e);
            let t0 = select(tags, ExifTagGroup::IFD0);
            let t1 = select(tags, ExifTagGroup::ExifIFD);
            let t2 = select(tags, ExifTagGroup::InteropIFD);
            let base1 = directory_start(tags, ExifTagGroup::ExifIFD);
            let base2 = directory_start(tags, ExifTagGroup::InteropIFD);
            &&& body.len() <= u32::MAX
            &&& body.subrange(0, 8) == e.spec_header()
            &&& body.subrange(8, base1) == spec_encode_ifd(t0, e, 8, zeros(4), Some(EXIF_OFFSET))
            &&& body.subrange(base1, base2) == spec_encode_ifd(
                t1,
                e,
                base1,
                zeros(4),
                Some(INTEROP_OFFSET),
            )
            &&& t2.len() > 0 ==> {
                &&& body.len() == base2 + ifd_size(t2, None)
                &&& body.subrange(base2, body.len() as int) == spec_encode_ifd(
                    t2,
                    e,
                    base2,
                    zeros(4),
                    None,
                )
            }
            &&& t2.len() == 0 ==> body.len() == base2
            &&& 8 < base1 < base2 <= body.len()
        }),
{
    let body = spec_encode(tags, e);
    let t0 = select(tags, ExifTagGroup::IFD0);
    let t1 = select(tags, ExifTagGroup::ExifIFD);
    let t2 = select(tags, ExifTagGroup::InteropIFD);
    let base1 = directory_start(tags, ExifTagGroup::ExifIFD);
    let base2 = directory_start(tags, ExifTagGroup::InteropIFD);
    lemma_select(tags, ExifTagGroup::IFD0);
    lemma_select(tags, ExifTagGroup::ExifIFD);
    lemma_select(tags, ExifTagGroup::InteropIFD);
    lemma_ifd_len(t0, e, 8, zeros(4), Some(EXIF_OFFSET));
    lemma_ifd_len(t1, e, base1, zeros(4), Some(INTEROP_OFFSET));
    lemma_ifd_len(t2, e, base2, zeros(4), None);
    lemma_header_len(e);
    let b0 = spec_encode_ifd(t0, e, 8, zeros(4), Some(EXIF_OFFSET));
    let b1 = spec_encode_ifd(t1, e, base1, zeros(4), Some(INTEROP_OFFSET));
    assert(body.subrange(0, 8) =~= e.spec_header());
    assert(body.subrange(8, base1) =~= b0);
    assert(body.subrange(base1, base2) =~= b1);
    if t2.len() > 0 {
        let b2 = spec_encode_ifd(t2, e, base2, zeros(4), None);
        assert(body.subrange(base2, base2 + ifd_size(t2, None)) =~= b2);
    }
}

/// The TIFF header takes eight bytes: the mark, the number 42 and the offset
/// of IFD0.
pub proof fn lemma_header_len(e: Endian)
    ensures
        e.spec_header().len() == 8,
        e.spec_header().subrange(0, 2) == e.spec_mark(),
        e.spec_header().subrange(4, 8) == u32_to_bytes(8, e),
{
    lemma_u16_roundtrip(42, e);
    lemma_u32_roundtrip(8, e);
    assert(e.spec_header().subrange(0, 2) =~= e.spec_mark());
    assert(e.spec_header().subrange(4, 8) =~= u32_to_bytes(8, e));
}

/// Reading the TIFF body that holds `tags` gives the written tags.
proof fn lemma_decode_body(tags: Seq<TagView>, e: Endian)
    requires
        encodable(tags),
        all_canonical(tags),
    ensures
        spec_decode_ifd(
            spec_encode(tags, e),
            ExifTagGroup::IFD0,
            8,
            e,
            MAX_SUBIFD_DEPTH as nat,
        ) == Ok::<Seq<TagView>, ExifError>(written_tags(tags)),
{
    let body = spec_encode(tags, e);
    let t0 = select(tags, ExifTagGroup::IFD0);
    let t1 = select(tags, ExifTagGroup::ExifIFD);
    let t2 = select(tags, ExifTagGroup::InteropIFD);
    let base1 = directory_start(tags, ExifTagGroup::ExifIFD);
    let base2 = directory_start(tags, ExifTagGroup::InteropIFD);
    lemma_body_layout(tags, e);
    lemma_select_canonical(tags, ExifTagGroup::IFD0);
    lemma_select_canonical(tags, ExifTagGroup::ExifIFD);
    lemma_select_canonical(tags, ExifTagGroup::InteropIFD);
    // The interoperability directory.
    if t2.len() > 0 {
        lemma_decode_directory(
            body,
            e,
            ExifTagGroup::InteropIFD,
            base2,
            t2,
            None,
            0,
            Seq::empty(),
        );
        assert(t2 + Seq::<TagView>::empty() =~= t2);
    } else {
        assert(t2 =~= Seq::<TagView>::empty());
    }
    assert(spec_decode_ifd(body, ExifTagGroup::InteropIFD, base2, e, 0) == Ok::<
        Seq<TagView>,
        ExifError,
    >(t2));
    // The Exif directory, whose offset tag points to it.
    lemma_decode_directory(body, e, ExifTagGroup::ExifIFD, base1, t1, Some(INTEROP_OFFSET), 1, t2);
    // IFD0, whose offset tag points to the Exif directory.
    lemma_decode_directory(body, e, ExifTagGroup::IFD0, 8, t0, Some(EXIF_OFFSET), 2, t1 + t2);
    assert(t0 + (t1 + t2) =~= written_tags(tags));
}

/// Round trip: decoding the payload that was encoded from `tags` gives the
/// byte order and the tags that were written, with their ids, directories
/// and values, in the order of IFD0, Exif directory, interoperability
/// directory.
pub proof fn lemma_roundtrip(tags: Seq<TagView>, e: Endian)
    requires
        encodable(tags),
        all_canonical(tags),
    ensures
        spec_decode(spec_exif_header() + spec_encode(tags, e)) == Ok::<
            (Endian, Seq<TagView>),
            ExifError,
        >((e, written_tags(tags))),
{
    let body = spec_encode(tags, e);
    let payload = spec_exif_header() + body;
    lemma_body_layout(tags, e);
    lemma_header_len(e);
    lemma_decode_body(tags, e);
    lemma_u32_roundtrip(8, e);
    assert(payload.take(6) =~= spec_exif_header());
    assert(payload.skip(6) =~= body);
    assert(body.take(2) =~= body.subrange(0, 8).subrange(0, 2));
    assert(body.subrange(4, 8) =~= body.subrange(0, 8).subrange(4, 8));
    assert(body.take(2) == e.spec_mark());
    assert(Endian::Little.spec_mark()[0] != Endian::Big.spec_mark()[0]);
}

/// The tags of one directory among tags that stand in order are those tags,
/// and nothing stands between the directories.
proof fn lemma_ordered_split(tags: Seq<TagView>)
    requires
        is_ordered(tags),
        forall|i: int|
            0 <= i < tags.len() ==> (#[trigger] tags[i]).is_writable() && tags[i].group
                != ExifTagGroup::GPSIFD,
    ensures
        written_tags(tags) == tags,
    decreases tags.len(),
{
    if tags.len() == 0 {
        assert(written_tags(tags) =~= tags);
    } else {
        let rest = tags.drop_first();
        assert forall|i: int, j: int| 0 <= i <= j < rest.len() implies rest[i].rank()
            <= rest[j].rank() by {
            assert(rest[i] == tags[i + 1] && rest[j] == tags[j + 1]);
        }
        assert forall|i: int| 0 <= i < rest.len() implies (#[trigger] rest[i]).is_writable()
            && rest[i].group != ExifTagGroup::GPSIFD by {
            assert(rest[i] == tags[i + 1]);
        }
        lemma_ordered_split(rest);
        let first = tags[0];
        lemma_select_none_before(rest, first);
        let r0 = select(rest, ExifTagGroup::IFD0);
        let r1 = select(rest, ExifTagGroup::ExifIFD);
        let r2 = select(rest, ExifTagGroup::InteropIFD);
        assert(rest == r0 + r1 + r2);
        match first.group {
            ExifTagGroup::IFD0 => {
                assert(written_tags(tags) =~= seq![first] + (r0 + r1 + r2));
            },
            ExifTagGroup::ExifIFD => {
                assert(r0 =~= Seq::<TagView>::empty());
                assert(written_tags(tags) =~= seq![first] + (r0 + r1 + r2));
            },
            _ => {
                assert(r0 =~= Seq::<TagView>::empty());
                assert(r1 =~= Seq::<TagView>::empty());
                assert(written_tags(tags) =~= seq![first] + (r0 + r1 + r2));
            },
        }
        assert(seq![first] + rest =~= tags);
    }
}

/// Among tags that all stand behind `first` in the order, none belongs to a
/// directory before that of `first`.
proof fn lemma_select_none_before(rest: Seq<TagView>, first: TagView)
    requires
        forall|i: int| 0 <= i < rest.len() ==> first.rank() <= (#[trigger] rest[i]).rank(),
    ensures
        forall|group: ExifTagGroup|
            group.spec_rank() < first.group.spec_rank() ==> (#[trigger] select(rest, group)).len()
                == 0,
    decreases rest.len(),
{
    if rest.len() > 0 {
        let tail = rest.drop_first();
        assert forall|i: int| 0 <= i < tail.len() implies first.rank() <= (#[trigger] tail[
            i
        ]).rank() by {
            assert(tail[i] == rest[i + 1]);
        }
        lemma_select_none_before(tail, first);
        assert(first.rank() <= rest[0].rank());
        assert forall|group: ExifTagGroup|
            group.spec_rank() < first.group.spec_rank() implies (#[trigger] select(
            rest,
            group,
        )).len() == 0 by {
            assert(rest[0].group != group);
            assert(select(tail, group).len() == 0);
        }
    }
}

/// Round trip of tags in order: where all tags are writable, belong to one
/// of the three directories that are written, and stand in the order in
/// which `set_tag` keeps them, decoding the encoded payload gives the byte
/// order and the tags back, unchanged.
pub proof fn lemma_roundtrip_ordered(tags: Seq<TagView>, e: Endian)
    requires
        encodable(tags),
        is_ordered(tags),
        forall|i: int|
            0 <= i < tags.len() ==> (#[trigger] tags[i]).is_writable() && tags[i].is_canonical()
                && tags[i].group != ExifTagGroup::GPSIFD,
    ensures
        spec_decode(spec_exif_header() + spec_encode(tags, e)) == Ok::<
            (Endian, Seq<TagView>),
            ExifError,
        >((e, tags)),
{
    lemma_roundtrip(tags, e);
    lemma_ordered_split(tags);
}

/// Where the entry of the offset tag stands in a directory with the tags
/// `ts`: behind the entry count and the entries of the tags.
pub open spec fn link_position(ts: Seq<TagView>) -> int {
    2 + 12 * (ts.len() as int)
}

/// Offset areas do not overlap and lie within the payload. In the TIFF body
/// that holds `tags`, take two tags of one directory whose values do not fit
/// into their entries. The entry of the first holds the offset
/// `value_offset`, and the value stands at that offset. The value of the
/// second stands behind that of the first, and both lie between the start
/// and the end of their directory, which lies within the body. As the
/// three directories follow one another, values of different directories do
/// not overlap either.
pub proof fn lemma_payload_offsets(
    tags: Seq<TagView>,
    e: Endian,
    group: ExifTagGroup,
    i: int,
    j: int,
)
    requires
        encodable(tags),
        group != ExifTagGroup::GPSIFD,
        0 <= i <= j < select(tags, group).len(),
        out_of_line(select(tags, group)[i]),
        out_of_line(select(tags, group)[j]),
    ensures
        ({
            let body = spec_encode(tags, e);
            let ts = select(tags, group);
            let base = directory_start(tags, group);
            let end = base + ifd_size(ts, directory_link(group));
            let first = value_offset(ts, area_start(ts, base, directory_link(group)), i);
            let second = value_offset(ts, area_start(ts, base, directory_link(group)), j);
            &&& body.subrange(base + 2 + 12 * i + 8, base + 2 + 12 * i + 12) == u32_to_bytes(
                first as u32,
                e,
            )
            &&& body.subrange(first, first + ts[i].byte_count()) == ts[i].wire_bytes(e)
            &&& base < first
            &&& i < j ==> first + ts[i].byte_count() <= second
            &&& second + ts[j].byte_count() <= end
            &&& end <= body.len() <= u32::MAX
        }),
{
    let body = spec_encode(tags, e);
    lemma_body_layout(tags, e);
    lemma_select(tags, group);
    match group {
        ExifTagGroup::IFD0 => {
            lemma_offsets_in(body, e, 8, select(tags, group), Some(EXIF_OFFSET), i, j);
        },
        ExifTagGroup::ExifIFD => {
            lemma_offsets_in(
                body,
                e,
                directory_start(tags, group),
                select(tags, group),
                Some(INTEROP_OFFSET),
                i,
                j,
            );
        },
        _ => {
            lemma_offsets_in(
                body,
                e,
                directory_start(tags, group),
                select(tags, group),
                None,
                i,
                j,
            );
        },
    }
}

/// The offsets of one directory that a TIFF body holds at `base`.
proof fn lemma_offsets_in(
    body: Seq<u8>,
    e: Endian,
    base: int,
    ts: Seq<TagView>,
    link: Option<u16>,
    i: int,
    j: int,
)
    requires
        0 <= base,
        base + ifd_size(ts, link) <= body.len(),
        body.subrange(base, base + ifd_size(ts, link)) == spec_encode_ifd(
            ts,
            e,
            base,
            zeros(4),
            link,
        ),
        forall|k: int| 0 <= k < ts.len() ==> (#[trigger] ts[k]).is_writable(),
        0 <= i <= j < ts.len(),
        out_of_line(ts[i]),
        out_of_line(ts[j]),
    ensures
        ({
            let end = base + ifd_size(ts, link);
            let first = value_offset(ts, area_start(ts, base, link), i);
            let second = value_offset(ts, area_start(ts, base, link), j);
            &&& body.subrange(base + 2 + 12 * i + 8, base + 2 + 12 * i + 12) == u32_to_bytes(
                first as u32,
                e,
            )
            &&& body.subrange(first, first + ts[i].byte_count()) == ts[i].wire_bytes(e)
            &&& base < first
            &&& i < j ==> first + ts[i].byte_count() <= second
            &&& second + ts[j].byte_count() <= end
        }),
{
    let block = spec_encode_ifd(ts, e, base, zeros(4), link);
    let first = value_offset(ts, area_start(ts, base, link), i);
    crate::ifd::lemma_offset_areas_disjoint(ts, e, base, link, i, j);
    assert(body.subrange(base + 2 + 12 * i + 8, base + 2 + 12 * i + 12) =~= block.subrange(
        2 + 12 * i + 8,
        2 + 12 * i + 12,
    ));
    assert(body.subrange(first, first + ts[i].byte_count()) =~= block.subrange(
        first - base,
        first - base + ts[i].byte_count(),
    ));
}

/// The offsets of the directories lie within the payload. In the TIFF body
/// that holds `tags`, the last entry of IFD0 is the offset tag of the Exif
/// directory and holds the offset at which that directory starts; the last
/// entry of the Exif directory holds the offset at which the
/// interoperability directory starts, or would start. Both offsets lie
/// within the body.
pub proof fn lemma_directory_links(tags: Seq<TagView>, e: Endian)
    requires
        encodable(tags),
    ensures
        ({
            let body = spec_encode(tags, e);
            let t0 = select(tags, ExifTagGroup::IFD0);
            let t1 = select(tags, ExifTagGroup::ExifIFD);
            let base1 = directory_start(tags, ExifTagGroup::ExifIFD);
            let base2 = directory_start(tags, ExifTagGroup::InteropIFD);
            &&& body.subrange(8 + link_position(t0), 8 + link_position(t0) + 12) == link_entry(
                EXIF_OFFSET,
                e,
                base1,
            )
            &&& body.subrange(base1 + link_position(t1), base1 + link_position(t1) + 12)
                == link_entry(INTEROP_OFFSET, e, base2)
            &&& 8 < base1 < base2 <= body.len() <= u32::MAX
        }),
{
    let body = spec_encode(tags, e);
    let t0 = select(tags, ExifTagGroup::IFD0);
    let t1 = select(tags, ExifTagGroup::ExifIFD);
    let base1 = directory_start(tags, ExifTagGroup::ExifIFD);
    let base2 = directory_start(tags, ExifTagGroup::InteropIFD);
    lemma_body_layout(tags, e);
    lemma_select(tags, ExifTagGroup::IFD0);
    lemma_select(tags, ExifTagGroup::ExifIFD);
    lemma_block_link(t0, e, 8, EXIF_OFFSET);
    lemma_block_link(t1, e, base1, INTEROP_OFFSET);
    let b0 = spec_encode_ifd(t0, e, 8, zeros(4), Some(EXIF_OFFSET));
    let b1 = spec_encode_ifd(t1, e, base1, zeros(4), Some(INTEROP_OFFSET));
    assert(body.subrange(8 + link_position(t0), 8 + link_position(t0) + 12) =~= b0.subrange(
        link_position(t0),
        link_position(t0) + 12,
    ));
    assert(body.subrange(base1 + link_position(t1), base1 + link_position(t1) + 12)
        =~= b1.subrange(link_position(t1), link_position(t1) + 12));
}

/// The entry of the offset tag stands behind the entries of the tags, and
/// points to the end of the directory.
proof fn lemma_block_link(ts: Seq<TagView>, e: Endian, base: int, id: u16)
    requires
        forall|k: int| 0 <= k < ts.len() ==> (#[trigger] ts[k]).is_writable(),
    ensures
        spec_encode_ifd(ts, e, base, zeros(4), Some(id)).subrange(
            link_position(ts),
            link_position(ts) + 12,
        ) == link_entry(id, e, base + ifd_size(ts, Some(id))),
{
    let n = entry_count(ts, Some(id));
    let start = area_start(ts, base, Some(id));
    let target = start + area_size(ts);
    lemma_u16_roundtrip(n as u16, e);
    crate::ifd::lemma_entries_len(ts, e, start);
    lemma_link_entry_len(id, e, target);
    lemma_ifd_len(ts, e, base, zeros(4), Some(id));
    assert(spec_encode_ifd(ts, e, base, zeros(4), Some(id)).subrange(
        link_position(ts),
        link_position(ts) + 12,
    ) =~= link_entry(id, e, target));
}

/// Writing and reading a file. After the tags were written into a JPEG
/// buffer, reading the buffer gives the byte order and the written tags
/// back, whatever metadata the buffer held before.
pub proof fn lemma_write_then_read(view: MetadataView, file: Seq<u8>)
    requires
        spec_write_to_vec(view, file, FileExtension::JPEG) is Ok,
        all_canonical(view.tags),
    ensures
        spec_read_metadata(
            spec_write_to_vec(view, file, FileExtension::JPEG)->Ok_0,
            FileExtension::JPEG,
        ) == Ok::<MetadataView, ExifError>(
            MetadataView { endian: view.endian, tags: written_tags(view.tags) },
        ),
{
    let body = spec_encode(view.tags, view.endian);
    jpg::lemma_read_after_write(file, body);
    lemma_roundtrip(view.tags, view.endian);
}

} // verus!

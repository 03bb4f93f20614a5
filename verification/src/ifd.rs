use crate::endian::{
    lemma_u16_roundtrip, lemma_u32_roundtrip, spec_exif_header, u16_from_bytes, u16_to_bytes,
    u32_from_bytes, u32_to_bytes, Endian,
};
use crate::error::ExifError;
use crate::exif_tag::{spec_subifd, ExifTagGroup, TagView, EXIF_OFFSET, INTEROP_OFFSET};
use crate::exif_tag_format::ExifTagFormat;
use crate::tag_value::zeros;
use vstd::prelude::*;

verus! {

/// How many directories may hang below the first one: the Exif and GPS
/// directories below IFD0, and the interoperability directory below the Exif
/// directory.
pub const MAX_SUBIFD_DEPTH: usize = 2;

/// The least length of a payload: the EXIF preamble, the TIFF header, and an
/// empty directory, which is an entry count and a link.
pub const MIN_PAYLOAD_LENGTH: usize = 20;

/// The largest number of entries that the entry count of a directory holds.
pub const MAX_ENTRIES: usize = 0xffff;

/// The tags of `tags` that are written into the directory of `group`: the
/// writable ones of that group, in their order.
pub open spec fn select(tags: Seq<TagView>, group: ExifTagGroup) -> Seq<TagView>
    decreases tags.len(),
{
    if tags.len() == 0 {
        Seq::empty()
    } else if tags[0].is_writable() && tags[0].group == group {
        seq![tags[0]] + select(tags.drop_first(), group)
    } else {
        select(tags.drop_first(), group)
    }
}

/// Whether the value of the tag stands in the offset area: it does where it
/// takes more than the four bytes that an entry has for it.
pub open spec fn out_of_line(t: TagView) -> bool {
    t.byte_count() > 4
}

/// Number of bytes that the tag takes in the offset area.
pub open spec fn area_len(t: TagView) -> nat {
    if out_of_line(t) {
        t.byte_count()
    } else {
        0
    }
}

/// The last four bytes of the entry of `t`: the value, filled up with zero
/// bytes, or the offset of the value.
pub open spec fn entry_tail(t: TagView, e: Endian, offset: int) -> Seq<u8> {
    if out_of_line(t) {
        u32_to_bytes(offset as u32, e)
    } else {
        t.wire_bytes(e) + zeros((4 - t.byte_count()) as nat)
    }
}

/// The twelve bytes of the entry of `t`: id, format code, number of
/// components, and the value or, where the value stands in the offset area,
/// its offset.
pub open spec fn entry_bytes(t: TagView, e: Endian, offset: int) -> Seq<u8> {
    u16_to_bytes(t.id, e) + u16_to_bytes(t.format().spec_as_u16(), e) + u32_to_bytes(
        t.components() as u32,
        e,
    ) + entry_tail(t, e, offset)
}

/// The entries of `ts`, one after the other, where `offset` is the place in
/// the offset area that is free for the first of them.
pub open spec fn entries(ts: Seq<TagView>, e: Endian, offset: int) -> Seq<u8>
    decreases ts.len(),
{
    if ts.len() == 0 {
        Seq::empty()
    } else {
        entry_bytes(ts[0], e, offset) + entries(ts.drop_first(), e, offset + area_len(ts[0]))
    }
}

/// The offset area of `ts`: the values that do not fit into their entries,
/// one after the other.
pub open spec fn area(ts: Seq<TagView>, e: Endian) -> Seq<u8>
    decreases ts.len(),
{
    if ts.len() == 0 {
        Seq::empty()
    } else if out_of_line(ts[0]) {
        ts[0].wire_bytes(e) + area(ts.drop_first(), e)
    } else {
        area(ts.drop_first(), e)
    }
}

/// Number of bytes of the offset area of `ts`.
pub open spec fn area_size(ts: Seq<TagView>) -> nat
    decreases ts.len(),
{
    if ts.len() == 0 {
        0
    } else {
        area_len(ts[0]) + area_size(ts.drop_first())
    }
}

/// The entry of an offset tag: one 32-bit number, the offset of the
/// directory that it points to.
pub open spec fn link_entry(id: u16, e: Endian, target: int) -> Seq<u8> {
    u16_to_bytes(id, e) + u16_to_bytes(ExifTagFormat::INT32U.spec_as_u16(), e) + u32_to_bytes(1, e)
        + u32_to_bytes(target as u32, e)
}

/// Number of entries of a directory with the tags `ts` and, where `subifd`
/// names one, an offset tag.
pub open spec fn entry_count(ts: Seq<TagView>, subifd: Option<u16>) -> nat {
    ts.len() + if subifd is Some {
        1nat
    } else {
        0nat
    }
}

/// Number of bytes of a directory: entry count, entries, link, offset area.
pub open spec fn ifd_size(ts: Seq<TagView>, subifd: Option<u16>) -> nat {
    2 + 12 * entry_count(ts, subifd) + 4 + area_size(ts)
}

/// Whether a directory that starts at `base` can be written: its entry count
/// fits in 16 bits and its end, which bounds every offset in it, in 32 bits.
pub open spec fn ifd_fits(ts: Seq<TagView>, base: int, subifd: Option<u16>) -> bool {
    entry_count(ts, subifd) <= MAX_ENTRIES && base + ifd_size(ts, subifd) <= u32::MAX
}

/// The bytes of a directory that starts at offset `base` of the TIFF body and
/// holds the tags `ts`: the entry count, the entries of `ts`, the entry of
/// the offset tag `subifd`, which points to the end of this directory, the
/// link to the next directory, and the offset area.
pub open spec fn spec_encode_ifd(
    ts: Seq<TagView>,
    e: Endian,
    base: int,
    next_ifd_link: Seq<u8>,
    subifd: Option<u16>,
) -> Seq<u8> {
    let count = entry_count(ts, subifd);
    let area_start = base + 2 + 12 * count + 4;
    u16_to_bytes(count as u16, e) + entries(ts, e, area_start) + (match subifd {
        Some(id) => link_entry(id, e, area_start + area_size(ts)),
        None => Seq::empty(),
    }) + next_ifd_link + area(ts, e)
}

/// The TIFF body that holds the tags `tags`: the header, the directory IFD0
/// with a pointer to the Exif directory, the Exif directory with a pointer to
/// the interoperability directory, and that directory where it has tags.
pub open spec fn spec_encode(tags: Seq<TagView>, e: Endian) -> Seq<u8> {
    let t0 = select(tags, ExifTagGroup::IFD0);
    let t1 = select(tags, ExifTagGroup::ExifIFD);
    let t2 = select(tags, ExifTagGroup::InteropIFD);
    let base1 = 8 + ifd_size(t0, Some(EXIF_OFFSET));
    let base2 = base1 + ifd_size(t1, Some(INTEROP_OFFSET));
    e.spec_header() + spec_encode_ifd(t0, e, 8, zeros(4), Some(EXIF_OFFSET)) + spec_encode_ifd(
        t1,
        e,
        base1 as int,
        zeros(4),
        Some(INTEROP_OFFSET),
    ) + if t2.len() > 0 {
        spec_encode_ifd(t2, e, base2 as int, zeros(4), None)
    } else {
        Seq::empty()
    }
}

/// Whether the tags can be written as one TIFF body: every directory's entry
/// count fits in 16 bits, and the length of the body in 32 bits.
pub open spec fn encodable(tags: Seq<TagView>) -> bool {
    let t0 = select(tags, ExifTagGroup::IFD0);
    let t1 = select(tags, ExifTagGroup::ExifIFD);
    let t2 = select(tags, ExifTagGroup::InteropIFD);
    let base1 = 8 + ifd_size(t0, Some(EXIF_OFFSET));
    let base2 = base1 + ifd_size(t1, Some(INTEROP_OFFSET));
    &&& ifd_fits(t0, 8, Some(EXIF_OFFSET))
    &&& ifd_fits(t1, base1 as int, Some(INTEROP_OFFSET))
    &&& t2.len() > 0 ==> ifd_fits(t2, base2 as int, None)
}

/// `tail` behind `head`, or the error of `tail`.
pub open spec fn prepend(head: Seq<TagView>, tail: Result<Seq<TagView>, ExifError>) -> Result<
    Seq<TagView>,
    ExifError,
> {
    match tail {
        Ok(rest) => Ok(head + rest),
        Err(err) => Err(err),
    }
}

/// The tags of the directory at offset `start` of `data`, with those of the
/// directories that its offset tags point to in the place of the offset
/// tags. A directory that `data` does not hold whole has no tags. `depth`
/// says how many directories may hang below this one.
pub open spec fn spec_decode_ifd(
    data: Seq<u8>,
    group: ExifTagGroup,
    start: int,
    e: Endian,
    depth: nat,
) -> Result<Seq<TagView>, ExifError>
    decreases depth, 1nat, 0nat,
{
    if start < 0 || start + 2 > data.len() {
        Ok(Seq::empty())
    } else {
        let count = u16_from_bytes(data.subrange(start, start + 2), e);
        if start + 2 + 12 * count + 4 > data.len() {
            Ok(Seq::empty())
        } else {
            spec_decode_entries(data, group, start, e, depth, 0, count as nat)
        }
    }
}

/// The tags of the entries `i` to `n` of the directory at offset `start`.
/// An entry with a format code that is not known is an error, and so is a
/// value that `data` does not hold whole, an offset tag without an offset,
/// and one that hangs deeper than `depth` allows.
pub open spec fn spec_decode_entries(
    data: Seq<u8>,
    group: ExifTagGroup,
    start: int,
    e: Endian,
    depth: nat,
    i: nat,
    n: nat,
) -> Result<Seq<TagView>, ExifError>
    decreases depth, 0nat, n - i,
{
    if i >= n {
        Ok(Seq::empty())
    } else {
        match spec_decode_entry(data, group, start + 2 + 12 * i, e, depth) {
            Ok(head) => prepend(head, spec_decode_entries(data, group, start, e, depth, i + 1, n)),
            Err(err) => Err(err),
        }
    }
}

/// The tags that the entry at offset `at` stands for: the tag that it holds,
/// or, for an offset tag, the tags of the directory that it points to.
pub open spec fn spec_decode_entry(
    data: Seq<u8>,
    group: ExifTagGroup,
    at: int,
    e: Endian,
    depth: nat,
) -> Result<Seq<TagView>, ExifError>
    decreases depth, 0nat, 0nat,
{
    let id = u16_from_bytes(data.subrange(at, at + 2), e);
    let code = u16_from_bytes(data.subrange(at + 2, at + 4), e);
    let count = u32_from_bytes(data.subrange(at + 4, at + 8), e);
    match ExifTagFormat::spec_from_u16(code) {
        None => Err(ExifError::UnsupportedFormat),
        Some(format) => {
            let byte_count = format.spec_bytes_per_component() * count;
            let from = if byte_count > 4 {
                u32_from_bytes(data.subrange(at + 8, at + 12), e) as int
            } else {
                at + 8
            };
            if from + byte_count > data.len() {
                Err(ExifError::MalformedSegment)
            } else {
                match spec_subifd(id) {
                    Some(sub) => if byte_count < 4 || depth == 0 {
                        Err(ExifError::MalformedSegment)
                    } else {
                        spec_decode_ifd(
                            data,
                            sub,
                            u32_from_bytes(data.subrange(from, from + 4), e) as int,
                            e,
                            (depth - 1) as nat,
                        )
                    },
                    None => match TagView::from_wire(
                        id,
                        format,
                        data.subrange(from, from + byte_count),
                        e,
                        group,
                    ) {
                        Ok(tag) => Ok(seq![tag]),
                        Err(err) => Err(err),
                    },
                }
            }
        },
    }
}

/// The byte order and the tags that a payload holds: the EXIF preamble, the
/// TIFF header with the byte-order mark `II` or `MM` and the offset of IFD0,
/// and the directories.
pub open spec fn spec_decode(payload: Seq<u8>) -> Result<(Endian, Seq<TagView>), ExifError> {
    let body = payload.skip(6);
    if payload.len() < MIN_PAYLOAD_LENGTH {
        Err(ExifError::FormatError)
    } else if payload.take(6) != spec_exif_header() {
        Err(ExifError::FormatError)
    } else if body.take(2) == Endian::Little.spec_mark() {
        spec_decode_body(body, Endian::Little)
    } else if body.take(2) == Endian::Big.spec_mark() {
        spec_decode_body(body, Endian::Big)
    } else {
        Err(ExifError::FormatError)
    }
}

/// The tags that a TIFF body of the given byte order holds.
pub open spec fn spec_decode_body(body: Seq<u8>, e: Endian) -> Result<
    (Endian, Seq<TagView>),
    ExifError,
> {
    match spec_decode_ifd(
        body,
        ExifTagGroup::IFD0,
        u32_from_bytes(body.subrange(4, 8), e) as int,
        e,
        MAX_SUBIFD_DEPTH as nat,
    ) {
        Ok(tags) => Ok((e, tags)),
        Err(err) => Err(err),
    }
}

/// The area of `ts` has the size that `area_size` gives, where every tag of
/// `ts` is writable.
pub proof fn lemma_area_len(ts: Seq<TagView>, e: Endian)
    requires
        forall|i: int| 0 <= i < ts.len() ==> (#[trigger] ts[i]).is_writable(),
    ensures
        area(ts, e).len() == area_size(ts),
    decreases ts.len(),
{
    if ts.len() > 0 {
        lemma_tag_wire_len(ts[0], e);
        lemma_area_len(ts.drop_first(), e);
    }
}

/// The value of a writable tag takes as many bytes as its byte count says.
pub proof fn lemma_tag_wire_len(t: TagView, e: Endian)
    requires
        t.is_writable(),
    ensures
        t.wire_bytes(e).len() == t.byte_count(),
{
    crate::tag_value::lemma_wire_len(t.value, e, t.min_text());
}

/// An entry takes twelve bytes.
pub proof fn lemma_entry_len(t: TagView, e: Endian, offset: int)
    requires
        t.is_writable(),
    ensures
        entry_bytes(t, e, offset).len() == 12,
        entry_tail(t, e, offset).len() == 4,
{
    lemma_tag_wire_len(t, e);
    lemma_u16_roundtrip(t.id, e);
    lemma_u16_roundtrip(t.format().spec_as_u16(), e);
    lemma_u32_roundtrip(t.components() as u32, e);
    lemma_u32_roundtrip(offset as u32, e);
}

/// `n` entries take `12 * n` bytes.
pub proof fn lemma_entries_len(ts: Seq<TagView>, e: Endian, offset: int)
    requires
        forall|i: int| 0 <= i < ts.len() ==> (#[trigger] ts[i]).is_writable(),
    ensures
        entries(ts, e, offset).len() == 12 * ts.len(),
    decreases ts.len(),
{
    if ts.len() > 0 {
        lemma_entry_len(ts[0], e, offset);
        lemma_entries_len(ts.drop_first(), e, offset + area_len(ts[0]));
    }
}

/// Every selected tag is writable and of the group that was selected.
pub proof fn lemma_select(tags: Seq<TagView>, group: ExifTagGroup)
    ensures
        forall|i: int|
            0 <= i < select(tags, group).len() ==> (#[trigger] select(tags, group)[i]).is_writable()
                && select(tags, group)[i].group == group,
    decreases tags.len(),
{
    if tags.len() > 0 {
        lemma_select(tags.drop_first(), group);
    }
}

/// Where the value of the tag `ts[i]` stands in the TIFF body, if it does not
/// fit into its entry: behind the values of the tags before it, in an offset
/// area that starts at `area_start`.
pub open spec fn value_offset(ts: Seq<TagView>, area_start: int, i: int) -> int {
    area_start + area_size(ts.take(i))
}

/// Where the offset area of a directory starts that itself starts at `base`.
pub open spec fn area_start(ts: Seq<TagView>, base: int, subifd: Option<u16>) -> int {
    base + 2 + 12 * entry_count(ts, subifd) + 4
}

/// The offset area of the first `i + 1` tags is that of the first `i` and
/// what the tag `ts[i]` takes.
pub proof fn lemma_area_size_take(ts: Seq<TagView>, i: int)
    requires
        0 <= i < ts.len(),
    ensures
        area_size(ts.take(i + 1)) == area_size(ts.take(i)) + area_len(ts[i]),
        area_size(ts.take(i + 1)) <= area_size(ts),
        area_size(ts.take(ts.len() as int)) == area_size(ts),
    decreases i,
{
    assert(ts.take(ts.len() as int) =~= ts);
    let rest = ts.drop_first();
    assert(ts.take(i + 1).drop_first() =~= rest.take(i));
    if i == 0 {
        assert(ts.take(0) =~= Seq::<TagView>::empty());
        assert(rest.take(0) =~= Seq::<TagView>::empty());
        lemma_area_size_nonneg(rest);
    } else {
        assert(ts.take(i).drop_first() =~= rest.take(i - 1));
        lemma_area_size_take(rest, i - 1);
    }
}

/// An offset area has no negative size.
pub proof fn lemma_area_size_nonneg(ts: Seq<TagView>)
    ensures
        area_size(ts) >= 0,
{
}

/// The offset area grows with the number of tags: the value of a tag stands
/// behind the values of all tags before it.
pub proof fn lemma_area_size_monotonic(ts: Seq<TagView>, i: int, j: int)
    requires
        0 <= i <= j <= ts.len(),
    ensures
        area_size(ts.take(i)) <= area_size(ts.take(j)),
    decreases j - i,
{
    if i < j {
        lemma_area_size_take(ts, j - 1);
        lemma_area_size_monotonic(ts, i, j - 1);
    }
}

/// The entry of the tag `ts[i]` stands at byte `12 * i` of the entries, and
/// the offset in it is `value_offset`.
pub proof fn lemma_entry_at(ts: Seq<TagView>, e: Endian, start: int, i: int)
    requires
        0 <= i < ts.len(),
        forall|k: int| 0 <= k < ts.len() ==> (#[trigger] ts[k]).is_writable(),
    ensures
        entries(ts, e, start).len() == 12 * ts.len(),
        entries(ts, e, start).subrange(12 * i, 12 * i + 12) == entry_bytes(
            ts[i],
            e,
            value_offset(ts, start, i),
        ),
    decreases i,
{
    lemma_entries_len(ts, e, start);
    lemma_entry_len(ts[0], e, start);
    let rest = ts.drop_first();
    let all = entries(ts, e, start);
    lemma_entries_len(rest, e, start + area_len(ts[0]));
    if i == 0 {
        assert(ts.take(0) =~= Seq::<TagView>::empty());
        assert(all.subrange(0, 12) =~= entry_bytes(ts[0], e, start));
    } else {
        lemma_entry_at(rest, e, start + area_len(ts[0]), i - 1);
        assert(ts.take(i).drop_first() =~= rest.take(i - 1));
        assert(all.subrange(12 * i, 12 * i + 12) =~= entries(
            rest,
            e,
            start + area_len(ts[0]),
        ).subrange(12 * (i - 1), 12 * (i - 1) + 12));
    }
}

/// The value of the tag `ts[i]`, where it does not fit into its entry,
/// stands in the offset area behind the values of the tags before it.
pub proof fn lemma_value_at(ts: Seq<TagView>, e: Endian, i: int)
    requires
        0 <= i < ts.len(),
        forall|k: int| 0 <= k < ts.len() ==> (#[trigger] ts[k]).is_writable(),
        out_of_line(ts[i]),
    ensures
        area(ts, e).len() == area_size(ts),
        area_size(ts.take(i)) + ts[i].byte_count() <= area_size(ts),
        area(ts, e).subrange(
            area_size(ts.take(i)) as int,
            (area_size(ts.take(i)) + ts[i].byte_count()) as int,
        ) == ts[i].wire_bytes(e),
    decreases i,
{
    lemma_area_len(ts, e);
    lemma_tag_wire_len(ts[0], e);
    lemma_tag_wire_len(ts[i], e);
    lemma_area_size_take(ts, i);
    let rest = ts.drop_first();
    let all = area(ts, e);
    lemma_area_len(rest, e);
    if i == 0 {
        assert(ts.take(0) =~= Seq::<TagView>::empty());
        assert(all.subrange(0, ts[0].byte_count() as int) =~= ts[0].wire_bytes(e));
    } else {
        lemma_value_at(rest, e, i - 1);
        assert(ts.take(i).drop_first() =~= rest.take(i - 1));
        let skip = area_len(ts[0]) as int;
        let at = area_size(rest.take(i - 1)) as int;
        assert(area_size(ts.take(i)) == skip + at);
        assert(all.subrange(skip + at, skip + at + ts[i].byte_count()) =~= area(rest, e).subrange(
            at,
            at + ts[i].byte_count(),
        ));
    }
}

/// A directory takes `ifd_size` bytes.
pub proof fn lemma_ifd_len(
    ts: Seq<TagView>,
    e: Endian,
    base: int,
    next_ifd_link: Seq<u8>,
    subifd: Option<u16>,
)
    requires
        forall|k: int| 0 <= k < ts.len() ==> (#[trigger] ts[k]).is_writable(),
        next_ifd_link.len() == 4,
    ensures
        spec_encode_ifd(ts, e, base, next_ifd_link, subifd).len() == ifd_size(ts, subifd),
{
    let count = entry_count(ts, subifd);
    lemma_u16_roundtrip(count as u16, e);
    lemma_entries_len(ts, e, area_start(ts, base, subifd));
    lemma_area_len(ts, e);
    if let Some(id) = subifd {
        lemma_link_entry_len(id, e, area_start(ts, base, subifd) + area_size(ts));
    }
}

/// The entry of an offset tag takes twelve bytes.
pub proof fn lemma_link_entry_len(id: u16, e: Endian, target: int)
    ensures
        link_entry(id, e, target).len() == 12,
{
    lemma_u16_roundtrip(id, e);
    lemma_u16_roundtrip(ExifTagFormat::INT32U.spec_as_u16(), e);
    lemma_u32_roundtrip(1, e);
    lemma_u32_roundtrip(target as u32, e);
}

/// The offset areas of a directory do not overlap and lie within the
/// directory: in a directory that starts at `base`, the entry of a tag whose
/// value does not fit into it holds the offset `value_offset`, the value
/// stands at that offset, the value of a later tag stands behind it, and the
/// last value ends where the directory ends.
pub proof fn lemma_offset_areas_disjoint(
    ts: Seq<TagView>,
    e: Endian,
    base: int,
    subifd: Option<u16>,
    i: int,
    j: int,
)
    requires
        forall|k: int| 0 <= k < ts.len() ==> (#[trigger] ts[k]).is_writable(),
        0 <= i <= j < ts.len(),
        out_of_line(ts[i]),
        out_of_line(ts[j]),
    ensures
        ({
            let block = spec_encode_ifd(ts, e, base, zeros(4), subifd);
            let first = value_offset(ts, area_start(ts, base, subifd), i);
            let second = value_offset(ts, area_start(ts, base, subifd), j);
            &&& block.len() == ifd_size(ts, subifd)
            &&& block.subrange(2 + 12 * i + 8, 2 + 12 * i + 12) == u32_to_bytes(first as u32, e)
            &&& block.subrange(first - base, first - base + ts[i].byte_count()) == ts[i].wire_bytes(
                e,
            )
            &&& base < first
            &&& i < j ==> first + ts[i].byte_count() <= second
            &&& second + ts[j].byte_count() <= base + block.len()
        }),
{
    let start = area_start(ts, base, subifd);
    let block = spec_encode_ifd(ts, e, base, zeros(4), subifd);
    let first = value_offset(ts, start, i);
    lemma_ifd_len(ts, e, base, zeros(4), subifd);
    lemma_block_entry(ts, e, base, subifd, i);
    lemma_block_value(ts, e, base, subifd, i);
    lemma_area_size_take(ts, i);
    lemma_area_size_take(ts, j);
    if i < j {
        lemma_area_size_monotonic(ts, i + 1, j);
    }
    lemma_area_size_monotonic(ts, j + 1, ts.len() as int);
    assert(ts.take(ts.len() as int) =~= ts);
    lemma_entry_len(ts[i], e, first);
    let entry = entry_bytes(ts[i], e, first);
    lemma_u16_roundtrip(ts[i].id, e);
    lemma_u16_roundtrip(ts[i].format().spec_as_u16(), e);
    lemma_u32_roundtrip(ts[i].components() as u32, e);
    assert(entry.subrange(8, 12) =~= u32_to_bytes(first as u32, e));
    assert(block.subrange(2 + 12 * i + 8, 2 + 12 * i + 12) =~= block.subrange(
        2 + 12 * i,
        2 + 12 * i + 12,
    ).subrange(8, 12));
}

/// The entry of the tag `ts[i]` stands at byte `2 + 12 * i` of its directory.
pub proof fn lemma_block_entry(
    ts: Seq<TagView>,
    e: Endian,
    base: int,
    subifd: Option<u16>,
    i: int,
)
    requires
        forall|k: int| 0 <= k < ts.len() ==> (#[trigger] ts[k]).is_writable(),
        0 <= i < ts.len(),
    ensures
        spec_encode_ifd(ts, e, base, zeros(4), subifd).subrange(2 + 12 * i, 2 + 12 * i + 12)
            == entry_bytes(ts[i], e, value_offset(ts, area_start(ts, base, subifd), i)),
{
    let start = area_start(ts, base, subifd);
    let count = entry_count(ts, subifd);
    lemma_u16_roundtrip(count as u16, e);
    lemma_entry_at(ts, e, start, i);
    lemma_ifd_len(ts, e, base, zeros(4), subifd);
    let block = spec_encode_ifd(ts, e, base, zeros(4), subifd);
    assert(block.subrange(2 + 12 * i, 2 + 12 * i + 12) =~= entries(ts, e, start).subrange(
        12 * i,
        12 * i + 12,
    ));
}

/// The value of the tag `ts[i]`, where it does not fit into its entry,
/// stands at `value_offset` in the TIFF body, that is at `value_offset -
/// base` in its directory.
pub proof fn lemma_block_value(
    ts: Seq<TagView>,
    e: Endian,
    base: int,
    subifd: Option<u16>,
    i: int,
)
    requires
        forall|k: int| 0 <= k < ts.len() ==> (#[trigger] ts[k]).is_writable(),
        0 <= i < ts.len(),
        out_of_line(ts[i]),
    ensures
        ({
            let block = spec_encode_ifd(ts, e, base, zeros(4), subifd);
            let at = value_offset(ts, area_start(ts, base, subifd), i) - base;
            &&& 0 < at
            &&& at + ts[i].byte_count() <= block.len()
            &&& block.subrange(at, at + ts[i].byte_count()) == ts[i].wire_bytes(e)
        }),
{
    let start = area_start(ts, base, subifd);
    let count = entry_count(ts, subifd);
    lemma_u16_roundtrip(count as u16, e);
    lemma_entries_len(ts, e, start);
    lemma_value_at(ts, e, i);
    lemma_ifd_len(ts, e, base, zeros(4), subifd);
    if let Some(id) = subifd {
        lemma_link_entry_len(id, e, start + area_size(ts));
    }
    let block = spec_encode_ifd(ts, e, base, zeros(4), subifd);
    let at = value_offset(ts, start, i) - base;
    let inner = area_size(ts.take(i)) as int;
    assert(at == start - base + inner);
    assert(block.subrange(at, at + ts[i].byte_count()) =~= area(ts, e).subrange(
        inner,
        inner + ts[i].byte_count(),
    ));
}

} // verus!

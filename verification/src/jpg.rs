use crate::endian::{exif_header, push_u16, spec_exif_header, u16_to_bytes, Endian};
use crate::error::ExifError;
use crate::util::{insert_multiple_at, insert_seq, remove_range, remove_range_at};
use vstd::prelude::*;

verus! {

/// First byte of every marker.
pub const JPG_MARKER_PREFIX: u8 = 0xff;

/// Second byte of the start-of-image marker.
pub const JPG_SOI: u8 = 0xd8;

/// Second byte of the marker of the segment that carries EXIF data.
pub const JPG_APP1: u8 = 0xe1;

/// Second byte of the end-of-image marker.
pub const JPG_EOI: u8 = 0xd9;

/// Second byte of the start-of-scan marker.
pub const JPG_SOS: u8 = 0xda;

/// The longest payload that fits into one APP1 segment beside the two length
/// bytes and the EXIF preamble.
pub const MAX_EXIF_LEN: usize = 0xffff - 8;

/// Whether the buffer starts with the start-of-image marker.
pub open spec fn has_signature(s: Seq<u8>) -> bool {
    s.len() >= 2 && s[0] == JPG_MARKER_PREFIX && s[1] == JPG_SOI
}

/// The length field of the segment whose marker prefix is at `pos`: the two
/// bytes behind the marker, most significant first. It counts itself.
pub open spec fn segment_len(s: Seq<u8>, pos: int) -> int {
    s[pos + 2] * 0x100 + s[pos + 3]
}

/// Whether `b`, found behind a marker prefix inside scan data, belongs to the
/// data: the stuffed zero or one of the restart markers.
pub open spec fn is_scan_data(b: u8) -> bool {
    b == 0 || (0xd0 <= b && b <= 0xd7)
}

/// Whether a marker that ends scan data starts at `pos`.
pub open spec fn ends_scan(s: Seq<u8>, pos: int) -> bool {
    0 <= pos && pos + 1 < s.len() && s[pos] == JPG_MARKER_PREFIX && !is_scan_data(s[pos + 1])
}

/// Where the scan data that starts at `pos` ends: the first position from
/// `pos` on at which a marker starts that is not part of the data, or the
/// end of the buffer.
pub open spec fn spec_skip_ecs(s: Seq<u8>, pos: int) -> int
    decreases s.len() - pos,
{
    if pos < 0 || pos >= s.len() {
        s.len() as int
    } else if ends_scan(s, pos) {
        pos
    } else {
        spec_skip_ecs(s, pos + 1)
    }
}

/// The end of scan data is the least position at which a real marker starts:
/// a stuffed `FF 00` or a restart marker `FF D0` to `FF D7` before it is
/// passed over, and the end is exactly at the `FF` of the marker.
pub proof fn lemma_skip_ecs(s: Seq<u8>, pos: int)
    requires
        0 <= pos <= s.len(),
    ensures
        pos <= spec_skip_ecs(s, pos) <= s.len(),
        forall|q: int| pos <= q < spec_skip_ecs(s, pos) ==> !ends_scan(s, q),
        spec_skip_ecs(s, pos) < s.len() ==> ends_scan(s, spec_skip_ecs(s, pos)),
    decreases s.len() - pos,
{
    if pos < s.len() && !ends_scan(s, pos) {
        lemma_skip_ecs(s, pos + 1);
    }
}

/// A position with no marker before it and a marker at it, or the end of the
/// buffer with no marker before it, is the end of the scan data.
pub proof fn lemma_skip_ecs_unique(s: Seq<u8>, pos: int, end: int)
    requires
        0 <= pos <= end <= s.len(),
        forall|q: int| pos <= q < end ==> !ends_scan(s, q),
        end < s.len() ==> ends_scan(s, end),
    ensures
        spec_skip_ecs(s, pos) == end,
    decreases end - pos,
{
    if pos < end {
        lemma_skip_ecs_unique(s, pos + 1, end);
    }
}

/// The payload of the first APP1 segment that the scan from `pos` on finds.
/// The scan goes from segment to segment by their length fields, passes over
/// the scan data behind a start-of-scan segment, and fails with `NotFound` at
/// the end-of-image marker or at the end of the buffer.
pub open spec fn spec_read_from(s: Seq<u8>, pos: int) -> Result<Seq<u8>, ExifError>
    decreases s.len() - pos,
{
    if pos < 0 || pos + 1 >= s.len() {
        Err(ExifError::NotFound)
    } else if s[pos] != JPG_MARKER_PREFIX {
        spec_read_from(s, pos + 1)
    } else if s[pos + 1] == 0 {
        spec_read_from(s, pos + 2)
    } else if s[pos + 1] == JPG_EOI {
        Err(ExifError::NotFound)
    } else if pos + 4 > s.len() {
        Err(ExifError::MalformedSegment)
    } else if segment_len(s, pos) < 2 || pos + 2 + segment_len(s, pos) > s.len() {
        Err(ExifError::MalformedSegment)
    } else if s[pos + 1] == JPG_APP1 {
        Ok(s.subrange(pos + 4, pos + 2 + segment_len(s, pos)))
    } else if s[pos + 1] == JPG_SOS {
        proof {
            lemma_skip_ecs(s, pos + 2 + segment_len(s, pos));
        }
        spec_read_from(s, spec_skip_ecs(s, pos + 2 + segment_len(s, pos)))
    } else {
        spec_read_from(s, pos + 2 + segment_len(s, pos))
    }
}

/// The payload of the first APP1 segment of a JPEG buffer.
pub open spec fn spec_read(s: Seq<u8>) -> Result<Seq<u8>, ExifError> {
    if !has_signature(s) {
        Err(ExifError::InvalidSignature)
    } else {
        spec_read_from(s, 2)
    }
}

/// The buffer without the APP1 segments that the scan from `pos` on finds.
/// The scan looks at every byte: behind a marker prefix the next byte is a
/// marker. At an APP1 marker the whole segment is taken out and the scan goes
/// on where the segment began; at the end-of-image marker it stops. An APP1
/// segment with nothing behind its length field, or one that the buffer does
/// not hold to its end, is malformed.
pub open spec fn spec_clear_from(s: Seq<u8>, pos: int) -> Result<Seq<u8>, ExifError>
    decreases s.len() - pos,
{
    if pos < 0 || pos + 1 >= s.len() {
        Ok(s)
    } else if s[pos] != JPG_MARKER_PREFIX {
        spec_clear_from(s, pos + 1)
    } else if s[pos + 1] == JPG_EOI {
        Ok(s)
    } else if s[pos + 1] == JPG_APP1 {
        if pos + 4 > s.len() {
            Err(ExifError::MalformedSegment)
        } else if segment_len(s, pos) <= 2 || pos + 2 + segment_len(s, pos) > s.len() {
            Err(ExifError::MalformedSegment)
        } else {
            spec_clear_from(remove_range(s, pos, pos + 2 + segment_len(s, pos)), pos)
        }
    } else {
        spec_clear_from(s, pos + 2)
    }
}

/// A JPEG buffer without its APP1 segments.
pub open spec fn spec_clear(s: Seq<u8>) -> Result<Seq<u8>, ExifError> {
    if !has_signature(s) {
        Err(ExifError::InvalidSignature)
    } else {
        spec_clear_from(s, 2)
    }
}

/// Number of APP1 segments that the scan from `pos` on finds and removes.
pub open spec fn spec_count_app1_from(s: Seq<u8>, pos: int) -> nat
    decreases s.len() - pos,
{
    if pos < 0 || pos + 1 >= s.len() {
        0
    } else if s[pos] != JPG_MARKER_PREFIX {
        spec_count_app1_from(s, pos + 1)
    } else if s[pos + 1] == JPG_EOI {
        0
    } else if s[pos + 1] == JPG_APP1 {
        if pos + 4 > s.len() {
            0
        } else if segment_len(s, pos) <= 2 || pos + 2 + segment_len(s, pos) > s.len() {
            0
        } else {
            1 + spec_count_app1_from(remove_range(s, pos, pos + 2 + segment_len(s, pos)), pos)
        }
    } else {
        spec_count_app1_from(s, pos + 2)
    }
}

/// Number of well-formed APP1 segments of a JPEG buffer.
pub open spec fn spec_count_app1(s: Seq<u8>) -> nat {
    spec_count_app1_from(s, 2)
}

/// The APP1 segment that carries `payload`: marker, length, EXIF preamble,
/// payload.
pub open spec fn spec_app1_segment(payload: Seq<u8>) -> Seq<u8> {
    seq![JPG_MARKER_PREFIX, JPG_APP1] + u16_to_bytes(
        (2 + spec_exif_header().len() + payload.len()) as u16,
        Endian::Big,
    ) + spec_exif_header() + payload
}

/// A JPEG buffer in which the APP1 segment with `payload` has taken the place
/// of all APP1 segments: it stands right behind the signature.
pub open spec fn spec_write(s: Seq<u8>, payload: Seq<u8>) -> Result<Seq<u8>, ExifError> {
    if !has_signature(s) {
        Err(ExifError::InvalidSignature)
    } else if payload.len() > MAX_EXIF_LEN {
        Err(ExifError::MalformedSegment)
    } else {
        match spec_clear_from(s, 2) {
            Ok(cleared) => Ok(insert_seq(cleared, 2, spec_app1_segment(payload))),
            Err(e) => Err(e),
        }
    }
}

/// The APP1 segment that carries the given encoded metadata.
pub fn encode_metadata_jpg(exif_vec: &Vec<u8>) -> (jpg_exif: Vec<u8>)
    requires
        exif_vec.len() <= MAX_EXIF_LEN,
    ensures
        jpg_exif@ == spec_app1_segment(exif_vec@),
{
    let mut jpg_exif: Vec<u8> = Vec::new();
    let header = exif_header();
    let length: u16 = (2 + header.len() + exif_vec.len()) as u16;
    jpg_exif.push(JPG_MARKER_PREFIX);
    jpg_exif.push(JPG_APP1);
    assert(jpg_exif@ =~= seq![JPG_MARKER_PREFIX, JPG_APP1]);
    push_u16(&mut jpg_exif, length, Endian::Big);
    let at = jpg_exif.len();
    insert_multiple_at(&mut jpg_exif, at, &header);
    let at = jpg_exif.len();
    insert_multiple_at(&mut jpg_exif, at, exif_vec);
    assert(jpg_exif@ =~= spec_app1_segment(exif_vec@));
    jpg_exif
}

/// Whether the buffer starts with the JPEG signature `FF D8`.
pub fn check_signature(file_buffer: &Vec<u8>) -> (r: Result<(), ExifError>)
    ensures
        r is Ok <==> has_signature(file_buffer@),
        r is Err ==> r == Err::<(), ExifError>(ExifError::InvalidSignature),
{
    if file_buffer.len() >= 2 && file_buffer[0] == JPG_MARKER_PREFIX && file_buffer[1] == JPG_SOI {
        Ok(())
    } else {
        Err(ExifError::InvalidSignature)
    }
}

/// What `clear_metadata` leaves in the buffer and returns: the cleared
/// buffer, or the buffer as it was and the error.
pub open spec fn cleared(before: Seq<u8>, after: Seq<u8>, r: Result<(), ExifError>) -> bool {
    match spec_clear(before) {
        Ok(s) => r is Ok && after == s,
        Err(e) => r == Err::<(), ExifError>(e) && after == before,
    }
}

/// Removes every APP1 segment from a JPEG buffer. Where the buffer is no JPEG
/// or holds a malformed APP1 segment, it is left as it was.
pub fn clear_metadata(file_buffer: &mut Vec<u8>) -> (r: Result<(), ExifError>)
    ensures
        cleared(old(file_buffer)@, final(file_buffer)@, r),
{
    match check_signature(file_buffer) {
        Err(e) => {
            return Err(e);
        },
        Ok(_) => {},
    }
    let mut work: Vec<u8> = file_buffer.clone();
    let mut position: usize = 2;
    let mut previous_byte_was_marker_prefix = false;
    let ghost goal = spec_clear_from(file_buffer@, 2);
    while position < work.len()
        invariant
            2 <= position,
            has_signature(old(file_buffer)@),
            file_buffer@ == old(file_buffer)@,
            goal == spec_clear_from(old(file_buffer)@, 2),
            previous_byte_was_marker_prefix ==> position >= 3 && position <= work.len()
                && work@[position - 1] == JPG_MARKER_PREFIX,
            goal == spec_clear_from(
                work@,
                if previous_byte_was_marker_prefix {
                    position - 1
                } else {
                    position as int
                },
            ),
        decreases work.len() - position,
    {
        let byte = work[position];
        if previous_byte_was_marker_prefix {
            let start = position - 1;
            if byte == JPG_APP1 {
                if work.len() - position < 3 {
                    return Err(ExifError::MalformedSegment);
                }
                let length: usize = (work[position + 1] as usize) * 0x100 + (work[position
                    + 2] as usize);
                if length <= 2 || work.len() - position - 1 < length {
                    return Err(ExifError::MalformedSegment);
                }
                remove_range_at(&mut work, start, start + 2 + length);
                position = start;
                previous_byte_was_marker_prefix = false;
            } else if byte == JPG_EOI {
                assert(goal == Ok::<Seq<u8>, ExifError>(work@));
                *file_buffer = work;
                return Ok(());
            } else {
                previous_byte_was_marker_prefix = false;
                position += 1;
            }
        } else {
            previous_byte_was_marker_prefix = byte == JPG_MARKER_PREFIX;
            position += 1;
        }
    }
    *file_buffer = work;
    Ok(())
}

/// The APP1 segment that carries the given encoded metadata, for use with
/// other code that puts it into a JPEG file.
pub fn as_u8_vec(general_encoded_metadata: &Vec<u8>) -> (bytes: Vec<u8>)
    requires
        general_encoded_metadata.len() <= MAX_EXIF_LEN,
    ensures
        bytes@ == spec_app1_segment(general_encoded_metadata@),
{
    encode_metadata_jpg(general_encoded_metadata)
}

/// What `write_metadata` leaves in the buffer and returns: the buffer with
/// the new segment, or the buffer as it was and the error.
pub open spec fn written(
    before: Seq<u8>,
    payload: Seq<u8>,
    after: Seq<u8>,
    r: Result<(), ExifError>,
) -> bool {
    match spec_write(before, payload) {
        Ok(s) => r is Ok && after == s,
        Err(e) => r == Err::<(), ExifError>(e) && after == before,
    }
}

/// Replaces the APP1 segments of a JPEG buffer by one that carries the given
/// encoded metadata, right behind the signature. Where the buffer is no JPEG,
/// holds a malformed APP1 segment, or the metadata is too long for one
/// segment, the buffer is left as it was.
pub fn write_metadata(file_buffer: &mut Vec<u8>, general_encoded_metadata: &Vec<u8>) -> (r: Result<
    (),
    ExifError,
>)
    ensures
        written(old(file_buffer)@, general_encoded_metadata@, final(file_buffer)@, r),
{
    match check_signature(file_buffer) {
        Err(e) => {
            return Err(e);
        },
        Ok(_) => {},
    }
    if general_encoded_metadata.len() > MAX_EXIF_LEN {
        return Err(ExifError::MalformedSegment);
    }
    match clear_metadata(file_buffer) {
        Err(e) => {
            return Err(e);
        },
        Ok(_) => {},
    }
    proof {
        lemma_clear_keeps_prefix(old(file_buffer)@, 2);
    }
    let encoded_metadata = encode_metadata_jpg(general_encoded_metadata);
    insert_multiple_at(file_buffer, 2, &encoded_metadata);
    Ok(())
}

/// Passes over the scan data that starts at `position`, and returns where
/// the next segment starts: the position of a marker prefix that is followed
/// by neither a zero byte nor a restart marker, or the end of the buffer.
pub fn skip_ecs(file_buffer: &Vec<u8>, position: usize) -> (end: usize)
    requires
        position <= file_buffer.len(),
    ensures
        end == spec_skip_ecs(file_buffer@, position as int),
        position <= end <= file_buffer.len(),
        forall|q: int| position <= q < end ==> !ends_scan(file_buffer@, q),
        end < file_buffer.len() ==> ends_scan(file_buffer@, end as int),
{
    let mut cursor = position;
    let mut previous_byte_was_marker_prefix = false;
    while cursor < file_buffer.len()
        invariant
            position <= cursor <= file_buffer.len(),
            previous_byte_was_marker_prefix ==> cursor > position && file_buffer@[cursor - 1]
                == JPG_MARKER_PREFIX,
            forall|q: int|
                position <= q < cursor - (if previous_byte_was_marker_prefix {
                    1int
                } else {
                    0int
                }) ==> !ends_scan(file_buffer@, q),
        decreases file_buffer.len() - cursor,
    {
        let byte = file_buffer[cursor];
        if previous_byte_was_marker_prefix {
            if byte == 0 || (0xd0 <= byte && byte <= 0xd7) {
                previous_byte_was_marker_prefix = false;
            } else {
                proof {
                    lemma_skip_ecs_unique(file_buffer@, position as int, cursor - 1);
                }
                return cursor - 1;
            }
        } else {
            previous_byte_was_marker_prefix = byte == JPG_MARKER_PREFIX;
        }
        cursor += 1;
    }
    proof {
        lemma_skip_ecs_unique(file_buffer@, position as int, file_buffer.len() as int);
    }
    file_buffer.len()
}

/// Whether a payload that was read and the payload that was to be read agree.
pub open spec fn payload_is(
    got: Result<Vec<u8>, ExifError>,
    want: Result<Seq<u8>, ExifError>,
) -> bool {
    match (got, want) {
        (Ok(bytes), Ok(s)) => bytes@ == s,
        (Err(e1), Err(e2)) => e1 == e2,
        _ => false,
    }
}

/// Scans the segments from `start` on and returns the payload of the first
/// APP1 segment.
pub fn generic_read_metadata(file_buffer: &Vec<u8>, start: usize) -> (r: Result<Vec<u8>, ExifError>)
    requires
        start <= file_buffer.len(),
    ensures
        payload_is(r, spec_read_from(file_buffer@, start as int)),
{
    let len = file_buffer.len();
    let mut position = start;
    let mut previous_byte_was_marker_prefix = false;
    let ghost goal = spec_read_from(file_buffer@, start as int);
    while position < len
        invariant
            len == file_buffer.len(),
            start <= position <= len,
            goal == spec_read_from(file_buffer@, start as int),
            previous_byte_was_marker_prefix ==> position > start && file_buffer@[position - 1]
                == JPG_MARKER_PREFIX,
            goal == spec_read_from(
                file_buffer@,
                if previous_byte_was_marker_prefix {
                    position - 1
                } else {
                    position as int
                },
            ),
        decreases len - position,
    {
        let byte = file_buffer[position];
        if previous_byte_was_marker_prefix {
            if byte == 0 {
                previous_byte_was_marker_prefix = false;
                position += 1;
            } else if byte == JPG_EOI {
                return Err(ExifError::NotFound);
            } else {
                if len - position < 3 {
                    return Err(ExifError::MalformedSegment);
                }
                let length: usize = (file_buffer[position + 1] as usize) * 0x100 + (
                file_buffer[position + 2] as usize);
                if length < 2 || len - position - 1 < length {
                    return Err(ExifError::MalformedSegment);
                }
                let end = position + 1 + length;
                if byte == JPG_APP1 {
                    let mut payload: Vec<u8> = Vec::new();
                    let from = position + 3;
                    let mut i = from;
                    while i < end
                        invariant
                            from <= i <= end <= file_buffer.len(),
                            payload@ == file_buffer@.subrange(from as int, i as int),
                        decreases end - i,
                    {
                        payload.push(file_buffer[i]);
                        assert(payload@ =~= file_buffer@.subrange(from as int, i + 1));
                        i += 1;
                    }
                    return Ok(payload);
                } else if byte == JPG_SOS {
                    position = skip_ecs(file_buffer, end);
                } else {
                    position = end;
                }
                previous_byte_was_marker_prefix = false;
            }
        } else {
            previous_byte_was_marker_prefix = byte == JPG_MARKER_PREFIX;
            position += 1;
        }
    }
    Err(ExifError::NotFound)
}

/// The payload of the first APP1 segment of a JPEG buffer: the EXIF preamble
/// and the TIFF body behind it.
pub fn read_metadata(file_buffer: &Vec<u8>) -> (r: Result<Vec<u8>, ExifError>)
    ensures
        payload_is(r, spec_read(file_buffer@)),
{
    match check_signature(file_buffer) {
        Err(e) => {
            return Err(e);
        },
        Ok(_) => {},
    }
    generic_read_metadata(file_buffer, 2)
}

/// What the scan has passed stays: the cleared buffer holds the first `pos`
/// bytes of the buffer unchanged.
pub proof fn lemma_clear_keeps_prefix(s: Seq<u8>, pos: int)
    requires
        0 <= pos <= s.len(),
    ensures
        spec_clear_from(s, pos) matches Ok(r) ==> r.len() >= pos && r.subrange(0, pos)
            == s.subrange(0, pos),
    decreases s.len() - pos,
{
    if pos + 1 >= s.len() {
    } else if s[pos] != JPG_MARKER_PREFIX {
        lemma_clear_keeps_prefix(s, pos + 1);
        if let Ok(r) = spec_clear_from(s, pos) {
            assert(r.subrange(0, pos) =~= r.subrange(0, pos + 1).subrange(0, pos));
            assert(s.subrange(0, pos) =~= s.subrange(0, pos + 1).subrange(0, pos));
        }
    } else if s[pos + 1] == JPG_EOI {
    } else if s[pos + 1] == JPG_APP1 {
        if pos + 4 <= s.len() && segment_len(s, pos) > 2 && pos + 2 + segment_len(s, pos)
            <= s.len() {
            let cut = remove_range(s, pos, pos + 2 + segment_len(s, pos));
            lemma_clear_keeps_prefix(cut, pos);
            assert(cut.subrange(0, pos) =~= s.subrange(0, pos));
        }
    } else {
        lemma_clear_keeps_prefix(s, pos + 2);
        if let Ok(r) = spec_clear_from(s, pos) {
            assert(r.subrange(0, pos) =~= r.subrange(0, pos + 2).subrange(0, pos));
            assert(s.subrange(0, pos) =~= s.subrange(0, pos + 2).subrange(0, pos));
        }
    }
}

/// A cleared buffer holds no APP1 segment that the scan would find: clearing
/// it again from the same position changes nothing and removes nothing.
pub proof fn lemma_clear_from_idempotent(s: Seq<u8>, pos: int)
    requires
        0 <= pos <= s.len(),
    ensures
        spec_clear_from(s, pos) matches Ok(r) ==> spec_clear_from(r, pos) == Ok::<
            Seq<u8>,
            ExifError,
        >(r) && spec_count_app1_from(r, pos) == 0,
    decreases s.len() - pos,
{
    lemma_clear_keeps_prefix(s, pos);
    if pos + 1 >= s.len() {
    } else if s[pos] != JPG_MARKER_PREFIX {
        lemma_clear_from_idempotent(s, pos + 1);
        lemma_clear_keeps_prefix(s, pos + 1);
        if let Ok(r) = spec_clear_from(s, pos) {
            assert(r.subrange(0, pos + 1)[pos] == s.subrange(0, pos + 1)[pos]);
        }
    } else if s[pos + 1] == JPG_EOI {
    } else if s[pos + 1] == JPG_APP1 {
        if pos + 4 <= s.len() && segment_len(s, pos) > 2 && pos + 2 + segment_len(s, pos)
            <= s.len() {
            let cut = remove_range(s, pos, pos + 2 + segment_len(s, pos));
            lemma_clear_from_idempotent(cut, pos);
        }
    } else {
        lemma_clear_from_idempotent(s, pos + 2);
        lemma_clear_keeps_prefix(s, pos + 2);
        if let Ok(r) = spec_clear_from(s, pos) {
            assert(r.subrange(0, pos + 2)[pos] == s.subrange(0, pos + 2)[pos]);
            assert(r.subrange(0, pos + 2)[pos + 1] == s.subrange(0, pos + 2)[pos + 1]);
        }
    }
}

/// Clearing is idempotent: a buffer that was cleared is cleared, so clearing
/// it again gives the same buffer.
pub proof fn lemma_clear_idempotent(b: Seq<u8>)
    requires
        spec_clear(b) is Ok,
    ensures
        spec_clear(spec_clear(b)->Ok_0) == spec_clear(b),
        spec_count_app1(spec_clear(b)->Ok_0) == 0,
{
    lemma_clear_from_idempotent(b, 2);
    lemma_clear_keeps_prefix(b, 2);
    let r = spec_clear(b)->Ok_0;
    assert(r.subrange(0, 2)[0] == b.subrange(0, 2)[0]);
    assert(r.subrange(0, 2)[1] == b.subrange(0, 2)[1]);
}

/// Writing implies clearing: after a payload was written into a buffer,
/// reading gives the EXIF preamble followed by that payload, and the buffer
/// holds exactly one APP1 segment, whatever it held before.
pub proof fn lemma_read_after_write(b: Seq<u8>, payload: Seq<u8>)
    requires
        spec_write(b, payload) is Ok,
    ensures
        spec_read(spec_write(b, payload)->Ok_0) == Ok::<Seq<u8>, ExifError>(
            spec_exif_header() + payload,
        ),
        spec_count_app1(spec_write(b, payload)->Ok_0) == 1,
        spec_clear(spec_write(b, payload)->Ok_0) == spec_clear(b),
{
    let c = spec_clear_from(b, 2)->Ok_0;
    let segment = spec_app1_segment(payload);
    let w = spec_write(b, payload)->Ok_0;
    let total: int = (2 + spec_exif_header().len() + payload.len()) as int;
    lemma_clear_keeps_prefix(b, 2);
    lemma_clear_from_idempotent(b, 2);
    assert(c.subrange(0, 2)[0] == b.subrange(0, 2)[0]);
    assert(c.subrange(0, 2)[1] == b.subrange(0, 2)[1]);
    reveal(u16_to_bytes);
    assert(w == c.subrange(0, 2) + segment + c.subrange(2, c.len() as int));
    assert(segment.len() == 2 + total);
    assert(w[0] == c[0] && w[1] == c[1]);
    assert(w[2] == segment[0] && w[3] == segment[1] && w[4] == segment[2] && w[5] == segment[3]);
    crate::endian::lemma_u16_roundtrip(total as u16, Endian::Big);
    assert(segment_len(w, 2) == total);
    assert(w.subrange(6, 4 + total) =~= spec_exif_header() + payload);
    assert(remove_range(w, 2, 4 + total) =~= c);
}

} // verus!

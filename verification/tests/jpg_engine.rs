use little_exif::error::ExifError;
use little_exif::jpg;

fn exif_preamble() -> Vec<u8> {
    vec![0x45, 0x78, 0x69, 0x66, 0x00, 0x00]
}

#[test]
fn clear_yields_signature_and_end_marker() {
    // FF D8, an APP1 segment of declared length 8 around a two-byte dummy
    // payload, FF D9.
    let mut buffer: Vec<u8> = vec![
        0xff, 0xd8, 0xff, 0xe1, 0x00, 0x08, 0x45, 0x78, 0x69, 0x66, 0xaa, 0xbb, 0xff, 0xd9,
    ];
    assert_eq!(jpg::clear_metadata(&mut buffer), Ok(()));
    assert_eq!(buffer, vec![0xff, 0xd8, 0xff, 0xd9]);
}

#[test]
fn clear_is_idempotent_on_a_concrete_buffer() {
    let mut buffer: Vec<u8> = vec![
        0xff, 0xd8, 0xff, 0xe0, 0x00, 0x04, 0x01, 0x02, 0xff, 0xe1, 0x00, 0x05, 0x0a, 0x0b, 0x0c,
        0xff, 0xdb, 0x00, 0x03, 0x07, 0xff, 0xd9,
    ];
    assert_eq!(jpg::clear_metadata(&mut buffer), Ok(()));
    let once = buffer.clone();
    assert_eq!(
        once,
        vec![
            0xff, 0xd8, 0xff, 0xe0, 0x00, 0x04, 0x01, 0x02, 0xff, 0xdb, 0x00, 0x03, 0x07, 0xff,
            0xd9
        ]
    );
    assert_eq!(jpg::clear_metadata(&mut buffer), Ok(()));
    assert_eq!(buffer, once);
}

#[test]
fn clear_removes_every_app1_segment() {
    let mut buffer: Vec<u8> = vec![
        0xff, 0xd8, 0xff, 0xe1, 0x00, 0x03, 0x11, 0xff, 0xe1, 0x00, 0x04, 0x22, 0x33, 0xff, 0xc0,
        0x00, 0x02, 0xff, 0xe1, 0x00, 0x03, 0x44, 0xff, 0xd9,
    ];
    assert_eq!(jpg::clear_metadata(&mut buffer), Ok(()));
    assert_eq!(buffer, vec![0xff, 0xd8, 0xff, 0xc0, 0x00, 0x02, 0xff, 0xd9]);
}

#[test]
fn clear_stops_at_the_end_marker() {
    let mut buffer: Vec<u8> = vec![
        0xff, 0xd8, 0xff, 0xd9, 0xff, 0xe1, 0x00, 0x03, 0x11,
    ];
    assert_eq!(jpg::clear_metadata(&mut buffer), Ok(()));
    assert_eq!(buffer, vec![0xff, 0xd8, 0xff, 0xd9, 0xff, 0xe1, 0x00, 0x03, 0x11]);
}

#[test]
fn clear_takes_the_byte_behind_a_prefix_as_marker() {
    // FF FF E1: the second FF is the marker of the first, so E1 is data.
    let mut buffer: Vec<u8> = vec![0xff, 0xd8, 0xff, 0xff, 0xe1, 0x00, 0x03, 0x11, 0xff, 0xd9];
    let before = buffer.clone();
    assert_eq!(jpg::clear_metadata(&mut buffer), Ok(()));
    assert_eq!(buffer, before);
}

#[test]
fn clear_without_end_marker_runs_to_the_end() {
    let mut buffer: Vec<u8> = vec![0xff, 0xd8, 0x01, 0xff, 0xe1, 0x00, 0x03, 0x11, 0x02];
    assert_eq!(jpg::clear_metadata(&mut buffer), Ok(()));
    assert_eq!(buffer, vec![0xff, 0xd8, 0x01, 0x02]);
}

#[test]
fn clear_rejects_a_wrong_signature() {
    let mut buffer: Vec<u8> = vec![0x89, 0x50, 0x4e, 0x47];
    assert_eq!(jpg::clear_metadata(&mut buffer), Err(ExifError::InvalidSignature));
    assert_eq!(buffer, vec![0x89, 0x50, 0x4e, 0x47]);
    let mut short: Vec<u8> = vec![0xff];
    assert_eq!(jpg::clear_metadata(&mut short), Err(ExifError::InvalidSignature));
    let mut empty: Vec<u8> = Vec::new();
    assert_eq!(jpg::clear_metadata(&mut empty), Err(ExifError::InvalidSignature));
}

#[test]
fn clear_rejects_an_app1_segment_without_payload() {
    let mut buffer: Vec<u8> = vec![0xff, 0xd8, 0xff, 0xe1, 0x00, 0x02, 0xff, 0xd9];
    let before = buffer.clone();
    assert_eq!(jpg::clear_metadata(&mut buffer), Err(ExifError::MalformedSegment));
    assert_eq!(buffer, before);
}

#[test]
fn clear_rejects_a_truncated_app1_segment() {
    let mut buffer: Vec<u8> = vec![0xff, 0xd8, 0xff, 0xe1, 0x00, 0x09, 0x01, 0x02];
    let before = buffer.clone();
    assert_eq!(jpg::clear_metadata(&mut buffer), Err(ExifError::MalformedSegment));
    assert_eq!(buffer, before);
    let mut no_length: Vec<u8> = vec![0xff, 0xd8, 0xff, 0xe1, 0x00];
    assert_eq!(jpg::clear_metadata(&mut no_length), Err(ExifError::MalformedSegment));
}

#[test]
fn clear_leaves_the_buffer_when_a_later_segment_is_malformed() {
    let mut buffer: Vec<u8> = vec![
        0xff, 0xd8, 0xff, 0xe1, 0x00, 0x03, 0x11, 0xff, 0xe1, 0x00, 0x20, 0x22,
    ];
    let before = buffer.clone();
    assert_eq!(jpg::clear_metadata(&mut buffer), Err(ExifError::MalformedSegment));
    assert_eq!(buffer, before);
}

#[test]
fn read_returns_the_payload_of_the_first_app1_segment() {
    let buffer: Vec<u8> = vec![
        0xff, 0xd8, 0xff, 0xe0, 0x00, 0x04, 0xff, 0xe1, 0xff, 0xe1, 0x00, 0x05, 0x0a, 0x0b, 0x0c,
        0xff, 0xe1, 0x00, 0x03, 0x0d, 0xff, 0xd9,
    ];
    // The APP0 segment holds FF E1 as data; the scan passes over it.
    assert_eq!(jpg::read_metadata(&buffer), Ok(vec![0x0a, 0x0b, 0x0c]));
}

#[test]
fn read_of_an_empty_app1_segment_is_empty() {
    let buffer: Vec<u8> = vec![0xff, 0xd8, 0xff, 0xe1, 0x00, 0x02, 0xff, 0xd9];
    assert_eq!(jpg::read_metadata(&buffer), Ok(Vec::new()));
}

#[test]
fn read_fails_at_the_end_marker() {
    let buffer: Vec<u8> = vec![0xff, 0xd8, 0xff, 0xd9, 0xff, 0xe1, 0x00, 0x03, 0x11];
    assert_eq!(jpg::read_metadata(&buffer), Err(ExifError::NotFound));
}

#[test]
fn read_fails_at_the_end_of_the_buffer() {
    let buffer: Vec<u8> = vec![0xff, 0xd8, 0xff, 0xe0, 0x00, 0x03, 0x01, 0x02, 0x03];
    assert_eq!(jpg::read_metadata(&buffer), Err(ExifError::NotFound));
    let signature_only: Vec<u8> = vec![0xff, 0xd8];
    assert_eq!(jpg::read_metadata(&signature_only), Err(ExifError::NotFound));
    let lone_prefix: Vec<u8> = vec![0xff, 0xd8, 0xff];
    assert_eq!(jpg::read_metadata(&lone_prefix), Err(ExifError::NotFound));
}

#[test]
fn read_rejects_a_wrong_signature() {
    let buffer: Vec<u8> = vec![0xff, 0xd9, 0xff, 0xe1, 0x00, 0x03, 0x11];
    assert_eq!(jpg::read_metadata(&buffer), Err(ExifError::InvalidSignature));
    let empty: Vec<u8> = Vec::new();
    assert_eq!(jpg::read_metadata(&empty), Err(ExifError::InvalidSignature));
}

#[test]
fn read_rejects_truncated_segments() {
    let no_length: Vec<u8> = vec![0xff, 0xd8, 0xff, 0xe1, 0x00];
    assert_eq!(jpg::read_metadata(&no_length), Err(ExifError::MalformedSegment));
    let short_payload: Vec<u8> = vec![0xff, 0xd8, 0xff, 0xe1, 0x00, 0x05, 0x01];
    assert_eq!(jpg::read_metadata(&short_payload), Err(ExifError::MalformedSegment));
    let length_below_two: Vec<u8> = vec![0xff, 0xd8, 0xff, 0xe0, 0x00, 0x01, 0xff, 0xd9];
    assert_eq!(jpg::read_metadata(&length_below_two), Err(ExifError::MalformedSegment));
}

#[test]
fn read_passes_over_a_zero_behind_a_prefix() {
    let buffer: Vec<u8> = vec![0xff, 0xd8, 0xff, 0x00, 0xff, 0xe1, 0x00, 0x03, 0x7a, 0xff, 0xd9];
    assert_eq!(jpg::read_metadata(&buffer), Ok(vec![0x7a]));
}

#[test]
fn read_passes_over_scan_data() {
    // SOS segment, then scan data with a stuffed FF 00, a restart marker
    // FF D4 and bytes that look like an APP1 marker behind a stuffed byte,
    // then a real APP1 segment.
    let buffer: Vec<u8> = vec![
        0xff, 0xd8, 0xff, 0xda, 0x00, 0x04, 0x01, 0x02, 0x11, 0xff, 0x00, 0xe1, 0x22, 0xff, 0xd4,
        0x33, 0xff, 0xe1, 0x00, 0x04, 0x0a, 0x0b, 0xff, 0xd9,
    ];
    assert_eq!(jpg::read_metadata(&buffer), Ok(vec![0x0a, 0x0b]));
}

#[test]
fn skip_ecs_stops_at_a_real_marker() {
    let buffer: Vec<u8> = vec![0x11, 0xff, 0x00, 0x22, 0xff, 0xd4, 0x33, 0xff, 0xc0, 0x00, 0x02];
    // FF 00 and FF D4 are data; FF C0 ends the scan data, and the cursor
    // stands at its FF.
    assert_eq!(jpg::skip_ecs(&buffer, 0), 7);
    assert_eq!(jpg::skip_ecs(&buffer, 5), 7);
    assert_eq!(jpg::skip_ecs(&buffer, 7), 7);
    assert_eq!(jpg::skip_ecs(&buffer, 8), 11);
}

#[test]
fn skip_ecs_passes_over_every_restart_marker() {
    let buffer: Vec<u8> = vec![
        0xff, 0xd0, 0xff, 0xd1, 0xff, 0xd2, 0xff, 0xd3, 0xff, 0xd4, 0xff, 0xd5, 0xff, 0xd6, 0xff,
        0xd7, 0xff, 0xd9,
    ];
    assert_eq!(jpg::skip_ecs(&buffer, 0), 16);
}

#[test]
fn skip_ecs_without_marker_runs_to_the_end() {
    let buffer: Vec<u8> = vec![0x01, 0xff, 0x00, 0x02, 0xff];
    assert_eq!(jpg::skip_ecs(&buffer, 0), 5);
    assert_eq!(jpg::skip_ecs(&buffer, 5), 5);
    let empty: Vec<u8> = Vec::new();
    assert_eq!(jpg::skip_ecs(&empty, 0), 0);
}

#[test]
fn encode_metadata_jpg_wraps_the_payload() {
    let payload: Vec<u8> = vec![0x49, 0x49, 0x2a, 0x00];
    let expected: Vec<u8> = vec![
        0xff, 0xe1, 0x00, 0x0c, 0x45, 0x78, 0x69, 0x66, 0x00, 0x00, 0x49, 0x49, 0x2a, 0x00,
    ];
    assert_eq!(jpg::encode_metadata_jpg(&payload), expected);
    assert_eq!(jpg::as_u8_vec(&payload), expected);
}

#[test]
fn encode_metadata_jpg_takes_the_longest_payload() {
    let payload: Vec<u8> = vec![0x5a; jpg::MAX_EXIF_LEN];
    let segment = jpg::encode_metadata_jpg(&payload);
    assert_eq!(segment.len(), 0xffff + 2);
    assert_eq!(segment[2], 0xff);
    assert_eq!(segment[3], 0xff);
}

#[test]
fn write_then_read_gives_preamble_and_payload() {
    let mut buffer: Vec<u8> = vec![
        0xff, 0xd8, 0xff, 0xe1, 0x00, 0x04, 0x01, 0x02, 0xff, 0xdb, 0x00, 0x03, 0x07, 0xff, 0xe1,
        0x00, 0x03, 0x09, 0xff, 0xd9,
    ];
    let payload: Vec<u8> = vec![0x4d, 0x4d, 0x00, 0x2a, 0x00, 0x00, 0x00, 0x08];
    assert_eq!(jpg::write_metadata(&mut buffer, &payload), Ok(()));
    let mut expected_read = exif_preamble();
    expected_read.extend_from_slice(&payload);
    assert_eq!(jpg::read_metadata(&buffer), Ok(expected_read));
    assert_eq!(
        buffer,
        vec![
            0xff, 0xd8, 0xff, 0xe1, 0x00, 0x10, 0x45, 0x78, 0x69, 0x66, 0x00, 0x00, 0x4d, 0x4d,
            0x00, 0x2a, 0x00, 0x00, 0x00, 0x08, 0xff, 0xdb, 0x00, 0x03, 0x07, 0xff, 0xd9
        ]
    );
    // Exactly one APP1 segment: clearing gives what clearing the first
    // buffer gives.
    assert_eq!(jpg::clear_metadata(&mut buffer), Ok(()));
    assert_eq!(buffer, vec![0xff, 0xd8, 0xff, 0xdb, 0x00, 0x03, 0x07, 0xff, 0xd9]);
}

#[test]
fn write_rejects_what_clear_rejects() {
    let payload: Vec<u8> = vec![0x01];
    let mut no_jpeg: Vec<u8> = vec![0x00, 0x01, 0x02];
    assert_eq!(jpg::write_metadata(&mut no_jpeg, &payload), Err(ExifError::InvalidSignature));
    assert_eq!(no_jpeg, vec![0x00, 0x01, 0x02]);
    let mut malformed: Vec<u8> = vec![0xff, 0xd8, 0xff, 0xe1, 0x00, 0x02, 0xff, 0xd9];
    assert_eq!(jpg::write_metadata(&mut malformed, &payload), Err(ExifError::MalformedSegment));
    assert_eq!(malformed, vec![0xff, 0xd8, 0xff, 0xe1, 0x00, 0x02, 0xff, 0xd9]);
}

#[test]
fn write_rejects_a_payload_that_is_too_long() {
    let payload: Vec<u8> = vec![0x5a; jpg::MAX_EXIF_LEN + 1];
    let mut buffer: Vec<u8> = vec![0xff, 0xd8, 0xff, 0xe1, 0x00, 0x03, 0x01, 0xff, 0xd9];
    let before = buffer.clone();
    assert_eq!(jpg::write_metadata(&mut buffer, &payload), Err(ExifError::MalformedSegment));
    assert_eq!(buffer, before);
}

#[test]
fn check_signature_wants_ff_d8() {
    assert_eq!(jpg::check_signature(&vec![0xff, 0xd8]), Ok(()));
    assert_eq!(jpg::check_signature(&vec![0xff, 0xd8, 0x00]), Ok(()));
    assert_eq!(jpg::check_signature(&vec![0xff, 0xd9]), Err(ExifError::InvalidSignature));
    assert_eq!(jpg::check_signature(&vec![0xd8, 0xff]), Err(ExifError::InvalidSignature));
    assert_eq!(jpg::check_signature(&vec![0xff]), Err(ExifError::InvalidSignature));
}

#[test]
fn generic_read_metadata_scans_from_the_given_position() {
    let buffer: Vec<u8> = vec![0xff, 0xe1, 0x00, 0x03, 0x01, 0xff, 0xe1, 0x00, 0x03, 0x02];
    assert_eq!(jpg::generic_read_metadata(&buffer, 0), Ok(vec![0x01]));
    assert_eq!(jpg::generic_read_metadata(&buffer, 1), Ok(vec![0x02]));
    assert_eq!(jpg::generic_read_metadata(&buffer, 10), Err(ExifError::NotFound));
}

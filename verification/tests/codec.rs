use little_exif::endian::Endian;
use little_exif::error::ExifError;
use little_exif::exif_tag::{ExifTag, ExifTagGroup};
use little_exif::exif_tag_format::ExifTagFormat;
use little_exif::metadata::Metadata;
use little_exif::u8conversion::{iR64, uR64};

fn with_preamble(body: &[u8]) -> Vec<u8> {
    let mut payload: Vec<u8> = vec![0x45, 0x78, 0x69, 0x66, 0x00, 0x00];
    payload.extend_from_slice(body);
    payload
}

fn encode(metadata: &Metadata) -> Vec<u8> {
    metadata.encode_metadata_general().unwrap()
}

fn decode(body: &[u8]) -> Result<(Endian, Vec<ExifTag>), ExifError> {
    Metadata::decode_metadata_general(&with_preamble(body))
}

fn little_directory(entries: &[[u8; 12]]) -> Vec<u8> {
    let mut body: Vec<u8> = vec![0x49, 0x49, 0x2a, 0x00, 0x08, 0x00, 0x00, 0x00];
    body.push(entries.len() as u8);
    body.push(0x00);
    for entry in entries {
        body.extend_from_slice(entry);
    }
    body.extend_from_slice(&[0x00, 0x00, 0x00, 0x00]);
    body
}

#[test]
fn image_description_round_trip() {
    let mut metadata = Metadata::new();
    metadata.set_tag(ExifTag::ImageDescription(String::from("hi")));
    let body = encode(&metadata);
    let (endian, tags) = decode(&body).unwrap();
    assert_eq!(endian, Endian::Little);
    assert_eq!(tags.len(), 1);
    assert_eq!(tags[0].as_u16(), ExifTag::ImageDescription(String::new()).as_u16());
    assert_eq!(tags[0].as_u16(), 0x010e);
    assert_eq!(tags[0], ExifTag::ImageDescription(String::from("hi")));
    assert_eq!(tags[0].get_group(), ExifTagGroup::IFD0);
}

#[test]
fn image_description_exact_bytes_little_endian() {
    let mut metadata = Metadata::new();
    metadata.set_tag(ExifTag::ImageDescription(String::from("hi")));
    let expected: Vec<u8> = vec![
        // header
        0x49, 0x49, 0x2a, 0x00, 0x08, 0x00, 0x00, 0x00,
        // IFD0: two entries
        0x02, 0x00,
        // ImageDescription, STRING, 3 components, "hi\0" and one byte of padding
        0x0e, 0x01, 0x02, 0x00, 0x03, 0x00, 0x00, 0x00, 0x68, 0x69, 0x00, 0x00,
        // ExifOffset, INT32U, 1 component, offset 38
        0x69, 0x87, 0x04, 0x00, 0x01, 0x00, 0x00, 0x00, 0x26, 0x00, 0x00, 0x00,
        // no next directory
        0x00, 0x00, 0x00, 0x00,
        // Exif directory: one entry
        0x01, 0x00,
        // InteropOffset, INT32U, 1 component, offset 56
        0x05, 0xa0, 0x04, 0x00, 0x01, 0x00, 0x00, 0x00, 0x38, 0x00, 0x00, 0x00,
        // no next directory
        0x00, 0x00, 0x00, 0x00,
    ];
    assert_eq!(encode(&metadata), expected);
}

#[test]
fn empty_metadata_exact_bytes_big_endian() {
    let (endian, tags) = decode(&[
        0x4d, 0x4d, 0x00, 0x2a, 0x00, 0x00, 0x00, 0x08, 0x00, 0x00, 0x00, 0x00, 0x00, 0x00,
    ])
    .unwrap();
    assert_eq!(endian, Endian::Big);
    assert_eq!(tags, Vec::new());
    let metadata = Metadata::new();
    assert_eq!(
        encode(&metadata),
        vec![
            0x49, 0x49, 0x2a, 0x00, 0x08, 0x00, 0x00, 0x00, 0x01, 0x00, 0x69, 0x87, 0x04, 0x00,
            0x01, 0x00, 0x00, 0x00, 0x1a, 0x00, 0x00, 0x00, 0x00, 0x00, 0x00, 0x00, 0x01, 0x00,
            0x05, 0xa0, 0x04, 0x00, 0x01, 0x00, 0x00, 0x00, 0x2c, 0x00, 0x00, 0x00, 0x00, 0x00,
            0x00, 0x00
        ]
    );
}

#[test]
fn values_longer_than_four_bytes_stand_in_the_offset_area() {
    let mut metadata = Metadata::new();
    metadata.set_tag(ExifTag::Make(String::from("Camera")));
    metadata.set_tag(ExifTag::Orientation(vec![6]));
    metadata.set_tag(ExifTag::XResolution(vec![uR64 { nominator: 72, denominator: 1 }]));
    let body = encode(&metadata);
    // IFD0 has four entries: 8 + 2 + 48 + 4 = 62 is where its offset area
    // starts.
    assert_eq!(&body[8..10], &[0x04, 0x00]);
    // Make: 7 components at offset 62.
    assert_eq!(
        &body[10..22],
        &[0x0f, 0x01, 0x02, 0x00, 0x07, 0x00, 0x00, 0x00, 0x3e, 0x00, 0x00, 0x00]
    );
    // Orientation: one short, inline, two bytes of padding.
    assert_eq!(
        &body[22..34],
        &[0x12, 0x01, 0x03, 0x00, 0x01, 0x00, 0x00, 0x00, 0x06, 0x00, 0x00, 0x00]
    );
    // XResolution: one rational at offset 62 + 7 = 69.
    assert_eq!(
        &body[34..46],
        &[0x1a, 0x01, 0x05, 0x00, 0x01, 0x00, 0x00, 0x00, 0x45, 0x00, 0x00, 0x00]
    );
    // ExifOffset points behind the offset area: 69 + 8 = 77.
    assert_eq!(
        &body[46..58],
        &[0x69, 0x87, 0x04, 0x00, 0x01, 0x00, 0x00, 0x00, 0x4d, 0x00, 0x00, 0x00]
    );
    assert_eq!(&body[58..62], &[0x00, 0x00, 0x00, 0x00]);
    assert_eq!(&body[62..69], &[0x43, 0x61, 0x6d, 0x65, 0x72, 0x61, 0x00]);
    assert_eq!(&body[69..77], &[0x48, 0x00, 0x00, 0x00, 0x01, 0x00, 0x00, 0x00]);
    assert_eq!(&body[77..79], &[0x01, 0x00]);
    assert_eq!(body.len(), 77 + 18);
}

#[test]
fn round_trip_over_three_directories() {
    let mut metadata = Metadata::new();
    metadata.set_tag(ExifTag::ISO(vec![100, 200]));
    metadata.set_tag(ExifTag::InteroperabilityIndex(String::from("R98")));
    metadata.set_tag(ExifTag::Make(String::from("ACME Cameras")));
    metadata.set_tag(ExifTag::ExposureTime(vec![uR64 { nominator: 1, denominator: 250 }]));
    metadata.set_tag(ExifTag::ShutterSpeedValue(vec![iR64 { nominator: -7, denominator: 3 }]));
    metadata.set_tag(ExifTag::TimeZoneOffset(vec![-5, 1]));
    metadata.set_tag(ExifTag::XClipPathUnits(vec![-100000]));
    metadata.set_tag(ExifTag::ImageWidth(vec![4000]));
    metadata.set_tag(ExifTag::ExifVersion(vec![0x30, 0x32, 0x33, 0x32]));
    metadata.set_tag(ExifTag::UserComment(vec![1, 2, 3, 4, 5, 6, 7, 8, 9]));
    metadata.set_tag(ExifTag::Unknown {
        id: 0xc4a5,
        format: ExifTagFormat::INT16U,
        group: ExifTagGroup::IFD0,
        raw: vec![0x01, 0x00, 0x02, 0x00, 0x03, 0x00],
    });
    metadata.set_tag(ExifTag::Unknown {
        id: 0xfde8,
        format: ExifTagFormat::DOUBLE,
        group: ExifTagGroup::ExifIFD,
        raw: vec![0, 0, 0, 0, 0, 0, 0xf0, 0x3f],
    });
    for endian_body in [encode(&metadata)] {
        let (endian, tags) = decode(&endian_body).unwrap();
        assert_eq!(endian, Endian::Little);
        assert_eq!(&tags, metadata.data());
    }
    assert_eq!(metadata.data().len(), 12);
}

#[test]
fn round_trip_in_big_endian() {
    // A payload in big-endian order, decoded, written into a JPEG and read
    // again.
    let body: Vec<u8> = vec![
        0x4d, 0x4d, 0x00, 0x2a, 0x00, 0x00, 0x00, 0x08,
        0x00, 0x02,
        0x01, 0x12, 0x00, 0x03, 0x00, 0x00, 0x00, 0x01, 0x00, 0x08, 0x00, 0x00,
        0x01, 0x00, 0x00, 0x04, 0x00, 0x00, 0x00, 0x01, 0x00, 0x00, 0x12, 0x34,
        0x00, 0x00, 0x00, 0x00,
    ];
    let (endian, tags) = decode(&body).unwrap();
    assert_eq!(endian, Endian::Big);
    assert_eq!(tags, vec![ExifTag::Orientation(vec![8]), ExifTag::ImageWidth(vec![0x1234])]);
}

#[test]
fn text_is_padded_to_the_declared_number_of_components() {
    let tag = ExifTag::InteroperabilityIndex(String::from("R9"));
    assert_eq!(tag.number_of_components(), Some(4));
    assert_eq!(tag.value_as_u8_vec(&Endian::Little), vec![0x52, 0x39, 0x00, 0x00]);
    let date = ExifTag::ModifyDate(String::from("2024"));
    assert_eq!(date.number_of_components(), Some(20));
    let bytes = date.value_as_u8_vec(&Endian::Big);
    assert_eq!(bytes.len(), 20);
    assert_eq!(&bytes[0..5], &[0x32, 0x30, 0x32, 0x34, 0x00]);
    assert!(bytes[5..].iter().all(|b| *b == 0));
    let long = ExifTag::InteroperabilityIndex(String::from("R98765"));
    assert_eq!(long.number_of_components(), Some(7));
    let mut metadata = Metadata::new();
    metadata.set_tag(ExifTag::InteroperabilityIndex(String::from("R9")));
    let (_, tags) = decode(&encode(&metadata)).unwrap();
    assert_eq!(tags, vec![ExifTag::InteroperabilityIndex(String::from("R9"))]);
}

#[test]
fn sixteen_bit_numbers_are_widened_for_a_thirty_two_bit_tag() {
    // ImageWidth (0x0100) is INT32U; here it stands as INT16U.
    let body = little_directory(&[[
        0x00, 0x01, 0x03, 0x00, 0x01, 0x00, 0x00, 0x00, 0xa0, 0x0f, 0x00, 0x00,
    ]]);
    let (_, tags) = decode(&body).unwrap();
    assert_eq!(tags, vec![ExifTag::ImageWidth(vec![4000])]);
    assert_eq!(tags[0].format(), ExifTagFormat::INT32U);
    // Two numbers.
    let body = little_directory(&[[
        0x11, 0x01, 0x03, 0x00, 0x02, 0x00, 0x00, 0x00, 0xff, 0xff, 0x01, 0x00,
    ]]);
    let (_, tags) = decode(&body).unwrap();
    assert_eq!(tags, vec![ExifTag::StripOffsets(vec![65535, 1])]);
}

#[test]
fn other_format_mismatches_are_incompatible() {
    // ImageWidth as INT8U.
    let body = little_directory(&[[
        0x00, 0x01, 0x01, 0x00, 0x01, 0x00, 0x00, 0x00, 0x10, 0x00, 0x00, 0x00,
    ]]);
    assert_eq!(decode(&body), Err(ExifError::IncompatibleFormat));
    // Orientation (INT16U) as INT32U: no narrowing.
    let body = little_directory(&[[
        0x12, 0x01, 0x04, 0x00, 0x01, 0x00, 0x00, 0x00, 0x06, 0x00, 0x00, 0x00,
    ]]);
    assert_eq!(decode(&body), Err(ExifError::IncompatibleFormat));
    // Make (STRING) as UNDEF.
    let body = little_directory(&[[
        0x0f, 0x01, 0x07, 0x00, 0x02, 0x00, 0x00, 0x00, 0x41, 0x00, 0x00, 0x00,
    ]]);
    assert_eq!(decode(&body), Err(ExifError::IncompatibleFormat));
    assert_eq!(
        ExifTag::from_u16_with_data(
            0x0100,
            &ExifTagFormat::RATIONAL64U,
            &vec![0, 0, 0, 1, 0, 0, 0, 1],
            &Endian::Big,
            &ExifTagGroup::IFD0
        ),
        Err(ExifError::IncompatibleFormat)
    );
}

#[test]
fn unknown_format_codes_are_unsupported() {
    let body = little_directory(&[[
        0x0f, 0x01, 0x0d, 0x00, 0x01, 0x00, 0x00, 0x00, 0x41, 0x00, 0x00, 0x00,
    ]]);
    assert_eq!(decode(&body), Err(ExifError::UnsupportedFormat));
    let body = little_directory(&[[
        0x0f, 0x01, 0x00, 0x00, 0x01, 0x00, 0x00, 0x00, 0x41, 0x00, 0x00, 0x00,
    ]]);
    assert_eq!(decode(&body), Err(ExifError::UnsupportedFormat));
}

#[test]
fn unknown_ids_become_unknown_tags() {
    let body = little_directory(&[[
        0x34, 0x12, 0x0b, 0x00, 0x01, 0x00, 0x00, 0x00, 0x00, 0x00, 0x80, 0x3f,
    ]]);
    let (_, tags) = decode(&body).unwrap();
    assert_eq!(
        tags,
        vec![ExifTag::Unknown {
            id: 0x1234,
            format: ExifTagFormat::FLOAT,
            group: ExifTagGroup::IFD0,
            raw: vec![0x00, 0x00, 0x80, 0x3f],
        }]
    );
    assert!(tags[0].is_unknown());
    assert!(tags[0].is_writable());
    assert_eq!(tags[0].number_of_components(), Some(1));
}

#[test]
fn short_or_wrong_headers_are_format_errors() {
    assert_eq!(Metadata::decode_metadata_general(&Vec::new()), Err(ExifError::FormatError));
    let nineteen = with_preamble(&[
        0x49, 0x49, 0x2a, 0x00, 0x08, 0x00, 0x00, 0x00, 0x00, 0x00, 0x00, 0x00, 0x00,
    ]);
    assert_eq!(nineteen.len(), 19);
    assert_eq!(Metadata::decode_metadata_general(&nineteen), Err(ExifError::FormatError));
    let mut wrong_preamble = with_preamble(&[
        0x49, 0x49, 0x2a, 0x00, 0x08, 0x00, 0x00, 0x00, 0x00, 0x00, 0x00, 0x00, 0x00, 0x00,
    ]);
    wrong_preamble[5] = 0x01;
    assert_eq!(Metadata::decode_metadata_general(&wrong_preamble), Err(ExifError::FormatError));
    assert_eq!(
        decode(&[
            0x49, 0x4d, 0x2a, 0x00, 0x08, 0x00, 0x00, 0x00, 0x00, 0x00, 0x00, 0x00, 0x00, 0x00
        ]),
        Err(ExifError::FormatError)
    );
    assert_eq!(
        decode(&[
            0x00, 0x00, 0x2a, 0x00, 0x08, 0x00, 0x00, 0x00, 0x00, 0x00, 0x00, 0x00, 0x00, 0x00
        ]),
        Err(ExifError::FormatError)
    );
}

#[test]
fn a_directory_that_is_not_there_has_no_tags() {
    // The offset of IFD0 points behind the data.
    let (_, tags) = decode(&[
        0x49, 0x49, 0x2a, 0x00, 0x00, 0x10, 0x00, 0x00, 0x00, 0x00, 0x00, 0x00, 0x00, 0x00,
    ])
    .unwrap();
    assert_eq!(tags, Vec::new());
    // The entry count promises more entries than there are bytes.
    let (_, tags) = decode(&[
        0x49, 0x49, 0x2a, 0x00, 0x08, 0x00, 0x00, 0x00, 0x05, 0x00, 0x00, 0x00, 0x00, 0x00,
    ])
    .unwrap();
    assert_eq!(tags, Vec::new());
}

#[test]
fn a_value_outside_the_data_is_malformed() {
    let body = little_directory(&[[
        0x0f, 0x01, 0x02, 0x00, 0x09, 0x00, 0x00, 0x00, 0x00, 0x01, 0x00, 0x00,
    ]]);
    assert_eq!(decode(&body), Err(ExifError::MalformedSegment));
    // The value starts inside the data and ends outside.
    let body = little_directory(&[[
        0x0f, 0x01, 0x02, 0x00, 0x09, 0x00, 0x00, 0x00, 0x14, 0x00, 0x00, 0x00,
    ]]);
    assert_eq!(body.len(), 26);
    assert_eq!(decode(&body), Err(ExifError::MalformedSegment));
}

#[test]
fn a_value_in_the_offset_area_is_read() {
    let mut body = little_directory(&[[
        0x0f, 0x01, 0x02, 0x00, 0x06, 0x00, 0x00, 0x00, 0x1a, 0x00, 0x00, 0x00,
    ]]);
    body.extend_from_slice(&[0x4e, 0x69, 0x6b, 0x6f, 0x6e, 0x00]);
    let (_, tags) = decode(&body).unwrap();
    assert_eq!(tags, vec![ExifTag::Make(String::from("Nikon"))]);
}

#[test]
fn directories_below_are_read_in_the_place_of_their_offset_tag() {
    // IFD0: Orientation, GPSInfo -> 50, ExifOffset -> 68, Model.
    let mut body: Vec<u8> = vec![
        0x49, 0x49, 0x2a, 0x00, 0x08, 0x00, 0x00, 0x00,
        0x04, 0x00,
        0x12, 0x01, 0x03, 0x00, 0x01, 0x00, 0x00, 0x00, 0x01, 0x00, 0x00, 0x00,
        0x25, 0x88, 0x04, 0x00, 0x01, 0x00, 0x00, 0x00, 0x3e, 0x00, 0x00, 0x00,
        0x69, 0x87, 0x04, 0x00, 0x01, 0x00, 0x00, 0x00, 0x50, 0x00, 0x00, 0x00,
        0x10, 0x01, 0x02, 0x00, 0x02, 0x00, 0x00, 0x00, 0x58, 0x00, 0x00, 0x00,
        0x00, 0x00, 0x00, 0x00,
    ];
    assert_eq!(body.len(), 62);
    // GPS directory at 62: GPSAltitudeRef.
    body.extend_from_slice(&[
        0x01, 0x00,
        0x05, 0x00, 0x01, 0x00, 0x01, 0x00, 0x00, 0x00, 0x01, 0x00, 0x00, 0x00,
        0x00, 0x00, 0x00, 0x00,
    ]);
    assert_eq!(body.len(), 80);
    // Exif directory at 80: ISO, InteropOffset -> 110.
    body.extend_from_slice(&[
        0x02, 0x00,
        0x27, 0x88, 0x03, 0x00, 0x01, 0x00, 0x00, 0x00, 0x90, 0x01, 0x00, 0x00,
        0x05, 0xa0, 0x04, 0x00, 0x01, 0x00, 0x00, 0x00, 0x6e, 0x00, 0x00, 0x00,
        0x00, 0x00, 0x00, 0x00,
    ]);
    assert_eq!(body.len(), 110);
    // Interoperability directory at 110: InteroperabilityIndex.
    body.extend_from_slice(&[
        0x01, 0x00,
        0x01, 0x00, 0x02, 0x00, 0x04, 0x00, 0x00, 0x00, 0x52, 0x39, 0x38, 0x00,
        0x00, 0x00, 0x00, 0x00,
    ]);
    let (_, tags) = decode(&body).unwrap();
    assert_eq!(
        tags,
        vec![
            ExifTag::Orientation(vec![1]),
            ExifTag::GPSAltitudeRef(vec![1]),
            ExifTag::ISO(vec![400]),
            ExifTag::InteroperabilityIndex(String::from("R98")),
            ExifTag::Model(String::from("X")),
        ]
    );
    assert_eq!(tags[1].get_group(), ExifTagGroup::GPSIFD);
    assert_eq!(tags[3].get_group(), ExifTagGroup::InteropIFD);
}

#[test]
fn offset_tags_that_hang_too_deep_are_malformed() {
    // IFD0 holds ExifOffset -> 8: the directory points to itself.
    let body = little_directory(&[[
        0x69, 0x87, 0x04, 0x00, 0x01, 0x00, 0x00, 0x00, 0x08, 0x00, 0x00, 0x00,
    ]]);
    assert_eq!(decode(&body), Err(ExifError::MalformedSegment));
}

#[test]
fn an_offset_tag_without_four_bytes_is_malformed() {
    let body = little_directory(&[[
        0x69, 0x87, 0x03, 0x00, 0x01, 0x00, 0x00, 0x00, 0x08, 0x00, 0x00, 0x00,
    ]]);
    assert_eq!(decode(&body), Err(ExifError::MalformedSegment));
}

#[test]
fn text_that_is_not_utf8_is_incompatible() {
    let body = little_directory(&[[
        0x0f, 0x01, 0x02, 0x00, 0x03, 0x00, 0x00, 0x00, 0xff, 0xfe, 0x00, 0x00,
    ]]);
    assert_eq!(decode(&body), Err(ExifError::IncompatibleFormat));
}

#[test]
fn text_is_read_without_the_zero_bytes_at_its_end() {
    let make = |raw: Vec<u8>| {
        ExifTag::from_u16_with_data(
            0x010f,
            &ExifTagFormat::STRING,
            &raw,
            &Endian::Big,
            &ExifTagGroup::ExifIFD,
        )
    };
    assert_eq!(make(vec![0x41, 0x62, 0x00]), Ok(ExifTag::Make(String::from("Ab"))));
    assert_eq!(make(vec![0x41, 0x62, 0x00, 0x00, 0x00]), Ok(ExifTag::Make(String::from("Ab"))));
    assert_eq!(make(vec![0x41, 0x62]), Ok(ExifTag::Make(String::from("Ab"))));
    assert_eq!(make(vec![0x41, 0x00, 0x62, 0x00]), Ok(ExifTag::Make(String::from("A\0b"))));
    assert_eq!(make(vec![0x00, 0x00]), Ok(ExifTag::Make(String::new())));
    assert_eq!(make(Vec::new()), Ok(ExifTag::Make(String::new())));
    assert_eq!(make(vec![0xc3, 0xa9, 0x00]), Ok(ExifTag::Make(String::from("\u{e9}"))));
    // A known tag is in its own directory, whatever directory it was found
    // in.
    assert_eq!(make(vec![0x41]).unwrap().get_group(), ExifTagGroup::IFD0);
}

#[test]
fn tags_that_are_not_written_are_left_out() {
    let mut metadata = Metadata::new();
    metadata.set_tag(ExifTag::GPSAltitudeRef(vec![1]));
    metadata.set_tag(ExifTag::StripOffsets(vec![8]));
    metadata.set_tag(ExifTag::ExifOffset(vec![1234]));
    metadata.set_tag(ExifTag::Unknown {
        id: 0xc000,
        format: ExifTagFormat::INT16U,
        group: ExifTagGroup::IFD0,
        raw: vec![0x01, 0x02, 0x03],
    });
    metadata.set_tag(ExifTag::Software(String::from("x")));
    assert_eq!(metadata.data().len(), 5);
    let (_, tags) = decode(&encode(&metadata)).unwrap();
    assert_eq!(tags, vec![ExifTag::Software(String::from("x"))]);
}

#[test]
fn encode_ifd_of_one_directory() {
    let mut metadata = Metadata::new();
    metadata.set_tag(ExifTag::ISO(vec![800]));
    assert_eq!(
        metadata.encode_ifd(ExifTagGroup::IFD0, 8, &[0, 0, 0, 0], None),
        Ok(None)
    );
    assert_eq!(
        metadata.encode_ifd(ExifTagGroup::ExifIFD, 100, &[0, 0, 0, 0], None),
        Ok(Some((
            118,
            vec![
                0x01, 0x00, 0x27, 0x88, 0x03, 0x00, 0x01, 0x00, 0x00, 0x00, 0x20, 0x03, 0x00,
                0x00, 0x00, 0x00, 0x00, 0x00
            ]
        )))
    );
    assert_eq!(
        metadata.encode_ifd(
            ExifTagGroup::InteropIFD,
            0x10,
            &[1, 2, 3, 4],
            Some(ExifTag::GPSInfo(vec![0]))
        ),
        Ok(Some((
            0x22,
            vec![
                0x01, 0x00, 0x25, 0x88, 0x04, 0x00, 0x01, 0x00, 0x00, 0x00, 0x22, 0x00, 0x00,
                0x00, 0x01, 0x02, 0x03, 0x04
            ]
        )))
    );
    // An offset that does not fit in 32 bits.
    assert_eq!(
        metadata.encode_ifd(ExifTagGroup::ExifIFD, 0xffff_fff0, &[0, 0, 0, 0], None),
        Err(ExifError::MalformedSegment)
    );
}

#[test]
fn decode_ifd_respects_the_depth() {
    let body = little_directory(&[[
        0x69, 0x87, 0x04, 0x00, 0x01, 0x00, 0x00, 0x00, 0x40, 0x00, 0x00, 0x00,
    ]]);
    // The Exif directory is not there, so it has no tags.
    assert_eq!(
        Metadata::decode_ifd(&body, &ExifTagGroup::IFD0, 8, &Endian::Little, 1),
        Ok(Vec::new())
    );
    assert_eq!(
        Metadata::decode_ifd(&body, &ExifTagGroup::IFD0, 8, &Endian::Little, 0),
        Err(ExifError::MalformedSegment)
    );
}

use little_exif::endian::Endian;
use little_exif::error::ExifError;
use little_exif::exif_tag::{tag_info, subifd, ExifTag, ExifTagGroup, TagInfo};
use little_exif::exif_tag_format::ExifTagFormat;
use little_exif::filetype::{get_file_type, FileExtension};
use little_exif::metadata::{DecodePolicy, Metadata};
use little_exif::tag_value::TagValue;
use little_exif::u8conversion::uR64;

fn ids(metadata: &Metadata) -> Vec<u16> {
    metadata.data().iter().map(|tag| tag.as_u16()).collect()
}

fn unknown(id: u16, group: ExifTagGroup) -> ExifTag {
    ExifTag::Unknown { id, format: ExifTagFormat::INT8U, group, raw: vec![1] }
}

fn plain_jpeg() -> Vec<u8> {
    vec![0xff, 0xd8, 0xff, 0xdb, 0x00, 0x04, 0x01, 0x02, 0xff, 0xd9]
}

#[test]
fn new_metadata_is_empty_and_little_endian() {
    let metadata = Metadata::new();
    assert_eq!(metadata.data().len(), 0);
    assert_eq!(*metadata.get_endian(), Endian::Little);
    assert_eq!(metadata.get_tag_by_hex(0x010e), None);
}

#[test]
fn set_tag_keeps_the_order_of_directories() {
    let mut metadata = Metadata::new();
    metadata.set_tag(ExifTag::InteroperabilityIndex(String::from("R98")));
    metadata.set_tag(ExifTag::ISO(vec![100]));
    metadata.set_tag(ExifTag::GPSAltitudeRef(vec![0]));
    metadata.set_tag(ExifTag::Make(String::from("a")));
    metadata.set_tag(ExifTag::FNumber(vec![uR64 { nominator: 28, denominator: 10 }]));
    metadata.set_tag(ExifTag::Model(String::from("b")));
    // IFD0, ExifIFD, GPSIFD, InteropIFD; within one directory in the order
    // of setting.
    assert_eq!(ids(&metadata), vec![0x010f, 0x0110, 0x8827, 0x829d, 0x0005, 0x0001]);
}

#[test]
fn set_tag_puts_known_tags_before_unknown_ones() {
    let mut metadata = Metadata::new();
    metadata.set_tag(unknown(0xc001, ExifTagGroup::IFD0));
    metadata.set_tag(unknown(0xc002, ExifTagGroup::ExifIFD));
    metadata.set_tag(ExifTag::ISO(vec![100]));
    metadata.set_tag(ExifTag::Make(String::from("a")));
    metadata.set_tag(unknown(0xc003, ExifTagGroup::IFD0));
    assert_eq!(ids(&metadata), vec![0x010f, 0xc001, 0xc003, 0x8827, 0xc002]);
}

#[test]
fn set_tag_replaces_a_tag_with_the_same_id() {
    let mut metadata = Metadata::new();
    metadata.set_tag(ExifTag::Make(String::from("first")));
    metadata.set_tag(ExifTag::Model(String::from("m")));
    metadata.set_tag(ExifTag::Make(String::from("second")));
    assert_eq!(ids(&metadata), vec![0x0110, 0x010f]);
    assert_eq!(metadata.get_tag_by_hex(0x010f), Some(&ExifTag::Make(String::from("second"))));
    // An unknown tag with the id of a known one replaces it too.
    metadata.set_tag(unknown(0x0110, ExifTagGroup::ExifIFD));
    assert_eq!(ids(&metadata), vec![0x010f, 0x0110]);
    assert_eq!(metadata.get_tag_by_hex(0x0110), Some(&unknown(0x0110, ExifTagGroup::ExifIFD)));
}

#[test]
fn get_tag_finds_by_id() {
    let mut metadata = Metadata::new();
    metadata.set_tag(ExifTag::ISO(vec![1234]));
    metadata.set_tag(ExifTag::ImageDescription(String::from("d")));
    assert_eq!(
        metadata.get_tag(&ExifTag::ImageDescription(String::new())),
        Some(&ExifTag::ImageDescription(String::from("d")))
    );
    assert_eq!(metadata.get_tag(&ExifTag::ISO(Vec::new())), Some(&ExifTag::ISO(vec![1234])));
    assert_eq!(metadata.get_tag_by_hex(0x8827), Some(&ExifTag::ISO(vec![1234])));
    assert_eq!(metadata.get_tag(&ExifTag::Make(String::new())), None);
    assert_eq!(metadata.get_tag_by_hex(0xffff), None);
}

#[test]
fn as_u8_vec_gives_the_app1_segment_for_jpeg() {
    let mut metadata = Metadata::new();
    metadata.set_tag(ExifTag::ImageDescription(String::from("hi")));
    let body = metadata.encode_metadata_general().unwrap();
    let segment = metadata.as_u8_vec(FileExtension::JPEG);
    assert_eq!(&segment[0..4], &[0xff, 0xe1, 0x00, 0x40]);
    assert_eq!(&segment[4..10], &[0x45, 0x78, 0x69, 0x66, 0x00, 0x00]);
    assert_eq!(&segment[10..], &body[..]);
    assert_eq!(segment.len(), 4 + 6 + 56);
}

#[test]
fn as_u8_vec_is_empty_for_other_file_types() {
    let mut metadata = Metadata::new();
    metadata.set_tag(ExifTag::ImageDescription(String::from("hi")));
    assert_eq!(metadata.as_u8_vec(FileExtension::TIFF), Vec::new());
    assert_eq!(metadata.as_u8_vec(FileExtension::JXL), Vec::new());
    assert_eq!(metadata.as_u8_vec(FileExtension::WEBP), Vec::new());
    assert_eq!(metadata.as_u8_vec(FileExtension::PNG { as_zTXt_chunk: false }), Vec::new());
}

#[test]
fn as_u8_vec_is_empty_where_the_segment_would_be_too_long() {
    let mut metadata = Metadata::new();
    metadata.set_tag(ExifTag::MakerNote(vec![0x11; 70000]));
    assert!(metadata.encode_metadata_general().is_ok());
    assert_eq!(metadata.as_u8_vec(FileExtension::JPEG), Vec::new());
    let mut buffer = plain_jpeg();
    assert_eq!(
        metadata.write_to_vec(&mut buffer, FileExtension::JPEG),
        Err(ExifError::MalformedSegment)
    );
    assert_eq!(buffer, plain_jpeg());
}

#[test]
fn write_to_vec_then_new_from_vec_gives_the_tags_back() {
    let mut metadata = Metadata::new();
    metadata.set_tag(ExifTag::ImageDescription(String::from("A picture")));
    metadata.set_tag(ExifTag::ISO(vec![3200]));
    metadata.set_tag(ExifTag::InteroperabilityIndex(String::from("R98")));
    let mut buffer = plain_jpeg();
    assert_eq!(metadata.write_to_vec(&mut buffer, FileExtension::JPEG), Ok(()));
    assert_eq!(&buffer[0..4], &[0xff, 0xd8, 0xff, 0xe1]);
    assert_eq!(&buffer[buffer.len() - 8..], &[0xff, 0xdb, 0x00, 0x04, 0x01, 0x02, 0xff, 0xd9]);
    let read = Metadata::new_from_vec(&buffer, FileExtension::JPEG).unwrap();
    assert_eq!(*read.get_endian(), Endian::Little);
    assert_eq!(read.data(), metadata.data());
    // Writing again replaces the segment.
    let mut other = Metadata::new();
    other.set_tag(ExifTag::Artist(String::from("me")));
    assert_eq!(other.write_to_vec(&mut buffer, FileExtension::JPEG), Ok(()));
    let read = Metadata::new_from_vec(&buffer, FileExtension::JPEG).unwrap();
    assert_eq!(read.data(), other.data());
    assert_eq!(Metadata::clear_metadata(&mut buffer, FileExtension::JPEG), Ok(()));
    assert_eq!(buffer, plain_jpeg());
}

#[test]
fn new_from_vec_degrades_to_empty_metadata() {
    // No EXIF segment.
    let read = Metadata::new_from_vec(&plain_jpeg(), FileExtension::JPEG).unwrap();
    assert_eq!(read.data().len(), 0);
    assert_eq!(*read.get_endian(), Endian::Little);
    // No JPEG at all.
    let read = Metadata::new_from_vec(&vec![1, 2, 3], FileExtension::JPEG).unwrap();
    assert_eq!(read.data().len(), 0);
    // A segment that is no EXIF payload.
    let buffer: Vec<u8> = vec![0xff, 0xd8, 0xff, 0xe1, 0x00, 0x04, 0x01, 0x02, 0xff, 0xd9];
    let read = Metadata::new_from_vec(&buffer, FileExtension::JPEG).unwrap();
    assert_eq!(read.data().len(), 0);
}

#[test]
fn the_strict_policy_returns_the_error() {
    let strict = |buffer: &Vec<u8>| {
        Metadata::new_from_vec_with_policy(buffer, FileExtension::JPEG, DecodePolicy::Strict)
            .map(|metadata| metadata.data().len())
    };
    assert_eq!(strict(&plain_jpeg()), Err(ExifError::NotFound));
    assert_eq!(strict(&vec![1, 2, 3]), Err(ExifError::InvalidSignature));
    let no_payload: Vec<u8> = vec![0xff, 0xd8, 0xff, 0xe1, 0x00, 0x04, 0x01, 0x02, 0xff, 0xd9];
    assert_eq!(strict(&no_payload), Err(ExifError::FormatError));
    let truncated: Vec<u8> = vec![0xff, 0xd8, 0xff, 0xe1, 0x00, 0x40, 0x01];
    assert_eq!(strict(&truncated), Err(ExifError::MalformedSegment));
    let mut metadata = Metadata::new();
    metadata.set_tag(ExifTag::ISO(vec![50]));
    let mut buffer = plain_jpeg();
    metadata.write_to_vec(&mut buffer, FileExtension::JPEG).unwrap();
    assert_eq!(strict(&buffer), Ok(1));
    let lenient = Metadata::new_from_vec_with_policy(
        &truncated,
        FileExtension::JPEG,
        DecodePolicy::BestEffort,
    );
    assert_eq!(lenient.unwrap().data().len(), 0);
}

#[test]
fn other_file_types_are_unsupported() {
    let others = [
        FileExtension::PNG { as_zTXt_chunk: true },
        FileExtension::JXL,
        FileExtension::TIFF,
        FileExtension::WEBP,
    ];
    let metadata = Metadata::new();
    for file_type in others.iter() {
        let mut buffer = plain_jpeg();
        assert_eq!(
            Metadata::new_from_vec(&buffer, *file_type).map(|m| m.data().len()),
            Err(ExifError::UnsupportedFormat)
        );
        assert_eq!(
            Metadata::new_from_vec_with_policy(&buffer, *file_type, DecodePolicy::Strict)
                .map(|m| m.data().len()),
            Err(ExifError::UnsupportedFormat)
        );
        assert_eq!(
            Metadata::clear_metadata(&mut buffer, *file_type),
            Err(ExifError::UnsupportedFormat)
        );
        assert_eq!(
            metadata.write_to_vec(&mut buffer, *file_type),
            Err(ExifError::UnsupportedFormat)
        );
        assert_eq!(buffer, plain_jpeg());
    }
}

#[test]
fn clear_metadata_of_a_jpeg() {
    let mut buffer: Vec<u8> = vec![0xff, 0xd8, 0xff, 0xe1, 0x00, 0x04, 0x01, 0x02, 0xff, 0xd9];
    assert_eq!(Metadata::clear_metadata(&mut buffer, FileExtension::JPEG), Ok(()));
    assert_eq!(buffer, vec![0xff, 0xd8, 0xff, 0xd9]);
    let mut no_jpeg: Vec<u8> = vec![0x00];
    assert_eq!(
        Metadata::clear_metadata(&mut no_jpeg, FileExtension::JPEG),
        Err(ExifError::InvalidSignature)
    );
}

#[test]
fn a_clone_holds_the_same_tags() {
    let mut metadata = Metadata::new();
    metadata.set_tag(ExifTag::ISO(vec![1, 2]));
    metadata.set_tag(ExifTag::LensInfo(vec![uR64 { nominator: 24, denominator: 1 }]));
    metadata.set_tag(unknown(0xc001, ExifTagGroup::GPSIFD));
    let copy = metadata.clone();
    assert_eq!(copy.data(), metadata.data());
    assert_eq!(copy.get_endian(), metadata.get_endian());
    metadata.set_tag(ExifTag::ISO(vec![3]));
    assert_eq!(copy.get_tag_by_hex(0x8827), Some(&ExifTag::ISO(vec![1, 2])));
}

#[test]
fn tags_know_their_properties() {
    let tag = ExifTag::ISO(vec![100, 200, 400]);
    assert_eq!(tag.as_u16(), 0x8827);
    assert_eq!(tag.format(), ExifTagFormat::INT16U);
    assert_eq!(tag.get_group(), ExifTagGroup::ExifIFD);
    assert!(tag.is_writable());
    assert!(!tag.is_string());
    assert!(!tag.is_unknown());
    assert_eq!(tag.is_offset_tag(), None);
    assert_eq!(tag.number_of_components(), Some(3));
    assert_eq!(tag.value_as_u8_vec(&Endian::Big), vec![0x00, 0x64, 0x00, 0xc8, 0x01, 0x90]);
    assert_eq!(tag.value_as_u8_vec(&Endian::Little), vec![0x64, 0x00, 0xc8, 0x00, 0x90, 0x01]);
    let text = ExifTag::Copyright(String::from("\u{a9} me"));
    assert!(text.is_string());
    assert_eq!(text.number_of_components(), Some(6));
    assert_eq!(text.value_as_u8_vec(&Endian::Big), vec![0xc2, 0xa9, 0x20, 0x6d, 0x65, 0x00]);
    let link = ExifTag::ExifOffset(vec![0]);
    assert!(!link.is_writable());
    assert_eq!(link.is_offset_tag(), Some(ExifTagGroup::ExifIFD));
    assert_eq!(ExifTag::GPSInfo(vec![0]).is_offset_tag(), Some(ExifTagGroup::GPSIFD));
    assert_eq!(ExifTag::InteropOffset(vec![0]).is_offset_tag(), Some(ExifTagGroup::InteropIFD));
    assert_eq!(ExifTag::InteropOffset(vec![0]).get_group(), ExifTagGroup::ExifIFD);
    let raw = ExifTag::Unknown {
        id: 0x8769,
        format: ExifTagFormat::INT32U,
        group: ExifTagGroup::InteropIFD,
        raw: vec![1, 2, 3, 4, 5],
    };
    assert!(raw.is_unknown());
    assert!(!raw.is_writable());
    assert_eq!(raw.is_offset_tag(), None);
    assert_eq!(raw.number_of_components(), Some(1));
    assert_eq!(raw.get_group(), ExifTagGroup::InteropIFD);
    assert_eq!(raw.value_as_u8_vec(&Endian::Big), vec![1, 2, 3, 4, 5]);
}

#[test]
fn the_tag_table_knows_ids() {
    assert_eq!(
        tag_info(0x010e),
        Some(TagInfo {
            format: ExifTagFormat::STRING,
            group: ExifTagGroup::IFD0,
            writable: true,
            components: None,
        })
    );
    assert_eq!(
        tag_info(0x0001),
        Some(TagInfo {
            format: ExifTagFormat::STRING,
            group: ExifTagGroup::InteropIFD,
            writable: true,
            components: Some(4),
        })
    );
    assert_eq!(tag_info(0xa005).map(|info| info.writable), Some(false));
    assert_eq!(tag_info(0xbeef), None);
    assert_eq!(subifd(0x8769), Some(ExifTagGroup::ExifIFD));
    assert_eq!(subifd(0x8825), Some(ExifTagGroup::GPSIFD));
    assert_eq!(subifd(0xa005), Some(ExifTagGroup::InteropIFD));
    assert_eq!(subifd(0x010e), None);
}

#[test]
fn tags_are_taken_apart_and_put_together() {
    let tag = ExifTag::Flash(vec![9]);
    let parts = tag.parts();
    assert_eq!(parts.id, 0x9209);
    assert_eq!(parts.group, ExifTagGroup::ExifIFD);
    assert_eq!(parts.value.to_owned(), TagValue::INT16U(vec![9]));
    assert_eq!(
        ExifTag::from_parts(0x9209, ExifTagGroup::IFD0, TagValue::INT16U(vec![9])),
        Some(ExifTag::Flash(vec![9]))
    );
    assert_eq!(ExifTag::from_parts(0x9209, ExifTagGroup::IFD0, TagValue::INT32U(vec![9])), None);
    assert_eq!(
        ExifTag::from_parts(
            0x9209,
            ExifTagGroup::IFD0,
            TagValue::Raw(ExifTagFormat::INT16U, vec![0, 9])
        ),
        None
    );
    assert_eq!(
        ExifTag::from_parts(
            0xc123,
            ExifTagGroup::GPSIFD,
            TagValue::Raw(ExifTagFormat::UNDEF, vec![7])
        ),
        Some(ExifTag::Unknown {
            id: 0xc123,
            format: ExifTagFormat::UNDEF,
            group: ExifTagGroup::GPSIFD,
            raw: vec![7],
        })
    );
    assert_eq!(ExifTag::from_parts(0xc123, ExifTagGroup::GPSIFD, TagValue::UNDEF(vec![7])), None);
    assert_eq!(tag.clone(), tag);
}

#[test]
fn groups_are_ordered() {
    assert!(ExifTagGroup::IFD0 < ExifTagGroup::ExifIFD);
    assert!(ExifTagGroup::ExifIFD < ExifTagGroup::GPSIFD);
    assert!(ExifTagGroup::GPSIFD < ExifTagGroup::InteropIFD);
    assert_eq!(ExifTagGroup::IFD0.rank(), 0);
    assert_eq!(ExifTagGroup::ExifIFD.rank(), 1);
    assert_eq!(ExifTagGroup::GPSIFD.rank(), 2);
    assert_eq!(ExifTagGroup::InteropIFD.rank(), 3);
}

#[test]
fn file_types_by_path() {
    assert_eq!(get_file_type("image.jpg"), Ok(FileExtension::JPEG));
    assert_eq!(get_file_type("./rsrc/A0579575.JPG"), Ok(FileExtension::JPEG));
    assert_eq!(get_file_type("/a/b.c/photo.final.jpeg"), Ok(FileExtension::JPEG));
    assert_eq!(get_file_type("C:\\pictures\\x.webp"), Ok(FileExtension::WEBP));
    assert_eq!(get_file_type("a.png"), Ok(FileExtension::PNG { as_zTXt_chunk: true }));
    assert_eq!(get_file_type("a.tif"), Ok(FileExtension::TIFF));
    assert_eq!(get_file_type("a.jxl"), Ok(FileExtension::JXL));
    let none = Err(ExifError::UnsupportedFormat);
    assert_eq!(get_file_type(""), none);
    assert_eq!(get_file_type("jpg"), none);
    assert_eq!(get_file_type(".jpg"), none);
    assert_eq!(get_file_type("dir/.jpg"), none);
    assert_eq!(get_file_type("dir.jpg/file"), none);
    assert_eq!(get_file_type("dir.jpg/"), none);
    assert_eq!(get_file_type("image."), none);
    assert_eq!(get_file_type("image.gif"), none);
    assert_eq!(get_file_type("image.jpg.bak"), none);
    assert_eq!(get_file_type("a..jpg"), Ok(FileExtension::JPEG));
    assert_eq!(get_file_type("\u{e9}t\u{e9}.jpg"), Ok(FileExtension::JPEG));
}

#[test]
fn the_path_says_how_a_file_is_read_and_written() {
    let mut metadata = Metadata::new();
    metadata.set_tag(ExifTag::Model(String::from("M1")));
    let mut buffer = plain_jpeg();
    assert_eq!(metadata.write_to_file("out/picture.jpeg", &mut buffer), Ok(()));
    let read = Metadata::new_from_path("out/picture.jpeg", &buffer).unwrap();
    assert_eq!(read.data(), metadata.data());
    assert_eq!(Metadata::file_clear_metadata("picture.JPG", &mut buffer), Ok(()));
    assert_eq!(buffer, plain_jpeg());
    // No metadata: a new one without tags.
    let read = Metadata::new_from_path("picture.jpg", &buffer).unwrap();
    assert_eq!(read.data().len(), 0);
    // Paths that name other files.
    for path in ["picture.png", "picture.webp", "picture", "picture.txt"].iter() {
        assert_eq!(
            Metadata::new_from_path(path, &buffer).map(|m| m.data().len()),
            Err(ExifError::UnsupportedFormat)
        );
        assert_eq!(
            Metadata::file_clear_metadata(path, &mut buffer),
            Err(ExifError::UnsupportedFormat)
        );
        assert_eq!(metadata.write_to_file(path, &mut buffer), Err(ExifError::UnsupportedFormat));
        assert_eq!(buffer, plain_jpeg());
    }
}

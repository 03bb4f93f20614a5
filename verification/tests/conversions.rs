use little_exif::endian::{exif_header, push_u16, push_u32, read_u16, read_u32, Endian};
use little_exif::error::ExifError;
use little_exif::exif_tag_format::ExifTagFormat;
use little_exif::filetype::FileExtension;
use little_exif::u8conversion::{from_u8_slice, from_u8_vec, iR64, to_u8_vec, uR64};
use little_exif::util::{insert_multiple_at, remove_range_at};

#[test]
fn headers_have_mark_magic_and_offset() {
    assert_eq!(Endian::Little.header(), vec![0x49, 0x49, 0x2a, 0x00, 0x08, 0x00, 0x00, 0x00]);
    assert_eq!(Endian::Big.header(), vec![0x4d, 0x4d, 0x00, 0x2a, 0x00, 0x00, 0x00, 0x08]);
    assert_eq!(exif_header(), vec![0x45, 0x78, 0x69, 0x66, 0x00, 0x00]);
}

#[test]
fn numbers_are_written_in_both_byte_orders() {
    let mut out: Vec<u8> = vec![0xaa];
    push_u16(&mut out, 0x1234, Endian::Big);
    push_u16(&mut out, 0x1234, Endian::Little);
    push_u32(&mut out, 0x89abcdef, Endian::Big);
    push_u32(&mut out, 0x89abcdef, Endian::Little);
    assert_eq!(
        out,
        vec![0xaa, 0x12, 0x34, 0x34, 0x12, 0x89, 0xab, 0xcd, 0xef, 0xef, 0xcd, 0xab, 0x89]
    );
}

#[test]
fn numbers_are_read_in_both_byte_orders() {
    let data: Vec<u8> = vec![0x00, 0x12, 0x34, 0x56, 0x78, 0xff];
    assert_eq!(read_u16(&data, 1, Endian::Big), 0x1234);
    assert_eq!(read_u16(&data, 1, Endian::Little), 0x3412);
    assert_eq!(read_u32(&data, 1, Endian::Big), 0x12345678);
    assert_eq!(read_u32(&data, 1, Endian::Little), 0x78563412);
    assert_eq!(read_u32(&data, 2, Endian::Big), 0x345678ff);
    assert_eq!(read_u16(&data, 4, Endian::Big), 0x78ff);
}

#[test]
fn unsigned_components_round_trip() {
    let shorts: Vec<u16> = vec![0, 1, 0x00ff, 0x0100, 0xffff];
    let bytes = to_u8_vec(&shorts, Endian::Big);
    assert_eq!(bytes, vec![0x00, 0x00, 0x00, 0x01, 0x00, 0xff, 0x01, 0x00, 0xff, 0xff]);
    assert_eq!(from_u8_vec::<u16>(&bytes, Endian::Big), shorts);
    let longs: Vec<u32> = vec![0, 0x01020304, 0xffffffff];
    let bytes = to_u8_vec(&longs, Endian::Little);
    assert_eq!(
        bytes,
        vec![0x00, 0x00, 0x00, 0x00, 0x04, 0x03, 0x02, 0x01, 0xff, 0xff, 0xff, 0xff]
    );
    assert_eq!(from_u8_vec::<u32>(&bytes, Endian::Little), longs);
    let plain: Vec<u8> = vec![0x00, 0x7f, 0x80, 0xff];
    assert_eq!(to_u8_vec(&plain, Endian::Big), plain);
    assert_eq!(from_u8_vec::<u8>(&plain, Endian::Little), plain);
}

#[test]
fn signed_components_use_twos_complement() {
    let bytes8: Vec<i8> = vec![0, 1, -1, 127, -128];
    let wire = to_u8_vec(&bytes8, Endian::Big);
    assert_eq!(wire, vec![0x00, 0x01, 0xff, 0x7f, 0x80]);
    assert_eq!(from_u8_vec::<i8>(&wire, Endian::Big), bytes8);
    let shorts: Vec<i16> = vec![0, -1, -2, 32767, -32768];
    let wire = to_u8_vec(&shorts, Endian::Big);
    assert_eq!(wire, vec![0x00, 0x00, 0xff, 0xff, 0xff, 0xfe, 0x7f, 0xff, 0x80, 0x00]);
    assert_eq!(from_u8_vec::<i16>(&wire, Endian::Big), shorts);
    let longs: Vec<i32> = vec![-1, 2147483647, -2147483648, 5];
    let wire = to_u8_vec(&longs, Endian::Little);
    assert_eq!(
        wire,
        vec![
            0xff, 0xff, 0xff, 0xff, 0xff, 0xff, 0xff, 0x7f, 0x00, 0x00, 0x00, 0x80, 0x05, 0x00,
            0x00, 0x00
        ]
    );
    assert_eq!(from_u8_vec::<i32>(&wire, Endian::Little), longs);
}

#[test]
fn rationals_are_numerator_then_denominator() {
    let values: Vec<uR64> = vec![uR64 { nominator: 1, denominator: 250 }];
    let wire = to_u8_vec(&values, Endian::Big);
    assert_eq!(wire, vec![0x00, 0x00, 0x00, 0x01, 0x00, 0x00, 0x00, 0xfa]);
    assert_eq!(from_u8_vec::<uR64>(&wire, Endian::Big), values);
    let signed: Vec<iR64> = vec![iR64 { nominator: -3, denominator: 2 }];
    let wire = to_u8_vec(&signed, Endian::Little);
    assert_eq!(wire, vec![0xfd, 0xff, 0xff, 0xff, 0x02, 0x00, 0x00, 0x00]);
    assert_eq!(from_u8_vec::<iR64>(&wire, Endian::Little), signed);
}

#[test]
fn bytes_that_make_no_whole_component_are_left_out() {
    let bytes: Vec<u8> = vec![0x00, 0x01, 0x00, 0x02, 0x03];
    assert_eq!(from_u8_vec::<u16>(&bytes, Endian::Big), vec![1, 2]);
    assert_eq!(from_u8_vec::<u32>(&bytes, Endian::Big), vec![0x00010002]);
    assert_eq!(from_u8_vec::<uR64>(&bytes, Endian::Big), Vec::new());
    assert_eq!(from_u8_slice::<u16>(&bytes, 1, 5, Endian::Big), vec![0x0100, 0x0203]);
    assert_eq!(from_u8_slice::<u16>(&bytes, 2, 2, Endian::Big), Vec::new());
}

#[test]
fn format_codes_and_sizes() {
    let all = [
        (ExifTagFormat::INT8U, 1u16, 1u32),
        (ExifTagFormat::STRING, 2, 1),
        (ExifTagFormat::INT16U, 3, 2),
        (ExifTagFormat::INT32U, 4, 4),
        (ExifTagFormat::RATIONAL64U, 5, 8),
        (ExifTagFormat::INT8S, 6, 1),
        (ExifTagFormat::UNDEF, 7, 1),
        (ExifTagFormat::INT16S, 8, 2),
        (ExifTagFormat::INT32S, 9, 4),
        (ExifTagFormat::RATIONAL64S, 10, 8),
        (ExifTagFormat::FLOAT, 11, 4),
        (ExifTagFormat::DOUBLE, 12, 8),
    ];
    for (format, code, size) in all.iter() {
        assert_eq!(format.as_u16(), *code);
        assert_eq!(ExifTagFormat::from_u16(*code), Some(*format));
        assert_eq!(format.bytes_per_component(), *size);
    }
    assert_eq!(ExifTagFormat::from_u16(0), None);
    assert_eq!(ExifTagFormat::from_u16(13), None);
    assert_eq!(ExifTagFormat::from_u16(0xffff), None);
}

#[test]
fn file_types_by_extension() {
    assert_eq!(FileExtension::from_extension("jpg"), Some(FileExtension::JPEG));
    assert_eq!(FileExtension::from_extension("JPEG"), Some(FileExtension::JPEG));
    assert_eq!(FileExtension::from_extension("Jpg"), Some(FileExtension::JPEG));
    assert_eq!(FileExtension::from_extension("jxl"), Some(FileExtension::JXL));
    assert_eq!(
        FileExtension::from_extension("png"),
        Some(FileExtension::PNG { as_zTXt_chunk: true })
    );
    assert_eq!(FileExtension::from_extension("tif"), Some(FileExtension::TIFF));
    assert_eq!(FileExtension::from_extension("TIFF"), Some(FileExtension::TIFF));
    assert_eq!(FileExtension::from_extension("webp"), Some(FileExtension::WEBP));
    assert_eq!(FileExtension::from_extension(""), None);
    assert_eq!(FileExtension::from_extension("jp"), None);
    assert_eq!(FileExtension::from_extension("jpgx"), None);
    assert_eq!(FileExtension::from_extension(".jpg"), None);
    assert_eq!(FileExtension::from_extension("gif"), None);
}

#[test]
fn ranges_are_removed_and_inserted() {
    let mut buffer: Vec<u8> = vec![0, 1, 2, 3, 4, 5, 6];
    remove_range_at(&mut buffer, 2, 5);
    assert_eq!(buffer, vec![0, 1, 5, 6]);
    remove_range_at(&mut buffer, 1, 1);
    assert_eq!(buffer, vec![0, 1, 5, 6]);
    remove_range_at(&mut buffer, 2, 4);
    assert_eq!(buffer, vec![0, 1]);
    remove_range_at(&mut buffer, 0, 2);
    assert_eq!(buffer, Vec::<u8>::new());
    let mut buffer: Vec<u8> = vec![0, 1, 2];
    insert_multiple_at(&mut buffer, 1, &vec![7, 8]);
    assert_eq!(buffer, vec![0, 7, 8, 1, 2]);
    insert_multiple_at(&mut buffer, 5, &vec![9]);
    assert_eq!(buffer, vec![0, 7, 8, 1, 2, 9]);
    insert_multiple_at(&mut buffer, 0, &Vec::new());
    assert_eq!(buffer, vec![0, 7, 8, 1, 2, 9]);
}

#[test]
fn every_error_has_a_message() {
    let all = [
        ExifError::InvalidSignature,
        ExifError::MalformedSegment,
        ExifError::UnsupportedFormat,
        ExifError::IncompatibleFormat,
        ExifError::NotFound,
        ExifError::FormatError,
    ];
    for (i, a) in all.iter().enumerate() {
        assert!(!a.message().is_empty());
        for b in all.iter().skip(i + 1) {
            assert_ne!(a.message(), b.message());
        }
    }
    assert_eq!(ExifError::NotFound.message(), "no EXIF data found");
}

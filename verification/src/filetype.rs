use crate::error::ExifError;
use vstd::prelude::*;
use vstd::string::StringSliceAdditionalSpecFns;

verus! {

/// The kinds of image file that carry EXIF data. This library reads and
/// writes the JPEG container; for the others it knows the name only.
#[allow(non_snake_case)]
#[derive(Clone, Copy, Debug, PartialEq, Eq, Structural)]
pub enum FileExtension {
    PNG { as_zTXt_chunk: bool },
    JPEG,
    JXL,
    TIFF,
    WEBP,
}

/// The lower-case form of an ASCII letter, and every other byte as it is.
pub open spec fn spec_lower(b: u8) -> u8 {
    if 0x41 <= b && b <= 0x5a {
        (b + 0x20) as u8
    } else {
        b
    }
}

/// Whether `bytes` is `word` when the upper-case letters in it are taken as
/// lower-case ones.
pub open spec fn is_word(bytes: Seq<u8>, word: Seq<u8>) -> bool {
    bytes.len() == word.len() && forall|i: int|
        0 <= i < bytes.len() ==> spec_lower(#[trigger] bytes[i]) == word[i]
}

/// The kind of file that a file name extension names: `jpg` and `jpeg`,
/// `jxl`, `png`, `tif` and `tiff`, `webp`, in upper or lower case.
pub open spec fn spec_file_type(extension: Seq<u8>) -> Option<FileExtension> {
    if is_word(extension, seq![0x6au8, 0x70u8, 0x67u8]) || is_word(
        extension,
        seq![0x6au8, 0x70u8, 0x65u8, 0x67u8],
    ) {
        Some(FileExtension::JPEG)
    } else if is_word(extension, seq![0x6au8, 0x78u8, 0x6cu8]) {
        Some(FileExtension::JXL)
    } else if is_word(extension, seq![0x70u8, 0x6eu8, 0x67u8]) {
        Some(FileExtension::PNG { as_zTXt_chunk: true })
    } else if is_word(extension, seq![0x74u8, 0x69u8, 0x66u8]) || is_word(
        extension,
        seq![0x74u8, 0x69u8, 0x66u8, 0x66u8],
    ) {
        Some(FileExtension::TIFF)
    } else if is_word(extension, seq![0x77u8, 0x65u8, 0x62u8, 0x70u8]) {
        Some(FileExtension::WEBP)
    } else {
        None
    }
}

fn lower(b: u8) -> (l: u8)
    ensures
        l == spec_lower(b),
{
    if 0x41 <= b && b <= 0x5a {
        b + 0x20
    } else {
        b
    }
}

fn matches_word(bytes: &[u8], from: usize, word: &[u8]) -> (same: bool)
    requires
        from <= bytes.len(),
    ensures
        same == is_word(bytes@.subrange(from as int, bytes.len() as int), word@),
{
    let ghost tail = bytes@.subrange(from as int, bytes.len() as int);
    if bytes.len() - from != word.len() {
        return false;
    }
    let mut i: usize = 0;
    while i < word.len()
        invariant
            i <= word.len(),
            from + word.len() == bytes.len(),
            tail == bytes@.subrange(from as int, bytes.len() as int),
            forall|k: int| 0 <= k < i ==> spec_lower(#[trigger] tail[k]) == word@[k],
        decreases word.len() - i,
    {
        if lower(bytes[from + i]) != word[i] {
            assert(spec_lower(tail[i as int]) != word@[i as int]);
            return false;
        }
        i += 1;
    }
    true
}

/// The kind of file that the bytes of `bytes` from index `from` on name.
fn file_type_of(bytes: &[u8], from: usize) -> (file_type: Option<FileExtension>)
    requires
        from <= bytes.len(),
    ensures
        file_type == spec_file_type(bytes@.subrange(from as int, bytes.len() as int)),
{
    let jpg: [u8; 3] = [0x6a, 0x70, 0x67];
    let jpeg: [u8; 4] = [0x6a, 0x70, 0x65, 0x67];
    let jxl: [u8; 3] = [0x6a, 0x78, 0x6c];
    let png: [u8; 3] = [0x70, 0x6e, 0x67];
    let tif: [u8; 3] = [0x74, 0x69, 0x66];
    let tiff: [u8; 4] = [0x74, 0x69, 0x66, 0x66];
    let webp: [u8; 4] = [0x77, 0x65, 0x62, 0x70];
    assert(jpg@ =~= seq![0x6au8, 0x70u8, 0x67u8]);
    assert(jpeg@ =~= seq![0x6au8, 0x70u8, 0x65u8, 0x67u8]);
    assert(jxl@ =~= seq![0x6au8, 0x78u8, 0x6cu8]);
    assert(png@ =~= seq![0x70u8, 0x6eu8, 0x67u8]);
    assert(tif@ =~= seq![0x74u8, 0x69u8, 0x66u8]);
    assert(tiff@ =~= seq![0x74u8, 0x69u8, 0x66u8, 0x66u8]);
    assert(webp@ =~= seq![0x77u8, 0x65u8, 0x62u8, 0x70u8]);
    if matches_word(bytes, from, jpg.as_slice()) || matches_word(bytes, from, jpeg.as_slice()) {
        Some(FileExtension::JPEG)
    } else if matches_word(bytes, from, jxl.as_slice()) {
        Some(FileExtension::JXL)
    } else if matches_word(bytes, from, png.as_slice()) {
        Some(FileExtension::PNG { as_zTXt_chunk: true })
    } else if matches_word(bytes, from, tif.as_slice()) || matches_word(
        bytes,
        from,
        tiff.as_slice(),
    ) {
        Some(FileExtension::TIFF)
    } else if matches_word(bytes, from, webp.as_slice()) {
        Some(FileExtension::WEBP)
    } else {
        None
    }
}

impl FileExtension {
    /// The kind of file that a file name extension, given without the dot,
    /// names.
    pub fn from_extension(extension: &str) -> (file_type: Option<FileExtension>)
        ensures
            file_type == spec_file_type(vstd::utf8::encode_utf8(extension@)),
    {
        let bytes = extension.as_bytes();
        assert(bytes@.subrange(0, bytes.len() as int) =~= bytes@);
        file_type_of(bytes, 0)
    }
}

/// Whether `b` parts the names of a path: a slash or a backslash.
pub open spec fn is_separator(b: u8) -> bool {
    b == 0x2f || b == 0x5c
}

/// Where the extension of the file that `path` names starts, found from the
/// end of the path: behind the last dot of the file name, where the name
/// does not start with that dot. A path that ends in a separator names no
/// file.
pub open spec fn spec_extension_start(path: Seq<u8>) -> Option<int>
    decreases path.len(),
{
    if path.len() == 0 || is_separator(path.last()) {
        None
    } else if path.last() == 0x2e {
        if path.len() >= 2 && !is_separator(path[path.len() - 2]) {
            Some(path.len() as int)
        } else {
            None
        }
    } else {
        spec_extension_start(path.drop_last())
    }
}

/// The kind of file that `path` names by its extension.
pub open spec fn spec_get_file_type(path: Seq<u8>) -> Result<FileExtension, ExifError> {
    match spec_extension_start(path) {
        Some(at) => match spec_file_type(path.subrange(at, path.len() as int)) {
            Some(file_type) => Ok(file_type),
            None => Err(ExifError::UnsupportedFormat),
        },
        None => Err(ExifError::UnsupportedFormat),
    }
}

/// The kind of file that `path` names by its extension. A path without an
/// extension, or with one that names no kind of image that is known here,
/// is an error.
pub fn get_file_type(path: &str) -> (file_type: Result<FileExtension, ExifError>)
    ensures
        file_type == spec_get_file_type(vstd::utf8::encode_utf8(path@)),
{
    let bytes = path.as_bytes();
    let mut i: usize = bytes.len();
    assert(bytes@.take(i as int) =~= bytes@);
    while i > 0
        invariant
            i <= bytes.len(),
            bytes@ == vstd::utf8::encode_utf8(path@),
            spec_extension_start(bytes@) == spec_extension_start(bytes@.take(i as int)),
        decreases i,
    {
        let byte = bytes[i - 1];
        proof {
            assert(bytes@.take(i as int).drop_last() =~= bytes@.take(i - 1));
        }
        if byte == 0x2f || byte == 0x5c {
            return Err(ExifError::UnsupportedFormat);
        }
        if byte == 0x2e {
            if i >= 2 && !(bytes[i - 2] == 0x2f || bytes[i - 2] == 0x5c) {
                return match file_type_of(bytes, i) {
                    Some(file_type) => Ok(file_type),
                    None => Err(ExifError::UnsupportedFormat),
                };
            }
            return Err(ExifError::UnsupportedFormat);
        }
        i -= 1;
    }
    Err(ExifError::UnsupportedFormat)
}

} // verus!

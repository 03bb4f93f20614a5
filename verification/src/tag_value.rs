use crate::endian::Endian;
use crate::error::ExifError;
use crate::exif_tag_format::ExifTagFormat;
use crate::u8conversion::{
    from_u8_slice, iR64, items_from_bytes, items_to_bytes, lemma_items_roundtrip,
    lemma_items_to_bytes_len, to_u8_vec, uR64,
};
use vstd::prelude::*;
use vstd::string::StringSliceAdditionalSpecFns;
use vstd::utf8::{decode_utf8, encode_scalar, encode_utf8, valid_utf8};

verus! {

/// `n` zero bytes.
pub open spec fn zeros(n: nat) -> Seq<u8> {
    Seq::new(n, |i: int| 0u8)
}

/// `b` without the zero bytes at its end.
pub open spec fn trim_nul(b: Seq<u8>) -> Seq<u8>
    decreases b.len(),
{
    if b.len() > 0 && b.last() == 0 {
        trim_nul(b.drop_last())
    } else {
        b
    }
}

/// The numbers of `v`, each as a 32-bit number.
pub open spec fn widen(v: Seq<u16>) -> Seq<u32> {
    Seq::new(v.len(), |i: int| v[i] as u32)
}

/// What a tag holds: a sequence of components of one format, a text, or, for
/// a tag that this library does not know, the bytes as they stand on the wire.
pub enum ValueView {
    INT8U(Seq<u8>),
    STRING(Seq<char>),
    INT16U(Seq<u16>),
    INT32U(Seq<u32>),
    RATIONAL64U(Seq<uR64>),
    INT8S(Seq<i8>),
    UNDEF(Seq<u8>),
    INT16S(Seq<i16>),
    INT32S(Seq<i32>),
    RATIONAL64S(Seq<iR64>),
    Raw(ExifTagFormat, Seq<u8>),
}

impl ValueView {
    /// The on-wire format of the value.
    pub open spec fn format(self) -> ExifTagFormat {
        match self {
            ValueView::INT8U(_) => ExifTagFormat::INT8U,
            ValueView::STRING(_) => ExifTagFormat::STRING,
            ValueView::INT16U(_) => ExifTagFormat::INT16U,
            ValueView::INT32U(_) => ExifTagFormat::INT32U,
            ValueView::RATIONAL64U(_) => ExifTagFormat::RATIONAL64U,
            ValueView::INT8S(_) => ExifTagFormat::INT8S,
            ValueView::UNDEF(_) => ExifTagFormat::UNDEF,
            ValueView::INT16S(_) => ExifTagFormat::INT16S,
            ValueView::INT32S(_) => ExifTagFormat::INT32S,
            ValueView::RATIONAL64S(_) => ExifTagFormat::RATIONAL64S,
            ValueView::Raw(format, _) => format,
        }
    }

    /// Number of components that the value takes on the wire. A text takes
    /// one byte per byte of its UTF-8 form and one for the terminating zero,
    /// and at least `min_text`.
    pub open spec fn components(self, min_text: nat) -> nat {
        match self {
            ValueView::INT8U(v) => v.len(),
            ValueView::STRING(s) => if encode_utf8(s).len() + 1 >= min_text {
                encode_utf8(s).len() + 1
            } else {
                min_text
            },
            ValueView::INT16U(v) => v.len(),
            ValueView::INT32U(v) => v.len(),
            ValueView::RATIONAL64U(v) => v.len(),
            ValueView::INT8S(v) => v.len(),
            ValueView::UNDEF(v) => v.len(),
            ValueView::INT16S(v) => v.len(),
            ValueView::INT32S(v) => v.len(),
            ValueView::RATIONAL64S(v) => v.len(),
            ValueView::Raw(format, bytes) => bytes.len() / (
            format.spec_bytes_per_component() as nat),
        }
    }

    /// The bytes of the value on the wire. A text is followed by zero bytes up
    /// to its number of components.
    pub open spec fn wire_bytes(self, e: Endian, min_text: nat) -> Seq<u8> {
        match self {
            ValueView::INT8U(v) => v,
            ValueView::STRING(s) => encode_utf8(s) + zeros(
                (self.components(min_text) - encode_utf8(s).len()) as nat,
            ),
            ValueView::INT16U(v) => items_to_bytes(v, e),
            ValueView::INT32U(v) => items_to_bytes(v, e),
            ValueView::RATIONAL64U(v) => items_to_bytes(v, e),
            ValueView::INT8S(v) => items_to_bytes(v, e),
            ValueView::UNDEF(v) => v,
            ValueView::INT16S(v) => items_to_bytes(v, e),
            ValueView::INT32S(v) => items_to_bytes(v, e),
            ValueView::RATIONAL64S(v) => items_to_bytes(v, e),
            ValueView::Raw(_, bytes) => bytes,
        }
    }

    /// The value that `raw` holds when read in the given format. A text is
    /// what stands before the zero bytes at the end, and must be UTF-8.
    /// Floating-point formats stay as raw bytes.
    pub open spec fn from_wire(format: ExifTagFormat, raw: Seq<u8>, e: Endian) -> Result<
        ValueView,
        ExifError,
    > {
        match format {
            ExifTagFormat::INT8U => Ok(ValueView::INT8U(raw)),
            ExifTagFormat::STRING => if valid_utf8(trim_nul(raw)) {
                Ok(ValueView::STRING(decode_utf8(trim_nul(raw))))
            } else {
                Err(ExifError::IncompatibleFormat)
            },
            ExifTagFormat::INT16U => Ok(ValueView::INT16U(items_from_bytes::<u16>(raw, e))),
            ExifTagFormat::INT32U => Ok(ValueView::INT32U(items_from_bytes::<u32>(raw, e))),
            ExifTagFormat::RATIONAL64U => Ok(
                ValueView::RATIONAL64U(items_from_bytes::<uR64>(raw, e)),
            ),
            ExifTagFormat::INT8S => Ok(ValueView::INT8S(items_from_bytes::<i8>(raw, e))),
            ExifTagFormat::UNDEF => Ok(ValueView::UNDEF(raw)),
            ExifTagFormat::INT16S => Ok(ValueView::INT16S(items_from_bytes::<i16>(raw, e))),
            ExifTagFormat::INT32S => Ok(ValueView::INT32S(items_from_bytes::<i32>(raw, e))),
            ExifTagFormat::RATIONAL64S => Ok(
                ValueView::RATIONAL64S(items_from_bytes::<iR64>(raw, e)),
            ),
            ExifTagFormat::FLOAT => Ok(ValueView::Raw(format, raw)),
            ExifTagFormat::DOUBLE => Ok(ValueView::Raw(format, raw)),
        }
    }

    /// Whether the value comes back unchanged when its bytes are read again:
    /// a text must not end in a NUL character, which reading would take for
    /// padding, and raw bytes must make up a whole number of components.
    pub open spec fn is_canonical(self) -> bool {
        match self {
            ValueView::STRING(s) => s.len() == 0 || s.last() != '\0',
            ValueView::Raw(format, bytes) => bytes.len() % (
            format.spec_bytes_per_component() as nat) == 0,
            _ => true,
        }
    }
}

/// An owned tag value.
#[derive(Debug, PartialEq, Eq)]
pub enum TagValue {
    INT8U(Vec<u8>),
    STRING(String),
    INT16U(Vec<u16>),
    INT32U(Vec<u32>),
    RATIONAL64U(Vec<uR64>),
    INT8S(Vec<i8>),
    UNDEF(Vec<u8>),
    INT16S(Vec<i16>),
    INT32S(Vec<i32>),
    RATIONAL64S(Vec<iR64>),
    Raw(ExifTagFormat, Vec<u8>),
}

impl View for TagValue {
    type V = ValueView;

    open spec fn view(&self) -> ValueView {
        match self {
            TagValue::INT8U(v) => ValueView::INT8U(v@),
            TagValue::STRING(s) => ValueView::STRING(s@),
            TagValue::INT16U(v) => ValueView::INT16U(v@),
            TagValue::INT32U(v) => ValueView::INT32U(v@),
            TagValue::RATIONAL64U(v) => ValueView::RATIONAL64U(v@),
            TagValue::INT8S(v) => ValueView::INT8S(v@),
            TagValue::UNDEF(v) => ValueView::UNDEF(v@),
            TagValue::INT16S(v) => ValueView::INT16S(v@),
            TagValue::INT32S(v) => ValueView::INT32S(v@),
            TagValue::RATIONAL64S(v) => ValueView::RATIONAL64S(v@),
            TagValue::Raw(format, bytes) => ValueView::Raw(*format, bytes@),
        }
    }
}

/// A tag value borrowed from the tag that holds it.
pub enum ValueRef<'a> {
    INT8U(&'a Vec<u8>),
    STRING(&'a String),
    INT16U(&'a Vec<u16>),
    INT32U(&'a Vec<u32>),
    RATIONAL64U(&'a Vec<uR64>),
    INT8S(&'a Vec<i8>),
    UNDEF(&'a Vec<u8>),
    INT16S(&'a Vec<i16>),
    INT32S(&'a Vec<i32>),
    RATIONAL64S(&'a Vec<iR64>),
    Raw(ExifTagFormat, &'a Vec<u8>),
}

impl<'a> View for ValueRef<'a> {
    type V = ValueView;

    open spec fn view(&self) -> ValueView {
        match self {
            ValueRef::INT8U(v) => ValueView::INT8U(v@),
            ValueRef::STRING(s) => ValueView::STRING(s@),
            ValueRef::INT16U(v) => ValueView::INT16U(v@),
            ValueRef::INT32U(v) => ValueView::INT32U(v@),
            ValueRef::RATIONAL64U(v) => ValueView::RATIONAL64U(v@),
            ValueRef::INT8S(v) => ValueView::INT8S(v@),
            ValueRef::UNDEF(v) => ValueView::UNDEF(v@),
            ValueRef::INT16S(v) => ValueView::INT16S(v@),
            ValueRef::INT32S(v) => ValueView::INT32S(v@),
            ValueRef::RATIONAL64S(v) => ValueView::RATIONAL64S(v@),
            ValueRef::Raw(format, bytes) => ValueView::Raw(*format, bytes@),
        }
    }
}

/// Bytes read as bytes are the bytes.
pub proof fn lemma_u8_items(b: Seq<u8>, e: Endian)
    ensures
        items_from_bytes::<u8>(b, e) == b,
        items_to_bytes::<u8>(b, e) == b,
    decreases b.len(),
{
    if b.len() > 0 {
        lemma_u8_items(b.skip(1), e);
        assert(b.drop_first() =~= b.skip(1));
        assert(b.take(1)[0] == b[0]);
        assert(items_from_bytes::<u8>(b, e) =~= b);
        assert(items_to_bytes::<u8>(b, e) =~= b);
    } else {
        assert(items_from_bytes::<u8>(b, e) =~= b);
        assert(items_to_bytes::<u8>(b, e) =~= b);
    }
}

/// Zero padding behind bytes that do not end in zero is what trimming takes
/// away.
pub proof fn lemma_trim_padding(b: Seq<u8>, k: nat)
    requires
        b.len() == 0 || b.last() != 0,
    ensures
        trim_nul(b + zeros(k)) == b,
    decreases k,
{
    let padded = b + zeros(k);
    if k == 0 {
        assert(padded =~= b);
    } else {
        assert(padded.last() == 0);
        assert(padded.drop_last() =~= b + zeros((k - 1) as nat));
        lemma_trim_padding(b, (k - 1) as nat);
    }
}

/// The UTF-8 form of a text and of one more character is the form of the
/// text followed by the form of the character.
pub proof fn lemma_encode_utf8_push(s: Seq<char>, c: char)
    ensures
        encode_utf8(s.push(c)) == encode_utf8(s) + encode_scalar(c as u32),
    decreases s.len(),
{
    if s.len() == 0 {
        assert(s.push(c).drop_first() =~= s);
        assert(encode_utf8(s.push(c)) =~= encode_utf8(s) + encode_scalar(c as u32));
    } else {
        let rest = s.drop_first();
        lemma_encode_utf8_push(rest, c);
        assert(s.push(c).drop_first() =~= rest.push(c));
        assert(encode_utf8(s.push(c)) =~= encode_utf8(s) + encode_scalar(c as u32));
    }
}

/// The UTF-8 form of a character other than NUL does not end in a zero byte.
proof fn lemma_scalar_last_nonzero(c: u32)
    by (bit_vector)
    requires
        c != 0,
        c <= 0x10FFFF,
    ensures
        (c & 0x7F) as u8 != 0 || c > 0x7F,
        0x80u8 | (c & 0x3F) as u8 != 0,
{
}

/// The UTF-8 form of a text that does not end in NUL does not end in a zero
/// byte.
pub proof fn lemma_utf8_last_nonzero(s: Seq<char>)
    requires
        s.len() > 0,
        s.last() != '\0',
    ensures
        encode_utf8(s).len() > 0,
        encode_utf8(s).last() != 0,
{
    let c = s.last();
    assert(s =~= s.drop_last().push(c));
    lemma_encode_utf8_push(s.drop_last(), c);
    vstd::utf8::char_is_scalar(c);
    vstd::utf8::char_u32_cast(c, c as u32);
    vstd::utf8::char_u32_cast('\0', 0u32);
    lemma_scalar_last_nonzero(c as u32);
}

/// Number of bytes that a value takes on the wire: its components times the
/// size of one.
pub proof fn lemma_wire_len(v: ValueView, e: Endian, min_text: nat)
    requires
        v matches ValueView::Raw(format, bytes) ==> bytes.len() % (
        format.spec_bytes_per_component() as nat) == 0,
    ensures
        v.wire_bytes(e, min_text).len() == v.components(min_text)
            * v.format().spec_bytes_per_component(),
{
    match v {
        ValueView::INT16U(s) => lemma_items_to_bytes_len(s, e),
        ValueView::INT32U(s) => lemma_items_to_bytes_len(s, e),
        ValueView::RATIONAL64U(s) => lemma_items_to_bytes_len(s, e),
        ValueView::INT8S(s) => lemma_items_to_bytes_len(s, e),
        ValueView::INT16S(s) => lemma_items_to_bytes_len(s, e),
        ValueView::INT32S(s) => lemma_items_to_bytes_len(s, e),
        ValueView::RATIONAL64S(s) => lemma_items_to_bytes_len(s, e),
        ValueView::Raw(format, bytes) => {
            let size = format.spec_bytes_per_component() as nat;
            assert(bytes.len() == (bytes.len() / size) * size) by (nonlinear_arith)
                requires
                    size > 0,
                    bytes.len() % size == 0,
            ;
        },
        _ => {},
    }
}

/// Reading the bytes of a typed value in its own format gives the value back.
pub proof fn lemma_value_roundtrip(v: ValueView, e: Endian, min_text: nat)
    requires
        v.is_canonical(),
        !(v is Raw),
    ensures
        ValueView::from_wire(v.format(), v.wire_bytes(e, min_text), e) == Ok::<
            ValueView,
            ExifError,
        >(v),
{
    match v {
        ValueView::STRING(s) => {
            let b = encode_utf8(s);
            let k = (v.components(min_text) - b.len()) as nat;
            if s.len() > 0 {
                lemma_utf8_last_nonzero(s);
            }
            lemma_trim_padding(b, k);
            vstd::utf8::encode_utf8_valid_utf8(s);
            vstd::utf8::encode_utf8_decode_utf8(s);
        },
        ValueView::INT16U(s) => lemma_items_roundtrip(s, e),
        ValueView::INT32U(s) => lemma_items_roundtrip(s, e),
        ValueView::RATIONAL64U(s) => lemma_items_roundtrip(s, e),
        ValueView::INT8S(s) => lemma_items_roundtrip(s, e),
        ValueView::INT16S(s) => lemma_items_roundtrip(s, e),
        ValueView::INT32S(s) => lemma_items_roundtrip(s, e),
        ValueView::RATIONAL64S(s) => lemma_items_roundtrip(s, e),
        _ => {},
    }
}

/// `String::from_utf8` of the standard library. It returns the text whose
/// UTF-8 form the bytes are, and fails exactly when the bytes are not valid
/// UTF-8.
#[verifier::external_body]
fn string_from_utf8(bytes: Vec<u8>) -> (text: Option<String>)
    ensures
        text is Some <==> valid_utf8(bytes@),
        text matches Some(s) ==> s@ == decode_utf8(bytes@),
{
    match String::from_utf8(bytes) {
        Ok(s) => Some(s),
        Err(_) => None,
    }
}

/// The index behind the last byte of `data[from..to]` that is not zero.
fn trimmed_end(data: &Vec<u8>, from: usize, to: usize) -> (end: usize)
    requires
        from <= to <= data.len(),
    ensures
        from <= end <= to,
        data@.subrange(from as int, end as int) == trim_nul(data@.subrange(from as int, to as int)),
{
    let mut end = to;
    while end > from && data[end - 1] == 0
        invariant
            from <= end <= to <= data.len(),
            trim_nul(data@.subrange(from as int, end as int)) == trim_nul(
                data@.subrange(from as int, to as int),
            ),
        decreases end,
    {
        proof {
            let cur = data@.subrange(from as int, end as int);
            assert(cur.drop_last() =~= data@.subrange(from as int, end - 1));
        }
        end -= 1;
    }
    proof {
        let cur = data@.subrange(from as int, end as int);
        if end > from {
            assert(cur.last() == data@[end - 1]);
        }
    }
    end
}

/// The numbers of `v`, each as a 32-bit number.
pub fn widen_to_u32(v: &Vec<u16>) -> (out: Vec<u32>)
    ensures
        out@ == widen(v@),
{
    let mut out: Vec<u32> = Vec::new();
    let mut i: usize = 0;
    while i < v.len()
        invariant
            i <= v.len(),
            out@.len() == i,
            forall|k: int| 0 <= k < i ==> out@[k] == v@[k] as u32,
        decreases v.len() - i,
    {
        out.push(v[i] as u32);
        i += 1;
    }
    assert(out@ =~= widen(v@));
    out
}

/// Whether a value that was read and the value that was to be read agree.
pub open spec fn reads_as(
    got: Result<TagValue, ExifError>,
    want: Result<ValueView, ExifError>,
) -> bool {
    match (got, want) {
        (Ok(value), Ok(view)) => value@ == view,
        (Err(e1), Err(e2)) => e1 == e2,
        _ => false,
    }
}

impl TagValue {
    /// Reads `data[from..to]` as a value of the given format.
    pub fn from_wire(
        format: ExifTagFormat,
        data: &Vec<u8>,
        from: usize,
        to: usize,
        e: Endian,
    ) -> (value: Result<TagValue, ExifError>)
        requires
            from <= to <= data.len(),
        ensures
            reads_as(
                value,
                ValueView::from_wire(format, data@.subrange(from as int, to as int), e),
            ),
    {
        let ghost raw = data@.subrange(from as int, to as int);
        match format {
            ExifTagFormat::INT8U => {
                proof {
                    lemma_u8_items(raw, e);
                }
                Ok(TagValue::INT8U(from_u8_slice::<u8>(data, from, to, e)))
            },
            ExifTagFormat::STRING => {
                let end = trimmed_end(data, from, to);
                proof {
                    lemma_u8_items(data@.subrange(from as int, end as int), e);
                }
                let bytes = from_u8_slice::<u8>(data, from, end, e);
                match string_from_utf8(bytes) {
                    Some(s) => Ok(TagValue::STRING(s)),
                    None => Err(ExifError::IncompatibleFormat),
                }
            },
            ExifTagFormat::INT16U => Ok(TagValue::INT16U(from_u8_slice::<u16>(data, from, to, e))),
            ExifTagFormat::INT32U => Ok(TagValue::INT32U(from_u8_slice::<u32>(data, from, to, e))),
            ExifTagFormat::RATIONAL64U => Ok(
                TagValue::RATIONAL64U(from_u8_slice::<uR64>(data, from, to, e)),
            ),
            ExifTagFormat::INT8S => Ok(TagValue::INT8S(from_u8_slice::<i8>(data, from, to, e))),
            ExifTagFormat::UNDEF => {
                proof {
                    lemma_u8_items(raw, e);
                }
                Ok(TagValue::UNDEF(from_u8_slice::<u8>(data, from, to, e)))
            },
            ExifTagFormat::INT16S => Ok(TagValue::INT16S(from_u8_slice::<i16>(data, from, to, e))),
            ExifTagFormat::INT32S => Ok(TagValue::INT32S(from_u8_slice::<i32>(data, from, to, e))),
            ExifTagFormat::RATIONAL64S => Ok(
                TagValue::RATIONAL64S(from_u8_slice::<iR64>(data, from, to, e)),
            ),
            ExifTagFormat::FLOAT => {
                proof {
                    lemma_u8_items(raw, e);
                }
                Ok(TagValue::Raw(format, from_u8_slice::<u8>(data, from, to, e)))
            },
            ExifTagFormat::DOUBLE => {
                proof {
                    lemma_u8_items(raw, e);
                }
                Ok(TagValue::Raw(format, from_u8_slice::<u8>(data, from, to, e)))
            },
        }
    }
}

/// `Some(n)` where `n` fits in 32 bits.
fn fit_u32(n: usize) -> (r: Option<u32>)
    ensures
        r == if n <= u32::MAX {
            Some(n as u32)
        } else {
            None
        },
{
    if n as u64 <= 0xFFFF_FFFF {
        Some(n as u32)
    } else {
        None
    }
}

impl<'a> ValueRef<'a> {
    /// The on-wire format of the value.
    pub fn format(&self) -> (format: ExifTagFormat)
        ensures
            format == self@.format(),
    {
        match self {
            ValueRef::INT8U(_) => ExifTagFormat::INT8U,
            ValueRef::STRING(_) => ExifTagFormat::STRING,
            ValueRef::INT16U(_) => ExifTagFormat::INT16U,
            ValueRef::INT32U(_) => ExifTagFormat::INT32U,
            ValueRef::RATIONAL64U(_) => ExifTagFormat::RATIONAL64U,
            ValueRef::INT8S(_) => ExifTagFormat::INT8S,
            ValueRef::UNDEF(_) => ExifTagFormat::UNDEF,
            ValueRef::INT16S(_) => ExifTagFormat::INT16S,
            ValueRef::INT32S(_) => ExifTagFormat::INT32S,
            ValueRef::RATIONAL64S(_) => ExifTagFormat::RATIONAL64S,
            ValueRef::Raw(format, _) => *format,
        }
    }

    /// Number of components that the value takes on the wire, where that
    /// number fits in the 32 bits that a directory entry has for it.
    pub fn number_of_components(&self, min_text: u32) -> (count: Option<u32>)
        ensures
            count == if self@.components(min_text as nat) <= u32::MAX {
                Some(self@.components(min_text as nat) as u32)
            } else {
                None
            },
    {
        match self {
            ValueRef::INT8U(v) => fit_u32(v.len()),
            ValueRef::STRING(s) => {
                let len = s.as_str().as_bytes().len();
                if len as u64 >= 0xFFFF_FFFF {
                    None
                } else {
                    let with_nul: u32 = len as u32 + 1;
                    if with_nul >= min_text {
                        Some(with_nul)
                    } else {
                        Some(min_text)
                    }
                }
            },
            ValueRef::INT16U(v) => fit_u32(v.len()),
            ValueRef::INT32U(v) => fit_u32(v.len()),
            ValueRef::RATIONAL64U(v) => fit_u32(v.len()),
            ValueRef::INT8S(v) => fit_u32(v.len()),
            ValueRef::UNDEF(v) => fit_u32(v.len()),
            ValueRef::INT16S(v) => fit_u32(v.len()),
            ValueRef::INT32S(v) => fit_u32(v.len()),
            ValueRef::RATIONAL64S(v) => fit_u32(v.len()),
            ValueRef::Raw(format, bytes) => {
                let size = format.bytes_per_component() as usize;
                fit_u32(bytes.len() / size)
            },
        }
    }

    /// The bytes of the value on the wire.
    pub fn to_u8_vec(&self, e: Endian, min_text: u32) -> (out: Vec<u8>)
        ensures
            out@ == self@.wire_bytes(e, min_text as nat),
    {
        match self {
            ValueRef::INT8U(v) => {
                proof {
                    lemma_u8_items(v@, e);
                }
                to_u8_vec::<u8>(v, e)
            },
            ValueRef::STRING(s) => {
                let mut out = s.as_str().as_bytes_vec();
                let ghost text = out@;
                out.push(0);
                assert(out@ =~= text + zeros(1));
                while out.len() < min_text as usize
                    invariant
                        text == encode_utf8(s@),
                        text.len() < out@.len(),
                        out@.len() <= self@.components(min_text as nat),
                        out@ == text + zeros((out@.len() - text.len()) as nat),
                        self@ == ValueView::STRING(s@),
                    decreases min_text - out.len(),
                {
                    out.push(0);
                    assert(out@ =~= text + zeros((out@.len() - text.len()) as nat));
                }
                out
            },
            ValueRef::INT16U(v) => to_u8_vec::<u16>(v, e),
            ValueRef::INT32U(v) => to_u8_vec::<u32>(v, e),
            ValueRef::RATIONAL64U(v) => to_u8_vec::<uR64>(v, e),
            ValueRef::INT8S(v) => to_u8_vec::<i8>(v, e),
            ValueRef::UNDEF(v) => {
                proof {
                    lemma_u8_items(v@, e);
                }
                to_u8_vec::<u8>(v, e)
            },
            ValueRef::INT16S(v) => to_u8_vec::<i16>(v, e),
            ValueRef::INT32S(v) => to_u8_vec::<i32>(v, e),
            ValueRef::RATIONAL64S(v) => to_u8_vec::<iR64>(v, e),
            ValueRef::Raw(_, bytes) => {
                proof {
                    lemma_u8_items(bytes@, e);
                }
                to_u8_vec::<u8>(bytes, e)
            },
        }
    }

    /// An owned copy of the value.
    pub fn to_owned(&self) -> (value: TagValue)
        ensures
            value@ == self@,
    {
        match self {
            ValueRef::INT8U(v) => TagValue::INT8U((*v).clone()),
            ValueRef::STRING(s) => TagValue::STRING((*s).clone()),
            ValueRef::INT16U(v) => TagValue::INT16U((*v).clone()),
            ValueRef::INT32U(v) => TagValue::INT32U((*v).clone()),
            ValueRef::RATIONAL64U(v) => TagValue::RATIONAL64U(copy_items(v)),
            ValueRef::INT8S(v) => TagValue::INT8S((*v).clone()),
            ValueRef::UNDEF(v) => TagValue::UNDEF((*v).clone()),
            ValueRef::INT16S(v) => TagValue::INT16S((*v).clone()),
            ValueRef::INT32S(v) => TagValue::INT32S((*v).clone()),
            ValueRef::RATIONAL64S(v) => TagValue::RATIONAL64S(copy_items(v)),
            ValueRef::Raw(format, bytes) => TagValue::Raw(*format, (*bytes).clone()),
        }
    }
}

/// A copy of `v`.
pub fn copy_items<T: Copy>(v: &Vec<T>) -> (out: Vec<T>)
    ensures
        out@ == v@,
{
    let mut out: Vec<T> = Vec::new();
    let mut i: usize = 0;
    while i < v.len()
        invariant
            i <= v.len(),
            out@ == v@.take(i as int),
        decreases v.len() - i,
    {
        out.push(v[i]);
        assert(out@ =~= v@.take(i + 1));
        i += 1;
    }
    assert(v@.take(i as int) =~= v@);
    out
}

} // verus!

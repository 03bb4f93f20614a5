use vstd::prelude::*;

verus! {

/// Byte order of every multi-byte number in one EXIF payload.
#[derive(Clone, Copy, Debug, PartialEq, Eq, Structural)]
pub enum Endian {
    Big,
    Little,
}

/// The six bytes `Exif\0\0` that precede the TIFF body inside a container.
pub open spec fn spec_exif_header() -> Seq<u8> {
    seq![0x45u8, 0x78u8, 0x69u8, 0x66u8, 0x00u8, 0x00u8]
}

/// The two bytes of `x`, most significant first for `Big`.
#[verifier::opaque]
pub open spec fn u16_to_bytes(x: u16, e: Endian) -> Seq<u8> {
    match e {
        Endian::Big => seq![(x / 0x100) as u8, (x % 0x100) as u8],
        Endian::Little => seq![(x % 0x100) as u8, (x / 0x100) as u8],
    }
}

/// The number whose two bytes are `b[0]` and `b[1]`.
#[verifier::opaque]
pub open spec fn u16_from_bytes(b: Seq<u8>, e: Endian) -> u16
    recommends
        b.len() == 2,
{
    match e {
        Endian::Big => (b[0] * 0x100 + b[1]) as u16,
        Endian::Little => (b[1] * 0x100 + b[0]) as u16,
    }
}

/// The four bytes of `x`, most significant first for `Big`.
#[verifier::opaque]
pub open spec fn u32_to_bytes(x: u32, e: Endian) -> Seq<u8> {
    let b3 = (x / 0x100_0000) as u8;
    let b2 = ((x / 0x1_0000) % 0x100) as u8;
    let b1 = ((x / 0x100) % 0x100) as u8;
    let b0 = (x % 0x100) as u8;
    match e {
        Endian::Big => seq![b3, b2, b1, b0],
        Endian::Little => seq![b0, b1, b2, b3],
    }
}

/// The number whose four bytes are `b[0]` to `b[3]`.
#[verifier::opaque]
pub open spec fn u32_from_bytes(b: Seq<u8>, e: Endian) -> u32
    recommends
        b.len() == 4,
{
    match e {
        Endian::Big => (b[0] * 0x100_0000 + b[1] * 0x1_0000 + b[2] * 0x100 + b[3]) as u32,
        Endian::Little => (b[3] * 0x100_0000 + b[2] * 0x1_0000 + b[1] * 0x100 + b[0]) as u32,
    }
}

impl Endian {
    /// The two-byte byte-order mark: `II` or `MM`.
    pub open spec fn spec_mark(self) -> Seq<u8> {
        match self {
            Endian::Little => seq![0x49u8, 0x49u8],
            Endian::Big => seq![0x4du8, 0x4du8],
        }
    }

    /// The TIFF header: the mark, the number 42, and 8 as the offset of IFD0.
    pub open spec fn spec_header(self) -> Seq<u8> {
        self.spec_mark() + u16_to_bytes(42, self) + u32_to_bytes(8, self)
    }

    /// The TIFF header for this byte order.
    pub fn header(&self) -> (bytes: Vec<u8>)
        ensures
            bytes@ == self.spec_header(),
    {
        let mut bytes: Vec<u8> = Vec::new();
        match self {
            Endian::Little => {
                bytes.push(0x49);
                bytes.push(0x49);
            },
            Endian::Big => {
                bytes.push(0x4d);
                bytes.push(0x4d);
            },
        }
        push_u16(&mut bytes, 42, *self);
        push_u32(&mut bytes, 8, *self);
        assert(bytes@ =~= self.spec_header());
        bytes
    }
}

/// The EXIF preamble `Exif\0\0`.
pub fn exif_header() -> (bytes: Vec<u8>)
    ensures
        bytes@ == spec_exif_header(),
{
    let mut bytes: Vec<u8> = Vec::new();
    bytes.push(0x45);
    bytes.push(0x78);
    bytes.push(0x69);
    bytes.push(0x66);
    bytes.push(0x00);
    bytes.push(0x00);
    assert(bytes@ =~= spec_exif_header());
    bytes
}

/// Appends the two bytes of `x` to `out`.
pub fn push_u16(out: &mut Vec<u8>, x: u16, e: Endian)
    ensures
        final(out)@ == old(out)@ + u16_to_bytes(x, e),
{
    proof {
        reveal(u16_to_bytes);
    }
    let hi: u8 = (x / 0x100) as u8;
    let lo: u8 = (x % 0x100) as u8;
    match e {
        Endian::Big => {
            out.push(hi);
            out.push(lo);
        },
        Endian::Little => {
            out.push(lo);
            out.push(hi);
        },
    }
    assert(out@ =~= old(out)@ + u16_to_bytes(x, e));
}

/// Appends the four bytes of `x` to `out`.
pub fn push_u32(out: &mut Vec<u8>, x: u32, e: Endian)
    ensures
        final(out)@ == old(out)@ + u32_to_bytes(x, e),
{
    proof {
        reveal(u32_to_bytes);
    }
    let b3: u8 = (x / 0x100_0000) as u8;
    let b2: u8 = ((x / 0x1_0000) % 0x100) as u8;
    let b1: u8 = ((x / 0x100) % 0x100) as u8;
    let b0: u8 = (x % 0x100) as u8;
    match e {
        Endian::Big => {
            out.push(b3);
            out.push(b2);
            out.push(b1);
            out.push(b0);
        },
        Endian::Little => {
            out.push(b0);
            out.push(b1);
            out.push(b2);
            out.push(b3);
        },
    }
    assert(out@ =~= old(out)@ + u32_to_bytes(x, e));
}

/// Reads the two-byte number that starts at `data[at]`.
pub fn read_u16(data: &Vec<u8>, at: usize, e: Endian) -> (x: u16)
    requires
        at + 2 <= data.len(),
    ensures
        x == u16_from_bytes(data@.subrange(at as int, at + 2), e),
{
    proof {
        reveal(u16_from_bytes);
    }
    let first: u16 = data[at] as u16;
    let second: u16 = data[at + 1] as u16;
    match e {
        Endian::Big => first * 0x100 + second,
        Endian::Little => second * 0x100 + first,
    }
}

/// Reads the four-byte number that starts at `data[at]`.
pub fn read_u32(data: &Vec<u8>, at: usize, e: Endian) -> (x: u32)
    requires
        at + 4 <= data.len(),
    ensures
        x == u32_from_bytes(data@.subrange(at as int, at + 4), e),
{
    proof {
        reveal(u32_from_bytes);
    }
    let b0: u32 = data[at] as u32;
    let b1: u32 = data[at + 1] as u32;
    let b2: u32 = data[at + 2] as u32;
    let b3: u32 = data[at + 3] as u32;
    match e {
        Endian::Big => b0 * 0x100_0000 + b1 * 0x1_0000 + b2 * 0x100 + b3,
        Endian::Little => b3 * 0x100_0000 + b2 * 0x1_0000 + b1 * 0x100 + b0,
    }
}

/// Writing a number and reading it back gives the number.
pub proof fn lemma_u16_roundtrip(x: u16, e: Endian)
    ensures
        u16_to_bytes(x, e).len() == 2,
        u16_from_bytes(u16_to_bytes(x, e), e) == x,
{
    reveal(u16_to_bytes);
    reveal(u16_from_bytes);
}

/// Writing a number and reading it back gives the number.
pub proof fn lemma_u32_roundtrip(x: u32, e: Endian)
    ensures
        u32_to_bytes(x, e).len() == 4,
        u32_from_bytes(u32_to_bytes(x, e), e) == x,
{
    reveal(u32_to_bytes);
    reveal(u32_from_bytes);
    let q1 = x / 0x100;
    let q2 = x / 0x1_0000;
    let q3 = x / 0x100_0000;
    assert(q2 == q1 / 0x100);
    assert(q3 == q2 / 0x100);
    assert(x == q1 * 0x100 + x % 0x100);
    assert(q1 == q2 * 0x100 + q1 % 0x100);
    assert(q2 == q3 * 0x100 + q2 % 0x100);
    assert(q3 < 0x100);
    let b = u32_to_bytes(x, e);
    match e {
        Endian::Big => {
            assert(b[0] == q3 && b[1] == q2 % 0x100 && b[2] == q1 % 0x100 && b[3] == x % 0x100);
        },
        Endian::Little => {
            assert(b[3] == q3 && b[2] == q2 % 0x100 && b[1] == q1 % 0x100 && b[0] == x % 0x100);
        },
    }
}

} // verus!

use crate::endian::{
    lemma_u16_roundtrip, lemma_u32_roundtrip, push_u16, push_u32, read_u16, read_u32,
    u16_from_bytes, u16_to_bytes, u32_from_bytes, u32_to_bytes, Endian,
};
use vstd::prelude::*;

verus! {

/// An unsigned rational: numerator over denominator, four bytes each.
#[allow(non_camel_case_types)]
#[derive(Clone, Copy, Debug, PartialEq, Eq, Structural)]
pub struct uR64 {
    pub nominator: u32,
    pub denominator: u32,
}

/// A signed rational: numerator over denominator, four bytes each.
#[allow(non_camel_case_types)]
#[derive(Clone, Copy, Debug, PartialEq, Eq, Structural)]
pub struct iR64 {
    pub nominator: i32,
    pub denominator: i32,
}

/// The byte that holds `x` in two's complement.
pub open spec fn i8_bits(x: i8) -> u8 {
    if x < 0 {
        (x + 0x100) as u8
    } else {
        x as u8
    }
}

/// The signed number that the byte `u` holds in two's complement.
pub open spec fn i8_of_bits(u: u8) -> i8 {
    if u >= 0x80 {
        (u - 0x100) as i8
    } else {
        u as i8
    }
}

/// The 16-bit pattern that holds `x` in two's complement.
pub open spec fn i16_bits(x: i16) -> u16 {
    if x < 0 {
        (x + 0x1_0000) as u16
    } else {
        x as u16
    }
}

/// The signed number that the pattern `u` holds in two's complement.
pub open spec fn i16_of_bits(u: u16) -> i16 {
    if u >= 0x8000 {
        (u - 0x1_0000) as i16
    } else {
        u as i16
    }
}

/// The 32-bit pattern that holds `x` in two's complement.
pub open spec fn i32_bits(x: i32) -> u32 {
    if x < 0 {
        (x + 0x1_0000_0000) as u32
    } else {
        x as u32
    }
}

/// The signed number that the pattern `u` holds in two's complement.
pub open spec fn i32_of_bits(u: u32) -> i32 {
    if u >= 0x8000_0000 {
        (u - 0x1_0000_0000) as i32
    } else {
        u as i32
    }
}

fn i8_to_bits(x: i8) -> (u: u8)
    ensures
        u == i8_bits(x),
{
    if x < 0 {
        (x as i16 + 0x100) as u8
    } else {
        x as u8
    }
}

fn i8_from_bits(u: u8) -> (x: i8)
    ensures
        x == i8_of_bits(u),
{
    if u >= 0x80 {
        (u as i16 - 0x100) as i8
    } else {
        u as i8
    }
}

fn i16_to_bits(x: i16) -> (u: u16)
    ensures
        u == i16_bits(x),
{
    if x < 0 {
        (x as i32 + 0x1_0000) as u16
    } else {
        x as u16
    }
}

fn i16_from_bits(u: u16) -> (x: i16)
    ensures
        x == i16_of_bits(u),
{
    if u >= 0x8000 {
        (u as i32 - 0x1_0000) as i16
    } else {
        u as i16
    }
}

fn i32_to_bits(x: i32) -> (u: u32)
    ensures
        u == i32_bits(x),
{
    if x < 0 {
        (x as i64 + 0x1_0000_0000) as u32
    } else {
        x as u32
    }
}

fn i32_from_bits(u: u32) -> (x: i32)
    ensures
        x == i32_of_bits(u),
{
    if u >= 0x8000_0000 {
        (u as i64 - 0x1_0000_0000) as i32
    } else {
        u as i32
    }
}

/// One component of a tag value: a fixed number of bytes on the wire.
pub trait U8conversion: Sized + Copy {
    /// Number of bytes that one component takes.
    spec fn width() -> nat;

    /// The bytes of this component in the given byte order.
    spec fn wire(self, e: Endian) -> Seq<u8>;

    /// The component that the first `width()` bytes of `b` hold.
    spec fn unwire(b: Seq<u8>, e: Endian) -> Self;

    /// A component takes between one and eight bytes, and reading what was
    /// written gives the component back.
    proof fn lemma_wire(self, e: Endian)
        ensures
            1 <= Self::width() <= 8,
            self.wire(e).len() == Self::width(),
            Self::unwire(self.wire(e), e) == self,
    ;

    /// Number of bytes that one component takes.
    fn byte_width() -> (w: usize)
        ensures
            w == Self::width(),
    ;

    /// Appends the bytes of this component to `out`.
    fn put(self, e: Endian, out: &mut Vec<u8>)
        ensures
            final(out)@ == old(out)@ + self.wire(e),
    ;

    /// Reads the component that starts at `data[at]`.
    fn get(data: &Vec<u8>, at: usize, e: Endian) -> (item: Self)
        requires
            at + Self::width() <= data.len(),
        ensures
            item == Self::unwire(data@.subrange(at as int, at + Self::width()), e),
    ;
}

impl U8conversion for u8 {
    open spec fn width() -> nat {
        1
    }

    open spec fn wire(self, e: Endian) -> Seq<u8> {
        seq![self]
    }

    open spec fn unwire(b: Seq<u8>, e: Endian) -> Self {
        b[0]
    }

    proof fn lemma_wire(self, e: Endian) {
    }

    fn byte_width() -> (w: usize) {
        1
    }

    fn put(self, e: Endian, out: &mut Vec<u8>) {
        out.push(self);
    }

    fn get(data: &Vec<u8>, at: usize, e: Endian) -> (item: Self) {
        data[at]
    }
}

impl U8conversion for i8 {
    open spec fn width() -> nat {
        1
    }

    open spec fn wire(self, e: Endian) -> Seq<u8> {
        seq![i8_bits(self)]
    }

    open spec fn unwire(b: Seq<u8>, e: Endian) -> Self {
        i8_of_bits(b[0])
    }

    proof fn lemma_wire(self, e: Endian) {
    }

    fn byte_width() -> (w: usize) {
        1
    }

    fn put(self, e: Endian, out: &mut Vec<u8>) {
        out.push(i8_to_bits(self));
    }

    fn get(data: &Vec<u8>, at: usize, e: Endian) -> (item: Self) {
        i8_from_bits(data[at])
    }
}

impl U8conversion for u16 {
    open spec fn width() -> nat {
        2
    }

    open spec fn wire(self, e: Endian) -> Seq<u8> {
        u16_to_bytes(self, e)
    }

    open spec fn unwire(b: Seq<u8>, e: Endian) -> Self {
        u16_from_bytes(b, e)
    }

    proof fn lemma_wire(self, e: Endian) {
        lemma_u16_roundtrip(self, e);
    }

    fn byte_width() -> (w: usize) {
        2
    }

    fn put(self, e: Endian, out: &mut Vec<u8>) {
        push_u16(out, self, e);
    }

    fn get(data: &Vec<u8>, at: usize, e: Endian) -> (item: Self) {
        read_u16(data, at, e)
    }
}

impl U8conversion for i16 {
    open spec fn width() -> nat {
        2
    }

    open spec fn wire(self, e: Endian) -> Seq<u8> {
        u16_to_bytes(i16_bits(self), e)
    }

    open spec fn unwire(b: Seq<u8>, e: Endian) -> Self {
        i16_of_bits(u16_from_bytes(b, e))
    }

    proof fn lemma_wire(self, e: Endian) {
        lemma_u16_roundtrip(i16_bits(self), e);
    }

    fn byte_width() -> (w: usize) {
        2
    }

    fn put(self, e: Endian, out: &mut Vec<u8>) {
        push_u16(out, i16_to_bits(self), e);
    }

    fn get(data: &Vec<u8>, at: usize, e: Endian) -> (item: Self) {
        i16_from_bits(read_u16(data, at, e))
    }
}

impl U8conversion for u32 {
    open spec fn width() -> nat {
        4
    }

    open spec fn wire(self, e: Endian) -> Seq<u8> {
        u32_to_bytes(self, e)
    }

    open spec fn unwire(b: Seq<u8>, e: Endian) -> Self {
        u32_from_bytes(b, e)
    }

    proof fn lemma_wire(self, e: Endian) {
        lemma_u32_roundtrip(self, e);
    }

    fn byte_width() -> (w: usize) {
        4
    }

    fn put(self, e: Endian, out: &mut Vec<u8>) {
        push_u32(out, self, e);
    }

    fn get(data: &Vec<u8>, at: usize, e: Endian) -> (item: Self) {
        read_u32(data, at, e)
    }
}

impl U8conversion for i32 {
    open spec fn width() -> nat {
        4
    }

    open spec fn wire(self, e: Endian) -> Seq<u8> {
        u32_to_bytes(i32_bits(self), e)
    }

    open spec fn unwire(b: Seq<u8>, e: Endian) -> Self {
        i32_of_bits(u32_from_bytes(b, e))
    }

    proof fn lemma_wire(self, e: Endian) {
        lemma_u32_roundtrip(i32_bits(self), e);
    }

    fn byte_width() -> (w: usize) {
        4
    }

    fn put(self, e: Endian, out: &mut Vec<u8>) {
        push_u32(out, i32_to_bits(self), e);
    }

    fn get(data: &Vec<u8>, at: usize, e: Endian) -> (item: Self) {
        i32_from_bits(read_u32(data, at, e))
    }
}

impl U8conversion for uR64 {
    open spec fn width() -> nat {
        8
    }

    open spec fn wire(self, e: Endian) -> Seq<u8> {
        u32_to_bytes(self.nominator, e) + u32_to_bytes(self.denominator, e)
    }

    open spec fn unwire(b: Seq<u8>, e: Endian) -> Self {
        uR64 {
            nominator: u32_from_bytes(b.subrange(0, 4), e),
            denominator: u32_from_bytes(b.subrange(4, 8), e),
        }
    }

    proof fn lemma_wire(self, e: Endian) {
        let b = self.wire(e);
        lemma_u32_roundtrip(self.nominator, e);
        lemma_u32_roundtrip(self.denominator, e);
        assert(b.subrange(0, 4) =~= u32_to_bytes(self.nominator, e));
        assert(b.subrange(4, 8) =~= u32_to_bytes(self.denominator, e));
    }

    fn byte_width() -> (w: usize) {
        8
    }

    fn put(self, e: Endian, out: &mut Vec<u8>) {
        push_u32(out, self.nominator, e);
        push_u32(out, self.denominator, e);
        assert(out@ =~= old(out)@ + self.wire(e));
    }

    fn get(data: &Vec<u8>, at: usize, e: Endian) -> (item: Self) {
        let nominator = read_u32(data, at, e);
        let denominator = read_u32(data, at + 4, e);
        proof {
            let b = data@.subrange(at as int, at + 8);
            assert(b.subrange(0, 4) =~= data@.subrange(at as int, at + 4));
            assert(b.subrange(4, 8) =~= data@.subrange(at + 4, at + 8));
        }
        uR64 { nominator, denominator }
    }
}

impl U8conversion for iR64 {
    open spec fn width() -> nat {
        8
    }

    open spec fn wire(self, e: Endian) -> Seq<u8> {
        u32_to_bytes(i32_bits(self.nominator), e) + u32_to_bytes(i32_bits(self.denominator), e)
    }

    open spec fn unwire(b: Seq<u8>, e: Endian) -> Self {
        iR64 {
            nominator: i32_of_bits(u32_from_bytes(b.subrange(0, 4), e)),
            denominator: i32_of_bits(u32_from_bytes(b.subrange(4, 8), e)),
        }
    }

    proof fn lemma_wire(self, e: Endian) {
        let b = self.wire(e);
        lemma_u32_roundtrip(i32_bits(self.nominator), e);
        lemma_u32_roundtrip(i32_bits(self.denominator), e);
        assert(b.subrange(0, 4) =~= u32_to_bytes(i32_bits(self.nominator), e));
        assert(b.subrange(4, 8) =~= u32_to_bytes(i32_bits(self.denominator), e));
    }

    fn byte_width() -> (w: usize) {
        8
    }

    fn put(self, e: Endian, out: &mut Vec<u8>) {
        push_u32(out, i32_to_bits(self.nominator), e);
        push_u32(out, i32_to_bits(self.denominator), e);
        assert(out@ =~= old(out)@ + self.wire(e));
    }

    fn get(data: &Vec<u8>, at: usize, e: Endian) -> (item: Self) {
        let nominator = i32_from_bits(read_u32(data, at, e));
        let denominator = i32_from_bits(read_u32(data, at + 4, e));
        proof {
            let b = data@.subrange(at as int, at + 8);
            assert(b.subrange(0, 4) =~= data@.subrange(at as int, at + 4));
            assert(b.subrange(4, 8) =~= data@.subrange(at + 4, at + 8));
        }
        iR64 { nominator, denominator }
    }
}

/// The bytes of the components of `v`, one after the other.
pub open spec fn items_to_bytes<T: U8conversion>(v: Seq<T>, e: Endian) -> Seq<u8>
    decreases v.len(),
{
    if v.len() == 0 {
        Seq::empty()
    } else {
        v[0].wire(e) + items_to_bytes(v.drop_first(), e)
    }
}

/// The components that `b` holds, one after the other; bytes at the end that
/// do not make up a whole component are left out.
pub open spec fn items_from_bytes<T: U8conversion>(b: Seq<u8>, e: Endian) -> Seq<T>
    decreases b.len(),
{
    if T::width() == 0 || b.len() < T::width() {
        Seq::empty()
    } else {
        seq![T::unwire(b.take(T::width() as int), e)] + items_from_bytes(
            b.skip(T::width() as int),
            e,
        )
    }
}

/// `n` components take `n` times the width of one.
pub proof fn lemma_items_to_bytes_len<T: U8conversion>(v: Seq<T>, e: Endian)
    ensures
        items_to_bytes(v, e).len() == v.len() * T::width(),
    decreases v.len(),
{
    if v.len() > 0 {
        v[0].lemma_wire(e);
        lemma_items_to_bytes_len(v.drop_first(), e);
        assert(v.len() * T::width() == T::width() + (v.len() - 1) * T::width())
            by (nonlinear_arith);
    } else {
        assert(0 * T::width() == 0);
    }
}

/// A whole number of components comes out of a whole number of widths.
pub proof fn lemma_items_from_bytes_len<T: U8conversion>(b: Seq<u8>, e: Endian, n: nat)
    requires
        T::width() > 0,
        b.len() == n * T::width(),
    ensures
        items_from_bytes::<T>(b, e).len() == n,
    decreases n,
{
    if n == 0 {
        assert(0 * T::width() == 0);
    } else {
        assert(n * T::width() == T::width() + (n - 1) * T::width()) by (nonlinear_arith);
        assert((n - 1) * T::width() >= 0) by (nonlinear_arith)
            requires
                n >= 1,
                T::width() > 0,
        ;
        lemma_items_from_bytes_len::<T>(b.skip(T::width() as int), e, (n - 1) as nat);
    }
}

/// Reading the bytes of a sequence of components gives the sequence back.
pub proof fn lemma_items_roundtrip<T: U8conversion>(v: Seq<T>, e: Endian)
    ensures
        items_from_bytes::<T>(items_to_bytes(v, e), e) == v,
    decreases v.len(),
{
    let b = items_to_bytes(v, e);
    if v.len() == 0 {
        if T::width() > 0 {
        }
        assert(items_from_bytes::<T>(b, e) =~= v);
    } else {
        let w = T::width() as int;
        v[0].lemma_wire(e);
        let rest = v.drop_first();
        lemma_items_roundtrip(rest, e);
        assert(b.take(w) =~= v[0].wire(e));
        assert(b.skip(w) =~= items_to_bytes(rest, e));
        assert(items_from_bytes::<T>(b, e) =~= v);
    }
}

/// The bytes of all components of `v`, one after the other.
pub fn to_u8_vec<T: U8conversion>(v: &Vec<T>, e: Endian) -> (out: Vec<u8>)
    ensures
        out@ == items_to_bytes(v@, e),
{
    let mut out: Vec<u8> = Vec::new();
    let mut i: usize = 0;
    assert(v@.skip(0) =~= v@);
    assert(out@ + items_to_bytes(v@, e) =~= items_to_bytes(v@, e));
    while i < v.len()
        invariant
            i <= v.len(),
            out@ + items_to_bytes(v@.skip(i as int), e) == items_to_bytes(v@, e),
        decreases v.len() - i,
    {
        let item = v[i];
        let ghost before = out@;
        item.put(e, &mut out);
        proof {
            let tail = v@.skip(i as int);
            assert(tail.drop_first() =~= v@.skip(i + 1));
            assert(out@ + items_to_bytes(v@.skip(i + 1), e) =~= before + items_to_bytes(tail, e));
        }
        i += 1;
    }
    assert(v@.skip(i as int) =~= Seq::<T>::empty());
    assert(out@ =~= out@ + items_to_bytes(v@.skip(i as int), e));
    out
}

/// The components held by `data[from..to]`, one after the other.
pub fn from_u8_slice<T: U8conversion>(data: &Vec<u8>, from: usize, to: usize, e: Endian) -> (out:
    Vec<T>)
    requires
        from <= to <= data.len(),
    ensures
        out@ == items_from_bytes::<T>(data@.subrange(from as int, to as int), e),
{
    let w = T::byte_width();
    let mut out: Vec<T> = Vec::new();
    if w == 0 {
        return out;
    }
    let mut at: usize = from;
    assert(out@ + items_from_bytes::<T>(data@.subrange(from as int, to as int), e)
        =~= items_from_bytes::<T>(data@.subrange(from as int, to as int), e));
    while to - at >= w
        invariant
            w == T::width(),
            w > 0,
            from <= at <= to <= data.len(),
            out@ + items_from_bytes::<T>(data@.subrange(at as int, to as int), e)
                == items_from_bytes::<T>(data@.subrange(from as int, to as int), e),
        decreases to - at,
    {
        let item = T::get(data, at, e);
        proof {
            let tail = data@.subrange(at as int, to as int);
            assert(tail.take(w as int) =~= data@.subrange(at as int, at + w));
            assert(tail.skip(w as int) =~= data@.subrange(at + w, to as int));
            assert(out@.push(item) + items_from_bytes::<T>(data@.subrange(at + w, to as int), e)
                =~= out@ + items_from_bytes::<T>(tail, e));
        }
        out.push(item);
        at += w;
    }
    assert(out@ =~= out@ + items_from_bytes::<T>(data@.subrange(at as int, to as int), e));
    out
}

/// The components held by `bytes`, one after the other.
pub fn from_u8_vec<T: U8conversion>(bytes: &Vec<u8>, e: Endian) -> (out: Vec<T>)
    ensures
        out@ == items_from_bytes::<T>(bytes@, e),
{
    assert(bytes@.subrange(0, bytes.len() as int) =~= bytes@);
    from_u8_slice(bytes, 0, bytes.len(), e)
}

} // verus!

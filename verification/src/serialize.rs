//! Writing values in the wire format: integers in little-endian order, byte
//! strings with their length in front and padded to whole words, vectors
//! with their length in front.

use vstd::prelude::*;
use crate::raw::RawVec;

verus! {

/// The buffer that values are written to.
pub type Buf<'a> = &'a mut Vec<u8>;

/// A value that can be written in the wire format.
pub trait Serializable {
    /// The bytes of the value in the wire format. A type that does not say
    /// what they are leaves them open.
    open spec fn wire(&self) -> Seq<u8> {
        arbitrary()
    }

    /// Appends the bytes of the value to the buffer.
    fn serialize(&self, buf: &mut Vec<u8>)
        ensures
            final(buf)@ == old(buf)@ + self.wire(),
    ;
}

/// The marker in front of a vector.
pub const VECTOR_ID: u32 = 0x1cb5c415;

/// The four bytes of a 32-bit number, lowest first.
pub open spec fn le32(x: u32) -> Seq<u8> {
    seq![
        (x % 0x100) as u8,
        (x / 0x100 % 0x100) as u8,
        (x / 0x1_0000 % 0x100) as u8,
        (x / 0x100_0000) as u8,
    ]
}

/// The eight bytes of a 64-bit number, lowest first.
pub open spec fn le64(x: u64) -> Seq<u8> {
    le32((x % 0x1_0000_0000) as u32) + le32((x / 0x1_0000_0000) as u32)
}

/// As many zero bytes as after `n` bytes fill the last word of four.
pub open spec fn padding(n: nat) -> nat {
    ((4 - n % 4) % 4) as nat
}

/// `n` zero bytes.
pub open spec fn zeros(n: nat) -> Seq<u8> {
    Seq::new(n, |i: int| 0u8)
}

/// The length in front of a byte string: one byte for a length up to 253,
/// else the byte 254 and the lowest three bytes of the length, lowest first.
pub open spec fn length_prefix(len: nat) -> Seq<u8> {
    if len <= 253 {
        seq![len as u8]
    } else {
        seq![254u8, (len % 0x100) as u8, (len / 0x100 % 0x100) as u8, (len / 0x1_0000 % 0x100) as u8]
    }
}

/// A byte string in the wire format: its length, its bytes, and zero bytes
/// up to the next multiple of four.
pub open spec fn bytes_wire(s: Seq<u8>) -> Seq<u8> {
    length_prefix(s.len()) + s + zeros(padding(length_prefix(s.len()).len() + s.len()))
}

/// The elements of a list in the wire format, one after the other.
pub open spec fn elements_wire<T: Serializable>(s: Seq<T>) -> Seq<u8>
    decreases s.len(),
{
    if s.len() == 0 {
        Seq::empty()
    } else {
        elements_wire(s.drop_last()) + s.last().wire()
    }
}

/// The length in front of a vector: the lowest 32 bits of the number of its
/// elements.
pub open spec fn count_wire(len: nat) -> Seq<u8> {
    le32((len % 0x1_0000_0000) as u32)
}

fn put_le32(buf: &mut Vec<u8>, x: u32)
    ensures
        final(buf)@ == old(buf)@ + le32(x),
{
    buf.push((x % 0x100) as u8);
    buf.push((x / 0x100 % 0x100) as u8);
    buf.push((x / 0x1_0000 % 0x100) as u8);
    buf.push((x / 0x100_0000) as u8);
    assert(buf@ =~= old(buf)@ + le32(x));
}

fn put_count(buf: &mut Vec<u8>, len: usize)
    ensures
        final(buf)@ == old(buf)@ + count_wire(len as nat),
{
    put_le32(buf, (len as u64 % 0x1_0000_0000) as u32);
}

fn put_elements<T: Serializable>(buf: &mut Vec<u8>, items: &Vec<T>)
    ensures
        final(buf)@ == old(buf)@ + elements_wire(items@),
{
    let mut i: usize = 0;
    assert(items@.take(0) =~= Seq::empty());
    assert(buf@ + elements_wire(items@.take(0)) =~= buf@);
    while i < items.len()
        invariant
            i <= items@.len(),
            buf@ == old(buf)@ + elements_wire(items@.take(i as int)),
        decreases items@.len() - i,
    {
        proof {
            assert(items@.take(i + 1).drop_last() =~= items@.take(i as int));
            assert(items@.take(i + 1).last() == items@[i as int]);
        }
        items[i].serialize(buf);
        assert(buf@ =~= old(buf)@ + elements_wire(items@.take(i + 1)));
        i += 1;
    }
    assert(items@.take(i as int) =~= items@);
}

/// Appends a byte string in the wire format.
pub fn put_bytes_wire(buf: &mut Vec<u8>, s: &[u8])
    ensures
        final(buf)@ == old(buf)@ + bytes_wire(s@),
{
    let n = s.len();
    let rem: usize = if n <= 253 {
        buf.push(n as u8);
        (n % 4 + 1) % 4
    } else {
        buf.push(254);
        buf.push((n % 0x100) as u8);
        buf.push((n / 0x100 % 0x100) as u8);
        buf.push((n / 0x1_0000 % 0x100) as u8);
        n % 4
    };
    let ghost prefix = length_prefix(n as nat);
    assert(buf@ =~= old(buf)@ + prefix);
    assert(rem == (prefix.len() + n) % 4);
    let pad: usize = (4 - rem) % 4;
    buf.extend_from_slice(s);
    let ghost filled = buf@;
    let mut i: usize = 0;
    while i < pad
        invariant
            i <= pad,
            buf@ == filled + zeros(i as nat),
        decreases pad - i,
    {
        buf.push(0);
        assert(buf@ =~= filled + zeros((i + 1) as nat));
        i += 1;
    }
    assert(buf@ =~= old(buf)@ + bytes_wire(s@));
}

impl Serializable for i32 {
    open spec fn wire(&self) -> Seq<u8> {
        le32(*self as u32)
    }

    fn serialize(&self, buf: &mut Vec<u8>) {
        put_le32(buf, *self as u32);
    }
}

impl Serializable for u32 {
    open spec fn wire(&self) -> Seq<u8> {
        le32(*self)
    }

    fn serialize(&self, buf: &mut Vec<u8>) {
        put_le32(buf, *self);
    }
}

impl Serializable for i64 {
    open spec fn wire(&self) -> Seq<u8> {
        le64(*self as u64)
    }

    fn serialize(&self, buf: &mut Vec<u8>) {
        let x = *self as u64;
        put_le32(buf, (x % 0x1_0000_0000) as u32);
        put_le32(buf, (x / 0x1_0000_0000) as u32);
        assert(buf@ =~= old(buf)@ + le64(x));
    }
}

impl Serializable for [u8; 16] {
    open spec fn wire(&self) -> Seq<u8> {
        self@
    }

    fn serialize(&self, buf: &mut Vec<u8>) {
        buf.extend_from_slice(self.as_slice());
    }
}

impl Serializable for [u8; 32] {
    open spec fn wire(&self) -> Seq<u8> {
        self@
    }

    fn serialize(&self, buf: &mut Vec<u8>) {
        buf.extend_from_slice(self.as_slice());
    }
}

impl<T: Serializable> Serializable for Vec<T> {
    open spec fn wire(&self) -> Seq<u8> {
        le32(VECTOR_ID) + count_wire(self@.len()) + elements_wire(self@)
    }

    fn serialize(&self, buf: &mut Vec<u8>) {
        put_le32(buf, VECTOR_ID);
        put_count(buf, self.len());
        put_elements(buf, self);
        assert(buf@ =~= old(buf)@ + self.wire());
    }
}

impl<T: Serializable> Serializable for RawVec<T> {
    open spec fn wire(&self) -> Seq<u8> {
        count_wire(self.0@.len()) + elements_wire(self.0@)
    }

    fn serialize(&self, buf: &mut Vec<u8>) {
        put_count(buf, self.0.len());
        put_elements(buf, &self.0);
        assert(buf@ =~= old(buf)@ + self.wire());
    }
}

impl<'a> Serializable for &'a [u8] {
    open spec fn wire(&self) -> Seq<u8> {
        bytes_wire(self@)
    }

    fn serialize(&self, buf: &mut Vec<u8>) {
        put_bytes_wire(buf, *self);
    }
}

impl Serializable for String {
    open spec fn wire(&self) -> Seq<u8> {
        bytes_wire(vstd::utf8::encode_utf8(self@))
    }

    fn serialize(&self, buf: &mut Vec<u8>) {
        put_bytes_wire(buf, self.as_str().as_bytes());
    }
}

impl<'a> Serializable for &'a str {
    open spec fn wire(&self) -> Seq<u8> {
        bytes_wire(vstd::utf8::encode_utf8(self@))
    }

    fn serialize(&self, buf: &mut Vec<u8>) {
        put_bytes_wire(buf, self.as_bytes());
    }
}

impl Serializable for Vec<u8> {
    open spec fn wire(&self) -> Seq<u8> {
        bytes_wire(self@)
    }

    fn serialize(&self, buf: &mut Vec<u8>) {
        put_bytes_wire(buf, self.as_slice());
    }
}

} // verus!

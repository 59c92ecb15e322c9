//! What holds of the wire format: what is written is read back as it was,
//! and a byte string fills whole words.

use vstd::prelude::*;
use vstd::utf8::encode_utf8;
use crate::deserialize::{
    bare_vector_decodes, bytes_extent, bytes_header, bytes_value, elements_decode,
    elements_extent, from_le32, from_le64, vector_extent, Deserializable,
};
use crate::raw::{bit, flagged, CodecError, RawVec};
use crate::serialize::{
    bytes_wire, count_wire, elements_wire, le32, le64, length_prefix, padding, zeros,
    Serializable, VECTOR_ID,
};

verus! {

/// The four bytes of a number spell that number.
pub proof fn lemma_le32_round_trip(x: u32, rest: Seq<u8>)
    ensures
        le32(x).len() == 4,
        from_le32(le32(x) + rest) == x,
{
    let s = le32(x) + rest;
    assert(s[0] == le32(x)[0] && s[1] == le32(x)[1] && s[2] == le32(x)[2] && s[3] == le32(x)[3]);
}

/// The eight bytes of a number spell that number.
pub proof fn lemma_le64_round_trip(x: u64, rest: Seq<u8>)
    ensures
        le64(x).len() == 8,
        from_le64(le64(x) + rest) == x,
{
    let low = (x % 0x1_0000_0000) as u32;
    let high = (x / 0x1_0000_0000) as u32;
    let s = le64(x) + rest;
    assert(s =~= le32(low) + (le32(high) + rest));
    assert(s.skip(4) =~= le32(high) + rest);
    lemma_le32_round_trip(low, le32(high) + rest);
    lemma_le32_round_trip(high, rest);
}

/// A `u32` that was written is read back, whatever follows it.
pub proof fn lemma_u32_round_trip(x: u32, rest: Seq<u8>)
    ensures
        <u32 as Deserializable>::extent(x.wire() + rest) == Ok::<nat, CodecError>(
            x.wire().len(),
        ),
        forall|v: u32| <u32 as Deserializable>::decodes(x.wire() + rest, v) <==> v == x,
{
    lemma_le32_round_trip(x, rest);
}

/// An `i32` that was written is read back, whatever follows it.
pub proof fn lemma_i32_round_trip(x: i32, rest: Seq<u8>)
    ensures
        <i32 as Deserializable>::extent(x.wire() + rest) == Ok::<nat, CodecError>(
            x.wire().len(),
        ),
        forall|v: i32| <i32 as Deserializable>::decodes(x.wire() + rest, v) <==> v == x,
{
    lemma_le32_round_trip(x as u32, rest);
    assert((x as u32) as i32 == x) by (bit_vector);
}

/// An `i64` that was written is read back, whatever follows it.
pub proof fn lemma_i64_round_trip(x: i64, rest: Seq<u8>)
    ensures
        <i64 as Deserializable>::extent(x.wire() + rest) == Ok::<nat, CodecError>(
            x.wire().len(),
        ),
        forall|v: i64| <i64 as Deserializable>::decodes(x.wire() + rest, v) <==> v == x,
{
    lemma_le64_round_trip(x as u64, rest);
    assert((x as u64) as i64 == x) by (bit_vector);
}

/// A byte string in the wire format fills whole words of four bytes.
pub proof fn lemma_bytes_wire_aligned(s: Seq<u8>)
    ensures
        bytes_wire(s).len() % 4 == 0,
        bytes_wire(s).len() == length_prefix(s.len()).len() + s.len() + padding(
            length_prefix(s.len()).len() + s.len(),
        ),
{
}

/// The least and the greatest length of each form: the empty string is a
/// zero byte and three bytes of padding, a string of 253 bytes has one byte
/// of length in front, one of 254 bytes has the marker 254 and three.
pub proof fn lemma_bytes_wire_boundary(s: Seq<u8>)
    ensures
        s.len() == 0 ==> bytes_wire(s) == seq![0u8, 0u8, 0u8, 0u8],
        s.len() == 253 ==> bytes_wire(s) == seq![253u8] + s + zeros(2),
        s.len() == 254 ==> bytes_wire(s) == seq![254u8, 254u8, 0u8, 0u8] + s + zeros(2),
{
    if s.len() == 0 {
        assert(bytes_wire(s) =~= seq![0u8, 0u8, 0u8, 0u8]);
    }
    if s.len() == 254 {
        assert(length_prefix(254) =~= seq![254u8, 254u8, 0u8, 0u8]);
    }
}

/// A byte string that was written is read back, whatever follows it, where
/// its length fits the three bytes that the format has for it.
pub proof fn lemma_bytes_round_trip(s: Seq<u8>, rest: Seq<u8>)
    requires
        s.len() < 0x100_0000,
    ensures
        bytes_extent(bytes_wire(s) + rest) == Ok::<nat, CodecError>(bytes_wire(s).len()),
        bytes_value(bytes_wire(s) + rest) == s,
{
    let w = bytes_wire(s) + rest;
    let prefix = length_prefix(s.len());
    let n = s.len();
    assert(w[0] == prefix[0]);
    if n > 253 {
        assert(w[1] == prefix[1] && w[2] == prefix[2] && w[3] == prefix[3]);
        assert(bytes_header(w) == Ok::<(nat, nat), CodecError>((4nat, n)));
    } else {
        assert(bytes_header(w) == Ok::<(nat, nat), CodecError>((1nat, n)));
    }
    assert(w.subrange(prefix.len() as int, (prefix.len() + n) as int) =~= s);
}

/// A `Vec<u8>` that was written is read back, whatever follows it, where
/// its length fits the three bytes that the format has for it.
pub proof fn lemma_vec_u8_round_trip(x: Vec<u8>, rest: Seq<u8>)
    requires
        x@.len() < 0x100_0000,
    ensures
        <Vec<u8> as Deserializable>::extent(x.wire() + rest) == Ok::<nat, CodecError>(
            x.wire().len(),
        ),
        forall|v: Vec<u8>| <Vec<u8> as Deserializable>::decodes(x.wire() + rest, v) <==> v@ == x@,
{
    lemma_bytes_round_trip(x@, rest);
}

/// A `String` that was written is read back, whatever follows it, where the
/// length of its bytes fits the three bytes that the format has for it.
pub proof fn lemma_string_round_trip(x: String, rest: Seq<u8>)
    requires
        encode_utf8(x@).len() < 0x100_0000,
    ensures
        <String as Deserializable>::extent(x.wire() + rest) == Ok::<nat, CodecError>(
            x.wire().len(),
        ),
        forall|v: String| <String as Deserializable>::decodes(x.wire() + rest, v) <==> v@ == x@,
{
    lemma_bytes_round_trip(encode_utf8(x@), rest);
    vstd::utf8::encode_utf8_valid_utf8(x@);
    vstd::utf8::encode_utf8_decode_utf8(x@);
}

/// Whether each of the values, once written, is read back, whatever
/// follows it.
pub open spec fn each_round_trips<T: Serializable + Deserializable>(vs: Seq<T>) -> bool {
    forall|i: int, rest: Seq<u8>|
        0 <= i < vs.len() ==> #[trigger] T::extent(vs[i].wire() + rest) == Ok::<nat, CodecError>(
            vs[i].wire().len(),
        ) && T::decodes(vs[i].wire() + rest, vs[i])
}

/// Values that are written one after the other are read back one after the
/// other, where each of them is read back alone.
pub proof fn lemma_elements_round_trip<T: Serializable + Deserializable>(
    vs: Seq<T>,
    rest: Seq<u8>,
)
    requires
        each_round_trips(vs),
    ensures
        elements_extent::<T>(elements_wire(vs) + rest, vs.len()) == Ok::<nat, CodecError>(
            elements_wire(vs).len(),
        ),
        elements_decode::<T>(elements_wire(vs) + rest, vs),
    decreases vs.len(),
{
    if vs.len() > 0 {
        let init = vs.drop_last();
        let last = vs.last();
        let w = elements_wire(vs) + rest;
        assert forall|i: int, r: Seq<u8>| 0 <= i < init.len() implies #[trigger] T::extent(
            init[i].wire() + r,
        ) == Ok::<nat, CodecError>(init[i].wire().len()) && T::decodes(
            init[i].wire() + r,
            init[i],
        ) by {
            assert(init[i] == vs[i]);
        }
        lemma_elements_round_trip::<T>(init, last.wire() + rest);
        assert(w =~= elements_wire(init) + (last.wire() + rest));
        assert(w.skip(elements_wire(init).len() as int) =~= last.wire() + rest);
        assert(T::extent(vs[vs.len() - 1].wire() + rest) == Ok::<nat, CodecError>(
            last.wire().len(),
        ));
    }
}

/// A bare vector that was written is read back, whatever follows it, where
/// each of its elements is read back alone and their number fits the
/// length of a vector.
pub proof fn lemma_bare_vector_round_trip<T: Serializable + Deserializable>(
    x: RawVec<T>,
    rest: Seq<u8>,
)
    requires
        each_round_trips(x.0@),
        x.0@.len() <= 0x7fff_ffff,
    ensures
        <RawVec<T> as Deserializable>::extent(x.wire() + rest) == Ok::<nat, CodecError>(
            x.wire().len(),
        ),
        <RawVec<T> as Deserializable>::decodes(x.wire() + rest, x),
{
    let vs = x.0@;
    let w = x.wire() + rest;
    let n = (vs.len() % 0x1_0000_0000) as u32;
    lemma_le32_round_trip(n, elements_wire(vs) + rest);
    assert(w =~= le32(n) + (elements_wire(vs) + rest));
    assert(w.skip(4) =~= elements_wire(vs) + rest);
    lemma_elements_round_trip::<T>(vs, rest);
}

/// A vector that was written is read back, whatever follows it, where each
/// of its elements is read back alone and their number fits the length of
/// a vector.
pub proof fn lemma_vector_round_trip<T: Serializable + Deserializable>(x: Vec<T>, rest: Seq<u8>)
    requires
        each_round_trips(x@),
        x@.len() <= 0x7fff_ffff,
    ensures
        vector_extent::<T>(x.wire() + rest) == Ok::<nat, CodecError>(x.wire().len()),
        bare_vector_decodes::<T>((x.wire() + rest).skip(4), x@),
{
    let vs = x@;
    let w = x.wire() + rest;
    let n = (vs.len() % 0x1_0000_0000) as u32;
    let tail = count_wire(vs.len()) + elements_wire(vs) + rest;
    lemma_le32_round_trip(VECTOR_ID, tail);
    assert(w =~= le32(VECTOR_ID) + tail);
    assert(w.skip(4) =~= tail);
    lemma_le32_round_trip(n, elements_wire(vs) + rest);
    assert(tail =~= le32(n) + (elements_wire(vs) + rest));
    assert(tail.skip(4) =~= elements_wire(vs) + rest);
    lemma_elements_round_trip::<T>(vs, rest);
}

/// The flags word of two fields does not depend on the order in which
/// their bits are put together, and the bit of an absent field adds
/// nothing.
pub proof fn lemma_flags_word(a: bool, i: u32, b: bool, j: u32)
    requires
        i < 32,
        j < 32,
    ensures
        bit(a, i) | bit(b, j) == bit(b, j) | bit(a, i),
        bit(false, i) | bit(b, j) == bit(b, j),
        0u32 | bit(a, i) == bit(a, i),
{
    let x = bit(a, i);
    let y = bit(b, j);
    assert(x | y == y | x) by (bit_vector);
    assert(0u32 | y == y) by (bit_vector);
    assert(0u32 | x == x) by (bit_vector);
}

/// A flags word says of a field what was put into it: adding the bit of a
/// field makes the word say that the field is present where it is, and
/// changes nothing that the word says of the fields of other bits.
pub proof fn lemma_flags_read_back(word: u32, present: bool, i: u32, j: u32)
    requires
        i < 32,
        j < 32,
    ensures
        flagged(word | bit(present, i), i) == (flagged(word, i) || present),
        i != j ==> flagged(word | bit(present, i), j) == flagged(word, j),
        !flagged(0, i),
{
    assert((word | (1u32 << i)) & (1u32 << i) != 0) by (bit_vector)
        requires
            i < 32,
    ;
    assert((word | 0u32) == word) by (bit_vector);
    assert(i != j ==> ((word | (1u32 << i)) & (1u32 << j) != 0) == (word & (1u32 << j) != 0))
        by (bit_vector)
        requires
            i < 32,
            j < 32,
    ;
    assert(0u32 & (1u32 << i) == 0) by (bit_vector);
}

} // verus!

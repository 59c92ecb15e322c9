//! Reading values in the wire format. What is read is what `serialize`
//! writes; an input that ends too early is an error, never a panic.

use vstd::prelude::*;
use vstd::slice::slice_subrange;
use vstd::utf8::{decode_utf8, valid_utf8};
use crate::raw::{CodecError, RawVec};
use crate::serialize::{padding, VECTOR_ID};
use crate::text::to_vec;

verus! {

/// A place in a byte string, from which values are read one after the
/// other.
pub struct Cursor<'a> {
    data: &'a [u8],
    pos: usize,
}

impl<'a> Cursor<'a> {
    #[verifier::type_invariant]
    spec fn within(self) -> bool {
        self.pos <= self.data@.len()
    }

    /// The whole byte string.
    pub closed spec fn input(&self) -> Seq<u8> {
        self.data@
    }

    /// How many bytes have been read.
    pub closed spec fn position(&self) -> nat {
        self.pos as nat
    }

    /// The bytes that have not been read.
    pub open spec fn remaining(&self) -> Seq<u8> {
        self.input().skip(self.position() as int)
    }

    /// A cursor at the start of a byte string.
    pub fn new(data: &'a [u8]) -> (r: Self)
        ensures
            r.input() == data@,
            r.position() == 0,
    {
        Cursor { data, pos: 0 }
    }

    /// How many bytes are left to read.
    pub fn left(&self) -> (r: usize)
        ensures
            r == self.remaining().len(),
            self.position() + r == self.input().len(),
    {
        proof {
            use_type_invariant(self);
        }
        self.data.len() - self.pos
    }

    /// Reads the next `n` bytes. Where fewer are left, nothing is read.
    pub fn read_exact(&mut self, n: usize) -> (r: Result<&'a [u8], CodecError>)
        ensures
            final(self).input() == old(self).input(),
            match r {
                Ok(b) => n <= old(self).remaining().len() && b@ == old(self).remaining().take(
                    n as int,
                ) && final(self).position() == old(self).position() + n,
                Err(e) => e == CodecError::IO && n > old(self).remaining().len() && final(self).position() == old(self).position(),
            },
    {
        proof {
            use_type_invariant(&*self);
        }
        if n > self.data.len() - self.pos {
            return Err(CodecError::IO);
        }
        let b = slice_subrange(self.data, self.pos, self.pos + n);
        assert(b@ =~= self.data@.skip(self.pos as int).take(n as int));
        self.pos = self.pos + n;
        Ok(b)
    }
}

/// A value that can be read in the wire format.
pub trait Deserializable: Sized {
    /// How many bytes the value at the front of `s` takes, or why no value
    /// stands there. A type that does not say so leaves it open.
    open spec fn extent(s: Seq<u8>) -> Result<nat, CodecError> {
        arbitrary()
    }

    /// Whether `v` is the value at the front of `s`. A type that does not
    /// say so leaves it open.
    open spec fn decodes(s: Seq<u8>, v: Self) -> bool {
        arbitrary()
    }

    /// Reads a value. On success the cursor stands after the value.
    fn deserialize(buf: &mut Cursor) -> (r: Result<Self, CodecError>)
        ensures
            final(buf).input() == old(buf).input(),
            final(buf).position() >= old(buf).position(),
            match Self::extent(old(buf).remaining()) {
                Ok(n) => r matches Ok(v) && Self::decodes(old(buf).remaining(), v) && final(buf).position() == old(buf).position() + n,
                Err(e) => r matches Err(x) && x == e,
            },
    ;
}

/// The 32-bit number whose four bytes, lowest first, begin `s`.
pub open spec fn from_le32(s: Seq<u8>) -> u32 {
    (s[0] + s[1] * 0x100 + s[2] * 0x1_0000 + s[3] * 0x100_0000) as u32
}

/// The 64-bit number whose eight bytes, lowest first, begin `s`.
pub open spec fn from_le64(s: Seq<u8>) -> u64 {
    (from_le32(s) + from_le32(s.skip(4)) * 0x1_0000_0000) as u64
}

/// `n` bytes, where the input is that long.
pub open spec fn fixed(s: Seq<u8>, n: nat) -> Result<nat, CodecError> {
    if s.len() >= n {
        Ok(n)
    } else {
        Err(CodecError::IO)
    }
}

fn get_le32(buf: &mut Cursor) -> (r: Result<u32, CodecError>)
    ensures
        final(buf).input() == old(buf).input(),
        final(buf).position() >= old(buf).position(),
        match fixed(old(buf).remaining(), 4) {
            Ok(n) => r == Ok::<u32, CodecError>(from_le32(old(buf).remaining())) && final(buf).position() == old(buf).position() + 4,
            Err(e) => r == Err::<u32, CodecError>(e),
        },
{
    let b = buf.read_exact(4)?;
    Ok(b[0] as u32 + (b[1] as u32) * 0x100 + (b[2] as u32) * 0x1_0000 + (b[3] as u32) * 0x100_0000)
}

fn get_le64(buf: &mut Cursor) -> (r: Result<u64, CodecError>)
    ensures
        final(buf).input() == old(buf).input(),
        final(buf).position() >= old(buf).position(),
        match fixed(old(buf).remaining(), 8) {
            Ok(n) => r == Ok::<u64, CodecError>(from_le64(old(buf).remaining())) && final(buf).position() == old(buf).position() + 8,
            Err(e) => r == Err::<u64, CodecError>(e),
        },
{
    let b = buf.read_exact(8)?;
    assert(b@.skip(4) =~= old(buf).remaining().skip(4).take(4));
    let low = b[0] as u64 + (b[1] as u64) * 0x100 + (b[2] as u64) * 0x1_0000 + (b[3] as u64)
        * 0x100_0000;
    let high = b[4] as u64 + (b[5] as u64) * 0x100 + (b[6] as u64) * 0x1_0000 + (b[7] as u64)
        * 0x100_0000;
    Ok(low + high * 0x1_0000_0000)
}

impl Deserializable for i32 {
    open spec fn extent(s: Seq<u8>) -> Result<nat, CodecError> {
        fixed(s, 4)
    }

    open spec fn decodes(s: Seq<u8>, v: Self) -> bool {
        v == from_le32(s) as i32
    }

    fn deserialize(buf: &mut Cursor) -> (r: Result<Self, CodecError>) {
        Ok(get_le32(buf)? as i32)
    }
}

impl Deserializable for u32 {
    open spec fn extent(s: Seq<u8>) -> Result<nat, CodecError> {
        fixed(s, 4)
    }

    open spec fn decodes(s: Seq<u8>, v: Self) -> bool {
        v == from_le32(s)
    }

    fn deserialize(buf: &mut Cursor) -> (r: Result<Self, CodecError>) {
        get_le32(buf)
    }
}

impl Deserializable for i64 {
    open spec fn extent(s: Seq<u8>) -> Result<nat, CodecError> {
        fixed(s, 8)
    }

    open spec fn decodes(s: Seq<u8>, v: Self) -> bool {
        v == from_le64(s) as i64
    }

    fn deserialize(buf: &mut Cursor) -> (r: Result<Self, CodecError>) {
        Ok(get_le64(buf)? as i64)
    }
}

/// Where the bytes of the byte string at the front of `s` begin, and how
/// many they are: after one byte that is the length, or, where that byte is
/// 254, after three more that are the length, lowest first.
pub open spec fn bytes_header(s: Seq<u8>) -> Result<(nat, nat), CodecError> {
    if s.len() < 1 {
        Err(CodecError::IO)
    } else if s[0] == 254 {
        if s.len() < 4 {
            Err(CodecError::IO)
        } else {
            Ok((4, (s[1] + s[2] * 0x100 + s[3] * 0x1_0000) as nat))
        }
    } else {
        Ok((1, s[0] as nat))
    }
}

/// How many bytes the byte string at the front of `s` takes, with its
/// length in front and its padding behind.
pub open spec fn bytes_extent(s: Seq<u8>) -> Result<nat, CodecError> {
    match bytes_header(s) {
        Ok((start, len)) => fixed(s, start + len + padding(start + len)),
        Err(e) => Err(e),
    }
}

/// The bytes of the byte string at the front of `s`.
pub open spec fn bytes_value(s: Seq<u8>) -> Seq<u8> {
    match bytes_header(s) {
        Ok((start, len)) => s.subrange(start as int, (start + len) as int),
        Err(_) => Seq::empty(),
    }
}

/// Reads a byte string in the wire format.
pub fn get_bytes_wire<'a>(buf: &mut Cursor<'a>) -> (r: Result<&'a [u8], CodecError>)
    ensures
        final(buf).input() == old(buf).input(),
        final(buf).position() >= old(buf).position(),
        match bytes_extent(old(buf).remaining()) {
            Ok(n) => r matches Ok(v) && v@ == bytes_value(old(buf).remaining()) && final(buf).position() == old(buf).position() + n,
            Err(e) => r matches Err(x) && x == e,
        },
{
    let ghost s = buf.remaining();
    let ghost start = buf.position() as int;
    proof {
        use_type_invariant(&*buf);
    }
    let first = match buf.read_exact(1) {
        Ok(b) => b[0],
        Err(e) => {
            return Err(e);
        },
    };
    assert(first == s[0]);
    assert(buf.remaining() =~= s.skip(1));
    let (len, used): (usize, usize) = if first == 254 {
        let b = match buf.read_exact(3) {
            Ok(b) => b,
            Err(e) => {
                return Err(e);
            },
        };
        assert(b@ =~= s.subrange(1, 4));
        (b[0] as usize + (b[1] as usize) * 0x100 + (b[2] as usize) * 0x1_0000, 4)
    } else {
        (first as usize, 1)
    };
    assert(bytes_header(s) == Ok::<(nat, nat), CodecError>((used as nat, len as nat)));
    let pad: usize = (4 - (used + len) % 4) % 4;
    assert(pad == padding((used + len) as nat));
    assert(buf.position() == start + used);
    assert(buf.remaining() =~= s.skip(used as int));
    let left = buf.left();
    if left < len || left - len < pad {
        return Err(CodecError::IO);
    }
    let value = match buf.read_exact(len) {
        Ok(v) => v,
        Err(e) => {
            return Err(e);
        },
    };
    assert(value@ =~= s.subrange(used as int, used + len));
    assert(buf.remaining() =~= s.skip(used + len));
    match buf.read_exact(pad) {
        Ok(_) => Ok(value),
        Err(e) => Err(e),
    }
}

impl Deserializable for Vec<u8> {
    open spec fn extent(s: Seq<u8>) -> Result<nat, CodecError> {
        bytes_extent(s)
    }

    open spec fn decodes(s: Seq<u8>, v: Self) -> bool {
        v@ == bytes_value(s)
    }

    fn deserialize(buf: &mut Cursor) -> (r: Result<Self, CodecError>) {
        Ok(to_vec(get_bytes_wire(buf)?))
    }
}

/// `String::from_utf8`: the string that the bytes spell in UTF-8, or
/// nothing where they are no UTF-8.
#[verifier::external_body]
fn string_from_utf8(bytes: Vec<u8>) -> (r: Option<String>)
    ensures
        match r {
            Some(s) => valid_utf8(bytes@) && s@ == decode_utf8(bytes@),
            None => !valid_utf8(bytes@),
        },
{
    String::from_utf8(bytes).ok()
}

impl Deserializable for String {
    open spec fn extent(s: Seq<u8>) -> Result<nat, CodecError> {
        match bytes_extent(s) {
            Ok(n) => if valid_utf8(bytes_value(s)) {
                Ok(n)
            } else {
                Err(CodecError::InvalidUtf8)
            },
            Err(e) => Err(e),
        }
    }

    open spec fn decodes(s: Seq<u8>, v: Self) -> bool {
        v@ == decode_utf8(bytes_value(s))
    }

    fn deserialize(buf: &mut Cursor) -> (r: Result<Self, CodecError>) {
        let bytes = to_vec(get_bytes_wire(buf)?);
        match string_from_utf8(bytes) {
            Some(s) => Ok(s),
            None => Err(CodecError::InvalidUtf8),
        }
    }
}

/// How many bytes the first `n` values at the front of `s` take, one after
/// the other, or why there are not that many.
pub open spec fn elements_extent<T: Deserializable>(s: Seq<u8>, n: nat) -> Result<nat, CodecError>
    decreases n,
{
    if n == 0 {
        Ok(0)
    } else {
        match elements_extent::<T>(s, (n - 1) as nat) {
            Ok(k) => match T::extent(s.skip(k as int)) {
                Ok(m) => Ok(k + m),
                Err(e) => Err(e),
            },
            Err(e) => Err(e),
        }
    }
}

/// Whether `vs` are the first values at the front of `s`, one after the
/// other.
pub open spec fn elements_decode<T: Deserializable>(s: Seq<u8>, vs: Seq<T>) -> bool
    decreases vs.len(),
{
    if vs.len() == 0 {
        true
    } else {
        &&& elements_decode::<T>(s, vs.drop_last())
        &&& elements_extent::<T>(s, (vs.len() - 1) as nat) matches Ok(k) && T::decodes(
            s.skip(k as int),
            vs.last(),
        )
    }
}

/// The length in front of a vector: a 32-bit number that is not negative.
pub open spec fn count_of(s: Seq<u8>) -> Result<nat, CodecError> {
    if s.len() < 4 {
        Err(CodecError::IO)
    } else if from_le32(s) > 0x7fff_ffff {
        Err(CodecError::InvalidVector)
    } else {
        Ok(from_le32(s) as nat)
    }
}

/// How many bytes the bare vector at the front of `s` takes: its length
/// and its elements.
pub open spec fn bare_vector_extent<T: Deserializable>(s: Seq<u8>) -> Result<nat, CodecError> {
    match count_of(s) {
        Ok(n) => match elements_extent::<T>(s.skip(4), n) {
            Ok(k) => Ok(4 + k),
            Err(e) => Err(e),
        },
        Err(e) => Err(e),
    }
}

/// Whether `vs` are the elements of the bare vector at the front of `s`.
pub open spec fn bare_vector_decodes<T: Deserializable>(s: Seq<u8>, vs: Seq<T>) -> bool {
    count_of(s) == Ok::<nat, CodecError>(vs.len()) && elements_decode::<T>(s.skip(4), vs)
}

/// How many bytes the vector at the front of `s` takes: the marker of
/// vectors, its length and its elements.
pub open spec fn vector_extent<T: Deserializable>(s: Seq<u8>) -> Result<nat, CodecError> {
    if s.len() < 4 {
        Err(CodecError::IO)
    } else if from_le32(s) != VECTOR_ID {
        Err(CodecError::InvalidVector)
    } else {
        match bare_vector_extent::<T>(s.skip(4)) {
            Ok(k) => Ok(4 + k),
            Err(e) => Err(e),
        }
    }
}

/// Once the values at the front cannot be read, more of them cannot
/// either, for the same reason.
pub proof fn lemma_elements_error<T: Deserializable>(s: Seq<u8>, n: nat, m: nat)
    requires
        n <= m,
        elements_extent::<T>(s, n) is Err,
    ensures
        elements_extent::<T>(s, m) == elements_extent::<T>(s, n),
    decreases m,
{
    if n < m {
        lemma_elements_error::<T>(s, n, (m - 1) as nat);
    }
}

fn get_elements<T: Deserializable>(buf: &mut Cursor, n: usize) -> (r: Result<Vec<T>, CodecError>)
    ensures
        final(buf).input() == old(buf).input(),
        final(buf).position() >= old(buf).position(),
        match elements_extent::<T>(old(buf).remaining(), n as nat) {
            Ok(k) => r matches Ok(v) && v@.len() == n && elements_decode::<T>(
                old(buf).remaining(),
                v@,
            ) && final(buf).position() == old(buf).position() + k,
            Err(e) => r matches Err(x) && x == e,
        },
{
    let ghost s = buf.remaining();
    let ghost start = buf.position();
    let ghost mut done: nat = 0;
    let mut out: Vec<T> = Vec::new();
    let mut i: usize = 0;
    proof {
        use_type_invariant(&*buf);
    }
    while i < n
        invariant
            i <= n,
            out@.len() == i,
            buf.input() == old(buf).input(),
            s == old(buf).remaining(),
            start == old(buf).position(),
            start + done <= buf.input().len(),
            buf.position() == start + done,
            elements_extent::<T>(s, i as nat) == Ok::<nat, CodecError>(done),
            elements_decode::<T>(s, out@),
        decreases n - i,
    {
        assert(buf.remaining() =~= s.skip(done as int));
        let ghost before = out@;
        match T::deserialize(buf) {
            Ok(v) => {
                proof {
                    use_type_invariant(&*buf);
                    let k = T::extent(s.skip(done as int))->Ok_0;
                    assert(before.push(v).drop_last() =~= before);
                    done = done + k;
                }
                out.push(v);
            },
            Err(e) => {
                proof {
                    lemma_elements_error::<T>(s, (i + 1) as nat, n as nat);
                }
                return Err(e);
            },
        }
        i += 1;
    }
    Ok(out)
}

fn get_count(buf: &mut Cursor) -> (r: Result<usize, CodecError>)
    ensures
        final(buf).input() == old(buf).input(),
        final(buf).position() >= old(buf).position(),
        match count_of(old(buf).remaining()) {
            Ok(n) => r == Ok::<usize, CodecError>(n as usize) && n <= 0x7fff_ffff && final(buf).position() == old(buf).position() + 4,
            Err(e) => r == Err::<usize, CodecError>(e),
        },
{
    let n = get_le32(buf)?;
    if n > 0x7fff_ffff {
        Err(CodecError::InvalidVector)
    } else {
        Ok(n as usize)
    }
}

/// Reads a bare vector: its length, then its elements.
pub fn get_bare_vector<T: Deserializable>(buf: &mut Cursor) -> (r: Result<Vec<T>, CodecError>)
    ensures
        final(buf).input() == old(buf).input(),
        final(buf).position() >= old(buf).position(),
        match bare_vector_extent::<T>(old(buf).remaining()) {
            Ok(k) => r matches Ok(v) && bare_vector_decodes::<T>(old(buf).remaining(), v@)
                && final(buf).position() == old(buf).position() + k,
            Err(e) => r matches Err(x) && x == e,
        },
{
    let ghost s = buf.remaining();
    proof {
        use_type_invariant(&*buf);
    }
    let n = get_count(buf)?;
    proof {
        use_type_invariant(&*buf);
        assert(buf.remaining() =~= s.skip(4));
    }
    get_elements::<T>(buf, n)
}

impl<T: Deserializable> Deserializable for RawVec<T> {
    open spec fn extent(s: Seq<u8>) -> Result<nat, CodecError> {
        bare_vector_extent::<T>(s)
    }

    open spec fn decodes(s: Seq<u8>, v: Self) -> bool {
        bare_vector_decodes::<T>(s, v.0@)
    }

    fn deserialize(buf: &mut Cursor) -> (r: Result<Self, CodecError>) {
        Ok(RawVec(get_bare_vector::<T>(buf)?))
    }
}

impl<T: Deserializable> Deserializable for Vec<T> {
    open spec fn extent(s: Seq<u8>) -> Result<nat, CodecError> {
        vector_extent::<T>(s)
    }

    open spec fn decodes(s: Seq<u8>, v: Self) -> bool {
        bare_vector_decodes::<T>(s.skip(4), v@)
    }

    fn deserialize(buf: &mut Cursor) -> (r: Result<Self, CodecError>) {
        let ghost s = buf.remaining();
        proof {
            use_type_invariant(&*buf);
        }
        let marker = get_le32(buf)?;
        if marker != VECTOR_ID {
            return Err(CodecError::InvalidVector);
        }
        proof {
            use_type_invariant(&*buf);
            assert(buf.remaining() =~= s.skip(4));
        }
        get_bare_vector::<T>(buf)
    }
}

fn get_array<const N: usize>(buf: &mut Cursor) -> (r: Result<[u8; N], CodecError>)
    ensures
        final(buf).input() == old(buf).input(),
        final(buf).position() >= old(buf).position(),
        match fixed(old(buf).remaining(), N as nat) {
            Ok(n) => r matches Ok(v) && v@ == old(buf).remaining().take(N as int) && final(
                buf).position() == old(buf).position() + N,
            Err(e) => r matches Err(x) && x == e,
        },
{
    let b = buf.read_exact(N)?;
    let mut out = [0u8; N];
    let mut i: usize = 0;
    while i < N
        invariant
            i <= N,
            b@.len() == N,
            out@.len() == N,
            forall|j: int| 0 <= j < i ==> out@[j] == b@[j],
        decreases N - i,
    {
        out[i] = b[i];
        i += 1;
    }
    assert(out@ =~= b@);
    Ok(out)
}

impl Deserializable for [u8; 16] {
    open spec fn extent(s: Seq<u8>) -> Result<nat, CodecError> {
        fixed(s, 16)
    }

    open spec fn decodes(s: Seq<u8>, v: Self) -> bool {
        v@ == s.take(16)
    }

    fn deserialize(buf: &mut Cursor) -> (r: Result<Self, CodecError>) {
        get_array::<16>(buf)
    }
}

impl Deserializable for [u8; 32] {
    open spec fn extent(s: Seq<u8>) -> Result<nat, CodecError> {
        fixed(s, 32)
    }

    open spec fn decodes(s: Seq<u8>, v: Self) -> bool {
        v@ == s.take(32)
    }

    fn deserialize(buf: &mut Cursor) -> (r: Result<Self, CodecError>) {
        get_array::<32>(buf)
    }
}

} // verus!

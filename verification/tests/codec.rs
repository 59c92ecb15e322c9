use tl_schema::deserialize::{get_bytes_wire, Cursor, Deserializable};
use tl_schema::raw::{flag_bit, CodecError, RawVec};
use tl_schema::serialize::{put_bytes_wire, Serializable};

fn written<T: Serializable>(x: T) -> Vec<u8> {
    let mut buf = Vec::new();
    x.serialize(&mut buf);
    buf
}

fn read<T: Deserializable>(bytes: &[u8]) -> (Result<T, CodecError>, usize) {
    let mut cursor = Cursor::new(bytes);
    let r = T::deserialize(&mut cursor);
    (r, bytes.len() - cursor.left())
}

#[test]
fn integers_are_little_endian() {
    assert_eq!(written(0x0102_0304i32), vec![4, 3, 2, 1]);
    assert_eq!(written(-2i32), vec![0xfe, 0xff, 0xff, 0xff]);
    assert_eq!(written(0x1cb5c415u32), vec![0x15, 0xc4, 0xb5, 0x1c]);
    assert_eq!(written(0x0102_0304_0506_0708i64), vec![8, 7, 6, 5, 4, 3, 2, 1]);
    assert_eq!(written(-1i64), vec![0xff; 8]);
    assert_eq!(written(i64::MIN), vec![0, 0, 0, 0, 0, 0, 0, 0x80]);
}

#[test]
fn integers_round_trip() {
    for x in [0i32, 1, -1, i32::MIN, i32::MAX, 0x7f80_0102] {
        assert_eq!(read::<i32>(&written(x)), (Ok(x), 4));
    }
    for x in [0u32, 1, u32::MAX, 0x8000_0000, 0x1cb5c415] {
        assert_eq!(read::<u32>(&written(x)), (Ok(x), 4));
    }
    for x in [0i64, 1, -1, i64::MIN, i64::MAX, 0x0102_0304_0506_0708] {
        assert_eq!(read::<i64>(&written(x)), (Ok(x), 8));
    }
}

#[test]
fn reading_leaves_what_follows() {
    let mut bytes = written(7i32);
    bytes.extend_from_slice(&[9, 9]);
    assert_eq!(read::<i32>(&bytes), (Ok(7), 4));
}

#[test]
fn truncated_integers_are_errors() {
    assert_eq!(read::<i32>(&[1, 2, 3]), (Err(CodecError::IO), 0));
    assert_eq!(read::<u32>(&[]), (Err(CodecError::IO), 0));
    assert_eq!(read::<i64>(&[1, 2, 3, 4, 5, 6, 7]), (Err(CodecError::IO), 0));
}

#[test]
fn empty_string_is_a_zero_and_three_bytes_of_padding() {
    assert_eq!(written(String::new()), vec![0, 0, 0, 0]);
    assert_eq!(written(""), vec![0, 0, 0, 0]);
    assert_eq!(written(Vec::<u8>::new()), vec![0, 0, 0, 0]);
    assert_eq!(read::<Vec<u8>>(&[0, 0, 0, 0]), (Ok(vec![]), 4));
    assert_eq!(read::<String>(&[0, 0, 0, 0]), (Ok(String::new()), 4));
}

#[test]
fn string_of_253_bytes_has_one_byte_of_length() {
    let s = vec![7u8; 253];
    let w = written(s.clone());
    assert_eq!(w.len(), 256);
    assert_eq!(w[0], 253);
    assert_eq!(&w[1..254], &s[..]);
    assert_eq!(&w[254..], &[0, 0]);
    assert_eq!(read::<Vec<u8>>(&w), (Ok(s), 256));
}

#[test]
fn string_of_254_bytes_has_the_marker() {
    let s = vec![7u8; 254];
    let w = written(s.clone());
    assert_eq!(w.len(), 260);
    assert_eq!(&w[..4], &[254, 254, 0, 0]);
    assert_eq!(&w[4..258], &s[..]);
    assert_eq!(&w[258..], &[0, 0]);
    assert_eq!(read::<Vec<u8>>(&w), (Ok(s), 260));
}

#[test]
fn long_string_length_is_three_bytes_little_endian() {
    let s = vec![1u8; 0x01_02_03];
    let w = written(&s[..]);
    assert_eq!(&w[..4], &[254, 3, 2, 1]);
    assert_eq!(w.len(), 4 + 0x01_02_03 + 1);
    assert_eq!(w[w.len() - 1], 0);
    assert_eq!(read::<Vec<u8>>(&w), (Ok(s), w.len()));
}

#[test]
fn strings_are_padded_to_words() {
    assert_eq!(written("a"), vec![1, b'a', 0, 0]);
    assert_eq!(written("ab"), vec![2, b'a', b'b', 0]);
    assert_eq!(written("abc"), vec![3, b'a', b'b', b'c']);
    assert_eq!(written("abcd"), vec![4, b'a', b'b', b'c', b'd', 0, 0, 0]);
    assert_eq!(written(String::from("h\u{e9}")), vec![3, b'h', 0xc3, 0xa9]);
    for n in 0..600usize {
        assert_eq!(written(vec![1u8; n]).len() % 4, 0);
    }
}

#[test]
fn strings_round_trip() {
    for s in ["", "a", "ab", "abc", "abcd", "h\u{e9}llo \u{1f600}"] {
        let w = written(s);
        assert_eq!(read::<String>(&w), (Ok(s.to_string()), w.len()));
    }
    let long = "x".repeat(1000);
    let w = written(long.clone());
    assert_eq!(read::<String>(&w), (Ok(long), w.len()));
}

#[test]
fn put_and_get_bytes_agree() {
    let mut buf = vec![0xaa];
    put_bytes_wire(&mut buf, &[1, 2, 3, 4, 5]);
    assert_eq!(buf, vec![0xaa, 5, 1, 2, 3, 4, 5, 0, 0]);
    let mut cursor = Cursor::new(&buf[1..]);
    assert_eq!(get_bytes_wire(&mut cursor), Ok(&[1u8, 2, 3, 4, 5][..]));
    assert_eq!(cursor.left(), 0);
}

#[test]
fn truncated_strings_are_errors() {
    assert_eq!(read::<Vec<u8>>(&[]).0, Err(CodecError::IO));
    assert_eq!(read::<Vec<u8>>(&[3, 1, 2]).0, Err(CodecError::IO));
    assert_eq!(read::<Vec<u8>>(&[1, 1, 0]).0, Err(CodecError::IO));
    assert_eq!(read::<Vec<u8>>(&[254, 1, 0]).0, Err(CodecError::IO));
    assert_eq!(read::<Vec<u8>>(&[254, 5, 0, 0, 1, 2, 3, 4]).0, Err(CodecError::IO));
    assert_eq!(read::<Vec<u8>>(&[254, 5, 0, 0, 1, 2, 3, 4, 5, 0, 0]).0, Err(CodecError::IO));
    assert_eq!(
        read::<Vec<u8>>(&[254, 5, 0, 0, 1, 2, 3, 4, 5, 0, 0, 0]),
        (Ok(vec![1, 2, 3, 4, 5]), 12)
    );
    assert_eq!(read::<String>(&[2, b'a']).0, Err(CodecError::IO));
}

#[test]
fn invalid_text_is_an_error() {
    assert_eq!(read::<String>(&[1, 0xff, 0, 0]), (Err(CodecError::InvalidUtf8), 4));
    assert_eq!(read::<String>(&[2, 0xc3, 0x28, 0]), (Err(CodecError::InvalidUtf8), 4));
    assert_eq!(read::<Vec<u8>>(&[1, 0xff, 0, 0]), (Ok(vec![0xff]), 4));
}

#[test]
fn cursor_reads_on_success_only() {
    let data = [1u8, 2, 3];
    let mut cursor = Cursor::new(&data);
    assert_eq!(cursor.left(), 3);
    assert_eq!(cursor.read_exact(2), Ok(&[1u8, 2][..]));
    assert_eq!(cursor.left(), 1);
    assert_eq!(cursor.read_exact(2), Err(CodecError::IO));
    assert_eq!(cursor.left(), 1);
    assert_eq!(cursor.read_exact(0), Ok(&[][..]));
    assert_eq!(cursor.read_exact(1), Ok(&[3u8][..]));
    assert_eq!(cursor.read_exact(1), Err(CodecError::IO));
}

#[test]
fn vectors_have_marker_and_count() {
    assert_eq!(
        written(vec![1i32, 2]),
        vec![0x15, 0xc4, 0xb5, 0x1c, 2, 0, 0, 0, 1, 0, 0, 0, 2, 0, 0, 0]
    );
    assert_eq!(written(Vec::<i64>::new()), vec![0x15, 0xc4, 0xb5, 0x1c, 0, 0, 0, 0]);
    assert_eq!(
        written(vec![String::from("a")]),
        vec![0x15, 0xc4, 0xb5, 0x1c, 1, 0, 0, 0, 1, b'a', 0, 0]
    );
}

#[test]
fn bare_vectors_have_the_count_only() {
    assert_eq!(written(RawVec(vec![1i32, 2])), vec![2, 0, 0, 0, 1, 0, 0, 0, 2, 0, 0, 0]);
    assert_eq!(written(RawVec(Vec::<u32>::new())), vec![0, 0, 0, 0]);
}

#[test]
fn arrays_are_their_bytes() {
    let mut a = [0u8; 16];
    a[0] = 1;
    a[15] = 9;
    assert_eq!(written(a), a.to_vec());
    let b = [3u8; 32];
    assert_eq!(written(b), b.to_vec());
}

#[test]
fn serialize_appends() {
    let mut buf = vec![1u8, 2];
    5i32.serialize(&mut buf);
    "x".serialize(&mut buf);
    assert_eq!(buf, vec![1, 2, 5, 0, 0, 0, 1, b'x', 0, 0]);
}

#[test]
fn flags_word_of_the_second_field_alone_is_two() {
    assert_eq!(flag_bit(false, 0) | flag_bit(true, 1), 2);
    assert_eq!(flag_bit(true, 1) | flag_bit(false, 0), 2);
    assert_eq!(0u32 | flag_bit(true, 0) | flag_bit(true, 1), 3);
    assert_eq!(flag_bit(false, 31), 0);
    assert_eq!(flag_bit(true, 31), 0x8000_0000);
}

#[test]
fn vectors_round_trip() {
    let v = vec![1i32, -2, 3];
    let w = written(vec![1i32, -2, 3]);
    assert_eq!(read::<Vec<i32>>(&w), (Ok(v), w.len()));
    let names = vec![String::from("a"), String::new(), String::from("h\u{e9}llo")];
    let w = written(vec![String::from("a"), String::new(), String::from("h\u{e9}llo")]);
    assert_eq!(read::<Vec<String>>(&w), (Ok(names), w.len()));
    let nested = vec![vec![1i64], vec![], vec![2, 3]];
    let w = written(vec![vec![1i64], vec![], vec![2, 3]]);
    assert_eq!(read::<Vec<Vec<i64>>>(&w), (Ok(nested), w.len()));
    let w = written(Vec::<u32>::new());
    assert_eq!(read::<Vec<u32>>(&w), (Ok(vec![]), 8));
    let mut w = written(vec![7u32]);
    w.extend_from_slice(&[1, 2, 3]);
    assert_eq!(read::<Vec<u32>>(&w), (Ok(vec![7]), 12));
}

#[test]
fn bare_vectors_round_trip() {
    let w = written(RawVec(vec![1i32, -2, 3]));
    assert_eq!(read::<RawVec<i32>>(&w), (Ok(RawVec(vec![1, -2, 3])), 16));
    let w = written(RawVec(vec![vec![1u8, 2], vec![]]));
    assert_eq!(read::<RawVec<Vec<u8>>>(&w), (Ok(RawVec(vec![vec![1u8, 2], vec![]])), 12));
    assert_eq!(read::<RawVec<i32>>(&[0, 0, 0, 0]), (Ok(RawVec(vec![])), 4));
}

#[test]
fn a_vector_of_bytes_is_a_byte_string() {
    assert_eq!(written(vec![1u8, 2]), vec![2, 1, 2, 0]);
    assert_eq!(read::<Vec<u8>>(&[2, 1, 2, 0]), (Ok(vec![1, 2]), 4));
}

#[test]
fn malformed_vectors_are_errors() {
    assert_eq!(read::<Vec<i32>>(&[0x15, 0xc4, 0xb5]).0, Err(CodecError::IO));
    assert_eq!(read::<Vec<i32>>(&[0x15, 0xc4, 0xb5, 0x1d, 0, 0, 0, 0]).0, Err(CodecError::InvalidVector));
    assert_eq!(read::<Vec<i32>>(&[0, 0, 0, 0, 0, 0, 0, 0]).0, Err(CodecError::InvalidVector));
    assert_eq!(read::<Vec<i32>>(&[0x15, 0xc4, 0xb5, 0x1c, 1, 0]).0, Err(CodecError::IO));
    assert_eq!(
        read::<Vec<i32>>(&[0x15, 0xc4, 0xb5, 0x1c, 0xff, 0xff, 0xff, 0xff]).0,
        Err(CodecError::InvalidVector)
    );
    assert_eq!(
        read::<Vec<i32>>(&[0x15, 0xc4, 0xb5, 0x1c, 0, 0, 0, 0x80]).0,
        Err(CodecError::InvalidVector)
    );
    assert_eq!(
        read::<Vec<i32>>(&[0x15, 0xc4, 0xb5, 0x1c, 2, 0, 0, 0, 1, 0, 0, 0, 2, 0, 0]).0,
        Err(CodecError::IO)
    );
    assert_eq!(
        read::<Vec<i32>>(&[0x15, 0xc4, 0xb5, 0x1c, 0xff, 0xff, 0xff, 0x7f, 1, 0, 0, 0]).0,
        Err(CodecError::IO)
    );
    assert_eq!(read::<RawVec<i32>>(&[1, 0, 0]).0, Err(CodecError::IO));
    assert_eq!(read::<RawVec<i32>>(&[1, 0, 0, 0, 9]).0, Err(CodecError::IO));
    assert_eq!(read::<RawVec<i32>>(&[0, 0, 0, 0x80]).0, Err(CodecError::InvalidVector));
    assert_eq!(
        read::<Vec<String>>(&[0x15, 0xc4, 0xb5, 0x1c, 1, 0, 0, 0, 1, 0xff, 0, 0]).0,
        Err(CodecError::InvalidUtf8)
    );
}

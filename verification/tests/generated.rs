use tl_schema::combinators::schema;
use tl_schema::deserialize;
use tl_schema::deserialize::Cursor;
use tl_schema::generate::generate_code;
use tl_schema::serialize;
use tl_schema::{flag_bit, has_flag, CodecError, Deserializable, Identificable, Serializable};

// The record that is generated for
// `msg#0000002a id:int flags:# text:flags.1?string extra:flags?bytes = Msg;`,
// and the sum type of its result type, as they stand in the generated
// modules.
const MSG_CODE: &str = "    pub struct Msg {
        pub id: i32,
        pub text: Option<String>,
        pub extra: Option<Vec<u8>>,
    }
    impl crate::Identificable for Msg { const ID: u32 = 42; }
    impl crate::Serializable for Msg {
        fn serialize(&self, buf: crate::serialize::Buf) {
            self.id.serialize(buf);
            (0u32 | crate::flag_bit(self.text.is_some(), 1) | crate::flag_bit(self.extra.is_some(), 0)).serialize(buf);
            if let Some(ref x) = self.text {
                x.serialize(buf);
            }
            if let Some(ref x) = self.extra {
                x.serialize(buf);
            }
        }
    }
    impl crate::Deserializable for Msg {
        fn deserialize(buf: &mut crate::deserialize::Cursor) -> Result<Self, crate::CodecError> {
            let id = <i32 as crate::Deserializable>::deserialize(buf)?;
            let flags = <u32 as crate::Deserializable>::deserialize(buf)?;
            let text = if crate::has_flag(flags, 1) { Some(<String as crate::Deserializable>::deserialize(buf)?) } else { None };
            let extra = if crate::has_flag(flags, 0) { Some(<Vec<u8> as crate::Deserializable>::deserialize(buf)?) } else { None };
            Ok(Self { id, text, extra, })
        }
    }
";

const MSG_ENUM_CODE: &str = "    pub enum Msg {
        Msg(crate::types::Msg),
    }
    impl crate::Serializable for Msg {
        fn serialize(&self, buf: crate::serialize::Buf) {
            use crate::Identificable;
            match self {
                Self::Msg(x) => {
                    crate::types::Msg::ID.serialize(buf);
                    x.serialize(buf);
                }
            }
        }
    }
    impl crate::Deserializable for Msg {
        fn deserialize(buf: &mut crate::deserialize::Cursor) -> Result<Self, crate::CodecError> {
            let id = <u32 as crate::Deserializable>::deserialize(buf)?;
            if id == <crate::types::Msg as crate::Identificable>::ID {
                return Ok(Self::Msg(<crate::types::Msg as crate::Deserializable>::deserialize(buf)?));
            }
            Err(crate::CodecError::InvalidId)
        }
    }
";

// The records and the sum type that are generated for
// `leaf#00000001 = Tree;` and `fork#00000002 left:Tree right:Tree = Tree;`.
const TREE_CODE: &str = "    pub struct Leaf {
    }
    impl crate::Identificable for Leaf { const ID: u32 = 1; }
    impl crate::Serializable for Leaf {
        fn serialize(&self, buf: crate::serialize::Buf) {
        }
    }
    impl crate::Deserializable for Leaf {
        fn deserialize(buf: &mut crate::deserialize::Cursor) -> Result<Self, crate::CodecError> {
            Ok(Self { })
        }
    }
    pub struct Fork {
        pub left: crate::enums::Tree,
        pub right: crate::enums::Tree,
    }
    impl crate::Identificable for Fork { const ID: u32 = 2; }
    impl crate::Serializable for Fork {
        fn serialize(&self, buf: crate::serialize::Buf) {
            self.left.serialize(buf);
            self.right.serialize(buf);
        }
    }
    impl crate::Deserializable for Fork {
        fn deserialize(buf: &mut crate::deserialize::Cursor) -> Result<Self, crate::CodecError> {
            let left = <crate::enums::Tree as crate::Deserializable>::deserialize(buf)?;
            let right = <crate::enums::Tree as crate::Deserializable>::deserialize(buf)?;
            Ok(Self { left, right, })
        }
    }
";

const TREE_ENUM_CODE: &str = "    pub enum Tree {
        Leaf(crate::types::Leaf),
        Fork(Box<crate::types::Fork>),
    }
    impl crate::Serializable for Tree {
        fn serialize(&self, buf: crate::serialize::Buf) {
            use crate::Identificable;
            match self {
                Self::Leaf(x) => {
                    crate::types::Leaf::ID.serialize(buf);
                    x.serialize(buf);
                }
                Self::Fork(x) => {
                    crate::types::Fork::ID.serialize(buf);
                    x.serialize(buf);
                }
            }
        }
    }
    impl crate::Deserializable for Tree {
        fn deserialize(buf: &mut crate::deserialize::Cursor) -> Result<Self, crate::CodecError> {
            let id = <u32 as crate::Deserializable>::deserialize(buf)?;
            if id == <crate::types::Leaf as crate::Identificable>::ID {
                return Ok(Self::Leaf(<crate::types::Leaf as crate::Deserializable>::deserialize(buf)?));
            }
            if id == <crate::types::Fork as crate::Identificable>::ID {
                return Ok(Self::Fork(Box::new(<crate::types::Fork as crate::Deserializable>::deserialize(buf)?)));
            }
            Err(crate::CodecError::InvalidId)
        }
    }
";

#[test]
fn the_recursive_code_below_is_what_is_generated() {
    let (_, mut parsed) = schema(
        b"leaf#00000001 = Tree;\nfork#00000002 left:Tree right:Tree = Tree;\n---functions---\nf = Tree;",
    )
    .unwrap();
    parsed.calculate_ids();
    let mut out = Vec::new();
    generate_code(&mut out, parsed, 1).unwrap();
    let code = String::from_utf8(out).unwrap();
    assert!(code.contains(TREE_CODE), "{}", code);
    assert!(code.contains(TREE_ENUM_CODE), "{}", code);
}

#[test]
fn the_code_below_is_what_is_generated() {
    let (_, mut parsed) = schema(
        b"msg#0000002a id:int flags:# text:flags.1?string extra:flags?bytes = Msg;\n---functions---\nf = Msg;",
    )
    .unwrap();
    parsed.calculate_ids();
    let mut out = Vec::new();
    generate_code(&mut out, parsed, 1).unwrap();
    let code = String::from_utf8(out).unwrap();
    assert!(code.contains(MSG_CODE), "{}", code);
    assert!(code.contains(MSG_ENUM_CODE), "{}", code);
}

// From here on the generated code itself, with the sum type under the name
// `MsgEnum` and the record under `Msg`, since both stand in one file here,
// and with the import of the serialization at the head of the file.

#[derive(Debug, PartialEq)]
pub struct Msg {
    pub id: i32,
    pub text: Option<String>,
    pub extra: Option<Vec<u8>>,
}
impl crate::Identificable for Msg { const ID: u32 = 42; }
impl crate::Serializable for Msg {
    fn serialize(&self, buf: crate::serialize::Buf) {
        self.id.serialize(buf);
        (0u32 | crate::flag_bit(self.text.is_some(), 1) | crate::flag_bit(self.extra.is_some(), 0)).serialize(buf);
        if let Some(ref x) = self.text {
            x.serialize(buf);
        }
        if let Some(ref x) = self.extra {
            x.serialize(buf);
        }
    }
}
impl crate::Deserializable for Msg {
    fn deserialize(buf: &mut crate::deserialize::Cursor) -> Result<Self, crate::CodecError> {
        let id = <i32 as crate::Deserializable>::deserialize(buf)?;
        let flags = <u32 as crate::Deserializable>::deserialize(buf)?;
        let text = if crate::has_flag(flags, 1) { Some(<String as crate::Deserializable>::deserialize(buf)?) } else { None };
        let extra = if crate::has_flag(flags, 0) { Some(<Vec<u8> as crate::Deserializable>::deserialize(buf)?) } else { None };
        Ok(Self { id, text, extra, })
    }
}

#[derive(Debug, PartialEq)]
pub enum MsgEnum {
    Msg(Msg),
}
impl crate::Serializable for MsgEnum {
    fn serialize(&self, buf: crate::serialize::Buf) {
        match self {
            Self::Msg(x) => {
                Msg::ID.serialize(buf);
                x.serialize(buf);
            }
        }
    }
}
impl crate::Deserializable for MsgEnum {
    fn deserialize(buf: &mut crate::deserialize::Cursor) -> Result<Self, crate::CodecError> {
        let id = <u32 as crate::Deserializable>::deserialize(buf)?;
        if id == <Msg as crate::Identificable>::ID {
            return Ok(Self::Msg(<Msg as crate::Deserializable>::deserialize(buf)?));
        }
        Err(crate::CodecError::InvalidId)
    }
}

#[derive(Debug, PartialEq)]
pub struct Leaf {
}
impl crate::Identificable for Leaf { const ID: u32 = 1; }
impl crate::Serializable for Leaf {
    fn serialize(&self, buf: crate::serialize::Buf) {
    }
}
impl crate::Deserializable for Leaf {
    fn deserialize(buf: &mut crate::deserialize::Cursor) -> Result<Self, crate::CodecError> {
        Ok(Self { })
    }
}
#[derive(Debug, PartialEq)]
pub struct Fork {
    pub left: Tree,
    pub right: Tree,
}
impl crate::Identificable for Fork { const ID: u32 = 2; }
impl crate::Serializable for Fork {
    fn serialize(&self, buf: crate::serialize::Buf) {
        self.left.serialize(buf);
        self.right.serialize(buf);
    }
}
impl crate::Deserializable for Fork {
    fn deserialize(buf: &mut crate::deserialize::Cursor) -> Result<Self, crate::CodecError> {
        let left = <Tree as crate::Deserializable>::deserialize(buf)?;
        let right = <Tree as crate::Deserializable>::deserialize(buf)?;
        Ok(Self { left, right, })
    }
}

#[derive(Debug, PartialEq)]
pub enum Tree {
    Leaf(Leaf),
    Fork(Box<Fork>),
}
impl crate::Serializable for Tree {
    fn serialize(&self, buf: crate::serialize::Buf) {
        match self {
            Self::Leaf(x) => {
                Leaf::ID.serialize(buf);
                x.serialize(buf);
            }
            Self::Fork(x) => {
                Fork::ID.serialize(buf);
                x.serialize(buf);
            }
        }
    }
}
impl crate::Deserializable for Tree {
    fn deserialize(buf: &mut crate::deserialize::Cursor) -> Result<Self, crate::CodecError> {
        let id = <u32 as crate::Deserializable>::deserialize(buf)?;
        if id == <Leaf as crate::Identificable>::ID {
            return Ok(Self::Leaf(<Leaf as crate::Deserializable>::deserialize(buf)?));
        }
        if id == <Fork as crate::Identificable>::ID {
            return Ok(Self::Fork(Box::new(<Fork as crate::Deserializable>::deserialize(buf)?)));
        }
        Err(crate::CodecError::InvalidId)
    }
}

fn written<T: Serializable>(x: &T) -> Vec<u8> {
    let mut buf = Vec::new();
    x.serialize(&mut buf);
    buf
}

fn read<T: Deserializable>(bytes: &[u8]) -> Result<T, CodecError> {
    let mut cursor = Cursor::new(bytes);
    let r = T::deserialize(&mut cursor)?;
    assert_eq!(cursor.left(), 0);
    Ok(r)
}

#[test]
fn only_the_field_of_bit_one_present_gives_the_flags_word_two() {
    let first = Msg { id: 7, text: Some("a".to_string()), extra: None };
    assert_eq!(written(&first), vec![7, 0, 0, 0, 2, 0, 0, 0, 1, b'a', 0, 0]);
    let mut second = Msg { extra: None, id: 0, text: None };
    second.text = Some("a".to_string());
    second.id = 7;
    assert_eq!(written(&second), written(&first));
}

#[test]
fn flags_word_of_every_presence() {
    let word = |m: &Msg| written(m)[4..8].to_vec();
    assert_eq!(word(&Msg { id: 0, text: None, extra: None }), vec![0, 0, 0, 0]);
    assert_eq!(word(&Msg { id: 0, text: None, extra: Some(vec![]) }), vec![1, 0, 0, 0]);
    assert_eq!(word(&Msg { id: 0, text: Some(String::new()), extra: None }), vec![2, 0, 0, 0]);
    assert_eq!(
        word(&Msg { id: 0, text: Some(String::new()), extra: Some(vec![]) }),
        vec![3, 0, 0, 0]
    );
}

#[test]
fn records_round_trip_with_and_without_their_optional_fields() {
    for text in [None, Some("h\u{e9}llo".to_string())] {
        for extra in [None, Some(vec![]), Some(vec![1u8, 2, 3, 4, 5])] {
            let m = Msg { id: -5, text: text.clone(), extra: extra.clone() };
            assert_eq!(read::<Msg>(&written(&m)), Ok(m));
        }
    }
}

#[test]
fn sum_types_write_the_id_first_and_round_trip() {
    let m = MsgEnum::Msg(Msg { id: 1, text: None, extra: Some(vec![9]) });
    let w = written(&m);
    assert_eq!(&w[..4], &[42, 0, 0, 0]);
    assert_eq!(&w[4..], &written(&Msg { id: 1, text: None, extra: Some(vec![9]) })[..]);
    assert_eq!(read::<MsgEnum>(&w), Ok(m));
    assert_eq!(read::<MsgEnum>(&[43, 0, 0, 0]), Err(CodecError::InvalidId));
    assert_eq!(read::<MsgEnum>(&[42, 0, 0, 0, 1, 0]), Err(CodecError::IO));
    assert_eq!(read::<MsgEnum>(&[42, 0]), Err(CodecError::IO));
}

#[test]
fn flags_are_read_as_they_are_written() {
    for index in 0..32u32 {
        assert!(has_flag(flag_bit(true, index), index));
        assert!(!has_flag(flag_bit(false, index), index));
        for other in 0..32u32 {
            if other != index {
                assert!(!has_flag(flag_bit(true, other), index));
                assert!(has_flag(flag_bit(true, other) | flag_bit(true, index), index));
            }
        }
    }
    assert!(has_flag(u32::MAX, 31));
    assert!(!has_flag(0, 0));
}

#[test]
fn recursive_variants_round_trip() {
    let leaf = || Tree::Leaf(Leaf {});
    let fork = |left: Tree, right: Tree| Tree::Fork(Box::new(Fork { left, right }));
    assert_eq!(written(&leaf()), vec![1, 0, 0, 0]);
    let small = fork(leaf(), leaf());
    assert_eq!(written(&small), vec![2, 0, 0, 0, 1, 0, 0, 0, 1, 0, 0, 0]);
    assert_eq!(read::<Tree>(&written(&small)), Ok(small));
    let deep = fork(fork(leaf(), fork(leaf(), leaf())), fork(fork(leaf(), leaf()), leaf()));
    let w = written(&deep);
    assert_eq!(w.len(), 4 * 11);
    assert_eq!(read::<Tree>(&w), Ok(deep));
    assert_eq!(read::<Tree>(&w[..w.len() - 1]), Err(CodecError::IO));
    assert_eq!(read::<Tree>(&[2, 0, 0, 0, 1, 0, 0, 0, 3, 0, 0, 0]), Err(CodecError::InvalidId));
}

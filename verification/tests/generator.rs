use tl_schema::combinators::{combinator_declaration, schema};
use tl_schema::enums::write_enums;
use tl_schema::errors::GenError;
use tl_schema::formatter::{builtin_type, escape_builtin_kw, Rustifiable};
use tl_schema::generate::generate_code;
use tl_schema::metadata::Metadata;
use tl_schema::structs::{
    get_generic_arg, get_generic_impl, get_generic_name, get_struct_field_type, write_structs,
};
use tl_schema::types::{Arg, CombinatorDecl, IdentNs, ResType, ResTypeNormal, TLSchema};

fn parsed(text: &str) -> TLSchema {
    let (_, mut s) = schema(text.as_bytes()).unwrap();
    s.calculate_ids();
    s
}

fn generated(text: &str) -> Result<String, GenError> {
    let mut out = Vec::new();
    generate_code(&mut out, parsed(text), 142)?;
    Ok(String::from_utf8(out).unwrap())
}

fn decl(text: &str) -> CombinatorDecl {
    combinator_declaration(text.as_bytes()).unwrap().1
}

fn field(text: &str) -> Arg {
    let decl = decl(&format!("x {} = X;", text));
    decl.args.into_iter().next().unwrap()
}

fn field_type(text: &str, generics: &[&str]) -> Result<String, GenError> {
    let generics: Vec<Vec<u8>> = generics.iter().map(|g| g.as_bytes().to_vec()).collect();
    get_struct_field_type(&field(text), &generics).map(|t| String::from_utf8(t).unwrap())
}

fn ident(ns: Option<&str>, name: &str) -> IdentNs {
    IdentNs { namespace: ns.map(|n| n.as_bytes().to_vec()), name: name.as_bytes().to_vec() }
}

const BOOL: &str = "boolFalse#bc799737 = Bool;\nboolTrue#997275b5 = Bool;\n---functions---\nping#7abe77ec ping_id:long = Bool;";

const BOOL_CODE: &str = "pub const LAYER: u32 = 142;
#[allow(clippy::large_enum_variant, non_snake_case)]
pub mod types {
    pub struct BoolFalse {
    }
    impl crate::Identificable for BoolFalse { const ID: u32 = 3162085175; }
    impl crate::Serializable for BoolFalse {
        fn serialize(&self, buf: crate::serialize::Buf) {
        }
    }
    impl crate::Deserializable for BoolFalse {
        fn deserialize(buf: &mut crate::deserialize::Cursor) -> Result<Self, crate::CodecError> {
            Ok(Self { })
        }
    }
    pub struct BoolTrue {
    }
    impl crate::Identificable for BoolTrue { const ID: u32 = 2574415285; }
    impl crate::Serializable for BoolTrue {
        fn serialize(&self, buf: crate::serialize::Buf) {
        }
    }
    impl crate::Deserializable for BoolTrue {
        fn deserialize(buf: &mut crate::deserialize::Cursor) -> Result<Self, crate::CodecError> {
            Ok(Self { })
        }
    }
}
#[allow(clippy::large_enum_variant, non_snake_case)]
pub mod enums {
    pub enum Bool {
        BoolFalse(crate::types::BoolFalse),
        BoolTrue(crate::types::BoolTrue),
    }
    impl crate::Serializable for Bool {
        fn serialize(&self, buf: crate::serialize::Buf) {
            use crate::Identificable;
            match self {
                Self::BoolFalse(x) => {
                    crate::types::BoolFalse::ID.serialize(buf);
                    x.serialize(buf);
                }
                Self::BoolTrue(x) => {
                    crate::types::BoolTrue::ID.serialize(buf);
                    x.serialize(buf);
                }
            }
        }
    }
    impl crate::Deserializable for Bool {
        fn deserialize(buf: &mut crate::deserialize::Cursor) -> Result<Self, crate::CodecError> {
            let id = <u32 as crate::Deserializable>::deserialize(buf)?;
            if id == <crate::types::BoolFalse as crate::Identificable>::ID {
                return Ok(Self::BoolFalse(<crate::types::BoolFalse as crate::Deserializable>::deserialize(buf)?));
            }
            if id == <crate::types::BoolTrue as crate::Identificable>::ID {
                return Ok(Self::BoolTrue(<crate::types::BoolTrue as crate::Deserializable>::deserialize(buf)?));
            }
            Err(crate::CodecError::InvalidId)
        }
    }
}
#[allow(clippy::large_enum_variant, non_snake_case)]
pub mod functions {
}

";

#[test]
fn two_constructors_of_one_result_type_make_one_sum_type() {
    assert_eq!(generated(BOOL).unwrap(), BOOL_CODE);
}

#[test]
fn generating_twice_gives_the_same_bytes() {
    let text = "z.b = z.B;\na.b = a.B;\nzz = Zz;\nb = Aa;\na.a = a.B;\n---functions---\nf = Zz;";
    let first = generated(text).unwrap();
    for _ in 0..5 {
        assert_eq!(generated(text).unwrap(), first);
    }
}

#[test]
fn generate_code_appends() {
    let mut out = b"// head\n".to_vec();
    generate_code(&mut out, parsed(BOOL), 142).unwrap();
    assert_eq!(String::from_utf8(out).unwrap(), format!("// head\n{}", BOOL_CODE));
}

#[test]
fn namespaces_and_result_types_stand_in_order_of_their_names() {
    let code =
        generated("z.b = z.B;\na.b = a.B;\nzz = Zz;\nb = Aa;\na.a = a.B;\n---functions---\nf = Zz;")
            .unwrap();
    let at = |needle: &str| code.find(needle).unwrap_or_else(|| panic!("{} is missing", needle));
    let types = at("pub mod types {");
    let enums = at("pub mod enums {");
    assert!(types < at("    pub struct Zz {"));
    assert!(at("    pub struct Zz {") < at("    pub struct B {"));
    assert!(at("    pub struct B {") < at("    pub mod a {"));
    assert!(at("    pub mod a {") < at("        pub struct B {"));
    assert!(at("        pub struct B {") < at("        pub struct A {"));
    assert!(at("        pub struct A {") < at("    pub mod z {"));
    assert!(at("    pub mod z {") < enums);
    assert!(enums < at("    pub enum Aa {"));
    assert!(at("    pub enum Aa {") < at("    pub enum Zz {"));
    assert_eq!(code.matches("    pub mod a {").count(), 2);
    assert_eq!(code.matches("    pub mod z {").count(), 2);
    assert!(code
        .contains("        pub enum B {\n            B(crate::types::a::B),\n            A(crate::types::a::A),\n        }\n"));
}

#[test]
fn equal_declarations_are_generated_once() {
    let code = generated("a#00000001 = A;\na#00000001 = A;\na#00000002 = A;\n---types---\na#00000001 = A;").unwrap();
    assert_eq!(code.matches("    impl crate::Identificable for A { const ID: u32 = 1; }").count(), 1);
    assert_eq!(code.matches("    impl crate::Identificable for A { const ID: u32 = 2; }").count(), 1);
    assert_eq!(code.matches("        A(crate::types::A),").count(), 2);
}

#[test]
fn flags_word_is_made_of_the_fields_that_are_present() {
    let code = generated(
        "msg#0000002a id:int flags:# text:flags.1?string extra:flags?bytes = Msg;\n---functions---\nf = Msg;",
    )
    .unwrap();
    assert!(code.contains(
        "    pub struct Msg {
        pub id: i32,
        pub text: Option<String>,
        pub extra: Option<Vec<u8>>,
    }
    impl crate::Identificable for Msg { const ID: u32 = 42; }
    impl crate::Serializable for Msg {
        fn serialize(&self, buf: crate::serialize::Buf) {
            self.id.serialize(buf);
            (0u32 | crate::flag_bit(self.text.is_some(), 1) | crate::flag_bit(self.extra.is_some(), 0)).serialize(buf);
            if let Some(ref x) = self.text {
                x.serialize(buf);
            }
            if let Some(ref x) = self.extra {
                x.serialize(buf);
            }
        }
    }
"
    ));
    assert!(!code.contains("pub flags"));
}

#[test]
fn generic_parameters_reach_fields_and_impls() {
    let code =
        generated("vector#1cb5c415 {t:Type} # [ t ] = Vector t;\n---functions---\nf = Vector;").unwrap();
    assert!(code.contains(
        "    pub struct Vector<T> {
        pub nat: u32,
        pub inner_list: Vec<T>,
    }
    impl<T> crate::Identificable for Vector<T> { const ID: u32 = 481674261; }
    impl<T: crate::Serializable> crate::Serializable for Vector<T> {
        fn serialize(&self, buf: crate::serialize::Buf) {
            self.nat.serialize(buf);
            self.inner_list.serialize(buf);
        }
    }
"
    ));
    assert!(code.contains(
        "    pub enum Vector<T> {
        Vector(crate::types::Vector<T>),
    }
    impl<T: crate::Serializable> crate::Serializable for Vector<T> {
        fn serialize(&self, buf: crate::serialize::Buf) {
            use crate::Identificable;
            match self {
                Self::Vector(x) => {
                    crate::types::Vector::<T>::ID.serialize(buf);
                    x.serialize(buf);
                }
            }
        }
    }
"
    ));
}

#[test]
fn a_variant_that_holds_its_own_type_is_boxed() {
    let code = generated(
        "ns.node#00000007 value:int flags:# next:flags.0?ns.List = ns.List;\nns.nil#00000008 = ns.List;\nleaf#00000001 = Tree;\nfork#00000002 left:Tree right:Tree = Tree;\n---functions---\nf = Tree;",
    )
    .unwrap();
    assert!(code.contains(
        "        pub enum List {\n            Node(Box<crate::types::ns::Node>),\n            Nil(crate::types::ns::Nil),\n        }\n"
    ));
    assert!(code.contains(
        "    pub enum Tree {\n        Leaf(crate::types::Leaf),\n        Fork(Box<crate::types::Fork>),\n    }\n"
    ));
    assert!(code.contains("        pub next: Option<crate::enums::ns::List>,\n"));
}

#[test]
fn enum_generics_are_those_of_all_variants_each_once() {
    let code = generated(
        "a#00000001 {t:Type} x:t = R;\nb#00000002 {u:Type} y:u = R;\nc#00000003 {t:Type} z:t = R;\n---functions---\nf = R;",
    )
    .unwrap();
    assert!(code.contains(
        "    pub enum R<T,U> {\n        A(crate::types::A<T>),\n        B(crate::types::B<U>),\n        C(crate::types::C<T>),\n    }\n"
    ));
    assert!(code.contains(
        "    impl<T: crate::Serializable,U: crate::Serializable> crate::Serializable for R<T,U> {\n"
    ));
}

#[test]
fn field_types() {
    assert_eq!(field_type("a:int", &[]).unwrap(), "i32");
    assert_eq!(field_type("a:long", &[]).unwrap(), "i64");
    assert_eq!(field_type("a:double", &[]).unwrap(), "f64");
    assert_eq!(field_type("a:string", &[]).unwrap(), "String");
    assert_eq!(field_type("a:bytes", &[]).unwrap(), "Vec<u8>");
    assert_eq!(field_type("a:#", &[]).unwrap(), "u32");
    assert_eq!(field_type("#", &[]).unwrap(), "u32");
    assert_eq!(field_type("a:Foo", &[]).unwrap(), "crate::enums::Foo");
    assert_eq!(field_type("a:foo_bar", &[]).unwrap(), "crate::types::FooBar");
    assert_eq!(field_type("a:ns.Foo", &[]).unwrap(), "crate::enums::ns::Foo");
    assert_eq!(field_type("a:%Foo", &[]).unwrap(), "crate::enums::Foo");
    assert_eq!(field_type("a:f.1?Foo", &[]).unwrap(), "Option<crate::enums::Foo>");
    assert_eq!(field_type("a:Vector<int>", &[]).unwrap(), "crate::enums::Vector<i32>");
    assert_eq!(
        field_type("a:Vector<Vector<ns.foo>>", &[]).unwrap(),
        "crate::enums::Vector<crate::enums::Vector<crate::types::ns::Foo>>"
    );
    assert_eq!(field_type("a:t", &["T"]).unwrap(), "T");
    assert_eq!(field_type("a:t", &["U"]).unwrap(), "crate::types::T");
    assert_eq!(field_type("a:ns.t", &["T"]).unwrap(), "crate::types::ns::T");
    assert_eq!(field_type("a:Vector<t>", &["T"]).unwrap(), "crate::enums::Vector<T>");
    assert_eq!(field_type("[ int ]", &[]).unwrap(), "Vec<i32>");
    assert_eq!(field_type("[ t ]", &["T"]).unwrap(), "Vec<T>");
    assert_eq!(field_type("ps:[ int string ]", &[]).unwrap(), "Vec<(i32,String)>");
    assert_eq!(field_type("[ [ long ] ]", &[]).unwrap(), "Vec<Vec<i64>>");
    assert_eq!(field_type("4*[ int ]", &[]).unwrap(), "[u8; 16]");
    assert_eq!(field_type("k:8*[ int ]", &[]).unwrap(), "[u8; 32]");
    assert_eq!(field_type("0*[ int ]", &[]).unwrap(), "[u8; 0]");
    assert_eq!(field_type("2147483647*[ int ]", &[]).unwrap(), "[u8; 8589934588]");
}

#[test]
fn shapes_without_a_rule_are_errors() {
    let unsupported = Err(GenError::UnsupportedConstruct);
    assert_eq!(field_type("(a b:int)", &[]), unsupported);
    assert_eq!(field_type("a:(x y)", &[]), unsupported);
    assert_eq!(field_type("a:Vector<int, long>", &[]), unsupported);
    assert_eq!(field_type("4*[ long ]", &[]), unsupported);
    assert_eq!(field_type("4*[ int int ]", &[]), unsupported);
    assert_eq!(field_type("[ (a:int) ]", &[]), unsupported);
    assert_eq!(field_type("[ int (a:int) ]", &[]), unsupported);
    let mut odd = field("4*[ int ]");
    if let Arg::Brack(b) = &mut odd {
        b.mult = Some(-1);
    }
    assert_eq!(get_struct_field_type(&odd, &[]), Err(GenError::UnsupportedConstruct));
    if let Arg::Brack(b) = &mut odd {
        b.mult = None;
        b.args.clear();
    }
    assert_eq!(get_struct_field_type(&odd, &[]), Err(GenError::UnsupportedConstruct));

    let refused = |text: &str| {
        assert_eq!(generated(text), Err(GenError::UnsupportedConstruct), "{}", text);
    };
    refused("a#00000001 int = A;\n---functions---\nf = A;");
    refused("a#00000001 (x y:int) = A;\n---functions---\nf = A;");
    refused("a#00000001 {t:int} = A;\n---functions---\nf = A;");
    refused("a#00000001 {t u:Type} = A;\n---functions---\nf = A;");
    refused("a#00000001 {t:Type Type} = A;\n---functions---\nf = A;");
    refused("a#00000001 x:f.0?int f:int = A;\n---functions---\nf = A;");
    refused("a#00000001 x:f.0?int f:g.0?# g:# = A;\n---functions---\nf = A;");
    refused("a#00000001 x:f.0?int f:# = A;\n---functions---\nf = A;");
    refused("a#00000001 [ f:# ] x:f.0?int = A;\n---functions---\nf = A;");
    assert!(generated("a#00000001 f:# x:f.31?int = A;\n---functions---\nf = A;").is_ok());
    refused("a#00000001 f:# x:f.32?int = A;\n---functions---\nf = A;");
}

#[test]
fn unknown_names_are_errors() {
    let unresolved = Err(GenError::UnresolvedIdentifier);
    assert_eq!(generated("a#00000001 x:Missing = A;\n---functions---\nf = A;"), unresolved);
    assert_eq!(generated("a#00000001 x:missing = A;\n---functions---\nf = A;"), unresolved);
    assert_eq!(generated("a#00000001 f:# x:f.0?Vector<b> = A;\nvector {t:Type} # [ t ] = Vector t;\n---functions---\nf = A;"), unresolved);
    assert_eq!(generated("a#00000001 [ [ b ] ] = A;\n---functions---\nf = A;"), unresolved);
    assert_eq!(generated("a#00000001 x:t = A;\n---functions---\nf = A;"), unresolved);
    assert_eq!(generated("a#00000001 x:ns.A = A;\n---functions---\nf = A;"), unresolved);
    assert_eq!(generated("a#00000001 x:F = A;\n---functions---\nf = F;"), unresolved);
    assert!(generated("a#00000001 {t:Type} x:t y:A z:a = A;\n---functions---\nf = A;").is_ok());
    assert!(generated("int128 4*[ int ] = Int128;\na k:int128 l:Int128 = A;\n---functions---\nf = A;").is_ok());
    assert!(generated("true ? = True;\na f:# x:f.0?true y:f.1?True = A;\n---functions---\nf = A;").is_ok());
}

#[test]
fn declarations_without_an_id_are_refused() {
    let (_, unresolved) = schema(b"a = A;\n---functions---\nf#00000001 = A;").unwrap();
    let mut out = b"kept".to_vec();
    assert_eq!(generate_code(&mut out, unresolved, 1), Err(GenError::UnresolvedId));
    assert_eq!(out, b"kept".to_vec());
    let (_, unresolved) = schema(b"a#00000001 = A;\n---functions---\nf = A;").unwrap();
    assert_eq!(generate_code(&mut out, unresolved, 1), Err(GenError::UnresolvedId));
    let (_, mut resolved) = schema(b"a = A;\n---functions---\nf = A;").unwrap();
    resolved.calculate_ids();
    assert!(generate_code(&mut out, resolved, 1).is_ok());
    assert!(String::from_utf8(out).unwrap().contains("for A { const ID: u32 = 2058233273; }"));
}

#[test]
fn errors_leave_the_buffer_as_it_was() {
    let mut out = b"kept".to_vec();
    let s = parsed("ok#00000001 = Ok;\na#00000002 (x y:int) = A;\n---functions---\nf = A;");
    let meta = Metadata::new(&s);
    assert_eq!(write_structs(&mut out, &meta), Err(GenError::UnsupportedConstruct));
    assert_eq!(out, b"kept".to_vec());
    let s = parsed("a#00000002 {t:int} = A;\n---functions---\nf = A;");
    let meta = Metadata::new(&s);
    assert_eq!(write_enums(&mut out, &meta), Err(GenError::UnsupportedConstruct));
    assert_eq!(out, b"kept".to_vec());
}

#[test]
fn layer_is_written_in_decimal() {
    let mut out = Vec::new();
    generate_code(&mut out, parsed("a#00000001 = A;\n---functions---\nf = A;"), u32::MAX).unwrap();
    assert!(String::from_utf8(out).unwrap().starts_with("pub const LAYER: u32 = 4294967295;\n"));
    let mut out = Vec::new();
    generate_code(&mut out, parsed("a#00000001 = A;\n---functions---\nf = A;"), 0).unwrap();
    assert!(String::from_utf8(out).unwrap().starts_with("pub const LAYER: u32 = 0;\n"));
}

#[test]
fn keywords_are_escaped() {
    for kw in [
        "final", "async", "impl", "fn", "pub", "mut", "let", "type", "loop", "while", "for",
        "static",
    ] {
        assert_eq!(escape_builtin_kw(kw.as_bytes()), format!("r#{}", kw).into_bytes());
    }
    assert_eq!(escape_builtin_kw(b"self"), b"_self".to_vec());
    assert_eq!(escape_builtin_kw(b"id"), b"id".to_vec());
    assert_eq!(escape_builtin_kw(b"Final"), b"Final".to_vec());
    assert_eq!(escape_builtin_kw(b""), b"".to_vec());
    let code =
        generated("a#00000001 type:int self:long flags:# loop:flags.2?int = A;\n---functions---\nf = A;")
            .unwrap();
    assert!(code.contains("        pub r#type: i32,\n        pub _self: i64,\n        pub r#loop: Option<i32>,\n"));
    assert!(code.contains("(0u32 | crate::flag_bit(self.r#loop.is_some(), 2)).serialize(buf);"));
}

#[test]
fn primitives_have_native_types() {
    assert_eq!(builtin_type(b"int"), Some("i32"));
    assert_eq!(builtin_type(b"long"), Some("i64"));
    assert_eq!(builtin_type(b"double"), Some("f64"));
    assert_eq!(builtin_type(b"string"), Some("String"));
    assert_eq!(builtin_type(b"bytes"), Some("Vec<u8>"));
    assert_eq!(builtin_type(b"Int"), None);
    assert_eq!(builtin_type(b"vector"), None);
    assert_eq!(builtin_type(b""), None);
}

#[test]
fn names_become_camel_case() {
    let rust_name = |n: &str| String::from_utf8(ident(None, n).rust_name()).unwrap();
    assert_eq!(rust_name("boolFalse"), "BoolFalse");
    assert_eq!(rust_name("input_peer_self"), "InputPeerSelf");
    assert_eq!(rust_name("inputMediaGeoLive"), "InputMediaGeoLive");
    assert_eq!(rust_name("HTTPServer"), "Httpserver");
    assert_eq!(rust_name("p_q_inner_dataDC"), "PQInnerDataDc");
    assert_eq!(rust_name("int128"), "Int128");
    assert_eq!(rust_name("_a__b_"), "AB");
    assert_eq!(rust_name("x"), "X");
    assert_eq!(rust_name(""), "");
    let path = |ns: Option<&str>, n: &str| String::from_utf8(ident(ns, n).rust_path()).unwrap();
    assert_eq!(path(None, "boolFalse"), "BoolFalse");
    assert_eq!(path(Some("auth"), "sentCode"), "auth::SentCode");
    let res = ResType::Normal(ResTypeNormal { identns: ident(Some("auth"), "SentCode"), terms: vec![] });
    assert_eq!(res.rust_name(), b"SentCode".to_vec());
    assert_eq!(res.rust_path(), b"auth::SentCode".to_vec());
    assert!(ident(None, "Bool").is_boxed());
    assert!(!ident(None, "bool").is_boxed());
    assert!(!ident(None, "_Bool").is_boxed());
    assert!(!ident(None, "").is_boxed());
}

#[test]
fn generic_lists() {
    let names = |v: &[&str]| -> Vec<Vec<u8>> { v.iter().map(|s| s.as_bytes().to_vec()).collect() };
    assert_eq!(get_generic_name(&names(&[])), b"".to_vec());
    assert_eq!(get_generic_name(&names(&["T"])), b"<T>".to_vec());
    assert_eq!(get_generic_name(&names(&["T", "U"])), b"<T,U>".to_vec());
    assert_eq!(get_generic_impl(&names(&[]), "crate::Serializable"), b"".to_vec());
    assert_eq!(get_generic_impl(&names(&["T", "U"]), "X"), b"<T: X,U: X>".to_vec());
    let d = decl("a {t:Type} {key_type:Type} = A;");
    assert_eq!(get_generic_arg(&d.opt_args), Ok(names(&["T", "KEY_TYPE"])));
    assert_eq!(get_generic_arg(&[]), Ok(vec![]));
    assert_eq!(get_generic_arg(&decl("a {t:Typ} = A;").opt_args), Err(GenError::UnsupportedConstruct));
}

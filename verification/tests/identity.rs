use tl_schema::combinators::{combinator_declaration, schema};
use tl_schema::identity::{canonical_text, crc32_of};
use tl_schema::types::{CombinatorDecl, TLSchema};

fn decl(text: &str) -> CombinatorDecl {
    let (rest, d) = combinator_declaration(text.as_bytes()).unwrap();
    assert_eq!(rest, b"");
    d
}

fn canonical(text: &str) -> String {
    String::from_utf8(canonical_text(&decl(text))).unwrap()
}

#[test]
fn crc32_of_known_texts() {
    assert_eq!(crc32_of(b""), 0);
    assert_eq!(crc32_of(b"a"), 0xe8b7be43);
    assert_eq!(crc32_of(b"123456789"), 0xcbf43926);
    assert_eq!(crc32_of(b"The quick brown fox jumps over the lazy dog"), 0x414fa339);
}

#[test]
fn canonical_text_has_single_spaces_and_no_id() {
    assert_eq!(canonical("bytes = Bytes;"), "bytes = Bytes");
    assert_eq!(
        canonical("vector#1cb5c415 {t:Type} # [ t ] = Vector t;"),
        "vector t:Type # [ t ] = Vector t"
    );
    assert_eq!(
        canonical("  ns.msg   flags : #  text : flags . 1 ? string   n:flags?!long = ns.Msg ;"),
        "ns.msg flags:# text:flags.1?string n:flags?!long = ns.Msg"
    );
    assert_eq!(
        canonical("a ( x  y : ! int ) ids : 3 * [ int  long ] % Foo Bar < a , b > = R < int , long >;"),
        "a (x y:!int) ids:3*[ int long ] %Foo Bar a,b = R int,long"
    );
    assert_eq!(canonical("a {x y:!Type Other} (b c) = R;"), "a x y:!Type Other (b c) = R");
}

#[test]
fn derived_id_is_the_crc32_of_the_canonical_text() {
    let d = decl("user id:int first_name:string last_name:string = User;");
    assert_eq!(d.id, None);
    assert_eq!(
        canonical_text(&d),
        b"user id:int first_name:string last_name:string = User".to_vec()
    );
    assert_eq!(d.gen_id(), crc32_of(b"user id:int first_name:string last_name:string = User"));
    assert_eq!(d.get_id(), d.gen_id());
    assert_eq!(decl("bytes = Bytes;").gen_id(), crc32_of(b"bytes = Bytes"));
}

#[test]
fn written_id_wins() {
    let d = decl("user#0000002a id:int = User;");
    assert_eq!(d.get_id(), 42);
    assert_eq!(d.gen_id(), crc32_of(b"user id:int = User"));
}

#[test]
fn calculate_ids_fills_in_and_keeps() {
    let (_, mut s) =
        schema(b"a#00000001 = A;\nb = B;\n---functions---\nf#00000002 = F;\ng x:int = G;").unwrap();
    s.calculate_ids();
    assert_eq!(s.constrs[0].id, Some(1));
    assert_eq!(s.constrs[1].id, Some(crc32_of(b"b = B")));
    assert_eq!(s.funcs[0].id, Some(2));
    assert_eq!(s.funcs[1].id, Some(crc32_of(b"g x:int = G")));
    assert_eq!(s.constrs[1].identns.name, b"b".to_vec());
}

#[test]
fn calculate_ids_twice_changes_nothing() {
    let text = b"a#00000001 = A;\nb = B;\nns.c {t:Type} x:t = ns.C t;\n---functions---\ng x:int = G;";
    let (_, mut once) = schema(text).unwrap();
    once.calculate_ids();
    let (_, mut twice) = schema(text).unwrap();
    twice.calculate_ids();
    twice.calculate_ids();
    assert_eq!(once, twice);
}

#[test]
fn extend_appends_each_list() {
    let (_, mut a) = schema(b"int ? = Int;\na = A;\n---functions---\nf = F;").unwrap();
    let (_, b) = schema(b"long ? = Long;\nb = B;\nc = C;\n---functions---\ng = G;").unwrap();
    a.extend(b);
    let names = |ds: &Vec<CombinatorDecl>| -> Vec<Vec<u8>> {
        ds.iter().map(|d| d.identns.name.clone()).collect()
    };
    assert_eq!(names(&a.constrs), vec![b"a".to_vec(), b"b".to_vec(), b"c".to_vec()]);
    assert_eq!(names(&a.funcs), vec![b"f".to_vec(), b"g".to_vec()]);
    assert_eq!(a.builtin.len(), 2);
    assert_eq!(a.builtin[1].identns.name, b"long".to_vec());
    let mut empty = TLSchema::default();
    let (_, c) = schema(b"a = A;\n---functions---\nf = F;").unwrap();
    let (_, again) = schema(b"a = A;\n---functions---\nf = F;").unwrap();
    empty.extend(c);
    assert_eq!(empty, again);
}

#[test]
fn copies_are_equal_to_what_they_were_made_from() {
    let text = b"int ? = Int;\nmsg#0000002a {t:Type} flags:# (a b:!int) ids:3*[ int ] xs:[ t [ long ] ] text:flags.1?string % Foo Bar < ns . a , b > = ns.Msg<int, (long x)>;\nb = B c d;\n---functions---\nf x:int = F;";
    let (_, s) = schema(text).unwrap();
    let copy = s.clone();
    assert_eq!(copy, s);
    assert_eq!(s.constrs[0].clone(), s.constrs[0]);
    assert_eq!(s.constrs[0].args[1].clone(), s.constrs[0].args[1]);
    assert_eq!(s.constrs[0].res.clone(), s.constrs[0].res);
    assert_eq!(s.builtin[0].clone(), s.builtin[0]);
    let mut changed = s.clone();
    changed.constrs[0].identns.name.push(b'x');
    assert_ne!(changed, s);
}

#[test]
fn canonical_text_writes_bytes_as_string_and_leaves_bare_flags_out() {
    assert_eq!(canonical("a x:bytes y:flags.0?bytes = A;"), "a x:string y:flags.0?string = A");
    assert_eq!(canonical("a x:!bytes y:ns.bytes [ bytes ] (z:bytes) = A;"), "a x:!bytes y:ns.bytes [ bytes ] (z:bytes) = A");
    assert_eq!(canonical("a x:Vector<bytes> = A;"), "a x:Vector bytes = A");
    assert_eq!(
        canonical("a flags:# b:flags.0?true c:flags2.11?true d:flags.1?int = A;"),
        "a flags:# d:flags.1?int = A"
    );
    assert_eq!(
        canonical("a b:flags?true c:f.0?true d:flagsx.0?true e:flags.0?!true g:flags.0?True h:flags.0?ns.true = A;"),
        "a b:flags?true c:f.0?true d:flagsx.0?true e:flags.0?!true g:flags.0?True h:flags.0?ns.true = A"
    );
    assert_eq!(canonical("a [ x:flags.0?true ] [ y:flags.1?true z:int ] = A;"), "a [ ] [ z:int ] = A");
    assert_eq!(canonical("a n:x 5 [ 3 ] = A 7;"), "a n:x 5 [ 3 ] = A 7");
}

fn derived(text: &str) -> u32 {
    let d = decl(text);
    assert_eq!(d.id, None);
    d.get_id()
}

#[test]
fn derived_ids_are_those_of_the_protocol() {
    assert_eq!(derived("vector {t:Type} # [ t ] = Vector t;"), 0x1cb5c415);
    assert_eq!(derived("boolFalse = Bool;"), 0xbc799737);
    assert_eq!(derived("boolTrue = Bool;"), 0x997275b5);
    assert_eq!(derived("true = True;"), 0x3fedd339);
    assert_eq!(derived("null = Null;"), 0x56730bcc);
    assert_eq!(derived("error code:int text:string = Error;"), 0xc4b9f9bb);
    assert_eq!(derived("ping ping_id:long = Pong;"), 0x7abe77ec);
    assert_eq!(derived("pong msg_id:long ping_id:long = Pong;"), 0x347773c5);
    assert_eq!(derived("req_pq nonce:int128 = ResPQ;"), 0x60469778);
    assert_eq!(
        derived("resPQ nonce:int128 server_nonce:int128 pq:string server_public_key_fingerprints:Vector<long> = ResPQ;"),
        0x05162463
    );
    assert_eq!(
        derived("future_salts req_msg_id:long now:int salts:vector<future_salt> = FutureSalts;"),
        0xae500895
    );
    assert_eq!(derived("gzip_packed packed_data:bytes = Object;"), 0x3072cfa1);
    assert_eq!(derived("invokeAfterMsg {X:Type} msg_id:long query:!X = X;"), 0xcb9f372d);
    assert_eq!(derived("invokeWithLayer {X:Type} layer:int query:!X = X;"), 0xda9b0d0d);
    assert_eq!(derived("inputPeerUser user_id:long access_hash:long = InputPeer;"), 0xdde8a54c);
    assert_eq!(
        derived("dcOption flags:# ipv6:flags.0?true media_only:flags.1?true tcpo_only:flags.2?true cdn:flags.3?true static:flags.4?true this_port_only:flags.5?true id:int ip_address:string port:int secret:flags.10?bytes = DcOption;"),
        0x18b7a10d
    );
    assert_eq!(
        derived("updateBotCallbackQuery flags:# query_id:long user_id:long peer:Peer msg_id:int chat_instance:long data:flags.0?bytes game_short_name:flags.1?string = Update;"),
        0xb9cfc48d
    );
    assert_eq!(
        derived("inputMediaUploadedPhoto flags:# file:InputFile stickers:flags.0?Vector<InputDocument> ttl_seconds:flags.1?int = InputMedia;"),
        0x1e287d04
    );
    assert_eq!(
        derived("auth.sentCode flags:# type:auth.SentCodeType phone_code_hash:string next_type:flags.1?auth.CodeType timeout:flags.2?int = auth.SentCode;"),
        0x5e002502
    );
    assert_eq!(
        derived("messages.getDialogs flags:# exclude_pinned:flags.0?true folder_id:flags.1?int offset_date:int offset_id:int offset_peer:InputPeer limit:int hash:long = messages.Dialogs;"),
        0xa0f4cb4f
    );
}

#[test]
fn a_written_id_and_the_derived_one_agree_for_the_vector() {
    let d = decl("vector#1cb5c415 {t:Type} # [ t ] = Vector t;");
    assert_eq!(d.id, Some(0x1cb5c415));
    assert_eq!(d.gen_id(), 0x1cb5c415);
}

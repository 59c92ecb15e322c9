use tl_schema::basics::{comments_inner, lc_ident_full, number, var_ident, ws};
use tl_schema::combinators::{
    builtin_declaration, combinator_declaration, conditional_def, schema, term, type_term,
};
use tl_schema::errors::ParsingError;
use tl_schema::types::{
    Arg, ArgBrack, ArgCond, ArgPar, ArgSingle, BuiltinDecl, CombinatorDecl, ConditionalDef,
    IdentNs, OptArg, ResType, ResTypeAng, ResTypeNormal, Term, TermAng,
};

fn b(s: &str) -> &[u8] {
    s.as_bytes()
}

fn v(s: &str) -> Vec<u8> {
    s.as_bytes().to_vec()
}

fn name(s: &str) -> IdentNs {
    IdentNs { namespace: None, name: v(s) }
}

#[test]
fn test_comments() {
    assert_eq!(
        comments_inner(b("//this is a comment\n")),
        Some((b("\n"), b("this is a comment")))
    );
    assert_eq!(
        comments_inner(b("//this is a comment")),
        Some((b(""), b("this is a comment")))
    );
    assert_eq!(
        comments_inner(b("/*this is a comment*/")),
        Some((b(""), b("this is a comment")))
    );
    assert_eq!(
        comments_inner(b("//input\n//test\n//test")),
        Some((b("\n//test\n//test"), b("input")))
    );
    let mut rest = b("//input\n//test\n//test");
    let mut found: Vec<&[u8]> = Vec::new();
    while let Some((after, text)) = comments_inner(ws(rest)) {
        found.push(text);
        rest = ws(after);
    }
    assert_eq!((rest, found), (b(""), vec![b("input"), b("test"), b("test")]));
}

#[test]
fn test_builtin() {
    assert_eq!(
        builtin_declaration(b("int ? = Int;")),
        Some((
            b(""),
            BuiltinDecl {
                identns: IdentNs { namespace: None, name: v("int") },
                id: None,
                res: IdentNs { namespace: None, name: v("Int") }
            }
        ))
    )
}

#[test]
fn test_bytes() {
    assert_eq!(
        combinator_declaration(b("bytes = Bytes;")),
        Some((
            b(""),
            CombinatorDecl {
                identns: IdentNs { name: v("bytes"), ..Default::default() },
                res: ResTypeNormal {
                    identns: IdentNs { name: v("Bytes"), ..Default::default() },
                    terms: vec![],
                }
                .into(),
                id: None,
                opt_args: vec![],
                args: vec![]
            }
        ))
    )
}

#[test]
fn test_vector() {
    assert_eq!(
        combinator_declaration(b("vector#1cb5c415 {t:Type} # [ t ] = Vector t;")),
        Some((
            b(""),
            CombinatorDecl {
                identns: IdentNs { name: v("vector"), ..Default::default() },
                id: Some(481674261),
                opt_args: vec![OptArg {
                    ident: v("t"),
                    terms: vec![Term::IdentNs(IdentNs { name: v("Type"), ..Default::default() })],
                    ..Default::default()
                }],
                args: vec![
                    ArgSingle { excl: false, term: Term::Nat }.into(),
                    ArgBrack {
                        ident: None,
                        mult: None,
                        args: vec![ArgSingle {
                            excl: false,
                            term: Term::IdentNs(IdentNs { name: v("t"), ..Default::default() })
                        }
                        .into()]
                    }
                    .into()
                ],
                res: ResTypeNormal {
                    identns: IdentNs { name: v("Vector"), ..Default::default() },
                    terms: vec![Term::IdentNs(IdentNs { name: v("t"), ..Default::default() })],
                }
                .into()
            }
        ))
    )
}

#[test]
fn test_var_ident() {
    assert_eq!(var_ident(b("int ? = ")), Some((b(" ? = "), b("int"))))
}

#[test]
fn var_ident_takes_underscores_and_digits() {
    assert_eq!(var_ident(b("a_b__9Z-x")), Some((b("-x"), b("a_b__9Z"))));
    assert_eq!(var_ident(b("_")), Some((b(""), b("_"))));
    assert_eq!(var_ident(b("-a")), None);
    assert_eq!(var_ident(b("")), None);
}

#[test]
fn ws_skips_the_four_blanks_only() {
    assert_eq!(ws(b(" \t\r\n x ")), b("x "));
    assert_eq!(ws(b("x")), b("x"));
    assert_eq!(ws(b("\x0bx")), b("\x0bx"));
    assert_eq!(ws(b("")), b(""));
}

#[test]
fn comments_hold_any_text_up_to_their_end() {
    assert_eq!(comments_inner(b("//\nx")), Some((b("\nx"), b(""))));
    assert_eq!(comments_inner(b("//")), Some((b(""), b(""))));
    assert_eq!(comments_inner(b("// a/b * c\r\n")), Some((b("\r\n"), b(" a/b * c"))));
    assert_eq!(comments_inner(b("/**/")), Some((b(""), b(""))));
    assert_eq!(comments_inner(b("/* a/b */x")), Some((b("x"), b(" a/b "))));
    assert_eq!(comments_inner(b("/*a*b*/")), Some((b(""), b("a*b"))));
    assert_eq!(comments_inner(b("/***/")), Some((b(""), b("*"))));
    assert_eq!(comments_inner(b("/*a*/b*/")), Some((b("b*/"), b("a"))));
    assert_eq!(comments_inner(b("/*a\n//b\n*/c")), Some((b("c"), b("a\n//b\n"))));
    assert_eq!(comments_inner(b("/*open")), None);
    assert_eq!(comments_inner(b("/*open*")), None);
    assert_eq!(comments_inner(b("/*/")), None);
    assert_eq!(comments_inner(b("/")), None);
    assert_eq!(comments_inner(b("x//y")), None);
    assert_eq!(comments_inner(b("")), None);
    assert_eq!(comments_inner("//h\u{e9}\rz".as_bytes()), Some((b("\rz"), "h\u{e9}".as_bytes())));
}

#[test]
fn comments_of_any_text_stand_between_declarations() {
    let text = "//\na = A; /* see http://x/y * z */ /**/\n// b = B;\n---functions---\n/* f = F; */ g = G; //";
    let (rest, parsed) = schema(b(text)).unwrap();
    assert_eq!(rest, b(""));
    assert_eq!(parsed.constrs.len(), 1);
    assert_eq!(parsed.funcs.len(), 1);
    assert_eq!(parsed.funcs[0].identns, name("g"));
    assert_eq!(
        schema(b("a = A;\n---functions---\nf = F; /* open")),
        Err(ParsingError::Parsing { position: 30 })
    );
}

#[test]
fn explicit_id_is_eight_lower_hex_digits() {
    assert_eq!(
        lc_ident_full(b(" ns.name #0000000f rest")),
        Some((b("rest"), (IdentNs { namespace: Some(v("ns")), name: v("name") }, Some(15))))
    );
    assert_eq!(
        lc_ident_full(b("a#ffffffff")),
        Some((b(""), (name("a"), Some(0xffff_ffff))))
    );
    assert_eq!(lc_ident_full(b("a#1CB5C415")), Some((b("#1CB5C415"), (name("a"), None))));
    assert_eq!(lc_ident_full(b("a#1cb5c41")), Some((b("#1cb5c41"), (name("a"), None))));
    assert_eq!(lc_ident_full(b("a#1cb5c4150")), Some((b("0"), (name("a"), Some(0x1cb5c415)))));
    assert_eq!(lc_ident_full(b("Abc")), None);
    assert_eq!(lc_ident_full(b("ns.Abc")), None);
}

#[test]
fn terms_of_every_form() {
    assert_eq!(term(b("#")), Some((b(""), Term::Nat)));
    assert_eq!(term(b("5")), Some((b(""), Term::NatConst(5))));
    assert_eq!(term(b(" 42 x")), Some((b("x"), Term::NatConst(42))));
    assert_eq!(term(b("007")), Some((b(""), Term::NatConst(7))));
    assert_eq!(term(b("4294967295")), Some((b(""), Term::NatConst(u32::MAX))));
    assert_eq!(term(b("4294967296")), None);
    assert_eq!(term(b("3d")), Some((b("d"), Term::NatConst(3))));
    assert_eq!(term(b("d3")), Some((b(""), Term::IdentNs(name("d3")))));
    assert_eq!(term(b("_3")), Some((b(""), Term::IdentNs(name("_3")))));
    assert_eq!(
        term(b("ns.3")),
        Some((b(""), Term::IdentNs(IdentNs { namespace: Some(v("ns")), name: v("3") })))
    );
    assert_eq!(term(b("%5")), Some((b(""), Term::Percent(Box::new(Term::NatConst(5))))));
    assert_eq!(type_term(b("5")), None);
    assert_eq!(type_term(b(" 5")), None);
    assert_eq!(type_term(b("a5")), Some((b(""), Term::IdentNs(name("a5")))));
    assert_eq!(term(b("%Foo")), Some((b(""), Term::Percent(Box::new(Term::IdentNs(name("Foo")))))));
    assert_eq!(
        term(b("( a b ) c")),
        Some((b("c"), Term::Par(vec![Term::IdentNs(name("a")), Term::IdentNs(name("b"))])))
    );
    assert_eq!(
        term(b("Vector < ns . foo , 3 >;")),
        Some((
            b(";"),
            Term::Ang(TermAng {
                identns: name("Vector"),
                term: Box::new(Term::IdentNs(IdentNs {
                    namespace: Some(v("ns")),
                    name: v("foo")
                })),
                terms: vec![Term::NatConst(3)],
            })
        ))
    );
    assert_eq!(term(b("Vector<int")), Some((b("<int"), Term::IdentNs(name("Vector")))));
    assert_eq!(term(b("()")), None);
    assert_eq!(term(b("=")), None);
}

#[test]
fn arguments_of_every_form() {
    let parsed = combinator_declaration(b(
        "msg#0000002a flags:# (a b:!int) ids:3*[ int ] text:flags.1?string n:flags?long ! X = ns.Msg<int, long>;",
    ));
    assert_eq!(
        parsed,
        Some((
            b(""),
            CombinatorDecl {
                identns: name("msg"),
                id: Some(42),
                opt_args: vec![],
                args: vec![
                    Arg::Cond(ArgCond { ident: v("flags"), cond: None, excl: false, term: Term::Nat }),
                    Arg::Par(ArgPar {
                        ident: v("a"),
                        idents: vec![v("b")],
                        excl: true,
                        term: Term::IdentNs(name("int")),
                    }),
                    Arg::Brack(ArgBrack {
                        ident: Some(v("ids")),
                        mult: Some(3),
                        args: vec![Arg::Single(ArgSingle {
                            excl: false,
                            term: Term::IdentNs(name("int")),
                        })],
                    }),
                    Arg::Cond(ArgCond {
                        ident: v("text"),
                        cond: Some(ConditionalDef { ident: v("flags"), index: Some(1) }),
                        excl: false,
                        term: Term::IdentNs(name("string")),
                    }),
                    Arg::Cond(ArgCond {
                        ident: v("n"),
                        cond: Some(ConditionalDef { ident: v("flags"), index: None }),
                        excl: false,
                        term: Term::IdentNs(name("long")),
                    }),
                    Arg::Single(ArgSingle { excl: true, term: Term::IdentNs(name("X")) }),
                ],
                res: ResType::Ang(ResTypeAng {
                    identns: IdentNs { namespace: Some(v("ns")), name: v("Msg") },
                    term: Term::IdentNs(name("int")),
                    terms: vec![Term::IdentNs(name("long"))],
                }),
            }
        ))
    );
}

#[test]
fn numbers_of_conditions_and_counts_are_bounded() {
    assert_eq!(number(b(" 0042 x"), u32::MAX), Some((b("x"), 42)));
    assert_eq!(number(b("4294967295"), u32::MAX), Some((b(""), u32::MAX)));
    assert_eq!(number(b("4294967296"), u32::MAX), None);
    assert_eq!(number(b("99999999999999999999999999"), u32::MAX), None);
    assert_eq!(number(b("2147483648"), i32::MAX as u32), None);
    assert_eq!(number(b("x"), u32::MAX), None);
    assert_eq!(
        conditional_def(b("flags . 31 ? x")),
        Some((b("x"), ConditionalDef { ident: v("flags"), index: Some(31) }))
    );
    assert_eq!(conditional_def(b("flags.4294967296?x")), None);
    assert_eq!(conditional_def(b("flags x")), None);
}

#[test]
fn declarations_need_their_end() {
    assert_eq!(combinator_declaration(b("a = A")), None);
    assert_eq!(combinator_declaration(b("a = a;")), None);
    assert_eq!(combinator_declaration(b("a b:int;")), None);
    assert_eq!(builtin_declaration(b("int = Int;")), None);
    assert_eq!(combinator_declaration(b("int ? = Int;")), None);
}

#[test]
fn schema_sorts_declarations_by_section() {
    let text = "// leading\nint ? = Int;\nboolFalse#bc799737 = Bool;\n/*c*/\n---functions---\nping#7abe77ec ping_id:long = Pong;\n--- types ---\npong#347773c5 msg_id:long ping_id:long = Pong;\n";
    let (rest, parsed) = schema(b(text)).unwrap();
    assert_eq!(rest, b(""));
    assert_eq!(parsed.builtin.len(), 1);
    assert_eq!(parsed.builtin[0].identns, name("int"));
    assert_eq!(parsed.constrs.len(), 2);
    assert_eq!(parsed.constrs[0].identns, name("boolFalse"));
    assert_eq!(parsed.constrs[0].id, Some(0xbc799737));
    assert_eq!(parsed.constrs[1].identns, name("pong"));
    assert_eq!(parsed.funcs.len(), 1);
    assert_eq!(parsed.funcs[0].identns, name("ping"));
}

#[test]
fn schema_may_begin_with_a_block() {
    let (_, parsed) = schema(b("---types---\na = A;")).unwrap();
    assert_eq!(parsed.constrs.len(), 1);
    assert_eq!(parsed.funcs.len(), 0);
}

#[test]
fn schema_fails_with_the_place() {
    assert_eq!(schema(b("a = A;")), Err(ParsingError::Parsing { position: 6 }));
    assert_eq!(schema(b("")), Err(ParsingError::Parsing { position: 0 }));
    assert_eq!(
        schema(b("a = A;\n---functions---\nf = F;\n???")),
        Err(ParsingError::Parsing { position: 30 })
    );
    assert_eq!(
        schema(b("a = A;\n---functions---\n---types---\nb = B;")),
        Err(ParsingError::Parsing { position: 7 })
    );
}

use tl_schema::combinators::schema;
use tl_schema::metadata::Metadata;
use tl_schema::ordering::{bytes_before, namespace_before};
use tl_schema::stats::{count_arg, ArgCounts};
use tl_schema::types::TLSchema;

fn parsed(text: &str) -> TLSchema {
    schema(text.as_bytes()).unwrap().1
}

fn text(b: &[u8]) -> String {
    String::from_utf8(b.to_vec()).unwrap()
}

fn key(name: &Option<Vec<u8>>) -> Option<String> {
    name.as_ref().map(|n| text(n))
}

#[test]
fn namespaces_are_sorted_and_hold_their_declarations_in_order() {
    let s = parsed("z.b = z.B;\na.b = a.B;\nzz = Zz;\nb = Aa;\na.a = a.B;\nab.c = C;\n---functions---\nz.f = X;\nf = X;");
    let meta = Metadata::new(&s);
    let types: Vec<(Option<String>, Vec<String>)> = meta
        .types_ns
        .iter()
        .map(|n| (key(&n.name), n.decls.iter().map(|d| text(&d.identns.name)).collect()))
        .collect();
    assert_eq!(
        types,
        vec![
            (None, vec!["zz".to_string(), "b".to_string()]),
            (Some("a".to_string()), vec!["b".to_string(), "a".to_string()]),
            (Some("ab".to_string()), vec!["c".to_string()]),
            (Some("z".to_string()), vec!["b".to_string()]),
        ]
    );
    let funcs: Vec<Option<String>> = meta.funcs_ns.iter().map(|n| key(&n.name)).collect();
    assert_eq!(funcs, vec![None, Some("z".to_string())]);
}

#[test]
fn result_types_are_sorted_by_name_within_each_namespace() {
    let s = parsed("c = Zeta;\nd = Alpha;\ne = Zeta;\nf = Mid x;\ng = Mid<x>;\nh = Mid x;\nns.a = B;\nns.b = A;\n---functions---\nf = X;");
    let meta = Metadata::new(&s);
    let groups: Vec<(Option<String>, Vec<(String, Vec<String>)>)> = meta
        .types_group_ns
        .iter()
        .map(|n| {
            (
                key(&n.name),
                n.groups
                    .iter()
                    .map(|g| {
                        (
                            text(&g.res.identns().name),
                            g.decls.iter().map(|d| text(&d.identns.name)).collect(),
                        )
                    })
                    .collect(),
            )
        })
        .collect();
    let names = |v: &[&str]| -> Vec<String> { v.iter().map(|s| s.to_string()).collect() };
    assert_eq!(
        groups,
        vec![
            (
                None,
                vec![
                    ("Alpha".to_string(), names(&["d"])),
                    ("Mid".to_string(), names(&["f", "h"])),
                    ("Mid".to_string(), names(&["g"])),
                    ("Zeta".to_string(), names(&["c", "e"])),
                ]
            ),
            (
                Some("ns".to_string()),
                vec![("A".to_string(), names(&["b"])), ("B".to_string(), names(&["a"]))]
            ),
        ]
    );
}

#[test]
fn equal_declarations_stand_once() {
    let s = parsed("a#00000001 x:int = A;\na#00000001 x:int = A;\na#00000002 x:int = A;\na#00000001  x : int  =  A ;\n---functions---\nf = X;");
    let meta = Metadata::new(&s);
    assert_eq!(meta.types_ns.len(), 1);
    let ids: Vec<Option<u32>> = meta.types_ns[0].decls.iter().map(|d| d.id).collect();
    assert_eq!(ids, vec![Some(1), Some(2)]);
    assert_eq!(meta.types_group_ns[0].groups.len(), 1);
    assert_eq!(meta.types_group_ns[0].groups[0].decls.len(), 2);
}

#[test]
fn an_empty_schema_has_an_empty_index() {
    let s = TLSchema::default();
    let meta = Metadata::new(&s);
    assert!(meta.types_ns.is_empty());
    assert!(meta.funcs_ns.is_empty());
    assert!(meta.types_group_ns.is_empty());
}

#[test]
fn names_are_ordered_byte_by_byte() {
    assert!(bytes_before(b"", b"a"));
    assert!(!bytes_before(b"", b""));
    assert!(!bytes_before(b"a", b""));
    assert!(bytes_before(b"a", b"ab"));
    assert!(!bytes_before(b"ab", b"a"));
    assert!(bytes_before(b"ab", b"b"));
    assert!(bytes_before(b"B", b"a"));
    assert!(!bytes_before(b"abc", b"abc"));
    assert!(bytes_before(b"abc", b"abd"));
    assert!(!bytes_before(b"abd", b"abc"));
    let a = Some(b"a".to_vec());
    let b = Some(b"b".to_vec());
    assert!(namespace_before(&None, &a));
    assert!(!namespace_before(&a, &None));
    assert!(!namespace_before(&None, &None));
    assert!(namespace_before(&a, &b));
    assert!(!namespace_before(&b, &a));
}

#[test]
fn arguments_are_counted_by_form() {
    let s = parsed("a (x y:int) = A;\nb flags:# x:flags.0?int [ (p:int) q:int ] # = B;\nc 3*[ int ] Foo = C;\n---functions---\nf (x:int) = F;");
    let mut counts = ArgCounts::default();
    count_arg(&s, &mut counts);
    assert_eq!(counts, ArgCounts { par: 1, brack: 2, cond: 2, single: 2 });
    count_arg(&s, &mut counts);
    assert_eq!(counts, ArgCounts { par: 2, brack: 4, cond: 4, single: 4 });
    let mut full = ArgCounts { par: u64::MAX, brack: u64::MAX - 1, cond: 0, single: 0 };
    count_arg(&s, &mut full);
    assert_eq!(full, ArgCounts { par: u64::MAX, brack: u64::MAX, cond: 2, single: 2 });
}

//! The sum types of generated code: one per result type, with a variant for
//! each constructor of it, and its serialization.

use vstd::prelude::*;
use crate::equality::same_ident;
use crate::errors::GenError;
use crate::formatter::{camel, path, Rustifiable};
use crate::metadata::{Metadata, MetadataView, NamespaceGroups, NamespaceGroupsView, TypeGroup,
    TypeGroupView,
};
use crate::structs::{
    gather, gathered, generic_bounds, generic_list, generics_of, get_generic_arg,
    get_generic_impl, get_generic_name, indent_of, module_close, module_of, module_open,
    results_view, text_of, texts_of, written,
};
use crate::text::{lines, lit, put, put_bytes, text};
use crate::types::{
    args_view, Arg, ArgView, CombinatorDecl, CombinatorView, IdentNs, IdentNsView, OptArg,
    OptArgView, Term, TermView,
};

verus! {

/// The path of the record of a constructor.
pub open spec fn variant_path(ident: IdentNsView) -> Seq<u8> {
    lit("crate::") + module_of(ident) + lit("::") + path(ident)
}

fn get_enum_variant_path(identns: &IdentNs) -> (r: Vec<u8>)
    ensures
        r@ == variant_path(identns@),
{
    let mut out = text("crate::");
    put(
        &mut out,
        if identns.is_boxed() {
            "enums"
        } else {
            "types"
        },
    );
    put(&mut out, "::");
    let p = identns.rust_path();
    put_bytes(&mut out, p.as_slice());
    out
}

/// The generic parameters of a constructor, as they follow its record's
/// name.
pub open spec fn variant_generics(opt_args: Seq<OptArgView>) -> Result<Seq<u8>, GenError> {
    match generics_of(opt_args) {
        Ok(generics) => Ok(generic_list(generics)),
        Err(e) => Err(e),
    }
}

fn get_enum_variant_generics(args: &[OptArg]) -> (r: Result<Vec<u8>, GenError>)
    ensures
        text_of(r) == variant_generics(crate::types::opt_args_view(args@)),
{
    let generics = get_generic_arg(args)?;
    Ok(get_generic_name(generics.as_slice()))
}

/// Whether a term names the given type, whatever it is applied to.
pub open spec fn names_type(t: TermView, of: IdentNsView) -> bool
    decreases t,
{
    match t {
        TermView::IdentNs(ident) => ident == of,
        TermView::Ang { identns, .. } => identns == of,
        TermView::Percent(p) => names_type(*p, of),
        _ => false,
    }
}

/// Whether the field of an argument is of the given type itself, always or
/// under a condition.
pub open spec fn holds_type(a: ArgView, of: IdentNsView) -> bool {
    match a {
        ArgView::Single { term, .. } => names_type(term, of),
        ArgView::Cond { term, .. } => names_type(term, of),
        _ => false,
    }
}

/// Whether a record with these fields holds a value of the given type
/// itself: as a variant of that type it would hold itself, and must stand
/// behind a pointer.
pub open spec fn is_recursive(of: IdentNsView, args: Seq<ArgView>) -> bool {
    exists|i: int| 0 <= i < args.len() && holds_type(#[trigger] args[i], of)
}

fn term_names_type(t: &Term, of: &IdentNs) -> (r: bool)
    ensures
        r == names_type(t@, of@),
    decreases t,
{
    match t {
        Term::IdentNs(ident) => same_ident(ident, of),
        Term::Ang(a) => {
            assert(t@ == a@);
            same_ident(&a.identns, of)
        },
        Term::Percent(p) => term_names_type(p, of),
        _ => false,
    }
}

fn is_recursive_enum_variant(of: &IdentNs, args: &[Arg]) -> (r: bool)
    ensures
        r == is_recursive(of@, args_view(args@)),
{
    let mut i: usize = 0;
    while i < args.len()
        invariant
            i <= args@.len(),
            forall|j: int| 0 <= j < i ==> !holds_type(#[trigger] args_view(args@)[j], of@),
        decreases args@.len() - i,
    {
        assert(args_view(args@)[i as int] == args@[i as int]@);
        let found = match &args[i] {
            Arg::Single(a) => term_names_type(&a.term, of),
            Arg::Cond(a) => term_names_type(&a.term, of),
            _ => false,
        };
        if found {
            return true;
        }
        i += 1;
    }
    false
}

/// The strings of a list, each where it first occurs.
pub open spec fn first_occurrences(s: Seq<Seq<u8>>) -> Seq<Seq<u8>>
    decreases s.len(),
{
    if s.len() == 0 {
        Seq::empty()
    } else if s.drop_last().contains(s.last()) {
        first_occurrences(s.drop_last())
    } else {
        first_occurrences(s.drop_last()).push(s.last())
    }
}

/// What is left holds every string of the list, and each once.
pub proof fn lemma_first_occurrences(s: Seq<Seq<u8>>)
    ensures
        first_occurrences(s).no_duplicates(),
        forall|x: Seq<u8>| first_occurrences(s).contains(x) <==> s.contains(x),
    decreases s.len(),
{
    if s.len() > 0 {
        let init = s.drop_last();
        let last = s.last();
        let kept = first_occurrences(init);
        lemma_first_occurrences(init);
        assert forall|x: Seq<u8>| first_occurrences(s).contains(x) <==> s.contains(x) by {
            if s.contains(x) {
                let i = choose|i: int| 0 <= i < s.len() && s[i] == x;
                if i < init.len() {
                    assert(init[i] == x);
                    assert(init.contains(x));
                    assert(kept.contains(x));
                    if !init.contains(last) {
                        let k = choose|k: int| 0 <= k < kept.len() && kept[k] == x;
                        assert(kept.push(last)[k] == x);
                    }
                } else {
                    if !init.contains(last) {
                        assert(kept.push(last)[kept.len() as int] == x);
                    }
                }
            }
            if first_occurrences(s).contains(x) {
                let k = choose|k: int|
                    0 <= k < first_occurrences(s).len() && first_occurrences(s)[k] == x;
                if k < kept.len() {
                    assert(kept[k] == x);
                    assert(init.contains(x));
                    let i = choose|i: int| 0 <= i < init.len() && init[i] == x;
                    assert(s[i] == x);
                } else {
                    assert(s[s.len() - 1] == x);
                }
            }
        }
    }
}

/// `itertools::Itertools::unique` on a list of byte strings: the strings in
/// their order, without those that an earlier one equals.
#[verifier::external_body]
fn unique(names: Vec<Vec<u8>>) -> (r: Vec<Vec<u8>>)
    ensures
        lines(r@) == first_occurrences(lines(names@)),
{
    itertools::Itertools::unique(names.into_iter()).collect()
}

/// The generic parameters of all the declarations of a list, in their
/// order.
pub open spec fn generics_in_order(ds: Seq<CombinatorView>) -> Result<Seq<Seq<u8>>, GenError>
    decreases ds.len(),
{
    if ds.len() == 0 {
        Ok(Seq::empty())
    } else {
        match generics_in_order(ds.drop_last()) {
            Ok(before) => match generics_of(ds.last().opt_args) {
                Ok(g) => Ok(before + g),
                Err(e) => Err(e),
            },
            Err(e) => Err(e),
        }
    }
}

/// The generic parameters of a sum type: those of its constructors, each
/// once, in the order in which they first occur.
pub open spec fn enum_generics(ds: Seq<CombinatorView>) -> Result<Seq<Seq<u8>>, GenError> {
    match generics_in_order(ds) {
        Ok(all) => Ok(first_occurrences(all)),
        Err(e) => Err(e),
    }
}

/// An error among the first declarations is the error of the whole list.
proof fn lemma_generics_error(ds: Seq<CombinatorView>, n: int)
    requires
        0 <= n <= ds.len(),
        generics_in_order(ds.take(n)) is Err,
    ensures
        generics_in_order(ds) == generics_in_order(ds.take(n)),
    decreases ds.len() - n,
{
    if n == ds.len() {
        assert(ds.take(n) =~= ds);
    } else {
        assert(ds.take(n + 1).drop_last() =~= ds.take(n));
        lemma_generics_error(ds, n + 1);
    }
}

fn get_generic_names(decls: &Vec<&CombinatorDecl>) -> (r: Result<Vec<Vec<u8>>, GenError>)
    ensures
        texts_of(r) == enum_generics(crate::metadata::refs_view(decls@)),
{
    let ghost ds = crate::metadata::refs_view(decls@);
    let mut all: Vec<Vec<u8>> = Vec::new();
    let mut i: usize = 0;
    assert(ds.take(0) =~= Seq::empty());
    assert(lines(all@) =~= Seq::empty());
    while i < decls.len()
        invariant
            i <= decls@.len(),
            ds == crate::metadata::refs_view(decls@),
            generics_in_order(ds.take(i as int)) == Ok::<Seq<Seq<u8>>, GenError>(lines(all@)),
        decreases decls@.len() - i,
    {
        proof {
            assert(ds.take(i + 1).drop_last() =~= ds.take(i as int));
            assert(ds.take(i + 1).last() == decls@[i as int]@);
        }
        match get_generic_arg(decls[i].opt_args.as_slice()) {
            Ok(mut g) => {
                proof {
                    assert(lines(all@ + g@) =~= lines(all@) + lines(g@));
                }
                all.append(&mut g);
            },
            Err(e) => {
                proof {
                    lemma_generics_error(ds, i + 1);
                }
                return Err(e);
            },
        }
        i += 1;
    }
    assert(ds.take(i as int) =~= ds);
    Ok(unique(all))
}

/// The variant of a constructor: its name, and its record, behind a pointer
/// where the record holds the sum type itself.
pub open spec fn variant_line(d: CombinatorView, of: IdentNsView, indent: Seq<u8>) -> Result<
    Seq<u8>,
    GenError,
> {
    match variant_generics(d.opt_args) {
        Ok(generics) => {
            let ty = variant_path(d.identns) + generics;
            Ok(
                indent + lit("    ") + camel(d.identns.name) + lit("(") + (if is_recursive(
                    of,
                    d.args,
                ) {
                    lit("Box<") + ty + lit(">")
                } else {
                    ty
                }) + lit("),\n"),
            )
        },
        Err(e) => Err(e),
    }
}

/// The variants of a sum type.
pub open spec fn variant_lines(g: TypeGroupView, indent: Seq<u8>) -> Seq<
    Result<Seq<u8>, GenError>,
> {
    Seq::new(g.decls.len(), |i: int| variant_line(g.decls[i], g.res.identns(), indent))
}

/// The definition of the sum type of a result type.
#[verifier::opaque]
pub open spec fn enum_text(g: TypeGroupView, indent: Seq<u8>) -> Result<Seq<u8>, GenError> {
    match enum_generics(g.decls) {
        Ok(generics) => match gathered(variant_lines(g, indent)) {
            Ok(variants) => Ok(
                indent + lit("pub enum ") + camel(g.res.identns().name) + generic_list(generics)
                    + lit(" {\n") + variants + indent + lit("}\n"),
            ),
            Err(e) => Err(e),
        },
        Err(e) => Err(e),
    }
}

fn variant_line_of(decl: &CombinatorDecl, of: &IdentNs, indent: &str) -> (r: Result<
    Vec<u8>,
    GenError,
>)
    ensures
        text_of(r) == variant_line(decl@, of@, lit(indent)),
{
    let mut ty = get_enum_variant_path(&decl.identns);
    let generics = get_enum_variant_generics(decl.opt_args.as_slice())?;
    put_bytes(&mut ty, generics.as_slice());
    let mut out = text(indent);
    put(&mut out, "    ");
    let name = decl.identns.rust_name();
    put_bytes(&mut out, name.as_slice());
    put(&mut out, "(");
    if is_recursive_enum_variant(of, decl.args.as_slice()) {
        put(&mut out, "Box<");
        put_bytes(&mut out, ty.as_slice());
        put(&mut out, ">");
    } else {
        put_bytes(&mut out, ty.as_slice());
    }
    put(&mut out, "),\n");
    assert(out@ =~= variant_line(decl@, of@, lit(indent))->Ok_0);
    Ok(out)
}

fn enum_def(group: &TypeGroup, indent: &str) -> (r: Result<Vec<u8>, GenError>)
    ensures
        text_of(r) == enum_text(group@, lit(indent)),
{
    reveal(enum_text);
    let enum_name = group.res.rust_name();
    let generics = get_generic_names(&group.decls)?;
    let generic_name = get_generic_name(generics.as_slice());
    let ghost all = variant_lines(group@, lit(indent));
    let mut parts: Vec<Result<Vec<u8>, GenError>> = Vec::new();
    let mut i: usize = 0;
    while i < group.decls.len()
        invariant
            i <= group.decls@.len(),
            all == variant_lines(group@, lit(indent)),
            results_view(parts@) =~= all.take(i as int),
        decreases group.decls@.len() - i,
    {
        let part = variant_line_of(group.decls[i], group.res.identns(), indent);
        proof {
            assert(group@.decls[i as int] == group.decls@[i as int]@);
            assert(results_view(parts@.push(part)) =~= results_view(parts@).push(text_of(part)));
        }
        parts.push(part);
        i += 1;
    }
    assert(all.take(i as int) =~= all);
    let variants = gather(&parts)?;
    let mut out = text(indent);
    put(&mut out, "pub enum ");
    put_bytes(&mut out, enum_name.as_slice());
    put_bytes(&mut out, generic_name.as_slice());
    put(&mut out, " {\n");
    put_bytes(&mut out, variants.as_slice());
    put(&mut out, indent);
    put(&mut out, "}\n");
    Ok(out)
}

/// Appends the definition of the sum type of a result type.
fn write_enum(f: &mut Vec<u8>, group: &TypeGroup, indent: &str) -> (r: Result<(), GenError>)
    ensures
        written(r, old(f)@, final(f)@, enum_text(group@, lit(indent))),
{
    let t = enum_def(group, indent)?;
    put_bytes(f, t.as_slice());
    Ok(())
}

/// The arm that writes one variant: the id of its constructor, then the
/// record.
pub open spec fn variant_arm(d: CombinatorView, indent: Seq<u8>) -> Result<Seq<u8>, GenError> {
    match variant_generics(d.opt_args) {
        Ok(generics) => Ok(
            indent + lit("            Self::") + camel(d.identns.name) + lit("(x) => {\n")
                + indent + lit("                ") + variant_path(d.identns) + (if generics.len()
                > 0 {
                lit("::") + generics
            } else {
                Seq::empty()
            }) + lit("::ID.serialize(buf);\n") + indent + lit(
                "                x.serialize(buf);\n",
            ) + indent + lit("            }\n"),
        ),
        Err(e) => Err(e),
    }
}

/// The arms that write the variants of a sum type.
pub open spec fn variant_arms(g: TypeGroupView, indent: Seq<u8>) -> Seq<Result<Seq<u8>, GenError>> {
    Seq::new(g.decls.len(), |i: int| variant_arm(g.decls[i], indent))
}

/// The serialization of a sum type: the id of the constructor of the
/// value, then the value's record.
#[verifier::opaque]
pub open spec fn enum_ser_text(g: TypeGroupView, indent: Seq<u8>) -> Result<Seq<u8>, GenError> {
    match enum_generics(g.decls) {
        Ok(generics) => match gathered(variant_arms(g, indent)) {
            Ok(arms) => Ok(
                indent + lit("impl") + generic_bounds(generics, lit("crate::Serializable")) + lit(
                    " crate::Serializable for ",
                ) + camel(g.res.identns().name) + generic_list(generics) + lit(" {\n") + indent
                    + lit("    fn serialize(&self, buf: crate::serialize::Buf) {\n") + indent + lit(
                    "        use crate::Identificable;\n",
                ) + indent + lit("        match self {\n") + arms + indent + lit("        }\n")
                    + indent + lit("    }\n") + indent + lit("}\n"),
            ),
            Err(e) => Err(e),
        },
        Err(e) => Err(e),
    }
}

fn variant_arm_of(decl: &CombinatorDecl, indent: &str) -> (r: Result<Vec<u8>, GenError>)
    ensures
        text_of(r) == variant_arm(decl@, lit(indent)),
{
    let variant_name = decl.identns.rust_name();
    let mut variant_path = get_enum_variant_path(&decl.identns);
    let variant_generic = get_enum_variant_generics(decl.opt_args.as_slice())?;
    if variant_generic.len() > 0 {
        put(&mut variant_path, "::");
        put_bytes(&mut variant_path, variant_generic.as_slice());
    } else {
        assert(variant_path@ + Seq::<u8>::empty() =~= variant_path@);
    }
    let mut out = text(indent);
    put(&mut out, "            Self::");
    put_bytes(&mut out, variant_name.as_slice());
    put(&mut out, "(x) => {\n");
    put(&mut out, indent);
    put(&mut out, "                ");
    put_bytes(&mut out, variant_path.as_slice());
    put(&mut out, "::ID.serialize(buf);\n");
    put(&mut out, indent);
    put(&mut out, "                x.serialize(buf);\n");
    put(&mut out, indent);
    put(&mut out, "            }\n");
    assert(out@ =~= variant_arm(decl@, lit(indent))->Ok_0);
    Ok(out)
}

fn enum_ser(group: &TypeGroup, indent: &str) -> (r: Result<Vec<u8>, GenError>)
    ensures
        text_of(r) == enum_ser_text(group@, lit(indent)),
{
    reveal(enum_ser_text);
    let enum_name = group.res.rust_name();
    let generics = get_generic_names(&group.decls)?;
    let generic_name = get_generic_name(generics.as_slice());
    let generics_impl = get_generic_impl(generics.as_slice(), "crate::Serializable");
    let ghost all = variant_arms(group@, lit(indent));
    let mut parts: Vec<Result<Vec<u8>, GenError>> = Vec::new();
    let mut i: usize = 0;
    while i < group.decls.len()
        invariant
            i <= group.decls@.len(),
            all == variant_arms(group@, lit(indent)),
            results_view(parts@) =~= all.take(i as int),
        decreases group.decls@.len() - i,
    {
        let part = variant_arm_of(group.decls[i], indent);
        proof {
            assert(group@.decls[i as int] == group.decls@[i as int]@);
            assert(results_view(parts@.push(part)) =~= results_view(parts@).push(text_of(part)));
        }
        parts.push(part);
        i += 1;
    }
    assert(all.take(i as int) =~= all);
    let arms = gather(&parts)?;
    let mut out = text(indent);
    put(&mut out, "impl");
    put_bytes(&mut out, generics_impl.as_slice());
    put(&mut out, " crate::Serializable for ");
    put_bytes(&mut out, enum_name.as_slice());
    put_bytes(&mut out, generic_name.as_slice());
    put(&mut out, " {\n");
    put(&mut out, indent);
    put(&mut out, "    fn serialize(&self, buf: crate::serialize::Buf) {\n");
    put(&mut out, indent);
    put(&mut out, "        use crate::Identificable;\n");
    put(&mut out, indent);
    put(&mut out, "        match self {\n");
    put_bytes(&mut out, arms.as_slice());
    put(&mut out, indent);
    put(&mut out, "        }\n");
    put(&mut out, indent);
    put(&mut out, "    }\n");
    put(&mut out, indent);
    put(&mut out, "}\n");
    Ok(out)
}

/// Appends the serialization of the sum type of a result type.
fn write_enum_ser(f: &mut Vec<u8>, group: &TypeGroup, indent: &str) -> (r: Result<(), GenError>)
    ensures
        written(r, old(f)@, final(f)@, enum_ser_text(group@, lit(indent))),
{
    let t = enum_ser(group, indent)?;
    put_bytes(f, t.as_slice());
    Ok(())
}

/// The test that reads one variant: where the id that was read is that of
/// the constructor, the record follows.
pub open spec fn variant_des(d: CombinatorView, of: IdentNsView, indent: Seq<u8>) -> Result<
    Seq<u8>,
    GenError,
> {
    match variant_generics(d.opt_args) {
        Ok(generics) => {
            let ty = variant_path(d.identns) + generics;
            let read = lit("<") + ty + lit(" as crate::Deserializable>::deserialize(buf)?");
            Ok(
                indent + lit("        if id == <") + ty + lit(" as crate::Identificable>::ID {\n")
                    + indent + lit("            return Ok(Self::") + camel(d.identns.name) + lit(
                    "(",
                ) + (if is_recursive(of, d.args) {
                    lit("Box::new(") + read + lit(")")
                } else {
                    read
                }) + lit("));\n") + indent + lit("        }\n"),
            )
        },
        Err(e) => Err(e),
    }
}

/// The tests that read the variants of a sum type.
pub open spec fn variants_des(g: TypeGroupView, indent: Seq<u8>) -> Seq<Result<Seq<u8>, GenError>> {
    Seq::new(g.decls.len(), |i: int| variant_des(g.decls[i], g.res.identns(), indent))
}

/// The deserialization of a sum type: the id, then the record of the
/// constructor that has it. An id of no constructor is an error of
/// decoding.
#[verifier::opaque]
pub open spec fn enum_des_text(g: TypeGroupView, indent: Seq<u8>) -> Result<Seq<u8>, GenError> {
    match enum_generics(g.decls) {
        Ok(generics) => match gathered(variants_des(g, indent)) {
            Ok(tests) => Ok(
                indent + lit("impl") + generic_bounds(generics, lit("crate::Deserializable"))
                    + lit(" crate::Deserializable for ") + camel(g.res.identns().name)
                    + generic_list(generics) + lit(" {\n") + indent + lit(
                    "    fn deserialize(buf: &mut crate::deserialize::Cursor) -> Result<Self, crate::CodecError> {\n",
                ) + indent + lit(
                    "        let id = <u32 as crate::Deserializable>::deserialize(buf)?;\n",
                ) + tests + indent + lit("        Err(crate::CodecError::InvalidId)\n") + indent
                    + lit("    }\n") + indent + lit("}\n"),
            ),
            Err(e) => Err(e),
        },
        Err(e) => Err(e),
    }
}

fn variant_des_of(decl: &CombinatorDecl, of: &IdentNs, indent: &str) -> (r: Result<
    Vec<u8>,
    GenError,
>)
    ensures
        text_of(r) == variant_des(decl@, of@, lit(indent)),
{
    let mut ty = get_enum_variant_path(&decl.identns);
    let generics = get_enum_variant_generics(decl.opt_args.as_slice())?;
    put_bytes(&mut ty, generics.as_slice());
    let mut read = text("<");
    put_bytes(&mut read, ty.as_slice());
    put(&mut read, " as crate::Deserializable>::deserialize(buf)?");
    let mut out = text(indent);
    put(&mut out, "        if id == <");
    put_bytes(&mut out, ty.as_slice());
    put(&mut out, " as crate::Identificable>::ID {\n");
    put(&mut out, indent);
    put(&mut out, "            return Ok(Self::");
    let name = decl.identns.rust_name();
    put_bytes(&mut out, name.as_slice());
    put(&mut out, "(");
    if is_recursive_enum_variant(of, decl.args.as_slice()) {
        put(&mut out, "Box::new(");
        put_bytes(&mut out, read.as_slice());
        put(&mut out, ")");
    } else {
        put_bytes(&mut out, read.as_slice());
    }
    put(&mut out, "));\n");
    put(&mut out, indent);
    put(&mut out, "        }\n");
    assert(out@ =~= variant_des(decl@, of@, lit(indent))->Ok_0);
    Ok(out)
}

fn enum_des(group: &TypeGroup, indent: &str) -> (r: Result<Vec<u8>, GenError>)
    ensures
        text_of(r) == enum_des_text(group@, lit(indent)),
{
    reveal(enum_des_text);
    let enum_name = group.res.rust_name();
    let generics = get_generic_names(&group.decls)?;
    let generic_name = get_generic_name(generics.as_slice());
    let generics_des = get_generic_impl(generics.as_slice(), "crate::Deserializable");
    let ghost all = variants_des(group@, lit(indent));
    let mut parts: Vec<Result<Vec<u8>, GenError>> = Vec::new();
    let mut i: usize = 0;
    while i < group.decls.len()
        invariant
            i <= group.decls@.len(),
            all == variants_des(group@, lit(indent)),
            results_view(parts@) =~= all.take(i as int),
        decreases group.decls@.len() - i,
    {
        let part = variant_des_of(group.decls[i], group.res.identns(), indent);
        proof {
            assert(group@.decls[i as int] == group.decls@[i as int]@);
            assert(results_view(parts@.push(part)) =~= results_view(parts@).push(text_of(part)));
        }
        parts.push(part);
        i += 1;
    }
    assert(all.take(i as int) =~= all);
    let tests = gather(&parts)?;
    let mut out = text(indent);
    put(&mut out, "impl");
    put_bytes(&mut out, generics_des.as_slice());
    put(&mut out, " crate::Deserializable for ");
    put_bytes(&mut out, enum_name.as_slice());
    put_bytes(&mut out, generic_name.as_slice());
    put(&mut out, " {\n");
    put(&mut out, indent);
    put(
        &mut out,
        "    fn deserialize(buf: &mut crate::deserialize::Cursor) -> Result<Self, crate::CodecError> {\n",
    );
    put(&mut out, indent);
    put(&mut out, "        let id = <u32 as crate::Deserializable>::deserialize(buf)?;\n");
    put_bytes(&mut out, tests.as_slice());
    put(&mut out, indent);
    put(&mut out, "        Err(crate::CodecError::InvalidId)\n");
    put(&mut out, indent);
    put(&mut out, "    }\n");
    put(&mut out, indent);
    put(&mut out, "}\n");
    Ok(out)
}

/// Appends the deserialization of the sum type of a result type.
fn write_enum_des(f: &mut Vec<u8>, group: &TypeGroup, indent: &str) -> (r: Result<(), GenError>)
    ensures
        written(r, old(f)@, final(f)@, enum_des_text(group@, lit(indent))),
{
    let t = enum_des(group, indent)?;
    put_bytes(f, t.as_slice());
    Ok(())
}

/// The sum type of a result type with its serialization and its
/// deserialization.
#[verifier::opaque]
pub open spec fn sum_type_text(g: TypeGroupView, indent: Seq<u8>) -> Result<Seq<u8>, GenError> {
    match enum_text(g, indent) {
        Ok(def) => match enum_ser_text(g, indent) {
            Ok(ser) => match enum_des_text(g, indent) {
                Ok(des) => Ok(def + ser + des),
                Err(e) => Err(e),
            },
            Err(e) => Err(e),
        },
        Err(e) => Err(e),
    }
}

/// The sum types of one namespace, inside the module of that namespace.
#[verifier::opaque]
pub open spec fn namespace_enums(ns: NamespaceGroupsView) -> Result<Seq<u8>, GenError> {
    match gathered(
        Seq::new(ns.groups.len(), |i: int| sum_type_text(ns.groups[i], indent_of(ns.name))),
    ) {
        Ok(all) => Ok(module_open(ns.name) + all + module_close(ns.name)),
        Err(e) => Err(e),
    }
}

/// The module `enums`: the sum types of every namespace, in the order of
/// the index.
pub open spec fn enums_text(m: MetadataView) -> Result<Seq<u8>, GenError> {
    match gathered(
        Seq::new(m.types_group_ns.len(), |i: int| namespace_enums(m.types_group_ns[i])),
    ) {
        Ok(all) => Ok(lit("pub mod enums {\n") + all + lit("}\n")),
        Err(e) => Err(e),
    }
}

fn sum_type(group: &TypeGroup, indent: &str) -> (r: Result<Vec<u8>, GenError>)
    ensures
        text_of(r) == sum_type_text(group@, lit(indent)),
{
    reveal(sum_type_text);
    let mut out: Vec<u8> = Vec::new();
    write_enum(&mut out, group, indent)?;
    write_enum_ser(&mut out, group, indent)?;
    write_enum_des(&mut out, group, indent)?;
    assert(out@ =~= enum_text(group@, lit(indent))->Ok_0 + enum_ser_text(
        group@,
        lit(indent),
    )->Ok_0 + enum_des_text(group@, lit(indent))->Ok_0);
    Ok(out)
}

/// The sum types of the groups of a list, one after the other.
fn sum_types(groups: &Vec<TypeGroup>, indent: &str) -> (r: Result<Vec<u8>, GenError>)
    ensures
        text_of(r) == gathered(
            Seq::new(
                groups@.len(),
                |i: int| sum_type_text(crate::metadata::groups_view(groups@)[i], lit(indent)),
            ),
        ),
{
    let ghost all = Seq::new(
        groups@.len(),
        |i: int| sum_type_text(crate::metadata::groups_view(groups@)[i], lit(indent)),
    );
    let mut parts: Vec<Result<Vec<u8>, GenError>> = Vec::new();
    let mut i: usize = 0;
    while i < groups.len()
        invariant
            i <= groups@.len(),
            all == Seq::new(
                groups@.len(),
                |i: int| sum_type_text(crate::metadata::groups_view(groups@)[i], lit(indent)),
            ),
            results_view(parts@) =~= all.take(i as int),
        decreases groups@.len() - i,
    {
        let part = sum_type(&groups[i], indent);
        proof {
            assert(crate::metadata::groups_view(groups@)[i as int] == groups@[i as int]@);
            assert(results_view(parts@.push(part)) =~= results_view(parts@).push(text_of(part)));
        }
        parts.push(part);
        i += 1;
    }
    assert(all.take(i as int) =~= all);
    gather(&parts)
}

fn enums_of(ns: &NamespaceGroups) -> (r: Result<Vec<u8>, GenError>)
    ensures
        text_of(r) == namespace_enums(ns@),
{
    reveal(namespace_enums);
    let indent = if ns.name.is_some() {
        "        "
    } else {
        "    "
    };
    assert(Seq::new(
        ns@.groups.len(),
        |i: int| sum_type_text(ns@.groups[i], indent_of(ns@.name)),
    ) =~= Seq::new(
        ns.groups@.len(),
        |i: int| sum_type_text(crate::metadata::groups_view(ns.groups@)[i], lit(indent)),
    ));
    let body = sum_types(&ns.groups, indent)?;
    let mut out: Vec<u8> = Vec::new();
    if let Some(n) = &ns.name {
        put(&mut out, "    pub mod ");
        put_bytes(&mut out, n.as_slice());
        put(&mut out, " {\n");
    }
    put_bytes(&mut out, body.as_slice());
    if ns.name.is_some() {
        put(&mut out, "    }\n");
    }
    assert(out@ =~= module_open(ns@.name) + body@ + module_close(ns@.name));
    Ok(out)
}

/// The sum types of every namespace, one module after the other.
fn all_enums(metadata: &Metadata) -> (r: Result<Vec<u8>, GenError>)
    ensures
        text_of(r) == gathered(
            Seq::new(
                metadata@.types_group_ns.len(),
                |i: int| namespace_enums(metadata@.types_group_ns[i]),
            ),
        ),
{
    let ghost all = Seq::new(
        metadata@.types_group_ns.len(),
        |i: int| namespace_enums(metadata@.types_group_ns[i]),
    );
    let mut parts: Vec<Result<Vec<u8>, GenError>> = Vec::new();
    let mut i: usize = 0;
    while i < metadata.types_group_ns.len()
        invariant
            i <= metadata.types_group_ns@.len(),
            all == Seq::new(
                metadata@.types_group_ns.len(),
                |i: int| namespace_enums(metadata@.types_group_ns[i]),
            ),
            results_view(parts@) =~= all.take(i as int),
        decreases metadata.types_group_ns@.len() - i,
    {
        let part = enums_of(&metadata.types_group_ns[i]);
        proof {
            assert(metadata@.types_group_ns[i as int] == metadata.types_group_ns@[i as int]@);
            assert(results_view(parts@.push(part)) =~= results_view(parts@).push(text_of(part)));
        }
        parts.push(part);
        i += 1;
    }
    assert(all.take(i as int) =~= all);
    gather(&parts)
}

/// Appends the module `enums`, which holds the sum type of every result
/// type of the index, namespace by namespace.
pub fn write_enums(f: &mut Vec<u8>, metadata: &Metadata) -> (r: Result<(), GenError>)
    ensures
        written(r, old(f)@, final(f)@, enums_text(metadata@)),
{
    let body = all_enums(metadata)?;
    put(f, "pub mod enums {\n");
    put_bytes(f, body.as_slice());
    put(f, "}\n");
    assert(f@ =~= old(f)@ + (lit("pub mod enums {\n") + body@ + lit("}\n")));
    Ok(())
}

} // verus!

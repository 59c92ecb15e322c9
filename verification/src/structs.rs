//! The records of generated code: one per constructor, with its
//! serialization.

use vstd::prelude::*;
use crate::errors::GenError;
use crate::formatter::{builtin, builtin_type, escape_builtin_kw, escaped, path, Rustifiable};
use crate::formatter::camel;
use crate::metadata::{Metadata, MetadataView, Namespace, NamespaceView};
use crate::text::{
    bytes_eq, concat, contains, decimal, is_text, join, joined, lemma_lines_push, lines, lit, put,
    put_bytes, put_decimal, text, to_ascii_uppercase, to_vec, uppercase,
};
use crate::types::{
    Arg, ArgView, CombinatorDecl, CombinatorView, IdentNs, IdentNsView, OptArg, OptArgView, Term,
    TermView,
};

verus! {

/// A text or an error, with the text by its bytes.
pub open spec fn text_of(r: Result<Vec<u8>, GenError>) -> Result<Seq<u8>, GenError> {
    match r {
        Ok(t) => Ok(t@),
        Err(e) => Err(e),
    }
}

/// Texts or an error, with each text by its bytes.
pub open spec fn texts_of(r: Result<Vec<Vec<u8>>, GenError>) -> Result<Seq<Seq<u8>>, GenError> {
    match r {
        Ok(t) => Ok(lines(t@)),
        Err(e) => Err(e),
    }
}

/// All the values where every entry is one, else the first error.
pub open spec fn collect(rs: Seq<Result<Seq<u8>, GenError>>) -> Result<Seq<Seq<u8>>, GenError>
    decreases rs.len(),
{
    if rs.len() == 0 {
        Ok(Seq::empty())
    } else {
        match collect(rs.drop_last()) {
            Ok(ts) => match rs.last() {
                Ok(t) => Ok(ts.push(t)),
                Err(e) => Err(e),
            },
            Err(e) => Err(e),
        }
    }
}

/// Where the first `n` entries are values, `collect` of them is these
/// values; where the entry after them is an error, `collect` of the whole
/// is that error.
pub proof fn lemma_collect(rs: Seq<Result<Seq<u8>, GenError>>, n: int)
    requires
        0 <= n <= rs.len(),
        forall|j: int| 0 <= j < n ==> (#[trigger] rs[j]) is Ok,
    ensures
        collect(rs.take(n)) == Ok::<Seq<Seq<u8>>, GenError>(Seq::new(n as nat, |j: int| rs[j]->Ok_0)),
        n < rs.len() && rs[n] is Err ==> collect(rs) == Err::<Seq<Seq<u8>>, GenError>(
            rs[n]->Err_0,
        ),
    decreases n,
{
    if n > 0 {
        lemma_collect(rs, n - 1);
        assert(rs.take(n).drop_last() =~= rs.take(n - 1));
        assert(Seq::new((n - 1) as nat, |j: int| rs[j]->Ok_0).push(rs[n - 1]->Ok_0) =~= Seq::new(
            n as nat,
            |j: int| rs[j]->Ok_0,
        ));
    } else {
        assert(rs.take(0) =~= Seq::empty());
        assert(Seq::new(0 as nat, |j: int| rs[j]->Ok_0) =~= Seq::empty());
    }
    if n < rs.len() && rs[n] is Err {
        lemma_collect_error(rs, n);
    }
}

/// `collect` is the first error of its argument.
pub proof fn lemma_collect_error(rs: Seq<Result<Seq<u8>, GenError>>, n: int)
    requires
        0 <= n < rs.len(),
        forall|j: int| 0 <= j < n ==> (#[trigger] rs[j]) is Ok,
        rs[n] is Err,
    ensures
        collect(rs) == Err::<Seq<Seq<u8>>, GenError>(rs[n]->Err_0),
    decreases rs.len(),
{
    if n == rs.len() - 1 {
        lemma_collect_values(rs.drop_last());
    } else {
        lemma_collect_error(rs.drop_last(), n);
    }
}

/// `collect` of values alone is a value.
pub proof fn lemma_collect_values(rs: Seq<Result<Seq<u8>, GenError>>)
    requires
        forall|j: int| 0 <= j < rs.len() ==> (#[trigger] rs[j]) is Ok,
    ensures
        collect(rs) is Ok,
    decreases rs.len(),
{
    if rs.len() > 0 {
        lemma_collect_values(rs.drop_last());
    }
}

/// The module of generated code that holds a type: `enums` for a boxed
/// name, `types` for a bare one.
pub open spec fn module_of(ident: IdentNsView) -> Seq<u8> {
    if ident.boxed() {
        lit("enums")
    } else {
        lit("types")
    }
}

/// The native type of a primitive, else the path of the generated type.
pub open spec fn type_of_ident(ident: IdentNsView) -> Seq<u8> {
    match builtin(ident.name) {
        Some(native) => native,
        None => lit("crate::") + module_of(ident) + lit("::") + path(ident),
    }
}

/// Whether a name, written without a namespace, is one of the generic
/// parameters, which are held in upper case.
pub open spec fn is_generic(ident: IdentNsView, generics: Seq<Seq<u8>>) -> bool {
    ident.namespace is None && generics.contains(uppercase(ident.name))
}

/// The type that a term stands for in generated code. A name that is a
/// generic parameter stands for that parameter; `#` is a `u32`; `%` changes
/// nothing; a generic application takes one argument. A group in
/// parentheses and a number stand for no type.
pub open spec fn type_of_term(t: TermView, generics: Seq<Seq<u8>>) -> Result<Seq<u8>, GenError>
    decreases t,
{
    match t {
        TermView::IdentNs(ident) => Ok(
            if is_generic(ident, generics) {
                uppercase(ident.name)
            } else {
                type_of_ident(ident)
            },
        ),
        TermView::Nat => Ok(lit("u32")),
        TermView::Ang { identns, term, terms } => if terms.len() > 0 {
            Err(GenError::UnsupportedConstruct)
        } else {
            match type_of_term(*term, generics) {
                Ok(inner) => Ok(type_of_ident(identns) + lit("<") + inner + lit(">")),
                Err(e) => Err(e),
            }
        },
        TermView::Percent(p) => type_of_term(*p, generics),
        TermView::Par(_) => Err(GenError::UnsupportedConstruct),
        TermView::NatConst(_) => Err(GenError::UnsupportedConstruct),
    }
}

/// The types of the fields of a repeated block.
pub open spec fn element_types(args: Seq<ArgView>, generics: Seq<Seq<u8>>) -> Seq<
    Result<Seq<u8>, GenError>,
>
    decreases args, 1int,
{
    Seq::new(
        args.len(),
        |i: int|
            if 0 <= i < args.len() {
                field_type(args[i], generics)
            } else {
                Err(GenError::UnsupportedConstruct)
            },
    )
}

/// The type of the field that an argument declares. A field under a
/// condition is an `Option`. A repeated block with a count holds `i32`
/// alone and is an array of four bytes for each; without a count it is a
/// `Vec` of its element, or of a tuple where it has several. A group in
/// parentheses declares no field.
pub open spec fn field_type(arg: ArgView, generics: Seq<Seq<u8>>) -> Result<Seq<u8>, GenError>
    decreases arg, 0int,
{
    match arg {
        ArgView::Single { term, .. } => type_of_term(term, generics),
        ArgView::Cond { cond, term, .. } => match type_of_term(term, generics) {
            Ok(ty) => Ok(
                if cond is Some {
                    lit("Option<") + ty + lit(">")
                } else {
                    ty
                },
            ),
            Err(e) => Err(e),
        },
        ArgView::Brack { mult, args, .. } => match collect(element_types(args, generics)) {
            Ok(types) => match mult {
                Some(n) => if n >= 0 && joined(types, lit(",")) == lit("i32") {
                    Ok(lit("[u8; ") + decimal((n * 4) as nat) + lit("]"))
                } else {
                    Err(GenError::UnsupportedConstruct)
                },
                None => if types.len() > 1 {
                    Ok(lit("Vec<(") + joined(types, lit(",")) + lit(")>"))
                } else if types.len() == 1 {
                    Ok(lit("Vec<") + types[0] + lit(">"))
                } else {
                    Err(GenError::UnsupportedConstruct)
                },
            },
            Err(e) => Err(e),
        },
        ArgView::Par { .. } => Err(GenError::UnsupportedConstruct),
    }
}

/// The name of the field that an argument declares: the written name,
/// spelled for generated code; `nat` for a bare `#`; `inner_list` for a
/// block or a generic application without a name.
pub open spec fn field_name(arg: ArgView) -> Result<Seq<u8>, GenError> {
    match arg {
        ArgView::Single { term, .. } => match term {
            TermView::Nat => Ok(lit("nat")),
            TermView::Ang { .. } => Ok(lit("inner_list")),
            _ => Err(GenError::UnsupportedConstruct),
        },
        ArgView::Cond { ident, .. } => Ok(escaped(ident)),
        ArgView::Brack { ident, .. } => match ident {
            Some(ident) => Ok(escaped(ident)),
            None => Ok(lit("inner_list")),
        },
        ArgView::Par { .. } => Err(GenError::UnsupportedConstruct),
    }
}

/// The generic parameter that `{name : Type}` declares: the name in upper
/// case. Any other parameter declares none.
pub open spec fn generic_of(arg: OptArgView) -> Result<Seq<u8>, GenError> {
    if arg.idents.len() == 0 && arg.terms.len() == 1 && (arg.terms[0] matches TermView::IdentNs(
        ident,
    ) && ident.name == lit("Type")) {
        Ok(uppercase(arg.ident))
    } else {
        Err(GenError::UnsupportedConstruct)
    }
}

/// The generic parameters of a declaration.
pub open spec fn generics_of(opt_args: Seq<OptArgView>) -> Result<Seq<Seq<u8>>, GenError> {
    collect(Seq::new(opt_args.len(), |i: int| generic_of(opt_args[i])))
}

/// The fields that conditions name, that is, the flags fields, each as
/// often as a condition names it and spelled as a field name.
pub open spec fn flag_fields(args: Seq<ArgView>) -> Seq<Seq<u8>>
    decreases args.len(),
{
    if args.len() == 0 {
        Seq::empty()
    } else {
        let before = flag_fields(args.drop_last());
        match args.last() {
            ArgView::Cond { cond: Some(c), .. } => before.push(escaped(c.ident)),
            _ => before,
        }
    }
}

/// The list of generic parameters after a type's name: `<A,B>`, or nothing
/// where there is none.
pub open spec fn generic_list(generics: Seq<Seq<u8>>) -> Seq<u8> {
    if generics.len() > 0 {
        lit("<") + joined(generics, lit(",")) + lit(">")
    } else {
        Seq::empty()
    }
}

/// Each generic parameter with its bound, `A: Trait`.
pub open spec fn bounded(generics: Seq<Seq<u8>>, trait_name: Seq<u8>) -> Seq<Seq<u8>> {
    Seq::new(generics.len(), |i: int| generics[i] + lit(": ") + trait_name)
}

/// The list of bounded generic parameters after `impl`: `<A: Trait,B:
/// Trait>`, or nothing where there is none.
pub open spec fn generic_bounds(generics: Seq<Seq<u8>>, trait_name: Seq<u8>) -> Seq<u8> {
    if generics.len() > 0 {
        lit("<") + joined(bounded(generics, trait_name), lit(",")) + lit(">")
    } else {
        Seq::empty()
    }
}

fn type_from_identns(ins: &IdentNs) -> (r: Vec<u8>)
    ensures
        r@ == type_of_ident(ins@),
{
    if let Some(native) = builtin_type(ins.name.as_slice()) {
        text(native)
    } else {
        let mut out = text("crate::");
        put(
            &mut out,
            if ins.is_boxed() {
                "enums"
            } else {
                "types"
            },
        );
        put(&mut out, "::");
        let p = ins.rust_path();
        put_bytes(&mut out, p.as_slice());
        out
    }
}

fn type_from_term(term: &Term, generics: &[Vec<u8>]) -> (r: Result<Vec<u8>, GenError>)
    ensures
        text_of(r) == type_of_term(term@, lines(generics@)),
    decreases term,
{
    match term {
        Term::IdentNs(ins) => {
            if ins.namespace.is_none() {
                let upper = to_ascii_uppercase(ins.name.as_slice());
                if contains(generics, upper.as_slice()) {
                    return Ok(upper);
                }
            }
            Ok(type_from_identns(ins))
        },
        Term::Nat => Ok(text("u32")),
        Term::Ang(ang) => {
            assert(term@ == ang@);
            if ang.terms.len() > 0 {
                return Err(GenError::UnsupportedConstruct);
            }
            let mut out = type_from_identns(&ang.identns);
            let inner = type_from_term(&ang.term, generics)?;
            put(&mut out, "<");
            put_bytes(&mut out, inner.as_slice());
            put(&mut out, ">");
            Ok(out)
        },
        Term::Percent(p) => type_from_term(p, generics),
        _ => Err(GenError::UnsupportedConstruct),
    }
}

/// The types of the fields of a repeated block.
fn element_types_of(args: &Vec<Arg>, generics: &[Vec<u8>]) -> (r: Result<Vec<Vec<u8>>, GenError>)
    ensures
        texts_of(r) == collect(element_types(crate::types::args_view(args@), lines(generics@))),
    decreases args, 1int,
{
    let ghost all = element_types(crate::types::args_view(args@), lines(generics@));
    let mut types: Vec<Vec<u8>> = Vec::new();
    let mut i: usize = 0;
    while i < args.len()
        invariant
            i <= args@.len(),
            all == element_types(crate::types::args_view(args@), lines(generics@)),
            all.len() == args@.len(),
            forall|j: int| 0 <= j < i ==> (#[trigger] all[j]) is Ok,
            lines(types@) == Seq::new(i as nat, |j: int| all[j]->Ok_0),
        decreases args@.len() - i,
    {
        assert(all[i as int] == field_type(args@[i as int]@, lines(generics@)));
        match get_struct_field_type(&args[i], generics) {
            Ok(ty) => {
                proof {
                    lemma_lines_push(types@, ty);
                    assert(lines(types@).push(ty@) =~= Seq::new(
                        (i + 1) as nat,
                        |j: int| all[j]->Ok_0,
                    ));
                }
                types.push(ty);
            },
            Err(e) => {
                proof {
                    lemma_collect(all, i as int);
                }
                return Err(e);
            },
        }
        i += 1;
    }
    proof {
        lemma_collect(all, i as int);
        assert(all.take(i as int) =~= all);
    }
    Ok(types)
}

/// The type of the field that an argument declares, with the names in
/// `generics` standing for generic parameters.
pub fn get_struct_field_type(arg: &Arg, generics: &[Vec<u8>]) -> (r: Result<Vec<u8>, GenError>)
    ensures
        text_of(r) == field_type(arg@, lines(generics@)),
    decreases arg, 0int,
{
    match arg {
        Arg::Single(a) => type_from_term(&a.term, generics),
        Arg::Cond(a) => {
            let ty = type_from_term(&a.term, generics)?;
            if a.cond.is_some() {
                let mut out = text("Option<");
                put_bytes(&mut out, ty.as_slice());
                put(&mut out, ">");
                Ok(out)
            } else {
                Ok(ty)
            }
        },
        Arg::Brack(b) => {
            let types = element_types_of(&b.args, generics)?;
            match b.mult {
                Some(n) => {
                    let all = join(types.as_slice(), ",");
                    if n < 0 || !is_text(all.as_slice(), "i32") {
                        return Err(GenError::UnsupportedConstruct);
                    }
                    let mut out = text("[u8; ");
                    put_decimal(&mut out, n as u64 * 4);
                    put(&mut out, "]");
                    Ok(out)
                },
                None => {
                    if types.len() > 1 {
                        let mut out = text("Vec<(");
                        let all = join(types.as_slice(), ",");
                        put_bytes(&mut out, all.as_slice());
                        put(&mut out, ")>");
                        Ok(out)
                    } else if types.len() == 1 {
                        let mut out = text("Vec<");
                        put_bytes(&mut out, types[0].as_slice());
                        put(&mut out, ">");
                        Ok(out)
                    } else {
                        Err(GenError::UnsupportedConstruct)
                    }
                },
            }
        },
        Arg::Par(_) => Err(GenError::UnsupportedConstruct),
    }
}

fn get_struct_field_name(arg: &Arg) -> (r: Result<Vec<u8>, GenError>)
    ensures
        text_of(r) == field_name(arg@),
{
    match arg {
        Arg::Single(a) => match &a.term {
            Term::Nat => Ok(text("nat")),
            Term::Ang(_) => Ok(text("inner_list")),
            _ => Err(GenError::UnsupportedConstruct),
        },
        Arg::Cond(a) => Ok(escape_builtin_kw(a.ident.as_slice())),
        Arg::Brack(b) => match &b.ident {
            Some(ident) => Ok(escape_builtin_kw(ident.as_slice())),
            None => Ok(text("inner_list")),
        },
        Arg::Par(_) => Err(GenError::UnsupportedConstruct),
    }
}

/// The generic parameter that `{name : Type}` declares.
fn generic_arg(arg: &OptArg) -> (r: Result<Vec<u8>, GenError>)
    ensures
        text_of(r) == generic_of(arg@),
{
    if arg.idents.len() != 0 || arg.terms.len() != 1 {
        return Err(GenError::UnsupportedConstruct);
    }
    assert(arg@.terms[0] == arg.terms@[0]@);
    if let Term::IdentNs(ins) = &arg.terms[0] {
        if is_text(ins.name.as_slice(), "Type") {
            return Ok(to_ascii_uppercase(arg.ident.as_slice()));
        }
    }
    Err(GenError::UnsupportedConstruct)
}

/// The generic parameters of a declaration, in upper case.
pub fn get_generic_arg(opt_args: &[OptArg]) -> (r: Result<Vec<Vec<u8>>, GenError>)
    ensures
        texts_of(r) == generics_of(crate::types::opt_args_view(opt_args@)),
{
    let ghost all = Seq::new(
        opt_args@.len(),
        |i: int| generic_of(crate::types::opt_args_view(opt_args@)[i]),
    );
    let mut args: Vec<Vec<u8>> = Vec::new();
    let mut i: usize = 0;
    while i < opt_args.len()
        invariant
            i <= opt_args@.len(),
            all == Seq::new(
                opt_args@.len(),
                |i: int| generic_of(crate::types::opt_args_view(opt_args@)[i]),
            ),
            forall|j: int| 0 <= j < i ==> (#[trigger] all[j]) is Ok,
            lines(args@) == Seq::new(i as nat, |j: int| all[j]->Ok_0),
        decreases opt_args@.len() - i,
    {
        assert(all[i as int] == generic_of(opt_args@[i as int]@));
        match generic_arg(&opt_args[i]) {
            Ok(name) => {
                proof {
                    lemma_lines_push(args@, name);
                    assert(lines(args@).push(name@) =~= Seq::new(
                        (i + 1) as nat,
                        |j: int| all[j]->Ok_0,
                    ));
                }
                args.push(name);
            },
            Err(e) => {
                proof {
                    lemma_collect(all, i as int);
                }
                return Err(e);
            },
        }
        i += 1;
    }
    proof {
        lemma_collect(all, i as int);
        assert(all.take(i as int) =~= all);
    }
    Ok(args)
}

fn get_conditional_args(args: &[Arg]) -> (r: Vec<Vec<u8>>)
    ensures
        lines(r@) == flag_fields(crate::types::args_view(args@)),
{
    let ghost all = crate::types::args_view(args@);
    let mut list: Vec<Vec<u8>> = Vec::new();
    let mut i: usize = 0;
    assert(lines(list@) =~= flag_fields(all.take(0)));
    while i < args.len()
        invariant
            i <= args@.len(),
            all == crate::types::args_view(args@),
            lines(list@) == flag_fields(all.take(i as int)),
        decreases args@.len() - i,
    {
        proof {
            assert(all.take(i + 1).drop_last() =~= all.take(i as int));
            assert(all.take(i + 1).last() == args@[i as int]@);
        }
        if let Arg::Cond(c) = &args[i] {
            if let Some(s) = &c.cond {
                let name = escape_builtin_kw(s.ident.as_slice());
                proof {
                    lemma_lines_push(list@, name);
                }
                list.push(name);
            }
        }
        i += 1;
    }
    assert(all.take(i as int) =~= all);
    list
}

/// The list of generic parameters after a type's name.
pub fn get_generic_name(generics: &[Vec<u8>]) -> (r: Vec<u8>)
    ensures
        r@ == generic_list(lines(generics@)),
{
    if generics.len() > 0 {
        let mut out = text("<");
        let all = join(generics, ",");
        put_bytes(&mut out, all.as_slice());
        put(&mut out, ">");
        out
    } else {
        Vec::new()
    }
}

/// The list of generic parameters after `impl`, each bounded by the trait.
pub fn get_generic_impl(generics: &[Vec<u8>], trait_name: &str) -> (r: Vec<u8>)
    ensures
        r@ == generic_bounds(lines(generics@), lit(trait_name)),
{
    if generics.len() > 0 {
        let mut parts: Vec<Vec<u8>> = Vec::new();
        let mut i: usize = 0;
        while i < generics.len()
            invariant
                i <= generics@.len(),
                lines(parts@) == bounded(lines(generics@), lit(trait_name)).take(i as int),
            decreases generics@.len() - i,
        {
            let mut part = to_vec(generics[i].as_slice());
            put(&mut part, ": ");
            put(&mut part, trait_name);
            assert(part@ == bounded(lines(generics@), lit(trait_name))[i as int]);
            proof {
                lemma_lines_push(parts@, part);
                assert(lines(parts@).push(part@) =~= bounded(
                    lines(generics@),
                    lit(trait_name),
                ).take(i + 1));
            }
            parts.push(part);
            i += 1;
        }
        assert(bounded(lines(generics@), lit(trait_name)).take(i as int) =~= bounded(
            lines(generics@),
            lit(trait_name),
        ));
        let mut out = text("<");
        let all = join(parts.as_slice(), ",");
        put_bytes(&mut out, all.as_slice());
        put(&mut out, ">");
        out
    } else {
        Vec::new()
    }
}

/// Results with each text by its bytes.
pub open spec fn results_view(rs: Seq<Result<Vec<u8>, GenError>>) -> Seq<
    Result<Seq<u8>, GenError>,
> {
    Seq::new(rs.len(), |i: int| text_of(rs[i]))
}

/// All the texts in a row where every entry is one, else the first error.
pub open spec fn gathered(rs: Seq<Result<Seq<u8>, GenError>>) -> Result<Seq<u8>, GenError> {
    match collect(rs) {
        Ok(parts) => Ok(concat(parts)),
        Err(e) => Err(e),
    }
}

/// Puts texts in a row, unless one of them is an error.
pub(crate) fn gather(rs: &Vec<Result<Vec<u8>, GenError>>) -> (r: Result<Vec<u8>, GenError>)
    ensures
        text_of(r) == gathered(results_view(rs@)),
{
    let ghost all = results_view(rs@);
    let mut out: Vec<u8> = Vec::new();
    let mut i: usize = 0;
    assert(out@ =~= concat(Seq::new(0 as nat, |j: int| all[j]->Ok_0)));
    while i < rs.len()
        invariant
            i <= rs@.len(),
            all == results_view(rs@),
            forall|j: int| 0 <= j < i ==> (#[trigger] all[j]) is Ok,
            out@ == concat(Seq::new(i as nat, |j: int| all[j]->Ok_0)),
        decreases rs@.len() - i,
    {
        assert(all[i as int] == text_of(rs@[i as int]));
        match &rs[i] {
            Ok(t) => {
                proof {
                    let next = Seq::new((i + 1) as nat, |j: int| all[j]->Ok_0);
                    assert(next.drop_last() =~= Seq::new(i as nat, |j: int| all[j]->Ok_0));
                    assert(next.last() == t@);
                }
                put_bytes(&mut out, t.as_slice());
            },
            Err(e) => {
                proof {
                    lemma_collect(all, i as int);
                }
                return Err(*e);
            },
        }
        i += 1;
    }
    proof {
        lemma_collect(all, i as int);
        assert(all.take(i as int) =~= all);
    }
    Ok(out)
}

// ---------------------------------------------------------------------------
// Records
// ---------------------------------------------------------------------------

/// Whether an argument is a flags field, that is, one that conditions of
/// the declaration name. Such a field is written as `name:#`; a field of
/// another shape that a condition names is an error.
pub open spec fn carries_flags(arg: ArgView, flags: Seq<Seq<u8>>) -> Result<bool, GenError> {
    match field_name(arg) {
        Ok(name) => if flags.contains(name) {
            if arg matches ArgView::Cond { cond: None, term: TermView::Nat, .. } {
                Ok(true)
            } else {
                Err(GenError::UnsupportedConstruct)
            }
        } else {
            Ok(false)
        },
        Err(e) => Err(e),
    }
}

/// The line that declares the field of an argument; nothing for a flags
/// field, which the record does not store.
pub open spec fn field_line(
    arg: ArgView,
    generics: Seq<Seq<u8>>,
    flags: Seq<Seq<u8>>,
    indent: Seq<u8>,
) -> Result<Seq<u8>, GenError> {
    match carries_flags(arg, flags) {
        Ok(true) => Ok(Seq::empty()),
        Ok(false) => match field_type(arg, generics) {
            Ok(ty) => Ok(
                indent + lit("    pub ") + field_name(arg)->Ok_0 + lit(": ") + ty + lit(",\n"),
            ),
            Err(e) => Err(e),
        },
        Err(e) => Err(e),
    }
}

/// The lines that declare the fields of a record.
pub open spec fn field_lines(
    args: Seq<ArgView>,
    generics: Seq<Seq<u8>>,
    indent: Seq<u8>,
) -> Seq<Result<Seq<u8>, GenError>> {
    Seq::new(args.len(), |i: int| field_line(args[i], generics, flag_fields(args), indent))
}

/// The definition of the record of a constructor, and the statement of its
/// id. The fields stand in the order of the declaration, without the flags
/// fields.
#[verifier::opaque]
pub open spec fn struct_text(d: CombinatorView, indent: Seq<u8>) -> Result<Seq<u8>, GenError> {
    match generics_of(d.opt_args) {
        Ok(generics) => match gathered(field_lines(d.args, generics, indent)) {
            Ok(fields) => Ok(
                indent + lit("pub struct ") + camel(d.identns.name) + generic_list(generics) + lit(
                    " {\n",
                ) + fields + indent + lit("}\n") + indent + lit("impl") + generic_list(
                    generics,
                ) + lit(" crate::Identificable for ") + camel(d.identns.name) + generic_list(
                    generics,
                ) + lit(" { const ID: u32 = ") + decimal(d.resolved_id() as nat) + lit("; }\n"),
            ),
            Err(e) => Err(e),
        },
        Err(e) => Err(e),
    }
}

/// What a field under a condition of the flags field `flags` adds to the
/// flags word: its bit where the field is present. Any other field adds
/// nothing. A bit is one of the 32 of the word.
pub open spec fn flag_term(arg: ArgView, flags: Seq<u8>) -> Result<Seq<u8>, GenError> {
    match arg {
        ArgView::Cond { ident, cond: Some(c), .. } => if escaped(c.ident) == flags {
            let index = match c.index {
                Some(n) => n,
                None => 0,
            };
            if index < 32 {
                Ok(
                    lit(" | crate::flag_bit(self.") + escaped(ident) + lit(".is_some(), ")
                        + decimal(index as nat) + lit(")"),
                )
            } else {
                Err(GenError::UnsupportedConstruct)
            }
        } else {
            Ok(Seq::empty())
        },
        _ => Ok(Seq::empty()),
    }
}

/// The statement that writes a flags word. The word is not stored: it is
/// made of the bits of the fields that are present.
pub open spec fn flags_line(args: Seq<ArgView>, flags: Seq<u8>, indent: Seq<u8>) -> Result<
    Seq<u8>,
    GenError,
> {
    match gathered(Seq::new(args.len(), |i: int| flag_term(args[i], flags))) {
        Ok(terms) => Ok(indent + lit("        (0u32") + terms + lit(").serialize(buf);\n")),
        Err(e) => Err(e),
    }
}

/// The statements that write the field of an argument: the flags word for
/// a flags field, the value where it is present for a field under a
/// condition, the value for any other.
pub open spec fn ser_line(arg: ArgView, args: Seq<ArgView>, indent: Seq<u8>) -> Result<
    Seq<u8>,
    GenError,
> {
    match carries_flags(arg, flag_fields(args)) {
        Ok(true) => flags_line(args, field_name(arg)->Ok_0, indent),
        Ok(false) => Ok(
            if arg matches ArgView::Cond { cond: Some(_), .. } {
                indent + lit("        if let Some(ref x) = self.") + field_name(arg)->Ok_0 + lit(
                    " {\n",
                ) + indent + lit("            x.serialize(buf);\n") + indent + lit("        }\n")
            } else {
                indent + lit("        self.") + field_name(arg)->Ok_0 + lit(".serialize(buf);\n")
            },
        ),
        Err(e) => Err(e),
    }
}

/// The statements that write the fields of a record.
pub open spec fn ser_lines(args: Seq<ArgView>, indent: Seq<u8>) -> Seq<Result<Seq<u8>, GenError>> {
    Seq::new(args.len(), |i: int| ser_line(args[i], args, indent))
}

/// The serialization of the record of a constructor: each field in the
/// order of the declaration, the flags word where the flags field stands.
#[verifier::opaque]
pub open spec fn struct_ser_text(d: CombinatorView, indent: Seq<u8>) -> Result<
    Seq<u8>,
    GenError,
> {
    match generics_of(d.opt_args) {
        Ok(generics) => match gathered(ser_lines(d.args, indent)) {
            Ok(body) => Ok(
                indent + lit("impl") + generic_bounds(generics, lit("crate::Serializable")) + lit(
                    " crate::Serializable for ",
                ) + camel(d.identns.name) + generic_list(generics) + lit(" {\n") + indent + lit(
                    "    fn serialize(&self, buf: crate::serialize::Buf) {\n",
                ) + body + indent + lit("    }\n") + indent + lit("}\n"),
            ),
            Err(e) => Err(e),
        },
        Err(e) => Err(e),
    }
}

/// Whether an argument is a flags field.
fn is_flags_field(arg: &Arg, name: &Vec<u8>, flags: &Vec<Vec<u8>>) -> (r: Result<bool, GenError>)
    requires
        field_name(arg@) == Ok::<Seq<u8>, GenError>(name@),
    ensures
        r == carries_flags(arg@, lines(flags@)),
{
    if contains(flags.as_slice(), name.as_slice()) {
        if let Arg::Cond(c) = arg {
            if c.cond.is_none() {
                if let Term::Nat = c.term {
                    return Ok(true);
                }
            }
        }
        Err(GenError::UnsupportedConstruct)
    } else {
        Ok(false)
    }
}

/// The result of one step of writing: on success the buffer has grown by
/// the text, on failure it is as it was.
pub open spec fn written(
    r: Result<(), GenError>,
    before: Seq<u8>,
    after: Seq<u8>,
    text: Result<Seq<u8>, GenError>,
) -> bool {
    match text {
        Ok(t) => r is Ok && after == before + t,
        Err(e) => r == Err::<(), GenError>(e) && after == before,
    }
}

/// The line that declares the field of an argument.
fn field_line_of(arg: &Arg, generics: &Vec<Vec<u8>>, flags: &Vec<Vec<u8>>, indent: &str) -> (r:
    Result<Vec<u8>, GenError>)
    ensures
        text_of(r) == field_line(arg@, lines(generics@), lines(flags@), lit(indent)),
{
    let name = get_struct_field_name(arg)?;
    if is_flags_field(arg, &name, flags)? {
        return Ok(Vec::new());
    }
    let ty = get_struct_field_type(arg, generics.as_slice())?;
    let mut out = text(indent);
    put(&mut out, "    pub ");
    put_bytes(&mut out, name.as_slice());
    put(&mut out, ": ");
    put_bytes(&mut out, ty.as_slice());
    put(&mut out, ",\n");
    Ok(out)
}

fn struct_def(decl: &CombinatorDecl, indent: &str) -> (r: Result<Vec<u8>, GenError>)
    ensures
        text_of(r) == struct_text(decl@, lit(indent)),
{
    reveal(struct_text);
    let struct_name = decl.identns.rust_name();
    let generics = get_generic_arg(decl.opt_args.as_slice())?;
    let generic_name = get_generic_name(generics.as_slice());
    let conditionals = get_conditional_args(decl.args.as_slice());
    let ghost all = field_lines(decl@.args, lines(generics@), lit(indent));
    let mut fields: Vec<Result<Vec<u8>, GenError>> = Vec::new();
    let mut i: usize = 0;
    while i < decl.args.len()
        invariant
            i <= decl.args@.len(),
            all == field_lines(decl@.args, lines(generics@), lit(indent)),
            lines(conditionals@) == flag_fields(decl@.args),
            results_view(fields@) =~= all.take(i as int),
        decreases decl.args@.len() - i,
    {
        let line = field_line_of(&decl.args[i], &generics, &conditionals, indent);
        proof {
            assert(decl@.args[i as int] == decl.args@[i as int]@);
            assert(results_view(fields@.push(line)) =~= results_view(fields@).push(text_of(line)));
        }
        fields.push(line);
        i += 1;
    }
    assert(all.take(i as int) =~= all);
    let body = gather(&fields)?;
    let id = decl.get_id();
    let mut out = text(indent);
    put(&mut out, "pub struct ");
    put_bytes(&mut out, struct_name.as_slice());
    put_bytes(&mut out, generic_name.as_slice());
    put(&mut out, " {\n");
    put_bytes(&mut out, body.as_slice());
    put(&mut out, indent);
    put(&mut out, "}\n");
    put(&mut out, indent);
    put(&mut out, "impl");
    put_bytes(&mut out, generic_name.as_slice());
    put(&mut out, " crate::Identificable for ");
    put_bytes(&mut out, struct_name.as_slice());
    put_bytes(&mut out, generic_name.as_slice());
    put(&mut out, " { const ID: u32 = ");
    put_decimal(&mut out, id as u64);
    put(&mut out, "; }\n");
    Ok(out)
}

/// Appends the definition of the record of a constructor.
fn write_struct(f: &mut Vec<u8>, decl: &CombinatorDecl, indent: &str) -> (r: Result<(), GenError>)
    ensures
        written(r, old(f)@, final(f)@, struct_text(decl@, lit(indent))),
{
    let t = struct_def(decl, indent)?;
    put_bytes(f, t.as_slice());
    Ok(())
}

/// What a field adds to the flags word of the flags field `flags`.
fn flag_term_of(arg: &Arg, flags: &Vec<u8>) -> (r: Result<Vec<u8>, GenError>)
    ensures
        text_of(r) == flag_term(arg@, flags@),
{
    if let Arg::Cond(a) = arg {
        if let Some(c) = &a.cond {
            let of = escape_builtin_kw(c.ident.as_slice());
            if bytes_eq(of.as_slice(), flags.as_slice()) {
                let index: u32 = match c.index {
                    Some(n) => n,
                    None => 0,
                };
                if index >= 32 {
                    return Err(GenError::UnsupportedConstruct);
                }
                let mut out = text(" | crate::flag_bit(self.");
                let name = escape_builtin_kw(a.ident.as_slice());
                put_bytes(&mut out, name.as_slice());
                put(&mut out, ".is_some(), ");
                put_decimal(&mut out, index as u64);
                put(&mut out, ")");
                return Ok(out);
            }
        }
    }
    Ok(Vec::new())
}

/// The statement that writes a flags word.
fn flags_line_of(args: &Vec<Arg>, flags: &Vec<u8>, indent: &str) -> (r: Result<Vec<u8>, GenError>)
    ensures
        text_of(r) == flags_line(crate::types::args_view(args@), flags@, lit(indent)),
{
    let ghost views = crate::types::args_view(args@);
    let ghost all = Seq::new(views.len(), |i: int| flag_term(views[i], flags@));
    let mut terms: Vec<Result<Vec<u8>, GenError>> = Vec::new();
    let mut i: usize = 0;
    while i < args.len()
        invariant
            i <= args@.len(),
            views == crate::types::args_view(args@),
            all == Seq::new(views.len(), |i: int| flag_term(views[i], flags@)),
            results_view(terms@) =~= all.take(i as int),
        decreases args@.len() - i,
    {
        let term = flag_term_of(&args[i], flags);
        proof {
            assert(views[i as int] == args@[i as int]@);
            assert(results_view(terms@.push(term)) =~= results_view(terms@).push(text_of(term)));
        }
        terms.push(term);
        i += 1;
    }
    assert(all.take(i as int) =~= all);
    let bits = gather(&terms)?;
    let mut out = text(indent);
    put(&mut out, "        (0u32");
    put_bytes(&mut out, bits.as_slice());
    put(&mut out, ").serialize(buf);\n");
    Ok(out)
}

/// The statements that write the field of an argument.
fn ser_line_of(arg: &Arg, args: &Vec<Arg>, flags: &Vec<Vec<u8>>, indent: &str) -> (r: Result<
    Vec<u8>,
    GenError,
>)
    requires
        lines(flags@) == flag_fields(crate::types::args_view(args@)),
    ensures
        text_of(r) == ser_line(arg@, crate::types::args_view(args@), lit(indent)),
{
    let name = get_struct_field_name(arg)?;
    if is_flags_field(arg, &name, flags)? {
        return flags_line_of(args, &name, indent);
    }
    let mut out = text(indent);
    let conditional = match arg {
        Arg::Cond(c) => c.cond.is_some(),
        _ => false,
    };
    if conditional {
        put(&mut out, "        if let Some(ref x) = self.");
        put_bytes(&mut out, name.as_slice());
        put(&mut out, " {\n");
        put(&mut out, indent);
        put(&mut out, "            x.serialize(buf);\n");
        put(&mut out, indent);
        put(&mut out, "        }\n");
    } else {
        put(&mut out, "        self.");
        put_bytes(&mut out, name.as_slice());
        put(&mut out, ".serialize(buf);\n");
    }
    Ok(out)
}

fn struct_ser(decl: &CombinatorDecl, indent: &str) -> (r: Result<Vec<u8>, GenError>)
    ensures
        text_of(r) == struct_ser_text(decl@, lit(indent)),
{
    reveal(struct_ser_text);
    let struct_name = decl.identns.rust_name();
    let generics = get_generic_arg(decl.opt_args.as_slice())?;
    let generic_name = get_generic_name(generics.as_slice());
    let generic_impl = get_generic_impl(generics.as_slice(), "crate::Serializable");
    let conditionals = get_conditional_args(decl.args.as_slice());
    let ghost all = ser_lines(decl@.args, lit(indent));
    let mut body: Vec<Result<Vec<u8>, GenError>> = Vec::new();
    let mut i: usize = 0;
    while i < decl.args.len()
        invariant
            i <= decl.args@.len(),
            all == ser_lines(decl@.args, lit(indent)),
            lines(conditionals@) == flag_fields(decl@.args),
            results_view(body@) =~= all.take(i as int),
        decreases decl.args@.len() - i,
    {
        let line = ser_line_of(&decl.args[i], &decl.args, &conditionals, indent);
        proof {
            assert(decl@.args[i as int] == decl.args@[i as int]@);
            assert(results_view(body@.push(line)) =~= results_view(body@).push(text_of(line)));
        }
        body.push(line);
        i += 1;
    }
    assert(all.take(i as int) =~= all);
    let body = gather(&body)?;
    let mut out = text(indent);
    put(&mut out, "impl");
    put_bytes(&mut out, generic_impl.as_slice());
    put(&mut out, " crate::Serializable for ");
    put_bytes(&mut out, struct_name.as_slice());
    put_bytes(&mut out, generic_name.as_slice());
    put(&mut out, " {\n");
    put(&mut out, indent);
    put(&mut out, "    fn serialize(&self, buf: crate::serialize::Buf) {\n");
    put_bytes(&mut out, body.as_slice());
    put(&mut out, indent);
    put(&mut out, "    }\n");
    put(&mut out, indent);
    put(&mut out, "}\n");
    Ok(out)
}

/// Appends the serialization of the record of a constructor.
fn write_struct_ser(f: &mut Vec<u8>, decl: &CombinatorDecl, indent: &str) -> (r: Result<
    (),
    GenError,
>)
    ensures
        written(r, old(f)@, final(f)@, struct_ser_text(decl@, lit(indent))),
{
    let t = struct_ser(decl, indent)?;
    put_bytes(f, t.as_slice());
    Ok(())
}

// ---------------------------------------------------------------------------
// Reading records
// ---------------------------------------------------------------------------

/// Whether the flags field `flags` stands among the first `n` arguments.
pub open spec fn flags_before(args: Seq<ArgView>, n: int, flags: Seq<u8>) -> bool {
    exists|j: int|
        0 <= j < n && j < args.len() && (#[trigger] args[j] matches ArgView::Cond {
            ident,
            cond: None,
            term: TermView::Nat,
            ..
        } && escaped(ident) == flags)
}

/// The statement that reads the field of the argument at place `i`: the
/// flags word for a flags field; for a field under a condition the value
/// where the flags word, which must have been read before, has its bit;
/// the value for any other.
pub open spec fn des_line(
    i: int,
    args: Seq<ArgView>,
    generics: Seq<Seq<u8>>,
    indent: Seq<u8>,
) -> Result<Seq<u8>, GenError> {
    let arg = args[i];
    match carries_flags(arg, flag_fields(args)) {
        Ok(true) => Ok(
            indent + lit("        let ") + field_name(arg)->Ok_0 + lit(
                " = <u32 as crate::Deserializable>::deserialize(buf)?;\n",
            ),
        ),
        Ok(false) => match arg {
            ArgView::Cond { cond: Some(c), term, .. } => {
                let index = match c.index {
                    Some(n) => n,
                    None => 0,
                };
                if index >= 32 || !flags_before(args, i, escaped(c.ident)) {
                    Err(GenError::UnsupportedConstruct)
                } else {
                    match type_of_term(term, generics) {
                        Ok(ty) => Ok(
                            indent + lit("        let ") + field_name(arg)->Ok_0 + lit(
                                " = if crate::has_flag(",
                            ) + escaped(c.ident) + lit(", ") + decimal(index as nat) + lit(
                                ") { Some(<",
                            ) + ty + lit(
                                " as crate::Deserializable>::deserialize(buf)?) } else { None };\n",
                            ),
                        ),
                        Err(e) => Err(e),
                    }
                }
            },
            _ => match field_type(arg, generics) {
                Ok(ty) => Ok(
                    indent + lit("        let ") + field_name(arg)->Ok_0 + lit(" = <") + ty + lit(
                        " as crate::Deserializable>::deserialize(buf)?;\n",
                    ),
                ),
                Err(e) => Err(e),
            },
        },
        Err(e) => Err(e),
    }
}

/// The statements that read the fields of a record.
pub open spec fn des_lines(args: Seq<ArgView>, generics: Seq<Seq<u8>>, indent: Seq<u8>) -> Seq<
    Result<Seq<u8>, GenError>,
> {
    Seq::new(args.len(), |i: int| des_line(i, args, generics, indent))
}

/// What the field of an argument adds to the list of fields that make up
/// the record: its name and a comma, or nothing for a flags field.
pub open spec fn init_part(arg: ArgView, flags: Seq<Seq<u8>>) -> Result<Seq<u8>, GenError> {
    match carries_flags(arg, flags) {
        Ok(true) => Ok(Seq::empty()),
        Ok(false) => Ok(field_name(arg)->Ok_0 + lit(", ")),
        Err(e) => Err(e),
    }
}

/// What each field adds to the list of fields that make up a record.
pub open spec fn init_parts(args: Seq<ArgView>) -> Seq<Result<Seq<u8>, GenError>> {
    Seq::new(args.len(), |i: int| init_part(args[i], flag_fields(args)))
}

/// The deserialization of the record of a constructor: each field in the
/// order of the declaration, as its serialization writes them.
#[verifier::opaque]
pub open spec fn struct_des_text(d: CombinatorView, indent: Seq<u8>) -> Result<
    Seq<u8>,
    GenError,
> {
    match generics_of(d.opt_args) {
        Ok(generics) => match gathered(des_lines(d.args, generics, indent)) {
            Ok(body) => match gathered(init_parts(d.args)) {
                Ok(fields) => Ok(
                    indent + lit("impl") + generic_bounds(generics, lit("crate::Deserializable"))
                        + lit(" crate::Deserializable for ") + camel(d.identns.name)
                        + generic_list(generics) + lit(" {\n") + indent + lit(
                        "    fn deserialize(buf: &mut crate::deserialize::Cursor) -> Result<Self, crate::CodecError> {\n",
                    ) + body + indent + lit("        Ok(Self { ") + fields + lit("})\n") + indent
                        + lit("    }\n") + indent + lit("}\n"),
                ),
                Err(e) => Err(e),
            },
            Err(e) => Err(e),
        },
        Err(e) => Err(e),
    }
}

/// Whether the flags field `flags` stands among the first `n` arguments.
fn has_flags_before(args: &Vec<Arg>, n: usize, flags: &Vec<u8>) -> (r: bool)
    requires
        n <= args@.len(),
    ensures
        r == flags_before(crate::types::args_view(args@), n as int, flags@),
{
    let ghost views = crate::types::args_view(args@);
    let mut j: usize = 0;
    while j < n
        invariant
            j <= n,
            n <= args@.len(),
            views == crate::types::args_view(args@),
            forall|k: int|
                0 <= k < j ==> !(#[trigger] views[k] matches ArgView::Cond {
                    ident,
                    cond: None,
                    term: TermView::Nat,
                    ..
                } && escaped(ident) == flags@),
        decreases n - j,
    {
        assert(views[j as int] == args@[j as int]@);
        if let Arg::Cond(c) = &args[j] {
            if c.cond.is_none() {
                if let Term::Nat = c.term {
                    let name = escape_builtin_kw(c.ident.as_slice());
                    if bytes_eq(name.as_slice(), flags.as_slice()) {
                        return true;
                    }
                }
            }
        }
        j += 1;
    }
    false
}

/// The statement that reads the field of the argument at place `i`.
fn des_line_of(
    i: usize,
    args: &Vec<Arg>,
    generics: &Vec<Vec<u8>>,
    flags: &Vec<Vec<u8>>,
    indent: &str,
) -> (r: Result<Vec<u8>, GenError>)
    requires
        i < args@.len(),
        lines(flags@) == flag_fields(crate::types::args_view(args@)),
    ensures
        text_of(r) == des_line(
            i as int,
            crate::types::args_view(args@),
            lines(generics@),
            lit(indent),
        ),
{
    let arg = &args[i];
    assert(crate::types::args_view(args@)[i as int] == arg@);
    let name = get_struct_field_name(arg)?;
    let mut out = text(indent);
    put(&mut out, "        let ");
    put_bytes(&mut out, name.as_slice());
    if is_flags_field(arg, &name, flags)? {
        put(&mut out, " = <u32 as crate::Deserializable>::deserialize(buf)?;\n");
        return Ok(out);
    }
    if let Arg::Cond(a) = arg {
        if let Some(c) = &a.cond {
            let index: u32 = match c.index {
                Some(n) => n,
                None => 0,
            };
            let of = escape_builtin_kw(c.ident.as_slice());
            if index >= 32 || !has_flags_before(args, i, &of) {
                return Err(GenError::UnsupportedConstruct);
            }
            let ty = type_from_term(&a.term, generics.as_slice())?;
            put(&mut out, " = if crate::has_flag(");
            put_bytes(&mut out, of.as_slice());
            put(&mut out, ", ");
            put_decimal(&mut out, index as u64);
            put(&mut out, ") { Some(<");
            put_bytes(&mut out, ty.as_slice());
            put(&mut out, " as crate::Deserializable>::deserialize(buf)?) } else { None };\n");
            return Ok(out);
        }
    }
    let ty = get_struct_field_type(arg, generics.as_slice())?;
    put(&mut out, " = <");
    put_bytes(&mut out, ty.as_slice());
    put(&mut out, " as crate::Deserializable>::deserialize(buf)?;\n");
    Ok(out)
}

/// What the field of an argument adds to the list of fields that make up
/// the record.
fn init_part_of(arg: &Arg, flags: &Vec<Vec<u8>>) -> (r: Result<Vec<u8>, GenError>)
    ensures
        text_of(r) == init_part(arg@, lines(flags@)),
{
    let mut name = get_struct_field_name(arg)?;
    if is_flags_field(arg, &name, flags)? {
        return Ok(Vec::new());
    }
    put(&mut name, ", ");
    Ok(name)
}

fn struct_des(decl: &CombinatorDecl, indent: &str) -> (r: Result<Vec<u8>, GenError>)
    ensures
        text_of(r) == struct_des_text(decl@, lit(indent)),
{
    reveal(struct_des_text);
    let struct_name = decl.identns.rust_name();
    let generics = get_generic_arg(decl.opt_args.as_slice())?;
    let generic_name = get_generic_name(generics.as_slice());
    let generic_impl = get_generic_impl(generics.as_slice(), "crate::Deserializable");
    let conditionals = get_conditional_args(decl.args.as_slice());
    let ghost all = des_lines(decl@.args, lines(generics@), lit(indent));
    let ghost inits = init_parts(decl@.args);
    let mut body: Vec<Result<Vec<u8>, GenError>> = Vec::new();
    let mut fields: Vec<Result<Vec<u8>, GenError>> = Vec::new();
    let mut i: usize = 0;
    while i < decl.args.len()
        invariant
            i <= decl.args@.len(),
            all == des_lines(decl@.args, lines(generics@), lit(indent)),
            inits == init_parts(decl@.args),
            lines(conditionals@) == flag_fields(decl@.args),
            results_view(body@) =~= all.take(i as int),
            results_view(fields@) =~= inits.take(i as int),
        decreases decl.args@.len() - i,
    {
        let line = des_line_of(i, &decl.args, &generics, &conditionals, indent);
        let part = init_part_of(&decl.args[i], &conditionals);
        proof {
            assert(decl@.args[i as int] == decl.args@[i as int]@);
            assert(results_view(body@.push(line)) =~= results_view(body@).push(text_of(line)));
            assert(results_view(fields@.push(part)) =~= results_view(fields@).push(text_of(part)));
        }
        body.push(line);
        fields.push(part);
        i += 1;
    }
    assert(all.take(i as int) =~= all);
    assert(inits.take(i as int) =~= inits);
    let body = gather(&body)?;
    let fields = gather(&fields)?;
    let mut out = text(indent);
    put(&mut out, "impl");
    put_bytes(&mut out, generic_impl.as_slice());
    put(&mut out, " crate::Deserializable for ");
    put_bytes(&mut out, struct_name.as_slice());
    put_bytes(&mut out, generic_name.as_slice());
    put(&mut out, " {\n");
    put(&mut out, indent);
    put(
        &mut out,
        "    fn deserialize(buf: &mut crate::deserialize::Cursor) -> Result<Self, crate::CodecError> {\n",
    );
    put_bytes(&mut out, body.as_slice());
    put(&mut out, indent);
    put(&mut out, "        Ok(Self { ");
    put_bytes(&mut out, fields.as_slice());
    put(&mut out, "})\n");
    put(&mut out, indent);
    put(&mut out, "    }\n");
    put(&mut out, indent);
    put(&mut out, "}\n");
    Ok(out)
}

/// Appends the deserialization of the record of a constructor.
fn write_struct_des(f: &mut Vec<u8>, decl: &CombinatorDecl, indent: &str) -> (r: Result<
    (),
    GenError,
>)
    ensures
        written(r, old(f)@, final(f)@, struct_des_text(decl@, lit(indent))),
{
    let t = struct_des(decl, indent)?;
    put_bytes(f, t.as_slice());
    Ok(())
}

// ---------------------------------------------------------------------------
// The module of records
// ---------------------------------------------------------------------------

/// The indentation inside the module of a namespace, or of none.
pub open spec fn indent_of(name: Option<Seq<u8>>) -> Seq<u8> {
    if name is Some {
        lit("        ")
    } else {
        lit("    ")
    }
}

/// The line that opens the module of a namespace; nothing for none.
pub open spec fn module_open(name: Option<Seq<u8>>) -> Seq<u8> {
    match name {
        Some(n) => lit("    pub mod ") + n + lit(" {\n"),
        None => Seq::empty(),
    }
}

/// The line that closes the module of a namespace; nothing for none.
pub open spec fn module_close(name: Option<Seq<u8>>) -> Seq<u8> {
    if name is Some {
        lit("    }\n")
    } else {
        Seq::empty()
    }
}

/// The record of a constructor with its serialization and its
/// deserialization.
#[verifier::opaque]
pub open spec fn record_text(d: CombinatorView, indent: Seq<u8>) -> Result<Seq<u8>, GenError> {
    match struct_text(d, indent) {
        Ok(def) => match struct_ser_text(d, indent) {
            Ok(ser) => match struct_des_text(d, indent) {
                Ok(des) => Ok(def + ser + des),
                Err(e) => Err(e),
            },
            Err(e) => Err(e),
        },
        Err(e) => Err(e),
    }
}

/// The records of one namespace, inside the module of that namespace.
#[verifier::opaque]
pub open spec fn namespace_records(ns: NamespaceView) -> Result<Seq<u8>, GenError> {
    match gathered(
        Seq::new(ns.decls.len(), |i: int| record_text(ns.decls[i], indent_of(ns.name))),
    ) {
        Ok(records) => Ok(module_open(ns.name) + records + module_close(ns.name)),
        Err(e) => Err(e),
    }
}

/// The module `types`: the records of every namespace, in the order of the
/// index.
pub open spec fn structs_text(m: MetadataView) -> Result<Seq<u8>, GenError> {
    match gathered(Seq::new(m.types_ns.len(), |i: int| namespace_records(m.types_ns[i]))) {
        Ok(all) => Ok(lit("pub mod types {\n") + all + lit("}\n")),
        Err(e) => Err(e),
    }
}

fn record(decl: &CombinatorDecl, indent: &str) -> (r: Result<Vec<u8>, GenError>)
    ensures
        text_of(r) == record_text(decl@, lit(indent)),
{
    reveal(record_text);
    let mut out: Vec<u8> = Vec::new();
    write_struct(&mut out, decl, indent)?;
    write_struct_ser(&mut out, decl, indent)?;
    write_struct_des(&mut out, decl, indent)?;
    assert(out@ =~= struct_text(decl@, lit(indent))->Ok_0 + struct_ser_text(
        decl@,
        lit(indent),
    )->Ok_0 + struct_des_text(decl@, lit(indent))->Ok_0);
    Ok(out)
}

/// The records of the declarations of a list, one after the other.
fn records(decls: &Vec<&CombinatorDecl>, indent: &str) -> (r: Result<Vec<u8>, GenError>)
    ensures
        text_of(r) == gathered(
            Seq::new(
                decls@.len(),
                |i: int| record_text(crate::metadata::refs_view(decls@)[i], lit(indent)),
            ),
        ),
{
    let ghost all = Seq::new(
        decls@.len(),
        |i: int| record_text(crate::metadata::refs_view(decls@)[i], lit(indent)),
    );
    let mut parts: Vec<Result<Vec<u8>, GenError>> = Vec::new();
    let mut i: usize = 0;
    while i < decls.len()
        invariant
            i <= decls@.len(),
            all == Seq::new(
                decls@.len(),
                |i: int| record_text(crate::metadata::refs_view(decls@)[i], lit(indent)),
            ),
            results_view(parts@) =~= all.take(i as int),
        decreases decls@.len() - i,
    {
        let part = record(decls[i], indent);
        proof {
            assert(crate::metadata::refs_view(decls@)[i as int] == decls@[i as int]@);
            assert(results_view(parts@.push(part)) =~= results_view(parts@).push(text_of(part)));
        }
        parts.push(part);
        i += 1;
    }
    assert(all.take(i as int) =~= all);
    gather(&parts)
}

fn records_of(ns: &Namespace) -> (r: Result<Vec<u8>, GenError>)
    ensures
        text_of(r) == namespace_records(ns@),
{
    reveal(namespace_records);
    let indent = if ns.name.is_some() {
        "        "
    } else {
        "    "
    };
    assert(Seq::new(
        ns@.decls.len(),
        |i: int| record_text(ns@.decls[i], indent_of(ns@.name)),
    ) =~= Seq::new(
        ns.decls@.len(),
        |i: int| record_text(crate::metadata::refs_view(ns.decls@)[i], lit(indent)),
    ));
    let body = records(&ns.decls, indent)?;
    let mut out: Vec<u8> = Vec::new();
    if let Some(n) = &ns.name {
        put(&mut out, "    pub mod ");
        put_bytes(&mut out, n.as_slice());
        put(&mut out, " {\n");
    }
    put_bytes(&mut out, body.as_slice());
    if ns.name.is_some() {
        put(&mut out, "    }\n");
    }
    assert(out@ =~= module_open(ns@.name) + body@ + module_close(ns@.name));
    Ok(out)
}

/// The records of every namespace, one module after the other.
fn all_records(metadata: &Metadata) -> (r: Result<Vec<u8>, GenError>)
    ensures
        text_of(r) == gathered(
            Seq::new(metadata@.types_ns.len(), |i: int| namespace_records(metadata@.types_ns[i])),
        ),
{
    let ghost all = Seq::new(
        metadata@.types_ns.len(),
        |i: int| namespace_records(metadata@.types_ns[i]),
    );
    let mut parts: Vec<Result<Vec<u8>, GenError>> = Vec::new();
    let mut i: usize = 0;
    while i < metadata.types_ns.len()
        invariant
            i <= metadata.types_ns@.len(),
            all == Seq::new(
                metadata@.types_ns.len(),
                |i: int| namespace_records(metadata@.types_ns[i]),
            ),
            results_view(parts@) =~= all.take(i as int),
        decreases metadata.types_ns@.len() - i,
    {
        let part = records_of(&metadata.types_ns[i]);
        proof {
            assert(metadata@.types_ns[i as int] == metadata.types_ns@[i as int]@);
            assert(results_view(parts@.push(part)) =~= results_view(parts@).push(text_of(part)));
        }
        parts.push(part);
        i += 1;
    }
    assert(all.take(i as int) =~= all);
    gather(&parts)
}

/// Appends the module `types`, which holds the record of every constructor
/// of the index, namespace by namespace.
pub fn write_structs(f: &mut Vec<u8>, metadata: &Metadata) -> (r: Result<(), GenError>)
    ensures
        written(r, old(f)@, final(f)@, structs_text(metadata@)),
{
    let body = all_records(metadata)?;
    put(f, "pub mod types {\n");
    put_bytes(f, body.as_slice());
    put(f, "}\n");
    assert(f@ =~= old(f)@ + (lit("pub mod types {\n") + body@ + lit("}\n")));
    Ok(())
}

} // verus!

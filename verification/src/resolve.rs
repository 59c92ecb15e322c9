//! Whether every name that the fields of a schema use is known: a
//! primitive, a generic parameter of the declaration, or a name that the
//! schema declares.

use vstd::prelude::*;
use crate::equality::same_ident;
use crate::formatter::{builtin, builtin_type};
use crate::structs::{generics_of, get_generic_arg, is_generic};
use crate::text::{contains, lines, to_ascii_uppercase};
use crate::types::{
    args_view, terms_view, Arg, ArgView, CombinatorDecl, CombinatorView, IdentNs, IdentNsView,
    SchemaView, TLSchema, Term, TermView,
};

verus! {

/// Whether the schema declares the name: as a constructor, as the result
/// type of a constructor, or as a primitive or its type.
pub open spec fn declares(s: SchemaView, ident: IdentNsView) -> bool {
    ||| exists|i: int|
        0 <= i < s.constrs.len() && ((#[trigger] s.constrs[i]).identns == ident
            || s.constrs[i].res.identns() == ident)
    ||| exists|i: int|
        0 <= i < s.builtin.len() && ((#[trigger] s.builtin[i]).identns == ident || s.builtin[i].res
            == ident)
}

/// Whether a name is known where the given generic parameters are in
/// scope.
pub open spec fn known(s: SchemaView, generics: Seq<Seq<u8>>, ident: IdentNsView) -> bool {
    builtin(ident.name) is Some || is_generic(ident, generics) || declares(s, ident)
}

/// Whether every entry of a list is true.
pub open spec fn holds_all(bs: Seq<bool>) -> bool {
    forall|i: int| 0 <= i < bs.len() ==> #[trigger] bs[i]
}

/// For each term of a list, whether every name of it is known.
pub open spec fn terms_resolved(s: SchemaView, generics: Seq<Seq<u8>>, ts: Seq<TermView>) -> Seq<
    bool,
>
    decreases ts, 1int,
{
    Seq::new(
        ts.len(),
        |i: int|
            if 0 <= i < ts.len() {
                term_resolved(s, generics, ts[i])
            } else {
                true
            },
    )
}

/// Whether every name of a term is known.
pub open spec fn term_resolved(s: SchemaView, generics: Seq<Seq<u8>>, t: TermView) -> bool
    decreases t, 0int,
{
    match t {
        TermView::IdentNs(ident) => known(s, generics, ident),
        TermView::Ang { identns, term, terms } => known(s, generics, identns) && term_resolved(
            s,
            generics,
            *term,
        ) && holds_all(terms_resolved(s, generics, terms)),
        TermView::Percent(p) => term_resolved(s, generics, *p),
        TermView::Par(ts) => holds_all(terms_resolved(s, generics, ts)),
        TermView::Nat => true,
        TermView::NatConst(_) => true,
    }
}

/// For each field argument of a list, whether every name of it is known.
pub open spec fn args_resolved(s: SchemaView, generics: Seq<Seq<u8>>, args: Seq<ArgView>) -> Seq<
    bool,
>
    decreases args, 1int,
{
    Seq::new(
        args.len(),
        |i: int|
            if 0 <= i < args.len() {
                arg_resolved(s, generics, args[i])
            } else {
                true
            },
    )
}

/// Whether every name of a field argument is known.
pub open spec fn arg_resolved(s: SchemaView, generics: Seq<Seq<u8>>, a: ArgView) -> bool
    decreases a, 0int,
{
    match a {
        ArgView::Par { term, .. } => term_resolved(s, generics, term),
        ArgView::Brack { args, .. } => holds_all(args_resolved(s, generics, args)),
        ArgView::Cond { term, .. } => term_resolved(s, generics, term),
        ArgView::Single { term, .. } => term_resolved(s, generics, term),
    }
}

/// Whether every name that the fields of a declaration use is known. A
/// declaration whose parameters are no generic parameters has no scope in
/// which to ask, and counts as resolved.
pub open spec fn decl_resolved(s: SchemaView, d: CombinatorView) -> bool {
    match generics_of(d.opt_args) {
        Ok(generics) => holds_all(args_resolved(s, generics, d.args)),
        Err(_) => true,
    }
}

/// Whether every name that the fields of the constructors use is known.
pub open spec fn schema_resolved(s: SchemaView) -> bool {
    forall|i: int| 0 <= i < s.constrs.len() ==> decl_resolved(s, #[trigger] s.constrs[i])
}

fn is_declared(schema: &TLSchema, ident: &IdentNs) -> (r: bool)
    ensures
        r == declares(schema@, ident@),
{
    let mut i: usize = 0;
    while i < schema.constrs.len()
        invariant
            i <= schema.constrs@.len(),
            forall|j: int|
                0 <= j < i ==> !((#[trigger] schema@.constrs[j]).identns == ident@
                    || schema@.constrs[j].res.identns() == ident@),
        decreases schema.constrs@.len() - i,
    {
        assert(schema@.constrs[i as int] == schema.constrs@[i as int]@);
        if same_ident(&schema.constrs[i].identns, ident) || same_ident(
            schema.constrs[i].res.identns(),
            ident,
        ) {
            return true;
        }
        i += 1;
    }
    let mut k: usize = 0;
    while k < schema.builtin.len()
        invariant
            k <= schema.builtin@.len(),
            forall|j: int|
                0 <= j < schema@.constrs.len() ==> !((#[trigger] schema@.constrs[j]).identns
                    == ident@ || schema@.constrs[j].res.identns() == ident@),
            forall|j: int|
                0 <= j < k ==> !((#[trigger] schema@.builtin[j]).identns == ident@
                    || schema@.builtin[j].res == ident@),
        decreases schema.builtin@.len() - k,
    {
        assert(schema@.builtin[k as int] == schema.builtin@[k as int]@);
        if same_ident(&schema.builtin[k].identns, ident) || same_ident(
            &schema.builtin[k].res,
            ident,
        ) {
            return true;
        }
        k += 1;
    }
    false
}

fn is_known(schema: &TLSchema, generics: &Vec<Vec<u8>>, ident: &IdentNs) -> (r: bool)
    ensures
        r == known(schema@, lines(generics@), ident@),
{
    if builtin_type(ident.name.as_slice()).is_some() {
        return true;
    }
    if ident.namespace.is_none() {
        let upper = to_ascii_uppercase(ident.name.as_slice());
        if contains(generics.as_slice(), upper.as_slice()) {
            return true;
        }
    }
    is_declared(schema, ident)
}

fn terms_are_resolved(schema: &TLSchema, generics: &Vec<Vec<u8>>, ts: &Vec<Term>) -> (r: bool)
    ensures
        r == holds_all(terms_resolved(schema@, lines(generics@), terms_view(ts@))),
    decreases ts, 1int,
{
    let ghost all = terms_resolved(schema@, lines(generics@), terms_view(ts@));
    let mut i: usize = 0;
    while i < ts.len()
        invariant
            i <= ts@.len(),
            all == terms_resolved(schema@, lines(generics@), terms_view(ts@)),
            forall|j: int| 0 <= j < i ==> #[trigger] all[j],
        decreases ts@.len() - i,
    {
        assert(all[i as int] == term_resolved(schema@, lines(generics@), ts@[i as int]@));
        if !term_is_resolved(schema, generics, &ts[i]) {
            return false;
        }
        i += 1;
    }
    true
}

fn term_is_resolved(schema: &TLSchema, generics: &Vec<Vec<u8>>, t: &Term) -> (r: bool)
    ensures
        r == term_resolved(schema@, lines(generics@), t@),
    decreases t, 0int,
{
    match t {
        Term::IdentNs(ident) => is_known(schema, generics, ident),
        Term::Ang(a) => {
            assert(t@ == a@);
            is_known(schema, generics, &a.identns) && term_is_resolved(schema, generics, &a.term)
                && terms_are_resolved(schema, generics, &a.terms)
        },
        Term::Percent(p) => term_is_resolved(schema, generics, p),
        Term::Par(ts) => terms_are_resolved(schema, generics, ts),
        Term::Nat => true,
        Term::NatConst(_) => true,
    }
}

fn args_are_resolved(schema: &TLSchema, generics: &Vec<Vec<u8>>, args: &Vec<Arg>) -> (r: bool)
    ensures
        r == holds_all(args_resolved(schema@, lines(generics@), args_view(args@))),
    decreases args, 1int,
{
    let ghost all = args_resolved(schema@, lines(generics@), args_view(args@));
    let mut i: usize = 0;
    while i < args.len()
        invariant
            i <= args@.len(),
            all == args_resolved(schema@, lines(generics@), args_view(args@)),
            forall|j: int| 0 <= j < i ==> #[trigger] all[j],
        decreases args@.len() - i,
    {
        assert(all[i as int] == arg_resolved(schema@, lines(generics@), args@[i as int]@));
        if !arg_is_resolved(schema, generics, &args[i]) {
            return false;
        }
        i += 1;
    }
    true
}

fn arg_is_resolved(schema: &TLSchema, generics: &Vec<Vec<u8>>, a: &Arg) -> (r: bool)
    ensures
        r == arg_resolved(schema@, lines(generics@), a@),
    decreases a, 0int,
{
    match a {
        Arg::Par(p) => term_is_resolved(schema, generics, &p.term),
        Arg::Brack(b) => args_are_resolved(schema, generics, &b.args),
        Arg::Cond(c) => term_is_resolved(schema, generics, &c.term),
        Arg::Single(s) => term_is_resolved(schema, generics, &s.term),
    }
}

fn decl_is_resolved(schema: &TLSchema, d: &CombinatorDecl) -> (r: bool)
    ensures
        r == decl_resolved(schema@, d@),
{
    match get_generic_arg(d.opt_args.as_slice()) {
        Ok(generics) => args_are_resolved(schema, &generics, &d.args),
        Err(_) => true,
    }
}

/// Whether every name that the fields of the constructors use is known.
pub fn is_resolved(schema: &TLSchema) -> (r: bool)
    ensures
        r == schema_resolved(schema@),
{
    let mut i: usize = 0;
    while i < schema.constrs.len()
        invariant
            i <= schema.constrs@.len(),
            forall|j: int| 0 <= j < i ==> decl_resolved(schema@, #[trigger] schema@.constrs[j]),
        decreases schema.constrs@.len() - i,
    {
        assert(schema@.constrs[i as int] == schema.constrs@[i as int]@);
        if !decl_is_resolved(schema, &schema.constrs[i]) {
            return false;
        }
        i += 1;
    }
    true
}

} // verus!

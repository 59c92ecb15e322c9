//! Equality of schema trees, decided node by node.

use vstd::prelude::*;
use crate::text::bytes_eq;
use crate::types::{
    args_view, names_view, opt_args_view, opt_bytes, terms_view, Arg, CombinatorDecl,
    ConditionalDef, IdentNs, OptArg, ResType, Term,
};

verus! {

/// Whether two optional names are equal.
pub fn same_opt_bytes(a: &Option<Vec<u8>>, b: &Option<Vec<u8>>) -> (r: bool)
    ensures
        r == (opt_bytes(*a) == opt_bytes(*b)),
{
    match (a, b) {
        (Some(x), Some(y)) => bytes_eq(x.as_slice(), y.as_slice()),
        (None, None) => true,
        _ => false,
    }
}

/// Whether two lists of names are equal.
pub fn same_names(a: &Vec<Vec<u8>>, b: &Vec<Vec<u8>>) -> (r: bool)
    ensures
        r == (names_view(a@) == names_view(b@)),
{
    if a.len() != b.len() {
        assert(names_view(a@).len() != names_view(b@).len());
        return false;
    }
    let mut i: usize = 0;
    while i < a.len()
        invariant
            i <= a@.len(),
            a@.len() == b@.len(),
            forall|j: int| 0 <= j < i ==> a@[j]@ == b@[j]@,
        decreases a@.len() - i,
    {
        if !bytes_eq(a[i].as_slice(), b[i].as_slice()) {
            assert(names_view(a@)[i as int] != names_view(b@)[i as int]);
            return false;
        }
        i += 1;
    }
    assert(names_view(a@) =~= names_view(b@));
    true
}

/// Whether two names are equal.
pub fn same_ident(a: &IdentNs, b: &IdentNs) -> (r: bool)
    ensures
        r == (a@ == b@),
{
    same_opt_bytes(&a.namespace, &b.namespace) && bytes_eq(a.name.as_slice(), b.name.as_slice())
}

/// Whether two terms are equal.
pub fn same_term(a: &Term, b: &Term) -> (r: bool)
    ensures
        r == (a@ == b@),
    decreases a, 0int,
{
    match (a, b) {
        (Term::Par(x), Term::Par(y)) => same_terms(x, y),
        (Term::IdentNs(x), Term::IdentNs(y)) => same_ident(x, y),
        (Term::Nat, Term::Nat) => true,
        (Term::NatConst(x), Term::NatConst(y)) => *x == *y,
        (Term::Percent(x), Term::Percent(y)) => same_term(x, y),
        (Term::Ang(x), Term::Ang(y)) => {
            assert(a@ == x@ && b@ == y@);
            same_ident(&x.identns, &y.identns) && same_term(&x.term, &y.term) && same_terms(
                &x.terms,
                &y.terms,
            )
        },
        _ => false,
    }
}

/// Whether two lists of terms are equal.
pub fn same_terms(a: &Vec<Term>, b: &Vec<Term>) -> (r: bool)
    ensures
        r == (terms_view(a@) == terms_view(b@)),
    decreases a, 1int,
{
    if a.len() != b.len() {
        assert(terms_view(a@).len() != terms_view(b@).len());
        return false;
    }
    let mut i: usize = 0;
    while i < a.len()
        invariant
            i <= a@.len(),
            a@.len() == b@.len(),
            forall|j: int| 0 <= j < i ==> a@[j]@ == b@[j]@,
        decreases a@.len() - i,
    {
        if !same_term(&a[i], &b[i]) {
            assert(terms_view(a@)[i as int] == a@[i as int]@);
            assert(terms_view(b@)[i as int] == b@[i as int]@);
            return false;
        }
        i += 1;
    }
    assert(terms_view(a@) =~= terms_view(b@));
    true
}

/// Whether two optional conditions are equal.
pub fn same_cond(a: &Option<ConditionalDef>, b: &Option<ConditionalDef>) -> (r: bool)
    ensures
        r == (match (*a, *b) {
            (Some(x), Some(y)) => x@ == y@,
            (None, None) => true,
            _ => false,
        }),
{
    match (a, b) {
        (Some(x), Some(y)) => bytes_eq(x.ident.as_slice(), y.ident.as_slice()) && x.index
            == y.index,
        (None, None) => true,
        _ => false,
    }
}

/// Whether two field arguments are equal.
pub fn same_arg(a: &Arg, b: &Arg) -> (r: bool)
    ensures
        r == (a@ == b@),
    decreases a, 0int,
{
    match (a, b) {
        (Arg::Par(x), Arg::Par(y)) => bytes_eq(x.ident.as_slice(), y.ident.as_slice())
            && same_names(&x.idents, &y.idents) && x.excl == y.excl && same_term(
            &x.term,
            &y.term,
        ),
        (Arg::Brack(x), Arg::Brack(y)) => same_opt_bytes(&x.ident, &y.ident) && x.mult == y.mult
            && same_args(&x.args, &y.args),
        (Arg::Cond(x), Arg::Cond(y)) => bytes_eq(x.ident.as_slice(), y.ident.as_slice())
            && same_cond(&x.cond, &y.cond) && x.excl == y.excl && same_term(&x.term, &y.term),
        (Arg::Single(x), Arg::Single(y)) => x.excl == y.excl && same_term(&x.term, &y.term),
        _ => false,
    }
}

/// Whether two lists of field arguments are equal.
pub fn same_args(a: &Vec<Arg>, b: &Vec<Arg>) -> (r: bool)
    ensures
        r == (args_view(a@) == args_view(b@)),
    decreases a, 1int,
{
    if a.len() != b.len() {
        assert(args_view(a@).len() != args_view(b@).len());
        return false;
    }
    let mut i: usize = 0;
    while i < a.len()
        invariant
            i <= a@.len(),
            a@.len() == b@.len(),
            forall|j: int| 0 <= j < i ==> a@[j]@ == b@[j]@,
        decreases a@.len() - i,
    {
        if !same_arg(&a[i], &b[i]) {
            assert(args_view(a@)[i as int] == a@[i as int]@);
            assert(args_view(b@)[i as int] == b@[i as int]@);
            return false;
        }
        i += 1;
    }
    assert(args_view(a@) =~= args_view(b@));
    true
}

/// Whether two parameters are equal.
pub fn same_opt_arg(a: &OptArg, b: &OptArg) -> (r: bool)
    ensures
        r == (a@ == b@),
{
    bytes_eq(a.ident.as_slice(), b.ident.as_slice()) && same_names(&a.idents, &b.idents) && a.excl
        == b.excl && same_terms(&a.terms, &b.terms)
}

/// Whether two lists of parameters are equal.
pub fn same_opt_args(a: &Vec<OptArg>, b: &Vec<OptArg>) -> (r: bool)
    ensures
        r == (opt_args_view(a@) == opt_args_view(b@)),
{
    if a.len() != b.len() {
        assert(opt_args_view(a@).len() != opt_args_view(b@).len());
        return false;
    }
    let mut i: usize = 0;
    while i < a.len()
        invariant
            i <= a@.len(),
            a@.len() == b@.len(),
            forall|j: int| 0 <= j < i ==> a@[j]@ == b@[j]@,
        decreases a@.len() - i,
    {
        if !same_opt_arg(&a[i], &b[i]) {
            assert(opt_args_view(a@)[i as int] == a@[i as int]@);
            assert(opt_args_view(b@)[i as int] == b@[i as int]@);
            return false;
        }
        i += 1;
    }
    assert(opt_args_view(a@) =~= opt_args_view(b@));
    true
}

/// Whether two result types are equal.
pub fn same_res(a: &ResType, b: &ResType) -> (r: bool)
    ensures
        r == (a@ == b@),
{
    match (a, b) {
        (ResType::Normal(x), ResType::Normal(y)) => same_ident(&x.identns, &y.identns)
            && same_terms(&x.terms, &y.terms),
        (ResType::Ang(x), ResType::Ang(y)) => same_ident(&x.identns, &y.identns) && same_term(
            &x.term,
            &y.term,
        ) && same_terms(&x.terms, &y.terms),
        _ => false,
    }
}

/// Whether two declarations are equal.
pub fn same_decl(a: &CombinatorDecl, b: &CombinatorDecl) -> (r: bool)
    ensures
        r == (a@ == b@),
{
    same_ident(&a.identns, &b.identns) && a.id == b.id && same_opt_args(&a.opt_args, &b.opt_args)
        && same_args(&a.args, &b.args) && same_res(&a.res, &b.res)
}

} // verus!

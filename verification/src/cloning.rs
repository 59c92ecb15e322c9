//! Copies of schema trees. A copy has the view of what it was made from.

use vstd::prelude::*;
use crate::text::to_vec;
use crate::types::{
    args_view, builtins_view, decls_view, names_view, opt_args_view, opt_bytes, terms_view, Arg,
    ArgBrack, ArgCond, ArgPar, ArgSingle, BuiltinDecl, CombinatorDecl, ConditionalDef,
    Declaration, IdentNs, OptArg, ResType, ResTypeAng, ResTypeNormal, TLSchema, Term, TermAng,
};

verus! {

fn clone_opt_bytes(o: &Option<Vec<u8>>) -> (r: Option<Vec<u8>>)
    ensures
        opt_bytes(r) == opt_bytes(*o),
{
    match o {
        Some(n) => Some(to_vec(n.as_slice())),
        None => None,
    }
}

fn clone_names(names: &Vec<Vec<u8>>) -> (r: Vec<Vec<u8>>)
    ensures
        names_view(r@) == names_view(names@),
{
    let mut out: Vec<Vec<u8>> = Vec::new();
    let mut i: usize = 0;
    while i < names.len()
        invariant
            i <= names@.len(),
            out@.len() == i,
            forall|j: int| 0 <= j < i ==> out@[j]@ == names@[j]@,
        decreases names@.len() - i,
    {
        out.push(to_vec(names[i].as_slice()));
        i += 1;
    }
    assert(names_view(out@) =~= names_view(names@));
    out
}

fn clone_terms(ts: &Vec<Term>) -> (r: Vec<Term>)
    ensures
        terms_view(r@) == terms_view(ts@),
    decreases ts,
{
    let mut out: Vec<Term> = Vec::new();
    let mut i: usize = 0;
    while i < ts.len()
        invariant
            i <= ts@.len(),
            out@.len() == i,
            forall|j: int| 0 <= j < i ==> out@[j]@ == ts@[j]@,
        decreases ts@.len() - i,
    {
        out.push(ts[i].clone());
        i += 1;
    }
    assert(terms_view(out@) =~= terms_view(ts@));
    out
}

fn clone_args(args: &Vec<Arg>) -> (r: Vec<Arg>)
    ensures
        args_view(r@) == args_view(args@),
    decreases args,
{
    let mut out: Vec<Arg> = Vec::new();
    let mut i: usize = 0;
    while i < args.len()
        invariant
            i <= args@.len(),
            out@.len() == i,
            forall|j: int| 0 <= j < i ==> out@[j]@ == args@[j]@,
        decreases args@.len() - i,
    {
        out.push(args[i].clone());
        i += 1;
    }
    assert(args_view(out@) =~= args_view(args@));
    out
}

fn clone_opt_args(args: &Vec<OptArg>) -> (r: Vec<OptArg>)
    ensures
        opt_args_view(r@) == opt_args_view(args@),
{
    let mut out: Vec<OptArg> = Vec::new();
    let mut i: usize = 0;
    while i < args.len()
        invariant
            i <= args@.len(),
            out@.len() == i,
            forall|j: int| 0 <= j < i ==> out@[j]@ == args@[j]@,
        decreases args@.len() - i,
    {
        out.push(args[i].clone());
        i += 1;
    }
    assert(opt_args_view(out@) =~= opt_args_view(args@));
    out
}

fn clone_decls(decls: &Vec<CombinatorDecl>) -> (r: Vec<CombinatorDecl>)
    ensures
        decls_view(r@) == decls_view(decls@),
{
    let mut out: Vec<CombinatorDecl> = Vec::new();
    let mut i: usize = 0;
    while i < decls.len()
        invariant
            i <= decls@.len(),
            out@.len() == i,
            forall|j: int| 0 <= j < i ==> out@[j]@ == decls@[j]@,
        decreases decls@.len() - i,
    {
        out.push(decls[i].clone());
        i += 1;
    }
    assert(decls_view(out@) =~= decls_view(decls@));
    out
}

fn clone_builtins(decls: &Vec<BuiltinDecl>) -> (r: Vec<BuiltinDecl>)
    ensures
        builtins_view(r@) == builtins_view(decls@),
{
    let mut out: Vec<BuiltinDecl> = Vec::new();
    let mut i: usize = 0;
    while i < decls.len()
        invariant
            i <= decls@.len(),
            out@.len() == i,
            forall|j: int| 0 <= j < i ==> out@[j]@ == decls@[j]@,
        decreases decls@.len() - i,
    {
        out.push(decls[i].clone());
        i += 1;
    }
    assert(builtins_view(out@) =~= builtins_view(decls@));
    out
}

impl Clone for IdentNs {
    fn clone(&self) -> (r: Self)
        ensures
            r@ == self@,
    {
        IdentNs { namespace: clone_opt_bytes(&self.namespace), name: to_vec(self.name.as_slice()) }
    }
}

impl Clone for Term {
    fn clone(&self) -> (r: Self)
        ensures
            r@ == self@,
        decreases self,
    {
        match self {
            Term::Par(ts) => Term::Par(clone_terms(ts)),
            Term::IdentNs(i) => Term::IdentNs(i.clone()),
            Term::Nat => Term::Nat,
            Term::NatConst(n) => Term::NatConst(*n),
            Term::Percent(p) => Term::Percent(Box::new((**p).clone())),
            Term::Ang(a) => Term::Ang(
                TermAng {
                    identns: a.identns.clone(),
                    term: Box::new((*a.term).clone()),
                    terms: clone_terms(&a.terms),
                },
            ),
        }
    }
}

impl Clone for TermAng {
    fn clone(&self) -> (r: Self)
        ensures
            r@ == self@,
    {
        TermAng {
            identns: self.identns.clone(),
            term: Box::new((*self.term).clone()),
            terms: clone_terms(&self.terms),
        }
    }
}

impl Clone for ConditionalDef {
    fn clone(&self) -> (r: Self)
        ensures
            r@ == self@,
    {
        ConditionalDef { ident: to_vec(self.ident.as_slice()), index: self.index }
    }
}

impl Clone for Arg {
    fn clone(&self) -> (r: Self)
        ensures
            r@ == self@,
        decreases self,
    {
        match self {
            Arg::Par(p) => Arg::Par(p.clone()),
            Arg::Brack(b) => Arg::Brack(
                ArgBrack {
                    ident: clone_opt_bytes(&b.ident),
                    mult: b.mult,
                    args: clone_args(&b.args),
                },
            ),
            Arg::Cond(c) => Arg::Cond(c.clone()),
            Arg::Single(s) => Arg::Single(s.clone()),
        }
    }
}

impl Clone for ArgSingle {
    fn clone(&self) -> (r: Self)
        ensures
            r@ == self@,
    {
        ArgSingle { excl: self.excl, term: self.term.clone() }
    }
}

impl Clone for ArgPar {
    fn clone(&self) -> (r: Self)
        ensures
            r@ == self@,
    {
        ArgPar {
            ident: to_vec(self.ident.as_slice()),
            idents: clone_names(&self.idents),
            excl: self.excl,
            term: self.term.clone(),
        }
    }
}

impl Clone for ArgBrack {
    fn clone(&self) -> (r: Self)
        ensures
            r@ == self@,
    {
        ArgBrack {
            ident: clone_opt_bytes(&self.ident),
            mult: self.mult,
            args: clone_args(&self.args),
        }
    }
}

impl Clone for ArgCond {
    fn clone(&self) -> (r: Self)
        ensures
            r@ == self@,
    {
        ArgCond {
            ident: to_vec(self.ident.as_slice()),
            cond: match &self.cond {
                Some(c) => Some(c.clone()),
                None => None,
            },
            excl: self.excl,
            term: self.term.clone(),
        }
    }
}

impl Clone for OptArg {
    fn clone(&self) -> (r: Self)
        ensures
            r@ == self@,
    {
        OptArg {
            ident: to_vec(self.ident.as_slice()),
            idents: clone_names(&self.idents),
            excl: self.excl,
            terms: clone_terms(&self.terms),
        }
    }
}

impl Clone for ResTypeNormal {
    fn clone(&self) -> (r: Self)
        ensures
            r@ == self@,
    {
        ResTypeNormal { identns: self.identns.clone(), terms: clone_terms(&self.terms) }
    }
}

impl Clone for ResTypeAng {
    fn clone(&self) -> (r: Self)
        ensures
            r@ == self@,
    {
        ResTypeAng {
            identns: self.identns.clone(),
            term: self.term.clone(),
            terms: clone_terms(&self.terms),
        }
    }
}

impl Clone for ResType {
    fn clone(&self) -> (r: Self)
        ensures
            r@ == self@,
    {
        match self {
            ResType::Normal(n) => ResType::Normal(n.clone()),
            ResType::Ang(a) => ResType::Ang(a.clone()),
        }
    }
}

impl Clone for CombinatorDecl {
    fn clone(&self) -> (r: Self)
        ensures
            r@ == self@,
    {
        CombinatorDecl {
            identns: self.identns.clone(),
            id: self.id,
            opt_args: clone_opt_args(&self.opt_args),
            args: clone_args(&self.args),
            res: self.res.clone(),
        }
    }
}

impl Clone for BuiltinDecl {
    fn clone(&self) -> (r: Self)
        ensures
            r@ == self@,
    {
        BuiltinDecl { identns: self.identns.clone(), id: self.id, res: self.res.clone() }
    }
}

impl Clone for Declaration {
    fn clone(&self) -> (r: Self)
        ensures
            r@ == self@,
    {
        match self {
            Declaration::Fun(d) => Declaration::Fun(d.clone()),
            Declaration::Constr(d) => Declaration::Constr(d.clone()),
            Declaration::Builtin(d) => Declaration::Builtin(d.clone()),
        }
    }
}

impl Clone for TLSchema {
    fn clone(&self) -> (r: Self)
        ensures
            r@ == self@,
    {
        TLSchema {
            funcs: clone_decls(&self.funcs),
            constrs: clone_decls(&self.constrs),
            builtin: clone_builtins(&self.builtin),
        }
    }
}

} // verus!

//! The schema tree: what a parsed TL document holds, and a mathematical view
//! of every node, over which the contracts of the whole crate are stated.
//!
//! Text is kept as bytes. Each executable type owns its bytes in `Vec<u8>`;
//! its view holds the same bytes as `Seq<u8>`.

use vstd::prelude::*;
use crate::identity::{canonical_text, crc32_of, derived_id};

verus! {

/// A namespace-qualified name, `ns.name` or `name`.
#[derive(Debug, PartialEq, Eq, Default)]
pub struct IdentNs {
    pub namespace: Option<Vec<u8>>,
    pub name: Vec<u8>,
}

/// A type expression.
#[derive(Debug, PartialEq, Eq, Default)]
pub enum Term {
    /// A parenthesised group of terms.
    Par(Vec<Term>),
    /// A reference to a named type or variable.
    IdentNs(IdentNs),
    /// The marker `#`.
    #[default]
    Nat,
    /// A number literal.
    NatConst(u32),
    /// `%` in front of a term.
    Percent(Box<Term>),
    /// A generic application, `name<term, ...>`.
    Ang(TermAng),
}

/// A generic application: the applied name, its first argument and the rest.
#[derive(Debug, PartialEq, Eq, Default)]
pub struct TermAng {
    pub identns: IdentNs,
    pub term: Box<Term>,
    pub terms: Vec<Term>,
}

/// The condition of an optional field: the flags field and the bit in it.
#[derive(Debug, PartialEq, Eq, Default)]
pub struct ConditionalDef {
    pub ident: Vec<u8>,
    pub index: Option<u32>,
}

/// A field argument of a declaration.
#[derive(Debug, PartialEq, Eq)]
pub enum Arg {
    Par(ArgPar),
    Brack(ArgBrack),
    Cond(ArgCond),
    Single(ArgSingle),
}

/// An unnamed field, given by its term alone.
#[derive(Debug, PartialEq, Eq, Default)]
pub struct ArgSingle {
    pub excl: bool,
    pub term: Term,
}

/// A parenthesised group of names that share one type.
#[derive(Debug, PartialEq, Eq, Default)]
pub struct ArgPar {
    pub ident: Vec<u8>,
    pub idents: Vec<Vec<u8>>,
    pub excl: bool,
    pub term: Term,
}

/// A repeated block. With a multiplicity it is a fixed array, without one a
/// vector.
#[derive(Debug, PartialEq, Eq, Default)]
pub struct ArgBrack {
    pub ident: Option<Vec<u8>>,
    pub mult: Option<i32>,
    pub args: Vec<Arg>,
}

/// A named field, present always or under a condition.
#[derive(Debug, PartialEq, Eq, Default)]
pub struct ArgCond {
    pub ident: Vec<u8>,
    pub cond: Option<ConditionalDef>,
    pub excl: bool,
    pub term: Term,
}

/// A generic or optional parameter, `{name : Type}`.
#[derive(Debug, PartialEq, Eq, Default)]
pub struct OptArg {
    pub ident: Vec<u8>,
    pub idents: Vec<Vec<u8>>,
    pub excl: bool,
    pub terms: Vec<Term>,
}

/// The declared result of a combinator.
#[derive(Debug, PartialEq, Eq)]
pub enum ResType {
    Normal(ResTypeNormal),
    Ang(ResTypeAng),
}

/// A result type followed by plain terms, `Name a b`.
#[derive(Debug, PartialEq, Eq, Default)]
pub struct ResTypeNormal {
    pub identns: IdentNs,
    pub terms: Vec<Term>,
}

/// A result type in angle brackets, `Name<a, b>`.
#[derive(Debug, PartialEq, Eq, Default)]
pub struct ResTypeAng {
    pub identns: IdentNs,
    pub term: Term,
    pub terms: Vec<Term>,
}

/// A constructor or a function declaration.
#[derive(Debug, PartialEq, Eq)]
pub struct CombinatorDecl {
    pub identns: IdentNs,
    pub id: Option<u32>,
    pub opt_args: Vec<OptArg>,
    pub args: Vec<Arg>,
    pub res: ResType,
}

/// The declaration of a primitive, `name ? = Name;`.
#[derive(Debug, PartialEq, Eq, Default)]
pub struct BuiltinDecl {
    pub identns: IdentNs,
    pub id: Option<u32>,
    pub res: IdentNs,
}

/// One declaration of a document, tagged by the section it stands in.
#[derive(Debug, PartialEq, Eq)]
pub enum Declaration {
    Fun(CombinatorDecl),
    Constr(CombinatorDecl),
    Builtin(BuiltinDecl),
}

/// The section of a document that a separator line opens.
#[derive(Debug, Clone, Copy, PartialEq, Eq, Default)]
pub enum Section {
    #[default]
    Types,
    Function,
}

/// A parsed document: its functions, its constructors and its builtins, each
/// in the order of the text.
#[derive(Debug, PartialEq, Eq, Default)]
pub struct TLSchema {
    pub funcs: Vec<CombinatorDecl>,
    pub constrs: Vec<CombinatorDecl>,
    pub builtin: Vec<BuiltinDecl>,
}

// ---------------------------------------------------------------------------
// Views
// ---------------------------------------------------------------------------

/// The view of a name.
pub struct IdentNsView {
    pub namespace: Option<Seq<u8>>,
    pub name: Seq<u8>,
}

/// The view of a term.
pub enum TermView {
    Par(Seq<TermView>),
    IdentNs(IdentNsView),
    Nat,
    NatConst(u32),
    Percent(Box<TermView>),
    Ang { identns: IdentNsView, term: Box<TermView>, terms: Seq<TermView> },
}

/// The view of a condition.
pub struct CondView {
    pub ident: Seq<u8>,
    pub index: Option<u32>,
}

/// The view of a field argument, of whichever form.
pub enum ArgView {
    Par { ident: Seq<u8>, idents: Seq<Seq<u8>>, excl: bool, term: TermView },
    Brack { ident: Option<Seq<u8>>, mult: Option<i32>, args: Seq<ArgView> },
    Cond { ident: Seq<u8>, cond: Option<CondView>, excl: bool, term: TermView },
    Single { excl: bool, term: TermView },
}

/// The view of a parameter.
pub struct OptArgView {
    pub ident: Seq<u8>,
    pub idents: Seq<Seq<u8>>,
    pub excl: bool,
    pub terms: Seq<TermView>,
}

/// The view of a result type.
pub enum ResTypeView {
    Normal { identns: IdentNsView, terms: Seq<TermView> },
    Ang { identns: IdentNsView, term: TermView, terms: Seq<TermView> },
}

/// The view of a constructor or function declaration.
pub struct CombinatorView {
    pub identns: IdentNsView,
    pub id: Option<u32>,
    pub opt_args: Seq<OptArgView>,
    pub args: Seq<ArgView>,
    pub res: ResTypeView,
}

/// The view of the declaration of a primitive.
pub struct BuiltinView {
    pub identns: IdentNsView,
    pub id: Option<u32>,
    pub res: IdentNsView,
}

/// The view of a declaration with its section.
pub enum DeclarationView {
    Fun(CombinatorView),
    Constr(CombinatorView),
    Builtin(BuiltinView),
}

/// The view of a schema.
pub struct SchemaView {
    pub funcs: Seq<CombinatorView>,
    pub constrs: Seq<CombinatorView>,
    pub builtin: Seq<BuiltinView>,
}

/// The bytes of an optional name.
pub open spec fn opt_bytes(o: Option<Vec<u8>>) -> Option<Seq<u8>> {
    match o {
        Some(n) => Some(n@),
        None => None,
    }
}

/// The bytes of each name of a list.
pub open spec fn names_view(s: Seq<Vec<u8>>) -> Seq<Seq<u8>> {
    Seq::new(s.len(), |i: int| s[i]@)
}

/// The view of each term of a list.
pub open spec fn terms_view(ts: Seq<Term>) -> Seq<TermView>
    decreases ts, 1int,
{
    Seq::new(
        ts.len(),
        |i: int|
            if 0 <= i < ts.len() {
                term_view(ts[i])
            } else {
                TermView::Nat
            },
    )
}

/// The view of a term.
pub open spec fn term_view(t: Term) -> TermView
    decreases t, 0int,
{
    match t {
        Term::Par(ts) => TermView::Par(terms_view(ts@)),
        Term::IdentNs(i) => TermView::IdentNs(i@),
        Term::Nat => TermView::Nat,
        Term::NatConst(n) => TermView::NatConst(n),
        Term::Percent(b) => TermView::Percent(Box::new(term_view(*b))),
        Term::Ang(a) => TermView::Ang {
            identns: a.identns@,
            term: Box::new(term_view(*a.term)),
            terms: terms_view(a.terms@),
        },
    }
}

/// The view of each field argument of a list.
pub open spec fn args_view(s: Seq<Arg>) -> Seq<ArgView>
    decreases s, 1int,
{
    Seq::new(
        s.len(),
        |i: int|
            if 0 <= i < s.len() {
                arg_view(s[i])
            } else {
                ArgView::Single { excl: false, term: TermView::Nat }
            },
    )
}

/// The view of a field argument.
pub open spec fn arg_view(a: Arg) -> ArgView
    decreases a, 0int,
{
    match a {
        Arg::Par(p) => ArgView::Par {
            ident: p.ident@,
            idents: names_view(p.idents@),
            excl: p.excl,
            term: p.term@,
        },
        Arg::Brack(b) => ArgView::Brack {
            ident: opt_bytes(b.ident),
            mult: b.mult,
            args: args_view(b.args@),
        },
        Arg::Cond(c) => ArgView::Cond {
            ident: c.ident@,
            cond: match c.cond {
                Some(d) => Some(d@),
                None => None,
            },
            excl: c.excl,
            term: c.term@,
        },
        Arg::Single(s) => ArgView::Single { excl: s.excl, term: s.term@ },
    }
}

/// The view of each parameter of a list.
pub open spec fn opt_args_view(s: Seq<OptArg>) -> Seq<OptArgView> {
    Seq::new(s.len(), |i: int| s[i]@)
}

/// The view of each declaration of a list.
pub open spec fn decls_view(s: Seq<CombinatorDecl>) -> Seq<CombinatorView> {
    Seq::new(s.len(), |i: int| s[i]@)
}

/// The view of each declaration of a primitive of a list.
pub open spec fn builtins_view(s: Seq<BuiltinDecl>) -> Seq<BuiltinView> {
    Seq::new(s.len(), |i: int| s[i]@)
}

/// The view of each declaration of a document.
pub open spec fn declarations_view(s: Seq<Declaration>) -> Seq<DeclarationView> {
    Seq::new(s.len(), |i: int| s[i]@)
}

impl View for IdentNs {
    type V = IdentNsView;

    open spec fn view(&self) -> IdentNsView {
        IdentNsView { namespace: opt_bytes(self.namespace), name: self.name@ }
    }
}

impl View for Term {
    type V = TermView;

    open spec fn view(&self) -> TermView {
        term_view(*self)
    }
}

impl View for TermAng {
    type V = TermView;

    open spec fn view(&self) -> TermView {
        TermView::Ang {
            identns: self.identns@,
            term: Box::new(term_view(*self.term)),
            terms: terms_view(self.terms@),
        }
    }
}

impl View for ConditionalDef {
    type V = CondView;

    open spec fn view(&self) -> CondView {
        CondView { ident: self.ident@, index: self.index }
    }
}

impl View for Arg {
    type V = ArgView;

    open spec fn view(&self) -> ArgView {
        arg_view(*self)
    }
}

impl View for ArgSingle {
    type V = ArgView;

    open spec fn view(&self) -> ArgView {
        ArgView::Single { excl: self.excl, term: self.term@ }
    }
}

impl View for ArgPar {
    type V = ArgView;

    open spec fn view(&self) -> ArgView {
        ArgView::Par {
            ident: self.ident@,
            idents: names_view(self.idents@),
            excl: self.excl,
            term: self.term@,
        }
    }
}

impl View for ArgBrack {
    type V = ArgView;

    open spec fn view(&self) -> ArgView {
        ArgView::Brack {
            ident: opt_bytes(self.ident),
            mult: self.mult,
            args: args_view(self.args@),
        }
    }
}

impl View for ArgCond {
    type V = ArgView;

    open spec fn view(&self) -> ArgView {
        ArgView::Cond {
            ident: self.ident@,
            cond: match self.cond {
                Some(d) => Some(d@),
                None => None,
            },
            excl: self.excl,
            term: self.term@,
        }
    }
}

impl View for OptArg {
    type V = OptArgView;

    open spec fn view(&self) -> OptArgView {
        OptArgView {
            ident: self.ident@,
            idents: names_view(self.idents@),
            excl: self.excl,
            terms: terms_view(self.terms@),
        }
    }
}

impl View for ResTypeNormal {
    type V = ResTypeView;

    open spec fn view(&self) -> ResTypeView {
        ResTypeView::Normal { identns: self.identns@, terms: terms_view(self.terms@) }
    }
}

impl View for ResTypeAng {
    type V = ResTypeView;

    open spec fn view(&self) -> ResTypeView {
        ResTypeView::Ang {
            identns: self.identns@,
            term: self.term@,
            terms: terms_view(self.terms@),
        }
    }
}

impl View for ResType {
    type V = ResTypeView;

    open spec fn view(&self) -> ResTypeView {
        match self {
            ResType::Normal(n) => n@,
            ResType::Ang(a) => a@,
        }
    }
}

impl View for CombinatorDecl {
    type V = CombinatorView;

    open spec fn view(&self) -> CombinatorView {
        CombinatorView {
            identns: self.identns@,
            id: self.id,
            opt_args: opt_args_view(self.opt_args@),
            args: args_view(self.args@),
            res: self.res@,
        }
    }
}

impl View for BuiltinDecl {
    type V = BuiltinView;

    open spec fn view(&self) -> BuiltinView {
        BuiltinView { identns: self.identns@, id: self.id, res: self.res@ }
    }
}

impl View for Declaration {
    type V = DeclarationView;

    open spec fn view(&self) -> DeclarationView {
        match self {
            Declaration::Fun(d) => DeclarationView::Fun(d@),
            Declaration::Constr(d) => DeclarationView::Constr(d@),
            Declaration::Builtin(d) => DeclarationView::Builtin(d@),
        }
    }
}

impl View for TLSchema {
    type V = SchemaView;

    open spec fn view(&self) -> SchemaView {
        SchemaView {
            funcs: decls_view(self.funcs@),
            constrs: decls_view(self.constrs@),
            builtin: builtins_view(self.builtin@),
        }
    }
}

impl ResTypeView {
    /// The name of the result type, whichever form it was written in.
    pub open spec fn identns(self) -> IdentNsView {
        match self {
            ResTypeView::Normal { identns, .. } => identns,
            ResTypeView::Ang { identns, .. } => identns,
        }
    }
}

impl ResType {
    /// The name of the result type, whichever form it was written in.
    pub fn identns(&self) -> (r: &IdentNs)
        ensures
            r@ == self@.identns(),
    {
        match self {
            ResType::Normal(n) => &n.identns,
            ResType::Ang(a) => &a.identns,
        }
    }
}

impl IdentNsView {
    /// A name is boxed where it begins with an upper-case letter: a value of
    /// a boxed type carries its id in front of its fields, a bare one does
    /// not.
    pub open spec fn boxed(self) -> bool {
        self.name.len() > 0 && 0x41 <= self.name[0] <= 0x5a
    }
}

impl IdentNs {
    /// Whether the name is boxed, that is, begins with an upper-case letter.
    pub fn is_boxed(&self) -> (r: bool)
        ensures
            r == self@.boxed(),
    {
        self.name.len() > 0 && 0x41 <= self.name[0] && self.name[0] <= 0x5a
    }
}

impl CombinatorView {
    /// The id of a declaration: the written one, else the derived one.
    pub open spec fn resolved_id(self) -> u32 {
        match self.id {
            Some(id) => id,
            None => derived_id(self),
        }
    }

    /// The declaration with its id filled in.
    pub open spec fn resolved(self) -> CombinatorView {
        CombinatorView { id: Some(self.resolved_id()), ..self }
    }
}

/// Each declaration of a list with its id filled in.
pub open spec fn all_resolved(ds: Seq<CombinatorView>) -> Seq<CombinatorView> {
    Seq::new(ds.len(), |i: int| ds[i].resolved())
}

impl SchemaView {
    /// The schema with the id of every constructor and function filled in.
    pub open spec fn resolved(self) -> SchemaView {
        SchemaView {
            funcs: all_resolved(self.funcs),
            constrs: all_resolved(self.constrs),
            builtin: self.builtin,
        }
    }

    /// The schema with the declarations of another one after its own.
    pub open spec fn extended(self, other: SchemaView) -> SchemaView {
        SchemaView {
            funcs: self.funcs + other.funcs,
            constrs: self.constrs + other.constrs,
            builtin: self.builtin + other.builtin,
        }
    }

    /// Whether every constructor and function has an id.
    pub open spec fn has_ids(self) -> bool {
        &&& forall|i: int| 0 <= i < self.funcs.len() ==> (#[trigger] self.funcs[i]).id is Some
        &&& forall|i: int| 0 <= i < self.constrs.len() ==> (#[trigger] self.constrs[i]).id is Some
    }
}

impl CombinatorDecl {
    /// The id of the declaration: the written one, else the derived one.
    pub fn get_id(&self) -> (r: u32)
        ensures
            r == self@.resolved_id(),
    {
        match self.id {
            Some(id) => id,
            None => self.gen_id(),
        }
    }

    /// The id derived from the declaration's canonical text.
    pub fn gen_id(&self) -> (r: u32)
        ensures
            r == derived_id(self@),
    {
        let t = canonical_text(self);
        crc32_of(t.as_slice())
    }
}

/// Fills in the id of each declaration of a list that has none.
fn resolve_all(decls: Vec<CombinatorDecl>) -> (r: Vec<CombinatorDecl>)
    ensures
        decls_view(r@) == all_resolved(decls_view(decls@)),
{
    let ghost all = decls_view(decls@);
    let mut out: Vec<CombinatorDecl> = Vec::new();
    assert(decls_view(out@) =~= all_resolved(all).take(0));
    for d in it: decls
        invariant
            all == decls_view(it.seq()),
            decls_view(out@) == all_resolved(all).take(it.index() as int),
    {
        let id = d.get_id();
        let done = CombinatorDecl {
            identns: d.identns,
            id: Some(id),
            opt_args: d.opt_args,
            args: d.args,
            res: d.res,
        };
        proof {
            let i = it.index() as int;
            assert(all[i] == d@);
            assert(done@ == d@.resolved());
            assert(decls_view(out@.push(done)) =~= decls_view(out@).push(done@));
            assert(all_resolved(all)[i] == done@);
            assert(decls_view(out@).push(done@) =~= all_resolved(all).take(i + 1));
        }
        out.push(done);
    }
    assert(all_resolved(all).take(all.len() as int) =~= all_resolved(all));
    out
}

impl TLSchema {
    /// Appends the declarations of another schema to those of this one.
    pub fn extend(&mut self, other: Self)
        ensures
            final(self)@ == old(self)@.extended(other@),
    {
        let mut other = other;
        proof {
            assert(builtins_view(self.builtin@ + other.builtin@) =~= builtins_view(self.builtin@)
                + builtins_view(other.builtin@));
            assert(decls_view(self.funcs@ + other.funcs@) =~= decls_view(self.funcs@)
                + decls_view(other.funcs@));
            assert(decls_view(self.constrs@ + other.constrs@) =~= decls_view(self.constrs@)
                + decls_view(other.constrs@));
        }
        self.builtin.append(&mut other.builtin);
        self.funcs.append(&mut other.funcs);
        self.constrs.append(&mut other.constrs);
    }

    /// Gives every constructor and function that has no id the one derived
    /// from its text. A written id stays.
    pub fn calculate_ids(&mut self)
        ensures
            final(self)@ == old(self)@.resolved(),
    {
        let mut constrs: Vec<CombinatorDecl> = Vec::new();
        let mut funcs: Vec<CombinatorDecl> = Vec::new();
        std::mem::swap(&mut self.constrs, &mut constrs);
        std::mem::swap(&mut self.funcs, &mut funcs);
        self.constrs = resolve_all(constrs);
        self.funcs = resolve_all(funcs);
    }
}

/// Filling in ids twice is the same as once.
pub proof fn lemma_resolved_twice(s: SchemaView)
    ensures
        s.resolved().resolved() == s.resolved(),
        s.resolved().has_ids(),
{
    assert(all_resolved(all_resolved(s.funcs)) =~= all_resolved(s.funcs));
    assert(all_resolved(all_resolved(s.constrs)) =~= all_resolved(s.constrs));
}

/// Filling in ids changes no declaration that has one, and changes nothing
/// but the id of any.
pub proof fn lemma_resolved_keeps(d: CombinatorView)
    ensures
        d.id is Some ==> d.resolved() == d,
        d.resolved() == (CombinatorView { id: d.resolved().id, ..d }),
        d.resolved().id is Some,
{
}

/// A schema whose declarations all have ids is left as it is.
pub proof fn lemma_resolved_noop(s: SchemaView)
    requires
        s.has_ids(),
    ensures
        s.resolved() == s,
{
    assert(all_resolved(s.funcs) =~= s.funcs);
    assert(all_resolved(s.constrs) =~= s.constrs);
}

} // verus!

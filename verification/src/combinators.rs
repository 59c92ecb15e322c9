//! The parser of schema text: terms, field arguments, declarations and
//! whole documents.
//!
//! Each parser here reads exactly what the function of the same name in
//! `grammar` describes.

use vstd::prelude::*;
use crate::basics::{
    advances, comments, lc_ident_full, number, parsed, tok, uc_ident_ns, var_ident, word, ws,
    ident_ns,
};
use crate::errors::ParsingError;
use crate::grammar;
use crate::text::to_vec;
use crate::types::{
    args_view, declarations_view, names_view, opt_args_view, terms_view, Arg, ArgBrack, ArgCond,
    ArgPar, ArgSingle, BuiltinDecl, CombinatorDecl, ConditionalDef, Declaration, OptArg, ResType,
    ResTypeAng, ResTypeNormal, Section, TLSchema, Term, TermAng,
};

verus! {

/// A term: a number where the input begins with a digit, else a type term.
pub fn term(input: &[u8]) -> (r: Option<(&[u8], Term)>)
    ensures
        parsed(r) == grammar::term(input@),
        advances(r, input),
    decreases input@.len(), 1int,
{
    match type_term(input) {
        Some((rest, t)) => Some((ws(rest), t)),
        None => match number(input, u32::MAX) {
            Some((rest, n)) => Some((rest, Term::NatConst(n))),
            None => None,
        },
    }
}

/// A type term: a generic application, a name, a group in parentheses,
/// the marker `#`, or `%` before a term, tried in this order. What begins
/// with a digit is none.
pub fn type_term(input: &[u8]) -> (r: Option<(&[u8], Term)>)
    ensures
        parsed(r) == grammar::type_term(input@),
        advances(r, input),
    decreases input@.len(), 0int,
{
    let start = ws(input);
    if start.len() > 0 && 0x30 <= start[0] && start[0] <= 0x39 {
        return None;
    }
    if let Some((rest, identns)) = ident_ns(input) {
        return match angle_terms(rest) {
            Some((rest, (term, terms))) => Some(
                (rest, Term::Ang(TermAng { identns, term: Box::new(term), terms })),
            ),
            None => Some((rest, Term::IdentNs(identns))),
        };
    }
    if let Some(rest) = tok(0x28, input) {
        let (rest, terms) = terms0(rest);
        return match tok(0x29, rest) {
            Some(rest) => if terms.len() > 0 {
                Some((rest, Term::Par(terms)))
            } else {
                None
            },
            None => None,
        };
    }
    if let Some(rest) = tok(0x23, input) {
        return Some((rest, Term::Nat));
    }
    match tok(0x25, input) {
        Some(rest) => match term(rest) {
            Some((rest, t)) => Some((rest, Term::Percent(Box::new(t)))),
            None => None,
        },
        None => None,
    }
}

/// The arguments of a generic application: `<`, a term, further terms
/// after a comma each, and `>`.
pub fn angle_terms(input: &[u8]) -> (r: Option<(&[u8], (Term, Vec<Term>))>)
    ensures
        match r {
            Some((rest, (first, more))) => grammar::angle_terms(input@) == Some(
                (rest@, (first@, terms_view(more@))),
            ),
            None => grammar::angle_terms(input@) is None,
        },
        advances(r, input),
    decreases input@.len(), 4int,
{
    match tok(0x3c, input) {
        Some(rest) => match term(rest) {
            Some((rest, first)) => {
                let (rest, more) = comma_terms(rest);
                match tok(0x3e, rest) {
                    Some(rest) => Some((rest, (first, more))),
                    None => None,
                }
            },
            None => None,
        },
        None => None,
    }
}

/// As many terms as follow, each after a comma.
pub fn comma_terms(input: &[u8]) -> (r: (&[u8], Vec<Term>))
    ensures
        (r.0@, terms_view(r.1@)) == grammar::comma_terms(input@),
        r.0@.len() <= input@.len(),
    decreases input@.len(), 3int,
{
    let mut cur: &[u8] = input;
    let mut out: Vec<Term> = Vec::new();
    assert(terms_view(out@) + grammar::comma_terms(cur@).1 =~= grammar::comma_terms(cur@).1);
    loop
        invariant
            cur@.len() <= input@.len(),
            grammar::comma_terms(input@) == (
                grammar::comma_terms(cur@).0,
                terms_view(out@) + grammar::comma_terms(cur@).1,
            ),
        ensures
            cur@.len() <= input@.len(),
            grammar::comma_terms(input@) == (cur@, terms_view(out@)),
        decreases cur@.len(),
    {
        let next = match tok(0x2c, cur) {
            Some(rest) => term(rest),
            None => None,
        };
        match next {
            Some((rest, t)) => {
                proof {
                    let tail = grammar::comma_terms(rest@).1;
                    assert(terms_view(out@.push(t)) =~= terms_view(out@).push(t@));
                    assert(terms_view(out@) + (seq![t@] + tail) =~= terms_view(out@).push(t@)
                        + tail);
                }
                out.push(t);
                cur = rest;
            },
            None => {
                assert(terms_view(out@) + Seq::<crate::types::TermView>::empty() =~= terms_view(
                    out@,
                ));
                break;
            },
        }
    }
    (cur, out)
}

/// As many terms as follow.
pub fn terms0(input: &[u8]) -> (r: (&[u8], Vec<Term>))
    ensures
        (r.0@, terms_view(r.1@)) == grammar::terms0(input@),
        r.0@.len() <= input@.len(),
    decreases input@.len(), 2int,
{
    let mut cur: &[u8] = input;
    let mut out: Vec<Term> = Vec::new();
    assert(terms_view(out@) + grammar::terms0(cur@).1 =~= grammar::terms0(cur@).1);
    loop
        invariant
            cur@.len() <= input@.len(),
            grammar::terms0(input@) == (
                grammar::terms0(cur@).0,
                terms_view(out@) + grammar::terms0(cur@).1,
            ),
        ensures
            cur@.len() <= input@.len(),
            grammar::terms0(input@) == (cur@, terms_view(out@)),
        decreases cur@.len(),
    {
        match term(cur) {
            Some((rest, t)) => {
                proof {
                    let tail = grammar::terms0(rest@).1;
                    assert(terms_view(out@.push(t)) =~= terms_view(out@).push(t@));
                    assert(terms_view(out@) + (seq![t@] + tail) =~= terms_view(out@).push(t@)
                        + tail);
                }
                out.push(t);
                cur = rest;
            },
            None => {
                assert(terms_view(out@) + Seq::<crate::types::TermView>::empty() =~= terms_view(
                    out@,
                ));
                break;
            },
        }
    }
    (cur, out)
}

/// A name with white space on both sides.
pub fn name(input: &[u8]) -> (r: Option<(&[u8], &[u8])>)
    ensures
        parsed(r) == grammar::name(input@),
        advances(r, input),
{
    match var_ident(ws(input)) {
        Some((rest, n)) => Some((ws(rest), n)),
        None => None,
    }
}

/// As many names as follow.
pub fn names0(input: &[u8]) -> (r: (&[u8], Vec<Vec<u8>>))
    ensures
        (r.0@, names_view(r.1@)) == grammar::names0(input@),
        r.0@.len() <= input@.len(),
{
    let mut cur: &[u8] = input;
    let mut out: Vec<Vec<u8>> = Vec::new();
    assert(names_view(out@) + grammar::names0(cur@).1 =~= grammar::names0(cur@).1);
    loop
        invariant
            cur@.len() <= input@.len(),
            grammar::names0(input@) == (
                grammar::names0(cur@).0,
                names_view(out@) + grammar::names0(cur@).1,
            ),
        ensures
            cur@.len() <= input@.len(),
            grammar::names0(input@) == (cur@, names_view(out@)),
        decreases cur@.len(),
    {
        match name(cur) {
            Some((rest, n)) => {
                let owned = to_vec(n);
                proof {
                    let tail = grammar::names0(rest@).1;
                    assert(names_view(out@.push(owned)) =~= names_view(out@).push(n@));
                    assert(names_view(out@) + (seq![n@] + tail) =~= names_view(out@).push(n@)
                        + tail);
                }
                out.push(owned);
                cur = rest;
            },
            None => {
                assert(names_view(out@) + Seq::<Seq<u8>>::empty() =~= names_view(out@));
                break;
            },
        }
    }
    (cur, out)
}

/// `!` where it is written.
pub fn bang(input: &[u8]) -> (r: (&[u8], bool))
    ensures
        (r.0@, r.1) == grammar::bang(input@),
        r.0@.len() <= input@.len(),
{
    match tok(0x21, input) {
        Some(rest) => (rest, true),
        None => (input, false),
    }
}

/// The bit of a condition, `.` and a number, where it is written.
fn bit_index(input: &[u8]) -> (r: (&[u8], Option<u32>))
    ensures
        (r.0@, r.1) == grammar::bit_index(input@),
        r.0@.len() <= input@.len(),
{
    match tok(0x2e, input) {
        Some(rest) => match number(rest, u32::MAX) {
            Some((rest, n)) => (rest, Some(n)),
            None => (input, None),
        },
        None => (input, None),
    }
}

/// The condition of a field: the name of a flags field, the bit where it
/// is written, and `?`.
pub fn conditional_def(input: &[u8]) -> (r: Option<(&[u8], ConditionalDef)>)
    ensures
        parsed(r) == grammar::conditional_def(input@),
        advances(r, input),
{
    match name(input) {
        Some((rest, ident)) => {
            let (rest, index) = bit_index(rest);
            match tok(0x3f, rest) {
                Some(rest) => Some((rest, ConditionalDef { ident: to_vec(ident), index })),
                None => None,
            }
        },
        None => None,
    }
}

/// A group in parentheses: one or more names, `:`, and their type.
fn arg_par(input: &[u8]) -> (r: Option<(&[u8], Arg)>)
    ensures
        parsed(r) == grammar::arg_par(input@),
        advances(r, input),
{
    let rest = match tok(0x28, input) {
        Some(rest) => rest,
        None => {
            return None;
        },
    };
    let (rest, ident) = match name(rest) {
        Some(found) => found,
        None => {
            return None;
        },
    };
    let (rest, idents) = names0(rest);
    let rest = match tok(0x3a, rest) {
        Some(rest) => rest,
        None => {
            return None;
        },
    };
    let (rest, excl) = bang(rest);
    let (rest, term) = match term(rest) {
        Some(found) => found,
        None => {
            return None;
        },
    };
    match tok(0x29, rest) {
        Some(rest) => Some((rest, Arg::Par(ArgPar { ident: to_vec(ident), idents, excl, term }))),
        None => None,
    }
}

/// The name of a repeated block, `name :`, where it is written.
fn block_name(input: &[u8]) -> (r: (&[u8], Option<Vec<u8>>))
    ensures
        (r.0@, crate::types::opt_bytes(r.1)) == grammar::block_name(input@),
        r.0@.len() <= input@.len(),
{
    match name(input) {
        Some((rest, n)) => match tok(0x3a, rest) {
            Some(rest) => (rest, Some(to_vec(n))),
            None => (input, None),
        },
        None => (input, None),
    }
}

/// The multiplicity of a repeated block, `count *`, where it is written.
fn multiplicity(input: &[u8]) -> (r: (&[u8], Option<i32>))
    ensures
        (r.0@, r.1) == grammar::multiplicity(input@),
        r.0@.len() <= input@.len(),
{
    match number(input, 0x7fff_ffff) {
        Some((rest, n)) => match tok(0x2a, rest) {
            Some(rest) => (rest, Some(n as i32)),
            None => (input, None),
        },
        None => (input, None),
    }
}

/// A repeated block: a name and a multiplicity where they are written,
/// then one or more arguments in square brackets.
fn arg_brack(input: &[u8]) -> (r: Option<(&[u8], Arg)>)
    ensures
        parsed(r) == grammar::arg_brack(input@),
        advances(r, input),
    decreases input@.len(), 0int,
{
    let (rest, ident) = block_name(input);
    let (rest, mult) = multiplicity(rest);
    match tok(0x5b, rest) {
        Some(rest) => {
            let (rest, args) = args0(rest);
            match tok(0x5d, rest) {
                Some(rest) => if args.len() > 0 {
                    Some((rest, Arg::Brack(ArgBrack { ident, mult, args })))
                } else {
                    None
                },
                None => None,
            }
        },
        None => None,
    }
}

/// The condition of a field, where it is written.
fn condition(input: &[u8]) -> (r: (&[u8], Option<ConditionalDef>))
    ensures
        r.0@ == grammar::condition(input@).0,
        match r.1 {
            Some(c) => grammar::condition(input@).1 == Some(c@),
            None => grammar::condition(input@).1 is None,
        },
        r.0@.len() <= input@.len(),
{
    match conditional_def(input) {
        Some((rest, c)) => (rest, Some(c)),
        None => (input, None),
    }
}

/// A named field: a name, `:`, a condition where one is written, and a
/// type term.
fn arg_cond(input: &[u8]) -> (r: Option<(&[u8], Arg)>)
    ensures
        parsed(r) == grammar::arg_cond(input@),
        advances(r, input),
{
    let (rest, ident) = match name(input) {
        Some(found) => found,
        None => {
            return None;
        },
    };
    let rest = match tok(0x3a, rest) {
        Some(rest) => rest,
        None => {
            return None;
        },
    };
    let (rest, cond) = condition(rest);
    let (rest, excl) = bang(rest);
    match type_term(rest) {
        Some((rest, term)) => Some(
            (ws(rest), Arg::Cond(ArgCond { ident: to_vec(ident), cond, excl, term })),
        ),
        None => None,
    }
}

/// An unnamed field: a term alone.
fn arg_single(input: &[u8]) -> (r: Option<(&[u8], Arg)>)
    ensures
        parsed(r) == grammar::arg_single(input@),
        advances(r, input),
{
    let (rest, excl) = bang(input);
    match term(rest) {
        Some((rest, term)) => Some((rest, Arg::Single(ArgSingle { excl, term }))),
        None => None,
    }
}

/// A field argument: a group in parentheses, a repeated block, a named
/// field or an unnamed field, tried in this order.
pub fn arg(input: &[u8]) -> (r: Option<(&[u8], Arg)>)
    ensures
        parsed(r) == grammar::arg(input@),
        advances(r, input),
    decreases input@.len(), 1int,
{
    if let Some(found) = arg_par(input) {
        return Some(found);
    }
    if let Some(found) = arg_brack(input) {
        return Some(found);
    }
    if let Some(found) = arg_cond(input) {
        return Some(found);
    }
    arg_single(input)
}

/// As many field arguments as follow.
pub fn args0(input: &[u8]) -> (r: (&[u8], Vec<Arg>))
    ensures
        (r.0@, args_view(r.1@)) == grammar::args0(input@),
        r.0@.len() <= input@.len(),
    decreases input@.len(), 2int,
{
    let mut cur: &[u8] = input;
    let mut out: Vec<Arg> = Vec::new();
    assert(args_view(out@) + grammar::args0(cur@).1 =~= grammar::args0(cur@).1);
    loop
        invariant
            cur@.len() <= input@.len(),
            grammar::args0(input@) == (
                grammar::args0(cur@).0,
                args_view(out@) + grammar::args0(cur@).1,
            ),
        ensures
            cur@.len() <= input@.len(),
            grammar::args0(input@) == (cur@, args_view(out@)),
        decreases cur@.len(),
    {
        match arg(cur) {
            Some((rest, a)) => {
                proof {
                    let tail = grammar::args0(rest@).1;
                    assert(args_view(out@.push(a)) =~= args_view(out@).push(a@));
                    assert(args_view(out@) + (seq![a@] + tail) =~= args_view(out@).push(a@)
                        + tail);
                }
                out.push(a);
                cur = rest;
            },
            None => {
                assert(args_view(out@) + Seq::<crate::types::ArgView>::empty() =~= args_view(
                    out@,
                ));
                break;
            },
        }
    }
    (cur, out)
}

/// A generic or optional parameter: in braces one or more names, `:`, and
/// one or more terms.
pub fn opt_arg(input: &[u8]) -> (r: Option<(&[u8], OptArg)>)
    ensures
        parsed(r) == grammar::opt_arg(input@),
        advances(r, input),
{
    let rest = match tok(0x7b, input) {
        Some(rest) => rest,
        None => {
            return None;
        },
    };
    let (rest, ident) = match name(rest) {
        Some(found) => found,
        None => {
            return None;
        },
    };
    let (rest, idents) = names0(rest);
    let rest = match tok(0x3a, rest) {
        Some(rest) => rest,
        None => {
            return None;
        },
    };
    let (rest, excl) = bang(rest);
    let (rest, terms) = terms0(rest);
    match tok(0x7d, rest) {
        Some(rest) => if terms.len() > 0 {
            Some((rest, OptArg { ident: to_vec(ident), idents, excl, terms }))
        } else {
            None
        },
        None => None,
    }
}

/// As many parameters as follow.
pub fn opt_args0(input: &[u8]) -> (r: (&[u8], Vec<OptArg>))
    ensures
        (r.0@, opt_args_view(r.1@)) == grammar::opt_args0(input@),
        r.0@.len() <= input@.len(),
{
    let mut cur: &[u8] = input;
    let mut out: Vec<OptArg> = Vec::new();
    assert(opt_args_view(out@) + grammar::opt_args0(cur@).1 =~= grammar::opt_args0(cur@).1);
    loop
        invariant
            cur@.len() <= input@.len(),
            grammar::opt_args0(input@) == (
                grammar::opt_args0(cur@).0,
                opt_args_view(out@) + grammar::opt_args0(cur@).1,
            ),
        ensures
            cur@.len() <= input@.len(),
            grammar::opt_args0(input@) == (cur@, opt_args_view(out@)),
        decreases cur@.len(),
    {
        match opt_arg(cur) {
            Some((rest, a)) => {
                proof {
                    let tail = grammar::opt_args0(rest@).1;
                    assert(opt_args_view(out@.push(a)) =~= opt_args_view(out@).push(a@));
                    assert(opt_args_view(out@) + (seq![a@] + tail) =~= opt_args_view(out@).push(
                        a@,
                    ) + tail);
                }
                out.push(a);
                cur = rest;
            },
            None => {
                assert(opt_args_view(out@) + Seq::<crate::types::OptArgView>::empty()
                    =~= opt_args_view(out@));
                break;
            },
        }
    }
    (cur, out)
}

/// A result type: an upper-case name and its arguments, in angle brackets
/// where they are written so, else as the terms that follow.
pub fn result_type(input: &[u8]) -> (r: Option<(&[u8], ResType)>)
    ensures
        parsed(r) == grammar::result_type(input@),
        advances(r, input),
{
    let (rest, identns) = match uc_ident_ns(ws(input)) {
        Some((rest, identns)) => (ws(rest), identns),
        None => {
            return None;
        },
    };
    match angle_terms(rest) {
        Some((rest, (term, terms))) => Some(
            (rest, ResType::Ang(ResTypeAng { identns, term, terms })),
        ),
        None => {
            let (rest, terms) = terms0(rest);
            Some((rest, ResType::Normal(ResTypeNormal { identns, terms })))
        },
    }
}

/// A constructor or function declaration: a name with its id, parameters,
/// field arguments, `=`, the result type and `;`.
pub fn combinator_declaration(input: &[u8]) -> (r: Option<(&[u8], CombinatorDecl)>)
    ensures
        parsed(r) == grammar::combinator_declaration(input@),
        advances(r, input),
{
    let (rest, (identns, id)) = match lc_ident_full(input) {
        Some(found) => found,
        None => {
            return None;
        },
    };
    let (rest, opt_args) = opt_args0(rest);
    let (rest, args) = args0(rest);
    let rest = match tok(0x3d, rest) {
        Some(rest) => rest,
        None => {
            return None;
        },
    };
    let (rest, res) = match result_type(rest) {
        Some(found) => found,
        None => {
            return None;
        },
    };
    match tok(0x3b, rest) {
        Some(rest) => Some((rest, CombinatorDecl { identns, id, opt_args, args, res })),
        None => None,
    }
}

/// The declaration of a primitive: a name with its id, `?`, `=`, an
/// upper-case name and `;`.
pub fn builtin_declaration(input: &[u8]) -> (r: Option<(&[u8], BuiltinDecl)>)
    ensures
        parsed(r) == grammar::builtin_declaration(input@),
        advances(r, input),
{
    let (rest, (identns, id)) = match lc_ident_full(input) {
        Some(found) => found,
        None => {
            return None;
        },
    };
    let rest = match tok(0x3f, rest) {
        Some(rest) => rest,
        None => {
            return None;
        },
    };
    let rest = match tok(0x3d, rest) {
        Some(rest) => rest,
        None => {
            return None;
        },
    };
    let (rest, res) = match uc_ident_ns(rest) {
        Some((rest, res)) => (ws(rest), res),
        None => {
            return None;
        },
    };
    match tok(0x3b, rest) {
        Some(rest) => Some((rest, BuiltinDecl { identns, id, res })),
        None => None,
    }
}

/// A fixed word with white space on both sides.
fn spaced<'a>(t: &str, input: &'a [u8]) -> (r: Option<&'a [u8]>)
    ensures
        match r {
            Some(rest) => grammar::spaced(crate::text::lit(t), input@) == Some(rest@)
                && rest@.len() <= input@.len(),
            None => grammar::spaced(crate::text::lit(t), input@) is None,
        },
{
    match word(t, ws(input)) {
        Some(rest) => Some(ws(rest)),
        None => None,
    }
}

/// A separator line, `--- word ---`.
fn separator<'a>(name: &str, input: &'a [u8]) -> (r: Option<&'a [u8]>)
    ensures
        match r {
            Some(rest) => grammar::separator(crate::text::lit(name), input@) == Some(rest@)
                && rest@.len() <= input@.len(),
            None => grammar::separator(crate::text::lit(name), input@) is None,
        },
{
    match spaced("---", input) {
        Some(rest) => match spaced(name, rest) {
            Some(rest) => spaced("---", rest),
            None => None,
        },
        None => None,
    }
}

/// The line that opens a section of constructors.
pub fn constr_sep(input: &[u8]) -> (r: Option<(&[u8], Section)>)
    ensures
        match r {
            Some((rest, section)) => grammar::constr_sep(input@) == Some((rest@, section))
                && rest@.len() <= input@.len(),
            None => grammar::constr_sep(input@) is None,
        },
{
    match separator("types", input) {
        Some(rest) => Some((rest, Section::Types)),
        None => None,
    }
}

/// The line that opens a section of functions.
pub fn func_sep(input: &[u8]) -> (r: Option<(&[u8], Section)>)
    ensures
        match r {
            Some((rest, section)) => grammar::func_sep(input@) == Some((rest@, section))
                && rest@.len() <= input@.len(),
            None => grammar::func_sep(input@) is None,
        },
{
    match separator("functions", input) {
        Some(rest) => Some((rest, Section::Function)),
        None => None,
    }
}

/// Skips as many comments as follow.
pub fn comments0(input: &[u8]) -> (r: &[u8])
    ensures
        r@ == grammar::comments0(input@),
        r@.len() <= input@.len(),
{
    let mut cur: &[u8] = input;
    loop
        invariant
            cur@.len() <= input@.len(),
            grammar::comments0(input@) == grammar::comments0(cur@),
        ensures
            cur@.len() <= input@.len(),
            grammar::comments0(input@) == cur@,
        decreases cur@.len(),
    {
        match comments(ws(cur)) {
            Some((rest, _)) => {
                cur = ws(rest);
            },
            None => {
                break;
            },
        }
    }
    cur
}

/// One declaration of a section, with the comments around it.
pub fn item(section: Section, input: &[u8]) -> (r: Option<(&[u8], Declaration)>)
    ensures
        parsed(r) == grammar::item(section, input@),
        advances(r, input),
{
    let start = comments0(input);
    match combinator_declaration(start) {
        Some((rest, d)) => Some(
            (
                comments0(rest),
                match section {
                    Section::Types => Declaration::Constr(d),
                    Section::Function => Declaration::Fun(d),
                },
            ),
        ),
        None => match builtin_declaration(start) {
            Some((rest, d)) => Some((comments0(rest), Declaration::Builtin(d))),
            None => None,
        },
    }
}

/// Reads as many declarations of a section as follow, and appends them to
/// `out`.
fn items0<'a>(section: Section, input: &'a [u8], out: &mut Vec<Declaration>) -> (r: &'a [u8])
    ensures
        r@ == grammar::items0(section, input@).0,
        declarations_view(final(out)@) == declarations_view(old(out)@) + grammar::items0(
            section,
            input@,
        ).1,
        r@.len() <= input@.len(),
        grammar::items0(section, input@).1.len() > 0 ==> r@.len() < input@.len(),
{
    let mut cur: &[u8] = input;
    assert(declarations_view(out@) + Seq::<crate::types::DeclarationView>::empty()
        =~= declarations_view(out@));
    let ghost mut got: Seq<crate::types::DeclarationView> = Seq::empty();
    assert(got + grammar::items0(section, cur@).1 =~= grammar::items0(section, cur@).1);
    loop
        invariant
            cur@.len() <= input@.len(),
            got.len() > 0 ==> cur@.len() < input@.len(),
            declarations_view(out@) == declarations_view(old(out)@) + got,
            grammar::items0(section, input@) == (
                grammar::items0(section, cur@).0,
                got + grammar::items0(section, cur@).1,
            ),
        ensures
            cur@.len() <= input@.len(),
            got.len() > 0 ==> cur@.len() < input@.len(),
            declarations_view(out@) == declarations_view(old(out)@) + got,
            grammar::items0(section, input@) == (cur@, got),
        decreases cur@.len(),
    {
        match item(section, cur) {
            Some((rest, d)) => {
                proof {
                    let tail = grammar::items0(section, rest@).1;
                    assert(declarations_view(out@.push(d)) =~= declarations_view(out@).push(d@));
                    assert(got + (seq![d@] + tail) =~= got.push(d@) + tail);
                    assert(declarations_view(old(out)@) + got.push(d@) =~= (declarations_view(
                        old(out)@,
                    ) + got).push(d@));
                    got = got.push(d@);
                }
                out.push(d);
                cur = rest;
            },
            None => {
                assert(got + Seq::<crate::types::DeclarationView>::empty() =~= got);
                break;
            },
        }
    }
    cur
}

/// Reads a block, a separator and the one or more declarations of its
/// section, and appends the declarations to `out`. Where no block stands,
/// `out` is left as it was.
fn block<'a>(input: &'a [u8], out: &mut Vec<Declaration>) -> (r: Option<&'a [u8]>)
    ensures
        match r {
            Some(rest) => grammar::block(input@) matches Some((s, ds)) && s == rest@
                && declarations_view(final(out)@) == declarations_view(old(out)@) + ds
                && rest@.len() < input@.len(),
            None => grammar::block(input@) is None && declarations_view(final(out)@)
                == declarations_view(old(out)@),
        },
{
    if let Some((after, _)) = func_sep(input) {
        let mut found: Vec<Declaration> = Vec::new();
        let rest = items0(Section::Function, after, &mut found);
        if found.len() > 0 {
            proof {
                let items = grammar::items0(Section::Function, after@).1;
                assert(declarations_view(Seq::<Declaration>::empty()) + items =~= items);
                assert(declarations_view(out@ + found@) =~= declarations_view(out@)
                    + declarations_view(found@));
            }
            out.append(&mut found);
            return Some(rest);
        }
        assert(declarations_view(found@).len() == 0);
    }
    if let Some((after, _)) = constr_sep(input) {
        let mut found: Vec<Declaration> = Vec::new();
        let rest = items0(Section::Types, after, &mut found);
        if found.len() > 0 {
            proof {
                let items = grammar::items0(Section::Types, after@).1;
                assert(declarations_view(Seq::<Declaration>::empty()) + items =~= items);
                assert(declarations_view(out@ + found@) =~= declarations_view(out@)
                    + declarations_view(found@));
            }
            out.append(&mut found);
            return Some(rest);
        }
        assert(declarations_view(found@).len() == 0);
    }
    None
}

/// Reads as many blocks as follow, and appends their declarations to
/// `out`. Says also whether there was a block.
fn blocks0<'a>(input: &'a [u8], out: &mut Vec<Declaration>) -> (r: (&'a [u8], bool))
    ensures
        r.0@ == grammar::blocks0(input@).0,
        declarations_view(final(out)@) == declarations_view(old(out)@) + grammar::blocks0(
            input@,
        ).1,
        r.1 == (grammar::blocks0(input@).2 > 0),
        r.0@.len() <= input@.len(),
{
    let mut cur: &[u8] = input;
    let mut any = false;
    let ghost mut more: Seq<crate::types::DeclarationView> = Seq::empty();
    let ghost mut count: nat = 0;
    proof {
        assert(declarations_view(out@) + more =~= declarations_view(out@));
        assert(more + grammar::blocks0(cur@).1 =~= grammar::blocks0(cur@).1);
    }
    loop
        invariant
            cur@.len() <= input@.len(),
            any == (count > 0),
            declarations_view(out@) == declarations_view(old(out)@) + more,
            grammar::blocks0(input@).0 == grammar::blocks0(cur@).0,
            grammar::blocks0(input@).1 == more + grammar::blocks0(cur@).1,
            grammar::blocks0(input@).2 == count + grammar::blocks0(cur@).2,
        ensures
            cur@.len() <= input@.len(),
            any == (count > 0),
            declarations_view(out@) == declarations_view(old(out)@) + more,
            grammar::blocks0(input@) == (cur@, more, count),
        decreases cur@.len(),
    {
        let ghost before = declarations_view(out@);
        let ghost here = cur@;
        match block(cur, out) {
            Some(rest) => {
                proof {
                    let ds = match grammar::block(here) {
                        Some((_, ds)) => ds,
                        None => Seq::empty(),
                    };
                    let next = grammar::blocks0(rest@);
                    assert(grammar::blocks0(here) == (next.0, ds + next.1, next.2 + 1));
                    assert(more + (ds + next.1) =~= (more + ds) + next.1);
                    assert(before + ds =~= declarations_view(old(out)@) + (more + ds));
                    more = more + ds;
                    count = count + 1;
                }
                any = true;
                cur = rest;
            },
            None => {
                assert(grammar::blocks0(here) == (here, Seq::<crate::types::DeclarationView>::empty(), 0nat));
                assert(more + Seq::<crate::types::DeclarationView>::empty() =~= more);
                break;
            },
        }
    }
    (cur, any)
}

/// The declarations of a whole document: constructors, then one or more
/// blocks, up to the end of the input.
pub fn tl_program(input: &[u8]) -> (r: Result<(&[u8], Vec<Declaration>), ParsingError>)
    ensures
        match grammar::tl_program(input@) {
            Ok(ds) => r matches Ok((rest, found)) && rest@.len() == 0 && declarations_view(found@)
                == ds,
            Err(at) => r == Err::<(&[u8], Vec<Declaration>), ParsingError>(
                ParsingError::Parsing { position: at as usize },
            ),
        },
{
    let len = input.len();
    let mut found: Vec<Declaration> = Vec::new();
    let after_leading = items0(Section::Types, input, &mut found);
    let ghost leading = grammar::items0(Section::Types, input@).1;
    assert(declarations_view(found@) =~= leading);
    let (rest, any) = blocks0(after_leading, &mut found);
    let end = ws(rest);
    if any && end.len() == 0 {
        Ok((end, found))
    } else {
        Err(ParsingError::Parsing { position: len - rest.len() })
    }
}

/// Parses a whole document into a schema. A text that is no document is
/// refused as a whole, with the place up to which it was one.
pub fn schema(input: &[u8]) -> (r: Result<(&[u8], TLSchema), ParsingError>)
    ensures
        match grammar::schema(input@) {
            Ok(v) => r matches Ok((rest, s)) && rest@.len() == 0 && s@ == v,
            Err(at) => r == Err::<(&[u8], TLSchema), ParsingError>(
                ParsingError::Parsing { position: at as usize },
            ),
        },
{
    let (rest, definitions) = match tl_program(input) {
        Ok(found) => found,
        Err(e) => {
            return Err(e);
        },
    };
    let mut schema = TLSchema { funcs: Vec::new(), constrs: Vec::new(), builtin: Vec::new() };
    let ghost all = declarations_view(definitions@);
    assert(schema@.funcs =~= grammar::sorted_out(all.take(0)).funcs);
    assert(schema@.constrs =~= grammar::sorted_out(all.take(0)).constrs);
    assert(schema@.builtin =~= grammar::sorted_out(all.take(0)).builtin);
    for dec in it: definitions
        invariant
            all == declarations_view(it.seq()),
            schema@ == grammar::sorted_out(all.take(it.index() as int)),
    {
        proof {
            let i = it.index() as int;
            assert(all.take(i + 1).drop_last() =~= all.take(i));
            assert(all.take(i + 1).last() == dec@);
        }
        let ghost before = schema@;
        match dec {
            Declaration::Constr(d) => {
                schema.constrs.push(d);
                assert(schema@.constrs =~= before.constrs.push(d@));
            },
            Declaration::Fun(d) => {
                schema.funcs.push(d);
                assert(schema@.funcs =~= before.funcs.push(d@));
            },
            Declaration::Builtin(d) => {
                schema.builtin.push(d);
                assert(schema@.builtin =~= before.builtin.push(d@));
            },
        }
    }
    assert(all.take(all.len() as int) =~= all);
    Ok((rest, schema))
}

} // verus!

//! The grammar of schema text, as functions on byte sequences.
//!
//! Each function takes the input that is left and gives `None` where the
//! input does not match, else what is left after the match together with
//! the value that was read. The parsers of this crate are specified by these
//! functions.
//!
//! Where a function goes on with what an earlier part has left, it first
//! tests that this is shorter than its own input. The test bounds the
//! recursion; it holds of every match, as `grammar_laws` shows, so it cuts
//! no match short.

use vstd::prelude::*;
use crate::text::{dec_value, is_lower, is_upper, lit};
use crate::types::{
    ArgView, BuiltinView, CombinatorView, CondView, DeclarationView, IdentNsView, OptArgView,
    ResTypeView, SchemaView, Section, TermView,
};

verus! {

/// A set of bytes that a run is made of.
pub enum ByteClass {
    /// Space, tab, carriage return and line feed.
    Space,
    /// `0` to `9`.
    Digit,
    /// Digits and the letters of both cases.
    Alnum,
    /// What a name is made of: digits, letters and `_`.
    Word,
    /// Every byte but the given ones.
    NoneOf(Seq<u8>),
}

/// Whether a byte is a decimal digit.
pub open spec fn is_digit(b: u8) -> bool {
    0x30 <= b <= 0x39
}

impl ByteClass {
    /// Whether a byte is one of the class.
    pub open spec fn has(self, b: u8) -> bool {
        match self {
            ByteClass::Space => b == 0x20 || b == 0x09 || b == 0x0d || b == 0x0a,
            ByteClass::Digit => is_digit(b),
            ByteClass::Alnum => is_digit(b) || is_lower(b) || is_upper(b),
            ByteClass::Word => is_digit(b) || is_lower(b) || is_upper(b) || b == 0x5f,
            ByteClass::NoneOf(set) => !set.contains(b),
        }
    }
}

/// The length of the longest prefix of `s` made of bytes of the class.
pub open spec fn run(s: Seq<u8>, c: ByteClass) -> nat
    decreases s.len(),
{
    if s.len() > 0 && c.has(s[0]) {
        1 + run(s.skip(1), c)
    } else {
        0
    }
}

/// The input cut after `n` bytes: what is left, then what was taken.
pub open spec fn cut(s: Seq<u8>, n: nat) -> (Seq<u8>, Seq<u8>) {
    (s.skip(n as int), s.take(n as int))
}

/// The longest prefix made of bytes of the class, which may be empty.
pub open spec fn take_run(s: Seq<u8>, c: ByteClass) -> (Seq<u8>, Seq<u8>) {
    cut(s, run(s, c))
}

/// The longest prefix made of bytes of the class, where it is not empty.
pub open spec fn take_run1(s: Seq<u8>, c: ByteClass) -> Option<(Seq<u8>, Seq<u8>)> {
    if run(s, c) == 0 {
        None
    } else {
        Some(cut(s, run(s, c)))
    }
}

/// The given bytes at the start of the input.
pub open spec fn tag(t: Seq<u8>, s: Seq<u8>) -> Option<(Seq<u8>, Seq<u8>)> {
    if t.is_prefix_of(s) {
        Some(cut(s, t.len()))
    } else {
        None
    }
}

/// The input without its leading white space.
pub open spec fn ws(s: Seq<u8>) -> Seq<u8> {
    s.skip(run(s, ByteClass::Space) as int)
}

/// A result with the white space after it skipped.
pub open spec fn trim<T>(r: Option<(Seq<u8>, T)>) -> Option<(Seq<u8>, T)> {
    match r {
        Some((rest, v)) => Some((ws(rest), v)),
        None => None,
    }
}

/// One given byte.
pub open spec fn byte(c: u8, s: Seq<u8>) -> Option<Seq<u8>> {
    if s.len() > 0 && s[0] == c {
        Some(s.skip(1))
    } else {
        None
    }
}

/// One given byte with white space on both sides of it.
pub open spec fn tok(c: u8, s: Seq<u8>) -> Option<Seq<u8>> {
    match byte(c, ws(s)) {
        Some(rest) => Some(ws(rest)),
        None => None,
    }
}

/// A run is no longer than the input, is made of bytes of the class, and
/// ends at the first byte outside of it.
pub proof fn lemma_run(s: Seq<u8>, c: ByteClass)
    ensures
        run(s, c) <= s.len(),
        forall|i: int| 0 <= i < run(s, c) ==> c.has(#[trigger] s[i]),
        run(s, c) < s.len() ==> !c.has(s[run(s, c) as int]),
    decreases s.len(),
{
    if s.len() > 0 && c.has(s[0]) {
        lemma_run(s.skip(1), c);
        assert forall|i: int| 0 <= i < run(s, c) implies c.has(#[trigger] s[i]) by {
            if i > 0 {
                assert(s[i] == s.skip(1)[i - 1]);
            }
        }
    }
}

/// Where every byte of `sub` is one of `sup`, a run of `sup` begins with the
/// run of `sub` and goes on from its end.
pub proof fn lemma_run_within(s: Seq<u8>, sub: ByteClass, sup: ByteClass)
    requires
        forall|b: u8| sub.has(b) ==> sup.has(b),
    ensures
        run(s, sub) <= s.len(),
        run(s, sup) == run(s, sub) + run(s.skip(run(s, sub) as int), sup),
    decreases s.len(),
{
    if s.len() > 0 && sub.has(s[0]) {
        lemma_run_within(s.skip(1), sub, sup);
        assert(s.skip(1).skip(run(s.skip(1), sub) as int) =~= s.skip(run(s, sub) as int));
    } else {
        assert(s.skip(0) =~= s);
    }
}

/// The white space of an input without leading white space is empty.
pub proof fn lemma_ws_twice(s: Seq<u8>)
    ensures
        ws(ws(s)) == ws(s),
        ws(s).len() <= s.len(),
{
    lemma_run(s, ByteClass::Space);
    let t = ws(s);
    if t.len() > 0 {
        assert(t[0] == s[run(s, ByteClass::Space) as int]);
    }
    assert(run(t, ByteClass::Space) == 0);
    assert(t.skip(0) =~= t);
}

// ---------------------------------------------------------------------------
// Words
// ---------------------------------------------------------------------------

/// Two given bytes in a row.
pub open spec fn pair(a: u8, b: u8, s: Seq<u8>) -> Option<Seq<u8>> {
    if s.len() >= 2 && s[0] == a && s[1] == b {
        Some(s.skip(2))
    } else {
        None
    }
}

/// How many bytes stand before the first `*/`, where there is one.
pub open spec fn block_end(s: Seq<u8>) -> Option<nat>
    decreases s.len(),
{
    if pair(0x2a, 0x2f, s) is Some {
        Some(0)
    } else if s.len() == 0 {
        None
    } else {
        match block_end(s.skip(1)) {
            Some(n) => Some(n + 1),
            None => None,
        }
    }
}

/// The text of a comment: after `//` what stands before the end of the line
/// or of the input, or after `/*` what stands before the first `*/`. The
/// text may be empty, and may hold any byte.
pub open spec fn comments_inner(s: Seq<u8>) -> Option<(Seq<u8>, Seq<u8>)> {
    match pair(0x2f, 0x2f, s) {
        Some(rest) => Some(take_run(rest, ByteClass::NoneOf(lit("\n\r")))),
        None => match pair(0x2f, 0x2a, s) {
            Some(rest) => match block_end(rest) {
                Some(n) => Some((rest.skip((n + 2) as int), rest.take(n as int))),
                None => None,
            },
            None => None,
        },
    }
}

/// A comment, for its extent alone.
pub open spec fn comments(s: Seq<u8>) -> Option<(Seq<u8>, ())> {
    match comments_inner(s) {
        Some((rest, _)) => Some((rest, ())),
        None => None,
    }
}

/// A name: one or more digits, letters and `_`.
pub open spec fn var_ident(s: Seq<u8>) -> Option<(Seq<u8>, Seq<u8>)> {
    take_run1(s, ByteClass::Word)
}

/// A name that begins with a lower-case letter.
pub open spec fn lc_ident(s: Seq<u8>) -> Option<(Seq<u8>, Seq<u8>)> {
    if s.len() > 0 && is_lower(s[0]) {
        Some(cut(s, 1 + run(s.skip(1), ByteClass::Word)))
    } else {
        None
    }
}

/// A name that begins with an upper-case letter.
pub open spec fn uc_ident(s: Seq<u8>) -> Option<(Seq<u8>, Seq<u8>)> {
    if s.len() > 0 && is_upper(s[0]) {
        Some(cut(s, 1 + run(s.skip(1), ByteClass::Word)))
    } else {
        None
    }
}

/// A namespace and the dot that ends it, with nothing between them.
pub open spec fn namespace(s: Seq<u8>) -> Option<(Seq<u8>, Seq<u8>)> {
    match lc_ident(s) {
        Some((rest, ns)) => match byte(0x2e, rest) {
            Some(rest) => Some((rest, ns)),
            None => None,
        },
        None => None,
    }
}

/// A lower-case name, with a namespace where one is written.
pub open spec fn lc_ident_ns(s: Seq<u8>) -> Option<(Seq<u8>, IdentNsView)> {
    match namespace(s) {
        Some((rest, ns)) => match lc_ident(rest) {
            Some((rest, name)) => Some((rest, IdentNsView { namespace: Some(ns), name })),
            None => None,
        },
        None => match lc_ident(s) {
            Some((rest, name)) => Some((rest, IdentNsView { namespace: None, name })),
            None => None,
        },
    }
}

/// An upper-case name, with a namespace where one is written.
pub open spec fn uc_ident_ns(s: Seq<u8>) -> Option<(Seq<u8>, IdentNsView)> {
    match namespace(s) {
        Some((rest, ns)) => match uc_ident(rest) {
            Some((rest, name)) => Some((rest, IdentNsView { namespace: Some(ns), name })),
            None => None,
        },
        None => match uc_ident(s) {
            Some((rest, name)) => Some((rest, IdentNsView { namespace: None, name })),
            None => None,
        },
    }
}

/// A namespace and its dot, with white space allowed around both.
pub open spec fn spaced_namespace(s: Seq<u8>) -> Option<(Seq<u8>, Seq<u8>)> {
    match lc_ident(ws(s)) {
        Some((rest, ns)) => match tok(0x2e, rest) {
            Some(rest) => Some((rest, ns)),
            None => None,
        },
        None => None,
    }
}

/// A name of either case inside a term, with a namespace where one is
/// written; white space is allowed around each part.
pub open spec fn ident_ns(s: Seq<u8>) -> Option<(Seq<u8>, IdentNsView)> {
    match spaced_namespace(s) {
        Some((rest, ns)) => match trim(var_ident(rest)) {
            Some((rest, name)) => Some((rest, IdentNsView { namespace: Some(ns), name })),
            None => None,
        },
        None => match trim(var_ident(ws(s))) {
            Some((rest, name)) => Some((rest, IdentNsView { namespace: None, name })),
            None => None,
        },
    }
}

/// Whether a byte is a lower-case hexadecimal digit.
pub open spec fn is_hex(b: u8) -> bool {
    is_digit(b) || 0x61 <= b <= 0x66
}

/// The value of a hexadecimal digit.
pub open spec fn hex_digit(b: u8) -> nat {
    if is_digit(b) {
        (b - 0x30) as nat
    } else {
        (b - 0x61 + 10) as nat
    }
}

/// The number that eight hexadecimal digits spell.
pub open spec fn hex8_value(s: Seq<u8>) -> nat {
    hex_digit(s[0]) * 0x1000_0000 + hex_digit(s[1]) * 0x100_0000 + hex_digit(s[2]) * 0x10_0000
        + hex_digit(s[3]) * 0x1_0000 + hex_digit(s[4]) * 0x1000 + hex_digit(s[5]) * 0x100
        + hex_digit(s[6]) * 0x10 + hex_digit(s[7])
}

/// Exactly eight lower-case hexadecimal digits, as a number.
pub open spec fn hex8(s: Seq<u8>) -> Option<(Seq<u8>, u32)> {
    if s.len() >= 8 && (forall|i: int| 0 <= i < 8 ==> is_hex(#[trigger] s[i])) {
        Some((s.skip(8), hex8_value(s) as u32))
    } else {
        None
    }
}

/// An explicit id: `#` and eight hexadecimal digits.
pub open spec fn explicit_id(s: Seq<u8>) -> Option<(Seq<u8>, u32)> {
    match tok(0x23, s) {
        Some(rest) => trim(hex8(rest)),
        None => None,
    }
}

/// The name that opens a declaration, and its explicit id where one
/// follows.
pub open spec fn lc_ident_full(s: Seq<u8>) -> Option<(Seq<u8>, (IdentNsView, Option<u32>))> {
    match trim(lc_ident_ns(ws(s))) {
        Some((rest, ident)) => match explicit_id(rest) {
            Some((rest, id)) => Some((rest, (ident, Some(id)))),
            None => Some((rest, (ident, None))),
        },
        None => None,
    }
}

/// A decimal number that is at most `max`, with white space on both sides.
pub open spec fn number(s: Seq<u8>, max: nat) -> Option<(Seq<u8>, nat)> {
    match take_run1(ws(s), ByteClass::Digit) {
        Some((rest, digits)) => if dec_value(digits) <= max {
            Some((ws(rest), dec_value(digits)))
        } else {
            None
        },
        None => None,
    }
}

// ---------------------------------------------------------------------------
// Terms
// ---------------------------------------------------------------------------

/// A term: a number where the input begins with a digit, else a type term.
pub open spec fn term(s: Seq<u8>) -> Option<(Seq<u8>, TermView)>
    decreases s.len(), 1int,
{
    match type_term(s) {
        Some((rest, t)) => Some((ws(rest), t)),
        None => match number(s, u32::MAX as nat) {
            Some((rest, n)) => Some((rest, TermView::NatConst(n as u32))),
            None => None,
        },
    }
}

/// Whether the input begins with a digit.
pub open spec fn begins_with_digit(s: Seq<u8>) -> bool {
    s.len() > 0 && is_digit(s[0])
}

/// A type term. The forms are tried in this order, and the first that
/// matches is taken: a generic application `name<a, b>`, a name, a group in
/// parentheses, the marker `#`, and `%` before a term. What begins with a
/// digit is a number and no type term.
pub open spec fn type_term(s: Seq<u8>) -> Option<(Seq<u8>, TermView)>
    decreases s.len(), 0int,
{
    if begins_with_digit(ws(s)) {
        None
    } else {
        let applied = match ident_ns(s) {
            Some((rest, identns)) => if rest.len() < s.len() {
                match angle_terms(rest) {
                    Some((rest, (term, terms))) => Some(
                        (rest, TermView::Ang { identns, term: Box::new(term), terms }),
                    ),
                    None => None,
                }
            } else {
                None
            },
            None => None,
        };
        if applied is Some {
            applied
        } else if ident_ns(s) is Some {
            match ident_ns(s) {
                Some((rest, identns)) => Some((rest, TermView::IdentNs(identns))),
                None => None,
            }
        } else if tok(0x28, s) is Some {
            let rest = tok(0x28, s)->0;
            if rest.len() < s.len() {
                let (rest, terms) = terms0(rest);
                match tok(0x29, rest) {
                    Some(rest) => if terms.len() > 0 {
                        Some((rest, TermView::Par(terms)))
                    } else {
                        None
                    },
                    None => None,
                }
            } else {
                None
            }
        } else if tok(0x23, s) is Some {
            Some((tok(0x23, s)->0, TermView::Nat))
        } else {
            match tok(0x25, s) {
                Some(rest) => if rest.len() < s.len() {
                    match term(rest) {
                        Some((rest, t)) => Some((rest, TermView::Percent(Box::new(t)))),
                        None => None,
                    }
                } else {
                    None
                },
                None => None,
            }
        }
    }
}

/// The arguments of a generic application: `<`, a term, further terms
/// after a comma each, and `>`.
pub open spec fn angle_terms(s: Seq<u8>) -> Option<(Seq<u8>, (TermView, Seq<TermView>))>
    decreases s.len(), 4int,
{
    match tok(0x3c, s) {
        Some(rest) => if rest.len() < s.len() {
            match term(rest) {
                Some((rest, first)) => if rest.len() < s.len() {
                    let (rest, more) = comma_terms(rest);
                    match tok(0x3e, rest) {
                        Some(rest) => Some((rest, (first, more))),
                        None => None,
                    }
                } else {
                    None
                },
                None => None,
            }
        } else {
            None
        },
        None => None,
    }
}

/// As many terms as follow, each after a comma.
pub open spec fn comma_terms(s: Seq<u8>) -> (Seq<u8>, Seq<TermView>)
    decreases s.len(), 3int,
{
    match tok(0x2c, s) {
        Some(rest) => if rest.len() < s.len() {
            match term(rest) {
                Some((rest, t)) => if rest.len() < s.len() {
                    let (rest, ts) = comma_terms(rest);
                    (rest, seq![t] + ts)
                } else {
                    (s, seq![])
                },
                None => (s, seq![]),
            }
        } else {
            (s, seq![])
        },
        None => (s, seq![]),
    }
}

/// As many terms as follow.
pub open spec fn terms0(s: Seq<u8>) -> (Seq<u8>, Seq<TermView>)
    decreases s.len(), 2int,
{
    match term(s) {
        Some((rest, t)) => if rest.len() < s.len() {
            let (rest, ts) = terms0(rest);
            (rest, seq![t] + ts)
        } else {
            (s, seq![])
        },
        None => (s, seq![]),
    }
}

// ---------------------------------------------------------------------------
// Arguments
// ---------------------------------------------------------------------------

/// A name with white space on both sides.
pub open spec fn name(s: Seq<u8>) -> Option<(Seq<u8>, Seq<u8>)> {
    trim(var_ident(ws(s)))
}

/// As many names as follow.
pub open spec fn names0(s: Seq<u8>) -> (Seq<u8>, Seq<Seq<u8>>)
    decreases s.len(),
{
    match name(s) {
        Some((rest, n)) => if rest.len() < s.len() {
            let (rest, ns) = names0(rest);
            (rest, seq![n] + ns)
        } else {
            (s, seq![])
        },
        None => (s, seq![]),
    }
}

/// `!` where it is written.
pub open spec fn bang(s: Seq<u8>) -> (Seq<u8>, bool) {
    match tok(0x21, s) {
        Some(rest) => (rest, true),
        None => (s, false),
    }
}

/// The bit of a condition, `.` and a number, where it is written.
pub open spec fn bit_index(s: Seq<u8>) -> (Seq<u8>, Option<u32>) {
    match tok(0x2e, s) {
        Some(rest) => match number(rest, u32::MAX as nat) {
            Some((rest, n)) => (rest, Some(n as u32)),
            None => (s, None),
        },
        None => (s, None),
    }
}

/// The condition of a field: the name of a flags field, the bit where it
/// is written, and `?`.
pub open spec fn conditional_def(s: Seq<u8>) -> Option<(Seq<u8>, CondView)> {
    match name(s) {
        Some((rest, ident)) => {
            let (rest, index) = bit_index(rest);
            match tok(0x3f, rest) {
                Some(rest) => Some((rest, CondView { ident, index })),
                None => None,
            }
        },
        None => None,
    }
}

/// A group in parentheses: one or more names, `:`, and their type.
pub open spec fn arg_par(s: Seq<u8>) -> Option<(Seq<u8>, ArgView)> {
    match tok(0x28, s) {
        Some(rest) => match name(rest) {
            Some((rest, ident)) => {
                let (rest, idents) = names0(rest);
                match tok(0x3a, rest) {
                    Some(rest) => {
                        let (rest, excl) = bang(rest);
                        match term(rest) {
                            Some((rest, term)) => match tok(0x29, rest) {
                                Some(rest) => Some(
                                    (rest, ArgView::Par { ident, idents, excl, term }),
                                ),
                                None => None,
                            },
                            None => None,
                        }
                    },
                    None => None,
                }
            },
            None => None,
        },
        None => None,
    }
}

/// The name of a repeated block, `name :`, where it is written.
pub open spec fn block_name(s: Seq<u8>) -> (Seq<u8>, Option<Seq<u8>>) {
    match name(s) {
        Some((rest, n)) => match tok(0x3a, rest) {
            Some(rest) => (rest, Some(n)),
            None => (s, None),
        },
        None => (s, None),
    }
}

/// The multiplicity of a repeated block, `count *`, where it is written.
pub open spec fn multiplicity(s: Seq<u8>) -> (Seq<u8>, Option<i32>) {
    match number(s, i32::MAX as nat) {
        Some((rest, n)) => match tok(0x2a, rest) {
            Some(rest) => (rest, Some(n as i32)),
            None => (s, None),
        },
        None => (s, None),
    }
}

/// A repeated block: a name and a multiplicity where they are written,
/// then one or more arguments in square brackets.
pub open spec fn arg_brack(s: Seq<u8>) -> Option<(Seq<u8>, ArgView)>
    decreases s.len(), 0int,
{
    let (rest, ident) = block_name(s);
    let (rest, mult) = multiplicity(rest);
    match tok(0x5b, rest) {
        Some(rest) => if rest.len() < s.len() {
            let (rest, args) = args0(rest);
            match tok(0x5d, rest) {
                Some(rest) => if args.len() > 0 {
                    Some((rest, ArgView::Brack { ident, mult, args }))
                } else {
                    None
                },
                None => None,
            }
        } else {
            None
        },
        None => None,
    }
}

/// The condition of a field, where it is written.
pub open spec fn condition(s: Seq<u8>) -> (Seq<u8>, Option<CondView>) {
    match conditional_def(s) {
        Some((rest, c)) => (rest, Some(c)),
        None => (s, None),
    }
}

/// A named field: a name, `:`, a condition where one is written, and a
/// type term.
pub open spec fn arg_cond(s: Seq<u8>) -> Option<(Seq<u8>, ArgView)> {
    match name(s) {
        Some((rest, ident)) => match tok(0x3a, rest) {
            Some(rest) => {
                let (rest, cond) = condition(rest);
                let (rest, excl) = bang(rest);
                match trim(type_term(rest)) {
                    Some((rest, term)) => Some((rest, ArgView::Cond { ident, cond, excl, term })),
                    None => None,
                }
            },
            None => None,
        },
        None => None,
    }
}

/// An unnamed field: a term alone.
pub open spec fn arg_single(s: Seq<u8>) -> Option<(Seq<u8>, ArgView)> {
    let (rest, excl) = bang(s);
    match term(rest) {
        Some((rest, term)) => Some((rest, ArgView::Single { excl, term })),
        None => None,
    }
}

/// A field argument. The forms are tried in this order, and the first that
/// matches is taken: a group in parentheses, a repeated block, a named
/// field, an unnamed field.
pub open spec fn arg(s: Seq<u8>) -> Option<(Seq<u8>, ArgView)>
    decreases s.len(), 1int,
{
    if arg_par(s) is Some {
        arg_par(s)
    } else if arg_brack(s) is Some {
        arg_brack(s)
    } else if arg_cond(s) is Some {
        arg_cond(s)
    } else {
        arg_single(s)
    }
}

/// As many field arguments as follow.
pub open spec fn args0(s: Seq<u8>) -> (Seq<u8>, Seq<ArgView>)
    decreases s.len(), 2int,
{
    match arg(s) {
        Some((rest, a)) => if rest.len() < s.len() {
            let (rest, more) = args0(rest);
            (rest, seq![a] + more)
        } else {
            (s, seq![])
        },
        None => (s, seq![]),
    }
}

/// A generic or optional parameter: in braces one or more names, `:`, and
/// one or more terms.
pub open spec fn opt_arg(s: Seq<u8>) -> Option<(Seq<u8>, OptArgView)> {
    match tok(0x7b, s) {
        Some(rest) => match name(rest) {
            Some((rest, ident)) => {
                let (rest, idents) = names0(rest);
                match tok(0x3a, rest) {
                    Some(rest) => {
                        let (rest, excl) = bang(rest);
                        let (rest, terms) = terms0(rest);
                        match tok(0x7d, rest) {
                            Some(rest) => if terms.len() > 0 {
                                Some((rest, OptArgView { ident, idents, excl, terms }))
                            } else {
                                None
                            },
                            None => None,
                        }
                    },
                    None => None,
                }
            },
            None => None,
        },
        None => None,
    }
}

/// As many parameters as follow.
pub open spec fn opt_args0(s: Seq<u8>) -> (Seq<u8>, Seq<OptArgView>)
    decreases s.len(),
{
    match opt_arg(s) {
        Some((rest, a)) => if rest.len() < s.len() {
            let (rest, more) = opt_args0(rest);
            (rest, seq![a] + more)
        } else {
            (s, seq![])
        },
        None => (s, seq![]),
    }
}

// ---------------------------------------------------------------------------
// Declarations
// ---------------------------------------------------------------------------

/// A result type: an upper-case name and its arguments, in angle brackets
/// where they are written so, else as the terms that follow.
pub open spec fn result_type(s: Seq<u8>) -> Option<(Seq<u8>, ResTypeView)> {
    match trim(uc_ident_ns(ws(s))) {
        Some((rest, identns)) => match angle_terms(rest) {
            Some((rest, (term, terms))) => Some((rest, ResTypeView::Ang { identns, term, terms })),
            None => {
                let (rest, terms) = terms0(rest);
                Some((rest, ResTypeView::Normal { identns, terms }))
            },
        },
        None => None,
    }
}

/// A constructor or function declaration: a name with its id, parameters,
/// field arguments, `=`, the result type and `;`.
pub open spec fn combinator_declaration(s: Seq<u8>) -> Option<(Seq<u8>, CombinatorView)> {
    match lc_ident_full(s) {
        Some((rest, (identns, id))) => {
            let (rest, opt_args) = opt_args0(rest);
            let (rest, args) = args0(rest);
            match tok(0x3d, rest) {
                Some(rest) => match result_type(rest) {
                    Some((rest, res)) => match tok(0x3b, rest) {
                        Some(rest) => Some(
                            (rest, CombinatorView { identns, id, opt_args, args, res }),
                        ),
                        None => None,
                    },
                    None => None,
                },
                None => None,
            }
        },
        None => None,
    }
}

/// The declaration of a primitive: a name with its id, `?`, `=`, an
/// upper-case name and `;`.
pub open spec fn builtin_declaration(s: Seq<u8>) -> Option<(Seq<u8>, BuiltinView)> {
    match lc_ident_full(s) {
        Some((rest, (identns, id))) => match tok(0x3f, rest) {
            Some(rest) => match tok(0x3d, rest) {
                Some(rest) => match trim(uc_ident_ns(rest)) {
                    Some((rest, res)) => match tok(0x3b, rest) {
                        Some(rest) => Some((rest, BuiltinView { identns, id, res })),
                        None => None,
                    },
                    None => None,
                },
                None => None,
            },
            None => None,
        },
        None => None,
    }
}

/// A fixed word with white space on both sides.
pub open spec fn spaced(t: Seq<u8>, s: Seq<u8>) -> Option<Seq<u8>> {
    match tag(t, ws(s)) {
        Some((rest, _)) => Some(ws(rest)),
        None => None,
    }
}

/// A separator line, `--- word ---`.
pub open spec fn separator(word: Seq<u8>, s: Seq<u8>) -> Option<Seq<u8>> {
    match spaced(lit("---"), s) {
        Some(rest) => match spaced(word, rest) {
            Some(rest) => spaced(lit("---"), rest),
            None => None,
        },
        None => None,
    }
}

/// The line that opens a section of constructors.
pub open spec fn constr_sep(s: Seq<u8>) -> Option<(Seq<u8>, Section)> {
    match separator(lit("types"), s) {
        Some(rest) => Some((rest, Section::Types)),
        None => None,
    }
}

/// The line that opens a section of functions.
pub open spec fn func_sep(s: Seq<u8>) -> Option<(Seq<u8>, Section)> {
    match separator(lit("functions"), s) {
        Some(rest) => Some((rest, Section::Function)),
        None => None,
    }
}

/// What is left after as many comments as follow.
pub open spec fn comments0(s: Seq<u8>) -> Seq<u8>
    decreases s.len(),
{
    match trim(comments(ws(s))) {
        Some((rest, _)) => if rest.len() < s.len() {
            comments0(rest)
        } else {
            s
        },
        None => s,
    }
}

/// One declaration of a section, with the comments around it. A
/// declaration of a primitive is one whatever the section.
pub open spec fn item(section: Section, s: Seq<u8>) -> Option<(Seq<u8>, DeclarationView)> {
    let start = comments0(s);
    match combinator_declaration(start) {
        Some((rest, d)) => Some(
            (
                comments0(rest),
                match section {
                    Section::Types => DeclarationView::Constr(d),
                    Section::Function => DeclarationView::Fun(d),
                },
            ),
        ),
        None => match builtin_declaration(start) {
            Some((rest, d)) => Some((comments0(rest), DeclarationView::Builtin(d))),
            None => None,
        },
    }
}

/// As many declarations of a section as follow.
pub open spec fn items0(section: Section, s: Seq<u8>) -> (Seq<u8>, Seq<DeclarationView>)
    decreases s.len(),
{
    match item(section, s) {
        Some((rest, d)) => if rest.len() < s.len() {
            let (rest, more) = items0(section, rest);
            (rest, seq![d] + more)
        } else {
            (s, seq![])
        },
        None => (s, seq![]),
    }
}

/// Whether a separator matched and at least one declaration of its section
/// follows it.
pub open spec fn opens_block(sep: Option<(Seq<u8>, Section)>) -> bool {
    match sep {
        Some((rest, section)) => items0(section, rest).1.len() > 0,
        None => false,
    }
}

/// The separator that opens a block, of functions or else of constructors.
pub open spec fn block_sep(s: Seq<u8>) -> Option<(Seq<u8>, Section)> {
    if opens_block(func_sep(s)) {
        func_sep(s)
    } else if opens_block(constr_sep(s)) {
        constr_sep(s)
    } else {
        None
    }
}

/// A block: a separator and the one or more declarations of its section.
pub open spec fn block(s: Seq<u8>) -> Option<(Seq<u8>, Seq<DeclarationView>)> {
    match block_sep(s) {
        Some((rest, section)) => Some(items0(section, rest)),
        None => None,
    }
}

/// As many blocks as follow: what is left, their declarations, and how
/// many blocks there were.
pub open spec fn blocks0(s: Seq<u8>) -> (Seq<u8>, Seq<DeclarationView>, nat)
    decreases s.len(),
{
    match block(s) {
        Some((rest, ds)) => if rest.len() < s.len() {
            let (rest, more, n) = blocks0(rest);
            (rest, ds + more, n + 1)
        } else {
            (s, seq![], 0)
        },
        None => (s, seq![], 0),
    }
}

/// The declarations of a whole document: constructors, then one or more
/// blocks, up to the end of the input. Where the text does not go on as a
/// document does, the error is the number of bytes that were read as
/// declarations and blocks before that place.
pub open spec fn tl_program(s: Seq<u8>) -> Result<Seq<DeclarationView>, nat> {
    let (rest, leading) = items0(Section::Types, s);
    let (rest, more, blocks) = blocks0(rest);
    if blocks > 0 && ws(rest).len() == 0 {
        Ok(leading + more)
    } else {
        Err((s.len() - rest.len()) as nat)
    }
}

/// The declarations sorted into functions, constructors and primitives,
/// each kind in the order of the text.
pub open spec fn sorted_out(ds: Seq<DeclarationView>) -> SchemaView
    decreases ds.len(),
{
    if ds.len() == 0 {
        SchemaView { funcs: seq![], constrs: seq![], builtin: seq![] }
    } else {
        let before = sorted_out(ds.drop_last());
        match ds.last() {
            DeclarationView::Fun(d) => SchemaView { funcs: before.funcs.push(d), ..before },
            DeclarationView::Constr(d) => SchemaView { constrs: before.constrs.push(d), ..before },
            DeclarationView::Builtin(d) => SchemaView { builtin: before.builtin.push(d), ..before },
        }
    }
}

/// The schema that a document spells, or the place where it stops being
/// one.
pub open spec fn schema(s: Seq<u8>) -> Result<SchemaView, nat> {
    match tl_program(s) {
        Ok(ds) => Ok(sorted_out(ds)),
        Err(at) => Err(at),
    }
}

} // verus!

//! How schema names are spelled in generated code.

use vstd::prelude::*;
use crate::text::{
    is_text, is_upper, lit, lower, put, put_bytes, text, to_lower, to_upper, to_vec, upper,
};
use crate::types::{IdentNs, IdentNsView, ResType};

verus! {

/// Whether a name is a word that generated code must not use bare.
pub open spec fn is_keyword(ty: Seq<u8>) -> bool {
    ty == lit("final") || ty == lit("async") || ty == lit("impl") || ty == lit("fn") || ty == lit(
        "pub",
    ) || ty == lit("mut") || ty == lit("let") || ty == lit("type") || ty == lit("loop") || ty
        == lit("while") || ty == lit("for") || ty == lit("static")
}

/// A field name as generated code spells it: a keyword gets `r#` in front,
/// `self` becomes `_self`, any other name stays.
pub open spec fn escaped(ty: Seq<u8>) -> Seq<u8> {
    if is_keyword(ty) {
        lit("r#") + ty
    } else if ty == lit("self") {
        lit("_self")
    } else {
        ty
    }
}

/// Spells a field name so that generated code can use it.
pub fn escape_builtin_kw(ty: &[u8]) -> (r: Vec<u8>)
    ensures
        r@ == escaped(ty@),
{
    if is_text(ty, "final") || is_text(ty, "async") || is_text(ty, "impl") || is_text(ty, "fn")
        || is_text(ty, "pub") || is_text(ty, "mut") || is_text(ty, "let") || is_text(ty, "type")
        || is_text(ty, "loop") || is_text(ty, "while") || is_text(ty, "for") || is_text(
        ty,
        "static",
    ) {
        let mut s = text("r#");
        put_bytes(&mut s, ty);
        s
    } else if is_text(ty, "self") {
        text("_self")
    } else {
        to_vec(ty)
    }
}

/// The native type that stands for a primitive of the schema language.
pub open spec fn builtin(ty: Seq<u8>) -> Option<Seq<u8>> {
    if ty == lit("int") {
        Some(lit("i32"))
    } else if ty == lit("long") {
        Some(lit("i64"))
    } else if ty == lit("double") {
        Some(lit("f64"))
    } else if ty == lit("string") {
        Some(lit("String"))
    } else if ty == lit("bytes") {
        Some(lit("Vec<u8>"))
    } else {
        None
    }
}

/// The native type that stands for a primitive of the schema language,
/// where the name is one.
pub fn builtin_type(ty: &[u8]) -> (r: Option<&'static str>)
    ensures
        match r {
            Some(s) => builtin(ty@) == Some(lit(s)),
            None => builtin(ty@) is None,
        },
{
    if is_text(ty, "int") {
        Some("i32")
    } else if is_text(ty, "long") {
        Some("i64")
    } else if is_text(ty, "double") {
        Some("f64")
    } else if is_text(ty, "string") {
        Some("String")
    } else if is_text(ty, "bytes") {
        Some("Vec<u8>")
    } else {
        None
    }
}

/// What is done to the next letter of a name.
pub enum Case {
    Upper,
    Lower,
    Preserve,
}

/// What is done to the letter after `b`.
pub open spec fn after(b: u8) -> Case {
    if is_upper(b) {
        Case::Lower
    } else {
        Case::Preserve
    }
}

/// A name in camel case, from the given state on. `_` is dropped and the
/// letter after it becomes upper case; after an upper-case letter the next
/// one becomes lower case; other bytes stay.
pub open spec fn cased(s: Seq<u8>, case: Case) -> Seq<u8>
    decreases s.len(),
{
    if s.len() == 0 {
        Seq::empty()
    } else if s[0] == 0x5f {
        cased(s.skip(1), Case::Upper)
    } else {
        match case {
            Case::Upper => seq![upper(s[0])] + cased(s.skip(1), Case::Lower),
            Case::Lower => seq![lower(s[0])] + cased(s.skip(1), after(s[0])),
            Case::Preserve => seq![s[0]] + cased(s.skip(1), after(s[0])),
        }
    }
}

/// A name in camel case holds no `_`.
pub proof fn lemma_cased_has_no_underscore(s: Seq<u8>, case: Case)
    ensures
        !cased(s, case).contains(0x5f),
    decreases s.len(),
{
    if s.len() > 0 {
        let rest = s.skip(1);
        lemma_cased_has_no_underscore(rest, Case::Upper);
        lemma_cased_has_no_underscore(rest, Case::Lower);
        lemma_cased_has_no_underscore(rest, Case::Preserve);
        if s[0] != 0x5f {
            let out = cased(s, case);
            assert forall|i: int| 0 <= i < out.len() implies out[i] != 0x5f by {
                if i > 0 {
                    let tail = out.skip(1);
                    assert(tail[i - 1] == out[i]);
                    assert(tail =~= cased(
                        rest,
                        match case {
                            Case::Upper => Case::Lower,
                            _ => after(s[0]),
                        },
                    ));
                }
            }
        }
    }
}

/// The name of the type that generated code has for a schema name: the name
/// in camel case, beginning with an upper-case letter.
pub open spec fn camel(name: Seq<u8>) -> Seq<u8> {
    cased(name, Case::Upper)
}

/// The path of that type from the module of its kind: its namespace, where
/// it has one, and its name.
pub open spec fn path(ident: IdentNsView) -> Seq<u8> {
    match ident.namespace {
        Some(n) => n + lit("::") + camel(ident.name),
        None => camel(ident.name),
    }
}

/// What generated code calls the type of a schema name.
pub trait Rustifiable {
    spec fn name_text(&self) -> Seq<u8>;

    spec fn path_text(&self) -> Seq<u8>;

    fn rust_name(&self) -> (r: Vec<u8>)
        ensures
            r@ == self.name_text(),
    ;

    fn rust_path(&self) -> (r: Vec<u8>)
        ensures
            r@ == self.path_text(),
    ;
}

impl Rustifiable for IdentNs {
    open spec fn name_text(&self) -> Seq<u8> {
        camel(self.name@)
    }

    open spec fn path_text(&self) -> Seq<u8> {
        path(self@)
    }

    fn rust_name(&self) -> (r: Vec<u8>) {
        let name = self.name.as_slice();
        let mut res: Vec<u8> = Vec::with_capacity(name.len());
        let mut case = Case::Upper;
        let mut i: usize = 0;
        assert(name@.skip(0) =~= name@);
        while i < name.len()
            invariant
                i <= name@.len(),
                camel(name@) == res@ + cased(name@.skip(i as int), case),
            decreases name@.len() - i,
        {
            let c = name[i];
            proof {
                let rest = name@.skip(i as int);
                assert(rest[0] == c);
                assert(rest.skip(1) =~= name@.skip(i + 1));
            }
            let ghost before = res@;
            let ghost tail = name@.skip(i + 1);
            if c == 0x5f {
                case = Case::Upper;
            } else {
                match case {
                    Case::Upper => {
                        res.push(to_upper(c));
                        assert(before + (seq![upper(c)] + cased(tail, Case::Lower)) =~= res@
                            + cased(tail, Case::Lower));
                        case = Case::Lower;
                    },
                    Case::Lower => {
                        res.push(to_lower(c));
                        assert(before + (seq![lower(c)] + cased(tail, after(c))) =~= res@ + cased(
                            tail,
                            after(c),
                        ));
                        case = if 0x41 <= c && c <= 0x5a {
                            Case::Lower
                        } else {
                            Case::Preserve
                        };
                    },
                    Case::Preserve => {
                        res.push(c);
                        assert(before + (seq![c] + cased(tail, after(c))) =~= res@ + cased(
                            tail,
                            after(c),
                        ));
                        case = if 0x41 <= c && c <= 0x5a {
                            Case::Lower
                        } else {
                            Case::Preserve
                        };
                    },
                }
            }
            i += 1;
        }
        assert(res@ + Seq::<u8>::empty() =~= res@);
        res
    }

    fn rust_path(&self) -> (r: Vec<u8>) {
        match &self.namespace {
            Some(n) => {
                let mut out = to_vec(n.as_slice());
                put(&mut out, "::");
                let name = self.rust_name();
                put_bytes(&mut out, name.as_slice());
                out
            },
            None => self.rust_name(),
        }
    }
}

impl Rustifiable for ResType {
    open spec fn name_text(&self) -> Seq<u8> {
        camel(self@.identns().name)
    }

    open spec fn path_text(&self) -> Seq<u8> {
        path(self@.identns())
    }

    fn rust_name(&self) -> (r: Vec<u8>) {
        match self {
            ResType::Normal(n) => n.identns.rust_name(),
            ResType::Ang(a) => a.identns.rust_name(),
        }
    }

    fn rust_path(&self) -> (r: Vec<u8>) {
        match self {
            ResType::Normal(n) => n.identns.rust_path(),
            ResType::Ang(a) => a.identns.rust_path(),
        }
    }
}

} // verus!

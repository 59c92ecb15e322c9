//! The id of a declaration that has none written: the CRC-32 of the
//! declaration's canonical text.

use vstd::prelude::*;
use crate::text::{
    bytes_of, concat, decimal, is_text, join, joined, lemma_lines_push, lines, lit, put,
    put_bytes, put_decimal, starts_with, text, to_vec,
};
use crate::types::{
    args_view, names_view, opt_args_view, terms_view, Arg, ArgView, CombinatorDecl,
    CombinatorView, IdentNs, IdentNsView, OptArg, OptArgView, ResType, ResTypeView, Term,
    TermView,
};

verus! {

// ---------------------------------------------------------------------------
// CRC-32
// ---------------------------------------------------------------------------

/// A CRC register after `k` more shifts. A shift moves the register one bit
/// to the right and, where a one fell out, adds the polynomial `0xedb88320`.
pub open spec fn shifted(crc: u32, k: nat) -> u32
    decreases k,
{
    if k == 0 {
        crc
    } else {
        let c = shifted(crc, (k - 1) as nat);
        if c & 1 == 1 {
            (c >> 1) ^ 0xedb8_8320
        } else {
            c >> 1
        }
    }
}

/// The CRC register after all bytes of `s`, from a register of all ones.
pub open spec fn crc_register(s: Seq<u8>) -> u32
    decreases s.len(),
{
    if s.len() == 0 {
        0xffff_ffff
    } else {
        shifted(crc_register(s.drop_last()) ^ (s.last() as u32), 8)
    }
}

/// The CRC-32 of a byte string, as Ethernet and zlib define it: the
/// reflected polynomial `0xedb88320`, a register that starts as all ones, and
/// the result inverted.
pub open spec fn crc32(s: Seq<u8>) -> u32 {
    crc_register(s) ^ 0xffff_ffff
}

/// Computes the CRC-32 of a byte string.
pub fn crc32_of(bytes: &[u8]) -> (r: u32)
    ensures
        r == crc32(bytes@),
{
    let mut crc: u32 = 0xffff_ffff;
    let mut i: usize = 0;
    assert(bytes@.take(0) =~= Seq::empty());
    while i < bytes.len()
        invariant
            i <= bytes@.len(),
            crc == crc_register(bytes@.take(i as int)),
        decreases bytes@.len() - i,
    {
        let ghost start = crc ^ (bytes@[i as int] as u32);
        let mut c: u32 = crc ^ (bytes[i] as u32);
        let mut k: u8 = 0;
        while k < 8
            invariant
                k <= 8,
                c == shifted(start, k as nat),
            decreases 8 - k,
        {
            c = if c & 1 == 1 {
                (c >> 1) ^ 0xedb8_8320
            } else {
                c >> 1
            };
            k += 1;
        }
        proof {
            assert(bytes@.take(i + 1).drop_last() =~= bytes@.take(i as int));
            assert(bytes@.take(i + 1).last() == bytes@[i as int]);
        }
        crc = c;
        i += 1;
    }
    assert(bytes@.take(i as int) =~= bytes@);
    crc ^ 0xffff_ffff
}

// ---------------------------------------------------------------------------
// Canonical text
// ---------------------------------------------------------------------------

/// A name as schema text writes it, `ns.name` or `name`.
pub open spec fn ident_text(ident: IdentNsView) -> Seq<u8> {
    match ident.namespace {
        Some(n) => n + lit(".") + ident.name,
        None => ident.name,
    }
}

/// `!` where it was written.
pub open spec fn excl_text(excl: bool) -> Seq<u8> {
    if excl {
        lit("!")
    } else {
        Seq::empty()
    }
}

/// A count in decimal digits, with `-` in front where it is negative.
pub open spec fn count_text(n: i32) -> Seq<u8> {
    if n >= 0 {
        decimal(n as nat)
    } else {
        lit("-") + decimal((-n) as nat)
    }
}

/// Each term of a list in its canonical text.
pub open spec fn term_texts(ts: Seq<TermView>) -> Seq<Seq<u8>>
    decreases ts, 1int,
{
    Seq::new(
        ts.len(),
        |i: int|
            if 0 <= i < ts.len() {
                term_text(ts[i])
            } else {
                Seq::empty()
            },
    )
}

/// The canonical text of a term. A generic application stands without its
/// angle brackets: the name, a space, and the arguments with commas.
pub open spec fn term_text(t: TermView) -> Seq<u8>
    decreases t, 0int,
{
    match t {
        TermView::Par(ts) => lit("(") + joined(term_texts(ts), lit(" ")) + lit(")"),
        TermView::IdentNs(ident) => ident_text(ident),
        TermView::Nat => lit("#"),
        TermView::NatConst(n) => decimal(n as nat),
        TermView::Percent(p) => lit("%") + term_text(*p),
        TermView::Ang { identns, term, terms } => ident_text(identns) + lit(" ") + joined(
            seq![term_text(*term)] + term_texts(terms),
            lit(","),
        ),
    }
}

/// Whether a term is the given name, written without a namespace.
pub open spec fn is_name(t: TermView, name: Seq<u8>) -> bool {
    t == TermView::IdentNs(IdentNsView { namespace: None, name })
}

/// Whether a name is `flags` or `flags` with digits after it.
pub open spec fn is_flags_name(s: Seq<u8>) -> bool {
    lit("flags").is_prefix_of(s) && forall|i: int|
        lit("flags").len() <= i < s.len() ==> 0x30 <= #[trigger] s[i] <= 0x39
}

/// Whether a field is a bare flag: a field of the type `true` under a bit
/// of a flags field of the name `flags`. Such a field has no part in the
/// canonical text.
pub open spec fn is_true_flag(a: ArgView) -> bool {
    a matches ArgView::Cond { cond: Some(c), excl, term, .. } && !excl && c.index is Some
        && is_flags_name(c.ident) && is_name(term, lit("true"))
}

/// The type of a named field in canonical text: `string` for `bytes`, else
/// the term as it is.
pub open spec fn field_text(excl: bool, term: TermView) -> Seq<u8> {
    if !excl && is_name(term, lit("bytes")) {
        lit("string")
    } else {
        excl_text(excl) + term_text(term)
    }
}

/// What each field argument of a list adds to canonical text: a space and
/// its text, or nothing for a bare flag.
pub open spec fn arg_parts(args: Seq<ArgView>) -> Seq<Seq<u8>>
    decreases args, 1int,
{
    Seq::new(
        args.len(),
        |i: int|
            if 0 <= i < args.len() {
                if is_true_flag(args[i]) {
                    Seq::empty()
                } else {
                    lit(" ") + arg_text(args[i])
                }
            } else {
                Seq::empty()
            },
    )
}

/// The text of a condition: the flags field, `.` and the bit where one was
/// written, and `?`.
pub open spec fn cond_text(c: crate::types::CondView) -> Seq<u8> {
    c.ident + (match c.index {
        Some(n) => lit(".") + decimal(n as nat),
        None => Seq::empty(),
    }) + lit("?")
}

/// The canonical text of a field argument.
pub open spec fn arg_text(a: ArgView) -> Seq<u8>
    decreases a, 0int,
{
    match a {
        ArgView::Par { ident, idents, excl, term } => lit("(") + joined(
            seq![ident] + idents,
            lit(" "),
        ) + lit(":") + excl_text(excl) + term_text(term) + lit(")"),
        ArgView::Brack { ident, mult, args } => (match ident {
            Some(n) => n + lit(":"),
            None => Seq::empty(),
        }) + (match mult {
            Some(n) => count_text(n) + lit("*"),
            None => Seq::empty(),
        }) + lit("[") + concat(arg_parts(args)) + lit(" ]"),
        ArgView::Cond { ident, cond, excl, term } => ident + lit(":") + (match cond {
            Some(c) => cond_text(c),
            None => Seq::empty(),
        }) + field_text(excl, term),
        ArgView::Single { excl, term } => excl_text(excl) + term_text(term),
    }
}

/// The canonical text of a parameter: its names, `:` and its type, without
/// the braces.
pub open spec fn opt_arg_text(o: OptArgView) -> Seq<u8> {
    joined(seq![o.ident] + o.idents, lit(" ")) + lit(":") + excl_text(o.excl) + joined(
        term_texts(o.terms),
        lit(" "),
    )
}

/// What each parameter of a list adds to canonical text: a space and its
/// text.
pub open spec fn opt_arg_parts(os: Seq<OptArgView>) -> Seq<Seq<u8>> {
    Seq::new(os.len(), |i: int| lit(" ") + opt_arg_text(os[i]))
}

/// The canonical text of a result type. One in angle brackets stands
/// without them: the name, a space, and the arguments with commas.
pub open spec fn res_text(r: ResTypeView) -> Seq<u8> {
    match r {
        ResTypeView::Normal { identns, terms } => joined(
            seq![ident_text(identns)] + term_texts(terms),
            lit(" "),
        ),
        ResTypeView::Ang { identns, term, terms } => ident_text(identns) + lit(" ") + joined(
            seq![term_text(term)] + term_texts(terms),
            lit(","),
        ),
    }
}

/// The canonical text of a declaration, from which the protocol derives an
/// id: the name, the parameters and the field arguments with one space
/// before each, ` = `, and the result type. The id and the closing `;` are
/// no part of it; parameters stand without braces and generic applications
/// without angle brackets; a named field of the type `bytes` stands as
/// `string`; bare flags are left out.
pub open spec fn canonical(d: CombinatorView) -> Seq<u8> {
    ident_text(d.identns) + concat(opt_arg_parts(d.opt_args)) + concat(arg_parts(d.args)) + lit(
        " = ",
    ) + res_text(d.res)
}

/// The id that a declaration has where none is written: the CRC-32 of its
/// canonical text.
pub open spec fn derived_id(d: CombinatorView) -> u32 {
    crc32(canonical(d))
}

fn ident_to_text(ident: &IdentNs) -> (r: Vec<u8>)
    ensures
        r@ == ident_text(ident@),
{
    match &ident.namespace {
        Some(n) => {
            let mut out = to_vec(n.as_slice());
            put(&mut out, ".");
            put_bytes(&mut out, ident.name.as_slice());
            out
        },
        None => to_vec(ident.name.as_slice()),
    }
}

fn put_excl(out: &mut Vec<u8>, excl: bool)
    ensures
        final(out)@ == old(out)@ + excl_text(excl),
{
    if excl {
        put(out, "!");
    } else {
        assert(out@ + Seq::<u8>::empty() =~= out@);
    }
}

fn put_count(out: &mut Vec<u8>, n: i32)
    ensures
        final(out)@ == old(out)@ + count_text(n),
{
    if n >= 0 {
        put_decimal(out, n as u64);
    } else {
        put(out, "-");
        put_decimal(out, (-(n as i64)) as u64);
        assert(out@ =~= old(out)@ + count_text(n));
    }
}

/// The names of a list, after a first one, with a space between each two.
fn put_names(out: &mut Vec<u8>, ident: &Vec<u8>, idents: &Vec<Vec<u8>>)
    ensures
        final(out)@ == old(out)@ + joined(seq![ident@] + names_view(idents@), lit(" ")),
{
    let mut all: Vec<Vec<u8>> = Vec::new();
    all.push(to_vec(ident.as_slice()));
    assert(lines(all@) =~= seq![ident@] + names_view(idents@).take(0));
    let mut i: usize = 0;
    while i < idents.len()
        invariant
            i <= idents@.len(),
            lines(all@) == seq![ident@] + names_view(idents@).take(i as int),
        decreases idents@.len() - i,
    {
        let n = to_vec(idents[i].as_slice());
        proof {
            lemma_lines_push(all@, n);
            assert((seq![ident@] + names_view(idents@).take(i as int)).push(n@) =~= seq![ident@]
                + names_view(idents@).take(i + 1));
        }
        all.push(n);
        i += 1;
    }
    assert(names_view(idents@).take(i as int) =~= names_view(idents@));
    let s = join(all.as_slice(), " ");
    put_bytes(out, s.as_slice());
}

/// A first text, where there is one, as a list.
spec fn leading(first: Option<Vec<u8>>) -> Seq<Seq<u8>> {
    match first {
        Some(f) => seq![f@],
        None => Seq::empty(),
    }
}

fn terms_to_texts(first: Option<Vec<u8>>, ts: &Vec<Term>) -> (r: Vec<Vec<u8>>)
    ensures
        lines(r@) == leading(first) + term_texts(terms_view(ts@)),
    decreases ts, 1int,
{
    let ghost head = leading(first);
    let ghost all = term_texts(terms_view(ts@));
    let mut out: Vec<Vec<u8>> = Vec::new();
    if let Some(f) = first {
        out.push(f);
    }
    assert(lines(out@) =~= head + all.take(0));
    let mut i: usize = 0;
    while i < ts.len()
        invariant
            i <= ts@.len(),
            all == term_texts(terms_view(ts@)),
            lines(out@) == head + all.take(i as int),
        decreases ts@.len() - i,
    {
        let t = term_to_text(&ts[i]);
        proof {
            lemma_lines_push(out@, t);
            assert(all[i as int] == term_text(ts@[i as int]@));
            assert((head + all.take(i as int)).push(t@) =~= head + all.take(i + 1));
        }
        out.push(t);
        i += 1;
    }
    assert(all.take(i as int) =~= all);
    out
}

fn term_to_text(t: &Term) -> (r: Vec<u8>)
    ensures
        r@ == term_text(t@),
    decreases t, 0int,
{
    match t {
        Term::Par(ts) => {
            let parts = terms_to_texts(None, ts);
            assert(Seq::<Seq<u8>>::empty() + term_texts(terms_view(ts@)) =~= term_texts(
                terms_view(ts@),
            ));
            let mut out = text("(");
            let s = join(parts.as_slice(), " ");
            put_bytes(&mut out, s.as_slice());
            put(&mut out, ")");
            out
        },
        Term::IdentNs(ident) => ident_to_text(ident),
        Term::Nat => text("#"),
        Term::NatConst(n) => {
            let mut out: Vec<u8> = Vec::new();
            put_decimal(&mut out, *n as u64);
            assert(out@ =~= decimal(*n as nat));
            out
        },
        Term::Percent(p) => {
            let mut out = text("%");
            let inner = term_to_text(p);
            put_bytes(&mut out, inner.as_slice());
            out
        },
        Term::Ang(a) => {
            assert(t@ == a@);
            let mut out = ident_to_text(&a.identns);
            let first = term_to_text(&a.term);
            let parts = terms_to_texts(Some(first), &a.terms);
            put(&mut out, " ");
            let s = join(parts.as_slice(), ",");
            put_bytes(&mut out, s.as_slice());
            out
        },
    }
}

/// Whether a term is the given name, written without a namespace.
fn term_is_name(t: &Term, name: &str) -> (r: bool)
    ensures
        r == is_name(t@, lit(name)),
{
    match t {
        Term::IdentNs(ident) => ident.namespace.is_none() && is_text(ident.name.as_slice(), name),
        _ => false,
    }
}

/// Whether a name is `flags` or `flags` with digits after it.
fn names_flags(s: &[u8]) -> (r: bool)
    ensures
        r == is_flags_name(s@),
{
    let prefix = bytes_of("flags");
    if !starts_with(s, prefix) {
        return false;
    }
    let mut i: usize = prefix.len();
    while i < s.len()
        invariant
            prefix@ == lit("flags"),
            prefix@.len() <= i <= s@.len(),
            forall|j: int| prefix@.len() <= j < i ==> 0x30 <= #[trigger] s@[j] <= 0x39,
        decreases s@.len() - i,
    {
        if s[i] < 0x30 || s[i] > 0x39 {
            return false;
        }
        i += 1;
    }
    true
}

/// Whether a field is a bare flag.
fn arg_is_true_flag(a: &Arg) -> (r: bool)
    ensures
        r == is_true_flag(a@),
{
    match a {
        Arg::Cond(c) => match &c.cond {
            Some(d) => !c.excl && d.index.is_some() && names_flags(d.ident.as_slice())
                && term_is_name(&c.term, "true"),
            None => false,
        },
        _ => false,
    }
}

/// What the field arguments of a list add to canonical text.
fn args_to_text(args: &Vec<Arg>) -> (r: Vec<u8>)
    ensures
        r@ == concat(arg_parts(args_view(args@))),
    decreases args, 1int,
{
    let ghost all = arg_parts(args_view(args@));
    let mut out: Vec<u8> = Vec::new();
    assert(all.take(0) =~= Seq::empty());
    let mut i: usize = 0;
    while i < args.len()
        invariant
            i <= args@.len(),
            all == arg_parts(args_view(args@)),
            out@ == concat(all.take(i as int)),
        decreases args@.len() - i,
    {
        proof {
            assert(all.take(i + 1).drop_last() =~= all.take(i as int));
            assert(all.take(i + 1).last() == all[i as int]);
            assert(args_view(args@)[i as int] == args@[i as int]@);
        }
        if !arg_is_true_flag(&args[i]) {
            let t = arg_to_text(&args[i]);
            put(&mut out, " ");
            put_bytes(&mut out, t.as_slice());
            assert(out@ =~= concat(all.take(i as int)) + (lit(" ") + t@));
        } else {
            assert(out@ + Seq::<u8>::empty() =~= out@);
        }
        i += 1;
    }
    assert(all.take(i as int) =~= all);
    out
}

fn arg_to_text(a: &Arg) -> (r: Vec<u8>)
    ensures
        r@ == arg_text(a@),
    decreases a, 0int,
{
    match a {
        Arg::Par(p) => {
            let mut out = text("(");
            put_names(&mut out, &p.ident, &p.idents);
            put(&mut out, ":");
            put_excl(&mut out, p.excl);
            let t = term_to_text(&p.term);
            put_bytes(&mut out, t.as_slice());
            put(&mut out, ")");
            out
        },
        Arg::Brack(b) => {
            let mut out: Vec<u8> = Vec::new();
            match &b.ident {
                Some(n) => {
                    put_bytes(&mut out, n.as_slice());
                    put(&mut out, ":");
                },
                None => {},
            }
            match b.mult {
                Some(n) => {
                    put_count(&mut out, n);
                    put(&mut out, "*");
                },
                None => {},
            }
            put(&mut out, "[");
            let inner = args_to_text(&b.args);
            put_bytes(&mut out, inner.as_slice());
            put(&mut out, " ]");
            assert(out@ =~= arg_text(a@));
            out
        },
        Arg::Cond(c) => {
            let mut out = to_vec(c.ident.as_slice());
            put(&mut out, ":");
            match &c.cond {
                Some(d) => {
                    put_bytes(&mut out, d.ident.as_slice());
                    match d.index {
                        Some(n) => {
                            put(&mut out, ".");
                            put_decimal(&mut out, n as u64);
                        },
                        None => {},
                    }
                    put(&mut out, "?");
                },
                None => {},
            }
            if !c.excl && term_is_name(&c.term, "bytes") {
                put(&mut out, "string");
            } else {
                put_excl(&mut out, c.excl);
                let t = term_to_text(&c.term);
                put_bytes(&mut out, t.as_slice());
            }
            assert(out@ =~= arg_text(a@));
            out
        },
        Arg::Single(s) => {
            let mut out: Vec<u8> = Vec::new();
            put_excl(&mut out, s.excl);
            let t = term_to_text(&s.term);
            put_bytes(&mut out, t.as_slice());
            assert(out@ =~= arg_text(a@));
            out
        },
    }
}

fn opt_arg_to_text(o: &OptArg) -> (r: Vec<u8>)
    ensures
        r@ == opt_arg_text(o@),
{
    let mut out: Vec<u8> = Vec::new();
    put_names(&mut out, &o.ident, &o.idents);
    put(&mut out, ":");
    put_excl(&mut out, o.excl);
    let parts = terms_to_texts(None, &o.terms);
    assert(Seq::<Seq<u8>>::empty() + term_texts(terms_view(o.terms@)) =~= term_texts(
        terms_view(o.terms@),
    ));
    let s = join(parts.as_slice(), " ");
    put_bytes(&mut out, s.as_slice());
    assert(out@ =~= opt_arg_text(o@));
    out
}

fn res_to_text(r: &ResType) -> (out: Vec<u8>)
    ensures
        out@ == res_text(r@),
{
    match r {
        ResType::Normal(n) => {
            let parts = terms_to_texts(Some(ident_to_text(&n.identns)), &n.terms);
            join(parts.as_slice(), " ")
        },
        ResType::Ang(a) => {
            let mut out = ident_to_text(&a.identns);
            let parts = terms_to_texts(Some(term_to_text(&a.term)), &a.terms);
            put(&mut out, " ");
            let s = join(parts.as_slice(), ",");
            put_bytes(&mut out, s.as_slice());
            out
        },
    }
}

/// Writes out the canonical text of a declaration.
pub fn canonical_text(d: &CombinatorDecl) -> (r: Vec<u8>)
    ensures
        r@ == canonical(d@),
{
    let mut out = ident_to_text(&d.identns);
    let ghost head = out@;
    let ghost params = opt_arg_parts(opt_args_view(d.opt_args@));
    assert(params.take(0) =~= Seq::empty());
    assert(head + concat(params.take(0)) =~= head);
    let mut i: usize = 0;
    while i < d.opt_args.len()
        invariant
            i <= d.opt_args@.len(),
            params == opt_arg_parts(opt_args_view(d.opt_args@)),
            out@ == head + concat(params.take(i as int)),
        decreases d.opt_args@.len() - i,
    {
        let t = opt_arg_to_text(&d.opt_args[i]);
        proof {
            assert(params.take(i + 1).drop_last() =~= params.take(i as int));
            assert(params.take(i + 1).last() == lit(" ") + opt_arg_text(
                d.opt_args@[i as int]@,
            ));
        }
        put(&mut out, " ");
        put_bytes(&mut out, t.as_slice());
        assert(out@ =~= head + concat(params.take(i + 1)));
        i += 1;
    }
    assert(params.take(i as int) =~= params);
    let fields = args_to_text(&d.args);
    put_bytes(&mut out, fields.as_slice());
    put(&mut out, " = ");
    let res = res_to_text(&d.res);
    put_bytes(&mut out, res.as_slice());
    out
}

} // verus!

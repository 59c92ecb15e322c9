//! What holds of the grammar: a match never leaves more input than it was
//! given, and a match of anything but an optional part or a list leaves
//! less. So the grammar's tests that the input has become shorter, which
//! are there to bound its recursion, hold of every match.

use vstd::prelude::*;
use crate::grammar::{
    angle_terms, arg, arg_brack, arg_cond, arg_par, arg_single, args0, bang, bit_index, block,
    block_end, block_name, block_sep, blocks0, builtin_declaration, byte, combinator_declaration,
    comma_terms, comments, comments0, comments_inner, condition, conditional_def, constr_sep,
    explicit_id, func_sep, hex8, ident_ns, item, items0, lc_ident, lc_ident_full, lc_ident_ns,
    lemma_run, lemma_ws_twice, multiplicity, name, names0, namespace, number, opt_arg, opt_args0,
    pair,
    result_type, run, separator, spaced, spaced_namespace, tag, take_run1, term, terms0,
    tl_program, tok, trim, type_term, uc_ident, uc_ident_ns, var_ident, ws, ByteClass,
};
use crate::types::Section;

verus! {

/// Whether a match has left less input than it was given.
pub open spec fn shorter<T>(r: Option<(Seq<u8>, T)>, s: Seq<u8>) -> bool {
    r matches Some((rest, _)) ==> rest.len() < s.len()
}

/// Whether a match has left no more input than it was given.
pub open spec fn no_longer<T>(r: Option<(Seq<u8>, T)>, s: Seq<u8>) -> bool {
    r matches Some((rest, _)) ==> rest.len() <= s.len()
}

/// Skipping the white space after a match leaves no more input.
pub proof fn lemma_trim<T>(r: Option<(Seq<u8>, T)>, s: Seq<u8>)
    ensures
        shorter(r, s) ==> shorter(trim(r), s),
        no_longer(r, s) ==> no_longer(trim(r), s),
{
    if let Some((rest, _)) = r {
        lemma_ws_twice(rest);
    }
}

/// A run that is not empty leaves less input.
pub proof fn lemma_take_run1(s: Seq<u8>, c: ByteClass)
    ensures
        shorter(take_run1(s, c), s),
{
    lemma_run(s, c);
}

/// A fixed word leaves no more input.
pub proof fn lemma_tag(t: Seq<u8>, s: Seq<u8>)
    ensures
        no_longer(tag(t, s), s),
{
}

/// A byte with white space around it leaves less input.
pub proof fn lemma_tok(c: u8, s: Seq<u8>)
    ensures
        tok(c, s) matches Some(rest) ==> rest.len() < s.len(),
{
    lemma_ws_twice(s);
    if let Some(rest) = byte(c, ws(s)) {
        lemma_ws_twice(rest);
    }
}

/// The first `*/` stands within the input.
pub proof fn lemma_block_end(s: Seq<u8>)
    ensures
        block_end(s) matches Some(n) ==> n + 2 <= s.len(),
    decreases s.len(),
{
    if pair(0x2a, 0x2f, s) is None && s.len() > 0 {
        lemma_block_end(s.skip(1));
    }
}

/// A comment leaves less input.
pub proof fn lemma_comments(s: Seq<u8>)
    ensures
        shorter(comments_inner(s), s),
        shorter(comments(s), s),
{
    if let Some(rest) = pair(0x2f, 0x2f, s) {
        lemma_run(rest, ByteClass::NoneOf(crate::text::lit("\n\r")));
    }
    if let Some(rest) = pair(0x2f, 0x2a, s) {
        lemma_block_end(rest);
    }
}

/// A name of any form leaves less input.
pub proof fn lemma_idents(s: Seq<u8>)
    ensures
        shorter(var_ident(s), s),
        shorter(lc_ident(s), s),
        shorter(uc_ident(s), s),
        shorter(namespace(s), s),
        shorter(lc_ident_ns(s), s),
        shorter(uc_ident_ns(s), s),
        shorter(name(s), s),
{
    lemma_run(s, ByteClass::Word);
    if s.len() > 0 {
        lemma_run(s.skip(1), ByteClass::Word);
    }
    if let Some((rest, _)) = lc_ident(s) {
        if let Some(after) = byte(0x2e, rest) {
            lemma_run(after, ByteClass::Word);
            if after.len() > 0 {
                lemma_run(after.skip(1), ByteClass::Word);
            }
        }
    }
    lemma_ws_twice(s);
    lemma_run(ws(s), ByteClass::Word);
    lemma_trim(var_ident(ws(s)), ws(s));
}

/// A name inside a term leaves less input.
pub proof fn lemma_ident_ns(s: Seq<u8>)
    ensures
        shorter(spaced_namespace(s), s),
        shorter(ident_ns(s), s),
{
    lemma_ws_twice(s);
    lemma_idents(ws(s));
    if let Some((rest, _)) = lc_ident(ws(s)) {
        lemma_tok(0x2e, rest);
    }
    if let Some((rest, _)) = spaced_namespace(s) {
        lemma_idents(rest);
        lemma_trim(var_ident(rest), rest);
    }
    lemma_trim(var_ident(ws(s)), ws(s));
}

/// The name that opens a declaration leaves less input, with or without
/// an id.
pub proof fn lemma_lc_ident_full(s: Seq<u8>)
    ensures
        shorter(hex8(s), s),
        no_longer(explicit_id(s), s),
        shorter(lc_ident_full(s), s),
{
    lemma_tok(0x23, s);
    if let Some(rest) = tok(0x23, s) {
        lemma_trim(hex8(rest), rest);
    }
    lemma_ws_twice(s);
    lemma_idents(ws(s));
    lemma_trim(lc_ident_ns(ws(s)), ws(s));
    if let Some((rest, _)) = trim(lc_ident_ns(ws(s))) {
        lemma_tok(0x23, rest);
        if let Some(after) = tok(0x23, rest) {
            lemma_trim(hex8(after), after);
        }
    }
}

/// A number leaves less input.
pub proof fn lemma_number(s: Seq<u8>, max: nat)
    ensures
        shorter(number(s, max), s),
{
    lemma_ws_twice(s);
    lemma_take_run1(ws(s), ByteClass::Digit);
    if let Some((rest, _)) = take_run1(ws(s), ByteClass::Digit) {
        lemma_ws_twice(rest);
    }
}

/// A term leaves less input.
pub proof fn lemma_term(s: Seq<u8>)
    ensures
        shorter(term(s), s),
    decreases s.len(), 1int,
{
    lemma_type_term(s);
    if let Some((rest, _)) = type_term(s) {
        lemma_ws_twice(rest);
    }
    lemma_number(s, u32::MAX as nat);
}

/// A type term leaves less input.
pub proof fn lemma_type_term(s: Seq<u8>)
    ensures
        shorter(type_term(s), s),
    decreases s.len(), 0int,
{
    lemma_ident_ns(s);
    if let Some((rest, _)) = ident_ns(s) {
        lemma_angle_terms(rest);
    }
    lemma_tok(0x28, s);
    if let Some(rest) = tok(0x28, s) {
        lemma_terms0(rest);
        lemma_tok(0x29, terms0(rest).0);
    }
    lemma_tok(0x23, s);
    lemma_tok(0x25, s);
    if let Some(rest) = tok(0x25, s) {
        lemma_term(rest);
    }
}

/// The arguments of a generic application leave less input.
pub proof fn lemma_angle_terms(s: Seq<u8>)
    ensures
        shorter(angle_terms(s), s),
    decreases s.len(), 4int,
{
    lemma_tok(0x3c, s);
    if let Some(rest) = tok(0x3c, s) {
        lemma_term(rest);
        if let Some((rest, _)) = term(rest) {
            lemma_comma_terms(rest);
            lemma_tok(0x3e, comma_terms(rest).0);
        }
    }
}

/// Terms after commas leave no more input.
pub proof fn lemma_comma_terms(s: Seq<u8>)
    ensures
        comma_terms(s).0.len() <= s.len(),
    decreases s.len(), 3int,
{
    lemma_tok(0x2c, s);
    if let Some(rest) = tok(0x2c, s) {
        lemma_term(rest);
        if let Some((rest, _)) = term(rest) {
            lemma_comma_terms(rest);
        }
    }
}

/// A list of terms leaves no more input.
pub proof fn lemma_terms0(s: Seq<u8>)
    ensures
        terms0(s).0.len() <= s.len(),
    decreases s.len(), 2int,
{
    lemma_term(s);
    if let Some((rest, _)) = term(s) {
        lemma_terms0(rest);
    }
}

/// A list of names leaves no more input.
pub proof fn lemma_names0(s: Seq<u8>)
    ensures
        names0(s).0.len() <= s.len(),
    decreases s.len(),
{
    lemma_idents(s);
    if let Some((rest, _)) = name(s) {
        lemma_names0(rest);
    }
}

/// A part that may be missing leaves no more input, and a condition leaves
/// less.
pub proof fn lemma_optional_parts(s: Seq<u8>)
    ensures
        bang(s).0.len() <= s.len(),
        bit_index(s).0.len() <= s.len(),
        block_name(s).0.len() <= s.len(),
        multiplicity(s).0.len() <= s.len(),
        condition(s).0.len() <= s.len(),
        shorter(conditional_def(s), s),
{
    lemma_tok(0x21, s);
    lemma_tok(0x2e, s);
    if let Some(rest) = tok(0x2e, s) {
        lemma_number(rest, u32::MAX as nat);
    }
    lemma_idents(s);
    if let Some((rest, _)) = name(s) {
        lemma_tok(0x3a, rest);
        lemma_tok(0x2e, rest);
        if let Some(after) = tok(0x2e, rest) {
            lemma_number(after, u32::MAX as nat);
        }
        lemma_tok(0x3f, bit_index(rest).0);
    }
    lemma_number(s, i32::MAX as nat);
    if let Some((rest, _)) = number(s, i32::MAX as nat) {
        lemma_tok(0x2a, rest);
    }
}

/// A group in parentheses leaves less input.
pub proof fn lemma_arg_par(s: Seq<u8>)
    ensures
        shorter(arg_par(s), s),
{
    lemma_tok(0x28, s);
    if let Some(rest) = tok(0x28, s) {
        lemma_idents(rest);
        if let Some((rest, _)) = name(rest) {
            lemma_names0(rest);
            let rest = names0(rest).0;
            lemma_tok(0x3a, rest);
            if let Some(rest) = tok(0x3a, rest) {
                lemma_optional_parts(rest);
                let rest = bang(rest).0;
                lemma_term(rest);
                if let Some((rest, _)) = term(rest) {
                    lemma_tok(0x29, rest);
                }
            }
        }
    }
}

/// A named field leaves less input.
pub proof fn lemma_arg_cond(s: Seq<u8>)
    ensures
        shorter(arg_cond(s), s),
{
    lemma_idents(s);
    if let Some((rest, _)) = name(s) {
        lemma_tok(0x3a, rest);
        if let Some(rest) = tok(0x3a, rest) {
            lemma_optional_parts(rest);
            let rest = condition(rest).0;
            lemma_optional_parts(rest);
            let rest = bang(rest).0;
            lemma_type_term(rest);
            lemma_trim(type_term(rest), rest);
        }
    }
}

/// An unnamed field leaves less input.
pub proof fn lemma_arg_single(s: Seq<u8>)
    ensures
        shorter(arg_single(s), s),
{
    lemma_optional_parts(s);
    lemma_term(bang(s).0);
}

/// A repeated block leaves less input.
pub proof fn lemma_arg_brack(s: Seq<u8>)
    ensures
        shorter(arg_brack(s), s),
    decreases s.len(), 0int,
{
    lemma_optional_parts(s);
    let rest = block_name(s).0;
    lemma_optional_parts(rest);
    let rest = multiplicity(rest).0;
    lemma_tok(0x5b, rest);
    if let Some(rest) = tok(0x5b, rest) {
        lemma_args0(rest);
        lemma_tok(0x5d, args0(rest).0);
    }
}

/// A field argument leaves less input.
pub proof fn lemma_arg(s: Seq<u8>)
    ensures
        shorter(arg(s), s),
    decreases s.len(), 1int,
{
    lemma_arg_par(s);
    lemma_arg_brack(s);
    lemma_arg_cond(s);
    lemma_arg_single(s);
}

/// A list of field arguments leaves no more input.
pub proof fn lemma_args0(s: Seq<u8>)
    ensures
        args0(s).0.len() <= s.len(),
    decreases s.len(), 2int,
{
    lemma_arg(s);
    if let Some((rest, _)) = arg(s) {
        lemma_args0(rest);
    }
}

/// A parameter leaves less input.
pub proof fn lemma_opt_arg(s: Seq<u8>)
    ensures
        shorter(opt_arg(s), s),
{
    lemma_tok(0x7b, s);
    if let Some(rest) = tok(0x7b, s) {
        lemma_idents(rest);
        if let Some((rest, _)) = name(rest) {
            lemma_names0(rest);
            let rest = names0(rest).0;
            lemma_tok(0x3a, rest);
            if let Some(rest) = tok(0x3a, rest) {
                lemma_optional_parts(rest);
                let rest = bang(rest).0;
                lemma_terms0(rest);
                lemma_tok(0x7d, terms0(rest).0);
            }
        }
    }
}

/// A list of parameters leaves no more input.
pub proof fn lemma_opt_args0(s: Seq<u8>)
    ensures
        opt_args0(s).0.len() <= s.len(),
    decreases s.len(),
{
    lemma_opt_arg(s);
    if let Some((rest, _)) = opt_arg(s) {
        lemma_opt_args0(rest);
    }
}

/// A result type leaves less input.
pub proof fn lemma_result_type(s: Seq<u8>)
    ensures
        shorter(result_type(s), s),
{
    lemma_ws_twice(s);
    lemma_idents(ws(s));
    lemma_trim(uc_ident_ns(ws(s)), ws(s));
    if let Some((rest, _)) = trim(uc_ident_ns(ws(s))) {
        lemma_angle_terms(rest);
        lemma_terms0(rest);
    }
}

/// A declaration leaves less input.
pub proof fn lemma_declarations(s: Seq<u8>)
    ensures
        shorter(combinator_declaration(s), s),
        shorter(builtin_declaration(s), s),
{
    lemma_lc_ident_full(s);
    if let Some((rest, _)) = lc_ident_full(s) {
        lemma_opt_args0(rest);
        let after = args0(opt_args0(rest).0).0;
        lemma_args0(opt_args0(rest).0);
        lemma_tok(0x3d, after);
        if let Some(after) = tok(0x3d, after) {
            lemma_result_type(after);
            if let Some((after, _)) = result_type(after) {
                lemma_tok(0x3b, after);
            }
        }
        lemma_tok(0x3f, rest);
        if let Some(rest) = tok(0x3f, rest) {
            lemma_tok(0x3d, rest);
            if let Some(rest) = tok(0x3d, rest) {
                lemma_idents(rest);
                lemma_trim(uc_ident_ns(rest), rest);
                if let Some((rest, _)) = trim(uc_ident_ns(rest)) {
                    lemma_tok(0x3b, rest);
                }
            }
        }
    }
}

/// A separator line leaves no more input.
pub proof fn lemma_separators(s: Seq<u8>)
    ensures
        no_longer(constr_sep(s), s),
        no_longer(func_sep(s), s),
        no_longer(block_sep(s), s),
{
    lemma_separator(crate::text::lit("types"), s);
    lemma_separator(crate::text::lit("functions"), s);
}

/// A fixed word with white space around it leaves no more input.
pub proof fn lemma_spaced(t: Seq<u8>, s: Seq<u8>)
    ensures
        spaced(t, s) matches Some(rest) ==> rest.len() <= s.len(),
{
    lemma_ws_twice(s);
    if let Some((rest, _)) = tag(t, ws(s)) {
        lemma_ws_twice(rest);
    }
}

/// A separator line of any word leaves no more input.
pub proof fn lemma_separator(word: Seq<u8>, s: Seq<u8>)
    ensures
        separator(word, s) matches Some(rest) ==> rest.len() <= s.len(),
{
    let dashes = crate::text::lit("---");
    lemma_spaced(dashes, s);
    if let Some(rest) = spaced(dashes, s) {
        lemma_spaced(word, rest);
        if let Some(rest) = spaced(word, rest) {
            lemma_spaced(dashes, rest);
        }
    }
}

/// A list of comments leaves no more input.
pub proof fn lemma_comments0(s: Seq<u8>)
    ensures
        comments0(s).len() <= s.len(),
    decreases s.len(),
{
    lemma_ws_twice(s);
    lemma_comments(ws(s));
    lemma_trim(comments(ws(s)), ws(s));
    if let Some((rest, _)) = trim(comments(ws(s))) {
        lemma_comments0(rest);
    }
}

/// A declaration with its comments leaves less input.
pub proof fn lemma_item(section: Section, s: Seq<u8>)
    ensures
        shorter(item(section, s), s),
{
    lemma_comments0(s);
    let start = comments0(s);
    lemma_declarations(start);
    if let Some((rest, _)) = combinator_declaration(start) {
        lemma_comments0(rest);
    }
    if let Some((rest, _)) = builtin_declaration(start) {
        lemma_comments0(rest);
    }
}

/// A list of declarations leaves no more input, and less where it is not
/// empty.
pub proof fn lemma_items0(section: Section, s: Seq<u8>)
    ensures
        items0(section, s).0.len() <= s.len(),
        items0(section, s).1.len() > 0 ==> items0(section, s).0.len() < s.len(),
    decreases s.len(),
{
    lemma_item(section, s);
    if let Some((rest, _)) = item(section, s) {
        lemma_items0(section, rest);
    }
}

/// A block leaves less input.
pub proof fn lemma_block(s: Seq<u8>)
    ensures
        shorter(block(s), s),
{
    lemma_separators(s);
    if let Some((rest, section)) = block_sep(s) {
        lemma_items0(section, rest);
    }
}

/// A list of blocks leaves no more input.
pub proof fn lemma_blocks0(s: Seq<u8>)
    ensures
        blocks0(s).0.len() <= s.len(),
    decreases s.len(),
{
    lemma_block(s);
    if let Some((rest, _)) = block(s) {
        lemma_blocks0(rest);
    }
}

/// The place at which a text stops being a document lies within the text.
pub proof fn lemma_tl_program(s: Seq<u8>)
    ensures
        tl_program(s) matches Err(at) ==> at <= s.len(),
{
    lemma_items0(Section::Types, s);
    lemma_blocks0(items0(Section::Types, s).0);
}

} // verus!

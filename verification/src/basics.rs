//! The words of schema text: white space, comments, names and numbers.
//!
//! Every parser takes the input that is left and returns what is left after
//! the match together with what it read; `grammar` says what that is.

use vstd::prelude::*;
use vstd::slice::slice_subrange;
use crate::grammar;
use crate::grammar::ByteClass;
use crate::text::{bytes_of, lit, to_vec};
use crate::types::IdentNs;

verus! {

/// What a parser returned, with the rest and the value by their views.
pub open spec fn parsed<T: View>(r: Option<(&[u8], T)>) -> Option<(Seq<u8>, T::V)> {
    match r {
        Some((rest, v)) => Some((rest@, v@)),
        None => None,
    }
}

/// A parser that matched has consumed at least one byte.
pub open spec fn advances<T>(r: Option<(&[u8], T)>, input: &[u8]) -> bool {
    r matches Some((rest, _)) ==> rest@.len() < input@.len()
}

/// `nom::character::complete::multispace0` on bytes: it always matches, and
/// cuts the input after its leading spaces, tabs, carriage returns and line
/// feeds.
#[verifier::external_body]
fn multispace0(input: &[u8]) -> (r: Option<(&[u8], &[u8])>)
    ensures
        parsed(r) == Some(grammar::take_run(input@, ByteClass::Space)),
{
    let r: nom::IResult<&[u8], &[u8]> = nom::character::complete::multispace0(input);
    match r {
        Ok(p) => Some(p),
        Err(_) => None,
    }
}

/// `nom::character::complete::alphanumeric1` on bytes: it cuts the input
/// after its leading ASCII letters and digits, and fails where there is
/// none.
#[verifier::external_body]
fn alphanumeric1(input: &[u8]) -> (r: Option<(&[u8], &[u8])>)
    ensures
        parsed(r) == grammar::take_run1(input@, ByteClass::Alnum),
{
    let r: nom::IResult<&[u8], &[u8]> = nom::character::complete::alphanumeric1(input);
    match r {
        Ok(p) => Some(p),
        Err(_) => None,
    }
}

/// `nom::character::complete::digit1` on bytes: it cuts the input after its
/// leading ASCII digits, and fails where there is none.
#[verifier::external_body]
fn digit1(input: &[u8]) -> (r: Option<(&[u8], &[u8])>)
    ensures
        parsed(r) == grammar::take_run1(input@, ByteClass::Digit),
{
    let r: nom::IResult<&[u8], &[u8]> = nom::character::complete::digit1(input);
    match r {
        Ok(p) => Some(p),
        Err(_) => None,
    }
}

/// `nom::bytes::complete::is_not` on bytes: it cuts the input before the
/// first byte that is one of `set`, or at its end, and fails where nothing
/// stands before that place.
#[verifier::external_body]
fn is_not<'a>(set: &[u8], input: &'a [u8]) -> (r: Option<(&'a [u8], &'a [u8])>)
    ensures
        parsed(r) == grammar::take_run1(input@, ByteClass::NoneOf(set@)),
{
    let r: nom::IResult<&[u8], &[u8]> = nom::bytes::complete::is_not(set)(input);
    match r {
        Ok(p) => Some(p),
        Err(_) => None,
    }
}

/// `nom::bytes::complete::tag` on bytes: it matches where the input begins
/// with `t`, and cuts the input after it.
#[verifier::external_body]
fn tag<'a>(t: &[u8], input: &'a [u8]) -> (r: Option<(&'a [u8], &'a [u8])>)
    ensures
        parsed(r) == grammar::tag(t@, input@),
{
    let r: nom::IResult<&[u8], &[u8]> = nom::bytes::complete::tag(t)(input);
    match r {
        Ok(p) => Some(p),
        Err(_) => None,
    }
}

/// Skips the white space at the start of the input.
pub fn ws(input: &[u8]) -> (r: &[u8])
    ensures
        r@ == grammar::ws(input@),
        r@.len() <= input@.len(),
{
    proof {
        grammar::lemma_run(input@, ByteClass::Space);
    }
    match multispace0(input) {
        Some((rest, _)) => rest,
        None => input,
    }
}

/// Matches one given byte.
pub fn byte(c: u8, input: &[u8]) -> (r: Option<&[u8]>)
    ensures
        match r {
            Some(rest) => grammar::byte(c, input@) == Some(rest@) && rest@.len() < input@.len(),
            None => grammar::byte(c, input@) is None,
        },
{
    if input.len() > 0 && input[0] == c {
        Some(slice_subrange(input, 1, input.len()))
    } else {
        None
    }
}

/// Matches one given byte with white space on both sides of it.
pub fn tok(c: u8, input: &[u8]) -> (r: Option<&[u8]>)
    ensures
        match r {
            Some(rest) => grammar::tok(c, input@) == Some(rest@) && rest@.len() < input@.len(),
            None => grammar::tok(c, input@) is None,
        },
{
    match byte(c, ws(input)) {
        Some(rest) => Some(ws(rest)),
        None => None,
    }
}

/// Matches a fixed word.
pub fn word<'a>(t: &str, input: &'a [u8]) -> (r: Option<&'a [u8]>)
    ensures
        match r {
            Some(rest) => grammar::tag(lit(t), input@) matches Some((s, _)) && s == rest@
                && rest@.len() + lit(t).len() == input@.len(),
            None => grammar::tag(lit(t), input@) is None,
        },
{
    match tag(bytes_of(t), input) {
        Some((rest, _)) => Some(rest),
        None => None,
    }
}

/// Matches two given bytes in a row.
pub fn pair(a: u8, b: u8, input: &[u8]) -> (r: Option<&[u8]>)
    ensures
        match r {
            Some(rest) => grammar::pair(a, b, input@) == Some(rest@) && rest@.len() + 2
                == input@.len(),
            None => grammar::pair(a, b, input@) is None,
        },
{
    if input.len() >= 2 && input[0] == a && input[1] == b {
        Some(slice_subrange(input, 2, input.len()))
    } else {
        None
    }
}

/// Where no `*` stands among the first `k` bytes, the first `*/` stands as
/// far behind them as it stands in what follows them.
proof fn lemma_block_end_skip(s: Seq<u8>, k: int)
    requires
        0 <= k <= s.len(),
        forall|i: int| 0 <= i < k ==> s[i] != 0x2a,
    ensures
        grammar::block_end(s) == match grammar::block_end(s.skip(k)) {
            Some(n) => Some((n + k) as nat),
            None => None,
        },
    decreases k,
{
    if k == 0 {
        assert(s.skip(0) =~= s);
    } else {
        let tail = s.skip(1);
        assert forall|i: int| 0 <= i < k - 1 implies tail[i] != 0x2a by {
            assert(tail[i] == s[i + 1]);
        }
        lemma_block_end_skip(tail, k - 1);
        assert(tail.skip(k - 1) =~= s.skip(k));
    }
}

/// The text before the first `*/`, and what follows that `*/`.
fn block_text(input: &[u8]) -> (r: Option<(&[u8], &[u8])>)
    ensures
        match grammar::block_end(input@) {
            Some(n) => parsed(r) == Some((input@.skip((n + 2) as int), input@.take(n as int))) && n + 2
                <= input@.len(),
            None => r is None,
        },
{
    let star: [u8; 1] = [0x2a];
    assert(star@ =~= seq![0x2a_u8]);
    let len = input.len();
    let mut cur: &[u8] = input;
    let mut n: usize = 0;
    assert(input@.skip(0) =~= input@);
    loop
        invariant
            len == input@.len(),
            n <= len,
            star@ == seq![0x2a_u8],
            cur@ == input@.skip(n as int),
            grammar::block_end(input@) == match grammar::block_end(cur@) {
                Some(k) => Some((k + n) as nat),
                None => None,
            },
        decreases len - n,
    {
        let ghost class = ByteClass::NoneOf(star@);
        proof {
            grammar::lemma_run(cur@, class);
            let k = grammar::run(cur@, class) as int;
            assert forall|i: int| 0 <= i < k implies cur@[i] != 0x2a by {
                if cur@[i] == 0x2a {
                    assert(star@[0] == cur@[i]);
                }
            }
            lemma_block_end_skip(cur@, k);
        }
        if let Some((rest, found)) = is_not(star.as_slice(), cur) {
            assert(found@.len() == grammar::run(cur@, class));
            assert(rest@ =~= input@.skip(n + found@.len()));
            n = n + found.len();
            cur = rest;
        }
        if cur.len() == 0 {
            return None;
        }
        assert(cur@[0] == 0x2a);
        if cur.len() >= 2 && cur[1] == 0x2f {
            assert(grammar::block_end(cur@) == Some(0nat));
            assert(cur@.skip(2) =~= input@.skip(n + 2));
            return Some((slice_subrange(cur, 2, cur.len()), slice_subrange(input, 0, n)));
        }
        assert(cur@.skip(1) =~= input@.skip(n + 1));
        n = n + 1;
        cur = slice_subrange(cur, 1, cur.len());
    }
}

/// The text of a comment.
pub fn comments_inner(input: &[u8]) -> (r: Option<(&[u8], &[u8])>)
    ensures
        parsed(r) == grammar::comments_inner(input@),
        advances(r, input),
{
    if let Some(rest) = pair(0x2f, 0x2f, input) {
        proof {
            grammar::lemma_run(rest@, ByteClass::NoneOf(lit("\n\r")));
        }
        return match is_not(bytes_of("\n\r"), rest) {
            Some(found) => Some(found),
            None => Some((rest, slice_subrange(rest, 0, 0))),
        };
    }
    match pair(0x2f, 0x2a, input) {
        Some(rest) => block_text(rest),
        None => None,
    }
}

/// A comment, for its extent alone.
pub fn comments(input: &[u8]) -> (r: Option<(&[u8], ())>)
    ensures
        parsed(r) == grammar::comments(input@),
        advances(r, input),
{
    match comments_inner(input) {
        Some((rest, _)) => Some((rest, ())),
        None => None,
    }
}

/// A name: one or more digits, letters and `_`.
pub fn var_ident(input: &[u8]) -> (r: Option<(&[u8], &[u8])>)
    ensures
        parsed(r) == grammar::var_ident(input@),
        advances(r, input),
{
    let len = input.len();
    let mut cur: &[u8] = input;
    let mut n: usize = 0;
    loop
        invariant
            len == input@.len(),
            n <= input@.len(),
            cur@ == input@.skip(n as int),
            grammar::run(input@, ByteClass::Word) == n + grammar::run(cur@, ByteClass::Word),
        ensures
            n <= input@.len(),
            cur@ == input@.skip(n as int),
            grammar::run(input@, ByteClass::Word) == n,
        decreases input@.len() - n,
    {
        proof {
            grammar::lemma_run(cur@, ByteClass::Alnum);
            grammar::lemma_run_within(cur@, ByteClass::Alnum, ByteClass::Word);
        }
        if let Some((rest, found)) = alphanumeric1(cur) {
            assert(found@.len() == grammar::run(cur@, ByteClass::Alnum));
            assert(rest@ =~= input@.skip(n + found@.len()));
            n = n + found.len();
            cur = rest;
        } else if let Some(rest) = byte(0x5f, cur) {
            assert(rest@ =~= input@.skip(n + 1));
            n = n + 1;
            cur = rest;
        } else {
            break;
        }
    }
    if n == 0 {
        None
    } else {
        Some((cur, slice_subrange(input, 0, n)))
    }
}

/// A name that begins with a byte of the given range.
fn cased_ident(input: &[u8], first: u8, last: u8) -> (r: Option<(&[u8], &[u8])>)
    ensures
        parsed(r) == (if input@.len() > 0 && first <= input@[0] <= last {
            Some(grammar::cut(input@, 1 + grammar::run(input@.skip(1), ByteClass::Word)))
        } else {
            None
        }),
        advances(r, input),
{
    if input.len() == 0 || input[0] < first || input[0] > last {
        return None;
    }
    let tail = slice_subrange(input, 1, input.len());
    proof {
        grammar::lemma_run(tail@, ByteClass::Word);
    }
    let n: usize = match var_ident(tail) {
        Some((_, found)) => 1 + found.len(),
        None => 1,
    };
    Some((slice_subrange(input, n, input.len()), slice_subrange(input, 0, n)))
}

/// A name that begins with a lower-case letter.
pub fn lc_ident(input: &[u8]) -> (r: Option<(&[u8], &[u8])>)
    ensures
        parsed(r) == grammar::lc_ident(input@),
        advances(r, input),
{
    cased_ident(input, 0x61, 0x7a)
}

/// A name that begins with an upper-case letter.
pub fn uc_ident(input: &[u8]) -> (r: Option<(&[u8], &[u8])>)
    ensures
        parsed(r) == grammar::uc_ident(input@),
        advances(r, input),
{
    cased_ident(input, 0x41, 0x5a)
}

/// A namespace and the dot that ends it.
fn namespace(input: &[u8]) -> (r: Option<(&[u8], &[u8])>)
    ensures
        parsed(r) == grammar::namespace(input@),
        advances(r, input),
{
    match lc_ident(input) {
        Some((rest, ns)) => match byte(0x2e, rest) {
            Some(rest) => Some((rest, ns)),
            None => None,
        },
        None => None,
    }
}

/// A lower-case name, with a namespace where one is written.
pub fn lc_ident_ns(input: &[u8]) -> (r: Option<(&[u8], IdentNs)>)
    ensures
        parsed(r) == grammar::lc_ident_ns(input@),
        advances(r, input),
{
    match namespace(input) {
        Some((rest, ns)) => match lc_ident(rest) {
            Some((rest, name)) => Some(
                (rest, IdentNs { namespace: Some(to_vec(ns)), name: to_vec(name) }),
            ),
            None => None,
        },
        None => match lc_ident(input) {
            Some((rest, name)) => Some((rest, IdentNs { namespace: None, name: to_vec(name) })),
            None => None,
        },
    }
}

/// An upper-case name, with a namespace where one is written.
pub fn uc_ident_ns(input: &[u8]) -> (r: Option<(&[u8], IdentNs)>)
    ensures
        parsed(r) == grammar::uc_ident_ns(input@),
        advances(r, input),
{
    match namespace(input) {
        Some((rest, ns)) => match uc_ident(rest) {
            Some((rest, name)) => Some(
                (rest, IdentNs { namespace: Some(to_vec(ns)), name: to_vec(name) }),
            ),
            None => None,
        },
        None => match uc_ident(input) {
            Some((rest, name)) => Some((rest, IdentNs { namespace: None, name: to_vec(name) })),
            None => None,
        },
    }
}

/// A namespace and its dot, with white space allowed around both.
fn spaced_namespace(input: &[u8]) -> (r: Option<(&[u8], &[u8])>)
    ensures
        parsed(r) == grammar::spaced_namespace(input@),
        advances(r, input),
{
    match lc_ident(ws(input)) {
        Some((rest, ns)) => match tok(0x2e, rest) {
            Some(rest) => Some((rest, ns)),
            None => None,
        },
        None => None,
    }
}

/// A name with white space after it.
fn spaced_var_ident(input: &[u8]) -> (r: Option<(&[u8], &[u8])>)
    ensures
        parsed(r) == grammar::trim(grammar::var_ident(input@)),
        advances(r, input),
{
    match var_ident(input) {
        Some((rest, name)) => Some((ws(rest), name)),
        None => None,
    }
}

/// A name of either case inside a term, with a namespace where one is
/// written; white space is allowed around each part.
pub fn ident_ns(input: &[u8]) -> (r: Option<(&[u8], IdentNs)>)
    ensures
        parsed(r) == grammar::ident_ns(input@),
        advances(r, input),
{
    match spaced_namespace(input) {
        Some((rest, ns)) => match spaced_var_ident(rest) {
            Some((rest, name)) => Some(
                (rest, IdentNs { namespace: Some(to_vec(ns)), name: to_vec(name) }),
            ),
            None => None,
        },
        None => match spaced_var_ident(ws(input)) {
            Some((rest, name)) => Some((rest, IdentNs { namespace: None, name: to_vec(name) })),
            None => None,
        },
    }
}

/// The value of a hexadecimal digit, where the byte is one.
fn hex_digit(b: u8) -> (r: Option<u32>)
    ensures
        match r {
            Some(d) => grammar::is_hex(b) && d == grammar::hex_digit(b) && d < 16,
            None => !grammar::is_hex(b),
        },
{
    if 0x30 <= b && b <= 0x39 {
        Some((b - 0x30) as u32)
    } else if 0x61 <= b && b <= 0x66 {
        Some((b - 0x61 + 10) as u32)
    } else {
        None
    }
}

/// Exactly eight lower-case hexadecimal digits, as a number.
pub fn hex8(input: &[u8]) -> (r: Option<(&[u8], u32)>)
    ensures
        parsed(r) == grammar::hex8(input@),
        advances(r, input),
{
    if input.len() < 8 {
        return None;
    }
    let d0 = hex_digit(input[0])?;
    let d1 = hex_digit(input[1])?;
    let d2 = hex_digit(input[2])?;
    let d3 = hex_digit(input[3])?;
    let d4 = hex_digit(input[4])?;
    let d5 = hex_digit(input[5])?;
    let d6 = hex_digit(input[6])?;
    let d7 = hex_digit(input[7])?;
    let value = d0 * 0x1000_0000 + d1 * 0x100_0000 + d2 * 0x10_0000 + d3 * 0x1_0000 + d4 * 0x1000
        + d5 * 0x100 + d6 * 0x10 + d7;
    Some((slice_subrange(input, 8, input.len()), value))
}

/// The name that opens a declaration, and its explicit id where one
/// follows.
pub fn lc_ident_full(input: &[u8]) -> (r: Option<(&[u8], (IdentNs, Option<u32>))>)
    ensures
        parsed(r) == grammar::lc_ident_full(input@),
        advances(r, input),
{
    let (rest, ident) = match lc_ident_ns(ws(input)) {
        Some((rest, ident)) => (ws(rest), ident),
        None => {
            return None;
        },
    };
    if let Some(after_hash) = tok(0x23, rest) {
        if let Some((after_id, id)) = hex8(after_hash) {
            return Some((ws(after_id), (ident, Some(id))));
        }
    }
    Some((rest, (ident, None)))
}

/// Digits add up to at least as much as any of their prefixes.
proof fn lemma_dec_value_grows(s: Seq<u8>, n: int)
    requires
        0 <= n <= s.len(),
    ensures
        crate::text::dec_value(s.take(n)) <= crate::text::dec_value(s),
    decreases s.len(),
{
    if n == s.len() {
        assert(s.take(n) =~= s);
    } else {
        assert(s.drop_last().take(n) =~= s.take(n));
        lemma_dec_value_grows(s.drop_last(), n);
    }
}

/// A decimal number that is at most `max`, with white space on both sides.
#[verifier::loop_isolation(false)]
pub fn number(input: &[u8], max: u32) -> (r: Option<(&[u8], u32)>)
    ensures
        match r {
            Some((rest, n)) => grammar::number(input@, max as nat) == Some((rest@, n as nat)),
            None => grammar::number(input@, max as nat) is None,
        },
        advances(r, input),
{
    let start = ws(input);
    let (rest, digits) = match digit1(start) {
        Some(found) => found,
        None => {
            return None;
        },
    };
    proof {
        grammar::lemma_run(start@, ByteClass::Digit);
    }
    let mut value: u64 = 0;
    let mut i: usize = 0;
    while i < digits.len()
        invariant
            i <= digits@.len(),
            value == crate::text::dec_value(digits@.take(i as int)),
            value <= max,
            forall|j: int| 0 <= j < digits@.len() ==> grammar::is_digit(#[trigger] digits@[j]),
        decreases digits@.len() - i,
    {
        let d: u64 = (digits[i] - 0x30) as u64;
        assert(digits@.take(i + 1).drop_last() =~= digits@.take(i as int));
        value = value * 10 + d;
        i += 1;
        assert(value == crate::text::dec_value(digits@.take(i as int)));
        if value > max as u64 {
            proof {
                lemma_dec_value_grows(digits@, i as int);
            }
            return None;
        }
    }
    assert(digits@.take(i as int) =~= digits@);
    Some((ws(rest), value as u32))
}

} // verus!

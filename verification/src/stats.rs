//! How often each form of field argument occurs in a schema.

use vstd::prelude::*;
use crate::types::{args_view, Arg, ArgView, CombinatorView, TLSchema};

verus! {

/// The forms of a field argument.
#[derive(Debug, Clone, Copy, PartialEq, Eq, Structural)]
pub enum ArgKind {
    Par,
    Brack,
    Cond,
    Single,
}

/// How many field arguments of each form were counted. A count stops at
/// `u64::MAX`.
#[derive(Debug, Clone, Copy, PartialEq, Eq, Default)]
pub struct ArgCounts {
    pub par: u64,
    pub brack: u64,
    pub cond: u64,
    pub single: u64,
}

impl ArgCounts {
    /// The count of one form.
    pub open spec fn of(self, kind: ArgKind) -> u64 {
        match kind {
            ArgKind::Par => self.par,
            ArgKind::Brack => self.brack,
            ArgKind::Cond => self.cond,
            ArgKind::Single => self.single,
        }
    }
}

/// The form of a field argument.
pub open spec fn kind_of(a: ArgView) -> ArgKind {
    match a {
        ArgView::Par { .. } => ArgKind::Par,
        ArgView::Brack { .. } => ArgKind::Brack,
        ArgView::Cond { .. } => ArgKind::Cond,
        ArgView::Single { .. } => ArgKind::Single,
    }
}

/// How many of the arguments are of the form. The arguments inside a
/// repeated block are not looked at.
pub open spec fn of_kind(args: Seq<ArgView>, kind: ArgKind) -> nat
    decreases args.len(),
{
    if args.len() == 0 {
        0
    } else {
        of_kind(args.drop_last(), kind) + if kind_of(args.last()) == kind {
            1nat
        } else {
            0nat
        }
    }
}

/// How many arguments of the form the declarations have between them.
pub open spec fn of_kind_in(ds: Seq<CombinatorView>, kind: ArgKind) -> nat
    decreases ds.len(),
{
    if ds.len() == 0 {
        0
    } else {
        of_kind_in(ds.drop_last(), kind) + of_kind(ds.last().args, kind)
    }
}

/// A number as a count holds it.
pub open spec fn capped(n: int) -> u64 {
    if n > u64::MAX {
        u64::MAX
    } else {
        n as u64
    }
}

fn bump(c: u64) -> (r: u64)
    ensures
        r == capped(c + 1),
{
    if c < u64::MAX {
        c + 1
    } else {
        c
    }
}

fn count_args(args: &Vec<Arg>, counter: &mut ArgCounts)
    ensures
        forall|k: ArgKind|
            #![trigger final(counter).of(k)]
            final(counter).of(k) == capped(old(counter).of(k) + of_kind(args_view(args@), k)),
{
    let ghost all = args_view(args@);
    let mut i: usize = 0;
    assert(all.take(0) =~= Seq::empty());
    while i < args.len()
        invariant
            i <= args@.len(),
            all == args_view(args@),
            forall|k: ArgKind|
                #![trigger counter.of(k)]
                counter.of(k) == capped(old(counter).of(k) + of_kind(all.take(i as int), k)),
        decreases args@.len() - i,
    {
        proof {
            assert(all.take(i + 1).drop_last() =~= all.take(i as int));
            assert(all.take(i + 1).last() == args@[i as int]@);
        }
        let ghost before = *counter;
        let ghost kind = kind_of(args@[i as int]@);
        match &args[i] {
            Arg::Par(_) => {
                counter.par = bump(counter.par);
            },
            Arg::Brack(_) => {
                counter.brack = bump(counter.brack);
            },
            Arg::Cond(_) => {
                counter.cond = bump(counter.cond);
            },
            Arg::Single(_) => {
                counter.single = bump(counter.single);
            },
        }
        assert forall|k: ArgKind| #![trigger counter.of(k)]
            counter.of(k) == capped(
                old(counter).of(k) + of_kind(all.take(i + 1), k),
            ) by {
            assert(before.of(k) == capped(old(counter).of(k) + of_kind(all.take(i as int), k)));
            if k == kind {
                assert(counter.of(k) == capped(before.of(k) + 1));
            } else {
                assert(counter.of(k) == before.of(k));
            }
        }
        i += 1;
    }
    assert(all.take(i as int) =~= all);
}

/// Adds to the counts the field arguments of the constructors of a schema,
/// each by its form.
pub fn count_arg(schema: &TLSchema, counter: &mut ArgCounts)
    ensures
        forall|k: ArgKind|
            #![trigger final(counter).of(k)]
            final(counter).of(k) == capped(old(counter).of(k) + of_kind_in(schema@.constrs, k)),
{
    let ghost all = schema@.constrs;
    let mut i: usize = 0;
    assert(all.take(0) =~= Seq::empty());
    while i < schema.constrs.len()
        invariant
            i <= schema.constrs@.len(),
            all == schema@.constrs,
            forall|k: ArgKind|
                #![trigger counter.of(k)]
                counter.of(k) == capped(old(counter).of(k) + of_kind_in(all.take(i as int), k)),
        decreases schema.constrs@.len() - i,
    {
        proof {
            assert(all.take(i + 1).drop_last() =~= all.take(i as int));
            assert(all.take(i + 1).last() == schema.constrs@[i as int]@);
        }
        count_args(&schema.constrs[i].args, counter);
        i += 1;
    }
    assert(all.take(i as int) =~= all);
}

} // verus!

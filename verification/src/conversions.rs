//! Each form of a node as the node itself.

use vstd::prelude::*;
use vstd::std_specs::convert::FromSpecImpl;
use crate::types::{
    Arg, ArgBrack, ArgCond, ArgPar, ArgSingle, ResType, ResTypeAng, ResTypeNormal, Term, TermAng,
};

verus! {

impl From<ArgBrack> for Arg {
    fn from(a: ArgBrack) -> (r: Self) {
        Arg::Brack(a)
    }
}

impl FromSpecImpl<ArgBrack> for Arg {
    open spec fn obeys_from_spec() -> bool {
        true
    }

    open spec fn from_spec(a: ArgBrack) -> Self {
        Arg::Brack(a)
    }
}

impl From<ArgCond> for Arg {
    fn from(a: ArgCond) -> (r: Self) {
        Arg::Cond(a)
    }
}

impl FromSpecImpl<ArgCond> for Arg {
    open spec fn obeys_from_spec() -> bool {
        true
    }

    open spec fn from_spec(a: ArgCond) -> Self {
        Arg::Cond(a)
    }
}

impl From<ArgPar> for Arg {
    fn from(a: ArgPar) -> (r: Self) {
        Arg::Par(a)
    }
}

impl FromSpecImpl<ArgPar> for Arg {
    open spec fn obeys_from_spec() -> bool {
        true
    }

    open spec fn from_spec(a: ArgPar) -> Self {
        Arg::Par(a)
    }
}

impl From<ArgSingle> for Arg {
    fn from(a: ArgSingle) -> (r: Self) {
        Arg::Single(a)
    }
}

impl FromSpecImpl<ArgSingle> for Arg {
    open spec fn obeys_from_spec() -> bool {
        true
    }

    open spec fn from_spec(a: ArgSingle) -> Self {
        Arg::Single(a)
    }
}

impl From<ResTypeAng> for ResType {
    fn from(r: ResTypeAng) -> (res: Self) {
        ResType::Ang(r)
    }
}

impl FromSpecImpl<ResTypeAng> for ResType {
    open spec fn obeys_from_spec() -> bool {
        true
    }

    open spec fn from_spec(r: ResTypeAng) -> Self {
        ResType::Ang(r)
    }
}

impl From<ResTypeNormal> for ResType {
    fn from(r: ResTypeNormal) -> (res: Self) {
        ResType::Normal(r)
    }
}

impl FromSpecImpl<ResTypeNormal> for ResType {
    open spec fn obeys_from_spec() -> bool {
        true
    }

    open spec fn from_spec(r: ResTypeNormal) -> Self {
        ResType::Normal(r)
    }
}

impl From<TermAng> for Term {
    fn from(t: TermAng) -> (r: Self) {
        Term::Ang(t)
    }
}

impl FromSpecImpl<TermAng> for Term {
    open spec fn obeys_from_spec() -> bool {
        true
    }

    open spec fn from_spec(t: TermAng) -> Self {
        Term::Ang(t)
    }
}

} // verus!

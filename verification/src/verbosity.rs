use vstd::prelude::*;
use std::cmp::Ordering;

verus! {

/// How much diagnostic output the tool emits, from least to most.
#[derive(Clone, Copy, Debug, PartialEq, Eq, Structural, Ord)]
pub enum Verbosity {
    Quiet,
    Normal,
    Verbose,
    Trace,
}

impl Verbosity {
    /// The level's position in the order `Quiet < Normal < Verbose < Trace`;
    /// this is also the byte under which the level is stored.
    pub open spec fn spec_level(self) -> u8 {
        match self {
            Verbosity::Quiet => 0,
            Verbosity::Normal => 1,
            Verbosity::Verbose => 2,
            Verbosity::Trace => 3,
        }
    }

    /// The level's position in the order `Quiet < Normal < Verbose < Trace`.
    #[verifier::when_used_as_spec(spec_level)]
    pub fn level(self) -> (r: u8)
        ensures
            r == self.spec_level(),
    {
        match self {
            Verbosity::Quiet => 0,
            Verbosity::Normal => 1,
            Verbosity::Verbose => 2,
            Verbosity::Trace => 3,
        }
    }
}

/// The order of two levels, by their position.
pub open spec fn order_of_levels(a: Verbosity, b: Verbosity) -> Option<Ordering> {
    if a.spec_level() < b.spec_level() {
        Some(Ordering::Less)
    } else if a.spec_level() == b.spec_level() {
        Some(Ordering::Equal)
    } else {
        Some(Ordering::Greater)
    }
}

impl PartialOrd for Verbosity {
    fn partial_cmp(&self, other: &Self) -> (r: Option<Ordering>) {
        let a = self.level();
        let b = other.level();
        if a < b {
            Some(Ordering::Less)
        } else if a == b {
            Some(Ordering::Equal)
        } else {
            Some(Ordering::Greater)
        }
    }
}

impl vstd::std_specs::cmp::PartialOrdSpecImpl for Verbosity {
    open spec fn obeys_partial_cmp_spec() -> bool {
        true
    }

    open spec fn partial_cmp_spec(&self, other: &Self) -> Option<Ordering> {
        order_of_levels(*self, *other)
    }
}

impl Default for Verbosity {
    fn default() -> (r: Self)
        ensures
            r == Verbosity::Normal,
    {
        Verbosity::Normal
    }
}

/// Distinct levels sit at distinct positions, so the position order is the
/// total order of the levels: `a <= b` and `b <= a` only when `a == b`.
pub proof fn law_levels_totally_ordered(a: Verbosity, b: Verbosity)
    ensures
        a.spec_level() <= 3,
        (a.spec_level() == b.spec_level()) <==> (a == b),
        order_of_levels(a, b) == Some(Ordering::Equal) <==> a == b,
        order_of_levels(a, b) == Some(Ordering::Less) <==> order_of_levels(b, a) == Some(Ordering::Greater),
{
}

} // verus!

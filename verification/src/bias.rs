//! A two-valued tie-break marker used when a comparison is otherwise equal.
use vstd::prelude::*;
use core::cmp::Ordering;

verus! {

/// Picks the side of a run of equal-ranked entries a caller means: `Left`
/// stands for the position before them, `Right` for the position after, and
/// the two are totally ordered with `Left` first.
#[derive(Copy, Clone, Eq, PartialEq, Structural, Debug, Hash, Ord)]
pub enum Bias {
    Left,
    Right,
}

/// The three-way comparison the order on `Bias` denotes.
pub open spec fn bias_cmp(a: Bias, b: Bias) -> Ordering {
    match (a, b) {
        (Bias::Left, Bias::Left) => Ordering::Equal,
        (Bias::Left, Bias::Right) => Ordering::Less,
        (Bias::Right, Bias::Right) => Ordering::Equal,
        (Bias::Right, Bias::Left) => Ordering::Greater,
    }
}

impl PartialOrd for Bias {
    fn partial_cmp(&self, other: &Self) -> (r: Option<Ordering>) {
        Some(
            match (self, other) {
                (Bias::Left, Bias::Left) => Ordering::Equal,
                (Bias::Left, Bias::Right) => Ordering::Less,
                (Bias::Right, Bias::Right) => Ordering::Equal,
                (Bias::Right, Bias::Left) => Ordering::Greater,
            },
        )
    }
}

impl vstd::std_specs::cmp::PartialOrdSpecImpl for Bias {
    open spec fn obeys_partial_cmp_spec() -> bool {
        true
    }

    open spec fn partial_cmp_spec(&self, other: &Self) -> Option<Ordering> {
        Some(bias_cmp(*self, *other))
    }
}

} // verus!

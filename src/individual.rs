//! Candidate solutions and the interval their genes are kept in.
use vstd::prelude::*;
use crate::float_bits::{less, lt};

verus! {

/// One candidate solution: a chromosome of genes and the fitness last computed
/// for it, each the bit pattern of a double. A fresh individual has fitness
/// `0.0`, whose pattern is `0`.
#[derive(Clone, Debug)]
pub struct Individual {
    pub chromosome: Vec<u64>,
    pub fitness: u64,
}

impl Individual {
    /// An individual that has not been evaluated yet.
    pub fn new(chromosome: Vec<u64>) -> (r: Individual)
        ensures
            r.chromosome@ == chromosome@,
            r.fitness == 0,
    {
        Individual { chromosome, fitness: 0 }
    }
}

/// The closed interval `[min, max]` of doubles every gene is clamped into.
#[derive(Clone, Copy, Debug)]
pub struct Bounds {
    pub min: u64,
    pub max: u64,
}

impl Bounds {
    /// Both ends are ordered doubles and `min < max`.
    pub open spec fn wf(self) -> bool {
        less(self.min, self.max)
    }

    /// The interval `[min, max]`; `None` unless `min < max` (so also when either is NaN).
    pub fn new(min: u64, max: u64) -> (r: Option<Bounds>)
        ensures
            r.is_some() <==> less(min, max),
            r.is_some() ==> r.unwrap().min == min && r.unwrap().max == max,
    {
        if lt(min, max) {
            Some(Bounds { min, max })
        } else {
            None
        }
    }
}

/// Every gene of `s` lies in `[b.min, b.max]`.
pub open spec fn genes_within(s: Seq<u64>, b: Bounds) -> bool {
    forall|i: int| 0 <= i < s.len() ==> crate::float_bits::within(#[trigger] s[i], b.min, b.max)
}

} // verus!

//! `==` on projective points: two triples are equal when they stand for
//! the same point, whatever their coordinates.

use vstd::prelude::*;
use vstd::std_specs::cmp::PartialEqSpecImpl;
use crate::curve::{proj_eq, G1Projective};

verus! {

impl PartialEq for G1Projective {
    fn eq(&self, other: &G1Projective) -> (r: bool) {
        self.equals(other)
    }
}

impl PartialEqSpecImpl for G1Projective {
    open spec fn obeys_eq_spec() -> bool {
        true
    }

    open spec fn eq_spec(&self, other: &G1Projective) -> bool {
        proj_eq(self@, other@)
    }
}

} // verus!

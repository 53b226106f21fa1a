//! Blocks: the samples of every channel at one instant.
use vstd::prelude::*;

use crate::sample::{Sample, SampleKind};

verus! {

/// One sample for each of `N` channels, all taken at the same instant.
pub struct Block<const N: usize>(pub [Sample; N]);

impl<const N: usize> Block<N> {
    /// Every channel is a well-formed sample of `kind`.
    pub open spec fn of_kind(self, kind: SampleKind) -> bool {
        forall|i: int| 0 <= i < N ==> (#[trigger] self.0@[i]).wf() && self.0@[i].kind() == kind
    }
}

/// A block of silence: every channel holds the equilibrium value of `kind`,
/// whatever the instant.
pub fn silence<const N: usize>(kind: SampleKind) -> (r: Block<N>)
    ensures
        r.0@.len() == N,
        forall|i: int|
            0 <= i < N ==> {
                &&& (#[trigger] r.0@[i]).wf()
                &&& r.0@[i].kind() == kind
                &&& r.0@[i].value() == kind.equilibrium_value()
            },
{
    let e = kind.equilibrium();
    Block([e; N])
}

} // verus!

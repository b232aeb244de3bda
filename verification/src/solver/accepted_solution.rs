use vstd::prelude::*;

verus! {

/// Identifier of a solution that the search accepted.
#[derive(Copy, Clone, Debug, Hash, PartialEq, Eq, Structural)]
pub struct AcceptedSolutionId(usize);

impl AcceptedSolutionId {
    pub closed spec fn spec_id(&self) -> usize {
        self.0
    }

    pub fn new(id: usize) -> (r: Self)
        ensures
            r.spec_id() == id,
    {
        AcceptedSolutionId(id)
    }

    pub fn get(&self) -> (r: usize)
        ensures
            r == self.spec_id(),
    {
        self.0
    }
}

} // verus!

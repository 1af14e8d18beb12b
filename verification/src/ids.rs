use vstd::prelude::*;

verus! {

/// The id that follows `last`: ids count up from 1 and wrap from the
/// largest u32 back to 1, so 0 is never produced.
pub open spec fn spec_next_id(last: u32) -> u32 {
    if last == 0xFFFFFFFFu32 {
        1u32
    } else {
        (last + 1) as u32
    }
}

/// Allocates the local ids that identify this host's end of each stream.
pub struct LocalIdAllocator {
    last: u32,
}

impl LocalIdAllocator {
    pub closed spec fn spec_last(&self) -> u32 {
        self.last
    }

    pub fn new() -> (r: Self)
        ensures
            r.spec_last() == 0,
    {
        LocalIdAllocator { last: 0 }
    }

    /// Hands out the next local id.
    pub fn next_id(&mut self) -> (r: u32)
        ensures
            r == spec_next_id(old(self).spec_last()),
            r != 0,
            final(self).spec_last() == r,
    {
        if self.last == 0xFFFFFFFFu32 {
            self.last = 1;
        } else {
            self.last = self.last + 1;
        }
        self.last
    }
}

/// Monotonicity law: each id is strictly larger than the one before it,
/// except at the single wrap point where the id after 0xFFFFFFFF is 1,
/// and an id is never 0.
pub proof fn lemma_local_id_monotonic(last: u32)
    ensures
        spec_next_id(last) != 0,
        last < 0xFFFFFFFFu32 ==> spec_next_id(last) > last,
        last == 0xFFFFFFFFu32 ==> spec_next_id(last) == 1,
{
}

} // verus!

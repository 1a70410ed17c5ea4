//! Permanent memory: the user's identity and core preferences. Nothing is
//! stored in it yet.
use vstd::prelude::*;

verus! {

pub struct PermanentStore;

impl PermanentStore {
    pub fn new() -> (r: Result<PermanentStore, ()>)
        ensures
            r is Ok,
    {
        Ok(PermanentStore)
    }
}

} // verus!

//! The read-side resolver: the full-collection listing.

use crate::codec::decode_foos;
use crate::error::Error;
use crate::store::Collection;
use crate::types::FooPayload;
use vstd::pervasive::unreached;
use vstd::prelude::*;

verus! {

/// The query root: one field per read operation.
pub struct Query;

impl Query {
    /// Fetches every document in the collection, decodes each into the
    /// typed object, and returns the ordered sequence. On a well-formed
    /// collection every stored document decodes, so the listing succeeds
    /// and returns exactly the stored aggregates in storage order.
    pub fn foo_payloads(&self, state: &Collection) -> (r: Result<Vec<FooPayload>, Error>)
        requires
            state.wf(),
        ensures
            r matches Ok(fs) && fs.deep_view() == state.foos(),
    {
        let docs = state.find_all();
        proof {
            state.lemma_foos_decode();
        }
        match decode_foos(&docs) {
            Ok(fs) => Ok(fs),
            Err(_) => unreached(),
        }
    }
}

} // verus!

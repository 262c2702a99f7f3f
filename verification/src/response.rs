//! The response envelope handed back to the host on acceptance.

use vstd::prelude::*;
use crate::assets::Transfer;

verus! {

/// What an accepted invocation hands back to the host: the transfers to
/// forward for continued settlement, plus an opaque data payload.
#[derive(Debug)]
pub struct CallResponse {
    pub transfers: Vec<Transfer>,
    pub data: Vec<u8>,
}

impl CallResponse {
    /// Forwards the given transfers unchanged, with an empty data payload.
    /// The transfers are moved, never reconstructed: acceptance signals
    /// "unchanged, approved for continued settlement".
    pub fn forward(transfers: Vec<Transfer>) -> (r: CallResponse)
        ensures
            r.transfers@ == transfers@,
            r.data@ == Seq::<u8>::empty(),
    {
        let r = CallResponse { transfers, data: Vec::new() };
        proof {
            assert(r.data@ =~= Seq::<u8>::empty());
        }
        r
    }
}

} // verus!

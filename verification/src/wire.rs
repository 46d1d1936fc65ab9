//! Wire-protocol payloads exchanged with the peer during a negotiation.
//!
//! The engine treats the bytes beyond the envelope as opaque: they are
//! passed through to the negotiation task unread.

use vstd::prelude::*;

verus! {

/// One message of the contract-setup negotiation protocol.
#[derive(PartialEq, Eq, Debug)]
pub struct SetupMsg {
    pub payload: Vec<u8>,
}

/// One message of the rollover negotiation protocol.
#[derive(PartialEq, Eq, Debug)]
pub struct RollOverMsg {
    pub payload: Vec<u8>,
}

} // verus!

use vstd::prelude::*;

use crate::consensus_client::StateMachineHeight;
use crate::router::Post;

verus! {

/// A membership proof at a previously verified height. The proof bytes are
/// opaque: their format belongs to the concrete consensus client.
#[derive(Clone, Debug)]
pub struct Proof {
    pub height: StateMachineHeight,
    pub proof: Vec<u8>,
}

/// A batch of requests together with the membership proof that they are
/// included in the remote chain's state.
#[derive(Clone, Debug)]
pub struct RequestMessage {
    pub requests: Vec<Post>,
    pub proof: Proof,
}

} // verus!
